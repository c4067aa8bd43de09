//! A fluent assertion chain evaluator with a per-scope fixture lifecycle.
//!
//! The library decides and the caller acts. A chain of matcher outcomes is reduced
//! to one result, to the event that reports it and to the message of the failure
//! to raise ([`assertion`], [`events`]); the reporter counts the events and decides
//! which of them are rendered ([`reporter`], [`keys`], [`console`]); the fixtures of
//! a scope are laid out around a test body step by step ([`fixtures`]). Raising,
//! printing and running callbacks are left to the caller.
//!
//! The [`matchers`] add the steps of a chain; [`sentence`] words them; [`text`]
//! holds the string helpers that the rest is built on.

pub mod assertion;
pub mod console;
pub mod events;
pub mod fixtures;
pub mod keys;
pub mod matchers;
pub mod reporter;
pub mod sentence;
pub mod text;
