//! The matchers: what can be asked of a value under test, by its type.

pub mod boolean;
pub mod collection;
pub mod equality;
pub mod hashmap;
pub mod numeric;
pub mod option;
pub mod result;
pub mod shown;
pub mod string;
