//! How a value is shown in a sentence.

use vstd::prelude::*;

verus! {

/// Writes a value as its `Debug` implementation formats it. What comes out is the
/// implementation's choice, so nothing is claimed of the result.
#[verifier::external_body]
pub(crate) fn debug_text<T: core::fmt::Debug + ?Sized>(value: &T) -> (text: String) {
    format!("{:?}", value)
}

} // verus!
