//! Shared ownership of immutable parts.

use vstd::prelude::*;
use std::sync::Arc;

verus! {

/// A second owner of what `part` points to.
///
/// Trusted: `Arc::clone` of the standard library makes another pointer to the same allocation, so
/// the value behind the two pointers is the same.
#[verifier::external_body]
pub(crate) fn share<T>(part: &Arc<T>) -> (r: Arc<T>)
    ensures
        r == *part,
{
    Arc::clone(part)
}

} // verus!
