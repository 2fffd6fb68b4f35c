//! The one source of chance in the rules.

use vstd::prelude::*;

verus! {

/// Calls `rand::random::<u32>()`, which samples the thread-local generator.
/// Nothing is claimed of the number that comes back: every `u32` is a
/// possible outcome, and two calls need not agree.
#[verifier::external_body]
pub(crate) fn random_draw() -> u32 {
    rand::random::<u32>()
}

} // verus!
