use vstd::prelude::*;

verus! {

/// Relies on rand::random::<bool>: a boolean drawn uniformly from the
/// thread-local generator. Nothing is promised of the outcome.
#[verifier::external_body]
pub(crate) fn random_cell() -> bool {
    rand::random::<bool>()
}

} // verus!
