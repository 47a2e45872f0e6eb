use vstd::prelude::*;
use crate::address::Address;
use crate::error::BundleError;

verus! {

/// Whether `authority` is among the signers of a request.
pub open spec fn is_signed_by(proofs: Seq<Address>, authority: Seq<u8>) -> bool {
    exists|i: int| 0 <= i < proofs.len() && (#[trigger] proofs[i])@ == authority
}

/// What the guard answers: the authority must have signed, and a paused
/// manager admits only the operations that are exempt.
pub open spec fn guard_outcome(
    authority: Seq<u8>,
    proofs: Seq<Address>,
    paused: bool,
    exempt: bool,
) -> Result<(), BundleError> {
    if !is_signed_by(proofs, authority) {
        Err(BundleError::Unauthorized)
    } else if paused && !exempt {
        Err(BundleError::ManagerPaused)
    } else {
        Ok(())
    }
}

/// Looks for `authority` among the signers.
pub fn has_proof(proofs: &Vec<Address>, authority: &Address) -> (b: bool)
    ensures
        b == is_signed_by(proofs@, authority@),
{
    let n = proofs.len();
    let mut i: usize = 0;
    while i < n
        invariant
            n == proofs@.len(),
            i <= n,
            forall|k: int| 0 <= k < i ==> (#[trigger] proofs@[k])@ != authority@,
        decreases n - i,
    {
        if proofs[i].same(authority) {
            return true;
        }
        i += 1;
    }
    false
}

/// The check that stands before every operation on an existing record.
pub fn authority_guard(
    authority: &Address,
    proofs: &Vec<Address>,
    paused: bool,
    exempt: bool,
) -> (r: Result<(), BundleError>)
    ensures
        r == guard_outcome(authority@, proofs@, paused, exempt),
{
    if !has_proof(proofs, authority) {
        Err(BundleError::Unauthorized)
    } else if paused && !exempt {
        Err(BundleError::ManagerPaused)
    } else {
        Ok(())
    }
}

} // verus!
