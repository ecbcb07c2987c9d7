//! Operating-system randomness.
use vstd::prelude::*;

verus! {

/// `len` bytes from `getrandom::getrandom`, or `None` when the operating
/// system refuses. The bytes themselves are chance: nothing is claimed of them
/// but their number.
#[verifier::external_body]
pub(crate) fn random_bytes(len: usize) -> (out: Option<Vec<u8>>)
    ensures
        out matches Some(v) ==> v@.len() == len,
{
    let mut buffer = vec![0u8; len];
    match getrandom::getrandom(&mut buffer) {
        Ok(()) => Some(buffer),
        Err(_) => None,
    }
}

} // verus!
