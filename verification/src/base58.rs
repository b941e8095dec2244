//! Base58 text of a byte string, as the `bs58` crate computes it.

use vstd::prelude::*;

verus! {

/// The Base58 text (Bitcoin alphabet) that `bs58` gives for `bytes`.
pub uninterp spec fn base58_text(bytes: Seq<u8>) -> Seq<char>;

/// Calls `bs58::encode(bytes).into_string()`.
///
/// Trusted: the text returned is a function of the input bytes alone, named
/// `base58_text`, and it is not empty unless the input is: every byte that is
/// not zero gives at least one digit, and every leading zero byte gives one.
/// The call sizes its buffer for every input, so it does not fail.
#[verifier::external_body]
pub(crate) fn encode_base58(bytes: &[u8]) -> (text: String)
    ensures
        text@ == base58_text(bytes@),
        bytes@.len() > 0 ==> text@.len() > 0,
{
    bs58::encode(bytes).into_string()
}

} // verus!
