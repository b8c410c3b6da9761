//! What the standard library's UTF-8 check is taken to do.

use vstd::prelude::*;
use vstd::string::StringSliceAdditionalSpecFns;
use vstd::utf8::{partial_valid_utf8, valid_utf8};
use core::str::Utf8Error;

verus! {

/// `core::str::Utf8Error`, the error of a failed UTF-8 check. Nothing is
/// known of a value of it but what its two getters return.
#[verifier::external_type_specification]
#[verifier::external_body]
pub struct ExUtf8Error(Utf8Error);

/// What `Utf8Error::valid_up_to` returns for the error `e`.
pub uninterp spec fn fault_offset(e: Utf8Error) -> usize;

/// What `Utf8Error::error_len` returns for the error `e`.
pub uninterp spec fn fault_length(e: Utf8Error) -> Option<usize>;

/// The length of the offending run that `core::str::from_utf8` reports for
/// `bytes`, `None` where the input ended inside a character.
pub uninterp spec fn invalid_run(bytes: Seq<u8>) -> Option<usize>;

/// `k` is the length of the longest prefix of `bytes` that is valid UTF-8.
pub open spec fn is_valid_prefix(bytes: Seq<u8>, k: int) -> bool {
    &&& partial_valid_utf8(bytes, k)
    &&& forall|j: int| k < j <= bytes.len() ==> !partial_valid_utf8(bytes, j)
}

/// The length of the longest prefix of `bytes` that is valid UTF-8.
pub open spec fn valid_prefix(bytes: Seq<u8>) -> int {
    choose|k: int| is_valid_prefix(bytes, k)
}

/// There is only one longest valid prefix.
pub proof fn lemma_valid_prefix_is(bytes: Seq<u8>, k: int)
    requires
        is_valid_prefix(bytes, k),
    ensures
        valid_prefix(bytes) == k,
{
    let c = valid_prefix(bytes);
    assert(is_valid_prefix(bytes, c));
    if c < k {
        assert(!partial_valid_utf8(bytes, k));
    } else if k < c {
        assert(!partial_valid_utf8(bytes, c));
    }
}

/// `Utf8Error::valid_up_to`: the result is given a name, no more.
pub assume_specification[ Utf8Error::valid_up_to ](e: &Utf8Error) -> (n: usize)
    ensures
        n == fault_offset(*e),
;

/// `Utf8Error::error_len`: the result is given a name, no more.
pub assume_specification[ Utf8Error::error_len ](e: &Utf8Error) -> (n: Option<usize>)
    ensures
        n == fault_length(*e),
;

/// `core::str::from_utf8`. It succeeds exactly on valid UTF-8, and then gives
/// the string slice whose bytes are the bytes it was given. Its error states
/// the length of the longest valid prefix, as the documentation of
/// `valid_up_to` says, and the length of the offending run, which is only
/// named here.
#[verifier::external_body]
pub(crate) fn from_utf8(bytes: &[u8]) -> (r: Result<&str, Utf8Error>)
    ensures
        r is Ok <==> valid_utf8(bytes@),
        r matches Ok(s) ==> s.spec_bytes() == bytes@,
        r matches Err(e) ==> is_valid_prefix(bytes@, fault_offset(e) as int) && fault_length(e)
            == invalid_run(bytes@),
{
    core::str::from_utf8(bytes)
}

} // verus!
