//! Base64 (the standard alphabet with padding), through the `base64` crate.
use vstd::prelude::*;
use base64::Engine;

verus! {

/// What `STANDARD.decode` returns for the text `s`: the decoded bytes, or
/// the text of the error it reports.
pub uninterp spec fn base64_decoded(s: Seq<char>) -> Result<Seq<u8>, Seq<char>>;

/// What `STANDARD.encode` returns for the bytes `b`.
pub uninterp spec fn base64_encoded(b: Seq<u8>) -> Seq<char>;

/// `base64::engine::general_purpose::STANDARD.decode`: the bytes that the
/// base64 text `s` encodes, or the text (`Display`) of the decoding error
/// the crate reports. The contract claims only that the result is that
/// function of `s`.
#[verifier::external_body]
pub(crate) fn base64_decode(s: &str) -> (r: Result<Vec<u8>, String>)
    ensures
        r.is_ok() == base64_decoded(s@).is_ok(),
        r matches Ok(v) ==> v@ == base64_decoded(s@)->Ok_0,
        r matches Err(e) ==> e@ == base64_decoded(s@)->Err_0,
{
    match base64::engine::general_purpose::STANDARD.decode(s) {
        Ok(v) => Ok(v),
        Err(e) => Err(e.to_string()),
    }
}

/// `base64::engine::general_purpose::STANDARD.encode`: the padded base64
/// text of `b`, which `STANDARD.decode` reads back as `b` (the round trip
/// that the crate documents and tests). The crate panics when the text's
/// length overflows `usize`, which the bound on `b`'s length rules out.
#[verifier::external_body]
pub(crate) fn base64_encode(b: &[u8]) -> (r: String)
    requires
        b@.len() <= usize::MAX / 2,
    ensures
        r@ == base64_encoded(b@),
        base64_decoded(r@) is Ok,
        base64_decoded(r@)->Ok_0 == b@,
{
    base64::engine::general_purpose::STANDARD.encode(b)
}

} // verus!
