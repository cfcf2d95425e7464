//! Calls into `bytes`, `base64` and the UTF-8 decoders of the standard library.

use base64::prelude::{Engine, BASE64_STANDARD};
use bytes::BufMut;
use vstd::prelude::*;
use vstd::string::*;
use vstd::utf8::*;

verus! {

/// The base64 text of `data` in the standard alphabet, with padding.
pub uninterp spec fn base64_text(data: Seq<u8>) -> Seq<char>;

/// The text that lossy UTF-8 decoding makes of `bytes`.
pub uninterp spec fn lossy_text(bytes: Seq<u8>) -> Seq<char>;

/// `bytes::BufMut::put_slice` on a vector: appends the bytes of `src` and changes nothing else.
#[verifier::external_body]
pub(crate) fn put_slice(out: &mut Vec<u8>, src: &[u8])
    ensures
        final(out)@ == old(out)@ + src@,
{
    out.put_slice(src);
}

/// `base64::Engine::encode` of the engine `BASE64_STANDARD`: the result is a function of the
/// bytes alone, named `base64_text`. The call panics where the encoded text would not fit in
/// memory, so the encoded length is bounded here.
#[verifier::external_body]
pub(crate) fn base64_encode(data: &[u8]) -> (r: String)
    requires
        (data@.len() + 2) / 3 * 4 <= isize::MAX,
    ensures
        r@ == base64_text(data@),
{
    BASE64_STANDARD.encode(data)
}

/// `std::str::from_utf8`: succeeds on valid UTF-8 alone, and then gives the string of exactly
/// these bytes.
#[verifier::external_body]
pub(crate) fn utf8_str(bytes: &[u8]) -> (r: Option<&str>)
    ensures
        r is Some <==> valid_utf8(bytes@),
        r matches Some(s) ==> s@ == decode_utf8(bytes@),
{
    std::str::from_utf8(bytes).ok()
}

/// `String::from_utf8_lossy`: the result is a function of the bytes alone, named `lossy_text`;
/// bytes that are valid UTF-8 are decoded unchanged.
#[verifier::external_body]
pub(crate) fn utf8_lossy(bytes: &[u8]) -> (r: String)
    ensures
        r@ == lossy_text(bytes@),
        valid_utf8(bytes@) ==> r@ == decode_utf8(bytes@),
{
    String::from_utf8_lossy(bytes).into_owned()
}

} // verus!
