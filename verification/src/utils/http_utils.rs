use vstd::prelude::*;
use vstd::utf8::{decode_utf8, decode_utf8_encode_utf8, encode_utf8, valid_utf8};

verus! {

/// `std::str::from_utf8`, and the text copied into a `String`. Its
/// documentation says that it succeeds exactly when the bytes are valid
/// UTF-8; the text is then what they encode.
#[verifier::external_body]
fn utf8_text(bytes: &[u8]) -> (r: Option<String>)
    ensures
        r is Some <==> valid_utf8(bytes@),
        r matches Some(s) ==> s@ == decode_utf8(bytes@),
{
    std::str::from_utf8(bytes).ok().map(|s| s.to_owned())
}

/// The bytes of a response body: the first `bytes_read` bytes of the buffer
/// that the response was read into (the whole buffer if it holds fewer).
pub fn truncate_body(buf: Vec<u8>, bytes_read: usize) -> (r: Vec<u8>)
    ensures
        bytes_read <= buf@.len() ==> r@ == buf@.subrange(0, bytes_read as int),
        bytes_read > buf@.len() ==> r@ == buf@,
{
    let mut buf = buf;
    buf.truncate(bytes_read);
    buf
}

/// The text of a response body; `None` where the bytes are not valid UTF-8.
/// The text's UTF-8 encoding is the body itself.
pub fn body_text(body: &[u8]) -> (r: Option<String>)
    ensures
        r is Some <==> valid_utf8(body@),
        r matches Some(s) ==> s@ == decode_utf8(body@) && encode_utf8(s@) == body@,
{
    let r = utf8_text(body);
    proof {
        if valid_utf8(body@) {
            decode_utf8_encode_utf8(body@);
        }
    }
    r
}

/// The first `n` bytes of `bytes`.
pub fn prefix_bytes(bytes: &[u8], n: usize) -> (r: Vec<u8>)
    requires
        n <= bytes@.len(),
    ensures
        r@ == bytes@.subrange(0, n as int),
{
    let mut out: Vec<u8> = Vec::new();
    for i in 0..n
        invariant
            n <= bytes@.len(),
            out@ == bytes@.subrange(0, i as int),
    {
        out.push(bytes[i]);
        assert(out@ =~= bytes@.subrange(0, i + 1));
    }
    out
}

} // verus!
