use vstd::prelude::*;
use vstd::utf8::{decode_utf8, decode_utf8_encode_utf8, encode_utf8, valid_utf8};
use crate::utils::http_utils::{body_text, prefix_bytes};
use crate::utils::simple_error::SimpleError;

verus! {

/// How many times the clock tries to connect to the Wi-Fi network.
pub const WIFI_ATTEMPTS: u32 = 3;

/// Seconds to wait after a failed attempt before the next one.
pub const WIFI_RETRY_PAUSE_SECS: u64 = 2;

/// Size of the buffer that a text response is read into.
pub const TEXT_BODY_CAPACITY: usize = 1024;

/// Size of the buffer that a raw response (a picture) is read into.
pub const RAW_BODY_CAPACITY: usize = 100000;

/// Whether to wait before the next connection attempt, after attempt number
/// `attempt` (counted from 1) ended as `connected` says: only after a failed
/// attempt that is not the last. All attempts are made in any case.
pub fn pause_after_attempt(attempt: u32, connected: bool) -> (r: bool)
    ensures
        r == (!connected && attempt < WIFI_ATTEMPTS),
{
    !connected && attempt < WIFI_ATTEMPTS
}

pub open spec fn decode_error_text() -> Seq<char> {
    "Error decoding response body"@
}

/// The text of a response read into the text buffer `buf`, of which
/// `bytes_read` bytes were filled; an error where they are not valid UTF-8.
/// A longer response is cut to the buffer: the text's UTF-8 encoding is the
/// first `bytes_read` bytes of the buffer, so at most `TEXT_BODY_CAPACITY`.
pub fn decode_text_body(buf: &[u8], bytes_read: usize) -> (r: Result<String, SimpleError>)
    requires
        buf@.len() == TEXT_BODY_CAPACITY,
        bytes_read <= buf@.len(),
    ensures
        r is Ok <==> valid_utf8(buf@.subrange(0, bytes_read as int)),
        r matches Ok(s) ==> s@ == decode_utf8(buf@.subrange(0, bytes_read as int)),
        r matches Ok(s) ==> encode_utf8(s@) == buf@.subrange(0, bytes_read as int)
            && encode_utf8(s@).len() <= TEXT_BODY_CAPACITY,
        r matches Err(e) ==> e@ == decode_error_text(),
{
    let body = prefix_bytes(buf, bytes_read);
    match body_text(body.as_slice()) {
        Some(s) => {
            proof {
                decode_utf8_encode_utf8(buf@.subrange(0, bytes_read as int));
            }
            Ok(s)
        },
        None => Err(SimpleError::new("Error decoding response body")),
    }
}

} // verus!
