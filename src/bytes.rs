//! Byte-bounded reading: the first `b` bytes of an input, shown as text with
//! every invalid UTF-8 sequence replaced rather than refused.

use vstd::prelude::*;
use vstd::utf8::{decode_utf8, valid_utf8};

verus! {

/// The text that lossy UTF-8 decoding gives for `b`.
pub uninterp spec fn lossy_utf8(b: Seq<u8>) -> Seq<char>;

/// Relies on `String::from_utf8_lossy`: the text depends on the bytes alone,
/// valid UTF-8 decodes as it stands, and each invalid sequence becomes
/// U+FFFD instead of failing.
#[verifier::external_body]
fn decode_lossy(b: &[u8]) -> (r: String)
    ensures
        r@ == lossy_utf8(b@),
        valid_utf8(b@) ==> r@ == decode_utf8(b@),
{
    String::from_utf8_lossy(b).into_owned()
}

/// Number of bytes read of an input holding `available` bytes when at most
/// `b` are asked for.
pub open spec fn bytes_to_read(b: nat, available: nat) -> nat {
    if b <= available {
        b
    } else {
        available
    }
}

/// Returns how many bytes to read of an input holding `available` bytes when
/// at most `b` are asked for.
pub fn take_bytes(available: usize, b: u32) -> (k: usize)
    ensures
        k == bytes_to_read(b as nat, available as nat),
{
    if (b as u64) <= (available as u64) {
        b as usize
    } else {
        available
    }
}

/// The text shown for the first `b` bytes of `data`.
pub open spec fn shown_bytes(data: Seq<u8>, b: nat) -> Seq<char> {
    lossy_utf8(data.take(bytes_to_read(b, data.len()) as int))
}

/// Returns the first `b` bytes of `data` (all of it when shorter) as text,
/// decoded leniently.
pub fn render_bytes(data: &[u8], b: u32) -> (r: String)
    ensures
        r@ == shown_bytes(data@, b as nat),
        valid_utf8(data@.take(bytes_to_read(b as nat, data@.len()) as int)) ==> r@ == decode_utf8(
            data@.take(bytes_to_read(b as nat, data@.len()) as int),
        ),
{
    let k = take_bytes(data.len(), b);
    let head = vstd::slice::slice_subrange(data, 0, k);
    proof {
        assert(head@ =~= data@.take(k as int));
    }
    decode_lossy(head)
}

} // verus!
