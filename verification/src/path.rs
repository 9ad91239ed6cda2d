//! The path argument: a buffer that holds zero-terminated UTF-8 text.

use crate::status::Error;
use vstd::prelude::*;
use vstd::utf8::{decode_utf8, encode_utf8, encode_utf8_decode_utf8, valid_utf8};

verus! {

/// Whether the byte at `at` is the terminator: the first zero in the buffer.
pub open spec fn is_terminator(buffer: Seq<u8>, at: int) -> bool {
    &&& 0 <= at < buffer.len()
    &&& buffer[at] == 0
    &&& forall|i: int| 0 <= i < at ==> buffer[i] != 0
}

/// The bytes before the terminator, if the buffer has one.
pub open spec fn terminated_bytes(buffer: Seq<u8>) -> Option<Seq<u8>> {
    if exists|at: int| is_terminator(buffer, at) {
        Some(buffer.take(choose|at: int| is_terminator(buffer, at)))
    } else {
        None
    }
}

/// The path that a buffer holds: the text that the bytes before the
/// terminator spell in UTF-8. A buffer without a terminator, or with bytes
/// that are not UTF-8, holds none.
pub open spec fn path_text(buffer: Seq<u8>) -> Option<Seq<char>> {
    match terminated_bytes(buffer) {
        Some(bytes) => if valid_utf8(bytes) {
            Some(decode_utf8(bytes))
        } else {
            None
        },
        None => None,
    }
}

/// `core::str::from_utf8`: the text that a run of bytes spells. The standard
/// library accepts the bytes exactly when they are well-formed UTF-8, and
/// the text it hands back is those same bytes, so that encoding it gives
/// them again. Neither is proved here.
#[verifier::external_body]
fn utf8_text(bytes: &[u8]) -> (text: Option<&str>)
    ensures
        text is Some <==> valid_utf8(bytes@),
        text matches Some(s) ==> encode_utf8(s@) == bytes@,
{
    core::str::from_utf8(bytes).ok()
}

/// The path that a buffer holds.
pub fn decode_path(buffer: &[u8]) -> (path: Result<String, Error>)
    ensures
        match path {
            Ok(text) => path_text(buffer@) == Some(text@),
            Err(e) => e == Error::InvalidPath && path_text(buffer@) is None,
        },
{
    let len: usize = buffer.len();
    let mut end: usize = 0;
    while end < len && buffer[end] != 0
        invariant
            end <= len,
            len == buffer@.len(),
            forall|i: int| 0 <= i < end ==> buffer@[i] != 0,
        decreases len - end,
    {
        end = end + 1;
    }
    if end == len {
        assert forall|at: int| !is_terminator(buffer@, at) by {}
        return Err(Error::InvalidPath);
    }
    proof {
        assert(is_terminator(buffer@, end as int));
        let chosen = choose|at: int| is_terminator(buffer@, at);
        assert(chosen == end) by {
            if chosen < end {
                assert(buffer@[chosen] != 0);
            } else if chosen > end {
                assert(buffer@[end as int] != 0);
            }
        }
    }
    let bytes: &[u8] = vstd::slice::slice_subrange(buffer, 0, end);
    assert(bytes@ =~= buffer@.take(end as int));
    match utf8_text(bytes) {
        Some(text) => {
            proof {
                encode_utf8_decode_utf8(text@);
            }
            Ok(text.to_owned())
        },
        None => Err(Error::InvalidPath),
    }
}

} // verus!
