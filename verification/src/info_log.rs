//! Retrieval of a driver object's diagnostic log.
//!
//! The driver offers no single call for it. The log's length is asked for
//! first, a buffer of exactly that length is filled with placeholder bytes, the
//! driver writes the log into the buffer, and the buffer is then read as text.
//! This module holds the two computations of that protocol.

use vstd::prelude::*;
use vstd::utf8::decode_utf8;
use vstd::utf8::encode_utf8;
use vstd::utf8::valid_utf8;

verus! {

/// The byte a log buffer holds wherever the driver has not written: a space.
pub const PLACEHOLDER: u8 = 0x20;

/// The character that stands in for bytes that are not text.
pub const REPLACEMENT_CHARACTER: char = '\u{FFFD}';

/// A buffer of `len` placeholder bytes.
pub open spec fn blank(len: int) -> Seq<u8> {
    Seq::new(len as nat, |i: int| PLACEHOLDER)
}

/// Allocates the buffer that the driver is asked to write a log of `len`
/// bytes into.
pub(crate) fn whitespace_buffer(len: i32) -> (buffer: Vec<u8>)
    requires
        len >= 0,
    ensures
        buffer@ == blank(len as int),
{
    let target: usize = len as usize;
    let mut buffer: Vec<u8> = Vec::with_capacity(target);
    while buffer.len() < target
        invariant
            buffer@.len() <= target,
            buffer@ == blank(buffer@.len() as int),
        decreases target - buffer@.len(),
    {
        buffer.push(PLACEHOLDER);
        assert(buffer@ =~= blank(buffer@.len() as int));
    }
    buffer
}

/// The text that `String::from_utf8_lossy` reads `bytes` as.
pub uninterp spec fn utf8_lossy(bytes: Seq<u8>) -> Seq<char>;

/// Reads a log buffer as text with `String::from_utf8_lossy`.
///
/// Not proved; taken from the documentation of the standard library: the
/// result depends on the bytes alone, bytes that are well-formed UTF-8 are
/// decoded as they stand, and otherwise each ill-formed sequence is replaced
/// by U+FFFD, so that the replacement character occurs in the result.
#[verifier::external_body]
pub(crate) fn lossy_text(bytes: &Vec<u8>) -> (text: String)
    ensures
        text@ == utf8_lossy(bytes@),
        valid_utf8(bytes@) ==> text@ == decode_utf8(bytes@),
        !valid_utf8(bytes@) ==> text@.contains(REPLACEMENT_CHARACTER),
{
    String::from_utf8_lossy(bytes).into_owned()
}

/// Whether `text` is what the buffer `log` reads as: its lossy reading, which
/// is the plain decoding wherever the buffer is well-formed UTF-8, and which is
/// empty only if the buffer is.
pub open spec fn reads_as(log: Seq<u8>, text: Seq<char>) -> bool {
    &&& text == utf8_lossy(log)
    &&& valid_utf8(log) ==> text == decode_utf8(log)
    &&& log.len() > 0 ==> text.len() > 0
}

/// Whether every byte of `log` is an ASCII character.
pub open spec fn is_ascii_log(log: Seq<u8>) -> bool {
    forall|i: int| 0 <= i < log.len() ==> log[i] < 0x80u8
}

/// A log of ASCII characters alone is well-formed UTF-8 and reads as those
/// characters, byte for byte.
pub proof fn lemma_ascii_log_reads_plain(log: Seq<u8>, text: Seq<char>)
    requires
        is_ascii_log(log),
        reads_as(log, text),
    ensures
        valid_utf8(log),
        text.len() == log.len(),
        forall|i: int| 0 <= i < log.len() ==> (#[trigger] text[i]) as u8 == log[i],
{
    let chars = Seq::new(log.len(), |i: int| log[i] as char);
    assert(vstd::utf8::is_ascii_chars(chars));
    vstd::utf8::is_ascii_chars_encode_utf8(chars);
    assert(encode_utf8(chars) =~= log);
    vstd::utf8::encode_utf8_valid_utf8(chars);
    vstd::utf8::encode_utf8_decode_utf8(chars);
}

/// Reads the buffer that came back from the driver as the diagnostic text.
pub fn diagnostic(buffer: &Vec<u8>) -> (text: String)
    ensures
        reads_as(buffer@, text@),
{
    let text = lossy_text(buffer);
    proof {
        if buffer@.len() > 0 && valid_utf8(buffer@) {
            assert(decode_utf8(buffer@).len() > 0);
        }
    }
    text
}

} // verus!
