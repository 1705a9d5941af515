//! Shortening a text to a number of bytes, for log lines.

use crate::decimal::{decimal_digits, push_decimal};
use crate::text::{append, chars_of, copy_str, string_of};
use vstd::prelude::*;
use vstd::string::StringSliceAdditionalSpecFns;
use vstd::utf8::{
    decode_utf8, encode_utf8, encode_utf8_decode_utf8, encode_utf8_valid_utf8, is_char_boundary,
    is_char_boundary_start_end_of_seq,
};

verus! {

/// The last character boundary of `bytes` at or before `max`.
pub open spec fn boundary_before(bytes: Seq<u8>, max: int) -> int
    decreases max,
{
    if max <= 0 {
        0
    } else if is_char_boundary(bytes, max) {
        max
    } else {
        boundary_before(bytes, max - 1)
    }
}

/// A text of at most `max` bytes as it is; a longer one cut at the last
/// character boundary at or before `max`, with a note of how many bytes
/// were left out. The flag says whether the text was cut.
pub open spec fn truncated(s: Seq<char>, max: int) -> (Seq<char>, bool) {
    let bytes = encode_utf8(s);
    if bytes.len() <= max {
        (s, false)
    } else {
        let end = boundary_before(bytes, max);
        (
            decode_utf8(bytes.subrange(0, end)) + "… [truncated "@ + decimal_digits(
                (bytes.len() - end) as nat,
            ) + " bytes]"@,
            true,
        )
    }
}

/// Shortens `s` to at most `max` bytes of its own, never inside a
/// character.
pub fn truncate_str_by_bytes(s: &str, max: usize) -> (r: (String, bool))
    ensures
        r.0@ == truncated(s@, max as int).0,
        r.1 == truncated(s@, max as int).1,
{
    let n = s.as_bytes().len();
    if n <= max {
        return (copy_str(s), false);
    }
    let ghost bytes = s.spec_bytes();
    proof {
        encode_utf8_valid_utf8(s@);
        is_char_boundary_start_end_of_seq(bytes);
    }
    let mut end: usize = max;
    while end > 0 && !s.is_char_boundary(end)
        invariant
            end <= max,
            bytes == s.spec_bytes(),
            boundary_before(bytes, max as int) == boundary_before(bytes, end as int),
        decreases end,
    {
        end -= 1;
    }
    let (head, _) = s.split_at(end);
    proof {
        encode_utf8_decode_utf8(head@);
        assert(head.spec_bytes() == bytes.subrange(0, end as int));
    }
    let mut out = chars_of(head);
    append(&mut out, &chars_of("… [truncated "));
    push_decimal(&mut out, (n - end) as u64);
    append(&mut out, &chars_of(" bytes]"));
    (string_of(&out), true)
}

} // verus!
