//! Small helpers that the rest of the crate and its callers share.

use vstd::prelude::*;
use vstd::string::*;
use vstd::utf8::*;

verus! {

/// How long a watch request is held open before it is answered empty, in milliseconds.
pub const DEFAULT_TIMEOUT: u64 = 40000;

/// A value to return from a function that has wound everything down, in place of `()`: it
/// cannot be had by falling off the end of a function.
#[derive(Clone, Copy, Debug, PartialEq, Eq, Structural)]
pub struct CleanExit;

/// The start of the character that holds the byte at `index`, counted in bytes: the last
/// character boundary at or before `index` that lies inside the text. An `index` at or
/// beyond the end of the text gives the start of the last character; an empty text gives 0.
pub open spec fn floor_boundary(bytes: Seq<u8>, index: int) -> int
    decreases index,
{
    if index <= 0 {
        0
    } else if index < bytes.len() && is_char_boundary(bytes, index) {
        index
    } else {
        floor_boundary(bytes, index - 1)
    }
}

/// `floor_boundary` never moves forward and never leaves the text.
pub proof fn lemma_floor_boundary_bounds(bytes: Seq<u8>, index: int)
    ensures
        0 <= floor_boundary(bytes, index),
        floor_boundary(bytes, index) <= index || index < 0,
        floor_boundary(bytes, index) < bytes.len() || floor_boundary(bytes, index) == 0,
    decreases index,
{
    if index > 0 && !(index < bytes.len() && is_char_boundary(bytes, index)) {
        lemma_floor_boundary_bounds(bytes, index - 1);
    }
}

/// A later byte never lies in an earlier character: `floor_boundary` keeps the order of its
/// arguments. So `safe_slice` can be called with any `start` that is not beyond `end`.
pub proof fn lemma_floor_boundary_monotonic(bytes: Seq<u8>, start: int, end: int)
    requires
        start <= end,
    ensures
        floor_boundary(bytes, start) <= floor_boundary(bytes, end),
    decreases end,
{
    lemma_floor_boundary_bounds(bytes, start);
    if start < end {
        if end > 0 && end < bytes.len() && is_char_boundary(bytes, end) {
        } else if end > 0 {
            lemma_floor_boundary_monotonic(bytes, start, end - 1);
        }
    }
}

/// No character is ever split: in a well-formed text, what `floor_boundary` gives is a
/// character boundary.
pub proof fn lemma_floor_boundary_is_boundary(bytes: Seq<u8>, index: int)
    requires
        valid_utf8(bytes),
    ensures
        is_char_boundary(bytes, floor_boundary(bytes, index)),
    decreases index,
{
    if index > 0 && !(index < bytes.len() && is_char_boundary(bytes, index)) {
        lemma_floor_boundary_is_boundary(bytes, index - 1);
    }
}

/// Beyond the end of the text every index gives what the last byte gives.
proof fn lemma_floor_boundary_past_end(bytes: Seq<u8>, index: int)
    requires
        index >= bytes.len() - 1,
    ensures
        floor_boundary(bytes, index) == floor_boundary(bytes, bytes.len() - 1),
    decreases index,
{
    if index > bytes.len() - 1 && index > 0 {
        lemma_floor_boundary_past_end(bytes, index - 1);
    }
}

/// Finds the start of the character that holds the byte at `index`.
fn floor_char_boundary(s: &str, index: usize) -> (at: usize)
    ensures
        at == floor_boundary(s.spec_bytes(), index as int),
        at <= s.spec_bytes().len(),
        is_char_boundary(s.spec_bytes(), at as int),
{
    broadcast use encode_utf8_valid_utf8;

    let ghost bytes = s.spec_bytes();
    let n = s.as_bytes().len();
    if n == 0 {
        proof {
            lemma_floor_boundary_past_end(bytes, index as int);
            lemma_floor_boundary_bounds(bytes, -1);
        }
        return 0;
    }
    let mut at: usize = if index < n {
        index
    } else {
        n - 1
    };
    proof {
        if index >= n {
            lemma_floor_boundary_past_end(bytes, index as int);
        }
    }
    while at > 0
        invariant
            at < n,
            n == bytes.len(),
            bytes == s.spec_bytes(),
            valid_utf8(bytes),
            floor_boundary(bytes, index as int) == floor_boundary(bytes, at as int),
        decreases at,
    {
        if s.is_char_boundary(at) {
            return at;
        }
        at -= 1;
    }
    0
}

/// Cuts the bytes from `start` to `end` out of a string without ever splitting a character:
/// each of the two ends is moved back to the start of the character it falls into.
///
/// An end that lies at or beyond the end of the string falls into the last character, so the
/// slice never holds the last character of the string.
pub fn safe_slice(s: &str, start: usize, end: usize) -> (slice: &str)
    requires
        floor_boundary(s.spec_bytes(), start as int) <= floor_boundary(s.spec_bytes(), end as int),
    ensures
        slice.spec_bytes() == s.spec_bytes().subrange(
            floor_boundary(s.spec_bytes(), start as int),
            floor_boundary(s.spec_bytes(), end as int),
        ),
        slice@ == decode_utf8(
            s.spec_bytes().subrange(
                floor_boundary(s.spec_bytes(), start as int),
                floor_boundary(s.spec_bytes(), end as int),
            ),
        ),
{
    broadcast use encode_utf8_valid_utf8;

    let ghost bytes = s.spec_bytes();
    let adjusted_start = floor_char_boundary(s, start);
    let adjusted_end = floor_char_boundary(s, end);
    let (head, _) = s.split_at(adjusted_end);
    proof {
        valid_utf8_split(bytes, adjusted_end as int);
        let front = head.spec_bytes();
        assert(front == bytes.subrange(0, adjusted_end as int));
        if adjusted_start < adjusted_end {
            is_char_boundary_iff_not_is_continuation_byte(bytes, adjusted_start as int);
            assert(front[adjusted_start as int] == bytes[adjusted_start as int]);
            is_char_boundary_iff_not_is_continuation_byte(front, adjusted_start as int);
        } else {
            is_char_boundary_start_end_of_seq(front);
        }
    }
    let (_, slice) = head.split_at(adjusted_start);
    proof {
        assert(slice.spec_bytes() =~= bytes.subrange(adjusted_start as int, adjusted_end as int));
        encode_utf8_decode_utf8(slice@);
    }
    slice
}

} // verus!
