//! Cutting a text to a number of bytes.

use vstd::prelude::*;
use vstd::string::StringSliceAdditionalSpecFns;
use vstd::utf8::{
    decode_utf8_split, encode_utf8, encode_utf8_decode_utf8, encode_utf8_first_scalar,
    encode_utf8_valid_utf8, is_char_boundary, pop_first_scalar, valid_utf8_split,
};

verus! {

/// How many bytes a text takes in UTF-8.
pub open spec fn byte_len(text: Seq<char>) -> nat {
    encode_utf8(text).len()
}

/// `text` without its last characters, as many as it takes to fit in `max_bytes`.
pub open spec fn truncated(text: Seq<char>, max_bytes: nat) -> Seq<char>
    decreases text.len(),
{
    if text.len() == 0 || byte_len(text) <= max_bytes {
        text
    } else {
        truncated(text.drop_last(), max_bytes)
    }
}

/// Two texts one behind the other are encoded one behind the other.
pub proof fn encode_concat(a: Seq<char>, b: Seq<char>)
    ensures
        encode_utf8(a + b) == encode_utf8(a) + encode_utf8(b),
    decreases a.len(),
{
    if a.len() == 0 {
        assert(a + b =~= b);
        assert(encode_utf8(a) + encode_utf8(b) =~= encode_utf8(b));
    } else {
        assert((a + b).drop_first() =~= a.drop_first() + b);
        encode_concat(a.drop_first(), b);
        assert(encode_utf8(a + b) =~= encode_utf8(a) + encode_utf8(b));
    }
}

/// A longer beginning of a text takes more bytes, by at least one per character.
proof fn longer_takes_more(text: Seq<char>, m: int, n: int)
    requires
        0 <= m <= n <= text.len(),
    ensures
        byte_len(text.take(m)) + (n - m) <= byte_len(text.take(n)),
    decreases n - m,
{
    if m < n {
        longer_takes_more(text, m, n - 1);
        let last = seq![text[n - 1]];
        assert(text.take(n) =~= text.take(n - 1) + last);
        encode_concat(text.take(n - 1), last);
        reveal_with_fuel(encode_utf8, 2);
        assert(encode_utf8(last).len() >= 1);
    }
}

/// The end of every beginning of a text is a character boundary.
proof fn beginning_ends_at_boundary(text: Seq<char>, n: int)
    requires
        0 <= n <= text.len(),
    ensures
        is_char_boundary(encode_utf8(text), byte_len(text.take(n)) as int),
    decreases n,
{
    encode_utf8_valid_utf8(text);
    if n > 0 {
        let rest = text.drop_first();
        let bytes = encode_utf8(text);
        encode_utf8_first_scalar(text);
        assert(pop_first_scalar(bytes) =~= encode_utf8(rest));
        assert(text.take(n).drop_first() =~= rest.take(n - 1));
        beginning_ends_at_boundary(rest, n - 1);
        assert(text.take(n) + text.skip(n) =~= text);
        encode_concat(text.take(n), text.skip(n));
    }
}

/// Cutting off characters ends at the longest beginning that fits.
proof fn truncated_is_longest(text: Seq<char>, max_bytes: nat, n: int)
    requires
        0 <= n <= text.len(),
        byte_len(text.take(n)) <= max_bytes,
        n < text.len() ==> byte_len(text.take(n + 1)) > max_bytes,
    ensures
        truncated(text, max_bytes) == text.take(n),
    decreases text.len(),
{
    assert(text.take(text.len() as int) =~= text);
    if n < text.len() {
        longer_takes_more(text, n + 1, text.len() as int);
        let shorter = text.drop_last();
        assert(shorter.take(n) =~= text.take(n));
        if n < shorter.len() {
            assert(shorter.take(n + 1) =~= text.take(n + 1));
        }
        truncated_is_longest(shorter, max_bytes, n);
    }
}

/// A truncated text is a beginning of the text.
pub proof fn truncated_is_beginning(text: Seq<char>, max_bytes: nat)
    ensures
        truncated(text, max_bytes).len() <= text.len(),
        truncated(text, max_bytes) == text.take(truncated(text, max_bytes).len() as int),
    decreases text.len(),
{
    if text.len() == 0 || byte_len(text) <= max_bytes {
        assert(text.take(text.len() as int) =~= text);
    } else {
        truncated_is_beginning(text.drop_last(), max_bytes);
        let n = truncated(text, max_bytes).len() as int;
        assert(text.drop_last().take(n) =~= text.take(n));
    }
}

/// A truncated text fits.
pub proof fn truncated_fits(text: Seq<char>, max_bytes: nat)
    ensures
        byte_len(truncated(text, max_bytes)) <= max_bytes,
    decreases text.len(),
{
    if text.len() != 0 && byte_len(text) > max_bytes {
        truncated_fits(text.drop_last(), max_bytes);
    }
}

/// No longer beginning of the text fits than the truncated text.
pub proof fn truncated_is_maximal(text: Seq<char>, max_bytes: nat, n: int)
    requires
        0 <= n <= text.len(),
        byte_len(text.take(n)) <= max_bytes,
    ensures
        n <= truncated(text, max_bytes).len(),
    decreases text.len(),
{
    if text.len() != 0 && byte_len(text) > max_bytes {
        assert(text.take(text.len() as int) =~= text);
        assert(text.drop_last().take(n) =~= text.take(n));
        truncated_is_maximal(text.drop_last(), max_bytes, n);
    }
}

/// The longest beginning of `s` that takes at most `max_bytes` bytes.
pub fn truncate(s: &str, max_bytes: usize) -> (result: &str)
    ensures
        result@ == truncated(s@, max_bytes as nat),
{
    let length = s.as_bytes().len();
    if length <= max_bytes {
        return s;
    }
    let ghost bytes = s.spec_bytes();
    let mut end: usize = max_bytes;
    proof {
        encode_utf8_valid_utf8(s@);
    }
    while end > 0 && !s.is_char_boundary(end)
        invariant
            end <= max_bytes < length,
            bytes == encode_utf8(s@),
            bytes == s.spec_bytes(),
            bytes.len() == length,
            forall|i: int| end < i <= max_bytes ==> !is_char_boundary(bytes, i),
        decreases end,
    {
        end = end - 1;
    }
    let (result, _) = s.split_at(end);
    proof {
        valid_utf8_split(bytes, end as int);
        decode_utf8_split(bytes, end as int);
        encode_utf8_decode_utf8(s@);
        encode_utf8_decode_utf8(result@);
        let n = result@.len() as int;
        assert(result@ =~= s@.take(n));
        if n < s@.len() {
            longer_takes_more(s@, n, n + 1);
            beginning_ends_at_boundary(s@, n + 1);
        }
        truncated_is_longest(s@, max_bytes as nat, n);
    }
    result
}

} // verus!
