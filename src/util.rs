//! Text helpers: decoding fetched bytes, and shortening text for display.
use vstd::prelude::*;
use vstd::string::StringExecFns;
use crate::text::{byte_len, chars_of, string_from, utf8_len, utf8_width};

verus! {

/// What `String::from_utf8_lossy` makes of a byte string: its UTF-8 decoding, with
/// U+FFFD in place of each invalid sequence.
pub uninterp spec fn utf8_lossy(bytes: Seq<u8>) -> Seq<char>;

/// Relies on `String::from_utf8_lossy`: the decoding depends on the bytes alone.
#[verifier::external_body]
pub fn u8_ref_to_string(input: &[u8]) -> (r: String)
    ensures
        r@ == utf8_lossy(input@),
{
    String::from_utf8_lossy(input).into_owned()
}

/// The characters of `s` whose UTF-8 encoding takes the first `b` bytes.
pub open spec fn prefix_chars(s: Seq<char>, b: nat) -> int {
    choose|k: int| 0 <= k <= s.len() && utf8_len(s.take(k)) == b
}

/// Whether byte offset `b` of the UTF-8 encoding of `s` falls between two
/// characters (or at either end).
pub open spec fn byte_boundary(s: Seq<char>, b: nat) -> bool {
    exists|k: int| 0 <= k <= s.len() && utf8_len(s.take(k)) == b
}

/// `s` itself when its UTF-8 encoding has fewer than 20 bytes; else the characters
/// of its first 10 bytes, `...`, and the characters of its last 10 bytes.
pub open spec fn restricted(s: Seq<char>) -> Seq<char> {
    let n = utf8_len(s);
    if n < 20 {
        s
    } else {
        s.take(prefix_chars(s, 10)) + seq!['.', '.', '.'] + s.subrange(
            prefix_chars(s, (n - 10) as nat),
            s.len() as int,
        )
    }
}

/// The byte length of a prefix grows with every character it takes.
proof fn lemma_prefix_bytes_grow(s: Seq<char>, j: int, k: int)
    requires
        0 <= j < k <= s.len(),
    ensures
        utf8_len(s.take(j)) < utf8_len(s.take(k)),
    decreases k - j,
{
    assert(s.take(k).drop_last() =~= s.take(k - 1));
    if j < k - 1 {
        lemma_prefix_bytes_grow(s, j, k - 1);
    }
}

fn char_width(c: char) -> (r: usize)
    ensures
        r == utf8_width(c),
{
    if (c as u32) < 0x80 {
        1
    } else if (c as u32) < 0x800 {
        2
    } else if (c as u32) < 0x10000 {
        3
    } else {
        4
    }
}

/// The number of characters of `s` whose encoding takes the first `b` bytes, where
/// `b` falls between two characters.
fn chars_in_bytes(s: &Vec<char>, b: usize) -> (k: usize)
    requires
        byte_boundary(s@, b as nat),
    ensures
        k == prefix_chars(s@, b as nat),
        k <= s@.len(),
{
    let ghost target = prefix_chars(s@, b as nat);
    assert(0 <= target <= s@.len() && utf8_len(s@.take(target)) == b);
    let n = s.len();
    let mut k: usize = 0;
    let mut acc: usize = 0;
    assert(s@.take(0) =~= Seq::<char>::empty());
    while acc < b
        invariant
            0 <= target <= s@.len(),
            n == s@.len(),
            utf8_len(s@.take(target)) == b,
            k <= target,
            acc == utf8_len(s@.take(k as int)),
        decreases target - k,
    {
        proof {
            assert(k < target);
            assert(s@.take(k + 1).drop_last() =~= s@.take(k as int));
            if k + 1 < target {
                lemma_prefix_bytes_grow(s@, k + 1, target);
            }
        }
        acc = acc + char_width(s[k]);
        k = k + 1;
    }
    proof {
        if k < target {
            lemma_prefix_bytes_grow(s@, k as int, target);
        }
    }
    k
}

/// Shortens long text for display, cutting at byte offsets 10 and 10 before the
/// end. Those offsets must fall between characters.
pub fn restrict_string(to_restrict: &str) -> (r: String)
    requires
        utf8_len(to_restrict@) >= 20 ==> byte_boundary(to_restrict@, 10) && byte_boundary(
            to_restrict@,
            (utf8_len(to_restrict@) - 10) as nat,
        ),
    ensures
        r@ == restricted(to_restrict@),
{
    let s = chars_of(to_restrict);
    let n = s.len();
    let bytes = byte_len(to_restrict);
    if bytes < 20 {
        return string_from(&s, 0, n);
    }
    let head = chars_in_bytes(&s, 10);
    let tail_start = chars_in_bytes(&s, bytes - 10);
    proof {
        if tail_start < head {
            lemma_prefix_bytes_grow(s@, tail_start as int, head as int);
        }
    }
    let mut result = string_from(&s, 0, head);
    result.push('.');
    result.push('.');
    result.push('.');
    let tail = string_from(&s, tail_start, n);
    result.append(tail.as_str());
    assert(s@.take(head as int) == s@.subrange(0, head as int));
    result
}

} // verus!
