//! Character-level building blocks shared by every grammar of the crate: classes of
//! characters, maximal runs, case-insensitive keywords, identifiers and line ends.
//!
//! Every scanner works on the characters of the input and a position in them, and
//! either fails without consuming anything or returns where it stopped.
use vstd::prelude::*;

verus! {

/// The Unicode White_Space property, which `char::is_whitespace` answers: tab to
/// carriage return, space, U+0085, U+00A0, U+1680, U+2000 to U+200A, U+2028, U+2029,
/// U+202F, U+205F and U+3000.
pub open spec fn whitespace(c: char) -> bool {
    let v = c as u32;
    (0x09 <= v && v <= 0x0D) || v == 0x20 || v == 0x85 || v == 0xA0 || v == 0x1680 || (0x2000
        <= v && v <= 0x200A) || v == 0x2028 || v == 0x2029 || v == 0x202F || v == 0x205F || v
        == 0x3000
}

/// What `char::is_alphabetic` answers (the Unicode Alphabetic property).
pub uninterp spec fn alphabetic(c: char) -> bool;

/// What `char::is_alphanumeric` answers (Alphabetic or a numeric category).
pub uninterp spec fn alphanumeric(c: char) -> bool;

/// Relies on `char::is_whitespace`: true exactly for the White_Space characters.
pub assume_specification[ char::is_whitespace ](c: char) -> (r: bool)
    ensures
        r == whitespace(c),
;

/// Relies on `char::is_alphabetic`: its answer depends on the character alone.
pub assume_specification[ char::is_alphabetic ](c: char) -> (r: bool)
    ensures
        r == alphabetic(c),
;

/// Relies on `char::is_alphanumeric`: its answer depends on the character alone.
pub assume_specification[ char::is_alphanumeric ](c: char) -> (r: bool)
    ensures
        r == alphanumeric(c),
;

/// Relies on `String::push`: the character is appended at the end.
pub assume_specification[ String::push ](s: &mut String, ch: char)
    ensures
        final(s)@ == old(s)@.push(ch),
;

/// The classes of characters that the grammars scan runs of.
#[derive(Clone, Copy, PartialEq, Eq, Debug)]
pub enum CharClass {
    /// Whitespace.
    Space,
    /// A character that may continue an identifier: alphanumeric, `_` or `-`.
    IdentChar,
    /// An ASCII decimal digit.
    Digit,
    /// Anything but a line terminator character (`\r`, `\n`).
    LineChar,
    /// Anything but `}`.
    NotCloseBrace,
    /// Anything but `{` and `&`, the characters that may start a directive.
    CodeChar,
}

pub open spec fn is_digit(c: char) -> bool {
    '0' <= c && c <= '9'
}

pub open spec fn in_class(c: char, k: CharClass) -> bool {
    match k {
        CharClass::Space => whitespace(c),
        CharClass::IdentChar => alphanumeric(c) || c == '_' || c == '-',
        CharClass::Digit => is_digit(c),
        CharClass::LineChar => c != '\n' && c != '\r',
        CharClass::NotCloseBrace => c != '}',
        CharClass::CodeChar => c != '{' && c != '&',
    }
}

/// A character that may start an identifier: a letter, `_` or `-`.
pub open spec fn ident_start(c: char) -> bool {
    alphabetic(c) || c == '_' || c == '-'
}

/// The end of the maximal run of characters of class `k` that starts at `i`.
pub open spec fn run_end(s: Seq<char>, i: int, k: CharClass) -> int
    decreases s.len() - i,
{
    if 0 <= i < s.len() && in_class(s[i], k) {
        run_end(s, i + 1, k)
    } else {
        i
    }
}

/// The run ends within the input, holds only characters of its class, and stops
/// at the end of the input or at a character outside it.
pub proof fn lemma_run_end(s: Seq<char>, i: int, k: CharClass)
    requires
        0 <= i <= s.len(),
    ensures
        i <= run_end(s, i, k) <= s.len(),
        forall|j: int| i <= j < run_end(s, i, k) ==> in_class(#[trigger] s[j], k),
        run_end(s, i, k) == s.len() || !in_class(s[run_end(s, i, k)], k),
    decreases s.len() - i,
{
    if i < s.len() && in_class(s[i], k) {
        lemma_run_end(s, i + 1, k);
    }
}

/// ASCII letters folded to lower case, as code points; everything else unchanged.
pub open spec fn fold_case(c: char) -> u32 {
    if 'A' <= c && c <= 'Z' {
        (c as u32 + 32) as u32
    } else {
        c as u32
    }
}

pub open spec fn is_ascii_letter(c: char) -> bool {
    ('A' <= c && c <= 'Z') || ('a' <= c && c <= 'z')
}

/// Two characters that are equal once ASCII letters are folded to lower case.
pub open spec fn same_ignoring_case(a: char, b: char) -> bool {
    a == b || (is_ascii_letter(a) && is_ascii_letter(b) && fold_case(a) == fold_case(b))
}

/// Where the keyword `t` ends when it stands at `i`, ASCII case ignored.
pub open spec fn tag_at(s: Seq<char>, i: int, t: Seq<char>) -> Option<int> {
    if 0 <= i && i + t.len() <= s.len() && forall|j: int|
        0 <= j < t.len() ==> same_ignoring_case(s[i + j], #[trigger] t[j]) {
        Some(i + t.len())
    } else {
        None
    }
}

/// Where the identifier that starts at `i` ends.
pub open spec fn identifier_at(s: Seq<char>, i: int) -> Option<int> {
    if 0 <= i < s.len() && ident_start(s[i]) {
        Some(run_end(s, i + 1, CharClass::IdentChar))
    } else {
        None
    }
}

/// The rest of the line from `i`: where its text ends, and where the line
/// terminator (`\r\n` or `\n`) after it ends.
pub open spec fn eol_at(s: Seq<char>, i: int) -> Option<(int, int)> {
    let j = run_end(s, i, CharClass::LineChar);
    if 0 <= j < s.len() && s[j] == '\n' {
        Some((j, j + 1))
    } else if 0 <= j && j + 1 < s.len() && s[j] == '\r' && s[j + 1] == '\n' {
        Some((j, j + 2))
    } else {
        None
    }
}

/// The number of bytes of the UTF-8 encoding of `c`.
pub open spec fn utf8_width(c: char) -> nat {
    if (c as u32) < 0x80 {
        1
    } else if (c as u32) < 0x800 {
        2
    } else if (c as u32) < 0x10000 {
        3
    } else {
        4
    }
}

/// The number of bytes of the UTF-8 encoding of `s`.
pub open spec fn utf8_len(s: Seq<char>) -> nat
    decreases s.len(),
{
    if s.len() == 0 {
        0
    } else {
        utf8_len(s.drop_last()) + utf8_width(s.last())
    }
}

/// Relies on `str::len`: the length of the string in bytes.
#[verifier::external_body]
pub(crate) fn byte_len(s: &str) -> (r: usize)
    ensures
        r == utf8_len(s@),
{
    s.len()
}

pub open spec fn opt_end(r: Option<usize>) -> Option<int> {
    match r {
        Some(e) => Some(e as int),
        None => None,
    }
}

/// `rest` with `a` in front of it, where there is a `rest`.
pub open spec fn prepend<A>(a: Seq<A>, rest: Option<Seq<A>>) -> Option<Seq<A>> {
    match rest {
        Some(b) => Some(a + b),
        None => None,
    }
}

/// The characters of `s`, in order.
pub fn chars_of(s: &str) -> (r: Vec<char>)
    ensures
        r@ == s@,
{
    let mut r: Vec<char> = Vec::new();
    for c in it: s.chars()
        invariant
            r@ == it.seq().take(it.index() as int),
    {
        r.push(c);
    }
    r
}

/// The characters of `v` from `from` up to `to`, as a string.
pub fn string_from(v: &Vec<char>, from: usize, to: usize) -> (r: String)
    requires
        from <= to <= v@.len(),
    ensures
        r@ == v@.subrange(from as int, to as int),
{
    let mut r = String::new();
    let mut i = from;
    while i < to
        invariant
            from <= i <= to <= v@.len(),
            r@ == v@.subrange(from as int, i as int),
        decreases to - i,
    {
        r.push(v[i]);
        assert(v@.subrange(from as int, i + 1) == v@.subrange(from as int, i as int).push(
            v@[i as int],
        ));
        i += 1;
    }
    r
}

pub fn in_class_exec(c: char, k: CharClass) -> (r: bool)
    ensures
        r == in_class(c, k),
{
    match k {
        CharClass::Space => c.is_whitespace(),
        CharClass::IdentChar => c.is_alphanumeric() || c == '_' || c == '-',
        CharClass::Digit => '0' <= c && c <= '9',
        CharClass::LineChar => c != '\n' && c != '\r',
        CharClass::NotCloseBrace => c != '}',
        CharClass::CodeChar => c != '{' && c != '&',
    }
}

/// Skips the maximal run of characters of class `k` that starts at `i`.
pub fn scan(s: &Vec<char>, i: usize, k: CharClass) -> (r: usize)
    requires
        i <= s@.len(),
    ensures
        r == run_end(s@, i as int, k),
        i <= r <= s@.len(),
{
    proof {
        lemma_run_end(s@, i as int, k);
    }
    let mut j = i;
    while j < s.len() && in_class_exec(s[j], k)
        invariant
            i <= j <= s@.len(),
            run_end(s@, j as int, k) == run_end(s@, i as int, k),
        decreases s@.len() - j,
    {
        j += 1;
    }
    j
}

/// Skips whitespace, possibly none.
pub fn spaces(s: &Vec<char>, i: usize) -> (r: usize)
    requires
        i <= s@.len(),
    ensures
        r == run_end(s@, i as int, CharClass::Space),
        i <= r <= s@.len(),
{
    scan(s, i, CharClass::Space)
}

/// Matches the keyword `tag` at `i`, ASCII case ignored, and returns where it ends.
pub fn tag_no_case(s: &Vec<char>, i: usize, tag: &str) -> (r: Option<usize>)
    requires
        i <= s@.len(),
    ensures
        opt_end(r) == tag_at(s@, i as int, tag@),
{
    let t = chars_of(tag);
    let n = s.len();
    if t.len() > n - i {
        return None;
    }
    let mut j: usize = 0;
    while j < t.len()
        invariant
            i + t@.len() <= s@.len(),
            s@.len() == n,
            t@ == tag@,
            j <= t@.len(),
            forall|m: int| 0 <= m < j ==> same_ignoring_case(s@[i + m], #[trigger] t@[m]),
        decreases t@.len() - j,
    {
        if !same_ignoring_case_exec(s[i + j], t[j]) {
            assert(!same_ignoring_case(s@[i + j], t@[j as int]));
            return None;
        }
        j += 1;
    }
    Some(i + t.len())
}

fn same_ignoring_case_exec(a: char, b: char) -> (r: bool)
    ensures
        r == same_ignoring_case(a, b),
{
    let a_letter = ('A' <= a && a <= 'Z') || ('a' <= a && a <= 'z');
    let b_letter = ('A' <= b && b <= 'Z') || ('a' <= b && b <= 'z');
    a == b || (a_letter && b_letter && fold_case_exec(a) == fold_case_exec(b))
}

fn fold_case_exec(c: char) -> (r: u32)
    ensures
        r == fold_case(c),
{
    if 'A' <= c && c <= 'Z' {
        c as u32 + 32
    } else {
        c as u32
    }
}

/// Matches one of the characters of `chars` at `i`.
pub fn one_of(s: &Vec<char>, i: usize, chars: &str) -> (r: Option<(char, usize)>)
    requires
        i <= s@.len(),
    ensures
        match r {
            Some((c, e)) => i < s@.len() && chars@.contains(s@[i as int]) && c == s@[i as int]
                && e == i + 1,
            None => !(i < s@.len() && chars@.contains(s@[i as int])),
        },
{
    let n = s.len();
    if i >= n {
        return None;
    }
    let cs = chars_of(chars);
    let mut j: usize = 0;
    while j < cs.len()
        invariant
            i < s@.len(),
            s@.len() == n,
            cs@ == chars@,
            j <= cs@.len(),
            forall|m: int| 0 <= m < j ==> cs@[m] != s@[i as int],
        decreases cs@.len() - j,
    {
        if cs[j] == s[i] {
            assert(chars@[j as int] == s@[i as int]);
            return Some((s[i], i + 1));
        }
        j += 1;
    }
    None
}

/// An identifier at `i`: a letter, `_` or `-`, then any number of alphanumeric
/// characters, `_` or `-`.
pub fn identifier(s: &Vec<char>, i: usize) -> (r: Option<(String, usize)>)
    requires
        i <= s@.len(),
    ensures
        match r {
            Some((t, e)) => identifier_at(s@, i as int) == Some(e as int) && t@ == s@.subrange(
                i as int,
                e as int,
            ) && i < e <= s@.len(),
            None => identifier_at(s@, i as int) is None,
        },
{
    proof {
        reveal_strlit("_-");
        assert("_-"@ =~= seq!['_', '-']);
    }
    if i < s.len() && (s[i].is_alphabetic() || one_of(s, i, "_-").is_some()) {
        let e = scan(s, i + 1, CharClass::IdentChar);
        Some((string_from(s, i, e), e))
    } else {
        None
    }
}

/// The rest of the line from `i`, without its terminator (`\r\n` or `\n`), and where
/// the terminator ends. Fails where no terminator follows.
pub fn till_eol(s: &Vec<char>, i: usize) -> (r: Option<(String, usize)>)
    requires
        i <= s@.len(),
    ensures
        match r {
            Some((t, e)) => exists|j: int|
                eol_at(s@, i as int) == Some((j, e as int)) && t@ == s@.subrange(i as int, j)
                    && i <= j < e <= s@.len(),
            None => eol_at(s@, i as int) is None,
        },
{
    match line_end(s, i) {
        Some((j, e)) => Some((string_from(s, i, j), e)),
        None => None,
    }
}

/// Where the rest of the line from `i` ends, and where its terminator ends.
pub fn line_end(s: &Vec<char>, i: usize) -> (r: Option<(usize, usize)>)
    requires
        i <= s@.len(),
    ensures
        match r {
            Some((j, e)) => eol_at(s@, i as int) == Some((j as int, e as int)) && i <= j < e
                <= s@.len(),
            None => eol_at(s@, i as int) is None,
        },
{
    let n = s.len();
    let j = scan(s, i, CharClass::LineChar);
    if j < n && s[j] == '\n' {
        Some((j, j + 1))
    } else if j < n && j + 1 < n && s[j] == '\r' && s[j + 1] == '\n' {
        Some((j, j + 2))
    } else {
        None
    }
}

} // verus!
