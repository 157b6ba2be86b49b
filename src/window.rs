//! The attribute list of a window-creation section:
//! `CREATE WINDOW <id> ASSIGN <name> = <number> ... .`
use vstd::prelude::*;
use crate::text::{
    chars_of, eol_at, identifier, identifier_at, line_end, prepend, run_end, scan, spaces,
    string_from, tag_at, tag_no_case, CharClass,
};

verus! {

/// A decimal number as written: its digits before the point, and those after it
/// (none where there is no point). No sign, no exponent.
#[derive(Debug, Clone, PartialEq, Eq)]
pub struct Decimal {
    pub whole: String,
    pub fraction: String,
}

pub struct DecimalView {
    pub whole: Seq<char>,
    pub fraction: Seq<char>,
}

impl View for Decimal {
    type V = DecimalView;

    open spec fn view(&self) -> DecimalView {
        DecimalView { whole: self.whole@, fraction: self.fraction@ }
    }
}

pub open spec fn attributes_view(v: Seq<(String, Decimal)>) -> Seq<(Seq<char>, DecimalView)> {
    v.map_values(|a: (String, Decimal)| (a.0@, a.1@))
}

/// One or more digits, then optionally `.` and one or more digits: the number,
/// and where it ends. A point that no digit follows is not part of the number.
pub open spec fn number_at(s: Seq<char>, i: int) -> Option<(DecimalView, int)> {
    let j = run_end(s, i, CharClass::Digit);
    if j <= i {
        None
    } else if 0 <= j && j + 1 < s.len() && s[j] == '.' && crate::text::is_digit(s[j + 1]) {
        let k = run_end(s, j + 1, CharClass::Digit);
        Some((DecimalView { whole: s.subrange(i, j), fraction: s.subrange(j + 1, k) }, k))
    } else {
        Some((DecimalView { whole: s.subrange(i, j), fraction: Seq::empty() }, j))
    }
}

/// `<name> = <number>` at `i`, with optional whitespace around `=`.
pub open spec fn assignment_at(s: Seq<char>, i: int) -> Option<((Seq<char>, DecimalView), int)> {
    match identifier_at(s, i) {
        Some(a) => {
            let b = run_end(s, a, CharClass::Space);
            if 0 <= b < s.len() && s[b] == '=' {
                match number_at(s, run_end(s, b + 1, CharClass::Space)) {
                    Some((v, e)) => Some(((s.subrange(i, a), v), e)),
                    None => None,
                }
            } else {
                None
            }
        },
        None => None,
    }
}

/// Assignments from `i` on, separated by optional whitespace, up to whitespace and
/// the `.` that ends the list.
pub open spec fn assignments_from(s: Seq<char>, i: int) -> Option<Seq<(Seq<char>, DecimalView)>>
    decreases s.len() - i,
{
    match assignment_at(s, i) {
        Some((a, e)) => {
            let j = run_end(s, e, CharClass::Space);
            if !(i < e && e <= j && j <= s.len()) {
                None
            } else if j < s.len() && s[j] == '.' {
                Some(seq![a])
            } else {
                prepend(seq![a], assignments_from(s, j))
            }
        },
        None => None,
    }
}

/// An optional first line, then `CREATE WINDOW <id> ASSIGN` (keywords in any case,
/// separated by whitespace): where the first assignment may start.
pub open spec fn window_header_end(s: Seq<char>) -> Option<int> {
    let p = match eol_at(s, 0) {
        Some((_, e)) => e,
        None => 0,
    };
    match tag_at(s, run_end(s, p, CharClass::Space), "CREATE"@) {
        Some(a) => match tag_at(s, run_end(s, a, CharClass::Space), "WINDOW"@) {
            Some(b) => match identifier_at(s, run_end(s, b, CharClass::Space)) {
                Some(c) => match tag_at(s, run_end(s, c, CharClass::Space), "ASSIGN"@) {
                    Some(d) => Some(run_end(s, d, CharClass::Space)),
                    None => None,
                },
                None => None,
            },
            None => None,
        },
        None => None,
    }
}

/// The attribute list of a window-creation section's contents.
pub open spec fn window_attributes(s: Seq<char>) -> Option<Seq<(Seq<char>, DecimalView)>> {
    match window_header_end(s) {
        Some(p) => assignments_from(s, p),
        None => None,
    }
}

/// The number at `i`: its digits, and where it ends.
pub fn number(s: &Vec<char>, i: usize) -> (r: Option<(Decimal, usize)>)
    requires
        i <= s@.len(),
    ensures
        match r {
            Some((d, e)) => number_at(s@, i as int) == Some((d@, e as int)) && i < e <= s@.len(),
            None => number_at(s@, i as int) is None,
        },
{
    let n = s.len();
    let j = scan(s, i, CharClass::Digit);
    if j <= i {
        return None;
    }
    if j < n && n - j > 1 && s[j] == '.' && '0' <= s[j + 1] && s[j + 1] <= '9' {
        let k = scan(s, j + 1, CharClass::Digit);
        let d = Decimal { whole: string_from(s, i, j), fraction: string_from(s, j + 1, k) };
        Some((d, k))
    } else {
        let d = Decimal { whole: string_from(s, i, j), fraction: String::new() };
        Some((d, j))
    }
}

/// `<name> = <number>` at `i`.
fn assignment(s: &Vec<char>, i: usize) -> (r: Option<((String, Decimal), usize)>)
    requires
        i <= s@.len(),
    ensures
        match r {
            Some((a, e)) => assignment_at(s@, i as int) == Some(((a.0@, a.1@), e as int)) && i
                < e <= s@.len(),
            None => assignment_at(s@, i as int) is None,
        },
{
    let (name, a) = match identifier(s, i) {
        Some(p) => p,
        None => return None,
    };
    let b = spaces(s, a);
    if !(b < s.len() && s[b] == '=') {
        return None;
    }
    let c = spaces(s, b + 1);
    match number(s, c) {
        Some((v, e)) => Some(((name, v), e)),
        None => None,
    }
}

/// `CREATE WINDOW <id> ASSIGN`, after an optional first line.
fn window_header(s: &Vec<char>) -> (r: Option<usize>)
    ensures
        match r {
            Some(p) => window_header_end(s@) == Some(p as int) && p <= s@.len(),
            None => window_header_end(s@) is None,
        },
{
    let p = match line_end(s, 0) {
        Some((_, e)) => e,
        None => 0,
    };
    let a = match tag_no_case(s, spaces(s, p), "CREATE") {
        Some(a) => a,
        None => return None,
    };
    let b = match tag_no_case(s, spaces(s, a), "WINDOW") {
        Some(b) => b,
        None => return None,
    };
    let c = match identifier(s, spaces(s, b)) {
        Some((_, c)) => c,
        None => return None,
    };
    match tag_no_case(s, spaces(s, c), "ASSIGN") {
        Some(d) => Some(spaces(s, d)),
        None => None,
    }
}

/// The attribute list of a window-creation section's contents: the assignments in
/// the order written, repeated names kept. `None` where the contents do not follow
/// the grammar.
pub fn create_window(contents: &str) -> (r: Option<Vec<(String, Decimal)>>)
    ensures
        match r {
            Some(v) => window_attributes(contents@) == Some(attributes_view(v@)),
            None => window_attributes(contents@) is None,
        },
{
    let s = chars_of(contents);
    let n = s.len();
    let start = match window_header(&s) {
        Some(p) => p,
        None => return None,
    };
    let mut out: Vec<(String, Decimal)> = Vec::new();
    let mut p = start;
    loop
        invariant
            s@ == contents@,
            n == s@.len(),
            start <= p <= n,
            window_header_end(s@) == Some(start as int),
            assignments_from(s@, start as int) == prepend(
                attributes_view(out@),
                assignments_from(s@, p as int),
            ),
        decreases n - p,
    {
        let (a, e) = match assignment(&s, p) {
            Some(x) => x,
            None => return None,
        };
        let j = spaces(&s, e);
        let ghost av = (a.0@, a.1@);
        proof {
            assert(attributes_view(out@.push(a)) =~= attributes_view(out@) + seq![av]);
            if let Some(rest) = assignments_from(s@, j as int) {
                assert(attributes_view(out@) + (seq![av] + rest) =~= attributes_view(out@)
                    + seq![av] + rest);
            }
        }
        out.push(a);
        if j < n && s[j] == '.' {
            assert(attributes_view(out@) + seq![] =~= attributes_view(out@));
            return Some(out);
        }
        p = j;
    }
}

} // verus!
