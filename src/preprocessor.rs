//! The node grammar: the preprocessor's view of a source file as a flat sequence of
//! directives, imports, replacements, comments and code.
use vstd::prelude::*;
use crate::analysis_suspend::{
    analyze_resume, analyze_resume_at, analyze_suspend, analyze_suspend_at, block_type_at,
    code_block_header_at, keyword_header_at, other_header_at, suspend_start_at,
    AnalysisSuspendHeader, HeaderView,
};
use crate::error::Error;
use crate::text::{
    chars_of, eol_at, line_end, prepend, run_end, scan, string_from, CharClass,
};

verus! {

/// One node of the preprocessor's view of a file.
#[derive(Debug, Clone, PartialEq, Eq)]
pub enum PreprocessorASTNode {
    /// An `&ANALYZE-SUSPEND` line, with its classified header.
    AnalysisSuspend(AnalysisSuspendHeader),
    /// An `&ANALYZE-RESUME` line.
    AnalysisResume,
    /// Any other line that starts with `&`: its text after the `&`, without the
    /// line terminator.
    PreprocessorLine(String),
    /// `{...}`: the text between the braces.
    Import(String),
    /// `{<digits>}`: the digits.
    Replace(String),
    /// A maximal run of characters other than `{` and `&`.
    Code(String),
    /// A comment with its markers and nested comments, verbatim.
    Comment(String),
}

/// A `PreprocessorASTNode` with its strings seen as sequences of characters.
pub enum NodeView {
    AnalysisSuspend(HeaderView),
    AnalysisResume,
    PreprocessorLine(Seq<char>),
    Import(Seq<char>),
    Replace(Seq<char>),
    Code(Seq<char>),
    Comment(Seq<char>),
}

impl View for PreprocessorASTNode {
    type V = NodeView;

    open spec fn view(&self) -> NodeView {
        match self {
            PreprocessorASTNode::AnalysisSuspend(h) => NodeView::AnalysisSuspend(h@),
            PreprocessorASTNode::AnalysisResume => NodeView::AnalysisResume,
            PreprocessorASTNode::PreprocessorLine(t) => NodeView::PreprocessorLine(t@),
            PreprocessorASTNode::Import(t) => NodeView::Import(t@),
            PreprocessorASTNode::Replace(t) => NodeView::Replace(t@),
            PreprocessorASTNode::Code(t) => NodeView::Code(t@),
            PreprocessorASTNode::Comment(t) => NodeView::Comment(t@),
        }
    }
}

pub open spec fn nodes_view(v: Seq<PreprocessorASTNode>) -> Seq<NodeView> {
    v.map_values(|n: PreprocessorASTNode| n@)
}

/// The text that a node contributes verbatim to its section: that of code and
/// comments.
pub open spec fn contents_of(n: NodeView) -> Option<Seq<char>> {
    match n {
        NodeView::Code(t) => Some(t),
        NodeView::Comment(t) => Some(t),
        _ => None,
    }
}

impl PreprocessorASTNode {
    /// The text of a code or comment node; `None` for every other node.
    pub fn get_contents(&self) -> (r: Option<&str>)
        ensures
            match r {
                Some(t) => contents_of(self@) == Some(t@),
                None => contents_of(self@) is None,
            },
    {
        match self {
            PreprocessorASTNode::Code(contents) => Some(contents.as_str()),
            PreprocessorASTNode::Comment(contents) => Some(contents.as_str()),
            _ => None,
        }
    }
}

/// `&` and the rest of the line: the text after the `&`, and where the line ends.
pub open spec fn line_directive_at(s: Seq<char>, i: int) -> Option<(Seq<char>, int)> {
    if 0 <= i < s.len() && s[i] == '&' {
        match eol_at(s, i + 1) {
            Some((j, e)) => Some((s.subrange(i + 1, j), e)),
            None => None,
        }
    } else {
        None
    }
}

/// `{`, one or more digits, `}`: the digits, and where the `}` ends.
pub open spec fn replace_at(s: Seq<char>, i: int) -> Option<(Seq<char>, int)> {
    let j = run_end(s, i + 1, CharClass::Digit);
    if 0 <= i < s.len() && s[i] == '{' && i + 1 < j < s.len() && s[j] == '}' {
        Some((s.subrange(i + 1, j), j + 1))
    } else {
        None
    }
}

/// `{`, one or more characters other than `}`, `}`: the text between, and where
/// the `}` ends.
pub open spec fn import_at(s: Seq<char>, i: int) -> Option<(Seq<char>, int)> {
    let j = run_end(s, i + 1, CharClass::NotCloseBrace);
    if 0 <= i < s.len() && s[i] == '{' && i + 1 < j < s.len() {
        Some((s.subrange(i + 1, j), j + 1))
    } else {
        None
    }
}

/// Scanning a comment body from `p` with `depth` comments open: where the `*/`
/// that closes the outermost one ends. `/*` and `*/` are read left to right, each
/// as a unit.
pub open spec fn comment_close(s: Seq<char>, p: int, depth: nat) -> Option<int>
    decreases s.len() - p,
{
    if p < 0 || p + 1 >= s.len() {
        None
    } else if s[p] == '/' && s[p + 1] == '*' {
        comment_close(s, p + 2, depth + 1)
    } else if s[p] == '*' && s[p + 1] == '/' {
        if depth <= 1 {
            Some(p + 2)
        } else {
            comment_close(s, p + 2, (depth - 1) as nat)
        }
    } else {
        comment_close(s, p + 1, depth)
    }
}

/// A comment at `i`, nested comments included: where it ends.
pub open spec fn comment_at(s: Seq<char>, i: int) -> Option<int> {
    if 0 <= i && i + 1 < s.len() && s[i] == '/' && s[i + 1] == '*' {
        comment_close(s, i + 2, 1)
    } else {
        None
    }
}

/// Code at `i`: where the maximal run of characters other than `{` and `&` ends.
pub open spec fn code_at(s: Seq<char>, i: int) -> Option<int> {
    let j = run_end(s, i, CharClass::CodeChar);
    if j > i {
        Some(j)
    } else {
        None
    }
}

/// The node at `i` and where it ends. The alternatives are tried in order: suspend
/// line, resume line, preprocessor line, replacement, import, comment, code.
pub open spec fn node_at(s: Seq<char>, i: int) -> Option<(NodeView, int)> {
    match analyze_suspend_at(s, i) {
        Some((h, e)) => Some((NodeView::AnalysisSuspend(h), e)),
        None => match analyze_resume_at(s, i) {
            Some(e) => Some((NodeView::AnalysisResume, e)),
            None => match line_directive_at(s, i) {
                Some((t, e)) => Some((NodeView::PreprocessorLine(t), e)),
                None => match replace_at(s, i) {
                    Some((t, e)) => Some((NodeView::Replace(t), e)),
                    None => match import_at(s, i) {
                        Some((t, e)) => Some((NodeView::Import(t), e)),
                        None => match comment_at(s, i) {
                            Some(e) => Some((NodeView::Comment(s.subrange(i, e)), e)),
                            None => match code_at(s, i) {
                                Some(e) => Some((NodeView::Code(s.subrange(i, e)), e)),
                                None => None,
                            },
                        },
                    },
                },
            },
        },
    }
}

/// Whether the node at `i` was found and makes progress within the input.
pub open spec fn steps_at(s: Seq<char>, i: int) -> bool {
    match node_at(s, i) {
        Some((_, e)) => i < e <= s.len(),
        None => false,
    }
}

/// The nodes from `i` to the end of the input, or `None` where some position has
/// no node.
pub open spec fn nodes_from(s: Seq<char>, i: int) -> Option<Seq<NodeView>>
    decreases s.len() - i,
{
    if i < 0 || i >= s.len() {
        Some(Seq::empty())
    } else if steps_at(s, i) {
        let (n, e) = node_at(s, i)->0;
        match nodes_from(s, e) {
            Some(rest) => Some(seq![n] + rest),
            None => None,
        }
    } else {
        None
    }
}

/// The first position from `i` on at which no node is found.
pub open spec fn first_failure(s: Seq<char>, i: int) -> int
    decreases s.len() - i,
{
    if i < 0 || i >= s.len() {
        i
    } else if steps_at(s, i) {
        let (_, e) = node_at(s, i)->0;
        first_failure(s, e)
    } else {
        i
    }
}

/// The node sequence of a whole input: one or more nodes that cover it.
pub open spec fn lex(s: Seq<char>) -> Option<Seq<NodeView>> {
    if s.len() == 0 {
        None
    } else {
        nodes_from(s, 0)
    }
}

/// The number of line feeds in `t`.
pub open spec fn newline_count(t: Seq<char>) -> nat
    decreases t.len(),
{
    if t.len() == 0 {
        0
    } else {
        let last: nat = if t.last() == '\n' {
            1
        } else {
            0
        };
        newline_count(t.drop_last()) + last
    }
}

/// The error that `preprocessed_progress` reports for an input that has no node
/// sequence.
pub open spec fn lex_error(s: Seq<char>) -> Error {
    let offset = if s.len() == 0 {
        0
    } else {
        first_failure(s, 0)
    };
    Error::LexicalFailure {
        offset: offset as usize,
        line: (newline_count(s.take(offset)) + 1) as usize,
    }
}

/// How the characters that a node consumed relate to the node: code and comments
/// are their own text; imports and replacements add their braces; preprocessor
/// lines add the `&` and the line terminator; suspend and resume markers are whole
/// lines that start with `&`.
pub open spec fn node_matches_span(n: NodeView, span: Seq<char>) -> bool {
    match n {
        NodeView::AnalysisSuspend(_) => span.len() > 0 && span[0] == '&' && span.last() == '\n',
        NodeView::AnalysisResume => span.len() > 0 && span[0] == '&' && span.last() == '\n',
        NodeView::PreprocessorLine(t) => span == seq!['&'] + t + seq!['\n'] || span == seq!['&']
            + t + seq!['\r', '\n'],
        NodeView::Import(t) => span == seq!['{'] + t + seq!['}'],
        NodeView::Replace(t) => span == seq!['{'] + t + seq!['}'],
        NodeView::Code(t) => span == t,
        NodeView::Comment(t) => span == t,
    }
}

/// Where each node from `i` on starts, followed by where the last one ends.
pub open spec fn node_bounds(s: Seq<char>, i: int) -> Seq<int>
    decreases s.len() - i,
{
    if i < 0 || i >= s.len() {
        seq![i]
    } else if steps_at(s, i) {
        let (_, e) = node_at(s, i)->0;
        seq![i] + node_bounds(s, e)
    } else {
        seq![i]
    }
}

/// The text a node carries: that of code, comments, imports, replacements and
/// preprocessor lines; none for suspend and resume markers.
pub open spec fn payload(n: NodeView) -> Seq<char> {
    match n {
        NodeView::AnalysisSuspend(_) => Seq::empty(),
        NodeView::AnalysisResume => Seq::empty(),
        NodeView::PreprocessorLine(t) => t,
        NodeView::Import(t) => t,
        NodeView::Replace(t) => t,
        NodeView::Code(t) => t,
        NodeView::Comment(t) => t,
    }
}

/// The texts of `nodes`, concatenated in order.
pub open spec fn payloads(nodes: Seq<NodeView>) -> Seq<char>
    decreases nodes.len(),
{
    if nodes.len() == 0 {
        Seq::empty()
    } else {
        payload(nodes[0]) + payloads(nodes.drop_first())
    }
}

proof fn lemma_eol_ends_line(s: Seq<char>, i: int)
    requires
        eol_at(s, i) is Some,
    ensures
        ({
            let (j, e) = eol_at(s, i)->0;
            &&& i <= j < e <= s.len()
            &&& s[e - 1] == '\n'
            &&& s.subrange(j, e) == seq!['\n'] || s.subrange(j, e) == seq!['\r', '\n']
        }),
{
    if 0 <= i <= s.len() {
        crate::text::lemma_run_end(s, i, CharClass::LineChar);
    }
    let (j, e) = eol_at(s, i)->0;
    if e == j + 1 {
        assert(s.subrange(j, e) =~= seq!['\n']);
    } else {
        assert(s.subrange(j, e) =~= seq!['\r', '\n']);
    }
}

proof fn lemma_comment_close_bounds(s: Seq<char>, p: int, depth: nat)
    requires
        0 <= p,
        comment_close(s, p, depth) is Some,
    ensures
        p < comment_close(s, p, depth)->0 <= s.len(),
    decreases s.len() - p,
{
    if p + 1 < s.len() {
        if s[p] == '/' && s[p + 1] == '*' {
            lemma_comment_close_bounds(s, p + 2, depth + 1);
        } else if s[p] == '*' && s[p + 1] == '/' {
            if depth > 1 {
                lemma_comment_close_bounds(s, p + 2, (depth - 1) as nat);
            }
        } else {
            lemma_comment_close_bounds(s, p + 1, depth);
        }
    }
}

/// A keyword that starts with `&` matches only where the input has an `&`.
proof fn lemma_ampersand_tag(s: Seq<char>, i: int, t: Seq<char>)
    requires
        t.len() > 0,
        t[0] == '&',
        crate::text::tag_at(s, i, t) is Some,
    ensures
        s[i] == '&',
{
    assert(crate::text::same_ignoring_case(s[i + 0], t[0]));
    assert(s[i + 0] == s[i]);
}

proof fn lemma_markers_start_with_ampersand(s: Seq<char>, i: int)
    ensures
        analyze_suspend_at(s, i) is Some ==> suspend_start_at(s, i)
            is Some,
        suspend_start_at(s, i) is Some ==> s[i] == '&',
        analyze_resume_at(s, i) is Some ==> s[i] == '&',
{
    reveal_strlit("&analyze-suspend");
    reveal_strlit("&analyze-resume");
    if suspend_start_at(s, i) is Some {
        lemma_ampersand_tag(s, i, "&analyze-suspend"@);
    }
    if analyze_resume_at(s, i) is Some {
        lemma_ampersand_tag(s, i, "&analyze-resume"@);
    }
}

proof fn lemma_suspend_ends_line(s: Seq<char>, i: int)
    requires
        0 <= i <= s.len(),
        analyze_suspend_at(s, i) is Some,
    ensures
        ({
            let (_, e) = analyze_suspend_at(s, i)->0;
            0 < e <= s.len() && s[e - 1] == '\n'
        }),
{
    let b = suspend_start_at(s, i)->0;
    if keyword_header_at(s, i, "_VERSION-NUMBER"@) is Some {
        lemma_eol_ends_line(s, crate::text::tag_at(s, b, "_VERSION-NUMBER"@)->0);
    } else if keyword_header_at(s, i, "_UIB-PREPROCESSOR-BLOCK"@) is Some {
        lemma_eol_ends_line(s, crate::text::tag_at(s, b, "_UIB-PREPROCESSOR-BLOCK"@)->0);
    } else if keyword_header_at(s, i, "_PROCEDURE-SETTINGS"@) is Some {
        lemma_eol_ends_line(s, crate::text::tag_at(s, b, "_PROCEDURE-SETTINGS"@)->0);
    } else if keyword_header_at(s, i, "_CREATE-WINDOW"@) is Some {
        lemma_eol_ends_line(s, crate::text::tag_at(s, b, "_CREATE-WINDOW"@)->0);
    } else if code_block_header_at(s, i) is Some {
        let c = crate::text::tag_at(s, b, "_UIB-CODE-BLOCK"@)->0;
        let (_, d) = block_type_at(s, run_end(s, c, CharClass::Space))->0;
        lemma_eol_ends_line(s, d);
    } else {
        assert(other_header_at(s, i) is Some);
        lemma_eol_ends_line(s, crate::text::identifier_at(s, b)->0);
    }
}

/// The characters that the node at `i` consumed relate to it as
/// `node_matches_span` says.
proof fn lemma_node_span(s: Seq<char>, i: int)
    requires
        0 <= i < s.len(),
        steps_at(s, i),
    ensures
        ({
            let (n, e) = node_at(s, i)->0;
            node_matches_span(n, s.subrange(i, e))
        }),
{
    let (n, e) = node_at(s, i)->0;
    lemma_markers_start_with_ampersand(s, i);
    if analyze_suspend_at(s, i) is Some {
        lemma_suspend_ends_line(s, i);
    } else if analyze_resume_at(s, i) is Some {
        let a = crate::text::tag_at(s, i, "&analyze-resume"@)->0;
        lemma_eol_ends_line(s, a);
    } else if line_directive_at(s, i) is Some {
        lemma_eol_ends_line(s, i + 1);
        let (j, e2) = eol_at(s, i + 1)->0;
        assert(s.subrange(i, e) =~= seq!['&'] + s.subrange(i + 1, j) + s.subrange(j, e));
    } else if replace_at(s, i) is Some {
        let j = run_end(s, i + 1, CharClass::Digit);
        assert(s.subrange(i, e) =~= seq!['{'] + s.subrange(i + 1, j) + seq!['}']);
    } else if import_at(s, i) is Some {
        let j = run_end(s, i + 1, CharClass::NotCloseBrace);
        crate::text::lemma_run_end(s, i + 1, CharClass::NotCloseBrace);
        assert(s.subrange(i, e) =~= seq!['{'] + s.subrange(i + 1, j) + seq!['}']);
    }
}

/// The spans of the nodes from `i` on follow each other without gap or overlap up
/// to the end of the input, and each relates to its node by `node_matches_span`.
proof fn lemma_nodes_cover(s: Seq<char>, i: int)
    requires
        0 <= i <= s.len(),
        nodes_from(s, i) is Some,
    ensures
        ({
            let nodes = nodes_from(s, i)->0;
            let b = node_bounds(s, i);
            &&& b.len() == nodes.len() + 1
            &&& b[0] == i
            &&& b[nodes.len() as int] == s.len()
            &&& forall|j: int|
                0 <= j < nodes.len() ==> #[trigger] b[j] < b[j + 1] && node_matches_span(
                    nodes[j],
                    s.subrange(b[j], b[j + 1]),
                )
        }),
    decreases s.len() - i,
{
    if i < s.len() {
        let (n, e) = node_at(s, i)->0;
        lemma_node_span(s, i);
        lemma_nodes_cover(s, e);
        let rest = nodes_from(s, e)->0;
        let nodes = nodes_from(s, i)->0;
        let b = node_bounds(s, i);
        assert(nodes == seq![n] + rest);
        assert(b == seq![i] + node_bounds(s, e));
        assert forall|j: int| 0 <= j < nodes.len() implies #[trigger] b[j] < b[j + 1]
            && node_matches_span(nodes[j], s.subrange(b[j], b[j + 1])) by {
            if j > 0 {
                assert(nodes[j] == rest[j - 1]);
                assert(b[j] == node_bounds(s, e)[j - 1]);
                assert(b[j + 1] == node_bounds(s, e)[j]);
            }
        }
    }
}

/// Coverage: every character of the input is consumed by exactly one node. The
/// nodes' spans follow each other from the start of the input to its end; code and
/// comments are exactly the characters they consumed, imports and replacements
/// drop only their braces, preprocessor lines only their `&` and line terminator,
/// and suspend and resume markers consume whole lines.
pub proof fn lemma_lex_covers_input(s: Seq<char>)
    requires
        lex(s) is Some,
    ensures
        ({
            let nodes = lex(s)->0;
            let b = node_bounds(s, 0);
            &&& b.len() == nodes.len() + 1
            &&& b[0] == 0
            &&& b[nodes.len() as int] == s.len()
            &&& forall|j: int|
                0 <= j < nodes.len() ==> #[trigger] b[j] < b[j + 1] && node_matches_span(
                    nodes[j],
                    s.subrange(b[j], b[j + 1]),
                )
        }),
{
    lemma_nodes_cover(s, 0);
}

pub open spec fn is_text_node(n: NodeView) -> bool {
    n is Code || n is Comment
}

/// Where the input holds neither `&` nor `{`, it reads from `i` on as code and
/// comments whose texts concatenate to the rest of the input.
proof fn lemma_plain_from(s: Seq<char>, i: int)
    requires
        0 <= i <= s.len(),
        forall|k: int| 0 <= k < s.len() ==> #[trigger] s[k] != '&' && s[k] != '{',
    ensures
        nodes_from(s, i) is Some,
        forall|j: int|
            0 <= j < nodes_from(s, i)->0.len() ==> is_text_node(#[trigger] nodes_from(s, i)->0[j]),
        payloads(nodes_from(s, i)->0) == s.subrange(i, s.len() as int),
    decreases s.len() - i,
{
    if i >= s.len() {
        assert(s.subrange(i, s.len() as int) =~= Seq::<char>::empty());
    } else {
        lemma_markers_start_with_ampersand(s, i);
        crate::text::lemma_run_end(s, i, CharClass::CodeChar);
        if comment_at(s, i) is Some {
            lemma_comment_close_bounds(s, i + 2, 1);
        }
        assert(steps_at(s, i));
        let (n, e) = node_at(s, i)->0;
        lemma_plain_from(s, e);
        let rest = nodes_from(s, e)->0;
        let nodes = seq![n] + rest;
        assert(nodes.drop_first() =~= rest);
        assert(payload(n) == s.subrange(i, e));
        assert(s.subrange(i, s.len() as int) =~= s.subrange(i, e) + s.subrange(e, s.len() as int));
        assert forall|j: int| 0 <= j < nodes.len() implies is_text_node(#[trigger] nodes[j]) by {
            if j > 0 {
                assert(nodes[j] == rest[j - 1]);
            }
        }
    }
}

/// Round trip: an input made only of code and (nested) comments, with no `&` and no
/// `{`, reads as code and comment nodes alone, whose texts concatenated in order
/// give the input back exactly.
pub proof fn lemma_round_trip_without_directives(s: Seq<char>)
    requires
        s.len() > 0,
        forall|k: int| 0 <= k < s.len() ==> #[trigger] s[k] != '&' && s[k] != '{',
    ensures
        lex(s) is Some,
        forall|j: int| 0 <= j < lex(s)->0.len() ==> is_text_node(#[trigger] lex(s)->0[j]),
        payloads(lex(s)->0) == s,
{
    lemma_plain_from(s, 0);
    assert(s.subrange(0, s.len() as int) =~= s);
}

pub open spec fn node_result(r: Option<(PreprocessorASTNode, usize)>) -> Option<(NodeView, int)> {
    match r {
        Some((n, e)) => Some((n@, e as int)),
        None => None,
    }
}

/// `&` and the rest of the line at `i`.
fn preprocessor_line(s: &Vec<char>, i: usize) -> (r: Option<(PreprocessorASTNode, usize)>)
    requires
        i <= s@.len(),
    ensures
        node_result(r) == (match line_directive_at(s@, i as int) {
            Some((t, e)) => Some((NodeView::PreprocessorLine(t), e)),
            None => None,
        }),
        r matches Some((_, e)) ==> i < e <= s@.len(),
{
    if i < s.len() && s[i] == '&' {
        match line_end(s, i + 1) {
            Some((j, e)) => Some((PreprocessorASTNode::PreprocessorLine(string_from(s, i + 1, j)), e)),
            None => None,
        }
    } else {
        None
    }
}

/// `{<digits>}` at `i`.
fn preprocessor_replace(s: &Vec<char>, i: usize) -> (r: Option<(PreprocessorASTNode, usize)>)
    requires
        i <= s@.len(),
    ensures
        node_result(r) == (match replace_at(s@, i as int) {
            Some((t, e)) => Some((NodeView::Replace(t), e)),
            None => None,
        }),
        r matches Some((_, e)) ==> i < e <= s@.len(),
{
    if i < s.len() && s[i] == '{' {
        let j = scan(s, i + 1, CharClass::Digit);
        if i + 1 < j && j < s.len() && s[j] == '}' {
            return Some((PreprocessorASTNode::Replace(string_from(s, i + 1, j)), j + 1));
        }
    }
    None
}

/// `{...}` at `i`.
fn preprocessor_import(s: &Vec<char>, i: usize) -> (r: Option<(PreprocessorASTNode, usize)>)
    requires
        i <= s@.len(),
    ensures
        node_result(r) == (match import_at(s@, i as int) {
            Some((t, e)) => Some((NodeView::Import(t), e)),
            None => None,
        }),
        r matches Some((_, e)) ==> i < e <= s@.len(),
{
    if i < s.len() && s[i] == '{' {
        let j = scan(s, i + 1, CharClass::NotCloseBrace);
        if i + 1 < j && j < s.len() {
            return Some((PreprocessorASTNode::Import(string_from(s, i + 1, j)), j + 1));
        }
    }
    None
}

/// A comment at `i`, nested comments included, kept verbatim. The nesting is
/// tracked by a depth counter, so deep nesting costs no stack.
fn comment(s: &Vec<char>, i: usize) -> (r: Option<(PreprocessorASTNode, usize)>)
    requires
        i <= s@.len(),
    ensures
        node_result(r) == (match comment_at(s@, i as int) {
            Some(e) => Some((NodeView::Comment(s@.subrange(i as int, e)), e)),
            None => None,
        }),
        r matches Some((_, e)) ==> i < e <= s@.len(),
{
    let n = s.len();
    if !(i < n && n - i > 1 && s[i] == '/' && s[i + 1] == '*') {
        return None;
    }
    let mut p = i + 2;
    let mut depth: usize = 1;
    while p < n && n - p > 1
        invariant
            n == s@.len(),
            i + 2 <= p <= n,
            s@[i as int] == '/' && s@[i + 1] == '*',
            1 <= depth <= p,
            comment_close(s@, p as int, depth as nat) == comment_close(s@, i + 2, 1),
        decreases n - p,
    {
        if s[p] == '/' && s[p + 1] == '*' {
            depth = depth + 1;
            p = p + 2;
        } else if s[p] == '*' && s[p + 1] == '/' {
            if depth <= 1 {
                assert(comment_close(s@, p as int, depth as nat) == Some(p + 2));
                assert(comment_at(s@, i as int) == comment_close(s@, i + 2, 1));
                return Some((PreprocessorASTNode::Comment(string_from(s, i, p + 2)), p + 2));
            }
            depth = depth - 1;
            p = p + 2;
        } else {
            p = p + 1;
        }
    }
    None
}

/// A maximal run of characters other than `{` and `&` at `i`.
fn code(s: &Vec<char>, i: usize) -> (r: Option<(PreprocessorASTNode, usize)>)
    requires
        i <= s@.len(),
    ensures
        node_result(r) == (match code_at(s@, i as int) {
            Some(e) => Some((NodeView::Code(s@.subrange(i as int, e)), e)),
            None => None,
        }),
        r matches Some((_, e)) ==> i < e <= s@.len(),
{
    let j = scan(s, i, CharClass::CodeChar);
    if j > i {
        Some((PreprocessorASTNode::Code(string_from(s, i, j)), j))
    } else {
        None
    }
}

/// The node at `i`, the alternatives tried in order, each as a whole.
pub fn node(s: &Vec<char>, i: usize) -> (r: Option<(PreprocessorASTNode, usize)>)
    requires
        i <= s@.len(),
    ensures
        node_result(r) == node_at(s@, i as int),
        r matches Some((_, e)) ==> i < e <= s@.len(),
{
    if let Some((h, e)) = analyze_suspend(s, i) {
        return Some((PreprocessorASTNode::AnalysisSuspend(h), e));
    }
    if let Some(e) = analyze_resume(s, i) {
        return Some((PreprocessorASTNode::AnalysisResume, e));
    }
    if let Some(r) = preprocessor_line(s, i) {
        return Some(r);
    }
    if let Some(r) = preprocessor_replace(s, i) {
        return Some(r);
    }
    if let Some(r) = preprocessor_import(s, i) {
        return Some(r);
    }
    if let Some(r) = comment(s, i) {
        return Some(r);
    }
    code(s, i)
}


/// The number of line feeds in `s` before `to`.
fn newlines_before(s: &Vec<char>, to: usize) -> (r: usize)
    requires
        to <= s@.len(),
    ensures
        r == newline_count(s@.take(to as int)),
        r <= to,
{
    let mut count: usize = 0;
    let mut k: usize = 0;
    while k < to
        invariant
            k <= to <= s@.len(),
            count <= k,
            count == newline_count(s@.take(k as int)),
        decreases to - k,
    {
        assert(s@.take(k + 1).drop_last() == s@.take(k as int));
        if s[k] == '\n' {
            count += 1;
        }
        k += 1;
    }
    count
}

/// Reads a whole source text as nodes: one or more, which together cover it.
/// Fails, with the position and line of the first place where no alternative
/// matches, exactly where no such sequence exists (an empty input included).
pub fn preprocessed_progress(source: &str) -> (r: Result<Vec<PreprocessorASTNode>, Error>)
    ensures
        match r {
            Ok(v) => lex(source@) == Some(nodes_view(v@)),
            Err(e) => lex(source@) is None && e == lex_error(source@),
        },
{
    let s = chars_of(source);
    let n = s.len();
    if n == 0 {
        assert(s@.take(0) =~= Seq::<char>::empty());
        return Err(Error::LexicalFailure { offset: 0, line: 1 });
    }
    let mut v: Vec<PreprocessorASTNode> = Vec::new();
    let mut i: usize = 0;
    while i < n
        invariant
            s@ == source@,
            n == s@.len(),
            i <= n,
            nodes_from(s@, 0) == prepend(nodes_view(v@), nodes_from(s@, i as int)),
            first_failure(s@, 0) == first_failure(s@, i as int),
        decreases n - i,
    {
        match node(&s, i) {
            Some((nd, e)) => {
                proof {
                    let rest = nodes_from(s@, e as int);
                    assert(nodes_view(v@.push(nd)) =~= nodes_view(v@) + seq![nd@]);
                    if let Some(b) = rest {
                        assert(nodes_view(v@) + (seq![nd@] + b) =~= nodes_view(v@) + seq![nd@] + b);
                    }
                }
                v.push(nd);
                i = e;
            },
            None => {
                let line = newlines_before(&s, i);
                return Err(Error::LexicalFailure { offset: i, line: line + 1 });
            },
        }
    }
    assert(nodes_view(v@) + Seq::<NodeView>::empty() =~= nodes_view(v@));
    Ok(v)
}

} // verus!
