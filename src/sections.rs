//! Analysis sections: the file partitioned by its `&ANALYZE-SUSPEND` /
//! `&ANALYZE-RESUME` markers, each part tagged with its classified header.
use vstd::prelude::*;
use vstd::string::StringExecFns;
use crate::analysis_suspend::{AnalysisSuspendHeader, CodeBlockType, CodeBlockTypeView, HeaderView};
use crate::error::{Error, NestingViolation};
use crate::preprocessor::{nodes_view, newline_count, NodeView, PreprocessorASTNode};
use crate::text::whitespace;
use crate::window::{attributes_view, create_window, window_attributes, Decimal, DecimalView};

verus! {

/// One analysis section of a file.
#[derive(Debug, Clone, PartialEq, Eq)]
pub enum PreprocessorAnalysisSection {
    /// Text outside any suspend/resume pair.
    NotInSection { contents: String },
    VersionNumber,
    PreprocessorBlock { contents: String },
    ProcedureSettings { contents: String },
    /// A window-creation section, with the attribute list read from its contents.
    CreateWindow { contents: String, attributes: Vec<(String, Decimal)> },
    CodeBlock { block_type: CodeBlockType, contents: String },
    Other { block_type: String, contents: String },
}

/// A `PreprocessorAnalysisSection` with its strings seen as sequences of characters.
pub enum SectionView {
    NotInSection { contents: Seq<char> },
    VersionNumber,
    PreprocessorBlock { contents: Seq<char> },
    ProcedureSettings { contents: Seq<char> },
    CreateWindow { contents: Seq<char>, attributes: Seq<(Seq<char>, DecimalView)> },
    CodeBlock { block_type: CodeBlockTypeView, contents: Seq<char> },
    Other { block_type: Seq<char>, contents: Seq<char> },
}

impl View for PreprocessorAnalysisSection {
    type V = SectionView;

    open spec fn view(&self) -> SectionView {
        match self {
            PreprocessorAnalysisSection::NotInSection { contents } => SectionView::NotInSection {
                contents: contents@,
            },
            PreprocessorAnalysisSection::VersionNumber => SectionView::VersionNumber,
            PreprocessorAnalysisSection::PreprocessorBlock { contents } =>
                SectionView::PreprocessorBlock { contents: contents@ },
            PreprocessorAnalysisSection::ProcedureSettings { contents } =>
                SectionView::ProcedureSettings { contents: contents@ },
            PreprocessorAnalysisSection::CreateWindow { contents, attributes } =>
                SectionView::CreateWindow {
                    contents: contents@,
                    attributes: attributes_view(attributes@),
                },
            PreprocessorAnalysisSection::CodeBlock { block_type, contents } =>
                SectionView::CodeBlock { block_type: block_type@, contents: contents@ },
            PreprocessorAnalysisSection::Other { block_type, contents } => SectionView::Other {
                block_type: block_type@,
                contents: contents@,
            },
        }
    }
}

pub open spec fn sections_view(v: Seq<PreprocessorAnalysisSection>) -> Seq<SectionView> {
    v.map_values(|s: PreprocessorAnalysisSection| s@)
}

/// The section that a header and the text collected after it make; `None` where
/// a window section's contents hold no attribute list.
pub open spec fn section_for(h: HeaderView, contents: Seq<char>) -> Option<SectionView> {
    match h {
        HeaderView::VersionNumber => Some(SectionView::VersionNumber),
        HeaderView::PreprocessorBlock => Some(SectionView::PreprocessorBlock { contents }),
        HeaderView::ProcedureSettings => Some(SectionView::ProcedureSettings { contents }),
        HeaderView::CreateWindow => match window_attributes(contents) {
            Some(attributes) => Some(SectionView::CreateWindow { contents, attributes }),
            None => None,
        },
        HeaderView::CodeBlock { block_type } => Some(SectionView::CodeBlock { block_type, contents }),
        HeaderView::Other { block_type } => Some(SectionView::Other { block_type, contents }),
    }
}

/// The assembler's state between two nodes: the open header, if any, the text
/// collected since the last marker, the line counter, and the sections so far.
pub struct Assembly {
    pub open: Option<HeaderView>,
    pub buffer: Seq<char>,
    pub line: nat,
    pub sections: Seq<SectionView>,
}

/// Whether `t` holds only whitespace.
pub open spec fn is_blank(t: Seq<char>) -> bool {
    forall|k: int| 0 <= k < t.len() ==> whitespace(#[trigger] t[k])
}

/// The line counter after a marker that closes `t`: one more than the line feeds
/// in `t`, saturating at `usize::MAX`.
pub open spec fn advance(line: nat, t: Seq<char>) -> nat {
    let l = line + newline_count(t) + 1;
    if l > usize::MAX {
        usize::MAX as nat
    } else {
        l
    }
}

pub open spec fn crlf() -> Seq<char> {
    seq!['\r', '\n']
}

pub open spec fn nesting_error(violation: NestingViolation, line: nat) -> Error {
    Error::SectionNestingViolation { violation, line: line as usize }
}

/// The effect of one node on the assembler's state.
pub open spec fn assembly_step(st: Assembly, n: NodeView) -> Result<Assembly, Error> {
    match n {
        NodeView::AnalysisSuspend(h) => match st.open {
            Some(_) => Err(nesting_error(NestingViolation::TwoSuspends, st.line)),
            None => Ok(
                Assembly {
                    open: Some(h),
                    buffer: Seq::empty(),
                    line: advance(st.line, st.buffer),
                    sections: if is_blank(st.buffer) {
                        st.sections
                    } else {
                        st.sections.push(SectionView::NotInSection { contents: st.buffer })
                    },
                },
            ),
        },
        NodeView::AnalysisResume => match st.open {
            None => Err(nesting_error(NestingViolation::ResumeWithoutSuspend, st.line)),
            Some(h) => match section_for(h, st.buffer) {
                Some(sec) => Ok(
                    Assembly {
                        open: None,
                        buffer: Seq::empty(),
                        line: advance(st.line, st.buffer),
                        sections: st.sections.push(sec),
                    },
                ),
                None => Err(Error::AttributeGrammarFailure { line: st.line as usize }),
            },
        },
        NodeView::PreprocessorLine(t) => Ok(Assembly { buffer: st.buffer + t + crlf(), ..st }),
        NodeView::Import(t) => Ok(Assembly { buffer: st.buffer + t, ..st }),
        NodeView::Replace(_) => Ok(st),
        NodeView::Code(t) => Ok(Assembly { buffer: st.buffer + t, ..st }),
        NodeView::Comment(t) => Ok(Assembly { buffer: st.buffer + t, ..st }),
    }
}

pub open spec fn initial_assembly() -> Assembly {
    Assembly { open: None, buffer: Seq::empty(), line: 0, sections: Seq::empty() }
}

/// The assembler's state after the nodes `nodes`, or the first error.
pub open spec fn assembly_run(nodes: Seq<NodeView>) -> Result<Assembly, Error>
    decreases nodes.len(),
{
    if nodes.len() == 0 {
        Ok(initial_assembly())
    } else {
        match assembly_run(nodes.drop_last()) {
            Ok(st) => assembly_step(st, nodes.last()),
            Err(e) => Err(e),
        }
    }
}

/// The sections of a node sequence: a section still open at the end is an error;
/// text collected after the last marker makes a final `NotInSection`.
pub open spec fn assemble(nodes: Seq<NodeView>) -> Result<Seq<SectionView>, Error> {
    match assembly_run(nodes) {
        Err(e) => Err(e),
        Ok(st) => match st.open {
            Some(_) => Err(nesting_error(NestingViolation::Unterminated, st.line)),
            None => Ok(
                if st.buffer.len() > 0 {
                    st.sections.push(SectionView::NotInSection { contents: st.buffer })
                } else {
                    st.sections
                },
            ),
        },
    }
}

pub open spec fn header_opt_view(h: Option<AnalysisSuspendHeader>) -> Option<HeaderView> {
    match h {
        Some(x) => Some(x@),
        None => None,
    }
}

/// Once assembly has failed, later nodes do not change the error.
pub proof fn lemma_error_persists(nodes: Seq<NodeView>, n: int)
    requires
        0 <= n <= nodes.len(),
        assembly_run(nodes.take(n)) is Err,
    ensures
        assembly_run(nodes) == assembly_run(nodes.take(n)),
        assemble(nodes) == match assembly_run(nodes.take(n)) {
            Err(e) => Err::<Seq<SectionView>, Error>(e),
            Ok(_) => Ok(Seq::empty()),
        },
    decreases nodes.len() - n,
{
    if n < nodes.len() {
        assert(nodes.take(n + 1).drop_last() =~= nodes.take(n));
        lemma_error_persists(nodes, n + 1);
    } else {
        assert(nodes.take(n) =~= nodes);
    }
}

pub open spec fn nesting_failed_or_open(r: Result<Assembly, Error>) -> bool {
    match r {
        Err(e) => e is SectionNestingViolation,
        Ok(st) => st.open is Some,
    }
}

pub open spec fn is_resume_without_suspend(e: Error) -> bool {
    e matches Error::SectionNestingViolation {
        violation: NestingViolation::ResumeWithoutSuspend,
        ..
    }
}

/// Assembly fails only by a nesting violation or by a window section without an
/// attribute list.
proof fn lemma_error_kinds(nodes: Seq<NodeView>, n: int)
    requires
        0 <= n <= nodes.len(),
    ensures
        assembly_run(nodes.take(n)) matches Err(e) ==> (e is SectionNestingViolation
            || e is AttributeGrammarFailure),
    decreases n,
{
    if n == 0 {
        assert(nodes.take(0) =~= Seq::<NodeView>::empty());
    } else {
        lemma_error_kinds(nodes, n - 1);
        assert(nodes.take(n).drop_last() =~= nodes.take(n - 1));
    }
}

/// While no resume comes, a section opened by a suspend stays open, or assembly
/// has failed by a nesting violation.
proof fn lemma_open_until_resume(nodes: Seq<NodeView>, j: int, n: int)
    requires
        0 <= j < n <= nodes.len(),
        nesting_failed_or_open(assembly_run(nodes.take(j + 1))),
        forall|m: int| j < m < n ==> !(#[trigger] nodes[m] is AnalysisResume),
    ensures
        nesting_failed_or_open(assembly_run(nodes.take(n))),
    decreases n - j,
{
    if n > j + 1 {
        lemma_open_until_resume(nodes, j, n - 1);
        assert(nodes.take(n).drop_last() =~= nodes.take(n - 1));
        assert(nodes.take(n).last() == nodes[n - 1]);
    }
}

/// Two suspends with no resume between them make assembly fail with a nesting
/// violation, unless assembly has already failed before the first of them on a
/// window section without an attribute list.
pub proof fn lemma_two_suspends_fail(nodes: Seq<NodeView>, j: int, k: int)
    requires
        0 <= j < k < nodes.len(),
        nodes[j] is AnalysisSuspend,
        nodes[k] is AnalysisSuspend,
        forall|m: int| j < m < k ==> !(#[trigger] nodes[m] is AnalysisResume),
        !(assembly_run(nodes.take(j)) matches Err(Error::AttributeGrammarFailure { .. })),
    ensures
        assemble(nodes) matches Err(Error::SectionNestingViolation { .. }),
{
    lemma_error_kinds(nodes, j);
    assert(nodes.take(j + 1).drop_last() =~= nodes.take(j));
    assert(nodes.take(j + 1).last() == nodes[j]);
    lemma_open_until_resume(nodes, j, k);
    assert(nodes.take(k + 1).drop_last() =~= nodes.take(k));
    assert(nodes.take(k + 1).last() == nodes[k]);
    assert(assembly_run(nodes.take(k + 1)) is Err);
    lemma_error_persists(nodes, k + 1);
}

/// With no suspend so far, no section is open, and any failure is a resume
/// without a suspend.
proof fn lemma_no_suspend_prefix(nodes: Seq<NodeView>, n: int)
    requires
        0 <= n <= nodes.len(),
        forall|m: int| 0 <= m < n ==> !(#[trigger] nodes[m] is AnalysisSuspend),
    ensures
        match assembly_run(nodes.take(n)) {
            Err(e) => is_resume_without_suspend(e),
            Ok(st) => st.open is None,
        },
    decreases n,
{
    if n == 0 {
        assert(nodes.take(0) =~= Seq::<NodeView>::empty());
    } else {
        lemma_no_suspend_prefix(nodes, n - 1);
        assert(nodes.take(n).drop_last() =~= nodes.take(n - 1));
        assert(nodes.take(n).last() == nodes[n - 1]);
    }
}

/// A resume with no suspend anywhere before it makes assembly fail with a
/// resume-without-suspend nesting violation.
pub proof fn lemma_resume_without_suspend_fails(nodes: Seq<NodeView>, j: int)
    requires
        0 <= j < nodes.len(),
        nodes[j] is AnalysisResume,
        forall|m: int| 0 <= m < j ==> !(#[trigger] nodes[m] is AnalysisSuspend),
    ensures
        assemble(nodes) matches Err(e) && is_resume_without_suspend(e),
{
    lemma_no_suspend_prefix(nodes, j);
    assert(nodes.take(j + 1).drop_last() =~= nodes.take(j));
    assert(nodes.take(j + 1).last() == nodes[j]);
    lemma_error_persists(nodes, j + 1);
}

/// The number of line feeds in `s`.
fn count_newlines(s: &str) -> (r: usize)
    ensures
        r == newline_count(s@),
{
    let len = s.unicode_len();
    let mut count: usize = 0;
    for c in it: s.chars()
        invariant
            it.seq() == s@,
            len == s@.len(),
            count <= it.index(),
            count == newline_count(s@.take(it.index() as int)),
    {
        assert(s@.take(it.index() + 1).drop_last() == s@.take(it.index() as int));
        if c == '\n' {
            count += 1;
        }
    }
    assert(s@.take(s@.len() as int) == s@);
    count
}

/// Whether `s` holds only whitespace.
fn blank(s: &str) -> (r: bool)
    ensures
        r == is_blank(s@),
{
    for c in it: s.chars()
        invariant
            it.seq() == s@,
            forall|k: int| 0 <= k < it.index() ==> whitespace(#[trigger] s@[k]),
    {
        if !c.is_whitespace() {
            return false;
        }
    }
    true
}

/// The line counter after a marker that closes `contents`.
fn advance_line(line: usize, contents: &str) -> (r: usize)
    ensures
        r == advance(line as nat, contents@),
{
    let count = count_newlines(contents);
    if count >= usize::MAX - line {
        usize::MAX
    } else {
        line + count + 1
    }
}

impl PreprocessorAnalysisSection {
    /// The section that `header` and the text collected after it make. A window
    /// section reads its attribute list from `contents`; `None` where there is none.
    pub fn new(header: AnalysisSuspendHeader, contents: String) -> (r: Option<
        PreprocessorAnalysisSection,
    >)
        ensures
            match r {
                Some(sec) => section_for(header@, contents@) == Some(sec@),
                None => section_for(header@, contents@) is None,
            },
    {
        match header {
            AnalysisSuspendHeader::VersionNumber => Some(PreprocessorAnalysisSection::VersionNumber),
            AnalysisSuspendHeader::PreprocessorBlock => Some(
                PreprocessorAnalysisSection::PreprocessorBlock { contents },
            ),
            AnalysisSuspendHeader::ProcedureSettings => Some(
                PreprocessorAnalysisSection::ProcedureSettings { contents },
            ),
            AnalysisSuspendHeader::CreateWindow => match create_window(contents.as_str()) {
                Some(attributes) => Some(
                    PreprocessorAnalysisSection::CreateWindow { contents, attributes },
                ),
                None => None,
            },
            AnalysisSuspendHeader::CodeBlock { block_type } => Some(
                PreprocessorAnalysisSection::CodeBlock { block_type, contents },
            ),
            AnalysisSuspendHeader::Other { block_type } => Some(
                PreprocessorAnalysisSection::Other { block_type, contents },
            ),
        }
    }

    /// Groups a node sequence into analysis sections, in order. Fails on a suspend
    /// while a section is open, on a resume while none is, on a section still
    /// open at the end, and on a window section without an attribute list; each
    /// error carries the line counter at that point.
    pub fn from(nodes: Vec<PreprocessorASTNode>) -> (r: Result<
        Vec<PreprocessorAnalysisSection>,
        Error,
    >)
        ensures
            match r {
                Ok(v) => assemble(nodes_view(nodes@)) == Ok::<Seq<SectionView>, Error>(
                    sections_view(v@),
                ),
                Err(e) => assemble(nodes_view(nodes@)) == Err::<Seq<SectionView>, Error>(e),
            },
    {
        let ghost all = nodes_view(nodes@);
        let mut line_number: usize = 0;
        let mut result: Vec<PreprocessorAnalysisSection> = Vec::new();
        let mut section_start: Option<AnalysisSuspendHeader> = None;
        let mut contents = String::new();
        proof {
            assert(all.take(0) =~= Seq::<NodeView>::empty());
            assert(sections_view(result@) =~= Seq::<SectionView>::empty());
        }
        for node in it: nodes
            invariant
                all == nodes_view(it.seq()),
                assembly_run(all.take(it.index() as int)) == Ok::<Assembly, Error>(
                    Assembly {
                        open: header_opt_view(section_start),
                        buffer: contents@,
                        line: line_number as nat,
                        sections: sections_view(result@),
                    },
                ),
        {
            let ghost k = it.index() as int;
            proof {
                assert(all.take(k + 1).drop_last() == all.take(k));
                assert(all.take(k + 1).last() == node@);
            }
            match node {
                PreprocessorASTNode::AnalysisSuspend(header) => {
                    if section_start.is_some() {
                        proof {
                            lemma_error_persists(all, k + 1);
                        }
                        return Err(
                            Error::SectionNestingViolation {
                                violation: NestingViolation::TwoSuspends,
                                line: line_number,
                            },
                        );
                    }
                    line_number = advance_line(line_number, contents.as_str());
                    if !blank(contents.as_str()) {
                        proof {
                            assert(sections_view(result@.push(
                                PreprocessorAnalysisSection::NotInSection { contents },
                            )) == sections_view(result@).push(
                                SectionView::NotInSection { contents: contents@ },
                            ));
                        }
                        result.push(PreprocessorAnalysisSection::NotInSection { contents });
                    }
                    contents = String::new();
                    section_start = Some(header);
                },
                PreprocessorASTNode::AnalysisResume => {
                    let start = match section_start {
                        Some(start) => start,
                        None => {
                            proof {
                                lemma_error_persists(all, k + 1);
                            }
                            return Err(
                                Error::SectionNestingViolation {
                                    violation: NestingViolation::ResumeWithoutSuspend,
                                    line: line_number,
                                },
                            );
                        },
                    };
                    let next_line = advance_line(line_number, contents.as_str());
                    let section = match PreprocessorAnalysisSection::new(start, contents) {
                        Some(section) => section,
                        None => {
                            proof {
                                lemma_error_persists(all, k + 1);
                            }
                            return Err(Error::AttributeGrammarFailure { line: line_number });
                        },
                    };
                    proof {
                        assert(sections_view(result@.push(section)) == sections_view(
                            result@,
                        ).push(section@));
                    }
                    result.push(section);
                    line_number = next_line;
                    contents = String::new();
                    section_start = None;
                },
                PreprocessorASTNode::PreprocessorLine(line) => {
                    contents.append(line.as_str());
                    contents.append("\r\n");
                    proof {
                        reveal_strlit("\r\n");
                        assert("\r\n"@ == crlf());
                    }
                },
                PreprocessorASTNode::Import(import) => {
                    contents.append(import.as_str());
                },
                node => {
                    if let Some(node_contents) = node.get_contents() {
                        contents.append(node_contents);
                    }
                },
            }
        }
        proof {
            assert(all.take(all.len() as int) == all);
        }
        if section_start.is_some() {
            return Err(
                Error::SectionNestingViolation {
                    violation: NestingViolation::Unterminated,
                    line: line_number,
                },
            );
        }
        if contents.as_str().unicode_len() > 0 {
            proof {
                assert(sections_view(result@.push(
                    PreprocessorAnalysisSection::NotInSection { contents },
                )) == sections_view(result@).push(
                    SectionView::NotInSection { contents: contents@ },
                ));
            }
            result.push(PreprocessorAnalysisSection::NotInSection { contents });
        }
        Ok(result)
    }
}

} // verus!
