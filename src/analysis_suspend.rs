//! The headers that follow `&ANALYZE-SUSPEND`, and their classifier.
//!
//! Each alternative is tried as a whole: it either matches or consumes nothing, so
//! the next one starts from the same place.
use vstd::prelude::*;
use crate::text::{
    identifier, identifier_at, line_end, run_end, spaces, tag_at, tag_no_case, till_eol,
    eol_at, opt_end, CharClass,
};

verus! {

/// The kind of code block named by a `_UIB-CODE-BLOCK` header.
#[derive(Debug, Clone, PartialEq, Eq)]
pub enum CodeBlockType {
    Custom { name: String, frame_name: String },
    FunctionForward { name: String, frame_name: String },
    Control { name: String, frame_name: String },
    Procedure { name: String, frame_name: String },
    Function { name: String, frame_name: String },
    Unknown { name: String },
}

/// A `CodeBlockType` with its strings seen as sequences of characters.
pub enum CodeBlockTypeView {
    Custom { name: Seq<char>, frame_name: Seq<char> },
    FunctionForward { name: Seq<char>, frame_name: Seq<char> },
    Control { name: Seq<char>, frame_name: Seq<char> },
    Procedure { name: Seq<char>, frame_name: Seq<char> },
    Function { name: Seq<char>, frame_name: Seq<char> },
    Unknown { name: Seq<char> },
}

impl View for CodeBlockType {
    type V = CodeBlockTypeView;

    open spec fn view(&self) -> CodeBlockTypeView {
        match self {
            CodeBlockType::Custom { name, frame_name } => CodeBlockTypeView::Custom {
                name: name@,
                frame_name: frame_name@,
            },
            CodeBlockType::FunctionForward { name, frame_name } =>
                CodeBlockTypeView::FunctionForward { name: name@, frame_name: frame_name@ },
            CodeBlockType::Control { name, frame_name } => CodeBlockTypeView::Control {
                name: name@,
                frame_name: frame_name@,
            },
            CodeBlockType::Procedure { name, frame_name } => CodeBlockTypeView::Procedure {
                name: name@,
                frame_name: frame_name@,
            },
            CodeBlockType::Function { name, frame_name } => CodeBlockTypeView::Function {
                name: name@,
                frame_name: frame_name@,
            },
            CodeBlockType::Unknown { name } => CodeBlockTypeView::Unknown { name: name@ },
        }
    }
}

/// The classified header of an `&ANALYZE-SUSPEND` line.
#[derive(Debug, Clone, PartialEq, Eq)]
pub enum AnalysisSuspendHeader {
    VersionNumber,
    PreprocessorBlock,
    ProcedureSettings,
    CreateWindow,
    CodeBlock { block_type: CodeBlockType },
    Other { block_type: String },
}

/// An `AnalysisSuspendHeader` with its strings seen as sequences of characters.
pub enum HeaderView {
    VersionNumber,
    PreprocessorBlock,
    ProcedureSettings,
    CreateWindow,
    CodeBlock { block_type: CodeBlockTypeView },
    Other { block_type: Seq<char> },
}

impl View for AnalysisSuspendHeader {
    type V = HeaderView;

    open spec fn view(&self) -> HeaderView {
        match self {
            AnalysisSuspendHeader::VersionNumber => HeaderView::VersionNumber,
            AnalysisSuspendHeader::PreprocessorBlock => HeaderView::PreprocessorBlock,
            AnalysisSuspendHeader::ProcedureSettings => HeaderView::ProcedureSettings,
            AnalysisSuspendHeader::CreateWindow => HeaderView::CreateWindow,
            AnalysisSuspendHeader::CodeBlock { block_type } => HeaderView::CodeBlock {
                block_type: block_type@,
            },
            AnalysisSuspendHeader::Other { block_type } => HeaderView::Other {
                block_type: block_type@,
            },
        }
    }
}

/// `<keyword> <ws> <name> <ws> <frame_name>` at `i`: the name, the frame name, and
/// where the frame name ends.
pub open spec fn named_block_at(s: Seq<char>, i: int, keyword: Seq<char>) -> Option<
    (Seq<char>, Seq<char>, int),
> {
    match tag_at(s, i, keyword) {
        Some(a) => {
            let b = run_end(s, a, CharClass::Space);
            match identifier_at(s, b) {
                Some(c) => {
                    let d = run_end(s, c, CharClass::Space);
                    match identifier_at(s, d) {
                        Some(e) => Some((s.subrange(b, c), s.subrange(d, e), e)),
                        None => None,
                    }
                },
                None => None,
            }
        },
        None => None,
    }
}

/// The code block type at `i`, tried in this order: `_CUSTOM`, `_FUNCTION-FORWARD`,
/// `_CONTROL`, `_PROCEDURE`, `_FUNCTION`, and else any identifier, as `Unknown`.
pub open spec fn block_type_at(s: Seq<char>, i: int) -> Option<(CodeBlockTypeView, int)> {
    match named_block_at(s, i, "_CUSTOM"@) {
        Some((n, f, e)) => Some((CodeBlockTypeView::Custom { name: n, frame_name: f }, e)),
        None => match named_block_at(s, i, "_FUNCTION-FORWARD"@) {
            Some((n, f, e)) => Some(
                (CodeBlockTypeView::FunctionForward { name: n, frame_name: f }, e),
            ),
            None => match named_block_at(s, i, "_CONTROL"@) {
                Some((n, f, e)) => Some((CodeBlockTypeView::Control { name: n, frame_name: f }, e)),
                None => match named_block_at(s, i, "_PROCEDURE"@) {
                    Some((n, f, e)) => Some(
                        (CodeBlockTypeView::Procedure { name: n, frame_name: f }, e),
                    ),
                    None => match named_block_at(s, i, "_FUNCTION"@) {
                        Some((n, f, e)) => Some(
                            (CodeBlockTypeView::Function { name: n, frame_name: f }, e),
                        ),
                        None => match identifier_at(s, i) {
                            Some(e) => Some(
                                (CodeBlockTypeView::Unknown { name: s.subrange(i, e) }, e),
                            ),
                            None => None,
                        },
                    },
                },
            },
        },
    }
}

/// `&ANALYZE-SUSPEND` (any case) and the whitespace after it: where they end.
pub open spec fn suspend_start_at(s: Seq<char>, i: int) -> Option<int> {
    match tag_at(s, i, "&analyze-suspend"@) {
        Some(a) => Some(run_end(s, a, CharClass::Space)),
        None => None,
    }
}

/// A suspend line whose header is `keyword` and whatever follows it on the line.
pub open spec fn keyword_header_at(s: Seq<char>, i: int, keyword: Seq<char>) -> Option<int> {
    match suspend_start_at(s, i) {
        Some(b) => match tag_at(s, b, keyword) {
            Some(c) => match eol_at(s, c) {
                Some((_, e)) => Some(e),
                None => None,
            },
            None => None,
        },
        None => None,
    }
}

/// A suspend line with a `_UIB-CODE-BLOCK` header: its block type, and where the
/// line ends.
pub open spec fn code_block_header_at(s: Seq<char>, i: int) -> Option<(CodeBlockTypeView, int)> {
    match suspend_start_at(s, i) {
        Some(b) => match tag_at(s, b, "_UIB-CODE-BLOCK"@) {
            Some(c) => match block_type_at(s, run_end(s, c, CharClass::Space)) {
                Some((t, d)) => match eol_at(s, d) {
                    Some((_, e)) => Some((t, e)),
                    None => None,
                },
                None => None,
            },
            None => None,
        },
        None => None,
    }
}

/// A suspend line with any other identifier as its header.
pub open spec fn other_header_at(s: Seq<char>, i: int) -> Option<(Seq<char>, int)> {
    match suspend_start_at(s, i) {
        Some(b) => match identifier_at(s, b) {
            Some(c) => match eol_at(s, c) {
                Some((_, e)) => Some((s.subrange(b, c), e)),
                None => None,
            },
            None => None,
        },
        None => None,
    }
}

/// The whole `&ANALYZE-SUSPEND` line at `i`, classified: `_VERSION-NUMBER`,
/// `_UIB-PREPROCESSOR-BLOCK`, `_PROCEDURE-SETTINGS`, `_CREATE-WINDOW`,
/// `_UIB-CODE-BLOCK`, and else any identifier, tried in this order.
pub open spec fn analyze_suspend_at(s: Seq<char>, i: int) -> Option<(HeaderView, int)> {
    match keyword_header_at(s, i, "_VERSION-NUMBER"@) {
        Some(e) => Some((HeaderView::VersionNumber, e)),
        None => match keyword_header_at(s, i, "_UIB-PREPROCESSOR-BLOCK"@) {
            Some(e) => Some((HeaderView::PreprocessorBlock, e)),
            None => match keyword_header_at(s, i, "_PROCEDURE-SETTINGS"@) {
                Some(e) => Some((HeaderView::ProcedureSettings, e)),
                None => match keyword_header_at(s, i, "_CREATE-WINDOW"@) {
                    Some(e) => Some((HeaderView::CreateWindow, e)),
                    None => match code_block_header_at(s, i) {
                        Some((t, e)) => Some((HeaderView::CodeBlock { block_type: t }, e)),
                        None => match other_header_at(s, i) {
                            Some((n, e)) => Some((HeaderView::Other { block_type: n }, e)),
                            None => None,
                        },
                    },
                },
            },
        },
    }
}

/// The whole `&ANALYZE-RESUME` line at `i`: where it ends.
pub open spec fn analyze_resume_at(s: Seq<char>, i: int) -> Option<int> {
    match tag_at(s, i, "&analyze-resume"@) {
        Some(a) => match eol_at(s, a) {
            Some((_, e)) => Some(e),
            None => None,
        },
        None => None,
    }
}

pub open spec fn block_result(r: Option<(CodeBlockType, usize)>) -> Option<(CodeBlockTypeView, int)> {
    match r {
        Some((t, e)) => Some((t@, e as int)),
        None => None,
    }
}

pub open spec fn header_result(r: Option<(AnalysisSuspendHeader, usize)>) -> Option<(HeaderView, int)> {
    match r {
        Some((h, e)) => Some((h@, e as int)),
        None => None,
    }
}

/// The name and frame name after `keyword`, and where the frame name ends.
fn named_block(s: &Vec<char>, i: usize, keyword: &str) -> (r: Option<(String, String, usize)>)
    requires
        i <= s@.len(),
    ensures
        match r {
            Some((n, f, e)) => named_block_at(s@, i as int, keyword@) == Some(
                (n@, f@, e as int),
            ) && i < e <= s@.len(),
            None => named_block_at(s@, i as int, keyword@) is None,
        },
{
    let a = match tag_no_case(s, i, keyword) {
        Some(a) => a,
        None => return None,
    };
    let b = spaces(s, a);
    let (name, c) = match identifier(s, b) {
        Some(p) => p,
        None => return None,
    };
    proof {
        crate::text::lemma_run_end(s@, b + 1, CharClass::IdentChar);
    }
    let d = spaces(s, c);
    let (frame_name, e) = match identifier(s, d) {
        Some(p) => p,
        None => return None,
    };
    proof {
        crate::text::lemma_run_end(s@, d + 1, CharClass::IdentChar);
    }
    Some((name, frame_name, e))
}

/// `_CUSTOM <name> <frame_name>` at `i`.
pub fn custom_code_block(s: &Vec<char>, i: usize) -> (r: Option<(CodeBlockType, usize)>)
    requires
        i <= s@.len(),
    ensures
        block_result(r) == (match named_block_at(s@, i as int, "_CUSTOM"@) {
            Some((n, f, e)) => Some((CodeBlockTypeView::Custom { name: n, frame_name: f }, e)),
            None => None,
        }),
        r matches Some((_, e)) ==> i < e <= s@.len(),
{
    match named_block(s, i, "_CUSTOM") {
        Some((name, frame_name, e)) => Some((CodeBlockType::Custom { name, frame_name }, e)),
        None => None,
    }
}

/// `_FUNCTION-FORWARD <name> <frame_name>` at `i`.
fn function_forward(s: &Vec<char>, i: usize) -> (r: Option<(CodeBlockType, usize)>)
    requires
        i <= s@.len(),
    ensures
        block_result(r) == (match named_block_at(s@, i as int, "_FUNCTION-FORWARD"@) {
            Some((n, f, e)) => Some(
                (CodeBlockTypeView::FunctionForward { name: n, frame_name: f }, e),
            ),
            None => None,
        }),
        r matches Some((_, e)) ==> i < e <= s@.len(),
{
    match named_block(s, i, "_FUNCTION-FORWARD") {
        Some((name, frame_name, e)) => Some(
            (CodeBlockType::FunctionForward { name, frame_name }, e),
        ),
        None => None,
    }
}

/// `_CONTROL <name> <frame_name>` at `i`.
fn control_code_block(s: &Vec<char>, i: usize) -> (r: Option<(CodeBlockType, usize)>)
    requires
        i <= s@.len(),
    ensures
        block_result(r) == (match named_block_at(s@, i as int, "_CONTROL"@) {
            Some((n, f, e)) => Some((CodeBlockTypeView::Control { name: n, frame_name: f }, e)),
            None => None,
        }),
        r matches Some((_, e)) ==> i < e <= s@.len(),
{
    match named_block(s, i, "_CONTROL") {
        Some((name, frame_name, e)) => Some((CodeBlockType::Control { name, frame_name }, e)),
        None => None,
    }
}

/// `_PROCEDURE <name> <frame_name>` at `i`.
fn procedure(s: &Vec<char>, i: usize) -> (r: Option<(CodeBlockType, usize)>)
    requires
        i <= s@.len(),
    ensures
        block_result(r) == (match named_block_at(s@, i as int, "_PROCEDURE"@) {
            Some((n, f, e)) => Some((CodeBlockTypeView::Procedure { name: n, frame_name: f }, e)),
            None => None,
        }),
        r matches Some((_, e)) ==> i < e <= s@.len(),
{
    match named_block(s, i, "_PROCEDURE") {
        Some((name, frame_name, e)) => Some((CodeBlockType::Procedure { name, frame_name }, e)),
        None => None,
    }
}

/// `_FUNCTION <name> <frame_name>` at `i`.
fn function(s: &Vec<char>, i: usize) -> (r: Option<(CodeBlockType, usize)>)
    requires
        i <= s@.len(),
    ensures
        block_result(r) == (match named_block_at(s@, i as int, "_FUNCTION"@) {
            Some((n, f, e)) => Some((CodeBlockTypeView::Function { name: n, frame_name: f }, e)),
            None => None,
        }),
        r matches Some((_, e)) ==> i < e <= s@.len(),
{
    match named_block(s, i, "_FUNCTION") {
        Some((name, frame_name, e)) => Some((CodeBlockType::Function { name, frame_name }, e)),
        None => None,
    }
}

/// Any identifier at `i`, as a block type of unknown kind.
fn unknown_code_block(s: &Vec<char>, i: usize) -> (r: Option<(CodeBlockType, usize)>)
    requires
        i <= s@.len(),
    ensures
        block_result(r) == (match identifier_at(s@, i as int) {
            Some(e) => Some((CodeBlockTypeView::Unknown { name: s@.subrange(i as int, e) }, e)),
            None => None,
        }),
        r matches Some((_, e)) ==> i < e <= s@.len(),
{
    match identifier(s, i) {
        Some((name, e)) => {
            proof {
                crate::text::lemma_run_end(s@, i + 1, CharClass::IdentChar);
            }
            Some((CodeBlockType::Unknown { name }, e))
        },
        None => None,
    }
}

/// The code block type at `i`; longer keywords are tried before their prefixes.
pub fn block_type(s: &Vec<char>, i: usize) -> (r: Option<(CodeBlockType, usize)>)
    requires
        i <= s@.len(),
    ensures
        block_result(r) == block_type_at(s@, i as int),
        r matches Some((_, e)) ==> i < e <= s@.len(),
{
    if let Some(r) = custom_code_block(s, i) {
        return Some(r);
    }
    if let Some(r) = function_forward(s, i) {
        return Some(r);
    }
    if let Some(r) = control_code_block(s, i) {
        return Some(r);
    }
    if let Some(r) = procedure(s, i) {
        return Some(r);
    }
    if let Some(r) = function(s, i) {
        return Some(r);
    }
    unknown_code_block(s, i)
}

/// `&ANALYZE-SUSPEND` at `i`, any case, and the whitespace after it.
fn analyze_suspend_start(s: &Vec<char>, i: usize) -> (r: Option<usize>)
    requires
        i <= s@.len(),
    ensures
        opt_end(r) == suspend_start_at(s@, i as int),
        r matches Some(e) ==> i < e <= s@.len(),
{
    proof {
        reveal_strlit("&analyze-suspend");
    }
    match tag_no_case(s, i, "&analyze-suspend") {
        Some(a) => Some(spaces(s, a)),
        None => None,
    }
}

/// A suspend line whose header is `keyword`, to the end of the line.
fn keyword_header(s: &Vec<char>, i: usize, keyword: &str) -> (r: Option<usize>)
    requires
        i <= s@.len(),
    ensures
        opt_end(r) == keyword_header_at(s@, i as int, keyword@),
        r matches Some(e) ==> i < e <= s@.len(),
{
    let b = match analyze_suspend_start(s, i) {
        Some(b) => b,
        None => return None,
    };
    let c = match tag_no_case(s, b, keyword) {
        Some(c) => c,
        None => return None,
    };
    match line_end(s, c) {
        Some((_, e)) => Some(e),
        None => None,
    }
}

fn analyze_suspend_version_numbers(s: &Vec<char>, i: usize) -> (r: Option<usize>)
    requires
        i <= s@.len(),
    ensures
        opt_end(r) == keyword_header_at(s@, i as int, "_VERSION-NUMBER"@),
        r matches Some(e) ==> i < e <= s@.len(),
{
    keyword_header(s, i, "_VERSION-NUMBER")
}

fn analyze_suspend_preprocessor_block(s: &Vec<char>, i: usize) -> (r: Option<usize>)
    requires
        i <= s@.len(),
    ensures
        opt_end(r) == keyword_header_at(s@, i as int, "_UIB-PREPROCESSOR-BLOCK"@),
        r matches Some(e) ==> i < e <= s@.len(),
{
    keyword_header(s, i, "_UIB-PREPROCESSOR-BLOCK")
}

fn analyze_suspend_procedure_settings(s: &Vec<char>, i: usize) -> (r: Option<usize>)
    requires
        i <= s@.len(),
    ensures
        opt_end(r) == keyword_header_at(s@, i as int, "_PROCEDURE-SETTINGS"@),
        r matches Some(e) ==> i < e <= s@.len(),
{
    keyword_header(s, i, "_PROCEDURE-SETTINGS")
}

fn analyze_suspend_create_window(s: &Vec<char>, i: usize) -> (r: Option<usize>)
    requires
        i <= s@.len(),
    ensures
        opt_end(r) == keyword_header_at(s@, i as int, "_CREATE-WINDOW"@),
        r matches Some(e) ==> i < e <= s@.len(),
{
    keyword_header(s, i, "_CREATE-WINDOW")
}

/// A whole `&ANALYZE-SUSPEND _UIB-CODE-BLOCK <block type>` line at `i`.
pub fn analyze_suspend_code_block(s: &Vec<char>, i: usize) -> (r: Option<
    (AnalysisSuspendHeader, usize),
>)
    requires
        i <= s@.len(),
    ensures
        header_result(r) == (match code_block_header_at(s@, i as int) {
            Some((t, e)) => Some((HeaderView::CodeBlock { block_type: t }, e)),
            None => None,
        }),
        r matches Some((_, e)) ==> i < e <= s@.len(),
{
    let b = match analyze_suspend_start(s, i) {
        Some(b) => b,
        None => return None,
    };
    let c = match tag_no_case(s, b, "_UIB-CODE-BLOCK") {
        Some(c) => c,
        None => return None,
    };
    let d = spaces(s, c);
    let (block_type, e) = match block_type(s, d) {
        Some(p) => p,
        None => return None,
    };
    match line_end(s, e) {
        Some((_, f)) => Some((AnalysisSuspendHeader::CodeBlock { block_type }, f)),
        None => None,
    }
}

/// A whole `&ANALYZE-SUSPEND <identifier>` line at `i`, for headers of no known kind.
fn analyze_suspend_other(s: &Vec<char>, i: usize) -> (r: Option<(AnalysisSuspendHeader, usize)>)
    requires
        i <= s@.len(),
    ensures
        header_result(r) == (match other_header_at(s@, i as int) {
            Some((n, e)) => Some((HeaderView::Other { block_type: n }, e)),
            None => None,
        }),
        r matches Some((_, e)) ==> i < e <= s@.len(),
{
    let b = match analyze_suspend_start(s, i) {
        Some(b) => b,
        None => return None,
    };
    let (block_type, c) = match identifier(s, b) {
        Some(p) => p,
        None => return None,
    };
    proof {
        crate::text::lemma_run_end(s@, b + 1, CharClass::IdentChar);
    }
    match line_end(s, c) {
        Some((_, e)) => Some((AnalysisSuspendHeader::Other { block_type }, e)),
        None => None,
    }
}

/// The whole `&ANALYZE-SUSPEND` line at `i`, with its header classified.
pub fn analyze_suspend(s: &Vec<char>, i: usize) -> (r: Option<(AnalysisSuspendHeader, usize)>)
    requires
        i <= s@.len(),
    ensures
        header_result(r) == analyze_suspend_at(s@, i as int),
        r matches Some((_, e)) ==> i < e <= s@.len(),
{
    if let Some(e) = analyze_suspend_version_numbers(s, i) {
        return Some((AnalysisSuspendHeader::VersionNumber, e));
    }
    if let Some(e) = analyze_suspend_preprocessor_block(s, i) {
        return Some((AnalysisSuspendHeader::PreprocessorBlock, e));
    }
    if let Some(e) = analyze_suspend_procedure_settings(s, i) {
        return Some((AnalysisSuspendHeader::ProcedureSettings, e));
    }
    if let Some(e) = analyze_suspend_create_window(s, i) {
        return Some((AnalysisSuspendHeader::CreateWindow, e));
    }
    if let Some(r) = analyze_suspend_code_block(s, i) {
        return Some(r);
    }
    analyze_suspend_other(s, i)
}

/// The whole `&ANALYZE-RESUME` line at `i`: where it ends. Anything after the
/// keyword on the line is discarded.
pub fn analyze_resume(s: &Vec<char>, i: usize) -> (r: Option<usize>)
    requires
        i <= s@.len(),
    ensures
        opt_end(r) == analyze_resume_at(s@, i as int),
        r matches Some(e) ==> i < e <= s@.len(),
{
    proof {
        reveal_strlit("&analyze-resume");
    }
    let a = match tag_no_case(s, i, "&analyze-resume") {
        Some(a) => a,
        None => return None,
    };
    match till_eol(s, a) {
        Some((_, e)) => Some(e),
        None => None,
    }
}

} // verus!
