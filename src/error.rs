//! The ways parsing and section assembly can fail.
use vstd::prelude::*;

verus! {

/// Which rule of suspend/resume nesting was broken.
#[derive(Debug, Clone, Copy, PartialEq, Eq)]
pub enum NestingViolation {
    /// An `&ANALYZE-SUSPEND` while another section is still open.
    TwoSuspends,
    /// An `&ANALYZE-RESUME` while no section is open.
    ResumeWithoutSuspend,
    /// The input ended while a section was still open.
    Unterminated,
}

/// A failure of `preprocessed_progress` or of `PreprocessorAnalysisSection::from`.
///
/// `UnbalancedComment` and `MalformedHeader` name failures that the grammar's
/// fallbacks leave unreachable: an unclosed comment is read as code, and a suspend
/// line whose header cannot be classified is read as a preprocessor line.
#[derive(Debug, Clone, Copy, PartialEq, Eq)]
pub enum Error {
    /// No alternative of the node grammar matched at `offset` (a character index),
    /// which lies on line `line` (counted from 1).
    LexicalFailure { offset: usize, line: usize },
    UnbalancedComment { offset: usize },
    MalformedHeader { offset: usize },
    /// Suspend/resume markers nest wrongly; `line` is the assembler's line counter
    /// when the offending marker (or the end of input) was met.
    SectionNestingViolation { violation: NestingViolation, line: usize },
    /// The contents of a `CreateWindow` section are not a window attribute list.
    AttributeGrammarFailure { line: usize },
}

} // verus!
