//! A preprocessing-aware parser for 4GL source files that carry compiler
//! directives and IDE-generated `&ANALYZE-SUSPEND` / `&ANALYZE-RESUME` metadata
//! blocks.
//!
//! Source text is read as a flat sequence of nodes (`preprocessed_progress`), which
//! is then grouped into analysis sections (`PreprocessorAnalysisSection::from`).
//! Every grammar is stated as a spec function over the characters of the input,
//! and every parser is proved to compute exactly what its grammar says.
pub mod analysis_suspend;
pub mod error;
pub mod file_position;
pub mod preprocessor;
pub mod progress;
pub mod query;
pub mod sections;
pub mod summary;
pub mod text;
pub mod util;
pub mod window;

pub use analysis_suspend::{
    analyze_resume, analyze_suspend, analyze_suspend_code_block, block_type, custom_code_block,
    AnalysisSuspendHeader, CodeBlockType,
};
pub use error::{Error, NestingViolation};
pub use file_position::{wrap, FilePosition, FilePositionM};
pub use preprocessor::{node, preprocessed_progress, PreprocessorASTNode};
pub use progress::{ignore, progress, statement, Progress, Statement};
pub use query::{analysis_sections, find_inner_procedures, str_contains};
pub use sections::PreprocessorAnalysisSection;
pub use text::{identifier, one_of, tag_no_case, till_eol};
pub use util::{restrict_string, u8_ref_to_string};
pub use window::{create_window, number, Decimal};
