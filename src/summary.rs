//! One-line summaries of sections, for logs and listings.
use vstd::prelude::*;
use vstd::string::StringExecFns;
use crate::analysis_suspend::{CodeBlockType, CodeBlockTypeView};
use crate::sections::{PreprocessorAnalysisSection, SectionView};
use crate::text::{byte_len, utf8_len};

verus! {

/// What the `Debug` format of `str` makes of a string: the string in double quotes,
/// with quotes, backslashes and non-printable characters escaped.
pub uninterp spec fn debug_quoted(s: Seq<char>) -> Seq<char>;

/// Relies on `<str as Debug>::fmt`: the quoted form depends on the characters alone.
#[verifier::external_body]
fn debug_str(s: &str) -> (r: String)
    ensures
        r@ == debug_quoted(s@),
{
    format!("{:?}", s)
}

pub open spec fn digit_char(d: int) -> char {
    seq!['0', '1', '2', '3', '4', '5', '6', '7', '8', '9'][d]
}

/// The decimal digits of `n`, most significant first.
pub open spec fn decimal(n: nat) -> Seq<char>
    decreases n,
{
    if n < 10 {
        seq![digit_char(n as int)]
    } else {
        decimal(n / 10).push(digit_char((n % 10) as int))
    }
}

fn digit(d: usize) -> (r: char)
    requires
        d < 10,
    ensures
        r == digit_char(d as int),
{
    if d == 0 {
        '0'
    } else if d == 1 {
        '1'
    } else if d == 2 {
        '2'
    } else if d == 3 {
        '3'
    } else if d == 4 {
        '4'
    } else if d == 5 {
        '5'
    } else if d == 6 {
        '6'
    } else if d == 7 {
        '7'
    } else if d == 8 {
        '8'
    } else {
        '9'
    }
}

/// Appends the decimal digits of `n`.
fn push_decimal(out: &mut String, n: usize)
    ensures
        final(out)@ == old(out)@ + decimal(n as nat),
    decreases n,
{
    if n >= 10 {
        push_decimal(out, n / 10);
    }
    out.push(digit(n % 10));
    assert(final(out)@ =~= old(out)@ + decimal(n as nat));
}

/// The `Debug` form of a code block type: the variant's name and its fields.
pub open spec fn block_type_debug(t: CodeBlockTypeView) -> Seq<char> {
    match t {
        CodeBlockTypeView::Custom { name, frame_name } => "Custom { name: "@ + debug_quoted(name)
            + ", frame_name: "@ + debug_quoted(frame_name) + " }"@,
        CodeBlockTypeView::FunctionForward { name, frame_name } => "FunctionForward { name: "@
            + debug_quoted(name) + ", frame_name: "@ + debug_quoted(frame_name) + " }"@,
        CodeBlockTypeView::Control { name, frame_name } => "Control { name: "@ + debug_quoted(name)
            + ", frame_name: "@ + debug_quoted(frame_name) + " }"@,
        CodeBlockTypeView::Procedure { name, frame_name } => "Procedure { name: "@ + debug_quoted(
            name,
        ) + ", frame_name: "@ + debug_quoted(frame_name) + " }"@,
        CodeBlockTypeView::Function { name, frame_name } => "Function { name: "@ + debug_quoted(name)
            + ", frame_name: "@ + debug_quoted(frame_name) + " }"@,
        CodeBlockTypeView::Unknown { name } => "Unknown { name: "@ + debug_quoted(name) + " }"@,
    }
}

/// A section's kind and the length of its contents in bytes.
pub open spec fn summary(s: SectionView) -> Seq<char> {
    match s {
        SectionView::NotInSection { contents } => "Not in section: "@ + decimal(utf8_len(contents)),
        SectionView::VersionNumber => "Version number"@,
        SectionView::PreprocessorBlock { contents } => "preprocessor block: "@ + decimal(
            utf8_len(contents),
        ),
        SectionView::ProcedureSettings { contents } => "procedure settings: "@ + decimal(
            utf8_len(contents),
        ),
        SectionView::CreateWindow { contents, .. } => "create window: "@ + decimal(
            utf8_len(contents),
        ),
        SectionView::CodeBlock { block_type, contents } => block_type_debug(block_type) + ": "@
            + decimal(utf8_len(contents)),
        SectionView::Other { block_type, contents } => block_type + ": "@ + decimal(
            utf8_len(contents),
        ),
    }
}

fn block_type_text(t: &CodeBlockType) -> (r: String)
    ensures
        r@ == block_type_debug(t@),
{
    let (label, name, frame_name) = match t {
        CodeBlockType::Custom { name, frame_name } => ("Custom { name: ", name, Some(frame_name)),
        CodeBlockType::FunctionForward { name, frame_name } => (
            "FunctionForward { name: ",
            name,
            Some(frame_name),
        ),
        CodeBlockType::Control { name, frame_name } => ("Control { name: ", name, Some(frame_name)),
        CodeBlockType::Procedure { name, frame_name } => (
            "Procedure { name: ",
            name,
            Some(frame_name),
        ),
        CodeBlockType::Function { name, frame_name } => ("Function { name: ", name, Some(frame_name)),
        CodeBlockType::Unknown { name } => ("Unknown { name: ", name, None),
    };
    let mut r = String::from_str(label);
    r.append(debug_str(name.as_str()).as_str());
    if let Some(frame_name) = frame_name {
        r.append(", frame_name: ");
        r.append(debug_str(frame_name.as_str()).as_str());
    }
    r.append(" }");
    r
}

impl PreprocessorAnalysisSection {
    /// A one-line summary: the section's kind, and the length of its contents in
    /// bytes.
    pub fn show(&self) -> (r: String)
        ensures
            r@ == summary(self@),
    {
        let (mut r, contents) = match self {
            PreprocessorAnalysisSection::NotInSection { contents } => (
                String::from_str("Not in section: "),
                contents,
            ),
            PreprocessorAnalysisSection::VersionNumber => {
                return String::from_str("Version number");
            },
            PreprocessorAnalysisSection::PreprocessorBlock { contents } => (
                String::from_str("preprocessor block: "),
                contents,
            ),
            PreprocessorAnalysisSection::ProcedureSettings { contents } => (
                String::from_str("procedure settings: "),
                contents,
            ),
            PreprocessorAnalysisSection::CreateWindow { contents, .. } => (
                String::from_str("create window: "),
                contents,
            ),
            PreprocessorAnalysisSection::CodeBlock { block_type, contents } => {
                let mut r = block_type_text(block_type);
                r.append(": ");
                (r, contents)
            },
            PreprocessorAnalysisSection::Other { block_type, contents } => {
                let mut r = String::from_str(block_type.as_str());
                r.append(": ");
                (r, contents)
            },
        };
        push_decimal(&mut r, byte_len(contents.as_str()));
        r
    }
}

} // verus!
