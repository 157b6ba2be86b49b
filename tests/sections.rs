use progress_parser::{
    analysis_sections, create_window, find_inner_procedures, number, preprocessed_progress,
    str_contains, AnalysisSuspendHeader, CodeBlockType, Decimal, Error, NestingViolation,
    PreprocessorASTNode, PreprocessorAnalysisSection,
};

fn sections(input: &str) -> Result<Vec<PreprocessorAnalysisSection>, Error> {
    PreprocessorAnalysisSection::from(preprocessed_progress(input)?)
}

fn dec(whole: &str, fraction: &str) -> Decimal {
    Decimal { whole: whole.to_string(), fraction: fraction.to_string() }
}

// The value the attribute list carries, folded as the format's readers do.
fn value_of(d: &Decimal) -> f32 {
    let whole: f32 = d.whole.parse().unwrap();
    let mut acc = 0.0f32;
    for c in d.fraction.chars().rev() {
        acc /= 10.0;
        acc += c.to_digit(10).unwrap() as f32;
    }
    if d.fraction.is_empty() { whole } else { whole + acc / 10.0 }
}

#[test]
fn end_to_end_sections() {
    let input = "&ANALYZE-SUSPEND _UIB-CODE-BLOCK _PROCEDURE doWork fMain\r\nsome code\r\n&ANALYZE-RESUME\r\n";
    assert_eq!(
        sections(input).unwrap(),
        vec![PreprocessorAnalysisSection::CodeBlock {
            block_type: CodeBlockType::Procedure {
                name: "doWork".to_string(),
                frame_name: "fMain".to_string(),
            },
            contents: "some code\r\n".to_string(),
        }]
    );
}

#[test]
fn unknown_header_section() {
    let input = "&ANALYZE-SUSPEND _SOME-FUTURE-THING\r\n...&ANALYZE-RESUME\r\n";
    assert_eq!(
        sections(input).unwrap(),
        vec![PreprocessorAnalysisSection::Other {
            block_type: "_SOME-FUTURE-THING".to_string(),
            contents: "...".to_string(),
        }]
    );
}

#[test]
fn two_suspends_in_a_row_fail() {
    let nodes = vec![
        PreprocessorASTNode::AnalysisSuspend(AnalysisSuspendHeader::VersionNumber),
        PreprocessorASTNode::Code("x\n".to_string()),
        PreprocessorASTNode::AnalysisSuspend(AnalysisSuspendHeader::ProcedureSettings),
    ];
    assert_eq!(
        PreprocessorAnalysisSection::from(nodes),
        Err(Error::SectionNestingViolation { violation: NestingViolation::TwoSuspends, line: 1 })
    );
}

#[test]
fn resume_without_suspend_fails() {
    let nodes = vec![
        PreprocessorASTNode::Code("a\nb\n".to_string()),
        PreprocessorASTNode::AnalysisResume,
    ];
    assert_eq!(
        PreprocessorAnalysisSection::from(nodes),
        Err(Error::SectionNestingViolation {
            violation: NestingViolation::ResumeWithoutSuspend,
            line: 0,
        })
    );
}

#[test]
fn unterminated_section_fails() {
    assert_eq!(
        sections("a\r\n&ANALYZE-SUSPEND _X\r\nabc"),
        Err(Error::SectionNestingViolation { violation: NestingViolation::Unterminated, line: 2 })
    );
}

#[test]
fn outside_text_and_line_normalisation() {
    let input = "top\n&ANALYZE-SUSPEND _UIB-PREPROCESSOR-BLOCK\n&SCOPED-DEFINE A 1\n{x.i}{3}\n&ANALYZE-RESUME\n \r\n&ANALYZE-SUSPEND _VERSION-NUMBER v1\n&ANALYZE-RESUME\ntail";
    assert_eq!(
        sections(input).unwrap(),
        vec![
            PreprocessorAnalysisSection::NotInSection { contents: "top\n".to_string() },
            PreprocessorAnalysisSection::PreprocessorBlock {
                contents: "SCOPED-DEFINE A 1\r\nx.i\n".to_string(),
            },
            PreprocessorAnalysisSection::VersionNumber,
            PreprocessorAnalysisSection::NotInSection { contents: "tail".to_string() },
        ]
    );
}

#[test]
fn create_window_section_with_attributes() {
    let input = "&ANALYZE-SUSPEND _CREATE-WINDOW\r\n/* Create window */\r\nCREATE WINDOW wWin ASSIGN\r\n         HEIGHT = 17.14\r\n         WIDTH  = 80\r\n         WIDTH  = 0.5 .\r\n&ANALYZE-RESUME\r\n";
    let s = sections(input).unwrap();
    assert_eq!(s.len(), 1);
    match &s[0] {
        PreprocessorAnalysisSection::CreateWindow { contents, attributes } => {
            assert!(contents.starts_with("/* Create window */\r\nCREATE WINDOW"));
            assert_eq!(
                attributes,
                &vec![
                    ("HEIGHT".to_string(), dec("17", "14")),
                    ("WIDTH".to_string(), dec("80", "")),
                    ("WIDTH".to_string(), dec("0", "5")),
                ]
            );
        }
        other => panic!("unexpected section {:?}", other),
    }
}

#[test]
fn create_window_without_attribute_list_fails() {
    let input = "\n&ANALYZE-SUSPEND _CREATE-WINDOW\r\nnothing here\r\n&ANALYZE-RESUME\r\n";
    assert_eq!(sections(input), Err(Error::AttributeGrammarFailure { line: 2 }));
}

#[test]
fn attribute_list_grammar() {
    assert_eq!(
        create_window("CREATE WINDOW w ASSIGN a=1 b = 2.25."),
        Some(vec![("a".to_string(), dec("1", "")), ("b".to_string(), dec("2", "25"))])
    );
    assert_eq!(
        create_window("noise line\ncreate window w assign X = 3 ."),
        Some(vec![("X".to_string(), dec("3", ""))])
    );
    assert_eq!(create_window("CREATE WINDOW w ASSIGN a = -1 ."), None);
    assert_eq!(create_window("CREATE WINDOW w ASSIGN a = 1"), None);
}

#[test]
fn numbers_of_the_attribute_grammar() {
    let s: Vec<char> = "12.5".chars().collect();
    let (d, end) = number(&s, 0).unwrap();
    assert_eq!(d, dec("12", "5"));
    assert_eq!(end, 4);
    assert_eq!(value_of(&d), 12.5);

    let s: Vec<char> = "0.125".chars().collect();
    let (d, _) = number(&s, 0).unwrap();
    assert_eq!(d, dec("0", "125"));
    assert_eq!(value_of(&d), 0.125);

    let s: Vec<char> = "7".chars().collect();
    let (d, _) = number(&s, 0).unwrap();
    assert_eq!(d, dec("7", ""));
    assert_eq!(value_of(&d), 7.0);

    let s: Vec<char> = "7.x".chars().collect();
    assert_eq!(number(&s, 0), Some((dec("7", ""), 1)));
    let s: Vec<char> = "-7".chars().collect();
    assert_eq!(number(&s, 0), None);
}

#[test]
fn sections_from_bytes() {
    let bytes = b"&ANALYZE-SUSPEND _UIB-CODE-BLOCK _PROCEDURE p\xff fMain\r\nx\r\n&ANALYZE-RESUME\r\n";
    let s = analysis_sections(bytes).unwrap();
    assert_eq!(
        s,
        vec![PreprocessorAnalysisSection::CodeBlock {
            block_type: CodeBlockType::Unknown { name: "_PROCEDURE".to_string() },
            contents: "x\r\n".to_string(),
        }]
    );
    let ok = b"&ANALYZE-SUSPEND _UIB-CODE-BLOCK _PROCEDURE p fMain\r\nx\r\n&ANALYZE-RESUME\r\n";
    assert_eq!(analysis_sections(ok).unwrap().len(), 1);
    assert_eq!(analysis_sections(b""), Err(Error::LexicalFailure { offset: 0, line: 1 }));
}

#[test]
fn inner_procedures_by_name() {
    let input = "&ANALYZE-SUSPEND _UIB-CODE-BLOCK _PROCEDURE initObject fMain\r\n.\r\n&ANALYZE-RESUME\r\n&ANALYZE-SUSPEND _UIB-CODE-BLOCK _FUNCTION initName fMain\r\n.\r\n&ANALYZE-RESUME\r\n&ANALYZE-SUSPEND _UIB-CODE-BLOCK _PROCEDURE exitObject fMain\r\n.\r\n&ANALYZE-RESUME\r\n";
    let s = sections(input).unwrap();
    assert_eq!(find_inner_procedures(&s, "Object"), vec!["initObject", "exitObject"]);
    assert_eq!(find_inner_procedures(&s, "init"), vec!["initObject"]);
    assert!(find_inner_procedures(&s, "zzz").is_empty());
}

#[test]
fn substring_search() {
    assert!(str_contains("abcabd", "abd"));
    assert!(str_contains("abc", ""));
    assert!(!str_contains("ab", "abc"));
    assert!(!str_contains("abcabc", "cb"));
}

#[test]
fn section_summaries() {
    let block_type = CodeBlockType::Procedure {
        name: "do\"Work".to_string(),
        frame_name: "fMain".to_string(),
    };
    let s = PreprocessorAnalysisSection::CodeBlock {
        block_type: block_type.clone(),
        contents: "caf\u{e9}\r\n".to_string(),
    };
    assert_eq!(s.show(), format!("{:?}: {}", block_type, 7));
    assert_eq!(
        s.show(),
        "Procedure { name: \"do\\\"Work\", frame_name: \"fMain\" }: 7"
    );
    let unknown = PreprocessorAnalysisSection::CodeBlock {
        block_type: CodeBlockType::Unknown { name: "_MAIN-BLOCK".to_string() },
        contents: String::new(),
    };
    assert_eq!(unknown.show(), "Unknown { name: \"_MAIN-BLOCK\" }: 0");
    assert_eq!(
        PreprocessorAnalysisSection::NotInSection { contents: "x".repeat(1234) }.show(),
        "Not in section: 1234"
    );
    assert_eq!(PreprocessorAnalysisSection::VersionNumber.show(), "Version number");
    assert_eq!(
        PreprocessorAnalysisSection::PreprocessorBlock { contents: "ab".to_string() }.show(),
        "preprocessor block: 2"
    );
    assert_eq!(
        PreprocessorAnalysisSection::ProcedureSettings { contents: String::new() }.show(),
        "procedure settings: 0"
    );
    assert_eq!(
        PreprocessorAnalysisSection::CreateWindow { contents: "abc".to_string(), attributes: vec![] }
            .show(),
        "create window: 3"
    );
    assert_eq!(
        PreprocessorAnalysisSection::Other {
            block_type: "_X".to_string(),
            contents: "0123456789".to_string(),
        }
        .show(),
        "_X: 10"
    );
}

#[test]
fn earlier_window_failure_precedes_nesting_error() {
    let nodes = vec![
        PreprocessorASTNode::AnalysisSuspend(AnalysisSuspendHeader::CreateWindow),
        PreprocessorASTNode::Code("junk".to_string()),
        PreprocessorASTNode::AnalysisResume,
        PreprocessorASTNode::AnalysisSuspend(AnalysisSuspendHeader::VersionNumber),
        PreprocessorASTNode::AnalysisSuspend(AnalysisSuspendHeader::VersionNumber),
    ];
    assert_eq!(
        PreprocessorAnalysisSection::from(nodes),
        Err(Error::AttributeGrammarFailure { line: 1 })
    );
}

#[test]
fn unicode_blank_text_is_not_a_section() {
    let input = "\u{a0}\u{3000}\t\n&ANALYZE-SUSPEND _PROCEDURE-SETTINGS\r\nx\r\n&ANALYZE-RESUME\r\n";
    assert_eq!(
        sections(input).unwrap(),
        vec![PreprocessorAnalysisSection::ProcedureSettings { contents: "x\r\n".to_string() }]
    );
}
