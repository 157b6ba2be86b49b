use progress_parser::{
    node, preprocessed_progress, AnalysisSuspendHeader, CodeBlockType, Error,
    PreprocessorASTNode,
};

fn text_of(n: &PreprocessorASTNode) -> String {
    match n {
        PreprocessorASTNode::Code(t) | PreprocessorASTNode::Comment(t) => t.clone(),
        PreprocessorASTNode::PreprocessorLine(t)
        | PreprocessorASTNode::Import(t)
        | PreprocessorASTNode::Replace(t) => t.clone(),
        _ => String::new(),
    }
}

#[test]
fn test_create_window() {}

#[test]
fn nested_comment_is_one_node() {
    let input = "/* outer /* inner */ tail */";
    let nodes = preprocessed_progress(input).unwrap();
    assert_eq!(nodes, vec![PreprocessorASTNode::Comment(input.to_string())]);
}

#[test]
fn comments_and_code_round_trip() {
    let input = "/* a /* b */ c */ DISPLAY x. /* not a node of its own */\n/**/";
    let nodes = preprocessed_progress(input).unwrap();
    assert_eq!(nodes.len(), 2);
    assert!(matches!(nodes[0], PreprocessorASTNode::Comment(_)));
    assert!(matches!(nodes[1], PreprocessorASTNode::Code(_)));
    let joined: String = nodes.iter().map(text_of).collect();
    assert_eq!(joined, input);
}

#[test]
fn unclosed_comment_reads_as_code() {
    let input = "/* never closed /* */";
    let nodes = preprocessed_progress(input).unwrap();
    assert_eq!(nodes, vec![PreprocessorASTNode::Code(input.to_string())]);
}

#[test]
fn directives_imports_and_replacements() {
    let input = "&GLOBAL-DEFINE X 1\r\n{inc/x.i}{12}code\n&SCOPED Y\n";
    let nodes = preprocessed_progress(input).unwrap();
    assert_eq!(
        nodes,
        vec![
            PreprocessorASTNode::PreprocessorLine("GLOBAL-DEFINE X 1".to_string()),
            PreprocessorASTNode::Import("inc/x.i".to_string()),
            PreprocessorASTNode::Replace("12".to_string()),
            PreprocessorASTNode::Code("code\n".to_string()),
            PreprocessorASTNode::PreprocessorLine("SCOPED Y".to_string()),
        ]
    );
    // Every character is accounted for: braces, `&` and line ends are the only ones
    // that no node text holds.
    let joined: String = nodes.iter().map(text_of).collect();
    assert_eq!(joined, "GLOBAL-DEFINE X 1inc/x.i12code\nSCOPED Y");
}

#[test]
fn end_to_end_nodes() {
    let input = "&ANALYZE-SUSPEND _UIB-CODE-BLOCK _PROCEDURE doWork fMain\r\nsome code\r\n&ANALYZE-RESUME\r\n";
    let nodes = preprocessed_progress(input).unwrap();
    assert_eq!(
        nodes,
        vec![
            PreprocessorASTNode::AnalysisSuspend(AnalysisSuspendHeader::CodeBlock {
                block_type: CodeBlockType::Procedure {
                    name: "doWork".to_string(),
                    frame_name: "fMain".to_string(),
                },
            }),
            PreprocessorASTNode::Code("some code\r\n".to_string()),
            PreprocessorASTNode::AnalysisResume,
        ]
    );
}

#[test]
fn unknown_header_nodes() {
    let input = "&ANALYZE-SUSPEND _SOME-FUTURE-THING\r\n...&ANALYZE-RESUME\r\n";
    let nodes = preprocessed_progress(input).unwrap();
    assert_eq!(
        nodes,
        vec![
            PreprocessorASTNode::AnalysisSuspend(AnalysisSuspendHeader::Other {
                block_type: "_SOME-FUTURE-THING".to_string(),
            }),
            PreprocessorASTNode::Code("...".to_string()),
            PreprocessorASTNode::AnalysisResume,
        ]
    );
}

#[test]
fn empty_input_fails() {
    assert_eq!(preprocessed_progress(""), Err(Error::LexicalFailure { offset: 0, line: 1 }));
}

#[test]
fn empty_braces_fail_with_position() {
    assert_eq!(preprocessed_progress("{}"), Err(Error::LexicalFailure { offset: 0, line: 1 }));
    assert_eq!(
        preprocessed_progress("abc\r\ndef\n{}"),
        Err(Error::LexicalFailure { offset: 9, line: 3 })
    );
}

#[test]
fn directive_without_line_end_fails() {
    assert_eq!(
        preprocessed_progress("x\n&DEFINE"),
        Err(Error::LexicalFailure { offset: 2, line: 2 })
    );
}

#[test]
fn node_at_position() {
    let s: Vec<char> = "ab{7}".chars().collect();
    assert_eq!(node(&s, 0), Some((PreprocessorASTNode::Code("ab".to_string()), 2)));
    assert_eq!(node(&s, 2), Some((PreprocessorASTNode::Replace("7".to_string()), 5)));
    assert_eq!(node(&s, 5), None);
}

#[test]
fn get_contents_of_nodes() {
    assert_eq!(PreprocessorASTNode::Code("x".to_string()).get_contents(), Some("x"));
    assert_eq!(PreprocessorASTNode::Comment("/**/".to_string()).get_contents(), Some("/**/"));
    assert_eq!(PreprocessorASTNode::Import("i".to_string()).get_contents(), None);
    assert_eq!(PreprocessorASTNode::AnalysisResume.get_contents(), None);
}
