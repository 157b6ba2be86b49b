use progress_parser::{
    ignore, progress, statement, wrap, AnalysisSuspendHeader, FilePosition, FilePositionM,
    PreprocessorASTNode, Progress, Statement,
};

fn code(t: &str) -> PreprocessorASTNode {
    PreprocessorASTNode::Code(t.to_string())
}

#[test]
fn statements_are_the_code_nodes() {
    let nodes = vec![
        PreprocessorASTNode::Comment("/* c */".to_string()),
        code("a."),
        PreprocessorASTNode::AnalysisSuspend(AnalysisSuspendHeader::VersionNumber),
        PreprocessorASTNode::Import("x".to_string()),
        code("b."),
    ];
    assert_eq!(
        progress(&nodes),
        Some(Progress {
            statements: vec![
                Statement::Generic("a.".to_string()),
                Statement::Generic("b.".to_string()),
            ],
        })
    );
}

#[test]
fn progress_needs_code_last() {
    assert_eq!(progress(&vec![]), None);
    let nodes = vec![code("a."), PreprocessorASTNode::AnalysisResume];
    assert_eq!(progress(&nodes), None);
}

#[test]
fn single_statement_skips_other_nodes() {
    let nodes = vec![PreprocessorASTNode::Replace("1".to_string()), code("x"), code("y")];
    assert_eq!(statement(&nodes, 0), Some((Statement::Generic("x".to_string()), 2)));
    assert_eq!(statement(&nodes, 2), Some((Statement::Generic("y".to_string()), 3)));
    assert_eq!(statement(&nodes, 3), None);
    assert!(ignore(&nodes[0]));
    assert!(!ignore(&nodes[1]));
}

#[test]
fn positions_start_at_zero() {
    let p = FilePosition::new();
    assert_eq!((p.row, p.column), (0, 0));
    let w: FilePositionM<u8> = wrap(5);
    assert_eq!(w.file_position, FilePosition { row: 0, column: 0 });
    assert_eq!(w.from(), 5);
    assert_eq!(FilePositionM::new("v").inner_type, "v");
}
