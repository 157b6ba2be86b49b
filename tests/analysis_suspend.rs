use progress_parser::{
    analyze_resume, analyze_suspend, analyze_suspend_code_block, block_type, custom_code_block,
    AnalysisSuspendHeader, CodeBlockType,
};

fn chars(s: &str) -> Vec<char> {
    s.chars().collect()
}

#[test]
fn test_custom_code_block() {
    let code = chars("_CUSTOM _DEFINITIONS fFrameWin");
    let result = custom_code_block(&code, 0);
    if result.is_none() {
        println!("Error: {:?}", result);
        assert!(false);
    }
    let (parse, _) = result.unwrap();

    let expected = CodeBlockType::Custom {
        name: "_DEFINITIONS".to_string(),
        frame_name: "fFrameWin".to_string(),
    };
    assert_eq!(expected, parse);
}

#[test]
fn analyze_suspend_custom_code_block() {
    let code = chars("&ANALYZE-SUSPEND _UIB-CODE-BLOCK _CUSTOM _DEFINITIONS fFrameWin\r\n");
    let result = analyze_suspend_code_block(&code, 0);
    if result.is_none() {
        println!("Error: {:?}", result);
        assert!(false);
    }
    let (parse, _) = result.unwrap();

    let expected = AnalysisSuspendHeader::CodeBlock {
        block_type: CodeBlockType::Custom {
            name: "_DEFINITIONS".to_string(),
            frame_name: "fFrameWin".to_string(),
        },
    };
    assert_eq!(expected, parse);
}

#[test]
fn block_type_procedure_with_frame() {
    let code = chars("_PROCEDURE myProc frmMain\r\n");
    let (t, end) = block_type(&code, 0).unwrap();
    assert_eq!(
        t,
        CodeBlockType::Procedure { name: "myProc".to_string(), frame_name: "frmMain".to_string() }
    );
    assert_eq!(end, 25);
}

#[test]
fn header_procedure_classified_as_code_block() {
    let code = chars("&ANALYZE-SUSPEND _UIB-CODE-BLOCK _PROCEDURE myProc frmMain\r\n");
    let (h, end) = analyze_suspend(&code, 0).unwrap();
    assert_eq!(
        h,
        AnalysisSuspendHeader::CodeBlock {
            block_type: CodeBlockType::Procedure {
                name: "myProc".to_string(),
                frame_name: "frmMain".to_string(),
            },
        }
    );
    assert_eq!(end, code.len());
}

#[test]
fn function_forward_is_not_function() {
    let code = chars("_FUNCTION-FORWARD f1 fr1\r\n");
    let (t, _) = block_type(&code, 0).unwrap();
    assert_eq!(
        t,
        CodeBlockType::FunctionForward { name: "f1".to_string(), frame_name: "fr1".to_string() }
    );
}

#[test]
fn plain_function_and_control() {
    let code = chars("_FUNCTION getName fMain");
    let (t, _) = block_type(&code, 0).unwrap();
    assert_eq!(
        t,
        CodeBlockType::Function { name: "getName".to_string(), frame_name: "fMain".to_string() }
    );
    let code = chars("_CONTROL btnOk fMain");
    let (t, _) = block_type(&code, 0).unwrap();
    assert_eq!(
        t,
        CodeBlockType::Control { name: "btnOk".to_string(), frame_name: "fMain".to_string() }
    );
}

#[test]
fn unknown_block_type_falls_back() {
    let code = chars("_MAIN-BLOCK\r\n");
    let (t, end) = block_type(&code, 0).unwrap();
    assert_eq!(t, CodeBlockType::Unknown { name: "_MAIN-BLOCK".to_string() });
    assert_eq!(end, 11);
}

#[test]
fn fixed_headers_any_case() {
    let cases = [
        ("&ANALYZE-SUSPEND _VERSION-NUMBER AB_v10r12\r\n", AnalysisSuspendHeader::VersionNumber),
        ("&analyze-suspend _UIB-PREPROCESSOR-BLOCK\n", AnalysisSuspendHeader::PreprocessorBlock),
        ("&Analyze-Suspend _PROCEDURE-SETTINGS\r\n", AnalysisSuspendHeader::ProcedureSettings),
        ("&ANALYZE-SUSPEND _CREATE-WINDOW\r\n", AnalysisSuspendHeader::CreateWindow),
    ];
    for (text, expected) in cases.iter() {
        let code = chars(text);
        let (h, end) = analyze_suspend(&code, 0).unwrap();
        assert_eq!(&h, expected);
        assert_eq!(end, code.len());
    }
}

#[test]
fn unknown_header_becomes_other() {
    let code = chars("&ANALYZE-SUSPEND _SOME-FUTURE-THING\r\nrest");
    let (h, end) = analyze_suspend(&code, 0).unwrap();
    assert_eq!(h, AnalysisSuspendHeader::Other { block_type: "_SOME-FUTURE-THING".to_string() });
    assert_eq!(end, 37);
}

#[test]
fn suspend_needs_line_end() {
    let code = chars("&ANALYZE-SUSPEND _VERSION-NUMBER");
    assert!(analyze_suspend(&code, 0).is_none());
}

#[test]
fn resume_line() {
    let code = chars("&ANALYZE-RESUME _END-PROCEDURE-SETTINGS\r\nx");
    assert_eq!(analyze_resume(&code, 0), Some(41));
    let code = chars("&ANALYZE-RESUM\r\n");
    assert_eq!(analyze_resume(&code, 0), None);
}
