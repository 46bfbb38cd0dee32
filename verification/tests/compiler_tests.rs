use cpp_to_rust::compiler::{
    compile_outcome, parse_compiler_errors, CompileChecker, CompileError, CompileResult,
};

#[test]
fn test_parse_compiler_errors() {
    let stderr = r#"error[E0308]: mismatched types
 --> src/main.rs:5:12
  |
5 |     let x: i32 = "hello";
  |            ---   ^^^^^^^ expected `i32`, found `&str`
  |            |
  |            expected due to this
  help: try this instead

error[E0425]: cannot find value `y` in this scope
 --> src/main.rs:10:5
  |
10 |     y
   |     ^ not found in this scope
"#;

    let errors = parse_compiler_errors(stderr);
    assert_eq!(errors.len(), 2);
    assert_eq!(errors[0].line, 5);
    assert!(errors[0].message.contains("mismatched types"));
    assert!(errors[0].suggestion.is_some());
    assert_eq!(errors[1].line, 10);
}

#[test]
fn test_parse_no_errors() {
    let stderr = "   Compiling my-project v0.1.0\n    Finished dev [unoptimized + debuginfo]\n";
    let errors = parse_compiler_errors(stderr);
    assert!(errors.is_empty());
}

#[test]
fn error_text_and_format() {
    let e = CompileError {
        file: "a.rs".to_string(),
        line: 3,
        column: 7,
        message: "bad".to_string(),
        suggestion: Some("fix".to_string()),
    };
    assert_eq!(e.to_string(), "a.rs:3:7: bad\n  suggestion: fix");
    let f = CompileError { suggestion: None, ..e.clone() };
    assert_eq!(CompileChecker::format_errors(&[e, f]), "a.rs:3:7: bad\n  suggestion: fix\n\na.rs:3:7: bad");
}

#[test]
fn outcome_of_a_check() {
    assert!(matches!(compile_outcome(true, "whatever"), CompileResult::Success));
    match compile_outcome(false, "linker failed") {
        CompileResult::Errors(es) => {
            assert_eq!(es.len(), 1);
            assert_eq!(es[0].message, "linker failed");
            assert_eq!(es[0].line, 0);
            assert_eq!(es[0].file, "");
        }
        CompileResult::Success => panic!("expected errors"),
    }
    let checker = CompileChecker::new("/tmp/p");
    assert_eq!(checker.project_dir(), "/tmp/p");
}

#[test]
fn unparsable_numbers_read_as_zero() {
    let errors = parse_compiler_errors("error: boom\n --> f.rs:99999999999999999999999:2\n");
    assert_eq!(errors.len(), 1);
    assert_eq!(errors[0].line, 0);
    assert_eq!(errors[0].column, 2);
    assert_eq!(errors[0].file, "f.rs");
    assert!(errors[0].suggestion.is_none());
}
