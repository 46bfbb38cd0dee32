use cpp_to_rust::comparator::{generate_diff, OutputComparator};

#[test]
fn test_compare_matching_outputs() {
    let result = OutputComparator::compare_outputs("Hello, World!\n", "Hello, World!\n");
    assert!(result.matches);
    assert!(result.diff.is_none());
}

#[test]
fn test_compare_different_outputs() {
    let result = OutputComparator::compare_outputs("Hello\nWorld\n", "Hello\nRust\n");
    assert!(!result.matches);
    assert!(result.diff.is_some());
    let diff = result.diff.unwrap();
    assert!(diff.contains("Line 2"));
}

#[test]
fn test_generate_diff() {
    let diff = generate_diff("line1\nline2\n", "line1\nchanged\n");
    assert!(diff.contains("Line 2"));
    assert!(diff.contains("line2"));
    assert!(diff.contains("changed"));
}

#[test]
fn diff_exact_text_with_missing_lines() {
    assert_eq!(
        generate_diff("a\nb\n", "a\n"),
        "Line 2: \n  C/C++: b\n  Rust:  <missing>\n\nLine count: C/C++=2, Rust=1\n"
    );
    assert_eq!(generate_diff("same", "same\n"), "");
}

#[test]
fn compile_command_uses_the_compiler() {
    let c = OutputComparator::new(None);
    assert_eq!(c.compile_command("a.c", "bin"), vec!["gcc", "a.c", "-o", "bin", "-lm"]);
    let c = OutputComparator::new(Some("clang".to_string()));
    assert_eq!(c.compile_command("a.c", "bin")[0], "clang");
}
