use cpp_to_rust::sanitizer::{
    format_sanitizer_report, ProcessOutput, SanitizerChecker, SanitizerIssue, SanitizerResult,
    ASAN_FLAG,
};

#[test]
fn test_format_sanitizer_report_passed() {
    let result = SanitizerResult { passed: true, issues: Vec::new() };
    let report = format_sanitizer_report(&result);
    assert!(report.contains("passed"));
}

#[test]
fn test_format_sanitizer_report_issues() {
    let result = SanitizerResult {
        passed: false,
        issues: vec![SanitizerIssue {
            sanitizer: "AddressSanitizer".to_string(),
            message: "heap-buffer-overflow on address 0x1234".to_string(),
        }],
    };
    let report = format_sanitizer_report(&result);
    assert!(report.contains("AddressSanitizer"));
    assert!(report.contains("heap-buffer-overflow"));
}

fn out(success: bool, stderr: &str) -> ProcessOutput {
    ProcessOutput { success, stderr: stderr.to_string() }
}

#[test]
fn issues_are_the_reporting_lines_of_a_failed_run() {
    let checker = SanitizerChecker::new(None);
    let r = checker
        .check_with_asan(&out(true, ""), &out(false, "==1==ERROR: AddressSanitizer: heap-use-after-free\nnoise\n#0 in main\n"))
        .unwrap();
    assert!(!r.passed);
    assert_eq!(r.issues.len(), 1);
    assert_eq!(r.issues[0].sanitizer, "AddressSanitizer");
    assert_eq!(r.issues[0].message, "==1==ERROR: AddressSanitizer: heap-use-after-free");
    let clean = checker.check_with_ubsan(&out(true, ""), &out(true, "null pointer noted")).unwrap();
    assert!(clean.passed);
}

#[test]
fn failed_build_and_combined_outcome() {
    let checker = SanitizerChecker::new(Some("clang".to_string()));
    let e = checker.check_with_asan(&out(false, "no such file"), &out(true, "")).unwrap_err();
    assert_eq!(e, "Failed to compile with AddressSanitizer: no such file");
    let ub = checker.check_with_ubsan(&out(true, ""), &out(false, "x.c:3: runtime error: overflow")).unwrap();
    let all = checker.check_all(Err(e), Ok(ub));
    assert!(!all.passed);
    assert_eq!(all.issues.len(), 2);
    assert_eq!(all.issues[0].message, "Failed to run: Failed to compile with AddressSanitizer: no such file");
    assert_eq!(all.issues[1].sanitizer, "UndefinedBehaviorSanitizer");
    assert_eq!(
        format_sanitizer_report(&all),
        "Sanitizer issues found:\n\n[AddressSanitizer] Failed to run: Failed to compile with AddressSanitizer: no such file\n[UndefinedBehaviorSanitizer] x.c:3: runtime error: overflow\n"
    );
    assert_eq!(
        checker.compile_command("a.c", ASAN_FLAG, "bin"),
        vec!["clang", "a.c", "-fsanitize=address", "-g", "-o", "bin", "-lm"]
    );
}
