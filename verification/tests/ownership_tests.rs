use cpp_to_rust::analyzer::analyze_file;
use cpp_to_rust::ownership::{
    generate_ownership_context, infer_ownership, infer_param_ownership, OwnershipSuggestion,
};
use cpp_to_rust::types::CppParam;

fn make_param(name: &str, is_const: bool, is_pointer: bool, is_reference: bool) -> CppParam {
    CppParam {
        name: name.to_string(),
        type_text: "int".to_string(),
        default_value: None,
        is_const,
        is_reference,
        is_pointer,
    }
}

#[test]
fn test_const_pointer_borrowed() {
    let param = make_param("data", true, true, false);
    let hint = infer_param_ownership(&param, "");
    assert!(matches!(hint.suggestion, OwnershipSuggestion::Borrowed));
}

#[test]
fn test_freed_pointer_owned() {
    let param = make_param("buf", false, true, false);
    let hint = infer_param_ownership(&param, "free(buf);");
    assert!(matches!(hint.suggestion, OwnershipSuggestion::Owned));
}

#[test]
fn test_mutable_pointer() {
    let param = make_param("out", false, true, false);
    let hint = infer_param_ownership(&param, "out[0] = 42;");
    assert!(matches!(hint.suggestion, OwnershipSuggestion::BorrowedMut));
}

#[test]
fn test_value_param_owned() {
    let param = make_param("x", false, false, false);
    let hint = infer_param_ownership(&param, "return x + 1;");
    assert!(matches!(hint.suggestion, OwnershipSuggestion::Owned));
}

#[test]
fn reasons_and_display() {
    let hint = infer_param_ownership(&make_param("r", false, false, true), "");
    assert_eq!(hint.parameter, "r");
    assert_eq!(hint.reason, "'r' is non-const pointer/reference → mutable borrow");
    assert_eq!(hint.suggestion.to_string(), "&mut T (mutable borrow)");
    assert_eq!(OwnershipSuggestion::ArcShared.as_str(), "Arc<T> (shared ownership)");
}

#[test]
fn context_for_an_allocating_function() {
    let file = analyze_file("a.c", "char* dup(const char* s) {\n    char* d = malloc(8);\n    return d;\n}\n");
    let func = &file.functions[0];
    assert_eq!(infer_ownership(func).len(), 1);
    let ctx = generate_ownership_context(func);
    assert_eq!(
        ctx,
        "Ownership hints for parameters:\n- s: &T (immutable borrow) ('s' is const pointer/reference → immutable borrow)\n\nMemory management:\nC-style: 1 malloc/calloc, 0 free\n  WARNING: malloc/free count mismatch (potential leak)\n\nReturn: Function allocates and returns a pointer → return owned type (Box<T>, Vec<T>, or String)\n"
    );
}

#[test]
fn context_for_a_non_allocating_pointer_function() {
    let file = analyze_file("a.c", "int* first(int* xs) {\n    return xs;\n}\n");
    let ctx = generate_ownership_context(&file.functions[0]);
    assert!(ctx.ends_with("\nReturn: Returns pointer but doesn't allocate → consider returning a reference or Option<&T>\n"));
}
