use cpp_to_rust::memory::{analyze_memory_patterns, summarize_memory_patterns};
use cpp_to_rust::types::MemoryPatternKind;

#[test]
fn test_detect_malloc_free() {
    let source = r#"
void process() {
    int* data = (int*)malloc(100 * sizeof(int));
    if (!data) return;
    free(data);
}
"#;
    let patterns = analyze_memory_patterns(source);
    assert_eq!(patterns.len(), 2);
    assert_eq!(patterns[0].kind, MemoryPatternKind::Malloc);
    assert_eq!(patterns[1].kind, MemoryPatternKind::Free);
}

#[test]
fn test_detect_new_delete() {
    let source = r#"
void process() {
    int* arr = new int[100];
    MyClass* obj = new MyClass();
    delete obj;
    delete[] arr;
}
"#;
    let patterns = analyze_memory_patterns(source);
    let kinds: Vec<_> = patterns.iter().map(|p| &p.kind).collect();
    assert!(kinds.contains(&&MemoryPatternKind::NewArray));
    assert!(kinds.contains(&&MemoryPatternKind::New));
    assert!(kinds.contains(&&MemoryPatternKind::Delete));
    assert!(kinds.contains(&&MemoryPatternKind::DeleteArray));
}

#[test]
fn memory_test_detect_smart_pointers() {
    let source = r#"
auto ptr = std::unique_ptr<MyClass>(new MyClass());
auto shared = std::shared_ptr<int>(new int(42));
"#;
    let patterns = analyze_memory_patterns(source);
    let kinds: Vec<_> = patterns.iter().map(|p| &p.kind).collect();
    assert!(kinds.contains(&&MemoryPatternKind::UniquePtr));
    assert!(kinds.contains(&&MemoryPatternKind::SharedPtr));
}

#[test]
fn test_summary_balanced() {
    let source = "int* p = (int*)malloc(10);\nfree(p);\n";
    let patterns = analyze_memory_patterns(source);
    let summary = summarize_memory_patterns(&patterns);
    assert!(summary.contains("1 malloc/calloc, 1 free"));
    assert!(!summary.contains("WARNING"));
}

#[test]
fn test_summary_leak_warning() {
    let source = "int* p = (int*)malloc(10);\nint* q = (int*)malloc(20);\nfree(p);\n";
    let patterns = analyze_memory_patterns(source);
    let summary = summarize_memory_patterns(&patterns);
    assert!(summary.contains("WARNING"));
}

#[test]
fn sites_are_sorted_by_line_with_trimmed_context() {
    let source = "free(a);\n  int* b = malloc(1);  \n";
    let patterns = analyze_memory_patterns(source);
    assert_eq!(patterns.len(), 2);
    assert_eq!(patterns[0].kind, MemoryPatternKind::Free);
    assert_eq!(patterns[0].line, 1);
    assert_eq!(patterns[1].kind, MemoryPatternKind::Malloc);
    assert_eq!(patterns[1].line, 2);
    assert_eq!(patterns[1].location, "int* b = malloc(1);");
}

#[test]
fn summary_exact_text() {
    assert_eq!(summarize_memory_patterns(&[]), "No manual memory management detected.");
    let patterns = analyze_memory_patterns("a = new T; b = new T; delete a;\nstd::weak_ptr<T> w;\n");
    assert_eq!(
        summarize_memory_patterns(&patterns),
        "C++-style: 2 new, 1 delete\n  WARNING: new/delete count mismatch (potential leak)\nSmart pointers: 1 usages"
    );
}
