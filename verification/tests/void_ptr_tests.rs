use cpp_to_rust::void_ptr::{
    classify_allocator_fn, count_patterns, detect_void_ptr_patterns, generate_void_ptr_hints,
    VoidPtrKind,
};

#[test]
fn test_detect_user_data() {
    let src = "size_t csv_parse(struct csv_parser *p, const void *s, size_t len,\n    void (*cb1)(void *, size_t, void *), void (*cb2)(int, void *), void *data);";
    let patterns = detect_void_ptr_patterns(src);
    let user_data_count = patterns.iter().filter(|p| p.kind == VoidPtrKind::UserData).count();
    assert!(user_data_count >= 1, "should detect void *data as UserData");
}

#[test]
fn test_detect_input_buffer() {
    let src = "size_t csv_parse(struct csv_parser *p, const void *s, size_t len, void (*cb1)(void *, size_t, void *), void (*cb2)(int, void *), void *data);";
    let patterns = detect_void_ptr_patterns(src);
    let buf_count = patterns.iter().filter(|p| p.kind == VoidPtrKind::InputBuffer).count();
    assert!(buf_count >= 1, "const void *s should be InputBuffer");
}

#[test]
fn test_detect_callback_fn_ptr() {
    let src = "void (*cb1)(void *, size_t, void *);";
    let patterns = detect_void_ptr_patterns(src);
    assert!(
        patterns.iter().any(|p| p.kind == VoidPtrKind::CallbackFnPtr),
        "should detect callback fn ptr"
    );
}

#[test]
fn test_detect_deallocator() {
    let src = "void (*free_func)(void *);";
    let patterns = detect_void_ptr_patterns(src);
    assert!(
        patterns.iter().any(|p| p.kind == VoidPtrKind::DeallocatorFnPtr),
        "should detect free_func as DeallocatorFnPtr"
    );
}

#[test]
fn test_detect_allocator() {
    let src = "void *(*realloc_func)(void *, size_t);";
    let patterns = detect_void_ptr_patterns(src);
    assert!(
        patterns.iter().any(|p| p.kind == VoidPtrKind::AllocatorFnPtr),
        "should detect realloc_func as AllocatorFnPtr"
    );
}

#[test]
fn test_generate_hints_nonempty() {
    let src = "void csv_parse(const void *s, void *data, void (*cb)(void *, size_t, void *));";
    let patterns = detect_void_ptr_patterns(src);
    let hints = generate_void_ptr_hints(&patterns);
    assert!(!hints.is_empty());
    assert!(hints.contains("Void Pointer"));
}

#[test]
fn test_libcsv_full_header() {
    let header = r#"
struct csv_parser {
    void *(*malloc_func)(size_t);
    void *(*realloc_func)(void *, size_t);
    void (*free_func)(void *);
    void *blk_cur;
    void *entry_buf;
};
int csv_parse(struct csv_parser *p, const void *s, size_t len,
              void (*cb1)(void *, size_t, void *),
              void (*cb2)(int, void *),
              void *data);
int csv_fini(struct csv_parser *p,
             void (*cb1)(void *, size_t, void *),
             void (*cb2)(int, void *),
             void *data);
void *csv_get_delim(struct csv_parser *p);
void csv_set_realloc_func(struct csv_parser *p, void *(*func)(void *, size_t));
void csv_set_free_func(struct csv_parser *p, void (*func)(void *));
"#;
    let patterns = detect_void_ptr_patterns(header);
    let (user_data, callbacks, allocs, buffers) = count_patterns(&patterns);
    assert!(callbacks >= 2, "should find csv callback fn ptrs");
    assert!(allocs >= 1, "should find realloc/free fn ptrs");
    assert!(user_data >= 1, "should find void *data params");
    let auto_convertible = user_data + callbacks + allocs + buffers;
    println!(
        "libcsv fixture: {}/{} void* patterns auto-classified",
        auto_convertible,
        patterns.len()
    );
    assert!(auto_convertible >= 8, "need at least 8 of 11 patterns classified; got {}", auto_convertible);
}

#[test]
fn function_pointer_params_are_not_counted_twice() {
    let patterns = detect_void_ptr_patterns("void (*cb)(void *, size_t, void *);");
    assert_eq!(patterns.len(), 1);
    assert_eq!(patterns[0].line, 1);
    assert_eq!(patterns[0].context, "void (*cb)(void *, size_t, void *);");
}

#[test]
fn allocator_classification_text() {
    let (k, s) = classify_allocator_fn("malloc_func", "size_t");
    assert_eq!(k, VoidPtrKind::AllocatorFnPtr);
    assert_eq!(s, "// TODO: replace with Box<T> or Vec<T>");
}
