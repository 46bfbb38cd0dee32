use cpp_to_rust::analyzer::analyze_file;
use cpp_to_rust::generator::{
    code_from_response, conversion_failure, generated_file, to_rust_path, Generator,
};
use cpp_to_rust::prompt::ConversionProfile;
use cpp_to_rust::types::Language;

#[test]
fn test_to_rust_path() {
    let result = to_rust_path("/project/src/main.c", "/output");
    assert_eq!(result, "/output/src/main.rs");
}

#[test]
fn test_to_rust_path_cpp() {
    let result = to_rust_path("/project/lib/utils.cpp", "/output");
    assert_eq!(result, "/output/lib/utils.rs");
}

#[test]
fn rust_path_without_parent_directory() {
    assert_eq!(to_rust_path("main.c", "out"), "out/main.rs");
}

#[test]
fn reply_code_or_whole_reply() {
    assert_eq!(code_from_response("x\n```rust\nfn f() {}\n```\n"), "fn f() {}");
    assert_eq!(code_from_response("no block"), "no block");
}

#[test]
fn generated_file_fields() {
    let file = analyze_file("/p/src/a.c", "int x = 1;\n");
    let g = generated_file(&file, "/o", "```rust\nlet x = 1;\n```");
    assert_eq!(g.original_path, "/p/src/a.c");
    assert_eq!(g.rust_path, "/o/src/a.rs");
    assert_eq!(g.rust_code, "let x = 1;");
    assert_eq!(conversion_failure("a.c", "boom"), "Failed to convert a.c: boom");
}

#[test]
fn requests_use_the_profile() {
    let generator = Generator::new(ConversionProfile::default());
    let file = analyze_file("a.cpp", "int f(int* p) {\n    free(p);\n    return 0;\n}\n");
    let (system, user) = generator.file_request(&file);
    assert!(system.contains("C++ to Rust"));
    assert!(user.starts_with("Convert the following C++ file to Rust:\n\n"));
    let (system, user) = generator.function_request(&file.functions[0], &Language::C);
    assert!(system.contains("expert C to Rust"));
    assert!(user.starts_with("Context:\nOwnership hints for parameters:\n- p: owned (move) ('p' is freed in the function → takes ownership)\n"));
}
