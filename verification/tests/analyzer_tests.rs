use cpp_to_rust::analyzer::{
    analyze_file, assemble_project, detect_language, detect_standard, extract_brace_block,
    extract_class_fields, extract_class_methods, extract_classes, extract_functions,
    extract_globals, extract_struct_fields, extract_structs, generate_report, is_source_file,
    parse_bases, parse_params, parse_template_params, parse_visibility,
};
use cpp_to_rust::types::{CppStandard, Language, Visibility};

#[test]
fn test_detect_language() {
    assert_eq!(detect_language("main.c"), Language::C);
    assert_eq!(detect_language("main.cpp"), Language::Cpp);
    assert_eq!(detect_language("util.h"), Language::C);
    assert_eq!(detect_language("util.hpp"), Language::Cpp);
}

#[test]
fn test_detect_standard_c99() {
    let sources = vec![("for (int i = 0; i < 10; i++) {}", Language::C)];
    assert_eq!(detect_standard(&sources), CppStandard::C99);
}

#[test]
fn test_detect_standard_c11() {
    let sources = vec![("_Atomic int counter = 0;", Language::C)];
    assert_eq!(detect_standard(&sources), CppStandard::C11);
}

#[test]
fn test_detect_standard_cpp17() {
    let sources = vec![("std::optional<int> x; if constexpr (true) {}", Language::Cpp)];
    assert_eq!(detect_standard(&sources), CppStandard::Cpp17);
}

#[test]
fn test_detect_standard_cpp11() {
    let sources = vec![("auto x = std::move(y); nullptr;", Language::Cpp)];
    assert_eq!(detect_standard(&sources), CppStandard::Cpp11);
}

#[test]
fn test_extract_structs() {
    let source = r#"
struct Point {
    int x;
    int y;
};
"#;
    let structs = extract_structs(source);
    assert_eq!(structs.len(), 1);
    assert_eq!(structs[0].name, "Point");
    assert_eq!(structs[0].fields.len(), 2);
}

#[test]
fn test_extract_typedef_struct() {
    let source = r#"
typedef struct {
    char name[64];
    int age;
} Person;
"#;
    let structs = extract_structs(source);
    assert_eq!(structs.len(), 1);
    assert_eq!(structs[0].name, "Person");
    assert!(structs[0].is_typedef);
}

#[test]
fn test_extract_brace_block() {
    let source = "{ int x = 1; { int y = 2; } }";
    let block = extract_brace_block(source, 0);
    assert_eq!(block, Some(" int x = 1; { int y = 2; } ".to_string()));
}

#[test]
fn test_parse_params() {
    let params = parse_params("int x, const char* name, double val = 3.14");
    assert_eq!(params.len(), 3);
    assert_eq!(params[0].name, "x");
    assert_eq!(params[1].name, "name");
    assert!(params[1].is_const);
    assert!(params[1].is_pointer);
    assert_eq!(params[2].default_value.as_deref(), Some("3.14"));
}

#[test]
fn test_analyze_file_c() {
    let source = r#"
#include <stdio.h>
#define MAX_SIZE 100

struct Point {
    int x;
    int y;
};

int add(int a, int b) {
    return a + b;
}
"#;
    let file = analyze_file("test.c", source);
    assert_eq!(file.language, Language::C);
    assert_eq!(file.includes, vec!["stdio.h"]);
    assert!(!file.structs.is_empty());
    assert!(!file.functions.is_empty());
}

#[test]
fn brace_block_skips_braces_in_strings_and_comments() {
    let source = "x { a = \"}\"; // }\n /* } */ b = '}'; } tail";
    let block = extract_brace_block(source, 2);
    assert_eq!(block, Some(" a = \"}\"; // }\n /* } */ b = '}'; ".to_string()));
}

#[test]
fn brace_block_needs_an_open_brace_and_a_close() {
    assert_eq!(extract_brace_block("abc", 0), None);
    assert_eq!(extract_brace_block("{ open", 0), None);
    assert_eq!(extract_brace_block("{}", 5), None);
}

#[test]
fn brace_block_offset_is_in_bytes() {
    let source = "é{x}";
    assert_eq!(extract_brace_block(source, 2), Some("x".to_string()));
}

#[test]
fn visibility_keywords() {
    assert_eq!(parse_visibility("public"), Visibility::Public);
    assert_eq!(parse_visibility("protected"), Visibility::Protected);
    assert_eq!(parse_visibility("private"), Visibility::Private);
    assert_eq!(parse_visibility("other"), Visibility::Private);
}

#[test]
fn bases_of_each_shape() {
    let bases = parse_bases("public Base, virtual Shared, Plain, protected virtual Mixin, ");
    assert_eq!(bases.len(), 4);
    assert_eq!(bases[0].name, "Base");
    assert_eq!(bases[0].visibility, Visibility::Public);
    assert!(!bases[0].is_virtual);
    assert_eq!(bases[1].name, "Shared");
    assert!(bases[1].is_virtual);
    assert_eq!(bases[1].visibility, Visibility::Private);
    assert_eq!(bases[2].name, "Plain");
    assert_eq!(bases[2].visibility, Visibility::Private);
    assert_eq!(bases[3].name, "Mixin");
    assert_eq!(bases[3].visibility, Visibility::Protected);
    assert!(bases[3].is_virtual);
}

#[test]
fn params_void_and_empty() {
    assert!(parse_params("void").is_empty());
    assert!(parse_params("   ").is_empty());
    let ps = parse_params("int &ref, char **argv");
    assert_eq!(ps[0].name, "ref");
    assert_eq!(ps[0].type_text, "int");
    assert!(ps[0].is_reference);
    assert_eq!(ps[1].name, "argv");
    assert!(ps[1].is_pointer);
}

#[test]
fn template_params_split_and_trimmed() {
    assert_eq!(parse_template_params("template<typename T, int N>"), vec!["typename T", "int N"]);
    assert!(parse_template_params("no brackets").is_empty());
}

#[test]
fn struct_fields_with_const() {
    let fields = extract_struct_fields("\n    const int a;\n    unsigned long b;\n");
    assert_eq!(fields.len(), 2);
    assert_eq!(fields[0].name, "a");
    assert!(fields[0].is_const);
    assert_eq!(fields[1].type_text, "unsigned long");
    assert_eq!(fields[1].visibility, Visibility::Public);
}

#[test]
fn globals_skip_function_like_types() {
    let globals = extract_globals("extern const int limit = 10;\nint counter = 0;\n");
    assert_eq!(globals.len(), 2);
    assert_eq!(globals[0].name, "limit");
    assert!(globals[0].is_extern);
    assert!(globals[0].is_const);
    assert_eq!(globals[1].name, "counter");
    assert!(!globals[1].is_extern);
}

#[test]
fn functions_with_bodies_and_qualifiers() {
    let source = "static int twice(int x) {\n    return 2 * x;\n}\n";
    let fs = extract_functions(source);
    assert_eq!(fs.len(), 1);
    assert_eq!(fs[0].name, "twice");
    assert_eq!(fs[0].return_type, "int");
    assert!(fs[0].is_static);
    assert_eq!(fs[0].params.len(), 1);
    assert_eq!(fs[0].body, "\n    return 2 * x;\n");
}

#[test]
fn class_members_and_visibility() {
    let source = "class Shape : public Base {\npublic:\n    virtual double area() const = 0;\n    int id() { return id_; }\nprivate:\n    int id_;\n};\n";
    let classes = extract_classes(source);
    assert_eq!(classes.len(), 1);
    let c = &classes[0];
    assert_eq!(c.name, "Shape");
    assert_eq!(c.bases.len(), 1);
    assert_eq!(c.bases[0].name, "Base");
    assert_eq!(c.methods.len(), 2);
    assert_eq!(c.methods[0].name, "area");
    assert_eq!(c.methods[0].return_type, "virtual double");
    assert!(c.methods[0].is_const);
    assert_eq!(c.methods[0].body, "");
    assert_eq!(c.methods[0].visibility, Visibility::Public);
    assert_eq!(c.methods[1].body, " return id_; ");
    assert_eq!(c.fields.len(), 1);
    assert_eq!(c.fields[0].name, "id_");
    let body = "\npublic:\n    void f() {}\n";
    let ms = extract_class_methods(body);
    assert_eq!(ms[0].visibility, Visibility::Public);
    let fs = extract_class_fields("    static const int n = 3;\n");
    assert_eq!(fs.len(), 1);
    assert_eq!(fs[0].name, "n");
    assert_eq!(fs[0].type_text, "int");
    assert!(fs[0].is_static && fs[0].is_const);
}

#[test]
fn classes_only_for_cpp_files() {
    let source = "class A {\n    int x;\n};\n";
    assert!(analyze_file("a.c", source).classes.is_empty());
    assert_eq!(analyze_file("a.cpp", source).classes.len(), 1);
}

#[test]
fn source_file_extensions() {
    assert!(is_source_file("a/b/main.C"));
    assert!(is_source_file("x.hh"));
    assert!(!is_source_file("README.md"));
    assert!(!is_source_file("Makefile"));
}

#[test]
fn project_language_standard_and_report() {
    let a = analyze_file("src/a.c", "int x = 1;\nint f(int a) {\n    int* p = (int*)malloc(4);\n    return a;\n}\n");
    let b = analyze_file("src/b.cpp", "class K {\n    int y;\n};\n");
    let project = assemble_project("/proj", vec![a, b]);
    assert_eq!(project.language, Language::Cpp);
    assert_eq!(project.standard, CppStandard::Cpp03);
    let report = generate_report(&project);
    assert!(report.starts_with("=== C/C++ Project Analysis ===\nRoot: /proj\nLanguage: C++\nDetected Standard: C++03\nFiles: 2\n\n--- src/a.c ---\n"));
    assert!(report.contains("  Memory patterns:\n    C-style: 1 malloc/calloc, 0 free\n      WARNING: malloc/free count mismatch (potential leak)\n"));
    assert!(report.ends_with("\n=== Summary ===\nTotal structs: 0\nTotal classes: 1\nTotal functions: 1\nTotal macros: 0\n"));
}
