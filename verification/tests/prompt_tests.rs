use cpp_to_rust::analyzer::analyze_file;
use cpp_to_rust::prompt::{
    build_class_prompt, build_file_prompt, build_function_prompt, build_struct_prompt,
    build_system_prompt, extract_rust_code, ConversionProfile, StringMap,
};
use cpp_to_rust::types::Language;

#[test]
fn test_build_system_prompt_c() {
    let profile = ConversionProfile::default();
    let prompt = build_system_prompt(&profile, &Language::C);
    assert!(prompt.contains("C to Rust"));
    assert!(prompt.contains("Memory Safety First"));
    assert!(!prompt.contains("C++ Specific Rules"));
}

#[test]
fn test_build_system_prompt_cpp() {
    let profile = ConversionProfile::default();
    let prompt = build_system_prompt(&profile, &Language::Cpp);
    assert!(prompt.contains("C++ to Rust"));
    assert!(prompt.contains("C++ Specific Rules"));
    assert!(prompt.contains("Templates"));
}

#[test]
fn test_build_system_prompt_with_profile() {
    let mut profile = ConversionProfile::default();
    profile.name = "embedded".to_string();
    profile.additional_instructions = "Use no_std where possible.".to_string();
    profile.type_mappings.insert("uint8_t".to_string(), "u8".to_string());

    let prompt = build_system_prompt(&profile, &Language::C);
    assert!(prompt.contains("Use no_std where possible"));
    assert!(prompt.contains("`uint8_t` → `u8`"));
}

#[test]
fn test_extract_rust_code() {
    let response = r#"Here's the converted code:

```rust
fn add(a: i32, b: i32) -> i32 {
    a + b
}
```

This function takes two integers and returns their sum."#;

    let code = extract_rust_code(response).unwrap();
    assert_eq!(code, "fn add(a: i32, b: i32) -> i32 {\n    a + b\n}");
}

#[test]
fn test_extract_rust_code_none() {
    let response = "No code blocks here.";
    assert!(extract_rust_code(response).is_none());
}

#[test]
fn profile_sections_in_order() {
    let mut profile = ConversionProfile::default();
    profile.additional_instructions = "Be brief.".to_string();
    profile.api_mappings.insert("printf".to_string(), "println!".to_string());
    let prompt = build_system_prompt(&profile, &Language::C);
    assert!(prompt.ends_with("\n## Profile-Specific Instructions (generic)\n\nBe brief.\n\n## API Mappings\n\n- `printf` → `println!`\n"));
}

#[test]
fn string_map_reads_back_what_was_written() {
    let mut m = StringMap::new();
    assert!(m.is_empty());
    assert_eq!(m.insert("a".to_string(), "1".to_string()), None);
    assert_eq!(m.insert("b".to_string(), "2".to_string()), None);
    assert_eq!(m.insert("a".to_string(), "3".to_string()), Some("1".to_string()));
    assert_eq!(m.len(), 2);
    assert_eq!(m.get("a"), Some("3"));
    assert_eq!(m.get("b"), Some("2"));
    assert_eq!(m.get("c"), None);
    assert_eq!(m.entry(0), ("a", "3"));
}

#[test]
fn file_struct_function_and_class_prompts() {
    let file = analyze_file(
        "m.c",
        "#include <stdio.h>\ntypedef struct S {\n    const int a;\n    char b;\n} S;\nstatic int g(int x = 1, char *s) {\n    return x;\n}\n",
    );
    let fp = build_file_prompt(&file);
    assert!(fp.starts_with("Convert the following C file to Rust:\n\nDependencies/includes:\n- stdio.h\n\n```C\n"));
    let sp = build_struct_prompt(&file.structs[0]);
    assert_eq!(sp, "Convert this C struct to Rust:\n\n```c\ntypedef struct S {\n    const int a;\n    char b;\n};\n```\n");
    let gp = build_function_prompt(&file.functions[0], "");
    assert_eq!(gp, "Convert this function to Rust:\n\n```c\nstatic int g(int x = 1, char* s) {\n\n    return x;\n\n}\n```\n");
    let cls = analyze_file("k.cpp", "class K : public B {\npublic:\n    int get(int v) { return v; }\nprivate:\n    int v_;\n};\n");
    let cp = build_class_prompt(&cls.classes[0], "ctx");
    assert_eq!(cp, "Context:\nctx\n\nConvert this C++ class to Rust (struct + impl + traits):\n\n```cpp\nclass K : public B {\npublic:\n    int get(int v);\n\nprivate:\n    int v_;\n};\n```\n");
}
