use cpp_to_rust::preprocessor::{extract_includes, extract_macros, resolve_includes};

#[test]
fn test_extract_includes() {
    let source = r#"
#include <stdio.h>
#include <stdlib.h>
#include "myheader.h"
"#;
    let includes = extract_includes(source);
    assert_eq!(includes, vec!["stdio.h", "stdlib.h", "myheader.h"]);
}

#[test]
fn test_extract_macros_object() {
    let source = "#define BUFFER_SIZE 1024\n#define MAX_NAME 256\n";
    let macros = extract_macros(source);
    let non_cond: Vec<_> = macros.iter().filter(|m| !m.is_conditional).collect();
    assert_eq!(non_cond.len(), 2);
    assert_eq!(non_cond[0].name, "BUFFER_SIZE");
    assert_eq!(non_cond[0].body, "1024");
    assert!(non_cond[0].params.is_none());
}

#[test]
fn test_extract_macros_function() {
    let source = "#define MAX(a, b) ((a) > (b) ? (a) : (b))\n";
    let macros = extract_macros(source);
    let func_macros: Vec<_> = macros.iter().filter(|m| m.params.is_some()).collect();
    assert_eq!(func_macros.len(), 1);
    assert_eq!(func_macros[0].name, "MAX");
    assert_eq!(func_macros[0].params.as_ref().unwrap(), &vec!["a".to_string(), "b".to_string()]);
}

#[test]
fn test_extract_conditional_macros() {
    let source = "#ifdef DEBUG\n#define LOG(msg) printf(msg)\n#endif\n";
    let macros = extract_macros(source);
    let cond: Vec<_> = macros.iter().filter(|m| m.is_conditional).collect();
    assert_eq!(cond.len(), 1);
    assert_eq!(cond[0].name, "DEBUG");
}

#[test]
fn test_skip_include_guards() {
    let source = "#define MY_HEADER_H\n#define BUFFER_SIZE 42\n";
    let macros = extract_macros(source);
    let non_cond: Vec<_> = macros.iter().filter(|m| !m.is_conditional).collect();
    assert_eq!(non_cond.len(), 1);
    assert_eq!(non_cond[0].name, "BUFFER_SIZE");
}

#[test]
fn object_macros_come_before_function_macros() {
    let source = "#define SQ(x) ((x)*(x))\n#define OTHER 1\n";
    let macros = extract_macros(source);
    assert_eq!(macros.len(), 2);
    assert_eq!(macros[0].name, "OTHER");
    assert_eq!(macros[1].name, "SQ");
    assert_eq!(macros[1].body, "((x)*(x))");
}

#[test]
fn function_macro_replaces_object_macro_of_same_name() {
    let macros = extract_macros("#define F (1)\n#define F(a) a\n");
    assert_eq!(macros.len(), 1);
    assert_eq!(macros[0].name, "F");
    assert_eq!(macros[0].params, Some(vec!["a".to_string()]));
    assert_eq!(macros[0].body, "a");
}

#[test]
fn includes_are_passed_through() {
    assert_eq!(resolve_includes("int x;", &["inc".to_string()]), Ok("int x;".to_string()));
}
