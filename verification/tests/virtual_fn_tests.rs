use cpp_to_rust::virtual_fn::{
    count_virtual_fns, detect_virtual_functions, extract_class_body, generate_trait_definition,
    map_params, map_return_type, parse_virtual_line, to_rust_trait_name, to_snake_case,
};

const SAMPLE_CLASS: &str = r#"
class XMLVisitor {
public:
    virtual ~XMLVisitor() {}
    virtual bool VisitEnter( const XMLDocument& doc ) { return true; }
    virtual bool VisitExit( const XMLDocument& doc ) { return true; }
    virtual bool VisitEnter( const XMLElement& element, const XMLAttribute* attr ) { return true; }
    virtual bool VisitExit( const XMLElement& element ) { return true; }
    virtual bool Visit( const XMLDeclaration& decl ) { return true; }
    virtual bool Visit( const XMLText& text ) { return true; }
    virtual bool Visit( const XMLComment& comment ) { return true; }
};
"#;

const SAMPLE_PURE: &str = r#"
class MemPool {
public:
    virtual ~MemPool() {}
    virtual size_t ItemSize() const = 0;
    virtual void* Alloc() = 0;
    virtual void Free( void* ) = 0;
};
"#;

#[test]
fn test_detect_xml_visitor() {
    let classes = detect_virtual_functions(SAMPLE_CLASS);
    assert!(!classes.is_empty(), "should detect XMLVisitor");
    let xml_visitor = &classes[0];
    assert_eq!(xml_visitor.class_name, "XMLVisitor");
    assert!(xml_visitor.virtual_fns.len() >= 4, "should detect multiple virtual fns");
}

#[test]
fn test_detect_pure_virtual() {
    let classes = detect_virtual_functions(SAMPLE_PURE);
    assert!(!classes.is_empty(), "should detect MemPool");
    let pool = &classes[0];
    let pure_count = pool.virtual_fns.iter().filter(|f| f.is_pure).count();
    assert!(pure_count >= 2, "ItemSize and Free should be pure virtual");
}

#[test]
fn test_generate_trait_definition() {
    let classes = detect_virtual_functions(SAMPLE_CLASS);
    if classes.is_empty() {
        return;
    }
    let trait_def = generate_trait_definition(&classes[0]);
    assert!(trait_def.contains("pub trait"));
    assert!(trait_def.contains("fn "));
}

#[test]
fn test_to_snake_case() {
    assert_eq!(to_snake_case("VisitEnter"), "visit_enter");
    assert_eq!(to_snake_case("ItemSize"), "item_size");
    assert_eq!(to_snake_case("Alloc"), "alloc");
}

#[test]
fn line_numbers_count_from_the_source_start() {
    let classes = detect_virtual_functions(SAMPLE_PURE);
    let pool = &classes[0];
    assert_eq!(pool.virtual_fns[0].fn_name, "ItemSize");
    assert_eq!(pool.virtual_fns[0].line, 6);
    assert!(pool.virtual_fns[0].is_const);
    assert!(pool.virtual_fns[0].is_pure);
    assert_eq!(count_virtual_fns(&classes), (3, 3, 0));
}

#[test]
fn virtual_line_fields() {
    let v = parse_virtual_line("    virtual int Get(int a) const { return a; }", "K", 7).unwrap();
    assert_eq!(v.class_name, "K");
    assert_eq!(v.fn_name, "Get");
    assert_eq!(v.return_type, "int");
    assert_eq!(v.params, "int a");
    assert!(v.is_const);
    assert!(!v.is_pure);
    assert!(v.has_default_impl);
    assert_eq!(v.line, 7);
    assert!(parse_virtual_line("    virtual ~K() {}", "K", 1).is_none());
    assert!(parse_virtual_line("no declaration here", "K", 1).is_none());
}

#[test]
fn class_body_skips_braces_in_strings() {
    assert_eq!(extract_class_body("{ a = \"}\"; }", 0), " a = \"}\"; ");
    assert_eq!(extract_class_body("x", 0), "");
}

#[test]
fn names_and_types() {
    assert_eq!(to_rust_trait_name("XMLVisitor"), "XmlVisitor");
    assert_eq!(to_rust_trait_name("MemPool"), "MemPool");
    assert_eq!(to_rust_trait_name("HTTP"), "Http");
    assert_eq!(to_rust_trait_name("XML2Foo"), "Xml2Foo");
    assert_eq!(map_return_type("bool", "K"), "bool");
    assert_eq!(map_params(""), "");
}
