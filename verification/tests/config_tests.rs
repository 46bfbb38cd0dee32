use cpp_to_rust::config::{load_profile, profile_from_entries, ConfigValue};

#[test]
fn profile_without_config_is_generic_settings() {
    let p = load_profile("c99", None).unwrap();
    assert_eq!(p.name, "c99");
    assert_eq!(p.additional_instructions, "");
    assert!(p.type_mappings.is_empty());
    assert!(p.api_mappings.is_empty());
}

#[test]
fn profile_reads_instructions_and_mappings() {
    let text = "additional_instructions = \"Use no_std\"\n\
                [type_mappings]\n\
                uint8_t = \"u8\"\n\
                count = 3\n\
                [api_mappings]\n\
                malloc = \"Box::new\"\n";
    let p = load_profile("embedded", Some(text)).unwrap();
    assert_eq!(p.name, "embedded");
    assert_eq!(p.additional_instructions, "Use no_std");
    assert_eq!(p.type_mappings.len(), 1);
    assert_eq!(p.type_mappings.get("uint8_t"), Some("u8"));
    assert_eq!(p.type_mappings.get("count"), None);
    assert_eq!(p.api_mappings.len(), 1);
    assert_eq!(p.api_mappings.get("malloc"), Some("Box::new"));
}

#[test]
fn profile_with_malformed_config_is_refused() {
    let r = load_profile("bad", Some("this is = = not toml"));
    assert!(r.is_err());
    assert!(!r.err().unwrap().is_empty());
}

#[test]
fn profile_ignores_entries_of_the_wrong_kind() {
    let es = vec![
        ("additional_instructions".to_string(), ConfigValue::Other),
        ("type_mappings".to_string(), ConfigValue::Str("x".to_string())),
        (
            "api_mappings".to_string(),
            ConfigValue::Table(vec![
                ("printf".to_string(), Some("println!".to_string())),
                ("puts".to_string(), None),
                ("printf".to_string(), Some("print!".to_string())),
            ]),
        ),
    ];
    let p = profile_from_entries("cpp17", &es);
    assert_eq!(p.name, "cpp17");
    assert_eq!(p.additional_instructions, "");
    assert!(p.type_mappings.is_empty());
    assert_eq!(p.api_mappings.len(), 1);
    assert_eq!(p.api_mappings.get("printf"), Some("print!"));
    assert_eq!(p.api_mappings.get("puts"), None);
}

#[test]
fn profile_uses_first_entry_of_a_name() {
    let es = vec![
        ("additional_instructions".to_string(), ConfigValue::Str("first".to_string())),
        ("additional_instructions".to_string(), ConfigValue::Str("second".to_string())),
    ];
    let p = profile_from_entries("c11", &es);
    assert_eq!(p.additional_instructions, "first");
}
