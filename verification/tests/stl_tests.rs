use cpp_to_rust::stl_containers::{
    all_mappings, count_by_category, detect_stl_patterns, generate_stl_hints, StlCategory,
};

#[test]
fn test_mapping_count_at_least_20() {
    let mappings = all_mappings();
    assert!(mappings.len() >= 20, "need at least 20 STL mappings; got {}", mappings.len());
}

#[test]
fn test_all_categories_covered() {
    let mappings = all_mappings();
    let has = |cat: StlCategory| mappings.iter().any(|m| m.category == cat);
    assert!(has(StlCategory::Sequence));
    assert!(has(StlCategory::Ordered));
    assert!(has(StlCategory::Unordered));
    assert!(has(StlCategory::Adapter));
    assert!(has(StlCategory::SmartPointer));
    assert!(has(StlCategory::String));
    assert!(has(StlCategory::Utility));
}

#[test]
fn test_detect_vector() {
    let src = "std::vector<int> numbers;";
    let occ = detect_stl_patterns(src);
    assert!(occ.iter().any(|o| o.cpp_type == "std::vector"), "should detect std::vector");
    assert!(occ.iter().any(|o| o.rust_type == "Vec<T>"));
}

#[test]
fn test_detect_map_and_unordered_map() {
    let src = "std::map<std::string, int> ordered;\nstd::unordered_map<std::string, int> fast;";
    let occ = detect_stl_patterns(src);
    assert!(occ.iter().any(|o| o.cpp_type == "std::map"), "map not detected");
    assert!(occ.iter().any(|o| o.cpp_type == "std::unordered_map"), "unordered_map not detected");
    assert!(occ.iter().any(|o| o.cpp_type == "std::string"), "string not detected");
}

#[test]
fn stl_containers_test_detect_smart_pointers() {
    let src = "std::unique_ptr<Foo> p1;\nstd::shared_ptr<Bar> p2;\nstd::weak_ptr<Bar> w;";
    let occ = detect_stl_patterns(src);
    assert!(occ.iter().any(|o| o.cpp_type == "std::unique_ptr"));
    assert!(occ.iter().any(|o| o.cpp_type == "std::shared_ptr"));
    assert!(occ.iter().any(|o| o.cpp_type == "std::weak_ptr"));
}

#[test]
fn test_detect_adapters() {
    let src = "std::stack<int> s;\nstd::queue<Task> q;\nstd::priority_queue<int> pq;";
    let occ = detect_stl_patterns(src);
    assert!(occ.iter().any(|o| o.cpp_type == "std::stack"));
    assert!(occ.iter().any(|o| o.cpp_type == "std::queue"));
    assert!(occ.iter().any(|o| o.cpp_type == "std::priority_queue"));
}

#[test]
fn test_detect_utility_types() {
    let src = "std::optional<int> x;\nstd::variant<int, float> v;\nstd::function<void(int)> cb;\nstd::pair<int, int> p;\nstd::tuple<int, int, int> t;";
    let occ = detect_stl_patterns(src);
    assert!(occ.iter().any(|o| o.cpp_type == "std::optional"));
    assert!(occ.iter().any(|o| o.cpp_type == "std::variant"));
    assert!(occ.iter().any(|o| o.cpp_type == "std::function"));
    assert!(occ.iter().any(|o| o.cpp_type == "std::pair"));
    assert!(occ.iter().any(|o| o.cpp_type == "std::tuple"));
}

#[test]
fn test_no_double_count_unordered_map_vs_multimap() {
    let src = "std::unordered_multimap<std::string, int> mm;";
    let occ = detect_stl_patterns(src);
    let um_count = occ.iter().filter(|o| o.cpp_type == "std::unordered_map").count();
    let umm_count = occ.iter().filter(|o| o.cpp_type == "std::unordered_multimap").count();
    assert_eq!(um_count, 0, "unordered_map should not match inside unordered_multimap");
    assert_eq!(umm_count, 1, "unordered_multimap should match exactly once");
}

#[test]
fn test_no_double_count_map_vs_multimap() {
    let src = "std::multimap<int, int> mm;";
    let occ = detect_stl_patterns(src);
    let map_count = occ.iter().filter(|o| o.cpp_type == "std::map").count();
    let mmap_count = occ.iter().filter(|o| o.cpp_type == "std::multimap").count();
    assert_eq!(map_count, 0, "map should not match inside multimap");
    assert_eq!(mmap_count, 1);
}

#[test]
fn test_comments_skipped() {
    let src = "// std::vector<int> not a real usage\nstd::vector<float> real;";
    let occ = detect_stl_patterns(src);
    let on_line1 = occ.iter().filter(|o| o.line == 1).count();
    assert_eq!(on_line1, 0, "comment line should be skipped");
    assert!(occ.iter().any(|o| o.line == 2));
}

#[test]
fn test_hint_generation_nonempty() {
    let src = "std::vector<int> v;\nstd::unordered_map<std::string, int> m;";
    let occ = detect_stl_patterns(src);
    let hint = generate_stl_hints(&occ);
    assert!(!hint.is_empty());
    assert!(hint.contains("STL Container"));
    assert!(hint.contains("Vec<T>"));
    assert!(hint.contains("HashMap<K, V>"));
}

#[test]
fn test_hint_includes_use_statements() {
    let src = "std::unordered_map<int,int> a;\nstd::shared_ptr<Foo> b;";
    let occ = detect_stl_patterns(src);
    let hint = generate_stl_hints(&occ);
    assert!(hint.contains("use std::collections::HashMap;"));
    assert!(hint.contains("use std::sync::{Arc, Weak};"));
}

#[test]
fn test_count_by_category() {
    let src = "std::vector<int> v;\nstd::map<int,int> m;\nstd::unique_ptr<Foo> p;";
    let occ = detect_stl_patterns(src);
    let (seq, ord, _unord, _adp, sptr, _s, _util) = count_by_category(&occ);
    assert_eq!(seq, 1);
    assert_eq!(ord, 1);
    assert_eq!(sptr, 1);
}

#[test]
fn no_hint_for_no_occurrence() {
    assert!(generate_stl_hints(&[]).is_empty());
}

#[test]
fn qualified_names_are_std_prefixed() {
    for m in all_mappings() {
        assert_eq!(m.cpp_qualified, format!("std::{}", m.cpp_name));
    }
}

#[test]
fn hint_headings_start_their_own_lines() {
    let src = "std::vector<int> v;\nstd::map<int, int> m;\nstd::vector<int> w;\n";
    let occ = detect_stl_patterns(src);
    let hint = generate_stl_hints(&occ);
    assert!(hint.contains(
        "Detected 3 STL type usage(s) across 2 distinct type(s). Apply these Rust equivalents:\n\n### "
    ));
    assert!(!hint.contains("\\n"));
    let (total, _, _, _, _, _, _) = count_by_category(&occ);
    let _ = total;
}
