//! Detection of C++ STL container and utility types, and the Rust types to suggest for them.
use vstd::prelude::*;

use crate::patterns::{
    captures_all, escape, match_end, match_start, match_view, matches_view, regex_captures,
    regex_escape, end_of, start_of,
};
use crate::text::{
    copy_str, decimal, lines, lines_spec, push_decimal, push_str, starts_with, starts_with_spec,
    str_eq, trim, trim_spec, views,
};

verus! {

/// The semantic category of an STL type.
#[derive(Debug, Clone, Copy, PartialEq, Eq, Hash, Structural)]
pub enum StlCategory {
    Sequence,
    Ordered,
    Unordered,
    Adapter,
    SmartPointer,
    String,
    Utility,
}

/// The display name of a category.
pub open spec fn category_name(c: StlCategory) -> Seq<char> {
    match c {
        StlCategory::Sequence => "Sequence"@,
        StlCategory::Ordered => "Ordered"@,
        StlCategory::Unordered => "Unordered"@,
        StlCategory::Adapter => "Adapter"@,
        StlCategory::SmartPointer => "SmartPointer"@,
        StlCategory::String => "String"@,
        StlCategory::Utility => "Utility"@,
    }
}

impl StlCategory {
    /// The display name of the category.
    pub fn as_str(&self) -> (r: &'static str)
        ensures
            r@ == category_name(*self),
    {
        match self {
            StlCategory::Sequence => "Sequence",
            StlCategory::Ordered => "Ordered",
            StlCategory::Unordered => "Unordered",
            StlCategory::Adapter => "Adapter",
            StlCategory::SmartPointer => "SmartPointer",
            StlCategory::String => "String",
            StlCategory::Utility => "Utility",
        }
    }
}

/// One C++ STL type and the Rust type that replaces it.
#[derive(Debug, Clone, Copy)]
pub struct StlMapping {
    /// The name after `std::` (e.g. `vector`).
    pub cpp_name: &'static str,
    /// The qualified name (e.g. `std::vector`).
    pub cpp_qualified: &'static str,
    /// The Rust replacement (e.g. `Vec<T>`).
    pub rust_type: &'static str,
    pub category: StlCategory,
    /// A migration note.
    pub note: Option<&'static str>,
}

/// The plain value of a mapping.
pub open spec fn mapping_view(m: StlMapping) -> (
    Seq<char>,
    Seq<char>,
    Seq<char>,
    StlCategory,
    Option<Seq<char>>,
) {
    (m.cpp_name@, m.cpp_qualified@, m.rust_type@, m.category, match m.note {
        Some(n) => Some(n@),
        None => None,
    })
}

/// The number of entries of the mapping table.
pub open spec fn mapping_count() -> int {
    29
}

/// Entry `i` of the mapping table.
pub open spec fn mapping_entry(i: int) -> (
    Seq<char>,
    Seq<char>,
    Seq<char>,
    StlCategory,
    Option<Seq<char>>,
) {
    if i == 0 {
        ("vector"@, "std::vector"@, "Vec<T>"@, StlCategory::Sequence, None)
    } else if i == 1 {
        ("array"@, "std::array"@, "[T; N]"@, StlCategory::Sequence, Some("N must be a compile-time constant"@))
    } else if i == 2 {
        ("deque"@, "std::deque"@, "VecDeque<T>"@, StlCategory::Sequence, Some("use std::collections::VecDeque"@))
    } else if i == 3 {
        ("list"@, "std::list"@, "LinkedList<T>"@, StlCategory::Sequence, Some("prefer Vec<T> unless O(1) splice is needed; use std::collections::LinkedList"@))
    } else if i == 4 {
        ("forward_list"@, "std::forward_list"@, "LinkedList<T>"@, StlCategory::Sequence, Some("singly-linked; prefer Vec<T> in most cases"@))
    } else if i == 5 {
        ("map"@, "std::map"@, "BTreeMap<K, V>"@, StlCategory::Ordered, Some("use std::collections::BTreeMap; iteration order preserved"@))
    } else if i == 6 {
        ("multimap"@, "std::multimap"@, "BTreeMap<K, Vec<V>>"@, StlCategory::Ordered, Some("group duplicate keys into Vec<V>"@))
    } else if i == 7 {
        ("set"@, "std::set"@, "BTreeSet<T>"@, StlCategory::Ordered, Some("use std::collections::BTreeSet"@))
    } else if i == 8 {
        ("multiset"@, "std::multiset"@, "BTreeMap<T, usize>"@, StlCategory::Ordered, Some("track counts: BTreeMap<T, usize>; T must impl Ord"@))
    } else if i == 9 {
        ("unordered_map"@, "std::unordered_map"@, "HashMap<K, V>"@, StlCategory::Unordered, Some("use std::collections::HashMap; K must impl Hash + Eq"@))
    } else if i == 10 {
        ("unordered_multimap"@, "std::unordered_multimap"@, "HashMap<K, Vec<V>>"@, StlCategory::Unordered, Some("group duplicate keys into Vec<V>"@))
    } else if i == 11 {
        ("unordered_set"@, "std::unordered_set"@, "HashSet<T>"@, StlCategory::Unordered, Some("use std::collections::HashSet; T must impl Hash + Eq"@))
    } else if i == 12 {
        ("unordered_multiset"@, "std::unordered_multiset"@, "HashMap<T, usize>"@, StlCategory::Unordered, Some("track counts: HashMap<T, usize>"@))
    } else if i == 13 {
        ("stack"@, "std::stack"@, "Vec<T>"@, StlCategory::Adapter, Some("use Vec::push / Vec::pop; no separate stack type needed"@))
    } else if i == 14 {
        ("queue"@, "std::queue"@, "VecDeque<T>"@, StlCategory::Adapter, Some("use VecDeque::push_back / pop_front"@))
    } else if i == 15 {
        ("priority_queue"@, "std::priority_queue"@, "BinaryHeap<T>"@, StlCategory::Adapter, Some("use std::collections::BinaryHeap; T must impl Ord"@))
    } else if i == 16 {
        ("unique_ptr"@, "std::unique_ptr"@, "Box<T>"@, StlCategory::SmartPointer, None)
    } else if i == 17 {
        ("shared_ptr"@, "std::shared_ptr"@, "Arc<T>"@, StlCategory::SmartPointer, Some("use Arc<T> for thread-safe; Rc<T> for single-threaded"@))
    } else if i == 18 {
        ("weak_ptr"@, "std::weak_ptr"@, "Weak<T>"@, StlCategory::SmartPointer, Some("Arc::downgrade() produces Weak<T>"@))
    } else if i == 19 {
        ("string"@, "std::string"@, "String"@, StlCategory::String, None)
    } else if i == 20 {
        ("string_view"@, "std::string_view"@, "&str"@, StlCategory::String, Some("for owned storage use String; &str is a borrowed slice"@))
    } else if i == 21 {
        ("wstring"@, "std::wstring"@, "String"@, StlCategory::String, Some("convert UTF-16 wchar_t data to UTF-8 String"@))
    } else if i == 22 {
        ("optional"@, "std::optional"@, "Option<T>"@, StlCategory::Utility, None)
    } else if i == 23 {
        ("variant"@, "std::variant"@, "enum / Box<dyn Any>"@, StlCategory::Utility, Some("prefer a custom enum; use Box<dyn Any> only as last resort"@))
    } else if i == 24 {
        ("tuple"@, "std::tuple"@, "(T, U, ...)"@, StlCategory::Utility, Some("Rust tuples are structural: (T, U, V)"@))
    } else if i == 25 {
        ("pair"@, "std::pair"@, "(T, U)"@, StlCategory::Utility, Some(".first → .0, .second → .1"@))
    } else if i == 26 {
        ("bitset"@, "std::bitset"@, "[bool; N]"@, StlCategory::Utility, Some("or use the `bitflags` crate for named flags"@))
    } else if i == 27 {
        ("span"@, "std::span"@, "&[T]"@, StlCategory::Utility, Some("mutable span → &mut [T]"@))
    } else {
        ("function"@, "std::function"@, "Box<dyn Fn(...)>"@, StlCategory::Utility, Some("use impl Fn(...) for generic params; Box<dyn Fn(...)> for stored callables"@))
    }
}

fn mapping_entry_exec(i: usize) -> (m: StlMapping)
    requires
        i < 29,
    ensures
        mapping_view(m) == mapping_entry(i as int),
{
    if i == 0 {
        StlMapping { cpp_name: "vector", cpp_qualified: "std::vector", rust_type: "Vec<T>", category: StlCategory::Sequence, note: None }
    } else if i == 1 {
        StlMapping { cpp_name: "array", cpp_qualified: "std::array", rust_type: "[T; N]", category: StlCategory::Sequence, note: Some("N must be a compile-time constant") }
    } else if i == 2 {
        StlMapping { cpp_name: "deque", cpp_qualified: "std::deque", rust_type: "VecDeque<T>", category: StlCategory::Sequence, note: Some("use std::collections::VecDeque") }
    } else if i == 3 {
        StlMapping { cpp_name: "list", cpp_qualified: "std::list", rust_type: "LinkedList<T>", category: StlCategory::Sequence, note: Some("prefer Vec<T> unless O(1) splice is needed; use std::collections::LinkedList") }
    } else if i == 4 {
        StlMapping { cpp_name: "forward_list", cpp_qualified: "std::forward_list", rust_type: "LinkedList<T>", category: StlCategory::Sequence, note: Some("singly-linked; prefer Vec<T> in most cases") }
    } else if i == 5 {
        StlMapping { cpp_name: "map", cpp_qualified: "std::map", rust_type: "BTreeMap<K, V>", category: StlCategory::Ordered, note: Some("use std::collections::BTreeMap; iteration order preserved") }
    } else if i == 6 {
        StlMapping { cpp_name: "multimap", cpp_qualified: "std::multimap", rust_type: "BTreeMap<K, Vec<V>>", category: StlCategory::Ordered, note: Some("group duplicate keys into Vec<V>") }
    } else if i == 7 {
        StlMapping { cpp_name: "set", cpp_qualified: "std::set", rust_type: "BTreeSet<T>", category: StlCategory::Ordered, note: Some("use std::collections::BTreeSet") }
    } else if i == 8 {
        StlMapping { cpp_name: "multiset", cpp_qualified: "std::multiset", rust_type: "BTreeMap<T, usize>", category: StlCategory::Ordered, note: Some("track counts: BTreeMap<T, usize>; T must impl Ord") }
    } else if i == 9 {
        StlMapping { cpp_name: "unordered_map", cpp_qualified: "std::unordered_map", rust_type: "HashMap<K, V>", category: StlCategory::Unordered, note: Some("use std::collections::HashMap; K must impl Hash + Eq") }
    } else if i == 10 {
        StlMapping { cpp_name: "unordered_multimap", cpp_qualified: "std::unordered_multimap", rust_type: "HashMap<K, Vec<V>>", category: StlCategory::Unordered, note: Some("group duplicate keys into Vec<V>") }
    } else if i == 11 {
        StlMapping { cpp_name: "unordered_set", cpp_qualified: "std::unordered_set", rust_type: "HashSet<T>", category: StlCategory::Unordered, note: Some("use std::collections::HashSet; T must impl Hash + Eq") }
    } else if i == 12 {
        StlMapping { cpp_name: "unordered_multiset", cpp_qualified: "std::unordered_multiset", rust_type: "HashMap<T, usize>", category: StlCategory::Unordered, note: Some("track counts: HashMap<T, usize>") }
    } else if i == 13 {
        StlMapping { cpp_name: "stack", cpp_qualified: "std::stack", rust_type: "Vec<T>", category: StlCategory::Adapter, note: Some("use Vec::push / Vec::pop; no separate stack type needed") }
    } else if i == 14 {
        StlMapping { cpp_name: "queue", cpp_qualified: "std::queue", rust_type: "VecDeque<T>", category: StlCategory::Adapter, note: Some("use VecDeque::push_back / pop_front") }
    } else if i == 15 {
        StlMapping { cpp_name: "priority_queue", cpp_qualified: "std::priority_queue", rust_type: "BinaryHeap<T>", category: StlCategory::Adapter, note: Some("use std::collections::BinaryHeap; T must impl Ord") }
    } else if i == 16 {
        StlMapping { cpp_name: "unique_ptr", cpp_qualified: "std::unique_ptr", rust_type: "Box<T>", category: StlCategory::SmartPointer, note: None }
    } else if i == 17 {
        StlMapping { cpp_name: "shared_ptr", cpp_qualified: "std::shared_ptr", rust_type: "Arc<T>", category: StlCategory::SmartPointer, note: Some("use Arc<T> for thread-safe; Rc<T> for single-threaded") }
    } else if i == 18 {
        StlMapping { cpp_name: "weak_ptr", cpp_qualified: "std::weak_ptr", rust_type: "Weak<T>", category: StlCategory::SmartPointer, note: Some("Arc::downgrade() produces Weak<T>") }
    } else if i == 19 {
        StlMapping { cpp_name: "string", cpp_qualified: "std::string", rust_type: "String", category: StlCategory::String, note: None }
    } else if i == 20 {
        StlMapping { cpp_name: "string_view", cpp_qualified: "std::string_view", rust_type: "&str", category: StlCategory::String, note: Some("for owned storage use String; &str is a borrowed slice") }
    } else if i == 21 {
        StlMapping { cpp_name: "wstring", cpp_qualified: "std::wstring", rust_type: "String", category: StlCategory::String, note: Some("convert UTF-16 wchar_t data to UTF-8 String") }
    } else if i == 22 {
        StlMapping { cpp_name: "optional", cpp_qualified: "std::optional", rust_type: "Option<T>", category: StlCategory::Utility, note: None }
    } else if i == 23 {
        StlMapping { cpp_name: "variant", cpp_qualified: "std::variant", rust_type: "enum / Box<dyn Any>", category: StlCategory::Utility, note: Some("prefer a custom enum; use Box<dyn Any> only as last resort") }
    } else if i == 24 {
        StlMapping { cpp_name: "tuple", cpp_qualified: "std::tuple", rust_type: "(T, U, ...)", category: StlCategory::Utility, note: Some("Rust tuples are structural: (T, U, V)") }
    } else if i == 25 {
        StlMapping { cpp_name: "pair", cpp_qualified: "std::pair", rust_type: "(T, U)", category: StlCategory::Utility, note: Some(".first → .0, .second → .1") }
    } else if i == 26 {
        StlMapping { cpp_name: "bitset", cpp_qualified: "std::bitset", rust_type: "[bool; N]", category: StlCategory::Utility, note: Some("or use the `bitflags` crate for named flags") }
    } else if i == 27 {
        StlMapping { cpp_name: "span", cpp_qualified: "std::span", rust_type: "&[T]", category: StlCategory::Utility, note: Some("mutable span → &mut [T]") }
    } else {
        StlMapping { cpp_name: "function", cpp_qualified: "std::function", rust_type: "Box<dyn Fn(...)>", category: StlCategory::Utility, note: Some("use impl Fn(...) for generic params; Box<dyn Fn(...)> for stored callables") }
    }
}

/// The mapping table: 29 STL types in seven categories, in table order.
pub fn all_mappings() -> (r: Vec<StlMapping>)
    ensures
        r@.len() == mapping_count(),
        forall|i: int| 0 <= i < mapping_count() ==> mapping_view(#[trigger] r@[i]) == mapping_entry(i),
{
    let mut r: Vec<StlMapping> = Vec::new();
    let mut i: usize = 0;
    while i < 29
        invariant
            i <= 29,
            r@.len() == i,
            forall|j: int| 0 <= j < i ==> mapping_view(#[trigger] r@[j]) == mapping_entry(j),
        decreases 29 - i,
    {
        r.push(mapping_entry_exec(i));
        i = i + 1;
    }
    r
}

/// A detected use of an STL type.
#[derive(Debug, Clone)]
pub struct StlOccurrence {
    /// The trimmed source line.
    pub context: String,
    /// The 1-based line number.
    pub line: usize,
    /// The qualified C++ name matched.
    pub cpp_type: String,
    /// The suggested Rust type.
    pub rust_type: String,
    pub category: StlCategory,
    /// The migration note.
    pub note: Option<String>,
}

/// The plain value of an occurrence.
pub open spec fn occ_view(o: StlOccurrence) -> (
    Seq<char>,
    int,
    Seq<char>,
    Seq<char>,
    StlCategory,
    Option<Seq<char>>,
) {
    (o.context@, o.line as int, o.cpp_type@, o.rust_type@, o.category, match o.note {
        Some(n) => Some(n@),
        None => None,
    })
}

/// The plain values of occurrences.
pub open spec fn occ_views(os: Seq<StlOccurrence>) -> Seq<
    (Seq<char>, int, Seq<char>, Seq<char>, StlCategory, Option<Seq<char>>),
> {
    os.map_values(|o: StlOccurrence| occ_view(o))
}

/// The regular expression that finds the STL type of entry `i`: `\bstd::NAME\b`.
pub open spec fn stl_pattern(i: int) -> Seq<char> {
    "\\bstd::"@ + regex_escape(mapping_entry(i).0) + "\\b"@
}

/// Whether the span `[s, e)` lies inside one of the claimed spans.
pub open spec fn covered(claimed: Seq<(int, int)>, s: int, e: int) -> bool {
    exists|k: int| 0 <= k < claimed.len() && s >= claimed[k].0 && e <= claimed[k].1
}

/// Goes through the matches `ms` of entry `i` in order: a match inside an already claimed span
/// is skipped, any other is claimed and recorded.
pub open spec fn claim_matches(
    claimed: Seq<(int, int)>,
    found: Seq<int>,
    ms: Seq<Seq<Option<(int, int, Seq<char>)>>>,
    i: int,
) -> (Seq<(int, int)>, Seq<int>)
    decreases ms.len(),
{
    if ms.len() == 0 {
        (claimed, found)
    } else {
        let (c, f) = claim_matches(claimed, found, ms.drop_last(), i);
        let s = match_start(ms.last());
        let e = match_end(ms.last());
        if covered(c, s, e) {
            (c, f)
        } else {
            (c.push((s, e)), f.push(i))
        }
    }
}

/// The claimed spans and the entries found in `line` by the first `n` table entries.
pub open spec fn scan_line(line: Seq<char>, n: int) -> (Seq<(int, int)>, Seq<int>)
    decreases n,
{
    if n <= 0 {
        (Seq::empty(), Seq::empty())
    } else {
        let (c, f) = scan_line(line, n - 1);
        claim_matches(c, f, regex_captures(stl_pattern(n - 1), line), n - 1)
    }
}

/// The occurrence of entry `i` on a line with trimmed text `t` and 1-based number `num`.
pub open spec fn occurrence_of(t: Seq<char>, num: int, i: int) -> (
    Seq<char>,
    int,
    Seq<char>,
    Seq<char>,
    StlCategory,
    Option<Seq<char>>,
) {
    let m = mapping_entry(i);
    (t, num, m.1, m.2, m.3, m.4)
}

/// Whether a trimmed line is a comment line (starts with `//` or `*`).
pub open spec fn is_comment_line(t: Seq<char>) -> bool {
    starts_with_spec(t, "//"@) || starts_with_spec(t, "*"@)
}

/// The occurrences on line `line` (0-based index `idx`); none on a comment line.
pub open spec fn line_occurrences(line: Seq<char>, idx: int) -> Seq<
    (Seq<char>, int, Seq<char>, Seq<char>, StlCategory, Option<Seq<char>>),
> {
    let t = trim_spec(line);
    if is_comment_line(t) {
        Seq::empty()
    } else {
        scan_line(line, mapping_count()).1.map_values(|i: int| occurrence_of(t, idx + 1, i))
    }
}

/// The occurrences on the first `n` lines of `ls`.
pub open spec fn occurrences_upto(ls: Seq<Seq<char>>, n: int) -> Seq<
    (Seq<char>, int, Seq<char>, Seq<char>, StlCategory, Option<Seq<char>>),
>
    decreases n,
{
    if n <= 0 {
        Seq::empty()
    } else {
        occurrences_upto(ls, n - 1) + line_occurrences(ls[n - 1], n - 1)
    }
}

/// The regular expression for entry `i`.
fn stl_pattern_exec(i: usize) -> (p: String)
    requires
        i < 29,
    ensures
        p@ == stl_pattern(i as int),
{
    let m = mapping_entry_exec(i);
    let mut p = copy_str("\\bstd::");
    let e = escape(m.cpp_name);
    push_str(&mut p, e.as_str());
    push_str(&mut p, "\\b");
    p
}

/// Whether the span `[s, e)` lies inside one of `claimed`.
fn is_covered(claimed: &Vec<(usize, usize)>, s: usize, e: usize) -> (r: bool)
    ensures
        r == covered(claimed@.map_values(|p: (usize, usize)| (p.0 as int, p.1 as int)), s as int, e as int),
{
    let ghost cv = claimed@.map_values(|p: (usize, usize)| (p.0 as int, p.1 as int));
    let mut k: usize = 0;
    while k < claimed.len()
        invariant
            k <= claimed@.len(),
            cv == claimed@.map_values(|p: (usize, usize)| (p.0 as int, p.1 as int)),
            forall|j: int| 0 <= j < k ==> !(s >= cv[j].0 && e <= cv[j].1),
        decreases claimed@.len() - k,
    {
        let (a, b) = claimed[k];
        if s >= a && e <= b {
            assert(s >= cv[k as int].0 && e <= cv[k as int].1);
            return true;
        }
        k = k + 1;
    }
    false
}

/// Finds every use of an STL type in `source`, line by line: comment lines (trimmed text
/// starting with `//` or `*`) are skipped; on other lines each table entry's `\bstd::NAME\b`
/// matches are taken in table order, a match inside a span already claimed on that line is
/// skipped, and each other one yields an occurrence with the trimmed line and 1-based number.
pub fn detect_stl_patterns(source: &str) -> (r: Vec<StlOccurrence>)
    ensures
        occ_views(r@) == occurrences_upto(lines_spec(source@), lines_spec(source@).len() as int),
{
    let mut pats: Vec<String> = Vec::new();
    let mut i: usize = 0;
    while i < 29
        invariant
            i <= 29,
            pats@.len() == i,
            forall|j: int| 0 <= j < i ==> (#[trigger] pats@[j])@ == stl_pattern(j),
        decreases 29 - i,
    {
        pats.push(stl_pattern_exec(i));
        i = i + 1;
    }
    let ls = lines(source);
    let ghost lv = views(ls@);
    let mut out: Vec<StlOccurrence> = Vec::new();
    let mut li: usize = 0;
    while li < ls.len()
        invariant
            li <= ls@.len(),
            lv == views(ls@),
            lv == lines_spec(source@),
            pats@.len() == 29,
            forall|j: int| 0 <= j < 29 ==> (#[trigger] pats@[j])@ == stl_pattern(j),
            occ_views(out@) == occurrences_upto(lv, li as int),
        decreases ls@.len() - li,
    {
        let line = ls[li].as_str();
        assert(line@ == lv[li as int]);
        let trimmed = trim(line);
        let ghost before = occ_views(out@);
        if starts_with(trimmed.as_str(), "//") || starts_with(trimmed.as_str(), "*") {
            assert(line_occurrences(lv[li as int], li as int) =~= Seq::empty());
            assert(occ_views(out@) =~= before + line_occurrences(lv[li as int], li as int));
        } else {
            let mut claimed: Vec<(usize, usize)> = Vec::new();
            let ghost mut found: Seq<int> = Seq::empty();
            let mut mi: usize = 0;
            while mi < 29
                invariant
                    mi <= 29,
                    li < ls@.len(),
                    li < usize::MAX,
                    line@ == lv[li as int],
                    trimmed@ == trim_spec(line@),
                    !is_comment_line(trimmed@),
                    pats@.len() == 29,
                    forall|j: int| 0 <= j < 29 ==> (#[trigger] pats@[j])@ == stl_pattern(j),
                    (claimed@.map_values(|p: (usize, usize)| (p.0 as int, p.1 as int)), found)
                        == scan_line(line@, mi as int),
                    occ_views(out@) == before + found.map_values(
                        |i: int| occurrence_of(trimmed@, li + 1, i),
                    ),
                decreases 29 - mi,
            {
                let ms = captures_all(pats[mi].as_str(), line);
                let ghost mv = matches_view(ms@);
                let ghost c0 = claimed@.map_values(|p: (usize, usize)| (p.0 as int, p.1 as int));
                let ghost f0 = found;
                let m = mapping_entry_exec(mi);
                let mut k: usize = 0;
                while k < ms.len()
                    invariant
                        k <= ms@.len(),
                        mi < 29,
                        li < ls@.len(),
                        li < usize::MAX,
                        mv == matches_view(ms@),
                        mapping_view(m) == mapping_entry(mi as int),
                        (claimed@.map_values(|p: (usize, usize)| (p.0 as int, p.1 as int)), found)
                            == claim_matches(c0, f0, mv.take(k as int), mi as int),
                        occ_views(out@) == before + found.map_values(
                            |i: int| occurrence_of(trimmed@, li + 1, i),
                        ),
                    decreases ms@.len() - k,
                {
                    assert(mv.take(k + 1).drop_last() =~= mv.take(k as int));
                    assert(mv[k as int] == match_view(ms@[k as int]));
                    let s = start_of(&ms[k]);
                    let e = end_of(&ms[k]);
                    if !is_covered(&claimed, s, e) {
                        let ghost old_c = claimed@.map_values(
                            |p: (usize, usize)| (p.0 as int, p.1 as int),
                        );
                        let ghost old_out = occ_views(out@);
                        claimed.push((s, e));
                        assert(claimed@.map_values(|p: (usize, usize)| (p.0 as int, p.1 as int))
                            =~= old_c.push((s as int, e as int)));
                        let occ = StlOccurrence {
                            context: copy_str(trimmed.as_str()),
                            line: li + 1,
                            cpp_type: copy_str(m.cpp_qualified),
                            rust_type: copy_str(m.rust_type),
                            category: m.category,
                            note: match m.note {
                                Some(n) => Some(copy_str(n)),
                                None => None,
                            },
                        };
                        out.push(occ);
                        proof {
                            found = found.push(mi as int);
                        }
                        assert(occ_view(occ) == occurrence_of(trimmed@, li + 1, mi as int));
                        assert(occ_views(out@) =~= old_out.push(occ_view(occ)));
                        assert(found.map_values(|i: int| occurrence_of(trimmed@, li + 1, i))
                            =~= found.drop_last().map_values(
                            |i: int| occurrence_of(trimmed@, li + 1, i),
                        ).push(occurrence_of(trimmed@, li + 1, mi as int)));
                    }
                    k = k + 1;
                }
                assert(mv.take(ms@.len() as int) =~= mv);
                mi = mi + 1;
            }
            assert(occ_views(out@) =~= before + line_occurrences(lv[li as int], li as int));
        }
        li = li + 1;
    }
    out
}


/// The plain value of an occurrence.
pub type OccView = (Seq<char>, int, Seq<char>, Seq<char>, StlCategory, Option<Seq<char>>);

/// Whether occurrence `i` is the first of its C++ type.
pub open spec fn first_of_type(o: Seq<OccView>, i: int) -> bool {
    forall|j: int| 0 <= j < i ==> o[j].2 != o[i].2
}

/// The indices of the first occurrence of each C++ type, in order.
pub open spec fn representatives(o: Seq<OccView>) -> Seq<int>
    decreases o.len(),
{
    if o.len() == 0 {
        Seq::empty()
    } else {
        let r = representatives(o.drop_last());
        if first_of_type(o, o.len() - 1) {
            r.push(o.len() - 1)
        } else {
            r
        }
    }
}

/// The number of occurrences of C++ type `t`.
pub open spec fn type_count(o: Seq<OccView>, t: Seq<char>) -> nat
    decreases o.len(),
{
    if o.len() == 0 {
        0
    } else {
        type_count(o.drop_last(), t) + if o.last().2 == t {
            1nat
        } else {
            0nat
        }
    }
}

/// A note, or a dash when there is none.
pub open spec fn note_text(n: Option<Seq<char>>) -> Seq<char> {
    match n {
        Some(x) => x,
        None => "—"@,
    }
}

/// The table row for representative occurrence `i`.
pub open spec fn hint_row(o: Seq<OccView>, i: int) -> Seq<char> {
    "| `"@ + o[i].2 + "` | `"@ + o[i].3 + "` | "@ + decimal(type_count(o, o[i].2)) + " | "@
        + note_text(o[i].5) + " |\n"@
}

/// The rows of the representatives `rs` in category `cat`, in order.
pub open spec fn rows_in(o: Seq<OccView>, rs: Seq<int>, cat: StlCategory) -> Seq<char>
    decreases rs.len(),
{
    if rs.len() == 0 {
        Seq::empty()
    } else {
        rows_in(o, rs.drop_last(), cat) + if o[rs.last()].4 == cat {
            hint_row(o, rs.last())
        } else {
            Seq::empty()
        }
    }
}

/// Whether some representative is in category `cat`.
pub open spec fn has_category(o: Seq<OccView>, rs: Seq<int>, cat: StlCategory) -> bool {
    exists|k: int| 0 <= k < rs.len() && o[rs[k]].4 == cat
}

/// The categories in the order of the hint, with their section titles.
pub open spec fn category_section(k: int) -> (StlCategory, Seq<char>) {
    if k == 0 {
        (StlCategory::Sequence, "Sequence Containers"@)
    } else if k == 1 {
        (StlCategory::Ordered, "Ordered Associative Containers"@)
    } else if k == 2 {
        (StlCategory::Unordered, "Unordered Associative Containers"@)
    } else if k == 3 {
        (StlCategory::Adapter, "Container Adapters"@)
    } else if k == 4 {
        (StlCategory::SmartPointer, "Smart Pointers"@)
    } else if k == 5 {
        (StlCategory::String, "String Types"@)
    } else {
        (StlCategory::Utility, "Utility Types"@)
    }
}

fn category_section_exec(k: usize) -> (r: (StlCategory, &'static str))
    requires
        k < 7,
    ensures
        (r.0, r.1@) == category_section(k as int),
{
    if k == 0 {
        (StlCategory::Sequence, "Sequence Containers")
    } else if k == 1 {
        (StlCategory::Ordered, "Ordered Associative Containers")
    } else if k == 2 {
        (StlCategory::Unordered, "Unordered Associative Containers")
    } else if k == 3 {
        (StlCategory::Adapter, "Container Adapters")
    } else if k == 4 {
        (StlCategory::SmartPointer, "Smart Pointers")
    } else if k == 5 {
        (StlCategory::String, "String Types")
    } else {
        (StlCategory::Utility, "Utility Types")
    }
}

/// The section of the hint for the `k`-th category (empty when no representative is in it).
pub open spec fn section(o: Seq<OccView>, rs: Seq<int>, k: int) -> Seq<char> {
    let (cat, title) = category_section(k);
    if has_category(o, rs, cat) {
        "### "@ + title + "\n\n"@ + "| C++ Type | Rust Type | Occurrences | Note |\n"@
            + "|---|---|---|---|\n"@ + rows_in(o, rs, cat) + "\n"@
    } else {
        Seq::empty()
    }
}

/// The sections of the first `n` categories.
pub open spec fn sections_upto(o: Seq<OccView>, rs: Seq<int>, n: int) -> Seq<char>
    decreases n,
{
    if n <= 0 {
        Seq::empty()
    } else {
        sections_upto(o, rs, n - 1) + section(o, rs, n - 1)
    }
}

/// The `use` lines, in lexicographic order.
pub open spec fn use_line(u: int) -> Seq<char> {
    if u == 0 {
        "use std::collections::BTreeMap;"@
    } else if u == 1 {
        "use std::collections::BTreeSet;"@
    } else if u == 2 {
        "use std::collections::BinaryHeap;"@
    } else if u == 3 {
        "use std::collections::HashMap;"@
    } else if u == 4 {
        "use std::collections::HashSet;"@
    } else if u == 5 {
        "use std::collections::LinkedList;"@
    } else if u == 6 {
        "use std::collections::VecDeque;"@
    } else {
        "use std::sync::{Arc, Weak};"@
    }
}

fn use_line_exec(u: usize) -> (r: &'static str)
    requires
        u < 8,
    ensures
        r@ == use_line(u as int),
{
    if u == 0 {
        "use std::collections::BTreeMap;"
    } else if u == 1 {
        "use std::collections::BTreeSet;"
    } else if u == 2 {
        "use std::collections::BinaryHeap;"
    } else if u == 3 {
        "use std::collections::HashMap;"
    } else if u == 4 {
        "use std::collections::HashSet;"
    } else if u == 5 {
        "use std::collections::LinkedList;"
    } else if u == 6 {
        "use std::collections::VecDeque;"
    } else {
        "use std::sync::{Arc, Weak};"
    }
}

/// The `use` line (by index in `use_line`) that C++ type `t` calls for, if any.
pub open spec fn use_for_type(t: Seq<char>) -> int {
    if t == "std::map"@ || t == "std::multimap"@ {
        0
    } else if t == "std::set"@ || t == "std::multiset"@ {
        1
    } else if t == "std::priority_queue"@ {
        2
    } else if t == "std::unordered_map"@ || t == "std::unordered_multimap"@ || t
        == "std::unordered_multiset"@ {
        3
    } else if t == "std::unordered_set"@ {
        4
    } else if t == "std::list"@ || t == "std::forward_list"@ {
        5
    } else if t == "std::deque"@ || t == "std::queue"@ {
        6
    } else if t == "std::shared_ptr"@ || t == "std::weak_ptr"@ {
        7
    } else {
        8
    }
}

fn use_for_type_exec(t: &str) -> (u: usize)
    ensures
        u == use_for_type(t@),
{
    if str_eq(t, "std::map") || str_eq(t, "std::multimap") {
        0
    } else if str_eq(t, "std::set") || str_eq(t, "std::multiset") {
        1
    } else if str_eq(t, "std::priority_queue") {
        2
    } else if str_eq(t, "std::unordered_map") || str_eq(t, "std::unordered_multimap") || str_eq(
        t,
        "std::unordered_multiset",
    ) {
        3
    } else if str_eq(t, "std::unordered_set") {
        4
    } else if str_eq(t, "std::list") || str_eq(t, "std::forward_list") {
        5
    } else if str_eq(t, "std::deque") || str_eq(t, "std::queue") {
        6
    } else if str_eq(t, "std::shared_ptr") || str_eq(t, "std::weak_ptr") {
        7
    } else {
        8
    }
}

/// Whether some occurrence calls for `use` line `u`.
pub open spec fn needs_use(o: Seq<OccView>, u: int) -> bool {
    exists|j: int| 0 <= j < o.len() && use_for_type(o[j].2) == u
}

/// The needed `use` lines among the first `n`, each followed by a newline.
pub open spec fn uses_upto(o: Seq<OccView>, n: int) -> Seq<char>
    decreases n,
{
    if n <= 0 {
        Seq::empty()
    } else {
        uses_upto(o, n - 1) + if needs_use(o, n - 1) {
            use_line(n - 1) + "\n"@
        } else {
            Seq::empty()
        }
    }
}

/// The block of required `use` statements (empty when none is needed).
pub open spec fn uses_block(o: Seq<OccView>) -> Seq<char> {
    if exists|u: int| 0 <= u < 8 && needs_use(o, u) {
        "### Required `use` statements\n\n```rust\n"@ + uses_upto(o, 8) + "```\n\n"@
    } else {
        Seq::empty()
    }
}

/// The Markdown hint block for a list of occurrences.
pub open spec fn stl_hints_spec(o: Seq<OccView>) -> Seq<char> {
    if o.len() == 0 {
        Seq::empty()
    } else {
        let rs = representatives(o);
        "## STL Container / Type Mapping Hints\n\n"@ + "Detected "@ + decimal(o.len())
            + " STL type usage(s) across "@ + decimal(rs.len())
            + " distinct type(s). Apply these Rust equivalents:\n\n"@ + sections_upto(o, rs, 7)
            + uses_block(o)
    }
}

proof fn lemma_representatives_bounds(o: Seq<OccView>)
    ensures
        forall|k: int|
            0 <= k < representatives(o).len() ==> 0 <= #[trigger] representatives(o)[k] < o.len(),
        representatives(o).len() <= o.len(),
    decreases o.len(),
{
    if o.len() > 0 {
        lemma_representatives_bounds(o.drop_last());
    }
}

proof fn lemma_type_count_bound(o: Seq<OccView>, t: Seq<char>)
    ensures
        type_count(o, t) <= o.len(),
    decreases o.len(),
{
    if o.len() > 0 {
        lemma_type_count_bound(o.drop_last(), t);
    }
}

/// Whether occurrence `i` is the first of its C++ type.
fn is_first_of_type(occs: &[StlOccurrence], i: usize) -> (r: bool)
    requires
        i < occs@.len(),
    ensures
        r == first_of_type(occ_views(occs@), i as int),
{
    let ghost o = occ_views(occs@);
    let mut j: usize = 0;
    while j < i
        invariant
            i < occs@.len(),
            j <= i,
            o == occ_views(occs@),
            forall|k: int| 0 <= k < j ==> o[k].2 != o[i as int].2,
        decreases i - j,
    {
        if str_eq(occs[j].cpp_type.as_str(), occs[i].cpp_type.as_str()) {
            assert(o[j as int].2 == o[i as int].2);
            return false;
        }
        j = j + 1;
    }
    true
}

/// The number of occurrences of C++ type `t`.
fn count_type(occs: &[StlOccurrence], t: &str) -> (n: usize)
    ensures
        n == type_count(occ_views(occs@), t@),
{
    let ghost o = occ_views(occs@);
    let mut n: usize = 0;
    let mut j: usize = 0;
    while j < occs.len()
        invariant
            j <= occs@.len(),
            o == occ_views(occs@),
            n == type_count(o.take(j as int), t@),
            n <= j,
        decreases occs@.len() - j,
    {
        assert(o.take(j + 1).drop_last() =~= o.take(j as int));
        if str_eq(occs[j].cpp_type.as_str(), t) {
            n = n + 1;
        }
        j = j + 1;
    }
    assert(o.take(occs@.len() as int) =~= o);
    n
}

/// Appends the table row for occurrence `i` to `hint`.
fn push_row(hint: &mut String, occs: &[StlOccurrence], i: usize)
    requires
        i < occs@.len(),
    ensures
        final(hint)@ == old(hint)@ + hint_row(occ_views(occs@), i as int),
{
    let o = &occs[i];
    push_str(hint, "| `");
    push_str(hint, o.cpp_type.as_str());
    push_str(hint, "` | `");
    push_str(hint, o.rust_type.as_str());
    push_str(hint, "` | ");
    push_decimal(hint, count_type(occs, o.cpp_type.as_str()));
    push_str(hint, " | ");
    match &o.note {
        Some(n) => push_str(hint, n.as_str()),
        None => push_str(hint, "—"),
    }
    push_str(hint, " |\n");
    assert(hint@ =~= old(hint)@ + hint_row(occ_views(occs@), i as int));
}

/// Generates the Markdown hint block for `occurrences`: a header, the number of uses and of
/// distinct types, then per category (Sequence, Ordered, Unordered, Adapter, SmartPointer,
/// String, Utility) a table with one row per distinct type in order of first appearance giving
/// its Rust type, number of uses and note, then the `use` lines the types need, in
/// lexicographic order. Empty for no occurrences.
pub fn generate_stl_hints(occurrences: &[StlOccurrence]) -> (r: String)
    ensures
        r@ == stl_hints_spec(occ_views(occurrences@)),
{
    let ghost o = occ_views(occurrences@);
    if occurrences.len() == 0 {
        return String::new();
    }
    // Representatives: the first occurrence of each type.
    let mut reps: Vec<usize> = Vec::new();
    let mut i: usize = 0;
    while i < occurrences.len()
        invariant
            i <= occurrences@.len(),
            o == occ_views(occurrences@),
            reps@.map_values(|x: usize| x as int) == representatives(o.take(i as int)),
        decreases occurrences@.len() - i,
    {
        assert(o.take(i + 1).drop_last() =~= o.take(i as int));
        let first = is_first_of_type(occurrences, i);
        assert(first == first_of_type(o.take(i + 1), i as int)) by {
            let t = o.take(i + 1);
            assert forall|j: int| 0 <= j <= i implies t[j] == o[j] by {}
        }
        if first {
            let ghost old_r = reps@.map_values(|x: usize| x as int);
            reps.push(i);
            assert(reps@.map_values(|x: usize| x as int) =~= old_r.push(i as int));
        }
        i = i + 1;
    }
    assert(o.take(occurrences@.len() as int) =~= o);
    let ghost rs = representatives(o);
    proof {
        lemma_representatives_bounds(o);
    }
    let mut hint = copy_str("## STL Container / Type Mapping Hints\n\n");
    push_str(&mut hint, "Detected ");
    push_decimal(&mut hint, occurrences.len());
    push_str(&mut hint, " STL type usage(s) across ");
    push_decimal(&mut hint, reps.len());
    push_str(&mut hint, " distinct type(s). Apply these Rust equivalents:\n\n");
    let ghost head = hint@;
    let mut k: usize = 0;
    while k < 7
        invariant
            k <= 7,
            o == occ_views(occurrences@),
            reps@.map_values(|x: usize| x as int) == rs,
            rs == representatives(o),
            forall|q: int| 0 <= q < rs.len() ==> 0 <= #[trigger] rs[q] < o.len(),
            hint@ == head + sections_upto(o, rs, k as int),
        decreases 7 - k,
    {
        let (cat, title) = category_section_exec(k);
        let mut rows = String::new();
        let mut any = false;
        let mut q: usize = 0;
        while q < reps.len()
            invariant
                q <= reps@.len(),
                o == occ_views(occurrences@),
                reps@.map_values(|x: usize| x as int) == rs,
                forall|q: int| 0 <= q < rs.len() ==> 0 <= #[trigger] rs[q] < o.len(),
                rows@ == rows_in(o, rs.take(q as int), cat),
                any == has_category(o, rs.take(q as int), cat),
            decreases reps@.len() - q,
        {
            assert(rs.take(q + 1).drop_last() =~= rs.take(q as int));
            let idx = reps[q];
            assert(rs[q as int] == idx);
            if occurrences[idx].category == cat {
                push_row(&mut rows, occurrences, idx);
                any = true;
                assert(has_category(o, rs.take(q + 1), cat)) by {
                    assert(rs.take(q + 1)[q as int] == idx);
                }
            } else {
                assert(has_category(o, rs.take(q + 1), cat) == has_category(
                    o,
                    rs.take(q as int),
                    cat,
                )) by {
                    if has_category(o, rs.take(q + 1), cat) {
                        let w = choose|w: int|
                            0 <= w < rs.take(q + 1).len() && o[#[trigger] rs.take(q + 1)[w]].4 == cat;
                        assert(w < q);
                        assert(rs.take(q as int)[w] == rs.take(q + 1)[w]);
                    }
                    if has_category(o, rs.take(q as int), cat) {
                        let w = choose|w: int|
                            0 <= w < rs.take(q as int).len() && o[#[trigger] rs.take(q as int)[w]].4
                                == cat;
                        assert(rs.take(q as int)[w] == rs.take(q + 1)[w]);
                    }
                }
            }
            q = q + 1;
        }
        assert(rs.take(reps@.len() as int) =~= rs);
        if any {
            push_str(&mut hint, "### ");
            push_str(&mut hint, title);
            push_str(&mut hint, "\n\n");
            push_str(&mut hint, "| C++ Type | Rust Type | Occurrences | Note |\n");
            push_str(&mut hint, "|---|---|---|---|\n");
            push_str(&mut hint, rows.as_str());
            push_str(&mut hint, "\n");
        }
        assert(hint@ =~= head + sections_upto(o, rs, k + 1));
        k = k + 1;
    }
    // Required `use` lines.
    let mut needed: Vec<bool> = vec![false, false, false, false, false, false, false, false];
    let mut j: usize = 0;
    while j < occurrences.len()
        invariant
            j <= occurrences@.len(),
            o == occ_views(occurrences@),
            needed@.len() == 8,
            forall|u: int|
                0 <= u < 8 ==> (#[trigger] needed@[u] <==> needs_use(o.take(j as int), u)),
        decreases occurrences@.len() - j,
    {
        let u = use_for_type_exec(occurrences[j].cpp_type.as_str());
        assert(u as int == use_for_type(o[j as int].2));
        if u < 8 {
            needed.set(u, true);
        }
        assert forall|w: int| 0 <= w < 8 implies (#[trigger] needed@[w] <==> needs_use(
            o.take(j + 1),
            w,
        )) by {
            if needs_use(o.take(j + 1), w) {
                let x = choose|x: int|
                    0 <= x < o.take(j + 1).len() && use_for_type(#[trigger] o.take(j + 1)[x].2) == w;
                if x < j {
                    assert(o.take(j as int)[x] == o.take(j + 1)[x]);
                }
            }
            if needs_use(o.take(j as int), w) {
                let x = choose|x: int|
                    0 <= x < o.take(j as int).len() && use_for_type(#[trigger] o.take(j as int)[x].2)
                        == w;
                assert(o.take(j as int)[x] == o.take(j + 1)[x]);
            }
            if w == u {
                assert(o.take(j + 1)[j as int] == o[j as int]);
            }
        }
        j = j + 1;
    }
    assert(o.take(occurrences@.len() as int) =~= o);
    let mut uses = String::new();
    let mut any_use = false;
    let mut u: usize = 0;
    while u < 8
        invariant
            u <= 8,
            needed@.len() == 8,
            forall|w: int| 0 <= w < 8 ==> (#[trigger] needed@[w] <==> needs_use(o, w)),
            uses@ == uses_upto(o, u as int),
            any_use == exists|w: int| 0 <= w < u && needs_use(o, w),
        decreases 8 - u,
    {
        if needed[u] {
            push_str(&mut uses, use_line_exec(u));
            push_str(&mut uses, "\n");
            any_use = true;
        }
        assert(uses@ =~= uses_upto(o, u + 1));
        u = u + 1;
    }
    if any_use {
        push_str(&mut hint, "### Required `use` statements\n\n```rust\n");
        push_str(&mut hint, uses.as_str());
        push_str(&mut hint, "```\n\n");
    }
    assert(hint@ =~= stl_hints_spec(o));
    hint
}

/// The number of occurrences in category `cat`.
pub open spec fn category_count(o: Seq<OccView>, cat: StlCategory) -> nat
    decreases o.len(),
{
    if o.len() == 0 {
        0
    } else {
        category_count(o.drop_last(), cat) + if o.last().4 == cat {
            1nat
        } else {
            0nat
        }
    }
}

/// Every occurrence is counted in exactly one category.
proof fn lemma_category_counts_total(o: Seq<OccView>)
    ensures
        category_count(o, StlCategory::Sequence) + category_count(o, StlCategory::Ordered)
            + category_count(o, StlCategory::Unordered) + category_count(o, StlCategory::Adapter)
            + category_count(o, StlCategory::SmartPointer) + category_count(o, StlCategory::String)
            + category_count(o, StlCategory::Utility) == o.len(),
    decreases o.len(),
{
    if o.len() > 0 {
        lemma_category_counts_total(o.drop_last());
    }
}

fn count_category(occs: &[StlOccurrence], cat: StlCategory) -> (n: usize)
    ensures
        n == category_count(occ_views(occs@), cat),
{
    let ghost o = occ_views(occs@);
    let mut n: usize = 0;
    let mut j: usize = 0;
    while j < occs.len()
        invariant
            j <= occs@.len(),
            o == occ_views(occs@),
            n == category_count(o.take(j as int), cat),
            n <= j,
        decreases occs@.len() - j,
    {
        assert(o.take(j + 1).drop_last() =~= o.take(j as int));
        if occs[j].category == cat {
            n = n + 1;
        }
        j = j + 1;
    }
    assert(o.take(occs@.len() as int) =~= o);
    n
}

/// The numbers of occurrences per category: (sequence, ordered, unordered, adapter, smart
/// pointer, string, utility).
pub fn count_by_category(occurrences: &[StlOccurrence]) -> (r: (
    usize,
    usize,
    usize,
    usize,
    usize,
    usize,
    usize,
))
    ensures
        r.0 == category_count(occ_views(occurrences@), StlCategory::Sequence),
        r.1 == category_count(occ_views(occurrences@), StlCategory::Ordered),
        r.2 == category_count(occ_views(occurrences@), StlCategory::Unordered),
        r.3 == category_count(occ_views(occurrences@), StlCategory::Adapter),
        r.4 == category_count(occ_views(occurrences@), StlCategory::SmartPointer),
        r.5 == category_count(occ_views(occurrences@), StlCategory::String),
        r.6 == category_count(occ_views(occurrences@), StlCategory::Utility),
        r.0 + r.1 + r.2 + r.3 + r.4 + r.5 + r.6 == occurrences@.len(),
{
    proof {
        lemma_category_counts_total(occ_views(occurrences@));
    }
    (
        count_category(occurrences, StlCategory::Sequence),
        count_category(occurrences, StlCategory::Ordered),
        count_category(occurrences, StlCategory::Unordered),
        count_category(occurrences, StlCategory::Adapter),
        count_category(occurrences, StlCategory::SmartPointer),
        count_category(occurrences, StlCategory::String),
        count_category(occurrences, StlCategory::Utility),
    )
}


/// Every entry of the mapping table is qualified as `std::` followed by its bare name.
pub proof fn law_mapping_qualified_names()
    ensures
        forall|i: int| 0 <= i < mapping_count() ==> #[trigger] mapping_entry(i).1 == "std::"@ + mapping_entry(i).0,
{
    reveal_strlit("std::");
    reveal_strlit("vector");
    reveal_strlit("std::vector");
    assert(mapping_entry(0).1 =~= "std::"@ + mapping_entry(0).0);
    reveal_strlit("array");
    reveal_strlit("std::array");
    assert(mapping_entry(1).1 =~= "std::"@ + mapping_entry(1).0);
    reveal_strlit("deque");
    reveal_strlit("std::deque");
    assert(mapping_entry(2).1 =~= "std::"@ + mapping_entry(2).0);
    reveal_strlit("list");
    reveal_strlit("std::list");
    assert(mapping_entry(3).1 =~= "std::"@ + mapping_entry(3).0);
    reveal_strlit("forward_list");
    reveal_strlit("std::forward_list");
    assert(mapping_entry(4).1 =~= "std::"@ + mapping_entry(4).0);
    reveal_strlit("map");
    reveal_strlit("std::map");
    assert(mapping_entry(5).1 =~= "std::"@ + mapping_entry(5).0);
    reveal_strlit("multimap");
    reveal_strlit("std::multimap");
    assert(mapping_entry(6).1 =~= "std::"@ + mapping_entry(6).0);
    reveal_strlit("set");
    reveal_strlit("std::set");
    assert(mapping_entry(7).1 =~= "std::"@ + mapping_entry(7).0);
    reveal_strlit("multiset");
    reveal_strlit("std::multiset");
    assert(mapping_entry(8).1 =~= "std::"@ + mapping_entry(8).0);
    reveal_strlit("unordered_map");
    reveal_strlit("std::unordered_map");
    assert(mapping_entry(9).1 =~= "std::"@ + mapping_entry(9).0);
    reveal_strlit("unordered_multimap");
    reveal_strlit("std::unordered_multimap");
    assert(mapping_entry(10).1 =~= "std::"@ + mapping_entry(10).0);
    reveal_strlit("unordered_set");
    reveal_strlit("std::unordered_set");
    assert(mapping_entry(11).1 =~= "std::"@ + mapping_entry(11).0);
    reveal_strlit("unordered_multiset");
    reveal_strlit("std::unordered_multiset");
    assert(mapping_entry(12).1 =~= "std::"@ + mapping_entry(12).0);
    reveal_strlit("stack");
    reveal_strlit("std::stack");
    assert(mapping_entry(13).1 =~= "std::"@ + mapping_entry(13).0);
    reveal_strlit("queue");
    reveal_strlit("std::queue");
    assert(mapping_entry(14).1 =~= "std::"@ + mapping_entry(14).0);
    reveal_strlit("priority_queue");
    reveal_strlit("std::priority_queue");
    assert(mapping_entry(15).1 =~= "std::"@ + mapping_entry(15).0);
    reveal_strlit("unique_ptr");
    reveal_strlit("std::unique_ptr");
    assert(mapping_entry(16).1 =~= "std::"@ + mapping_entry(16).0);
    reveal_strlit("shared_ptr");
    reveal_strlit("std::shared_ptr");
    assert(mapping_entry(17).1 =~= "std::"@ + mapping_entry(17).0);
    reveal_strlit("weak_ptr");
    reveal_strlit("std::weak_ptr");
    assert(mapping_entry(18).1 =~= "std::"@ + mapping_entry(18).0);
    reveal_strlit("string");
    reveal_strlit("std::string");
    assert(mapping_entry(19).1 =~= "std::"@ + mapping_entry(19).0);
    reveal_strlit("string_view");
    reveal_strlit("std::string_view");
    assert(mapping_entry(20).1 =~= "std::"@ + mapping_entry(20).0);
    reveal_strlit("wstring");
    reveal_strlit("std::wstring");
    assert(mapping_entry(21).1 =~= "std::"@ + mapping_entry(21).0);
    reveal_strlit("optional");
    reveal_strlit("std::optional");
    assert(mapping_entry(22).1 =~= "std::"@ + mapping_entry(22).0);
    reveal_strlit("variant");
    reveal_strlit("std::variant");
    assert(mapping_entry(23).1 =~= "std::"@ + mapping_entry(23).0);
    reveal_strlit("tuple");
    reveal_strlit("std::tuple");
    assert(mapping_entry(24).1 =~= "std::"@ + mapping_entry(24).0);
    reveal_strlit("pair");
    reveal_strlit("std::pair");
    assert(mapping_entry(25).1 =~= "std::"@ + mapping_entry(25).0);
    reveal_strlit("bitset");
    reveal_strlit("std::bitset");
    assert(mapping_entry(26).1 =~= "std::"@ + mapping_entry(26).0);
    reveal_strlit("span");
    reveal_strlit("std::span");
    assert(mapping_entry(27).1 =~= "std::"@ + mapping_entry(27).0);
    reveal_strlit("function");
    reveal_strlit("std::function");
    assert(mapping_entry(28).1 =~= "std::"@ + mapping_entry(28).0);
    assert forall|i: int| 0 <= i < mapping_count() implies #[trigger] mapping_entry(i).1 == "std::"@ + mapping_entry(i).0 by {
        assert(0 <= i < 29);
    }
}

/// The mapping table has at least 20 entries and every category has one.
pub proof fn law_mapping_table_covers_categories(cat: StlCategory)
    ensures
        mapping_count() >= 20,
        exists|i: int| 0 <= i < mapping_count() && #[trigger] mapping_entry(i).3 == cat,
{
    match cat {
        StlCategory::Sequence => assert(mapping_entry(0).3 == cat),
        StlCategory::Ordered => assert(mapping_entry(5).3 == cat),
        StlCategory::Unordered => assert(mapping_entry(9).3 == cat),
        StlCategory::Adapter => assert(mapping_entry(13).3 == cat),
        StlCategory::SmartPointer => assert(mapping_entry(16).3 == cat),
        StlCategory::String => assert(mapping_entry(19).3 == cat),
        StlCategory::Utility => assert(mapping_entry(22).3 == cat),
    }
}

} // verus!
