//! The prompts that ask a language model to convert C/C++ code to Rust, and the extraction of
//! Rust code from its reply.
use vstd::prelude::*;
use vstd::string::*;

use crate::patterns::{captures_all, group_text, match_view, matches_view, regex_captures, text_of, Match};
use crate::text::{copy_str, opt_view, join, join_spec, push_str, trim, trim_spec, views};
use crate::types::{
    language_name, CppBase, CppClass, CppField, CppFile, CppFunction, CppParam, CppStruct,
    Language, Visibility,
};

verus! {

// ---------------------------------------------------------------------------
// A map from strings to strings that keeps its insertion order
// ---------------------------------------------------------------------------

/// Whether no key occurs twice among `ps`.
pub open spec fn keys_distinct(ps: Seq<(Seq<char>, Seq<char>)>) -> bool {
    forall|i: int, j: int| 0 <= i < j < ps.len() ==> #[trigger] ps[i].0 != #[trigger] ps[j].0
}

/// The position of key `k` among `ps`, if it occurs.
pub open spec fn key_index(ps: Seq<(Seq<char>, Seq<char>)>, k: Seq<char>) -> Option<int> {
    if exists|i: int| 0 <= i < ps.len() && ps[i].0 == k {
        Some(choose|i: int| 0 <= i < ps.len() && ps[i].0 == k)
    } else {
        None
    }
}

/// The value stored under `k` among `ps`, if any.
pub open spec fn lookup(ps: Seq<(Seq<char>, Seq<char>)>, k: Seq<char>) -> Option<Seq<char>> {
    match key_index(ps, k) {
        Some(i) => Some(ps[i].1),
        None => None,
    }
}

/// The pairs after storing `v` under `k`: the value of an existing key is replaced in place,
/// a new key goes last.
pub open spec fn insert_spec(ps: Seq<(Seq<char>, Seq<char>)>, k: Seq<char>, v: Seq<char>) -> Seq<
    (Seq<char>, Seq<char>),
> {
    match key_index(ps, k) {
        Some(i) => ps.update(i, (k, v)),
        None => ps.push((k, v)),
    }
}

/// A map from strings to strings, each key stored once, listed in the order in which the keys
/// were first inserted.
pub struct StringMap {
    entries: Vec<(String, String)>,
}

impl StringMap {
    /// The key/value pairs, in order.
    pub closed spec fn pairs(&self) -> Seq<(Seq<char>, Seq<char>)> {
        self.entries@.map_values(|e: (String, String)| (e.0@, e.1@))
    }

    #[verifier::type_invariant]
    spec fn well_formed(&self) -> bool {
        keys_distinct(self.pairs())
    }

    /// An empty map.
    pub fn new() -> (r: StringMap)
        ensures
            r.pairs() == Seq::<(Seq<char>, Seq<char>)>::empty(),
    {
        let r = StringMap { entries: Vec::new() };
        assert(r.pairs() =~= Seq::<(Seq<char>, Seq<char>)>::empty());
        r
    }

    /// Whether the map holds no pair.
    pub fn is_empty(&self) -> (r: bool)
        ensures
            r == (self.pairs().len() == 0),
    {
        self.entries.len() == 0
    }

    /// The number of pairs.
    pub fn len(&self) -> (r: usize)
        ensures
            r == self.pairs().len(),
    {
        self.entries.len()
    }

    /// The `i`-th pair.
    pub fn entry(&self, i: usize) -> (r: (&str, &str))
        requires
            i < self.pairs().len(),
        ensures
            (r.0@, r.1@) == self.pairs()[i as int],
    {
        let e = &self.entries[i];
        (e.0.as_str(), e.1.as_str())
    }

    fn position(&self, key: &str) -> (r: Option<usize>)
        ensures
            match r {
                Some(i) => i < self.pairs().len() && self.pairs()[i as int].0 == key@
                    && key_index(self.pairs(), key@) == Some(i as int),
                None => key_index(self.pairs(), key@) is None,
            },
    {
        proof {
            use_type_invariant(self);
        }
        let ghost ps = self.pairs();
        let mut i: usize = 0;
        while i < self.entries.len()
            invariant
                ps == self.pairs(),
                keys_distinct(ps),
                i <= ps.len(),
                ps.len() == self.entries@.len(),
                forall|j: int| 0 <= j < i ==> ps[j].0 != key@,
            decreases ps.len() - i,
        {
            assert(ps[i as int] == (self.entries@[i as int].0@, self.entries@[i as int].1@));
            if crate::text::str_eq(self.entries[i].0.as_str(), key) {
                let ghost c = choose|j: int| 0 <= j < ps.len() && ps[j].0 == key@;
                assert(c == i) by {
                    if c < i {
                    } else if c > i {
                        assert(ps[i as int].0 != ps[c].0);
                    }
                }
                return Some(i);
            }
            i = i + 1;
        }
        None
    }

    /// The value stored under `key`, if any.
    pub fn get(&self, key: &str) -> (r: Option<&str>)
        ensures
            match r {
                Some(v) => lookup(self.pairs(), key@) == Some(v@),
                None => lookup(self.pairs(), key@) is None,
            },
    {
        match self.position(key) {
            Some(i) => Some(self.entries[i].1.as_str()),
            None => None,
        }
    }

    /// Stores `value` under `key`, and gives back the value that was stored there before.
    pub fn insert(&mut self, key: String, value: String) -> (r: Option<String>)
        ensures
            final(self).pairs() == insert_spec(old(self).pairs(), key@, value@),
            match r {
                Some(v) => lookup(old(self).pairs(), key@) == Some(v@),
                None => lookup(old(self).pairs(), key@) is None,
            },
    {
        proof {
            use_type_invariant(&*self);
        }
        let ghost ps = self.pairs();
        let pos = self.position(key.as_str());
        let mut entries: Vec<(String, String)> = Vec::new();
        std::mem::swap(&mut entries, &mut self.entries);
        let ghost ks = key@;
        let ghost vs = value@;
        proof {
            lemma_insert_distinct(ps, ks, vs);
        }
        match pos {
            Some(i) => {
                let old_entry = entries.remove(i);
                entries.insert(i, (key, value));
                assert(entries@.map_values(|e: (String, String)| (e.0@, e.1@)) =~= ps.update(
                    i as int,
                    (ks, vs),
                ));
                self.entries = entries;
                Some(old_entry.1)
            },
            None => {
                entries.push((key, value));
                assert(entries@.map_values(|e: (String, String)| (e.0@, e.1@)) =~= ps.push(
                    (ks, vs),
                ));
                self.entries = entries;
                None
            },
        }
    }
}

/// In a sequence of pairs with distinct keys, the key at position `i` is found there.
pub proof fn lemma_key_index_unique(ps: Seq<(Seq<char>, Seq<char>)>, i: int)
    requires
        keys_distinct(ps),
        0 <= i < ps.len(),
    ensures
        key_index(ps, ps[i].0) == Some(i),
{
    let k = ps[i].0;
    assert(0 <= i < ps.len() && ps[i].0 == k);
    let c = choose|j: int| 0 <= j < ps.len() && ps[j].0 == k;
    if c < i {
        assert(ps[c].0 != ps[i].0);
    } else if c > i {
        assert(ps[i].0 != ps[c].0);
    }
}

proof fn lemma_insert_distinct(ps: Seq<(Seq<char>, Seq<char>)>, k: Seq<char>, v: Seq<char>)
    requires
        keys_distinct(ps),
    ensures
        keys_distinct(insert_spec(ps, k, v)),
{
    let qs = insert_spec(ps, k, v);
    match key_index(ps, k) {
        Some(i) => {
            assert(0 <= i < ps.len() && ps[i].0 == k);
            assert forall|a: int, b: int| 0 <= a < b < qs.len() implies #[trigger] qs[a].0
                != #[trigger] qs[b].0 by {
                if a != i && b != i {
                    assert(ps[a].0 != ps[b].0);
                } else if a == i {
                    assert(ps[i].0 != ps[b].0);
                } else {
                    assert(ps[a].0 != ps[i].0);
                }
            }
        },
        None => {
            assert forall|a: int, b: int| 0 <= a < b < qs.len() implies #[trigger] qs[a].0
                != #[trigger] qs[b].0 by {
                if b < ps.len() {
                    assert(ps[a].0 != ps[b].0);
                } else {
                    assert(!(0 <= a < ps.len() && ps[a].0 == k));
                }
            }
        },
    }
}

/// Storing `v` under `k` in a map whose keys are distinct keeps them distinct; afterwards `k`
/// reads back `v`, and every other key reads back what it read before.
pub proof fn law_lookup_after_insert(
    ps: Seq<(Seq<char>, Seq<char>)>,
    k: Seq<char>,
    v: Seq<char>,
    other: Seq<char>,
)
    requires
        keys_distinct(ps),
    ensures
        keys_distinct(insert_spec(ps, k, v)),
        lookup(insert_spec(ps, k, v), k) == Some(v),
        other != k ==> lookup(insert_spec(ps, k, v), other) == lookup(ps, other),
{
    let qs = insert_spec(ps, k, v);
    lemma_insert_distinct(ps, k, v);
    let at = match key_index(ps, k) {
        Some(i) => i,
        None => ps.len() as int,
    };
    assert(qs[at].0 == k);
    lemma_key_index_unique(qs, at);
    if other != k {
        match key_index(ps, other) {
            Some(d) => {
                assert(qs[d].0 == other);
                lemma_key_index_unique(qs, d);
            },
            None => {
                assert(!exists|j: int| 0 <= j < qs.len() && qs[j].0 == other) by {
                    if exists|j: int| 0 <= j < qs.len() && qs[j].0 == other {
                        let e = choose|j: int| 0 <= j < qs.len() && qs[j].0 == other;
                        if e < ps.len() && e != at {
                            assert(ps[e].0 == other);
                        }
                    }
                }
            },
        }
    }
}/// The opening of the system prompt, before the first language name.
pub const INTRO_HEAD: &'static str = r#"You are an expert "#;

/// What stands between the two language names in the opening.
pub const INTRO_MIDDLE: &'static str = r#" to Rust conversion engineer.

Your task is to convert "#;

/// The core conversion rules, after the second language name.
pub const CORE_RULES: &'static str = r#" code into idiomatic, safe Rust code that preserves the same behavior.

## Core Conversion Rules

1. **Memory Safety First**: Avoid `unsafe` blocks unless absolutely necessary. Convert manual memory management to Rust's ownership system.
2. **Ownership & Borrowing**: Infer correct ownership patterns:
   - `malloc`/`new` allocations → `Vec`, `Box`, `String`, or stack allocation
   - `free`/`delete` → automatic RAII (drop)
   - Raw pointers → references (`&`, `&mut`) or smart pointers (`Box`, `Rc`, `Arc`)
   - Output parameters → return tuples or structs
3. **Error Handling**: Convert error codes and NULL checks to `Result<T, E>` and `Option<T>`
4. **Type Conversions**:
   - `char*` / `const char*` → `String` / `&str`
   - `int`, `long` → `i32`, `i64` (or appropriate sized types)
   - `unsigned` types → `u32`, `u64`, etc.
   - `size_t` → `usize`
   - `bool` / `_Bool` → `bool`
   - `void*` → generics or `Box<dyn Any>` (avoid if possible)
   - C arrays → `Vec<T>` or `[T; N]`
5. **Structs & Enums**: Convert C structs to Rust structs with proper derives (`Debug`, `Clone`, etc.)
6. **Collections**: Use `Vec`, `HashMap`, `HashSet` instead of manual linked lists or hash tables
7. **String Handling**: Use `String` and `&str` instead of `char*` with manual length tracking
8. **Output Format**: Return ONLY the Rust code wrapped in ```rust code blocks. Include TODO comments for anything that cannot be directly converted.
"#;

/// The rules added for C++ sources.
pub const CPP_RULES: &'static str = r#"
## C++ Specific Rules

- **Classes** → Rust structs + `impl` blocks. Use traits for polymorphism.
- **Inheritance** → Trait objects (`dyn Trait`) or enum dispatch. Prefer composition over inheritance.
- **Templates** → Rust generics with trait bounds
- **Virtual methods** → `dyn Trait` or enum dispatch
- **Operator overloading** → Implement `std::ops` traits
- **RAII** → Implement `Drop` trait where needed
- **Exceptions** → `Result<T, E>` with custom error types
- **`std::string`** → `String`
- **`std::vector`** → `Vec<T>`
- **`std::map`** → `HashMap<K, V>` or `BTreeMap<K, V>`
- **`std::unique_ptr`** → `Box<T>`
- **`std::shared_ptr`** → `Arc<T>` or `Rc<T>`
- **`std::optional`** → `Option<T>`
- **Move semantics** → Rust moves by default; explicit `Clone` where needed
- **Namespaces** → Rust modules
"#;

/// A conversion profile: a name, extra instructions, and the type and API mappings that the
/// converter is told to follow.
pub struct ConversionProfile {
    pub name: String,
    pub additional_instructions: String,
    pub api_mappings: StringMap,
    pub type_mappings: StringMap,
}

impl Default for ConversionProfile {
    /// The generic profile: no instructions and no mappings.
    fn default() -> (r: ConversionProfile)
        ensures
            r.name@ == "generic"@,
            r.additional_instructions@ == Seq::<char>::empty(),
            r.api_mappings.pairs() == Seq::<(Seq<char>, Seq<char>)>::empty(),
            r.type_mappings.pairs() == Seq::<(Seq<char>, Seq<char>)>::empty(),
    {
        ConversionProfile {
            name: copy_str("generic"),
            additional_instructions: String::new(),
            api_mappings: StringMap::new(),
            type_mappings: StringMap::new(),
        }
    }
}

/// One line per mapping, in order: ``- `from` → `to` ``.
pub open spec fn mapping_lines(ps: Seq<(Seq<char>, Seq<char>)>) -> Seq<char>
    decreases ps.len(),
{
    if ps.len() == 0 {
        Seq::empty()
    } else {
        mapping_lines(ps.drop_last()) + "- `"@ + ps.last().0 + "` → `"@ + ps.last().1 + "`\n"@
    }
}

/// A titled section listing mappings; nothing when there are none.
pub open spec fn mapping_section(title: Seq<char>, ps: Seq<(Seq<char>, Seq<char>)>) -> Seq<char> {
    if ps.len() == 0 {
        Seq::empty()
    } else {
        title + mapping_lines(ps)
    }
}

/// The system prompt: the opening and core rules for the source language, the C++ rules for
/// C++, the profile's instructions when it has any, then its type and API mappings.
pub open spec fn system_prompt_spec(p: ConversionProfile, l: Language) -> Seq<char> {
    let lang = language_name(l);
    let cpp = if l == Language::Cpp {
        CPP_RULES@
    } else {
        Seq::empty()
    };
    let extra = if p.additional_instructions@.len() > 0 {
        "\n## Profile-Specific Instructions ("@ + p.name@ + ")\n\n"@ + p.additional_instructions@
            + "\n"@
    } else {
        Seq::empty()
    };
    INTRO_HEAD@ + lang + INTRO_MIDDLE@ + lang + CORE_RULES@ + cpp + extra + mapping_section(
        "\n## Type Mappings\n\n"@,
        p.type_mappings.pairs(),
    ) + mapping_section("\n## API Mappings\n\n"@, p.api_mappings.pairs())
}

fn push_mappings(s: &mut String, m: &StringMap)
    ensures
        final(s)@ == old(s)@ + mapping_lines(m.pairs()),
{
    let ghost start = s@;
    let mut i: usize = 0;
    while i < m.len()
        invariant
            i <= m.pairs().len(),
            s@ == start + mapping_lines(m.pairs().take(i as int)),
        decreases m.pairs().len() - i,
    {
        assert(m.pairs().take(i + 1).drop_last() =~= m.pairs().take(i as int));
        let (from, to) = m.entry(i);
        push_str(s, "- `");
        push_str(s, from);
        push_str(s, "` → `");
        push_str(s, to);
        push_str(s, "`\n");
        i = i + 1;
    }
    assert(m.pairs().take(m.pairs().len() as int) =~= m.pairs());
}

/// Builds the system prompt for converting `language` sources under `profile`.
pub fn build_system_prompt(profile: &ConversionProfile, language: &Language) -> (r: String)
    ensures
        r@ == system_prompt_spec(*profile, *language),
{
    let lang = language.as_str();
    let mut prompt = String::new();
    push_str(&mut prompt, INTRO_HEAD);
    push_str(&mut prompt, lang);
    push_str(&mut prompt, INTRO_MIDDLE);
    push_str(&mut prompt, lang);
    push_str(&mut prompt, CORE_RULES);
    if *language == Language::Cpp {
        push_str(&mut prompt, CPP_RULES);
    }
    if profile.additional_instructions.as_str().unicode_len() > 0 {
        push_str(&mut prompt, "\n## Profile-Specific Instructions (");
        push_str(&mut prompt, profile.name.as_str());
        push_str(&mut prompt, ")\n\n");
        push_str(&mut prompt, profile.additional_instructions.as_str());
        push_str(&mut prompt, "\n");
    }
    if !profile.type_mappings.is_empty() {
        push_str(&mut prompt, "\n## Type Mappings\n\n");
        push_mappings(&mut prompt, &profile.type_mappings);
    }
    if !profile.api_mappings.is_empty() {
        push_str(&mut prompt, "\n## API Mappings\n\n");
        push_mappings(&mut prompt, &profile.api_mappings);
    }
    prompt
}/// The file prompt: the language, the includes as a list when there are any, and the source in
/// a fenced block tagged with the language.
pub open spec fn file_prompt_spec(file: CppFile) -> Seq<char> {
    let lang = language_name(file.language);
    let incs = if file.includes@.len() > 0 {
        "Dependencies/includes:\n"@ + item_lines(views(file.includes@)) + "\n"@
    } else {
        Seq::empty()
    };
    "Convert the following "@ + lang + " file to Rust:\n\n"@ + incs + "```"@ + lang + "\n"@
        + file.source@ + "\n```\n"@
}

/// One `- item` line per element of `l`.
pub open spec fn item_lines(l: Seq<Seq<char>>) -> Seq<char>
    decreases l.len(),
{
    if l.len() == 0 {
        Seq::empty()
    } else {
        item_lines(l.drop_last()) + "- "@ + l.last() + "\n"@
    }
}

/// Builds the prompt that asks for the conversion of a whole file.
pub fn build_file_prompt(file: &CppFile) -> (r: String)
    ensures
        r@ == file_prompt_spec(*file),
{
    let lang = file.language.as_str();
    let mut prompt = String::new();
    push_str(&mut prompt, "Convert the following ");
    push_str(&mut prompt, lang);
    push_str(&mut prompt, " file to Rust:\n\n");
    if file.includes.len() > 0 {
        push_str(&mut prompt, "Dependencies/includes:\n");
        let ghost start = prompt@;
        let ghost l = views(file.includes@);
        let mut i: usize = 0;
        while i < file.includes.len()
            invariant
                i <= l.len(),
                l == views(file.includes@),
                prompt@ == start + item_lines(l.take(i as int)),
            decreases l.len() - i,
        {
            assert(l.take(i + 1).drop_last() =~= l.take(i as int));
            push_str(&mut prompt, "- ");
            push_str(&mut prompt, file.includes[i].as_str());
            push_str(&mut prompt, "\n");
            i = i + 1;
        }
        assert(l.take(l.len() as int) =~= l);
        push_str(&mut prompt, "\n");
    }
    push_str(&mut prompt, "```");
    push_str(&mut prompt, lang);
    push_str(&mut prompt, "\n");
    push_str(&mut prompt, file.source.as_str());
    push_str(&mut prompt, "\n```\n");
    prompt
}

/// The context paragraph that opens a prompt, when there is a context.
pub open spec fn context_block(context: Seq<char>) -> Seq<char> {
    if context.len() > 0 {
        "Context:\n"@ + context + "\n\n"@
    } else {
        Seq::empty()
    }
}

fn push_context(s: &mut String, context: &str)
    ensures
        final(s)@ == old(s)@ + context_block(context@),
{
    if context.unicode_len() > 0 {
        push_str(s, "Context:\n");
        push_str(s, context);
        push_str(s, "\n\n");
    }
}

/// A parameter as written in the function prompt: qualifiers, type, `*`/`&`, name and default.
pub open spec fn param_decl(p: CppParam) -> Seq<char> {
    let c = if p.is_const {
        "const "@
    } else {
        Seq::empty()
    };
    let star = if p.is_pointer {
        seq!['*']
    } else {
        Seq::empty()
    };
    let amp = if p.is_reference {
        seq!['&']
    } else {
        Seq::empty()
    };
    let d = match p.default_value {
        Some(d) => " = "@ + d@,
        None => Seq::empty(),
    };
    c + p.type_text@ + star + amp + " "@ + p.name@ + d
}

fn param_decl_exec(p: &CppParam) -> (r: String)
    ensures
        r@ == param_decl(*p),
{
    let mut s = String::new();
    if p.is_const {
        push_str(&mut s, "const ");
    }
    push_str(&mut s, p.type_text.as_str());
    if p.is_pointer {
        push_str(&mut s, "*");
        proof {
            reveal_strlit("*");
        }
    }
    if p.is_reference {
        push_str(&mut s, "&");
        proof {
            reveal_strlit("&");
        }
    }
    push_str(&mut s, " ");
    push_str(&mut s, p.name.as_str());
    match &p.default_value {
        Some(d) => {
            push_str(&mut s, " = ");
            push_str(&mut s, d.as_str());
        },
        None => {},
    }
    assert(s@ =~= param_decl(*p));
    s
}

/// The function prompt: the context, then the function written out in a fenced C block: its
/// template header, `static`/`virtual`, return type, name, parameters and body.
pub open spec fn function_prompt_spec(func: CppFunction, context: Seq<char>) -> Seq<char> {
    let tmpl = if func.is_template {
        "template<"@ + join_spec(views(func.template_params@), ", "@) + ">\n"@
    } else {
        Seq::empty()
    };
    let st = if func.is_static {
        "static "@
    } else {
        Seq::empty()
    };
    let vi = if func.is_virtual {
        "virtual "@
    } else {
        Seq::empty()
    };
    let params = join_spec(func.params@.map_values(|p: CppParam| param_decl(p)), ", "@);
    context_block(context) + "Convert this function to Rust:\n\n```c\n"@ + tmpl + st + vi
        + func.return_type@ + " "@ + func.name@ + "("@ + params + ") {\n"@ + func.body@
        + "\n}\n```\n"@
}

/// Builds the prompt that asks for the conversion of one function.
pub fn build_function_prompt(func: &CppFunction, context: &str) -> (r: String)
    ensures
        r@ == function_prompt_spec(*func, context@),
{
    let mut prompt = String::new();
    push_context(&mut prompt, context);
    push_str(&mut prompt, "Convert this function to Rust:\n\n```c\n");
    if func.is_template {
        push_str(&mut prompt, "template<");
        let tp = join(&func.template_params, ", ");
        push_str(&mut prompt, tp.as_str());
        push_str(&mut prompt, ">\n");
    }
    if func.is_static {
        push_str(&mut prompt, "static ");
    }
    if func.is_virtual {
        push_str(&mut prompt, "virtual ");
    }
    push_str(&mut prompt, func.return_type.as_str());
    push_str(&mut prompt, " ");
    push_str(&mut prompt, func.name.as_str());
    push_str(&mut prompt, "(");
    let mut decls: Vec<String> = Vec::new();
    let mut i: usize = 0;
    while i < func.params.len()
        invariant
            i <= func.params@.len(),
            views(decls@) == func.params@.take(i as int).map_values(|p: CppParam| param_decl(p)),
        decreases func.params@.len() - i,
    {
        let d = param_decl_exec(&func.params[i]);
        let ghost prev = views(decls@);
        let ghost dv = d@;
        decls.push(d);
        assert(views(decls@) =~= prev.push(dv));
        assert(func.params@.take(i + 1) =~= func.params@.take(i as int).push(func.params@[i as int]));
        assert(views(decls@) =~= func.params@.take(i + 1).map_values(
            |p: CppParam| param_decl(p),
        ));
        i = i + 1;
    }
    assert(func.params@.take(func.params@.len() as int) =~= func.params@);
    let joined = join(&decls, ", ");
    push_str(&mut prompt, joined.as_str());
    push_str(&mut prompt, ") {\n");
    push_str(&mut prompt, func.body.as_str());
    push_str(&mut prompt, "\n}\n```\n");
    prompt
}

/// One field line of the struct prompt.
pub open spec fn struct_field_line(f: CppField) -> Seq<char> {
    (if f.is_const {
        "    const "@
    } else {
        "    "@
    }) + f.type_text@ + " "@ + f.name@ + ";\n"@
}

/// The field lines of `fs`, in order.
pub open spec fn struct_field_lines(fs: Seq<CppField>) -> Seq<char>
    decreases fs.len(),
{
    if fs.len() == 0 {
        Seq::empty()
    } else {
        struct_field_lines(fs.drop_last()) + struct_field_line(fs.last())
    }
}

/// The struct prompt: the struct written out in a fenced C block.
pub open spec fn struct_prompt_spec(s: CppStruct) -> Seq<char> {
    "Convert this C struct to Rust:\n\n```c\n"@ + (if s.is_typedef {
        "typedef "@
    } else {
        Seq::empty()
    }) + "struct "@ + s.name@ + " {\n"@ + struct_field_lines(s.fields@) + "};\n```\n"@
}

/// Builds the prompt that asks for the conversion of a C struct.
pub fn build_struct_prompt(s: &CppStruct) -> (r: String)
    ensures
        r@ == struct_prompt_spec(*s),
{
    let mut prompt = copy_str("Convert this C struct to Rust:\n\n```c\n");
    if s.is_typedef {
        push_str(&mut prompt, "typedef ");
    }
    push_str(&mut prompt, "struct ");
    push_str(&mut prompt, s.name.as_str());
    push_str(&mut prompt, " {\n");
    let ghost start = prompt@;
    let mut i: usize = 0;
    while i < s.fields.len()
        invariant
            i <= s.fields@.len(),
            prompt@ == start + struct_field_lines(s.fields@.take(i as int)),
        decreases s.fields@.len() - i,
    {
        assert(s.fields@.take(i + 1).drop_last() =~= s.fields@.take(i as int));
        let f = &s.fields[i];
        if f.is_const {
            push_str(&mut prompt, "    const ");
        } else {
            push_str(&mut prompt, "    ");
        }
        push_str(&mut prompt, f.type_text.as_str());
        push_str(&mut prompt, " ");
        push_str(&mut prompt, f.name.as_str());
        push_str(&mut prompt, ";\n");
        i = i + 1;
    }
    assert(s.fields@.take(s.fields@.len() as int) =~= s.fields@);
    push_str(&mut prompt, "};\n```\n");
    prompt
}

/// The access word of a base class.
pub open spec fn visibility_word(v: Visibility) -> Seq<char> {
    match v {
        Visibility::Public => "public "@,
        Visibility::Protected => "protected "@,
        Visibility::Private => "private "@,
    }
}

/// A base class as written in the class prompt.
pub open spec fn base_decl(b: CppBase) -> Seq<char> {
    (if b.is_virtual {
        "virtual "@
    } else {
        Seq::empty()
    }) + visibility_word(b.visibility) + b.name@
}

/// A parameter as written in a method declaration of the class prompt: type and name.
pub open spec fn plain_param(p: CppParam) -> Seq<char> {
    p.type_text@ + " "@ + p.name@
}

/// One method declaration line of the class prompt.
pub open spec fn method_line(m: CppFunction) -> Seq<char> {
    "    "@ + m.return_type@ + " "@ + m.name@ + "("@ + join_spec(
        m.params@.map_values(|p: CppParam| plain_param(p)),
        ", "@,
    ) + ");\n"@
}

/// The method lines of `ms`, in order.
pub open spec fn method_lines(ms: Seq<CppFunction>) -> Seq<char>
    decreases ms.len(),
{
    if ms.len() == 0 {
        Seq::empty()
    } else {
        method_lines(ms.drop_last()) + method_line(ms.last())
    }
}

/// One field line of the class prompt.
pub open spec fn class_field_line(f: CppField) -> Seq<char> {
    "    "@ + f.type_text@ + " "@ + f.name@ + ";\n"@
}

/// The field lines of `fs`, in order.
pub open spec fn class_field_lines(fs: Seq<CppField>) -> Seq<char>
    decreases fs.len(),
{
    if fs.len() == 0 {
        Seq::empty()
    } else {
        class_field_lines(fs.drop_last()) + class_field_line(fs.last())
    }
}

/// The class prompt: the context, then the class in a fenced C++ block: its bases, its methods
/// as public declarations and its fields as private ones.
pub open spec fn class_prompt_spec(c: CppClass, context: Seq<char>) -> Seq<char> {
    let bases = if c.bases@.len() > 0 {
        ": "@ + join_spec(c.bases@.map_values(|b: CppBase| base_decl(b)), ", "@) + " "@
    } else {
        Seq::empty()
    };
    context_block(context) + "Convert this C++ class to Rust (struct + impl + traits):\n\n```cpp\nclass "@
        + c.name@ + " "@ + bases + "{\npublic:\n"@ + method_lines(c.methods@) + "\nprivate:\n"@
        + class_field_lines(c.fields@) + "};\n```\n"@
}

fn base_decl_exec(b: &CppBase) -> (r: String)
    ensures
        r@ == base_decl(*b),
{
    let mut s = String::new();
    if b.is_virtual {
        push_str(&mut s, "virtual ");
    }
    match b.visibility {
        Visibility::Public => push_str(&mut s, "public "),
        Visibility::Protected => push_str(&mut s, "protected "),
        Visibility::Private => push_str(&mut s, "private "),
    }
    push_str(&mut s, b.name.as_str());
    s
}

fn method_line_exec(m: &CppFunction) -> (r: String)
    ensures
        r@ == method_line(*m),
{
    let mut ps: Vec<String> = Vec::new();
    let mut i: usize = 0;
    while i < m.params.len()
        invariant
            i <= m.params@.len(),
            views(ps@) == m.params@.take(i as int).map_values(|p: CppParam| plain_param(p)),
        decreases m.params@.len() - i,
    {
        let mut t = String::new();
        push_str(&mut t, m.params[i].type_text.as_str());
        push_str(&mut t, " ");
        push_str(&mut t, m.params[i].name.as_str());
        let ghost prev = views(ps@);
        let ghost tv = t@;
        ps.push(t);
        assert(views(ps@) =~= prev.push(tv));
        assert(m.params@.take(i + 1) =~= m.params@.take(i as int).push(m.params@[i as int]));
        assert(views(ps@) =~= m.params@.take(i + 1).map_values(|p: CppParam| plain_param(p)));
        i = i + 1;
    }
    assert(m.params@.take(m.params@.len() as int) =~= m.params@);
    let mut s = String::new();
    push_str(&mut s, "    ");
    push_str(&mut s, m.return_type.as_str());
    push_str(&mut s, " ");
    push_str(&mut s, m.name.as_str());
    push_str(&mut s, "(");
    let joined = join(&ps, ", ");
    push_str(&mut s, joined.as_str());
    push_str(&mut s, ");\n");
    s
}

/// Builds the prompt that asks for the conversion of a C++ class.
pub fn build_class_prompt(class: &CppClass, context: &str) -> (r: String)
    ensures
        r@ == class_prompt_spec(*class, context@),
{
    let mut prompt = String::new();
    push_context(&mut prompt, context);
    push_str(&mut prompt, "Convert this C++ class to Rust (struct + impl + traits):\n\n```cpp\nclass ");
    push_str(&mut prompt, class.name.as_str());
    push_str(&mut prompt, " ");
    if class.bases.len() > 0 {
        push_str(&mut prompt, ": ");
        let mut bs: Vec<String> = Vec::new();
        let mut i: usize = 0;
        while i < class.bases.len()
            invariant
                i <= class.bases@.len(),
                views(bs@) == class.bases@.take(i as int).map_values(|b: CppBase| base_decl(b)),
            decreases class.bases@.len() - i,
        {
            let d = base_decl_exec(&class.bases[i]);
            let ghost prev = views(bs@);
            let ghost dv = d@;
            bs.push(d);
            assert(views(bs@) =~= prev.push(dv));
            assert(class.bases@.take(i + 1) =~= class.bases@.take(i as int).push(class.bases@[i as int]));
            assert(views(bs@) =~= class.bases@.take(i + 1).map_values(|b: CppBase| base_decl(b)));
            i = i + 1;
        }
        assert(class.bases@.take(class.bases@.len() as int) =~= class.bases@);
        let joined = join(&bs, ", ");
        push_str(&mut prompt, joined.as_str());
        push_str(&mut prompt, " ");
    }
    push_str(&mut prompt, "{\npublic:\n");
    let ghost s1 = prompt@;
    let mut i: usize = 0;
    while i < class.methods.len()
        invariant
            i <= class.methods@.len(),
            prompt@ == s1 + method_lines(class.methods@.take(i as int)),
        decreases class.methods@.len() - i,
    {
        assert(class.methods@.take(i + 1).drop_last() =~= class.methods@.take(i as int));
        let line = method_line_exec(&class.methods[i]);
        push_str(&mut prompt, line.as_str());
        i = i + 1;
    }
    assert(class.methods@.take(class.methods@.len() as int) =~= class.methods@);
    push_str(&mut prompt, "\nprivate:\n");
    let ghost s2 = prompt@;
    let mut j: usize = 0;
    while j < class.fields.len()
        invariant
            j <= class.fields@.len(),
            prompt@ == s2 + class_field_lines(class.fields@.take(j as int)),
        decreases class.fields@.len() - j,
    {
        assert(class.fields@.take(j + 1).drop_last() =~= class.fields@.take(j as int));
        let f = &class.fields[j];
        push_str(&mut prompt, "    ");
        push_str(&mut prompt, f.type_text.as_str());
        push_str(&mut prompt, " ");
        push_str(&mut prompt, f.name.as_str());
        push_str(&mut prompt, ";\n");
        j = j + 1;
    }
    assert(class.fields@.take(class.fields@.len() as int) =~= class.fields@);
    push_str(&mut prompt, "};\n```\n");
    prompt
}

/// The pattern of a fenced Rust block; group 1 is its content.
pub const RUST_BLOCK: &'static str = r"```rust\n([\s\S]*?)```";

/// The Rust code of a reply, given the matches of `RUST_BLOCK` in it: the content of the first
/// block, trimmed; nothing when there is no block.
pub open spec fn rust_code_spec(ms: Seq<Seq<Option<(int, int, Seq<char>)>>>) -> Option<Seq<char>> {
    if ms.len() == 0 {
        None
    } else {
        Some(trim_spec(group_text(ms[0], 1)))
    }
}

/// The Rust code of a reply from the matches of `RUST_BLOCK` in it.
pub fn rust_code_from_matches(ms: &Vec<Match>) -> (r: Option<String>)
    ensures
        opt_view(r) == rust_code_spec(matches_view(ms@)),
{
    if ms.len() == 0 {
        None
    } else {
        let body = text_of(&ms[0], 1);
        Some(trim(body.as_str()))
    }
}

/// The content of the first fenced Rust block of a model's reply, trimmed.
pub fn extract_rust_code(response: &str) -> (r: Option<String>)
    ensures
        opt_view(r) == rust_code_spec(regex_captures(RUST_BLOCK@, response@)),
{
    let ms = captures_all(RUST_BLOCK, response);
    rust_code_from_matches(&ms)
}

} // verus!
