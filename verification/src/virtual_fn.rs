//! Virtual functions of C++ classes and the Rust traits suggested for them.
use vstd::prelude::*;
use vstd::string::*;
use vstd::utf8::*;

use crate::analyzer::somes;
use crate::patterns::{
    captures_all, end_of, group_present, group_text, groups_on_boundaries, lemma_match_end_boundary,
    match_end, match_view, matches_view, present, regex_captures, text_of, Match,
};
use crate::text::{
    contains_char, lemma_encode_len, lemma_lines_len, lines, lines_spec, split_at_byte,
    before_first, before_first_exec, char_is_lower, char_is_upper, char_lower_first, is_lowercase, chars_of, contains,
    contains_spec, copy_str, decimal, is_uppercase, join, join_spec, lower_first, push_char,
    push_decimal, push_str, replace, replace_spec, split_char, split_spec, split_whitespace,
    split_whitespace_spec, str_eq, trim, trim_spec, trim_start_char, trim_start_matches,
    trim_end_char, trim_end_matches, views,
};

verus! {

/// A virtual function found in a class.
#[derive(Debug, Clone)]
pub struct VirtualFn {
    /// The class that declares it.
    pub class_name: String,
    pub fn_name: String,
    pub return_type: String,
    /// The parameter list as written.
    pub params: String,
    /// Declared `= 0`.
    pub is_pure: bool,
    /// Declared `const`.
    pub is_const: bool,
    /// Has a body on its line.
    pub has_default_impl: bool,
    /// The 1-based line number.
    pub line: usize,
}

/// A class with its virtual functions.
#[derive(Debug, Clone)]
pub struct VirtualClass {
    pub class_name: String,
    pub virtual_fns: Vec<VirtualFn>,
}

// ---------------------------------------------------------------------------
// Names and types
// ---------------------------------------------------------------------------

/// Whether character `i` of `name` is an uppercase character inside a run of capitals that
/// does not start a capitalised word: the character before it is uppercase, and the character
/// after it, if any, is not lowercase.
pub open spec fn folded_at(name: Seq<char>, i: int) -> bool {
    &&& 0 < i < name.len()
    &&& char_is_upper(name[i])
    &&& char_is_upper(name[i - 1])
    &&& !(i + 1 < name.len() && char_is_lower(name[i + 1]))
}

/// The trait name for a class: each run of capitals is folded to one capital followed by
/// lower case, the capital that starts the next word kept (`XMLVisitor` gives `XmlVisitor`,
/// `MemPool` stays `MemPool`).
pub open spec fn trait_name_spec(name: Seq<char>) -> Seq<char> {
    Seq::new(
        name.len(),
        |i: int|
            if folded_at(name, i) {
                char_lower_first(name[i])
            } else {
                name[i]
            },
    )
}

/// The Rust trait name for a C++ class name (see `trait_name_spec`).
pub fn to_rust_trait_name(cpp_name: &str) -> (r: String)
    ensures
        r@ == trait_name_spec(cpp_name@),
{
    let cs = chars_of(cpp_name);
    let mut r = String::new();
    let mut i: usize = 0;
    while i < cs.len()
        invariant
            cs@ == cpp_name@,
            i <= cs@.len(),
            r@ == trait_name_spec(cs@).take(i as int),
        decreases cs@.len() - i,
    {
        let c = cs[i];
        let folded = i > 0 && is_uppercase(c) && is_uppercase(cs[i - 1]) && !(i + 1 < cs.len()
            && is_lowercase(cs[i + 1]));
        assert(folded == folded_at(cs@, i as int));
        if folded {
            push_char(&mut r, lower_first(c));
        } else {
            push_char(&mut r, c);
        }
        assert(trait_name_spec(cs@).take(i + 1) =~= trait_name_spec(cs@).take(i as int).push(
            trait_name_spec(cs@)[i as int],
        ));
        i = i + 1;
    }
    assert(trait_name_spec(cs@).take(cs@.len() as int) =~= trait_name_spec(cs@));
    r
}

/// snake_case of a CamelCase name: every uppercase character but the first is preceded by `_`,
/// and every character is lowercased.
pub open spec fn snake_spec(s: Seq<char>) -> Seq<char>
    decreases s.len(),
{
    if s.len() == 0 {
        Seq::empty()
    } else {
        let prev = snake_spec(s.drop_last());
        let c = s.last();
        let with_sep = if char_is_upper(c) && s.len() > 1 {
            prev.push('_')
        } else {
            prev
        };
        with_sep.push(char_lower_first(c))
    }
}

/// Converts a CamelCase name to snake_case.
pub fn to_snake_case(name: &str) -> (r: String)
    ensures
        r@ == snake_spec(name@),
{
    let cs = chars_of(name);
    let mut r = String::new();
    let mut i: usize = 0;
    while i < cs.len()
        invariant
            cs@ == name@,
            i <= cs@.len(),
            r@ == snake_spec(cs@.take(i as int)),
        decreases cs@.len() - i,
    {
        assert(cs@.take(i + 1).drop_last() =~= cs@.take(i as int));
        let ch = cs[i];
        if is_uppercase(ch) && i > 0 {
            push_char(&mut r, '_');
        }
        push_char(&mut r, lower_first(ch));
        i = i + 1;
    }
    assert(cs@.take(cs@.len() as int) =~= cs@);
    r
}

/// The Rust return type for a C++ return type: a few primitive types are mapped, a pointer
/// becomes `Option<Box<..>>`, anything else is kept (trimmed).
pub open spec fn return_type_spec(ret: Seq<char>) -> Seq<char> {
    let r = trim_spec(ret);
    if r == "void"@ {
        "()"@
    } else if r == "bool"@ {
        "bool"@
    } else if r == "int"@ {
        "i32"@
    } else if r == "size_t"@ {
        "usize"@
    } else if r == "float"@ {
        "f32"@
    } else if r == "double"@ {
        "f64"@
    } else if r == "char"@ {
        "u8"@
    } else if r.len() > 0 && r.last() == '*' {
        "Option<Box<"@ + trim_spec(trim_end_char(r, '*')) + ">>"@
    } else {
        r
    }
}

/// Maps a C++ return type to Rust.
pub fn map_return_type(ret: &str, class_name: &str) -> (r: String)
    ensures
        r@ == return_type_spec(ret@),
{
    let t = trim(ret);
    let s = t.as_str();
    if str_eq(s, "void") {
        copy_str("()")
    } else if str_eq(s, "bool") {
        copy_str("bool")
    } else if str_eq(s, "int") {
        copy_str("i32")
    } else if str_eq(s, "size_t") {
        copy_str("usize")
    } else if str_eq(s, "float") {
        copy_str("f32")
    } else if str_eq(s, "double") {
        copy_str("f64")
    } else if str_eq(s, "char") {
        copy_str("u8")
    } else {
        let cs = chars_of(s);
        if cs.len() > 0 && cs[cs.len() - 1] == '*' {
            let mut r = copy_str("Option<Box<");
            let inner = trim(trim_end_matches(s, '*').as_str());
            push_str(&mut r, inner.as_str());
            push_str(&mut r, ">>");
            r
        } else {
            t
        }
    }
}

/// The C++ type spelling with the basic types replaced by Rust ones.
pub open spec fn rustify_spec(p: Seq<char>) -> Seq<char> {
    replace_spec(
        replace_spec(
            replace_spec(
                replace_spec(
                    replace_spec(
                        replace_spec(
                            replace_spec(replace_spec(p, "const "@, ""@), "&"@, ""@),
                            "unsigned int"@,
                            "u32"@,
                        ),
                        "unsigned"@,
                        "u32"@,
                    ),
                    "size_t"@,
                    "usize"@,
                ),
                "int"@,
                "i32"@,
            ),
            "float"@,
            "f32"@,
        ),
        "double"@,
        "f64"@,
    )
}

/// The Rust parameter for one comma-separated piece of a C++ parameter list, if any: the piece
/// is trimmed and cut at a `/*` comment; empty pieces and `void` give none; otherwise the types
/// are mapped, the last word (its leading `*`s dropped, snake_cased) is the name and the rest the
/// type, a pointer type becoming a reference.
pub open spec fn param_piece_spec(piece: Seq<char>) -> Option<Seq<char>> {
    let p = trim_spec(piece);
    if p.len() == 0 {
        None
    } else {
        let p2 = trim_spec(before_first(p, "/*"@));
        if p2.len() == 0 || p2 == "void"@ {
            None
        } else {
            let rp = rustify_spec(p2);
            let parts = split_whitespace_spec(rp);
            if parts.len() >= 2 {
                let name = snake_spec(trim_start_char(parts.last(), '*'));
                let type_part = join_spec(parts.drop_last(), " "@);
                let rust_type = if contains_spec(type_part, "*"@) {
                    "&"@ + trim_spec(replace_spec(type_part, "*"@, ""@))
                } else {
                    type_part
                };
                Some(name + ": "@ + rust_type)
            } else {
                Some("_: "@ + trim_spec(rp))
            }
        }
    }
}

/// The present values among `s`, in order.
pub open spec fn collect_some(s: Seq<Option<Seq<char>>>) -> Seq<Seq<char>>
    decreases s.len(),
{
    if s.len() == 0 {
        Seq::empty()
    } else {
        let r = collect_some(s.drop_last());
        match s.last() {
            Some(x) => r.push(x),
            None => r,
        }
    }
}

/// The Rust parameter list for a C++ parameter list (empty for an empty list or `void`).
pub open spec fn params_spec(params: Seq<char>) -> Seq<char> {
    let t = trim_spec(params);
    if t.len() == 0 || t == "void"@ {
        Seq::empty()
    } else {
        join_spec(
            collect_some(split_spec(params, ',').map_values(|x: Seq<char>| param_piece_spec(x))),
            ", "@,
        )
    }
}

fn rustify(p: &str) -> (r: String)
    ensures
        r@ == rustify_spec(p@),
{
    proof {
        reveal_strlit("const ");
        reveal_strlit("&");
        reveal_strlit("unsigned int");
        reveal_strlit("unsigned");
        reveal_strlit("size_t");
        reveal_strlit("int");
        reveal_strlit("float");
        reveal_strlit("double");
    }
    let a = replace(p, "const ", "");
    let a = replace(a.as_str(), "&", "");
    let a = replace(a.as_str(), "unsigned int", "u32");
    let a = replace(a.as_str(), "unsigned", "u32");
    let a = replace(a.as_str(), "size_t", "usize");
    let a = replace(a.as_str(), "int", "i32");
    let a = replace(a.as_str(), "float", "f32");
    replace(a.as_str(), "double", "f64")
}

fn param_piece(piece: &str) -> (r: Option<String>)
    ensures
        match r {
            Some(x) => param_piece_spec(piece@) == Some(x@),
            None => param_piece_spec(piece@) is None,
        },
{
    let p = trim(piece);
    if p.as_str().is_empty() {
        return None;
    }
    let p2 = trim(before_first_exec(p.as_str(), "/*").as_str());
    if p2.as_str().is_empty() || str_eq(p2.as_str(), "void") {
        return None;
    }
    let rp = rustify(p2.as_str());
    let mut parts = split_whitespace(rp.as_str());
    if parts.len() >= 2 {
        let ghost pv = views(parts@);
        let last = parts.pop().unwrap();
        assert(views(parts@) =~= pv.drop_last());
        let name = to_snake_case(trim_start_matches(last.as_str(), '*').as_str());
        let type_part = join(&parts, " ");
        let rust_type = if contains(type_part.as_str(), "*") {
            proof {
                reveal_strlit("*");
            }
            let mut t = copy_str("&");
            let stripped = trim(replace(type_part.as_str(), "*", "").as_str());
            push_str(&mut t, stripped.as_str());
            t
        } else {
            type_part
        };
        let mut out = name;
        push_str(&mut out, ": ");
        push_str(&mut out, rust_type.as_str());
        Some(out)
    } else {
        let mut out = copy_str("_: ");
        push_str(&mut out, trim(rp.as_str()).as_str());
        Some(out)
    }
}

/// Maps a C++ parameter list to a Rust one (`name: Type, ...`).
pub fn map_params(params: &str) -> (r: String)
    ensures
        r@ == params_spec(params@),
{
    let t = trim(params);
    if t.as_str().is_empty() || str_eq(t.as_str(), "void") {
        return String::new();
    }
    let pieces = split_char(params, ',');
    let ghost pv = views(pieces@);
    let ghost mapped = pv.map_values(|x: Seq<char>| param_piece_spec(x));
    let mut out: Vec<String> = Vec::new();
    let mut i: usize = 0;
    while i < pieces.len()
        invariant
            i <= pieces@.len(),
            pv == views(pieces@),
            mapped == pv.map_values(|x: Seq<char>| param_piece_spec(x)),
            views(out@) == collect_some(mapped.take(i as int)),
        decreases pieces@.len() - i,
    {
        assert(mapped.take(i + 1).drop_last() =~= mapped.take(i as int));
        assert(mapped[i as int] == param_piece_spec(pieces@[i as int]@));
        match param_piece(pieces[i].as_str()) {
            Some(x) => {
                let ghost before = views(out@);
                out.push(x);
                assert(views(out@) =~= before.push(x@));
            },
            None => {},
        }
        i = i + 1;
    }
    assert(mapped.take(pieces@.len() as int) =~= mapped);
    join(&out, ", ")
}

// ---------------------------------------------------------------------------
// Traits and hints
// ---------------------------------------------------------------------------

/// The trait method line for a virtual function: a declaration for a pure virtual, otherwise a
/// default body (`true` for `bool`, empty for `()`, `todo!()` else).
pub open spec fn trait_fn_line(f: VirtualFn) -> Seq<char> {
    let rust_name = snake_spec(f.fn_name@);
    let rust_return = return_type_spec(f.return_type@);
    let rust_params = params_spec(f.params@);
    let self_ref = if f.is_const {
        "&self"@
    } else {
        "&mut self"@
    };
    let signature = if rust_params.len() == 0 {
        "    fn "@ + rust_name + "("@ + self_ref + ") -> "@ + rust_return
    } else {
        "    fn "@ + rust_name + "("@ + self_ref + ", "@ + rust_params + ") -> "@ + rust_return
    };
    if f.is_pure {
        signature + ";\n"@
    } else {
        let body = if rust_return == "bool"@ {
            "true"@
        } else if rust_return == "()"@ {
            ""@
        } else {
            "todo!()"@
        };
        signature + " { "@ + body + " }\n"@
    }
}

/// The method lines of the first `n` functions.
pub open spec fn trait_fn_lines(fs: Seq<VirtualFn>, n: int) -> Seq<char>
    decreases n,
{
    if n <= 0 {
        Seq::empty()
    } else {
        trait_fn_lines(fs, n - 1) + trait_fn_line(fs[n - 1])
    }
}

/// The Rust trait definition for a class.
pub open spec fn trait_def_spec(vc: VirtualClass) -> Seq<char> {
    "pub trait "@ + trait_name_spec(vc.class_name@) + " {\n"@ + trait_fn_lines(
        vc.virtual_fns@,
        vc.virtual_fns@.len() as int,
    ) + "}\n"@
}

fn trait_fn_line_exec(f: &VirtualFn) -> (r: String)
    ensures
        r@ == trait_fn_line(*f),
{
    let rust_name = to_snake_case(f.fn_name.as_str());
    let rust_return = map_return_type(f.return_type.as_str(), f.class_name.as_str());
    let rust_params = map_params(f.params.as_str());
    let self_ref = if f.is_const {
        "&self"
    } else {
        "&mut self"
    };
    let mut sig = copy_str("    fn ");
    push_str(&mut sig, rust_name.as_str());
    push_str(&mut sig, "(");
    push_str(&mut sig, self_ref);
    if !rust_params.as_str().is_empty() {
        push_str(&mut sig, ", ");
        push_str(&mut sig, rust_params.as_str());
    }
    push_str(&mut sig, ") -> ");
    push_str(&mut sig, rust_return.as_str());
    if f.is_pure {
        push_str(&mut sig, ";\n");
    } else {
        let body = if str_eq(rust_return.as_str(), "bool") {
            "true"
        } else if str_eq(rust_return.as_str(), "()") {
            ""
        } else {
            "todo!()"
        };
        push_str(&mut sig, " { ");
        push_str(&mut sig, body);
        push_str(&mut sig, " }\n");
    }
    sig
}

/// The Rust trait for a class with virtual functions: one method per virtual function,
/// snake_cased, taking `&self` when the function is `const` and `&mut self` otherwise.
pub fn generate_trait_definition(vc: &VirtualClass) -> (r: String)
    ensures
        r@ == trait_def_spec(*vc),
{
    let mut out = copy_str("pub trait ");
    push_str(&mut out, to_rust_trait_name(vc.class_name.as_str()).as_str());
    push_str(&mut out, " {\n");
    let ghost head = out@;
    let mut i: usize = 0;
    while i < vc.virtual_fns.len()
        invariant
            i <= vc.virtual_fns@.len(),
            out@ == head + trait_fn_lines(vc.virtual_fns@, i as int),
        decreases vc.virtual_fns@.len() - i,
    {
        let line = trait_fn_line_exec(&vc.virtual_fns[i]);
        push_str(&mut out, line.as_str());
        i = i + 1;
    }
    push_str(&mut out, "}\n");
    out
}

/// The number of functions among `fs` that are pure virtual.
pub open spec fn pure_count(fs: Seq<VirtualFn>) -> nat
    decreases fs.len(),
{
    if fs.len() == 0 {
        0
    } else {
        pure_count(fs.drop_last()) + if fs.last().is_pure {
            1nat
        } else {
            0nat
        }
    }
}

/// The number of functions among `fs` with a default body.
pub open spec fn default_count(fs: Seq<VirtualFn>) -> nat
    decreases fs.len(),
{
    if fs.len() == 0 {
        0
    } else {
        default_count(fs.drop_last()) + if fs.last().has_default_impl {
            1nat
        } else {
            0nat
        }
    }
}

fn count_pure_default(fs: &Vec<VirtualFn>) -> (r: (usize, usize))
    ensures
        r.0 == pure_count(fs@),
        r.1 == default_count(fs@),
        r.0 <= fs@.len(),
        r.1 <= fs@.len(),
{
    let mut p: usize = 0;
    let mut d: usize = 0;
    let mut i: usize = 0;
    while i < fs.len()
        invariant
            i <= fs@.len(),
            p == pure_count(fs@.take(i as int)),
            d == default_count(fs@.take(i as int)),
            p <= i && d <= i,
        decreases fs@.len() - i,
    {
        assert(fs@.take(i + 1).drop_last() =~= fs@.take(i as int));
        if fs[i].is_pure {
            p = p + 1;
        }
        if fs[i].has_default_impl {
            d = d + 1;
        }
        i = i + 1;
    }
    assert(fs@.take(fs@.len() as int) =~= fs@);
    (p, d)
}

/// The hint section for one class.
pub open spec fn class_hint(vc: VirtualClass) -> Seq<char> {
    "### `"@ + vc.class_name@ + "` → `trait "@ + trait_name_spec(vc.class_name@) + "` ("@
        + decimal(vc.virtual_fns@.len()) + " methods: "@ + decimal(pure_count(vc.virtual_fns@))
        + " pure, "@ + decimal(default_count(vc.virtual_fns@)) + " with defaults)\n\n"@
        + "```rust\n"@ + trait_def_spec(vc) + "```\n\n"@
}

/// The hint sections of the first `n` classes.
pub open spec fn class_hints_upto(cs: Seq<VirtualClass>, n: int) -> Seq<char>
    decreases n,
{
    if n <= 0 {
        Seq::empty()
    } else {
        class_hints_upto(cs, n - 1) + class_hint(cs[n - 1])
    }
}

/// The Markdown hint block for classes with virtual functions.
pub open spec fn virtual_hints_spec(cs: Seq<VirtualClass>) -> Seq<char> {
    if cs.len() == 0 {
        Seq::empty()
    } else {
        "## Virtual Function → Trait Conversion Hints\n\n"@ + "Detected "@ + decimal(cs.len())
            + " class(es) with virtual functions. Suggested Rust traits:\n\n"@ + class_hints_upto(
            cs,
            cs.len() as int,
        )
    }
}

/// Generates the trait-conversion hint block: per class its method counts and suggested trait.
/// Empty for no classes.
pub fn generate_virtual_fn_hints(classes: &[VirtualClass]) -> (r: String)
    ensures
        r@ == virtual_hints_spec(classes@),
{
    if classes.len() == 0 {
        return String::new();
    }
    let mut hint = copy_str("## Virtual Function → Trait Conversion Hints\n\n");
    push_str(&mut hint, "Detected ");
    push_decimal(&mut hint, classes.len());
    push_str(&mut hint, " class(es) with virtual functions. Suggested Rust traits:\n\n");
    let ghost head = hint@;
    let mut i: usize = 0;
    while i < classes.len()
        invariant
            i <= classes@.len(),
            hint@ == head + class_hints_upto(classes@, i as int),
        decreases classes@.len() - i,
    {
        let vc = &classes[i];
        let (p, d) = count_pure_default(&vc.virtual_fns);
        let ghost before = hint@;
        push_str(&mut hint, "### `");
        push_str(&mut hint, vc.class_name.as_str());
        push_str(&mut hint, "` → `trait ");
        push_str(&mut hint, to_rust_trait_name(vc.class_name.as_str()).as_str());
        push_str(&mut hint, "` (");
        push_decimal(&mut hint, vc.virtual_fns.len());
        push_str(&mut hint, " methods: ");
        push_decimal(&mut hint, p);
        push_str(&mut hint, " pure, ");
        push_decimal(&mut hint, d);
        push_str(&mut hint, " with defaults)\n\n");
        push_str(&mut hint, "```rust\n");
        push_str(&mut hint, generate_trait_definition(vc).as_str());
        push_str(&mut hint, "```\n\n");
        assert(hint@ =~= before + class_hint(*vc));
        i = i + 1;
    }
    hint
}

/// The total number of virtual functions over the first `n` classes.
pub open spec fn total_fns(cs: Seq<VirtualClass>, n: int) -> nat
    decreases n,
{
    if n <= 0 {
        0
    } else {
        total_fns(cs, n - 1) + cs[n - 1].virtual_fns@.len()
    }
}

/// The number of pure virtual functions over the first `n` classes.
pub open spec fn total_pure(cs: Seq<VirtualClass>, n: int) -> nat
    decreases n,
{
    if n <= 0 {
        0
    } else {
        total_pure(cs, n - 1) + pure_count(cs[n - 1].virtual_fns@)
    }
}

/// The number of functions with a default body over the first `n` classes.
pub open spec fn total_default(cs: Seq<VirtualClass>, n: int) -> nat
    decreases n,
{
    if n <= 0 {
        0
    } else {
        total_default(cs, n - 1) + default_count(cs[n - 1].virtual_fns@)
    }
}

/// Counts the virtual functions of all classes: (total, pure, with a default body).
pub fn count_virtual_fns(classes: &[VirtualClass]) -> (r: (usize, usize, usize))
    requires
        total_fns(classes@, classes@.len() as int) <= usize::MAX,
    ensures
        r.0 == total_fns(classes@, classes@.len() as int),
        r.1 == total_pure(classes@, classes@.len() as int),
        r.2 == total_default(classes@, classes@.len() as int),
{
    let mut t: usize = 0;
    let mut p: usize = 0;
    let mut d: usize = 0;
    let mut i: usize = 0;
    while i < classes.len()
        invariant
            i <= classes@.len(),
            total_fns(classes@, classes@.len() as int) <= usize::MAX,
            t == total_fns(classes@, i as int),
            p == total_pure(classes@, i as int),
            d == total_default(classes@, i as int),
            p <= t && d <= t,
        decreases classes@.len() - i,
    {
        proof {
            lemma_total_fns_mono(classes@, i + 1, classes@.len() as int);
        }
        let (cp, cd) = count_pure_default(&classes[i].virtual_fns);
        t = t + classes[i].virtual_fns.len();
        p = p + cp;
        d = d + cd;
        i = i + 1;
    }
    (t, p, d)
}

proof fn lemma_total_fns_mono(cs: Seq<VirtualClass>, a: int, b: int)
    requires
        0 <= a <= b,
    ensures
        total_fns(cs, a) <= total_fns(cs, b),
    decreases b - a,
{
    if a < b {
        lemma_total_fns_mono(cs, a, b - 1);
    }
}


// ---------------------------------------------------------------------------
// Class bodies
// ---------------------------------------------------------------------------

/// Scanning for the brace that closes a class body, from index `i` of `cs` with nesting `depth`,
/// inside a string literal or not, and previous character `prev`: braces in string literals do
/// not count, and a quote preceded by a backslash does not end one.
pub open spec fn class_scan(cs: Seq<char>, i: int, depth: int, in_string: bool, prev: char) -> Option<int>
    decreases cs.len() - i,
{
    if i < 0 || i >= cs.len() {
        None
    } else {
        let ch = cs[i];
        if in_string {
            class_scan(cs, i + 1, depth, !(ch == '"' && prev != '\\'), ch)
        } else if ch == '"' {
            class_scan(cs, i + 1, depth, true, ch)
        } else if ch == '{' {
            class_scan(cs, i + 1, depth + 1, false, ch)
        } else if ch == '}' {
            if depth - 1 == 0 {
                Some(i)
            } else {
                class_scan(cs, i + 1, depth - 1, false, ch)
            }
        } else {
            class_scan(cs, i + 1, depth, false, ch)
        }
    }
}

/// The body of the class whose `{` stands at byte offset `pos` of `source`; empty when no `{`
/// stands there or it is not closed.
pub open spec fn class_body_spec(source: Seq<char>, pos: int) -> Seq<char> {
    if pos < 0 || pos >= encode_utf8(source).len() || encode_utf8(source)[pos] != 123 {
        Seq::empty()
    } else {
        let cs = crate::analyzer::suffix_at(source, pos);
        match class_scan(cs, 0, 0, false, '\0') {
            Some(k) => cs.subrange(1, k),
            None => Seq::empty(),
        }
    }
}

/// Returns the text between the `{` at byte offset `open_brace_pos` of `source` and its matching
/// `}` (braces in string literals skipped), or the empty string.
pub fn extract_class_body(source: &str, open_brace_pos: usize) -> (r: String)
    ensures
        r@ == class_body_spec(source@, open_brace_pos as int),
        r@.len() > 0 ==> r@.len() + open_brace_pos + 1 <= encode_utf8(source@).len(),
{
    let bytes = source.as_bytes();
    if open_brace_pos >= bytes.len() || bytes[open_brace_pos] != 123 {
        return String::new();
    }
    proof {
        crate::text::lemma_boundary_at(source, open_brace_pos as int);
        crate::text::lemma_suffix_starts_ascii(source, open_brace_pos as int);
    }
    let (_, rest) = crate::text::split_at_byte(source, open_brace_pos);
    let cs = chars_of(rest);
    let ghost sc = crate::analyzer::suffix_at(source@, open_brace_pos as int);
    proof {
        crate::text::lemma_encode_len(rest@);
    }
    let mut depth: usize = 0;
    let mut in_string = false;
    let mut prev: char = '\0';
    let mut i: usize = 0;
    while i < cs.len()
        invariant
            cs@ == sc,
            sc == crate::analyzer::suffix_at(source@, open_brace_pos as int),
            open_brace_pos < source.spec_bytes().len(),
            source.spec_bytes()[open_brace_pos as int] == 123,
            sc.len() > 0 && sc[0] == '{',
            cs@.len() + open_brace_pos <= source.spec_bytes().len(),
            i <= cs@.len(),
            depth <= i,
            i > 0 ==> depth >= 1,
            i == 0 ==> depth == 0 && !in_string,
            class_scan(sc, 0, 0, false, '\0') == class_scan(sc, i as int, depth as int, in_string, prev),
        decreases cs@.len() - i,
    {
        let ch = cs[i];
        if in_string {
            if ch == '"' && prev != '\\' {
                in_string = false;
            }
        } else if ch == '"' {
            in_string = true;
        } else if ch == '{' {
            depth = depth + 1;
        } else if ch == '}' {
            if depth == 1 {
                let mut s = String::new();
                assert(class_scan(sc, i as int, 1, false, prev) == Some(i as int));
                crate::text::push_range(&mut s, cs.as_slice(), 1, i);
                return s;
            }
            depth = depth - 1;
        }
        prev = ch;
        i = i + 1;
    }
    String::new()
}


// ---------------------------------------------------------------------------
// Detection
// ---------------------------------------------------------------------------

/// The plain value of a virtual function: class, name, return type, parameters, pure, const,
/// default body, line.
pub open spec fn vfn_view(v: VirtualFn) -> (Seq<char>, Seq<char>, Seq<char>, Seq<char>, bool, bool, bool, nat) {
    (v.class_name@, v.fn_name@, v.return_type@, v.params@, v.is_pure, v.is_const, v.has_default_impl, v.line as nat)
}

/// The plain values of virtual functions.
pub open spec fn vfn_views(vs: Seq<VirtualFn>) -> Seq<(Seq<char>, Seq<char>, Seq<char>, Seq<char>, bool, bool, bool, nat)> {
    vs.map_values(|v: VirtualFn| vfn_view(v))
}

/// The pattern of a virtual declaration on one line: group 1 is the return type, group 2 the
/// name, group 3 the parameters, group 4 a `const`, group 5 a `= 0`.
pub const VIRTUAL_LINE_PATTERN: &'static str = r"virtual\s+([\w\s\*&:<>,]+?)\s+(\w+)\s*\(([^)]*)\)\s*(const)?\s*(?:override\s*)?(=\s*0)?";

/// The virtual function declared on a line, from the matches of `VIRTUAL_LINE_PATTERN` in it:
/// read from the first match; pure when its `= 0` group holds a `0` or the line holds `= 0`;
/// with a default body when the line holds `{` and it is not pure. None when there is no
/// match, for a destructor, or when the name is a control-flow keyword.
pub open spec fn virtual_line_spec(
    line: Seq<char>,
    class_name: Seq<char>,
    line_no: nat,
    ms: Seq<Seq<Option<(int, int, Seq<char>)>>>,
) -> Option<(Seq<char>, Seq<char>, Seq<char>, Seq<char>, bool, bool, bool, nat)> {
    if ms.len() == 0 {
        None
    } else {
        let m = ms[0];
        let rt = trim_spec(group_text(m, 1));
        let name = group_text(m, 2);
        let params = if group_present(m, 3) {
            trim_spec(group_text(m, 3))
        } else {
            Seq::empty()
        };
        let is_pure = (group_present(m, 5) && group_text(m, 5).contains('0')) || contains_spec(
            line,
            "= 0"@,
        );
        let has_default = line.contains('{') && !is_pure;
        if (name.len() > 0 && name[0] == '~') || (rt.len() > 0 && rt[0] == '~') {
            None
        } else if name == "if"@ || name == "for"@ || name == "while"@ || name == "switch"@ {
            None
        } else {
            Some((class_name, name, rt, params, is_pure, group_present(m, 4), has_default, line_no))
        }
    }
}

/// The virtual function on `line` from the matches `ms` of `VIRTUAL_LINE_PATTERN` in it (see
/// `virtual_line_spec`).
pub fn virtual_fn_from_matches(line: &str, class_name: &str, line_no: usize, ms: &Vec<Match>) -> (r:
    Option<VirtualFn>)
    ensures
        match r {
            Some(v) => virtual_line_spec(line@, class_name@, line_no as nat, matches_view(ms@))
                == Some(vfn_view(v)),
            None => virtual_line_spec(line@, class_name@, line_no as nat, matches_view(ms@)) is None,
        },
{
    if ms.len() == 0 {
        return None;
    }
    let m = &ms[0];
    let rt_text = text_of(m, 1);
    let return_type = trim(rt_text.as_str());
    let fn_name = text_of(m, 2);
    let params = if present(m, 3) {
        let p = text_of(m, 3);
        trim(p.as_str())
    } else {
        String::new()
    };
    let eq0 = text_of(m, 5);
    let is_pure = (present(m, 5) && contains_char(eq0.as_str(), '0')) || contains(line, "= 0");
    let has_default_impl = contains_char(line, '{') && !is_pure;
    let nc = chars_of(fn_name.as_str());
    let rc = chars_of(return_type.as_str());
    if (nc.len() > 0 && nc[0] == '~') || (rc.len() > 0 && rc[0] == '~') {
        return None;
    }
    let n = fn_name.as_str();
    if str_eq(n, "if") || str_eq(n, "for") || str_eq(n, "while") || str_eq(n, "switch") {
        return None;
    }
    Some(
        VirtualFn {
            class_name: copy_str(class_name),
            fn_name,
            return_type,
            params,
            is_pure,
            is_const: present(m, 4),
            has_default_impl,
            line: line_no,
        },
    )
}

/// The virtual function declared on `line` of class `class_name`, numbered `line_no` (see
/// `virtual_line_spec`).
pub fn parse_virtual_line(line: &str, class_name: &str, line_no: usize) -> (r: Option<VirtualFn>)
    ensures
        match r {
            Some(v) => virtual_line_spec(
                line@,
                class_name@,
                line_no as nat,
                regex_captures(VIRTUAL_LINE_PATTERN@, line@),
            ) == Some(vfn_view(v)),
            None => virtual_line_spec(
                line@,
                class_name@,
                line_no as nat,
                regex_captures(VIRTUAL_LINE_PATTERN@, line@),
            ) is None,
        },
{
    let ms = captures_all(VIRTUAL_LINE_PATTERN, line);
    virtual_fn_from_matches(line, class_name, line_no, &ms)
}

/// The pattern of a class head up to its `{`; group 1 is the class name.
pub const VIRTUAL_CLASS_PATTERN: &'static str = r"(?m)class\s+(\w+)(?:\s*:\s*[^{]+)?\s*\{";

/// The text of `s` before byte offset `at`.
pub open spec fn text_before(s: Seq<char>, at: int) -> Seq<char> {
    decode_utf8(encode_utf8(s).subrange(0, at))
}

/// The virtual functions on the first `n` lines of a class body: lines holding `virtual`,
/// read by `virtual_line_spec` with the line number `base + index + 1`.
pub open spec fn virtual_fns_upto(ls: Seq<Seq<char>>, class_name: Seq<char>, base: nat, n: int) -> Seq<
    (Seq<char>, Seq<char>, Seq<char>, Seq<char>, bool, bool, bool, nat),
>
    decreases n,
{
    if n <= 0 {
        Seq::empty()
    } else {
        let l = ls[n - 1];
        virtual_fns_upto(ls, class_name, base, n - 1) + if contains_spec(l, "virtual"@) {
            match virtual_line_spec(
                l,
                class_name,
                (base + n) as nat,
                regex_captures(VIRTUAL_LINE_PATTERN@, l),
            ) {
                Some(v) => seq![v],
                None => Seq::empty(),
            }
        } else {
            Seq::empty()
        }
    }
}

/// The class read from one match of `VIRTUAL_CLASS_PATTERN` in `source`, with the virtual
/// functions of its body numbered by their lines in `source`; none when the body is empty or
/// has no virtual function.
pub open spec fn virtual_class_entry(source: Seq<char>, m: Seq<Option<(int, int, Seq<char>)>>) -> Option<
    (Seq<char>, Seq<(Seq<char>, Seq<char>, Seq<char>, Seq<char>, bool, bool, bool, nat)>),
> {
    let start = match_end(m);
    let body = class_body_spec(source, start - 1);
    let name = group_text(m, 1);
    let ls = lines_spec(body);
    let fns = virtual_fns_upto(ls, name, lines_spec(text_before(source, start)).len(), ls.len() as int);
    if body.len() == 0 || fns.len() == 0 {
        None
    } else {
        Some((name, fns))
    }
}

/// The plain value of a class with its virtual functions.
pub open spec fn vclass_view(c: VirtualClass) -> (
    Seq<char>,
    Seq<(Seq<char>, Seq<char>, Seq<char>, Seq<char>, bool, bool, bool, nat)>,
) {
    (c.class_name@, vfn_views(c.virtual_fns@))
}

/// The classes of `source` that declare virtual functions, in order.
pub open spec fn virtual_classes_spec(source: Seq<char>) -> Seq<
    (Seq<char>, Seq<(Seq<char>, Seq<char>, Seq<char>, Seq<char>, bool, bool, bool, nat)>),
> {
    somes(
        regex_captures(VIRTUAL_CLASS_PATTERN@, source).map_values(
            |m: Seq<Option<(int, int, Seq<char>)>>| virtual_class_entry(source, m),
        ),
    )
}

fn virtual_class_at(source: &str, m: &Match) -> (r: Option<VirtualClass>)
    requires
        groups_on_boundaries(*m, source.spec_bytes()),
    ensures
        match r {
            Some(c) => virtual_class_entry(source@, match_view(*m)) == Some(vclass_view(c)),
            None => virtual_class_entry(source@, match_view(*m)) is None,
        },
{
    let name = text_of(m, 1);
    let start = end_of(m);
    if start == 0 {
        assert(class_body_spec(source@, -1) =~= Seq::<char>::empty());
        return None;
    }
    let body = extract_class_body(source, start - 1);
    if body.as_str().unicode_len() == 0 {
        return None;
    }
    proof {
        lemma_match_end_boundary(*m, source);
    }
    let (before, _) = split_at_byte(source, start);
    let prefix_lines = lines(before);
    let base = prefix_lines.len();
    let ls = lines(body.as_str());
    proof {
        lemma_lines_len(before@);
        lemma_lines_len(body@);
        lemma_encode_len(before@);
    }
    let ghost l = views(ls@);
    let total = source.as_bytes().len();
    assert(base + l.len() <= source.spec_bytes().len());
    let mut fns: Vec<VirtualFn> = Vec::new();
    let mut i: usize = 0;
    while i < ls.len()
        invariant
            i <= l.len(),
            l == views(ls@),
            base + l.len() <= source.spec_bytes().len(),
            source.spec_bytes().len() <= usize::MAX,
            vfn_views(fns@) == virtual_fns_upto(l, name@, base as nat, i as int),
        decreases l.len() - i,
    {
        let line = ls[i].as_str();
        if contains(line, "virtual") {
            match parse_virtual_line(line, name.as_str(), base + i + 1) {
                Some(v) => {
                    let ghost prev = vfn_views(fns@);
                    let ghost vv = vfn_view(v);
                    fns.push(v);
                    assert(vfn_views(fns@) =~= prev.push(vv));
                },
                None => {},
            }
        }
        i = i + 1;
    }
    if fns.len() == 0 {
        return None;
    }
    Some(VirtualClass { class_name: name, virtual_fns: fns })
}

/// The classes of the matches `ms` of `VIRTUAL_CLASS_PATTERN` in `source` (see
/// `virtual_class_entry`).
pub fn virtual_classes_from_matches(source: &str, ms: &Vec<Match>) -> (r: Vec<VirtualClass>)
    requires
        forall|i: int| 0 <= i < ms@.len() ==> groups_on_boundaries(#[trigger] ms@[i], source.spec_bytes()),
    ensures
        r@.map_values(|c: VirtualClass| vclass_view(c)) == somes(
            matches_view(ms@).map_values(
                |m: Seq<Option<(int, int, Seq<char>)>>| virtual_class_entry(source@, m),
            ),
        ),
{
    let ghost mapped = matches_view(ms@).map_values(
        |m: Seq<Option<(int, int, Seq<char>)>>| virtual_class_entry(source@, m),
    );
    let mut r: Vec<VirtualClass> = Vec::new();
    let mut i: usize = 0;
    while i < ms.len()
        invariant
            i <= ms@.len(),
            forall|j: int| 0 <= j < ms@.len() ==> groups_on_boundaries(#[trigger] ms@[j], source.spec_bytes()),
            mapped == matches_view(ms@).map_values(
                |m: Seq<Option<(int, int, Seq<char>)>>| virtual_class_entry(source@, m),
            ),
            r@.map_values(|c: VirtualClass| vclass_view(c)) == somes(mapped.take(i as int)),
        decreases ms@.len() - i,
    {
        assert(mapped.take(i + 1).drop_last() =~= mapped.take(i as int));
        assert(groups_on_boundaries(ms@[i as int], source.spec_bytes()));
        match virtual_class_at(source, &ms[i]) {
            Some(c) => {
                let ghost prev = r@.map_values(|c: VirtualClass| vclass_view(c));
                let ghost cv = vclass_view(c);
                r.push(c);
                assert(r@.map_values(|c: VirtualClass| vclass_view(c)) =~= prev.push(cv));
            },
            None => {},
        }
        i = i + 1;
    }
    assert(mapped.take(ms@.len() as int) =~= mapped);
    r
}

/// The classes of `source` with their virtual functions, in order (see
/// `virtual_classes_spec`).
pub fn detect_virtual_functions(source: &str) -> (r: Vec<VirtualClass>)
    ensures
        r@.map_values(|c: VirtualClass| vclass_view(c)) == virtual_classes_spec(source@),
{
    let ms = captures_all(VIRTUAL_CLASS_PATTERN, source);
    virtual_classes_from_matches(source, &ms)
}

} // verus!
