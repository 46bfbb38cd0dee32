//! Structural analysis of C/C++ source files: language, declarations, and the report over a
//! project.
use vstd::prelude::*;
use vstd::string::*;
use vstd::utf8::*;

use crate::memory::{analyze_memory_patterns, memory_sites, summarize_memory_patterns, summary_spec};
use crate::paths::{extension, path_extension};
use crate::preprocessor::{
    extract_includes, extract_macros, includes_spec, macro_views, macros_spec, CONDITIONAL_PATTERN,
    FUNCTION_MACRO_PATTERN, INCLUDE_PATTERN, OBJECT_MACRO_PATTERN,
};
use crate::patterns::{
    captures_all, is_match, regex_is_match, end_of, group_present, group_text, match_end, match_start, match_view,
    matches_view, present, regex_captures, start_of, text_of, Match,
};
use crate::text::{
    chars_of, contains, contains_char, contains_spec, copy_str, find, find_spec, join, join_spec,
    push_range, split_at_byte, split_char, split_spec, split_trim, split_trim_spec,
    split_whitespace, split_whitespace_spec, str_eq, str_lower, to_lowercase, trim, trim_spec,
    trim_start_char, trim_start_matches, views, decimal, lines, lines_spec, push_decimal, push_str,
};
use crate::types::{
    CppBase, CppClass, CppField, CppFile, CppFunction, CppGlobal, CppParam, CppProject,
    CppStandard, CppStruct, Language, Visibility, language_name, standard_name,
};

verus! {

// ---------------------------------------------------------------------------
// Brace blocks
// ---------------------------------------------------------------------------

/// Scanning for the brace that closes a block, from index `i` of `cs` with nesting `depth`,
/// lexical mode `mode` (0 code, 1 string, 2 character literal, 3 line comment, 4 block comment)
/// and previous character `prev`: the index of the closing brace, if there is one. Braces in
/// strings, character literals and comments do not count; a quote preceded by a backslash does
/// not end a literal.
pub open spec fn brace_scan(cs: Seq<char>, i: int, depth: int, mode: int, prev: char) -> Option<
    int,
>
    decreases cs.len() - i,
{
    if i < 0 || i >= cs.len() {
        None
    } else {
        let ch = cs[i];
        if mode == 3 {
            brace_scan(cs, i + 1, depth, if ch == '\n' { 0 } else { 3 }, ch)
        } else if mode == 4 {
            brace_scan(cs, i + 1, depth, if prev == '*' && ch == '/' { 0 } else { 4 }, ch)
        } else if mode == 1 {
            brace_scan(cs, i + 1, depth, if ch == '"' && prev != '\\' { 0 } else { 1 }, ch)
        } else if mode == 2 {
            brace_scan(cs, i + 1, depth, if ch == '\'' && prev != '\\' { 0 } else { 2 }, ch)
        } else if ch == '/' && i + 1 < cs.len() && cs[i + 1] == '/' {
            brace_scan(cs, i + 1, depth, 3, ch)
        } else if ch == '/' && i + 1 < cs.len() && cs[i + 1] == '*' {
            brace_scan(cs, i + 1, depth, 4, ch)
        } else if ch == '"' {
            brace_scan(cs, i + 1, depth, 1, ch)
        } else if ch == '\'' {
            brace_scan(cs, i + 1, depth, 2, ch)
        } else if ch == '{' {
            brace_scan(cs, i + 1, depth + 1, 0, ch)
        } else if ch == '}' {
            if depth - 1 == 0 {
                Some(i)
            } else {
                brace_scan(cs, i + 1, depth - 1, 0, ch)
            }
        } else {
            brace_scan(cs, i + 1, depth, 0, ch)
        }
    }
}

/// The text of `source` from byte offset `pos` on.
pub open spec fn suffix_at(source: Seq<char>, pos: int) -> Seq<char> {
    decode_utf8(encode_utf8(source).subrange(pos, encode_utf8(source).len() as int))
}

/// The contents of the brace block that opens at byte offset `pos` of `source`: none unless a
/// `{` stands there and its matching `}` is found.
pub open spec fn brace_block_spec(source: Seq<char>, pos: int) -> Option<Seq<char>> {
    if pos < 0 || pos >= encode_utf8(source).len() || encode_utf8(source)[pos] != 123 {
        None
    } else {
        let cs = suffix_at(source, pos);
        match brace_scan(cs, 0, 0, 0, '\0') {
            Some(k) => Some(cs.subrange(1, k)),
            None => None,
        }
    }
}

/// Returns the text between the `{` at byte offset `open_brace_pos` of `source` and its
/// matching `}`, skipping braces inside strings, character literals and comments; `None` when
/// no `{` stands at that offset or the block is not closed.
pub fn extract_brace_block(source: &str, open_brace_pos: usize) -> (r: Option<String>)
    ensures
        match r {
            Some(s) => brace_block_spec(source@, open_brace_pos as int) == Some(s@),
            None => brace_block_spec(source@, open_brace_pos as int) is None,
        },
{
    let bytes = source.as_bytes();
    if open_brace_pos >= bytes.len() || bytes[open_brace_pos] != 123 {
        return None;
    }
    proof {
        crate::text::lemma_boundary_at(source, open_brace_pos as int);
        crate::text::lemma_suffix_starts_ascii(source, open_brace_pos as int);
    }
    let (_, rest) = split_at_byte(source, open_brace_pos);
    let cs = chars_of(rest);
    let ghost sc = suffix_at(source@, open_brace_pos as int);
    assert(cs@ == sc);
    let mut depth: usize = 0;
    let mut mode: u8 = 0;
    let mut prev: char = '\0';
    let mut i: usize = 0;
    while i < cs.len()
        invariant
            cs@ == sc,
            sc == suffix_at(source@, open_brace_pos as int),
            open_brace_pos < source.spec_bytes().len(),
            source.spec_bytes()[open_brace_pos as int] == 123,
            i <= cs@.len(),
            depth <= i,
            mode <= 4,
            sc.len() > 0 && sc[0] == '{',
            i > 0 ==> depth >= 1,
            i == 0 ==> depth == 0 && mode == 0,
            brace_scan(sc, 0, 0, 0, '\0') == brace_scan(sc, i as int, depth as int, mode as int, prev),
        decreases cs@.len() - i,
    {
        let ch = cs[i];
        if mode == 3 {
            if ch == '\n' {
                mode = 0;
            }
        } else if mode == 4 {
            if prev == '*' && ch == '/' {
                mode = 0;
            }
        } else if mode == 1 {
            if ch == '"' && prev != '\\' {
                mode = 0;
            }
        } else if mode == 2 {
            if ch == '\'' && prev != '\\' {
                mode = 0;
            }
        } else if ch == '/' && i + 1 < cs.len() && cs[i + 1] == '/' {
            mode = 3;
        } else if ch == '/' && i + 1 < cs.len() && cs[i + 1] == '*' {
            mode = 4;
        } else if ch == '"' {
            mode = 1;
        } else if ch == '\'' {
            mode = 2;
        } else if ch == '{' {
            depth = depth + 1;
        } else if ch == '}' {
            if depth == 1 {
                let mut s = String::new();
                assert(brace_scan(sc, i as int, 1, 0, prev) == Some(i as int));
                push_range(&mut s, cs.as_slice(), 1, i);
                return Some(s);
            }
            depth = depth - 1;
        }
        prev = ch;
        i = i + 1;
    }
    None
}


// ---------------------------------------------------------------------------
// Bases, visibility, parameters
// ---------------------------------------------------------------------------

/// The visibility named by an access keyword (`public`, `protected`; anything else is private).
pub open spec fn visibility_spec(s: Seq<char>) -> Visibility {
    if s == "public"@ {
        Visibility::Public
    } else if s == "protected"@ {
        Visibility::Protected
    } else {
        Visibility::Private
    }
}

/// Parses an access keyword.
pub fn parse_visibility(s: &str) -> (r: Visibility)
    ensures
        r == visibility_spec(s@),
{
    if str_eq(s, "public") {
        Visibility::Public
    } else if str_eq(s, "protected") {
        Visibility::Protected
    } else {
        Visibility::Private
    }
}

/// Whether a word is an access keyword.
pub open spec fn is_access_word(p: Seq<char>) -> bool {
    p == "public"@ || p == "protected"@ || p == "private"@
}

/// The first access keyword among `parts`.
pub open spec fn first_access(parts: Seq<Seq<char>>) -> Option<Seq<char>>
    decreases parts.len(),
{
    if parts.len() == 0 {
        None
    } else if is_access_word(parts[0]) {
        Some(parts[0])
    } else {
        first_access(parts.drop_first())
    }
}

/// The first word among `parts` that is neither an access keyword nor `virtual`.
pub open spec fn first_plain(parts: Seq<Seq<char>>) -> Option<Seq<char>>
    decreases parts.len(),
{
    if parts.len() == 0 {
        None
    } else if !is_access_word(parts[0]) && parts[0] != "virtual"@ {
        Some(parts[0])
    } else {
        first_plain(parts.drop_first())
    }
}

/// The plain value of a base class.
pub open spec fn base_view(b: CppBase) -> (Seq<char>, Visibility, bool) {
    (b.name@, b.visibility, b.is_virtual)
}

/// The base class described by one comma-separated piece of a base-class list: its words are a
/// name, `virtual name`, `access name`, or (three or more) some mix in which the first access
/// keyword and the first other word count.
pub open spec fn base_piece_spec(piece: Seq<char>) -> Option<(Seq<char>, Visibility, bool)> {
    let b = trim_spec(piece);
    if b.len() == 0 {
        None
    } else {
        let parts = split_whitespace_spec(b);
        if parts.len() == 1 {
            Some((parts[0], Visibility::Private, false))
        } else if parts.len() == 2 && parts[0] == "virtual"@ {
            Some((parts[1], Visibility::Private, true))
        } else if parts.len() == 2 {
            Some((parts[1], visibility_spec(parts[0]), false))
        } else if parts.len() >= 3 {
            Some(
                (
                    match first_plain(parts) {
                        Some(n) => n,
                        None => Seq::empty(),
                    },
                    match first_access(parts) {
                        Some(v) => visibility_spec(v),
                        None => Visibility::Private,
                    },
                    parts.contains("virtual"@),
                ),
            )
        } else {
            None
        }
    }
}

/// The present values of `s`, in order.
pub open spec fn somes<T>(s: Seq<Option<T>>) -> Seq<T>
    decreases s.len(),
{
    if s.len() == 0 {
        Seq::empty()
    } else {
        let r = somes(s.drop_last());
        match s.last() {
            Some(x) => r.push(x),
            None => r,
        }
    }
}

/// The base classes of a base-class list.
pub open spec fn bases_spec(s: Seq<char>) -> Seq<(Seq<char>, Visibility, bool)> {
    somes(split_spec(s, ',').map_values(|p: Seq<char>| base_piece_spec(p)))
}

fn first_access_exec(parts: &Vec<String>) -> (r: Option<usize>)
    ensures
        match r {
            Some(i) => i < parts@.len() && first_access(views(parts@)) == Some(parts@[i as int]@),
            None => first_access(views(parts@)) is None,
        },
{
    let ghost pv = views(parts@);
    let mut i: usize = 0;
    assert(pv.skip(0) =~= pv);
    while i < parts.len()
        invariant
            i <= parts@.len(),
            pv == views(parts@),
            first_access(pv) == first_access(pv.skip(i as int)),
        decreases parts@.len() - i,
    {
        assert(pv.skip(i as int).drop_first() =~= pv.skip(i + 1));
        assert(pv.skip(i as int)[0] == parts@[i as int]@);
        let w = parts[i].as_str();
        if str_eq(w, "public") || str_eq(w, "protected") || str_eq(w, "private") {
            return Some(i);
        }
        i = i + 1;
    }
    assert(pv.skip(i as int).len() == 0);
    None
}

fn first_plain_exec(parts: &Vec<String>) -> (r: Option<usize>)
    ensures
        match r {
            Some(i) => i < parts@.len() && first_plain(views(parts@)) == Some(parts@[i as int]@),
            None => first_plain(views(parts@)) is None,
        },
{
    let ghost pv = views(parts@);
    let mut i: usize = 0;
    assert(pv.skip(0) =~= pv);
    while i < parts.len()
        invariant
            i <= parts@.len(),
            pv == views(parts@),
            first_plain(pv) == first_plain(pv.skip(i as int)),
        decreases parts@.len() - i,
    {
        assert(pv.skip(i as int).drop_first() =~= pv.skip(i + 1));
        assert(pv.skip(i as int)[0] == parts@[i as int]@);
        let w = parts[i].as_str();
        if !(str_eq(w, "public") || str_eq(w, "protected") || str_eq(w, "private")) && !str_eq(
            w,
            "virtual",
        ) {
            return Some(i);
        }
        i = i + 1;
    }
    assert(pv.skip(i as int).len() == 0);
    None
}

fn contains_word(parts: &Vec<String>, w: &str) -> (r: bool)
    ensures
        r == views(parts@).contains(w@),
{
    let ghost pv = views(parts@);
    let mut i: usize = 0;
    while i < parts.len()
        invariant
            i <= parts@.len(),
            pv == views(parts@),
            forall|j: int| 0 <= j < i ==> pv[j] != w@,
        decreases parts@.len() - i,
    {
        if str_eq(parts[i].as_str(), w) {
            assert(pv[i as int] == w@);
            return true;
        }
        i = i + 1;
    }
    false
}

fn base_piece(piece: &str) -> (r: Option<CppBase>)
    ensures
        match r {
            Some(b) => base_piece_spec(piece@) == Some(base_view(b)),
            None => base_piece_spec(piece@) is None,
        },
{
    let b = trim(piece);
    if b.as_str().is_empty() {
        return None;
    }
    let parts = split_whitespace(b.as_str());
    let ghost pv = views(parts@);
    if parts.len() == 1 {
        return Some(
            CppBase {
                name: copy_str(parts[0].as_str()),
                visibility: Visibility::Private,
                is_virtual: false,
            },
        );
    }
    if parts.len() == 2 && str_eq(parts[0].as_str(), "virtual") {
        return Some(
            CppBase {
                name: copy_str(parts[1].as_str()),
                visibility: Visibility::Private,
                is_virtual: true,
            },
        );
    }
    if parts.len() == 2 {
        return Some(
            CppBase {
                name: copy_str(parts[1].as_str()),
                visibility: parse_visibility(parts[0].as_str()),
                is_virtual: false,
            },
        );
    }
    if parts.len() >= 3 {
        let is_virtual = contains_word(&parts, "virtual");
        let visibility = match first_access_exec(&parts) {
            Some(i) => parse_visibility(parts[i].as_str()),
            None => Visibility::Private,
        };
        let name = match first_plain_exec(&parts) {
            Some(i) => copy_str(parts[i].as_str()),
            None => String::new(),
        };
        return Some(CppBase { name, visibility, is_virtual });
    }
    None
}

/// Parses the base-class list of a class declaration (the text after `:`).
pub fn parse_bases(bases_str: &str) -> (r: Vec<CppBase>)
    ensures
        r@.map_values(|b: CppBase| base_view(b)) == bases_spec(bases_str@),
{
    let pieces = split_char(bases_str, ',');
    let ghost mapped = views(pieces@).map_values(|p: Seq<char>| base_piece_spec(p));
    let mut r: Vec<CppBase> = Vec::new();
    let mut i: usize = 0;
    while i < pieces.len()
        invariant
            i <= pieces@.len(),
            mapped == views(pieces@).map_values(|p: Seq<char>| base_piece_spec(p)),
            r@.map_values(|b: CppBase| base_view(b)) == somes(mapped.take(i as int)),
        decreases pieces@.len() - i,
    {
        assert(mapped.take(i + 1).drop_last() =~= mapped.take(i as int));
        assert(mapped[i as int] == base_piece_spec(pieces@[i as int]@));
        match base_piece(pieces[i].as_str()) {
            Some(b) => {
                let ghost before = r@.map_values(|b: CppBase| base_view(b));
                r.push(b);
                assert(r@.map_values(|b: CppBase| base_view(b)) =~= before.push(base_view(b)));
            },
            None => {},
        }
        i = i + 1;
    }
    assert(mapped.take(pieces@.len() as int) =~= mapped);
    r
}

/// The plain value of a parameter: name, type, default value, const, reference, pointer.
pub open spec fn param_view(p: CppParam) -> (
    Seq<char>,
    Seq<char>,
    Option<Seq<char>>,
    bool,
    bool,
    bool,
) {
    (p.name@, p.type_text@, match p.default_value {
        Some(d) => Some(d@),
        None => None,
    }, p.is_const, p.is_reference, p.is_pointer)
}

/// The parameter declared by one comma-separated piece of a parameter list: a default value
/// follows the first `=`; the last word (leading `*` and `&` dropped) is the name and the other
/// words the type, a single word being the type of an unnamed parameter.
pub open spec fn param_piece_spec(piece: Seq<char>) -> Option<
    (Seq<char>, Seq<char>, Option<Seq<char>>, bool, bool, bool),
> {
    let p = trim_spec(piece);
    if p.len() == 0 {
        None
    } else {
        let (param, dv) = match find_spec(p, "="@) {
            Some(i) => (trim_spec(p.take(i)), Some(trim_spec(p.skip(i + 1)))),
            None => (p, None),
        };
        let is_const = contains_spec(param, "const "@);
        let is_ref = param.contains('&');
        let is_ptr = param.contains('*');
        let parts = split_whitespace_spec(param);
        if parts.len() == 0 {
            None
        } else if parts.len() == 1 {
            Some((Seq::empty(), parts[0], dv, is_const, is_ref, is_ptr))
        } else {
            Some(
                (
                    trim_start_char(trim_start_char(parts.last(), '*'), '&'),
                    join_spec(parts.drop_last(), " "@),
                    dv,
                    is_const,
                    is_ref,
                    is_ptr,
                ),
            )
        }
    }
}

/// The parameters of a parameter list (none for an empty list or `void`).
pub open spec fn params_spec(s: Seq<char>) -> Seq<(Seq<char>, Seq<char>, Option<Seq<char>>, bool, bool, bool)> {
    let t = trim_spec(s);
    if t.len() == 0 || t == "void"@ {
        Seq::empty()
    } else {
        somes(split_spec(t, ',').map_values(|p: Seq<char>| param_piece_spec(p)))
    }
}

/// A parameter piece split at its first `=` into declaration and default value.
pub open spec fn split_default_spec(p: Seq<char>) -> (Seq<char>, Option<Seq<char>>) {
    match find_spec(p, "="@) {
        Some(i) => (trim_spec(p.take(i)), Some(trim_spec(p.skip(i + 1)))),
        None => (p, None),
    }
}

#[verifier::rlimit(40)]
fn split_default(p: &str) -> (r: (String, Option<String>))
    ensures
        (r.0@, match r.1 {
            Some(d) => Some(d@),
            None => None,
        }) == split_default_spec(p@),
{
    let pc = chars_of(p);
    match find(p, "=") {
        Some(i) => {
            proof {
                reveal_strlit("=");
            }
            assert(i < pc@.len());
            assert(i < pc.len());
            let mut before = String::new();
            push_range(&mut before, pc.as_slice(), 0, i);
            let mut after = String::new();
            push_range(&mut after, pc.as_slice(), i + 1, pc.len());
            assert(before@ =~= p@.take(i as int));
            assert(after@ =~= p@.skip(i + 1));
            (trim(before.as_str()), Some(trim(after.as_str())))
        },
        None => (copy_str(p), None),
    }
}

proof fn lemma_param_piece_unfold(piece: Seq<char>)
    requires
        trim_spec(piece).len() > 0,
    ensures
        param_piece_spec(piece) == ({
            let (param, dv) = split_default_spec(trim_spec(piece));
            let is_const = contains_spec(param, "const "@);
            let is_ref = param.contains('&');
            let is_ptr = param.contains('*');
            let parts = split_whitespace_spec(param);
            if parts.len() == 0 {
                None
            } else if parts.len() == 1 {
                Some((Seq::empty(), parts[0], dv, is_const, is_ref, is_ptr))
            } else {
                Some(
                    (
                        trim_start_char(trim_start_char(parts.last(), '*'), '&'),
                        join_spec(parts.drop_last(), " "@),
                        dv,
                        is_const,
                        is_ref,
                        is_ptr,
                    ),
                )
            }
        }),
{
}

fn param_piece(piece: &str) -> (r: Option<CppParam>)
    ensures
        match r {
            Some(x) => param_piece_spec(piece@) == Some(param_view(x)),
            None => param_piece_spec(piece@) is None,
        },
{
    let p = trim(piece);
    if p.as_str().is_empty() {
        return None;
    }
    proof {
        lemma_param_piece_unfold(piece@);
    }
    let (param, default_value) = split_default(p.as_str());
    let is_const = contains(param.as_str(), "const ");
    let is_reference = contains_char(param.as_str(), '&');
    let is_pointer = contains_char(param.as_str(), '*');
    let mut parts = split_whitespace(param.as_str());
    if parts.len() == 0 {
        return None;
    }
    if parts.len() == 1 {
        return Some(
            CppParam {
                name: String::new(),
                type_text: copy_str(parts[0].as_str()),
                default_value,
                is_const,
                is_reference,
                is_pointer,
            },
        );
    }
    let ghost pv = views(parts@);
    let last = parts.pop().unwrap();
    assert(views(parts@) =~= pv.drop_last());
    let name = trim_start_matches(trim_start_matches(last.as_str(), '*').as_str(), '&');
    let type_text = join(&parts, " ");
    Some(CppParam { name, type_text, default_value, is_const, is_reference, is_pointer })
}

/// Parses a C/C++ parameter list.
pub fn parse_params(params_str: &str) -> (r: Vec<CppParam>)
    ensures
        r@.map_values(|p: CppParam| param_view(p)) == params_spec(params_str@),
{
    let t = trim(params_str);
    if t.as_str().is_empty() || str_eq(t.as_str(), "void") {
        return Vec::new();
    }
    let pieces = split_char(t.as_str(), ',');
    let ghost mapped = views(pieces@).map_values(|p: Seq<char>| param_piece_spec(p));
    let mut r: Vec<CppParam> = Vec::new();
    let mut i: usize = 0;
    while i < pieces.len()
        invariant
            i <= pieces@.len(),
            mapped == views(pieces@).map_values(|p: Seq<char>| param_piece_spec(p)),
            r@.map_values(|p: CppParam| param_view(p)) == somes(mapped.take(i as int)),
        decreases pieces@.len() - i,
    {
        assert(mapped.take(i + 1).drop_last() =~= mapped.take(i as int));
        assert(mapped[i as int] == param_piece_spec(pieces@[i as int]@));
        match param_piece(pieces[i].as_str()) {
            Some(x) => {
                let ghost before = r@.map_values(|p: CppParam| param_view(p));
                r.push(x);
                assert(r@.map_values(|p: CppParam| param_view(p)) =~= before.push(param_view(x)));
            },
            None => {},
        }
        i = i + 1;
    }
    assert(mapped.take(pieces@.len() as int) =~= mapped);
    r
}


// ---------------------------------------------------------------------------
// Fields, structs and globals
// ---------------------------------------------------------------------------

/// The plain value of a field: name, type, visibility, static, const.
pub open spec fn field_view(f: CppField) -> (Seq<char>, Seq<char>, Visibility, bool, bool) {
    (f.name@, f.type_text@, f.visibility, f.is_static, f.is_const)
}

/// The plain values of fields.
pub open spec fn field_views(fs: Seq<CppField>) -> Seq<(Seq<char>, Seq<char>, Visibility, bool, bool)> {
    fs.map_values(|f: CppField| field_view(f))
}

/// The pattern of a C struct declaration: group 1 marks a `typedef`, group 2 is the tag, group
/// 3 the body and group 4 the typedef name.
pub const STRUCT_PATTERN: &'static str = r"(?m)(typedef\s+)?struct\s+(\w+)?\s*\{([^}]*)\}\s*(\w+)?\s*;";

/// The pattern of a struct field: group 1 marks `const`, group 2 is the type, group 3 the name.
pub const STRUCT_FIELD_PATTERN: &'static str = r"(?m)^\s*(const\s+)?(\w[\w\s\*&<>,]*?)\s+(\w+)\s*;";

/// The field read from one match of `STRUCT_FIELD_PATTERN`: public, not static.
pub open spec fn struct_field_spec(m: Seq<Option<(int, int, Seq<char>)>>) -> (
    Seq<char>,
    Seq<char>,
    Visibility,
    bool,
    bool,
) {
    (group_text(m, 3), trim_spec(group_text(m, 2)), Visibility::Public, false, group_present(m, 1))
}

/// The fields of a struct body.
pub open spec fn struct_fields_spec(body: Seq<char>) -> Seq<(Seq<char>, Seq<char>, Visibility, bool, bool)> {
    regex_captures(STRUCT_FIELD_PATTERN@, body).map_values(
        |m: Seq<Option<(int, int, Seq<char>)>>| struct_field_spec(m),
    )
}

/// The struct fields of the matches `ms` of `STRUCT_FIELD_PATTERN`.
pub fn struct_fields_from_matches(ms: &Vec<Match>) -> (r: Vec<CppField>)
    ensures
        field_views(r@) == matches_view(ms@).map_values(
            |m: Seq<Option<(int, int, Seq<char>)>>| struct_field_spec(m),
        ),
{
    let ghost mv = matches_view(ms@);
    let mut r: Vec<CppField> = Vec::new();
    let mut i: usize = 0;
    while i < ms.len()
        invariant
            i <= ms@.len(),
            mv == matches_view(ms@),
            field_views(r@) == mv.take(i as int).map_values(
                |m: Seq<Option<(int, int, Seq<char>)>>| struct_field_spec(m),
            ),
        decreases ms@.len() - i,
    {
        let m = &ms[i];
        let ty = text_of(m, 2);
        let f = CppField {
            name: text_of(m, 3),
            type_text: trim(ty.as_str()),
            visibility: Visibility::Public,
            is_static: false,
            is_const: present(m, 1),
        };
        let ghost prev = field_views(r@);
        let ghost fv = field_view(f);
        r.push(f);
        assert(field_views(r@) =~= prev.push(fv));
        assert(mv.take(i + 1) =~= mv.take(i as int).push(mv[i as int]));
        i = i + 1;
    }
    assert(mv.take(ms@.len() as int) =~= mv);
    r
}

/// The fields declared in a struct body, in order.
pub fn extract_struct_fields(body: &str) -> (r: Vec<CppField>)
    ensures
        field_views(r@) == struct_fields_spec(body@),
{
    let ms = captures_all(STRUCT_FIELD_PATTERN, body);
    struct_fields_from_matches(&ms)
}

/// The plain value of a struct: name, fields, typedef.
pub open spec fn struct_view(s: CppStruct) -> (
    Seq<char>,
    Seq<(Seq<char>, Seq<char>, Visibility, bool, bool)>,
    bool,
) {
    (s.name@, field_views(s.fields@), s.is_typedef)
}

/// The struct read from one match of `STRUCT_PATTERN`: named by its tag, else by its typedef
/// name, else `anonymous`.
pub open spec fn struct_from_match(m: Seq<Option<(int, int, Seq<char>)>>) -> (
    Seq<char>,
    Seq<(Seq<char>, Seq<char>, Visibility, bool, bool)>,
    bool,
) {
    let name = if group_present(m, 2) {
        group_text(m, 2)
    } else if group_present(m, 4) {
        group_text(m, 4)
    } else {
        "anonymous"@
    };
    (name, struct_fields_spec(group_text(m, 3)), group_present(m, 1))
}

/// The structs of a source, one per match of `STRUCT_PATTERN`.
pub open spec fn structs_spec(source: Seq<char>) -> Seq<
    (Seq<char>, Seq<(Seq<char>, Seq<char>, Visibility, bool, bool)>, bool),
> {
    regex_captures(STRUCT_PATTERN@, source).map_values(
        |m: Seq<Option<(int, int, Seq<char>)>>| struct_from_match(m),
    )
}

/// The structs of the matches `ms` of `STRUCT_PATTERN`.
pub fn structs_from_matches(ms: &Vec<Match>) -> (r: Vec<CppStruct>)
    ensures
        r@.map_values(|s: CppStruct| struct_view(s)) == matches_view(ms@).map_values(
            |m: Seq<Option<(int, int, Seq<char>)>>| struct_from_match(m),
        ),
{
    let ghost mv = matches_view(ms@);
    let mut r: Vec<CppStruct> = Vec::new();
    let mut i: usize = 0;
    while i < ms.len()
        invariant
            i <= ms@.len(),
            mv == matches_view(ms@),
            r@.map_values(|s: CppStruct| struct_view(s)) == mv.take(i as int).map_values(
                |m: Seq<Option<(int, int, Seq<char>)>>| struct_from_match(m),
            ),
        decreases ms@.len() - i,
    {
        let m = &ms[i];
        let name = if present(m, 2) {
            text_of(m, 2)
        } else if present(m, 4) {
            text_of(m, 4)
        } else {
            copy_str("anonymous")
        };
        let body = text_of(m, 3);
        let fields = extract_struct_fields(body.as_str());
        let s = CppStruct { name, fields, is_typedef: present(m, 1) };
        let ghost prev = r@.map_values(|s: CppStruct| struct_view(s));
        let ghost sv = struct_view(s);
        r.push(s);
        assert(r@.map_values(|s: CppStruct| struct_view(s)) =~= prev.push(sv));
        assert(mv.take(i + 1) =~= mv.take(i as int).push(mv[i as int]));
        i = i + 1;
    }
    assert(mv.take(ms@.len() as int) =~= mv);
    r
}

/// The structs declared in `source`, in order.
pub fn extract_structs(source: &str) -> (r: Vec<CppStruct>)
    ensures
        r@.map_values(|s: CppStruct| struct_view(s)) == structs_spec(source@),
{
    let ms = captures_all(STRUCT_PATTERN, source);
    structs_from_matches(&ms)
}

/// The pattern of a class member variable: groups 1 and 2 mark `static` and `const`, group 3
/// is the type, group 4 the name.
pub const CLASS_FIELD_PATTERN: &'static str = r"(?m)^\s*(static\s+)?(const\s+)?([\w:*&<>, ]+?)\s+(\w+)\s*(?:=\s*[^;]+)?;";

/// The field read from one match of `CLASS_FIELD_PATTERN`: private; none when its type holds
/// a `(` or its name is `return`.
pub open spec fn class_field_entry(m: Seq<Option<(int, int, Seq<char>)>>) -> Option<
    (Seq<char>, Seq<char>, Visibility, bool, bool),
> {
    let ty = trim_spec(group_text(m, 3));
    let name = group_text(m, 4);
    if ty.contains('(') || name == "return"@ {
        None
    } else {
        Some((name, ty, Visibility::Private, group_present(m, 1), group_present(m, 2)))
    }
}

/// The member variables of a class body.
pub open spec fn class_fields_spec(body: Seq<char>) -> Seq<(Seq<char>, Seq<char>, Visibility, bool, bool)> {
    somes(
        regex_captures(CLASS_FIELD_PATTERN@, body).map_values(
            |m: Seq<Option<(int, int, Seq<char>)>>| class_field_entry(m),
        ),
    )
}

/// The member variables of the matches `ms` of `CLASS_FIELD_PATTERN`.
pub fn class_fields_from_matches(ms: &Vec<Match>) -> (r: Vec<CppField>)
    ensures
        field_views(r@) == somes(
            matches_view(ms@).map_values(
                |m: Seq<Option<(int, int, Seq<char>)>>| class_field_entry(m),
            ),
        ),
{
    let ghost mapped = matches_view(ms@).map_values(
        |m: Seq<Option<(int, int, Seq<char>)>>| class_field_entry(m),
    );
    let mut r: Vec<CppField> = Vec::new();
    let mut i: usize = 0;
    while i < ms.len()
        invariant
            i <= ms@.len(),
            mapped == matches_view(ms@).map_values(
                |m: Seq<Option<(int, int, Seq<char>)>>| class_field_entry(m),
            ),
            field_views(r@) == somes(mapped.take(i as int)),
        decreases ms@.len() - i,
    {
        assert(mapped.take(i + 1).drop_last() =~= mapped.take(i as int));
        let m = &ms[i];
        let ty_text = text_of(m, 3);
        let ty = trim(ty_text.as_str());
        let name = text_of(m, 4);
        if !(contains_char(ty.as_str(), '(') || str_eq(name.as_str(), "return")) {
            let f = CppField {
                name,
                type_text: ty,
                visibility: Visibility::Private,
                is_static: present(m, 1),
                is_const: present(m, 2),
            };
            let ghost prev = field_views(r@);
            let ghost fv = field_view(f);
            r.push(f);
            assert(field_views(r@) =~= prev.push(fv));
        }
        i = i + 1;
    }
    assert(mapped.take(ms@.len() as int) =~= mapped);
    r
}

/// The member variables declared in a class body, in order.
pub fn extract_class_fields(class_body: &str) -> (r: Vec<CppField>)
    ensures
        field_views(r@) == class_fields_spec(class_body@),
{
    let ms = captures_all(CLASS_FIELD_PATTERN, class_body);
    class_fields_from_matches(&ms)
}

/// The plain value of a global: name, type, const, extern.
pub open spec fn global_view(g: CppGlobal) -> (Seq<char>, Seq<char>, bool, bool) {
    (g.name@, g.type_text@, g.is_const, g.is_extern)
}

/// The pattern of an initialised variable at the start of a line: groups 1 and 2 mark `extern`
/// and `const`, group 3 is the type, group 4 the name.
pub const GLOBAL_PATTERN: &'static str = r"(?m)^(extern\s+)?(const\s+)?([\w:*&<>, ]+?)\s+(\w+)\s*=\s*[^;]+;";

/// The global read from one match of `GLOBAL_PATTERN`; none when its type holds a `(`.
pub open spec fn global_entry(m: Seq<Option<(int, int, Seq<char>)>>) -> Option<
    (Seq<char>, Seq<char>, bool, bool),
> {
    let ty = trim_spec(group_text(m, 3));
    if ty.contains('(') {
        None
    } else {
        Some((group_text(m, 4), ty, group_present(m, 2), group_present(m, 1)))
    }
}

/// The globals of a source.
pub open spec fn globals_spec(source: Seq<char>) -> Seq<(Seq<char>, Seq<char>, bool, bool)> {
    somes(
        regex_captures(GLOBAL_PATTERN@, source).map_values(
            |m: Seq<Option<(int, int, Seq<char>)>>| global_entry(m),
        ),
    )
}

/// The globals of the matches `ms` of `GLOBAL_PATTERN`.
pub fn globals_from_matches(ms: &Vec<Match>) -> (r: Vec<CppGlobal>)
    ensures
        r@.map_values(|g: CppGlobal| global_view(g)) == somes(
            matches_view(ms@).map_values(|m: Seq<Option<(int, int, Seq<char>)>>| global_entry(m)),
        ),
{
    let ghost mapped = matches_view(ms@).map_values(
        |m: Seq<Option<(int, int, Seq<char>)>>| global_entry(m),
    );
    let mut r: Vec<CppGlobal> = Vec::new();
    let mut i: usize = 0;
    while i < ms.len()
        invariant
            i <= ms@.len(),
            mapped == matches_view(ms@).map_values(
                |m: Seq<Option<(int, int, Seq<char>)>>| global_entry(m),
            ),
            r@.map_values(|g: CppGlobal| global_view(g)) == somes(mapped.take(i as int)),
        decreases ms@.len() - i,
    {
        assert(mapped.take(i + 1).drop_last() =~= mapped.take(i as int));
        let m = &ms[i];
        let ty_text = text_of(m, 3);
        let ty = trim(ty_text.as_str());
        if !contains_char(ty.as_str(), '(') {
            let g = CppGlobal {
                name: text_of(m, 4),
                type_text: ty,
                is_const: present(m, 2),
                is_extern: present(m, 1),
            };
            let ghost prev = r@.map_values(|g: CppGlobal| global_view(g));
            let ghost gv = global_view(g);
            r.push(g);
            assert(r@.map_values(|g: CppGlobal| global_view(g)) =~= prev.push(gv));
        }
        i = i + 1;
    }
    assert(mapped.take(ms@.len() as int) =~= mapped);
    r
}

/// The initialised variables declared at the start of a line of `source`, in order.
pub fn extract_globals(source: &str) -> (r: Vec<CppGlobal>)
    ensures
        r@.map_values(|g: CppGlobal| global_view(g)) == globals_spec(source@),
{
    let ms = captures_all(GLOBAL_PATTERN, source);
    globals_from_matches(&ms)
}

/// The pattern of the angle brackets of a template header; group 1 is their content.
pub const TEMPLATE_PATTERN: &'static str = r"<(.*)>";

/// The template parameters of a template header: the content of its first angle brackets,
/// split at commas and trimmed; none when it has no brackets.
pub open spec fn template_params_spec(t: Seq<char>) -> Seq<Seq<char>> {
    let ms = regex_captures(TEMPLATE_PATTERN@, t);
    if ms.len() == 0 {
        Seq::empty()
    } else {
        split_trim_spec(group_text(ms[0], 1), ',')
    }
}

/// The template parameters from the matches `ms` of `TEMPLATE_PATTERN` in a header.
pub fn template_params_from_matches(ms: &Vec<Match>) -> (r: Vec<String>)
    ensures
        views(r@) == if matches_view(ms@).len() == 0 {
            Seq::<Seq<char>>::empty()
        } else {
            split_trim_spec(group_text(matches_view(ms@)[0], 1), ',')
        },
{
    if ms.len() == 0 {
        let r: Vec<String> = Vec::new();
        assert(views(r@) =~= Seq::<Seq<char>>::empty());
        r
    } else {
        let inner = text_of(&ms[0], 1);
        split_trim(inner.as_str(), ',')
    }
}

/// Parses the parameters of a template header (see `template_params_spec`).
pub fn parse_template_params(template_str: &str) -> (r: Vec<String>)
    ensures
        views(r@) == template_params_spec(template_str@),
{
    let ms = captures_all(TEMPLATE_PATTERN, template_str);
    template_params_from_matches(&ms)
}


// ---------------------------------------------------------------------------
// Functions, methods and classes
// ---------------------------------------------------------------------------

/// The plain value of a function: name, return type, parameters, body, static, virtual, const,
/// template, template parameters, visibility.
pub open spec fn function_view(f: CppFunction) -> (
    Seq<char>,
    Seq<char>,
    Seq<(Seq<char>, Seq<char>, Option<Seq<char>>, bool, bool, bool)>,
    Seq<char>,
    bool,
    bool,
    bool,
    bool,
    Seq<Seq<char>>,
    Visibility,
) {
    (
        f.name@,
        f.return_type@,
        f.params@.map_values(|p: CppParam| param_view(p)),
        f.body@,
        f.is_static,
        f.is_virtual,
        f.is_const,
        f.is_template,
        views(f.template_params@),
        f.visibility,
    )
}

/// The plain values of functions.
pub open spec fn function_views(fs: Seq<CppFunction>) -> Seq<
    (
        Seq<char>,
        Seq<char>,
        Seq<(Seq<char>, Seq<char>, Option<Seq<char>>, bool, bool, bool)>,
        Seq<char>,
        bool,
        bool,
        bool,
        bool,
        Seq<Seq<char>>,
        Visibility,
    ),
> {
    fs.map_values(|f: CppFunction| function_view(f))
}

/// Whether a name is a control-flow keyword that a function pattern can mistake for a name.
pub open spec fn is_control_word(n: Seq<char>) -> bool {
    n == "if"@ || n == "for"@ || n == "while"@ || n == "switch"@ || n == "catch"@
}

fn is_control_word_exec(n: &str) -> (r: bool)
    ensures
        r == is_control_word(n@),
{
    str_eq(n, "if") || str_eq(n, "for") || str_eq(n, "while") || str_eq(n, "switch") || str_eq(
        n,
        "catch",
    )
}

/// The body of the brace block whose `{` ends a match, or the empty text.
pub open spec fn block_after(source: Seq<char>, m: Seq<Option<(int, int, Seq<char>)>>) -> Seq<char> {
    match brace_block_spec(source, match_end(m) - 1) {
        Some(b) => b,
        None => Seq::empty(),
    }
}

fn block_after_exec(source: &str, m: &Match) -> (r: String)
    ensures
        r@ == block_after(source@, match_view(*m)),
{
    let end = end_of(m);
    if end == 0 {
        return String::new();
    }
    match extract_brace_block(source, end - 1) {
        Some(b) => b,
        None => String::new(),
    }
}

/// The template parameters of a match whose group 1 is an optional template header.
pub open spec fn match_template_params(m: Seq<Option<(int, int, Seq<char>)>>) -> Seq<Seq<char>> {
    if group_present(m, 1) {
        template_params_spec(group_text(m, 1))
    } else {
        Seq::empty()
    }
}

fn match_template_params_exec(m: &Match) -> (r: Vec<String>)
    ensures
        views(r@) == match_template_params(match_view(*m)),
{
    if present(m, 1) {
        let header = text_of(m, 1);
        parse_template_params(header.as_str())
    } else {
        let r: Vec<String> = Vec::new();
        assert(views(r@) =~= Seq::<Seq<char>>::empty());
        r
    }
}

/// The pattern of a top-level function definition: group 1 is an optional template header,
/// group 2 the qualifiers, group 3 the return type, group 4 the name and group 5 the
/// parameter list.
pub const FUNCTION_PATTERN: &'static str = r"(?m)^(template\s*<[^>]*>\s*)?((?:static\s+|virtual\s+|inline\s+|const\s+)*)([\w:*&<>, ]+?)\s+(\w+)\s*\(([^)]*)\)\s*(?:const\s*)?\{";

/// The function read from one match of `FUNCTION_PATTERN` in `source`: public, with the body of
/// the block that the match opens; none when its name is a control-flow keyword.
pub open spec fn function_entry(source: Seq<char>, m: Seq<Option<(int, int, Seq<char>)>>) -> Option<
    (
        Seq<char>,
        Seq<char>,
        Seq<(Seq<char>, Seq<char>, Option<Seq<char>>, bool, bool, bool)>,
        Seq<char>,
        bool,
        bool,
        bool,
        bool,
        Seq<Seq<char>>,
        Visibility,
    ),
> {
    let q = group_text(m, 2);
    if is_control_word(group_text(m, 4)) {
        None
    } else {
        Some(
            (
                group_text(m, 4),
                trim_spec(group_text(m, 3)),
                params_spec(group_text(m, 5)),
                block_after(source, m),
                contains_spec(q, "static"@),
                contains_spec(q, "virtual"@),
                contains_spec(q, "const"@),
                group_present(m, 1),
                match_template_params(m),
                Visibility::Public,
            ),
        )
    }
}

/// The functions of a source.
pub open spec fn functions_spec(source: Seq<char>) -> Seq<
    (
        Seq<char>,
        Seq<char>,
        Seq<(Seq<char>, Seq<char>, Option<Seq<char>>, bool, bool, bool)>,
        Seq<char>,
        bool,
        bool,
        bool,
        bool,
        Seq<Seq<char>>,
        Visibility,
    ),
> {
    somes(
        regex_captures(FUNCTION_PATTERN@, source).map_values(
            |m: Seq<Option<(int, int, Seq<char>)>>| function_entry(source, m),
        ),
    )
}

/// The functions of the matches `ms` of `FUNCTION_PATTERN` in `source`.
pub fn functions_from_matches(source: &str, ms: &Vec<Match>) -> (r: Vec<CppFunction>)
    ensures
        function_views(r@) == somes(
            matches_view(ms@).map_values(
                |m: Seq<Option<(int, int, Seq<char>)>>| function_entry(source@, m),
            ),
        ),
{
    let ghost mapped = matches_view(ms@).map_values(
        |m: Seq<Option<(int, int, Seq<char>)>>| function_entry(source@, m),
    );
    let mut r: Vec<CppFunction> = Vec::new();
    let mut i: usize = 0;
    while i < ms.len()
        invariant
            i <= ms@.len(),
            mapped == matches_view(ms@).map_values(
                |m: Seq<Option<(int, int, Seq<char>)>>| function_entry(source@, m),
            ),
            function_views(r@) == somes(mapped.take(i as int)),
        decreases ms@.len() - i,
    {
        assert(mapped.take(i + 1).drop_last() =~= mapped.take(i as int));
        let m = &ms[i];
        let name = text_of(m, 4);
        if !is_control_word_exec(name.as_str()) {
            let q = text_of(m, 2);
            let rt = text_of(m, 3);
            let ps = text_of(m, 5);
            let f = CppFunction {
                name,
                return_type: trim(rt.as_str()),
                params: parse_params(ps.as_str()),
                body: block_after_exec(source, m),
                is_static: contains(q.as_str(), "static"),
                is_virtual: contains(q.as_str(), "virtual"),
                is_const: contains(q.as_str(), "const"),
                is_template: present(m, 1),
                template_params: match_template_params_exec(m),
                visibility: Visibility::Public,
            };
            let ghost prev = function_views(r@);
            let ghost fv = function_view(f);
            r.push(f);
            assert(function_views(r@) =~= prev.push(fv));
        }
        i = i + 1;
    }
    assert(mapped.take(ms@.len() as int) =~= mapped);
    r
}

/// The function definitions of `source` that start a line, in order.
pub fn extract_functions(source: &str) -> (r: Vec<CppFunction>)
    ensures
        function_views(r@) == functions_spec(source@),
{
    let ms = captures_all(FUNCTION_PATTERN, source);
    functions_from_matches(source, &ms)
}

/// The pattern of an access label; group 1 is the keyword.
pub const ACCESS_PATTERN: &'static str = r"(?m)^\s*(public|protected|private)\s*:";

/// The pattern of a method declaration or definition: groups as in `FUNCTION_PATTERN`, ending
/// in `= 0;`, `= default;`, `= delete;` or `{`.
pub const METHOD_PATTERN: &'static str = r"(?m)(template\s*<[^>]*>\s*)?((?:static\s+|virtual\s+|inline\s+)*)([\w:*&<>, ]+?)\s+(\w+)\s*\(([^)]*)\)\s*(?:const\s*)?(?:override\s*)?(?:=\s*(?:0|default|delete)\s*;|\{)";

/// The access sections of a class body: a private one at offset 0, then one per access label,
/// at the label's start.
pub open spec fn access_sections(labels: Seq<Seq<Option<(int, int, Seq<char>)>>>) -> Seq<(int, Visibility)> {
    seq![(0int, Visibility::Private)] + labels.map_values(
        |m: Seq<Option<(int, int, Seq<char>)>>| (match_start(m), visibility_spec(group_text(m, 1))),
    )
}

/// The visibility in force at offset `pos`: that of the last section that starts at or before
/// it (private when there is none).
pub open spec fn visibility_at(sections: Seq<(int, Visibility)>, pos: int) -> Visibility
    decreases sections.len(),
{
    if sections.len() == 0 {
        Visibility::Private
    } else if sections.last().0 <= pos {
        sections.last().1
    } else {
        visibility_at(sections.drop_last(), pos)
    }
}

/// The method read from one match of `METHOD_PATTERN` in a class body, given the body's access
/// sections: const when the whole match holds `const`; with the body of the block when the
/// match ends with `{`, else empty; none when its name is a control-flow keyword.
pub open spec fn method_entry(
    body: Seq<char>,
    sections: Seq<(int, Visibility)>,
    m: Seq<Option<(int, int, Seq<char>)>>,
) -> Option<
    (
        Seq<char>,
        Seq<char>,
        Seq<(Seq<char>, Seq<char>, Option<Seq<char>>, bool, bool, bool)>,
        Seq<char>,
        bool,
        bool,
        bool,
        bool,
        Seq<Seq<char>>,
        Visibility,
    ),
> {
    let q = group_text(m, 2);
    let full = group_text(m, 0);
    if is_control_word(group_text(m, 4)) {
        None
    } else {
        Some(
            (
                group_text(m, 4),
                trim_spec(group_text(m, 3)),
                params_spec(group_text(m, 5)),
                if full.len() > 0 && full.last() == '{' {
                    block_after(body, m)
                } else {
                    Seq::empty()
                },
                contains_spec(q, "static"@),
                contains_spec(q, "virtual"@),
                contains_spec(full, "const"@),
                group_present(m, 1),
                match_template_params(m),
                visibility_at(sections, match_start(m)),
            ),
        )
    }
}

/// The methods of a class body, from the matches of `ACCESS_PATTERN` and `METHOD_PATTERN`.
pub open spec fn methods_from_matches_spec(
    body: Seq<char>,
    labels: Seq<Seq<Option<(int, int, Seq<char>)>>>,
    ms: Seq<Seq<Option<(int, int, Seq<char>)>>>,
) -> Seq<
    (
        Seq<char>,
        Seq<char>,
        Seq<(Seq<char>, Seq<char>, Option<Seq<char>>, bool, bool, bool)>,
        Seq<char>,
        bool,
        bool,
        bool,
        bool,
        Seq<Seq<char>>,
        Visibility,
    ),
> {
    somes(
        ms.map_values(
            |m: Seq<Option<(int, int, Seq<char>)>>| method_entry(body, access_sections(labels), m),
        ),
    )
}

/// The methods of a class body.
pub open spec fn methods_spec(body: Seq<char>) -> Seq<
    (
        Seq<char>,
        Seq<char>,
        Seq<(Seq<char>, Seq<char>, Option<Seq<char>>, bool, bool, bool)>,
        Seq<char>,
        bool,
        bool,
        bool,
        bool,
        Seq<Seq<char>>,
        Visibility,
    ),
> {
    methods_from_matches_spec(
        body,
        regex_captures(ACCESS_PATTERN@, body),
        regex_captures(METHOD_PATTERN@, body),
    )
}

fn visibility_at_exec(sections: &Vec<(usize, Visibility)>, pos: usize) -> (r: Visibility)
    ensures
        r == visibility_at(sections@.map_values(|s: (usize, Visibility)| (s.0 as int, s.1)), pos as int),
{
    let ghost sv = sections@.map_values(|s: (usize, Visibility)| (s.0 as int, s.1));
    let mut k: usize = sections.len();
    assert(sv.take(k as int) =~= sv);
    while k > 0
        invariant
            k <= sections@.len(),
            sv == sections@.map_values(|s: (usize, Visibility)| (s.0 as int, s.1)),
            visibility_at(sv, pos as int) == visibility_at(sv.take(k as int), pos as int),
        decreases k,
    {
        assert(sv.take(k as int).drop_last() =~= sv.take(k - 1));
        let (p, v) = sections[k - 1];
        if p <= pos {
            return v;
        }
        k = k - 1;
    }
    Visibility::Private
}

/// The methods of a class body from the matches `labels` of `ACCESS_PATTERN` and `ms` of
/// `METHOD_PATTERN` in it.
pub fn methods_from_matches(class_body: &str, labels: &Vec<Match>, ms: &Vec<Match>) -> (r: Vec<
    CppFunction,
>)
    ensures
        function_views(r@) == methods_from_matches_spec(
            class_body@,
            matches_view(labels@),
            matches_view(ms@),
        ),
{
    let mut sections: Vec<(usize, Visibility)> = Vec::new();
    sections.push((0, Visibility::Private));
    let ghost lv = matches_view(labels@);
    let mut j: usize = 0;
    while j < labels.len()
        invariant
            j <= labels@.len(),
            lv == matches_view(labels@),
            sections@.map_values(|s: (usize, Visibility)| (s.0 as int, s.1)) == access_sections(
                lv.take(j as int),
            ),
        decreases labels@.len() - j,
    {
        let kw = text_of(&labels[j], 1);
        let entry = (start_of(&labels[j]), parse_visibility(kw.as_str()));
        let ghost prev = sections@.map_values(|s: (usize, Visibility)| (s.0 as int, s.1));
        sections.push(entry);
        assert(sections@.map_values(|s: (usize, Visibility)| (s.0 as int, s.1)) =~= prev.push(
            (entry.0 as int, entry.1),
        ));
        assert(access_sections(lv.take(j + 1)) =~= access_sections(lv.take(j as int)).push(
            (match_start(lv[j as int]), visibility_spec(group_text(lv[j as int], 1))),
        ));
        j = j + 1;
    }
    assert(lv.take(labels@.len() as int) =~= lv);
    let ghost secs = access_sections(lv);
    let ghost mapped = matches_view(ms@).map_values(
        |m: Seq<Option<(int, int, Seq<char>)>>| method_entry(class_body@, secs, m),
    );
    let mut r: Vec<CppFunction> = Vec::new();
    let mut i: usize = 0;
    while i < ms.len()
        invariant
            i <= ms@.len(),
            secs == access_sections(lv),
            sections@.map_values(|s: (usize, Visibility)| (s.0 as int, s.1)) == secs,
            mapped == matches_view(ms@).map_values(
                |m: Seq<Option<(int, int, Seq<char>)>>| method_entry(class_body@, secs, m),
            ),
            function_views(r@) == somes(mapped.take(i as int)),
        decreases ms@.len() - i,
    {
        assert(mapped.take(i + 1).drop_last() =~= mapped.take(i as int));
        let m = &ms[i];
        let name = text_of(m, 4);
        if !is_control_word_exec(name.as_str()) {
            let q = text_of(m, 2);
            let full = text_of(m, 0);
            let rt = text_of(m, 3);
            let ps = text_of(m, 5);
            let fc = chars_of(full.as_str());
            let body = if fc.len() > 0 && fc[fc.len() - 1] == '{' {
                block_after_exec(class_body, m)
            } else {
                String::new()
            };
            let f = CppFunction {
                name,
                return_type: trim(rt.as_str()),
                params: parse_params(ps.as_str()),
                body,
                is_static: contains(q.as_str(), "static"),
                is_virtual: contains(q.as_str(), "virtual"),
                is_const: contains(full.as_str(), "const"),
                is_template: present(m, 1),
                template_params: match_template_params_exec(m),
                visibility: visibility_at_exec(&sections, start_of(m)),
            };
            let ghost prev = function_views(r@);
            let ghost fv = function_view(f);
            r.push(f);
            assert(function_views(r@) =~= prev.push(fv));
        }
        i = i + 1;
    }
    assert(mapped.take(ms@.len() as int) =~= mapped);
    r
}

/// The methods declared or defined in a class body, in order, each with the visibility of the
/// access section it stands in.
pub fn extract_class_methods(class_body: &str) -> (r: Vec<CppFunction>)
    ensures
        function_views(r@) == methods_spec(class_body@),
{
    let labels = captures_all(ACCESS_PATTERN, class_body);
    let ms = captures_all(METHOD_PATTERN, class_body);
    methods_from_matches(class_body, &labels, &ms)
}

/// The plain value of a class: name, bases, fields, methods, default visibility.
pub open spec fn class_view(c: CppClass) -> (
    Seq<char>,
    Seq<(Seq<char>, Visibility, bool)>,
    Seq<(Seq<char>, Seq<char>, Visibility, bool, bool)>,
    Seq<
        (
            Seq<char>,
            Seq<char>,
            Seq<(Seq<char>, Seq<char>, Option<Seq<char>>, bool, bool, bool)>,
            Seq<char>,
            bool,
            bool,
            bool,
            bool,
            Seq<Seq<char>>,
            Visibility,
        ),
    >,
    Visibility,
) {
    (
        c.name@,
        c.bases@.map_values(|b: CppBase| base_view(b)),
        field_views(c.fields@),
        function_views(c.methods@),
        c.visibility_default,
    )
}

/// The pattern of a class head up to its `{`: group 1 is the name, group 2 the base list.
pub const CLASS_PATTERN: &'static str = r"(?m)class\s+(\w+)(?:\s*:\s*(.*?))?\s*\{";

/// The class read from one match of `CLASS_PATTERN` in `source`, with the members of the block
/// that the match opens; none when that block is not closed.
pub open spec fn class_entry(source: Seq<char>, m: Seq<Option<(int, int, Seq<char>)>>) -> Option<
    (
        Seq<char>,
        Seq<(Seq<char>, Visibility, bool)>,
        Seq<(Seq<char>, Seq<char>, Visibility, bool, bool)>,
        Seq<
            (
                Seq<char>,
                Seq<char>,
                Seq<(Seq<char>, Seq<char>, Option<Seq<char>>, bool, bool, bool)>,
                Seq<char>,
                bool,
                bool,
                bool,
                bool,
                Seq<Seq<char>>,
                Visibility,
            ),
        >,
        Visibility,
    ),
> {
    match brace_block_spec(source, match_end(m) - 1) {
        Some(body) => Some(
            (
                group_text(m, 1),
                if group_present(m, 2) {
                    bases_spec(group_text(m, 2))
                } else {
                    Seq::empty()
                },
                class_fields_spec(body),
                methods_spec(body),
                Visibility::Private,
            ),
        ),
        None => None,
    }
}

/// The classes of a source.
pub open spec fn classes_spec(source: Seq<char>) -> Seq<
    (
        Seq<char>,
        Seq<(Seq<char>, Visibility, bool)>,
        Seq<(Seq<char>, Seq<char>, Visibility, bool, bool)>,
        Seq<
            (
                Seq<char>,
                Seq<char>,
                Seq<(Seq<char>, Seq<char>, Option<Seq<char>>, bool, bool, bool)>,
                Seq<char>,
                bool,
                bool,
                bool,
                bool,
                Seq<Seq<char>>,
                Visibility,
            ),
        >,
        Visibility,
    ),
> {
    somes(
        regex_captures(CLASS_PATTERN@, source).map_values(
            |m: Seq<Option<(int, int, Seq<char>)>>| class_entry(source, m),
        ),
    )
}

/// The classes of the matches `ms` of `CLASS_PATTERN` in `source`.
pub fn classes_from_matches(source: &str, ms: &Vec<Match>) -> (r: Vec<CppClass>)
    ensures
        r@.map_values(|c: CppClass| class_view(c)) == somes(
            matches_view(ms@).map_values(
                |m: Seq<Option<(int, int, Seq<char>)>>| class_entry(source@, m),
            ),
        ),
{
    let ghost mapped = matches_view(ms@).map_values(
        |m: Seq<Option<(int, int, Seq<char>)>>| class_entry(source@, m),
    );
    let mut r: Vec<CppClass> = Vec::new();
    let mut i: usize = 0;
    while i < ms.len()
        invariant
            i <= ms@.len(),
            mapped == matches_view(ms@).map_values(
                |m: Seq<Option<(int, int, Seq<char>)>>| class_entry(source@, m),
            ),
            r@.map_values(|c: CppClass| class_view(c)) == somes(mapped.take(i as int)),
        decreases ms@.len() - i,
    {
        assert(mapped.take(i + 1).drop_last() =~= mapped.take(i as int));
        let m = &ms[i];
        let end = end_of(m);
        let block = if end == 0 {
            None
        } else {
            extract_brace_block(source, end - 1)
        };
        match block {
            Some(body) => {
                let bases = if present(m, 2) {
                    let list = text_of(m, 2);
                    parse_bases(list.as_str())
                } else {
                    let v: Vec<CppBase> = Vec::new();
                    assert(v@.map_values(|b: CppBase| base_view(b)) =~= Seq::<
                        (Seq<char>, Visibility, bool),
                    >::empty());
                    v
                };
                let c = CppClass {
                    name: text_of(m, 1),
                    bases,
                    fields: extract_class_fields(body.as_str()),
                    methods: extract_class_methods(body.as_str()),
                    visibility_default: Visibility::Private,
                };
                let ghost prev = r@.map_values(|c: CppClass| class_view(c));
                let ghost cv = class_view(c);
                r.push(c);
                assert(r@.map_values(|c: CppClass| class_view(c)) =~= prev.push(cv));
            },
            None => {},
        }
        i = i + 1;
    }
    assert(mapped.take(ms@.len() as int) =~= mapped);
    r
}

/// The classes of `source` whose body is closed, in order.
pub fn extract_classes(source: &str) -> (r: Vec<CppClass>)
    ensures
        r@.map_values(|c: CppClass| class_view(c)) == classes_spec(source@),
{
    let ms = captures_all(CLASS_PATTERN, source);
    classes_from_matches(source, &ms)
}


// ---------------------------------------------------------------------------
// Languages and standards
// ---------------------------------------------------------------------------

/// Whether a lowercased extension is one of a C++ source or header.
pub open spec fn is_cpp_extension(e: Seq<char>) -> bool {
    e == "cpp"@ || e == "cxx"@ || e == "cc"@ || e == "hpp"@ || e == "hxx"@ || e == "hh"@
}

/// Whether a lowercased extension is one of a C or C++ source or header.
pub open spec fn is_source_extension(e: Seq<char>) -> bool {
    e == "c"@ || e == "h"@ || is_cpp_extension(e)
}

fn is_cpp_extension_exec(e: &str) -> (r: bool)
    ensures
        r == is_cpp_extension(e@),
{
    str_eq(e, "cpp") || str_eq(e, "cxx") || str_eq(e, "cc") || str_eq(e, "hpp") || str_eq(e, "hxx")
        || str_eq(e, "hh")
}

/// The language of a file by its extension, compared without case: C++ for the C++
/// extensions, C otherwise.
pub open spec fn language_of_path(p: Seq<char>) -> Language {
    match path_extension(p) {
        Some(e) => if is_cpp_extension(str_lower(e)) {
            Language::Cpp
        } else {
            Language::C
        },
        None => Language::C,
    }
}

/// The language of the file at `path` (see `language_of_path`).
pub fn detect_language(path: &str) -> (r: Language)
    ensures
        r == language_of_path(path@),
{
    match extension(path) {
        Some(e) => {
            let lower = to_lowercase(e.as_str());
            if is_cpp_extension_exec(lower.as_str()) {
                Language::Cpp
            } else {
                Language::C
            }
        },
        None => Language::C,
    }
}

/// Whether a path names a C or C++ source or header by its extension, compared without case.
pub open spec fn is_source_path(p: Seq<char>) -> bool {
    match path_extension(p) {
        Some(e) => is_source_extension(str_lower(e)),
        None => false,
    }
}

/// Whether the file at `path` is a C or C++ source or header (see `is_source_path`).
pub fn is_source_file(path: &str) -> (r: bool)
    ensures
        r == is_source_path(path@),
{
    match extension(path) {
        Some(e) => {
            let lower = to_lowercase(e.as_str());
            let l = lower.as_str();
            str_eq(l, "c") || str_eq(l, "h") || is_cpp_extension_exec(l)
        },
        None => false,
    }
}

/// The number of patterns in each group of standard markers: C++20, C++17, C++11, C++03, C11
/// and C99.
pub open spec fn marker_count(group: int) -> int {
    if group == 0 {
        4
    } else if group == 1 {
        6
    } else if group == 2 {
        8
    } else if group == 3 {
        4
    } else if group == 4 {
        4
    } else {
        3
    }
}

/// Pattern `i` of the markers of group `group` (see `marker_count`).
pub open spec fn marker(group: int, i: int) -> Seq<char> {
    if group == 0 {
        if i == 0 {
            r"\bconcept\s+\w+"@
        } else if i == 1 {
            r"\brequires\s*\("@
        } else if i == 2 {
            r"\bco_await\b"@
        } else {
            r"\bco_yield\b"@
        }
    } else if group == 1 {
        if i == 0 {
            r"\bstd::optional<"@
        } else if i == 1 {
            r"\bstd::variant<"@
        } else if i == 2 {
            r"\bstd::string_view\b"@
        } else if i == 3 {
            r"\bif\s+constexpr\b"@
        } else if i == 4 {
            r"\[\[nodiscard\]\]"@
        } else {
            r"\bauto\s+\["@
        }
    } else if group == 2 {
        if i == 0 {
            r"\bauto\s+\w+\s*="@
        } else if i == 1 {
            r"\[\s*[&=]?\s*\]\s*\("@
        } else if i == 2 {
            r"\bstd::move\("@
        } else if i == 3 {
            r"\bnullptr\b"@
        } else if i == 4 {
            r"\boverride\b"@
        } else if i == 5 {
            r"\bstd::unique_ptr<"@
        } else if i == 6 {
            r"\bstd::shared_ptr<"@
        } else {
            r"->.*=\s*default|=\s*delete"@
        }
    } else if group == 3 {
        if i == 0 {
            r"\bclass\s+\w+"@
        } else if i == 1 {
            r"\btemplate\s*<"@
        } else if i == 2 {
            r"\bnamespace\s+\w+"@
        } else {
            r"\bstd::"@
        }
    } else if group == 4 {
        if i == 0 {
            r"\b_Atomic\b"@
        } else if i == 1 {
            r"\b_Thread_local\b"@
        } else if i == 2 {
            r"\b_Static_assert\b"@
        } else {
            r"\b_Generic\b"@
        }
    } else {
        if i == 0 {
            r"\b(inline|restrict|_Bool)\b"@
        } else if i == 1 {
            r"//"@
        } else {
            r"\bfor\s*\(\s*(int|size_t|unsigned)\s+"@
        }
    }
}

fn marker_exec(group: usize, i: usize) -> (r: &'static str)
    requires
        group < 6,
        i < marker_count(group as int),
    ensures
        r@ == marker(group as int, i as int),
{
    if group == 0 {
        if i == 0 {
            r"\bconcept\s+\w+"
        } else if i == 1 {
            r"\brequires\s*\("
        } else if i == 2 {
            r"\bco_await\b"
        } else {
            r"\bco_yield\b"
        }
    } else if group == 1 {
        if i == 0 {
            r"\bstd::optional<"
        } else if i == 1 {
            r"\bstd::variant<"
        } else if i == 2 {
            r"\bstd::string_view\b"
        } else if i == 3 {
            r"\bif\s+constexpr\b"
        } else if i == 4 {
            r"\[\[nodiscard\]\]"
        } else {
            r"\bauto\s+\["
        }
    } else if group == 2 {
        if i == 0 {
            r"\bauto\s+\w+\s*="
        } else if i == 1 {
            r"\[\s*[&=]?\s*\]\s*\("
        } else if i == 2 {
            r"\bstd::move\("
        } else if i == 3 {
            r"\bnullptr\b"
        } else if i == 4 {
            r"\boverride\b"
        } else if i == 5 {
            r"\bstd::unique_ptr<"
        } else if i == 6 {
            r"\bstd::shared_ptr<"
        } else {
            r"->.*=\s*default|=\s*delete"
        }
    } else if group == 3 {
        if i == 0 {
            r"\bclass\s+\w+"
        } else if i == 1 {
            r"\btemplate\s*<"
        } else if i == 2 {
            r"\bnamespace\s+\w+"
        } else {
            r"\bstd::"
        }
    } else if group == 4 {
        if i == 0 {
            r"\b_Atomic\b"
        } else if i == 1 {
            r"\b_Thread_local\b"
        } else if i == 2 {
            r"\b_Static_assert\b"
        } else {
            r"\b_Generic\b"
        }
    } else {
        if i == 0 {
            r"\b(inline|restrict|_Bool)\b"
        } else if i == 1 {
            r"//"
        } else {
            r"\bfor\s*\(\s*(int|size_t|unsigned)\s+"
        }
    }
}

/// Whether one of the first `n` markers of `group` matches `source`.
pub open spec fn any_marker_upto(group: int, source: Seq<char>, n: int) -> bool
    decreases n,
{
    if n <= 0 {
        false
    } else {
        any_marker_upto(group, source, n - 1) || regex_is_match(marker(group, n - 1), source)
    }
}

/// Whether a marker of `group` matches `source`.
pub open spec fn any_marker(group: int, source: Seq<char>) -> bool {
    any_marker_upto(group, source, marker_count(group))
}

fn any_marker_exec(group: usize, source: &str) -> (r: bool)
    requires
        group < 6,
    ensures
        r == any_marker(group as int, source@),
{
    let mut i: usize = 0;
    let n: usize = if group == 0 {
        4
    } else if group == 1 {
        6
    } else if group == 2 {
        8
    } else if group == 3 {
        4
    } else if group == 4 {
        4
    } else {
        3
    };
    while i < n
        invariant
            group < 6,
            n == marker_count(group as int),
            i <= n,
            !any_marker_upto(group as int, source@, i as int),
        decreases n - i,
    {
        if is_match(marker_exec(group, i), source) {
            assert(any_marker_upto(group as int, source@, i + 1));
            assert forall|k: int| i + 1 <= k <= n implies any_marker_upto(group as int, source@, k) by {
                lemma_any_marker_grows(group as int, source@, i + 1, k);
            }
            return true;
        }
        i = i + 1;
    }
    false
}

proof fn lemma_any_marker_grows(group: int, source: Seq<char>, a: int, b: int)
    requires
        a <= b,
        any_marker_upto(group, source, a),
    ensures
        any_marker_upto(group, source, b),
    decreases b - a,
{
    if a < b {
        lemma_any_marker_grows(group, source, a, b - 1);
    }
}

/// The C++ level one source shows: 20, 17, 11 or 3 for the newest group of C++ markers that
/// matches it, 0 when none does.
pub open spec fn cpp_level(source: Seq<char>) -> int {
    if any_marker(0, source) {
        20
    } else if any_marker(1, source) {
        17
    } else if any_marker(2, source) {
        11
    } else if any_marker(3, source) {
        3
    } else {
        0
    }
}

/// The C level one source shows: 110 for C11 markers, 99 for C99 markers, 0 for none.
pub open spec fn c_level(source: Seq<char>) -> int {
    if any_marker(4, source) {
        110
    } else if any_marker(5, source) {
        99
    } else {
        0
    }
}

/// The larger of two integers.
pub open spec fn max_int(a: int, b: int) -> int {
    if a >= b {
        a
    } else {
        b
    }
}

/// Over the first `n` sources: the highest C++ level, the highest C level, and whether one of
/// them is C++.
pub open spec fn levels_upto(sources: Seq<(Seq<char>, Language)>, n: int) -> (int, int, bool)
    decreases n,
{
    if n <= 0 {
        (0, 0, false)
    } else {
        let (cpp, c, has) = levels_upto(sources, n - 1);
        let s = sources[n - 1];
        (max_int(cpp, cpp_level(s.0)), max_int(c, c_level(s.0)), has || s.1 == Language::Cpp)
    }
}

/// The standard of a set of sources: for a C++ project (a C++ source or any C++ marker), the
/// C++ standard of the highest level seen (C++11 when no marker decides); otherwise C11 when
/// a C11 marker is seen, else C99.
pub open spec fn standard_spec(sources: Seq<(Seq<char>, Language)>) -> CppStandard {
    let (cpp, c, has) = levels_upto(sources, sources.len() as int);
    if has || cpp > 0 {
        if cpp >= 20 {
            CppStandard::Cpp20
        } else if cpp >= 17 {
            CppStandard::Cpp17
        } else if cpp >= 11 {
            CppStandard::Cpp11
        } else if cpp >= 3 {
            CppStandard::Cpp03
        } else {
            CppStandard::Cpp11
        }
    } else if c >= 110 {
        CppStandard::C11
    } else {
        CppStandard::C99
    }
}

/// The plain value of a list of sources with their languages.
pub open spec fn sources_view(sources: Seq<(&str, Language)>) -> Seq<(Seq<char>, Language)> {
    sources.map_values(|p: (&str, Language)| (p.0@, p.1))
}

fn cpp_level_exec(source: &str) -> (r: u32)
    ensures
        r == cpp_level(source@),
{
    if any_marker_exec(0, source) {
        20
    } else if any_marker_exec(1, source) {
        17
    } else if any_marker_exec(2, source) {
        11
    } else if any_marker_exec(3, source) {
        3
    } else {
        0
    }
}

fn c_level_exec(source: &str) -> (r: u32)
    ensures
        r == c_level(source@),
{
    if any_marker_exec(4, source) {
        110
    } else if any_marker_exec(5, source) {
        99
    } else {
        0
    }
}

/// Detects the language standard of a set of sources (see `standard_spec`).
pub fn detect_standard(sources: &[(&str, Language)]) -> (r: CppStandard)
    ensures
        r == standard_spec(sources_view(sources@)),
{
    let ghost sv = sources_view(sources@);
    let mut cpp: u32 = 0;
    let mut c: u32 = 0;
    let mut has = false;
    let mut i: usize = 0;
    while i < sources.len()
        invariant
            i <= sources@.len(),
            sv == sources_view(sources@),
            (cpp as int, c as int, has) == levels_upto(sv, i as int),
            cpp <= 20,
            c <= 110,
        decreases sources@.len() - i,
    {
        let (src, lang) = sources[i];
        assert(sv[i as int] == (src@, lang));
        if lang == Language::Cpp {
            has = true;
        }
        let a = cpp_level_exec(src);
        if a > cpp {
            cpp = a;
        }
        let b = c_level_exec(src);
        if b > c {
            c = b;
        }
        i = i + 1;
    }
    if has || cpp > 0 {
        if cpp >= 20 {
            CppStandard::Cpp20
        } else if cpp >= 17 {
            CppStandard::Cpp17
        } else if cpp >= 11 {
            CppStandard::Cpp11
        } else if cpp >= 3 {
            CppStandard::Cpp03
        } else {
            CppStandard::Cpp11
        }
    } else if c >= 110 {
        CppStandard::C11
    } else {
        CppStandard::C99
    }
}


// ---------------------------------------------------------------------------
// Files and projects
// ---------------------------------------------------------------------------

/// Whether `f` is the analysis of the source `source` found at `path`: its language by the
/// path, then its includes, macros, structs, classes (for C++ only), functions and globals.
pub open spec fn is_analysis_of(f: CppFile, path: Seq<char>, source: Seq<char>) -> bool {
    let lang = language_of_path(path);
    &&& f.path@ == path
    &&& f.source@ == source
    &&& f.language == lang
    &&& views(f.includes@) == includes_spec(regex_captures(INCLUDE_PATTERN@, source))
    &&& macro_views(f.macros@) == macros_spec(
        regex_captures(OBJECT_MACRO_PATTERN@, source),
        regex_captures(FUNCTION_MACRO_PATTERN@, source),
        regex_captures(CONDITIONAL_PATTERN@, source),
    )
    &&& f.structs@.map_values(|s: CppStruct| struct_view(s)) == structs_spec(source)
    &&& f.classes@.map_values(|c: CppClass| class_view(c)) == if lang == Language::Cpp {
        classes_spec(source)
    } else {
        Seq::empty()
    }
    &&& function_views(f.functions@) == functions_spec(source)
    &&& f.globals@.map_values(|g: CppGlobal| global_view(g)) == globals_spec(source)
}

/// Analyses the source `source` of the file at `path` (see `is_analysis_of`).
pub fn analyze_file(path: &str, source: &str) -> (r: CppFile)
    ensures
        is_analysis_of(r, path@, source@),
{
    let language = detect_language(path);
    let includes = extract_includes(source);
    let macros = extract_macros(source);
    let structs = extract_structs(source);
    let classes = if language == Language::Cpp {
        extract_classes(source)
    } else {
        let v: Vec<CppClass> = Vec::new();
        assert(v@.map_values(|c: CppClass| class_view(c)) =~= Seq::<
            (
                Seq<char>,
                Seq<(Seq<char>, Visibility, bool)>,
                Seq<(Seq<char>, Seq<char>, Visibility, bool, bool)>,
                Seq<
                    (
                        Seq<char>,
                        Seq<char>,
                        Seq<(Seq<char>, Seq<char>, Option<Seq<char>>, bool, bool, bool)>,
                        Seq<char>,
                        bool,
                        bool,
                        bool,
                        bool,
                        Seq<Seq<char>>,
                        Visibility,
                    ),
                >,
                Visibility,
            ),
        >::empty());
        v
    };
    let functions = extract_functions(source);
    let globals = extract_globals(source);
    CppFile {
        path: copy_str(path),
        source: copy_str(source),
        language,
        includes,
        macros,
        structs,
        classes,
        functions,
        globals,
    }
}

/// Whether one of `files` is C++.
pub open spec fn has_cpp_file(files: Seq<CppFile>) -> bool {
    exists|i: int| 0 <= i < files.len() && #[trigger] files[i].language == Language::Cpp
}

/// The sources of `files` with their languages.
pub open spec fn file_sources(files: Seq<CppFile>) -> Seq<(Seq<char>, Language)> {
    files.map_values(|f: CppFile| (f.source@, f.language))
}

/// Puts analysed files together into a project rooted at `root`: C++ when one of them is C++,
/// with the standard detected over all their sources.
pub fn assemble_project(root: &str, files: Vec<CppFile>) -> (r: CppProject)
    ensures
        r.root@ == root@,
        r.files@ == files@,
        r.language == if has_cpp_file(files@) {
            Language::Cpp
        } else {
            Language::C
        },
        r.standard == standard_spec(file_sources(files@)),
{
    let mut pairs: Vec<(&str, Language)> = Vec::new();
    let mut any_cpp = false;
    let mut i: usize = 0;
    while i < files.len()
        invariant
            i <= files@.len(),
            sources_view(pairs@) == file_sources(files@).take(i as int),
            any_cpp == exists|j: int| 0 <= j < i && #[trigger] files@[j].language == Language::Cpp,
        decreases files@.len() - i,
    {
        let f = &files[i];
        let ghost prev = sources_view(pairs@);
        pairs.push((f.source.as_str(), f.language));
        assert(sources_view(pairs@) =~= prev.push((f.source@, f.language)));
        assert(file_sources(files@).take(i + 1) =~= file_sources(files@).take(i as int).push(
            (f.source@, f.language),
        ));
        if f.language == Language::Cpp {
            any_cpp = true;
        }
        i = i + 1;
    }
    assert(file_sources(files@).take(files@.len() as int) =~= file_sources(files@));
    let standard = detect_standard(pairs.as_slice());
    let language = if any_cpp {
        Language::Cpp
    } else {
        Language::C
    };
    CppProject { root: copy_str(root), language, standard, files }
}


// ---------------------------------------------------------------------------
// The project report
// ---------------------------------------------------------------------------

/// Each of `ls` on a line of its own, indented by four spaces.
pub open spec fn indented_lines(ls: Seq<Seq<char>>) -> Seq<char>
    decreases ls.len(),
{
    if ls.len() == 0 {
        Seq::empty()
    } else {
        indented_lines(ls.drop_last()) + "    "@ + ls.last() + "\n"@
    }
}

/// The memory part of a file's section: the summary of its memory-management sites, indented,
/// when it has any.
pub open spec fn memory_part(source: Seq<char>) -> Seq<char> {
    let sites = memory_sites(source);
    if sites.len() > 0 {
        "  Memory patterns:\n"@ + indented_lines(lines_spec(summary_spec(sites)))
    } else {
        Seq::empty()
    }
}

/// The first lines of a file's section: its path and language.
pub open spec fn file_head(f: CppFile) -> Seq<char> {
    "--- "@ + f.path@ + " ---\n"@ + "  Language: "@ + language_name(f.language) + "\n"@
}

/// The lines of a file's section that count its includes, macros, structs, classes and
/// functions.
pub open spec fn file_counts(f: CppFile) -> Seq<char> {
    "  Includes: "@ + decimal(f.includes@.len()) + "\n"@ + "  Macros: "@ + decimal(
        f.macros@.len(),
    ) + "\n"@ + "  Structs: "@ + decimal(f.structs@.len()) + "\n"@ + "  Classes: "@ + decimal(
        f.classes@.len(),
    ) + "\n"@ + "  Functions: "@ + decimal(f.functions@.len()) + "\n"@
}

/// The section of the report on one file.
pub open spec fn file_section(f: CppFile) -> Seq<char> {
    file_head(f) + file_counts(f) + memory_part(f.source@)
}

/// The sections on `fs`, in order.
pub open spec fn file_sections(fs: Seq<CppFile>) -> Seq<char>
    decreases fs.len(),
{
    if fs.len() == 0 {
        Seq::empty()
    } else {
        file_sections(fs.drop_last()) + file_section(fs.last())
    }
}

/// The numbers of structs, classes, functions and macros over `fs`.
pub open spec fn totals(fs: Seq<CppFile>) -> (nat, nat, nat, nat)
    decreases fs.len(),
{
    if fs.len() == 0 {
        (0, 0, 0, 0)
    } else {
        let (s, c, f, m) = totals(fs.drop_last());
        let l = fs.last();
        (
            s + l.structs@.len(),
            c + l.classes@.len(),
            f + l.functions@.len(),
            m + l.macros@.len(),
        )
    }
}

proof fn lemma_totals_prefix(fs: Seq<CppFile>, i: int)
    requires
        0 <= i <= fs.len(),
    ensures
        totals(fs.take(i)).0 <= totals(fs).0,
        totals(fs.take(i)).1 <= totals(fs).1,
        totals(fs.take(i)).2 <= totals(fs).2,
        totals(fs.take(i)).3 <= totals(fs).3,
    decreases fs.len() - i,
{
    if i < fs.len() {
        lemma_totals_prefix(fs, i + 1);
        assert(fs.take(i + 1).drop_last() =~= fs.take(i));
    } else {
        assert(fs.take(i) =~= fs);
    }
}

/// The report on a project: its root, language, standard and number of files; a section per
/// file; then the totals.
pub open spec fn report_spec(p: CppProject) -> Seq<char> {
    let (s, c, f, m) = totals(p.files@);
    "=== C/C++ Project Analysis ===\n"@ + "Root: "@ + p.root@ + "\n"@ + "Language: "@
        + language_name(p.language) + "\n"@ + "Detected Standard: "@ + standard_name(p.standard)
        + "\n"@ + "Files: "@ + decimal(p.files@.len()) + "\n\n"@ + file_sections(p.files@)
        + "\n=== Summary ===\n"@ + "Total structs: "@ + decimal(s) + "\n"@ + "Total classes: "@
        + decimal(c) + "\n"@ + "Total functions: "@ + decimal(f) + "\n"@ + "Total macros: "@
        + decimal(m) + "\n"@
}

fn push_count_line(s: &mut String, label: &str, n: usize)
    ensures
        final(s)@ == old(s)@ + label@ + decimal(n as nat) + "\n"@,
{
    push_str(s, label);
    push_decimal(s, n);
    push_str(s, "\n");
}

fn push_file_head(report: &mut String, f: &CppFile)
    ensures
        final(report)@ == old(report)@ + file_head(*f),
{
    push_str(report, "--- ");
    push_str(report, f.path.as_str());
    push_str(report, " ---\n");
    push_str(report, "  Language: ");
    push_str(report, f.language.as_str());
    push_str(report, "\n");
}

fn push_file_counts(report: &mut String, f: &CppFile)
    ensures
        final(report)@ == old(report)@ + file_counts(*f),
{
    let ghost start = report@;
    push_count_line(report, "  Includes: ", f.includes.len());
    push_count_line(report, "  Macros: ", f.macros.len());
    push_count_line(report, "  Structs: ", f.structs.len());
    push_count_line(report, "  Classes: ", f.classes.len());
    push_count_line(report, "  Functions: ", f.functions.len());
    assert(report@ =~= start + file_counts(*f));
}

fn push_memory_part(report: &mut String, source: &str)
    requires
        encode_utf8(source@).len() < usize::MAX,
    ensures
        final(report)@ == old(report)@ + memory_part(source@),
{
    let patterns = analyze_memory_patterns(source);
    if patterns.len() > 0 {
        let summary = summarize_memory_patterns(patterns.as_slice());
        let ghost start = report@;
        push_str(report, "  Memory patterns:\n");
        let ghost mid = report@;
        let ls = lines(summary.as_str());
        let ghost l = views(ls@);
        let mut i: usize = 0;
        while i < ls.len()
            invariant
                i <= l.len(),
                l == views(ls@),
                report@ == mid + indented_lines(l.take(i as int)),
            decreases l.len() - i,
        {
            assert(l.take(i + 1).drop_last() =~= l.take(i as int));
            push_str(report, "    ");
            push_str(report, ls[i].as_str());
            push_str(report, "\n");
            i = i + 1;
        }
        assert(l.take(l.len() as int) =~= l);
        assert(report@ =~= start + memory_part(source@));
    } else {
        assert(report@ =~= report@ + memory_part(source@));
    }
}

fn push_file_section(report: &mut String, f: &CppFile)
    requires
        encode_utf8(f.source@).len() < usize::MAX,
    ensures
        final(report)@ == old(report)@ + file_section(*f),
{
    let ghost start = report@;
    push_file_head(report, f);
    push_file_counts(report, f);
    push_memory_part(report, f.source.as_str());
    assert(report@ =~= start + file_section(*f));
}

/// Builds the report on a project (see `report_spec`).
pub fn generate_report(project: &CppProject) -> (r: String)
    requires
        forall|i: int|
            0 <= i < project.files@.len() ==> encode_utf8(#[trigger] project.files@[i].source@).len()
                < usize::MAX,
        totals(project.files@).0 <= usize::MAX,
        totals(project.files@).1 <= usize::MAX,
        totals(project.files@).2 <= usize::MAX,
        totals(project.files@).3 <= usize::MAX,
    ensures
        r@ == report_spec(*project),
{
    let fs = &project.files;
    let mut report = copy_str("=== C/C++ Project Analysis ===\n");
    push_str(&mut report, "Root: ");
    push_str(&mut report, project.root.as_str());
    push_str(&mut report, "\n");
    push_str(&mut report, "Language: ");
    push_str(&mut report, project.language.as_str());
    push_str(&mut report, "\n");
    push_str(&mut report, "Detected Standard: ");
    push_str(&mut report, project.standard.as_str());
    push_str(&mut report, "\n");
    push_str(&mut report, "Files: ");
    push_decimal(&mut report, fs.len());
    push_str(&mut report, "\n\n");
    let ghost head = report@;
    let mut ts: usize = 0;
    let mut tc: usize = 0;
    let mut tf: usize = 0;
    let mut tm: usize = 0;
    let mut i: usize = 0;
    while i < fs.len()
        invariant
            i <= fs@.len(),
            fs@ == project.files@,
            forall|j: int|
                0 <= j < fs@.len() ==> encode_utf8(#[trigger] fs@[j].source@).len() < usize::MAX,
            totals(fs@).0 <= usize::MAX,
            totals(fs@).1 <= usize::MAX,
            totals(fs@).2 <= usize::MAX,
            totals(fs@).3 <= usize::MAX,
            report@ == head + file_sections(fs@.take(i as int)),
            (ts as nat, tc as nat, tf as nat, tm as nat) == totals(fs@.take(i as int)),
        decreases fs@.len() - i,
    {
        assert(fs@.take(i + 1).drop_last() =~= fs@.take(i as int));
        proof {
            lemma_totals_prefix(fs@, i + 1);
        }
        let f = &fs[i];
        push_file_section(&mut report, f);
        ts = ts + f.structs.len();
        tc = tc + f.classes.len();
        tf = tf + f.functions.len();
        tm = tm + f.macros.len();
        i = i + 1;
    }
    assert(fs@.take(fs@.len() as int) =~= fs@);
    push_str(&mut report, "\n=== Summary ===\n");
    push_count_line(&mut report, "Total structs: ", ts);
    push_count_line(&mut report, "Total classes: ", tc);
    push_count_line(&mut report, "Total functions: ", tf);
    push_count_line(&mut report, "Total macros: ", tm);
    report
}

proof fn lemma_levels_cover(sources: Seq<(Seq<char>, Language)>, n: int, j: int)
    requires
        0 <= j < n <= sources.len(),
    ensures
        levels_upto(sources, n).0 >= cpp_level(sources[j].0),
    decreases n,
{
    if j < n - 1 {
        lemma_levels_cover(sources, n - 1, j);
    }
}

/// A source in which a C++20 marker matches (`concept NAME`, `requires (`, `co_await` or
/// `co_yield`) makes the whole set of sources C++20, whatever the other sources and their
/// languages.
pub proof fn law_cpp20_marker_gives_cpp20(sources: Seq<(Seq<char>, Language)>, j: int)
    requires
        0 <= j < sources.len(),
        shows_cpp20(sources[j].0),
    ensures
        standard_spec(sources) == CppStandard::Cpp20,
{
    let src = sources[j].0;
    reveal_with_fuel(any_marker_upto, 5);
    assert(any_marker(0, src));
    assert(cpp_level(src) == 20);
    lemma_levels_cover(sources, sources.len() as int, j);
}

/// Whether a C++20 marker matches `src`: `concept NAME`, `requires (`, `co_await`, `co_yield`.
pub open spec fn shows_cpp20(src: Seq<char>) -> bool {
    regex_is_match(r"\bconcept\s+\w+"@, src) || regex_is_match(r"\brequires\s*\("@, src)
        || regex_is_match(r"\bco_await\b"@, src) || regex_is_match(r"\bco_yield\b"@, src)
}

/// Whether a C++17 marker matches `src`: `std::optional<`, `std::variant<`,
/// `std::string_view`, `if constexpr`, `[[nodiscard]]`, `auto [`.
pub open spec fn shows_cpp17(src: Seq<char>) -> bool {
    regex_is_match(r"\bstd::optional<"@, src) || regex_is_match(r"\bstd::variant<"@, src)
        || regex_is_match(r"\bstd::string_view\b"@, src) || regex_is_match(
        r"\bif\s+constexpr\b"@,
        src,
    ) || regex_is_match(r"\[\[nodiscard\]\]"@, src) || regex_is_match(r"\bauto\s+\["@, src)
}

proof fn lemma_levels_bounded(sources: Seq<(Seq<char>, Language)>, n: int, bound: int)
    requires
        0 <= n <= sources.len(),
        bound >= 0,
        forall|j: int| 0 <= j < n ==> cpp_level(#[trigger] sources[j].0) <= bound,
    ensures
        levels_upto(sources, n).0 <= bound,
    decreases n,
{
    if n > 0 {
        lemma_levels_bounded(sources, n - 1, bound);
    }
}

/// When no source shows a C++20 marker and some source shows a C++17 marker, the sources are
/// C++17.
pub proof fn law_cpp17_marker_gives_cpp17(sources: Seq<(Seq<char>, Language)>, j: int)
    requires
        0 <= j < sources.len(),
        shows_cpp17(sources[j].0),
        forall|i: int| 0 <= i < sources.len() ==> !shows_cpp20(#[trigger] sources[i].0),
    ensures
        standard_spec(sources) == CppStandard::Cpp17,
{
    reveal_with_fuel(any_marker_upto, 7);
    assert forall|i: int| 0 <= i < sources.len() implies cpp_level(#[trigger] sources[i].0) <= 17 by {
        assert(!shows_cpp20(sources[i].0));
        assert(!any_marker(0, sources[i].0));
    }
    assert(any_marker(1, sources[j].0));
    assert(!any_marker(0, sources[j].0));
    assert(cpp_level(sources[j].0) == 17);
    lemma_levels_cover(sources, sources.len() as int, j);
    lemma_levels_bounded(sources, sources.len() as int, 17);
}

} // verus!
