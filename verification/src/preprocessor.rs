//! The preprocessor directives of a C/C++ source: includes, macros and conditionals.
use vstd::prelude::*;
use vstd::string::*;

use crate::patterns::{captures_all, group_text, match_view, matches_view, regex_captures, text_of, Match};
use crate::text::{
    copy_str, ends_with, ends_with_spec, split_trim, split_trim_spec, str_eq, trim, trim_spec, views,
};
use crate::types::CppMacro;

verus! {

/// The pattern of an `#include` directive; group 1 is the included name.
pub const INCLUDE_PATTERN: &'static str = r#"#\s*include\s*[<"]([^>"]+)[>"]"#;

/// The pattern of an object-like `#define`; group 1 is the name, group 2 the value.
pub const OBJECT_MACRO_PATTERN: &'static str = r"(?m)^#\s*define\s+(\w+)[^\S\n]+(.+?)(?:\\\n.*)*$";

/// The pattern of a function-like `#define`; groups 1 to 3 are the name, the parameter list
/// and the body.
pub const FUNCTION_MACRO_PATTERN: &'static str = r"(?m)^#\s*define\s+(\w+)\(([^)]*)\)\s+(.+?)(?:\\\n.*)*$";

/// The pattern of an `#ifdef`, `#ifndef` or `#if` line; group 2 is the condition.
pub const CONDITIONAL_PATTERN: &'static str = r"(?m)^#\s*(ifdef|ifndef|if)\s+(.+)$";

/// The included names, one per match of `INCLUDE_PATTERN`, in order.
pub open spec fn includes_spec(ms: Seq<Seq<Option<(int, int, Seq<char>)>>>) -> Seq<Seq<char>> {
    ms.map_values(|m: Seq<Option<(int, int, Seq<char>)>>| group_text(m, 1))
}

/// The included names, from the matches of `INCLUDE_PATTERN`.
pub fn includes_from_matches(ms: &Vec<Match>) -> (r: Vec<String>)
    ensures
        views(r@) == includes_spec(matches_view(ms@)),
{
    let ghost mv = matches_view(ms@);
    let mut r: Vec<String> = Vec::new();
    let mut i: usize = 0;
    while i < ms.len()
        invariant
            i <= ms@.len(),
            mv == matches_view(ms@),
            views(r@) == includes_spec(mv.take(i as int)),
        decreases ms@.len() - i,
    {
        let t = text_of(&ms[i], 1);
        let ghost prev = views(r@);
        let ghost tv = t@;
        r.push(t);
        assert(views(r@) =~= prev.push(tv));
        assert(includes_spec(mv.take(i + 1)) =~= includes_spec(mv.take(i as int)).push(
            group_text(mv[i as int], 1),
        ));
        i = i + 1;
    }
    assert(mv.take(ms@.len() as int) =~= mv);
    r
}

/// The names included by `source`, in order.
pub fn extract_includes(source: &str) -> (r: Vec<String>)
    ensures
        views(r@) == includes_spec(regex_captures(INCLUDE_PATTERN@, source@)),
{
    let ms = captures_all(INCLUDE_PATTERN, source);
    includes_from_matches(&ms)
}

/// The plain value of a macro: name, parameters, body and whether it is a conditional.
pub open spec fn macro_view(m: CppMacro) -> (Seq<char>, Option<Seq<Seq<char>>>, Seq<char>, bool) {
    (
        m.name@,
        match m.params {
            Some(ps) => Some(views(ps@)),
            None => None,
        },
        m.body@,
        m.is_conditional,
    )
}

/// The plain values of macros.
pub open spec fn macro_views(ms: Seq<CppMacro>) -> Seq<
    (Seq<char>, Option<Seq<Seq<char>>>, Seq<char>, bool),
> {
    ms.map_values(|m: CppMacro| macro_view(m))
}

/// Whether a macro name looks like an include guard (`_H`, `_H_` or `_HPP` at its end).
pub open spec fn is_include_guard(name: Seq<char>) -> bool {
    ends_with_spec(name, "_H"@) || ends_with_spec(name, "_H_"@) || ends_with_spec(name, "_HPP"@)
}

/// The object-like macros of the matches `ms`, include guards left out.
pub open spec fn object_macros(ms: Seq<Seq<Option<(int, int, Seq<char>)>>>) -> Seq<
    (Seq<char>, Option<Seq<Seq<char>>>, Seq<char>, bool),
>
    decreases ms.len(),
{
    if ms.len() == 0 {
        Seq::empty()
    } else {
        let m = ms.last();
        object_macros(ms.drop_last()) + if is_include_guard(group_text(m, 1)) {
            Seq::empty()
        } else {
            seq![(group_text(m, 1), None::<Seq<Seq<char>>>, trim_spec(group_text(m, 2)), false)]
        }
    }
}

/// `ms` without the macros named `name`.
pub open spec fn without_name(
    ms: Seq<(Seq<char>, Option<Seq<Seq<char>>>, Seq<char>, bool)>,
    name: Seq<char>,
) -> Seq<(Seq<char>, Option<Seq<Seq<char>>>, Seq<char>, bool)>
    decreases ms.len(),
{
    if ms.len() == 0 {
        Seq::empty()
    } else {
        without_name(ms.drop_last(), name) + if ms.last().0 == name {
            Seq::empty()
        } else {
            seq![ms.last()]
        }
    }
}

/// The macros after adding the function-like macros of the matches `fs` to `acc`: each one
/// replaces every earlier macro of the same name and goes last.
pub open spec fn add_function_macros(
    acc: Seq<(Seq<char>, Option<Seq<Seq<char>>>, Seq<char>, bool)>,
    fs: Seq<Seq<Option<(int, int, Seq<char>)>>>,
) -> Seq<(Seq<char>, Option<Seq<Seq<char>>>, Seq<char>, bool)>
    decreases fs.len(),
{
    if fs.len() == 0 {
        acc
    } else {
        let m = fs.last();
        without_name(add_function_macros(acc, fs.drop_last()), group_text(m, 1)).push(
            (group_text(m, 1), Some(split_trim_spec(group_text(m, 2), ',')), trim_spec(group_text(m, 3)), false),
        )
    }
}

/// The conditionals of the matches `cs`: each named by its trimmed condition.
pub open spec fn conditional_macros(cs: Seq<Seq<Option<(int, int, Seq<char>)>>>) -> Seq<
    (Seq<char>, Option<Seq<Seq<char>>>, Seq<char>, bool),
> {
    cs.map_values(
        |m: Seq<Option<(int, int, Seq<char>)>>|
            (trim_spec(group_text(m, 2)), None::<Seq<Seq<char>>>, Seq::<char>::empty(), true),
    )
}

/// The macros of a source, from the matches of the object-like, function-like and
/// conditional patterns: the object-like macros, then the function-like ones (each replacing
/// the earlier macros of its name), then the conditionals.
pub open spec fn macros_spec(
    os: Seq<Seq<Option<(int, int, Seq<char>)>>>,
    fs: Seq<Seq<Option<(int, int, Seq<char>)>>>,
    cs: Seq<Seq<Option<(int, int, Seq<char>)>>>,
) -> Seq<(Seq<char>, Option<Seq<Seq<char>>>, Seq<char>, bool)> {
    add_function_macros(object_macros(os), fs) + conditional_macros(cs)
}

fn is_include_guard_exec(name: &str) -> (r: bool)
    ensures
        r == is_include_guard(name@),
{
    ends_with(name, "_H") || ends_with(name, "_H_") || ends_with(name, "_HPP")
}

fn remove_named(macros: Vec<CppMacro>, name: &str) -> (r: Vec<CppMacro>)
    ensures
        macro_views(r@) == without_name(macro_views(macros@), name@),
{
    let ghost orig = macro_views(macros@);
    let mut rest = macros;
    let mut kept: Vec<CppMacro> = Vec::new();
    let ghost n = orig.len();
    while rest.len() > 0
        invariant
            orig.len() == n,
            rest@.len() <= n,
            macro_views(rest@) == orig.subrange(n - rest@.len(), n as int),
            macro_views(kept@) == without_name(orig.take(n - rest@.len()), name@),
        decreases rest@.len(),
    {
        let ghost k = n - rest@.len();
        let ghost before = rest@;
        assert(macro_views(before)[0] == orig[k]);
        let m = rest.remove(0);
        assert(m == before[0]);
        assert(macro_view(m) == orig[k]);
        assert(macro_views(rest@) =~= macro_views(before).subrange(1, before.len() as int));
        assert(macro_views(rest@) =~= orig.subrange(k + 1, n as int));
        assert(orig.take(k + 1).drop_last() =~= orig.take(k));
        let ghost prev = macro_views(kept@);
        if !str_eq(m.name.as_str(), name) {
            kept.push(m);
            assert(macro_views(kept@) =~= prev.push(orig[k]));
        } else {
            assert(without_name(orig.take(k + 1), name@) =~= without_name(orig.take(k), name@));
        }
    }
    assert(orig.take(n as int) =~= orig);
    kept
}

/// The macros of a source from the matches of its three patterns (see `macros_spec`).
pub fn macros_from_matches(os: &Vec<Match>, fs: &Vec<Match>, cs: &Vec<Match>) -> (r: Vec<CppMacro>)
    ensures
        macro_views(r@) == macros_spec(matches_view(os@), matches_view(fs@), matches_view(cs@)),
{
    let ghost ov = matches_view(os@);
    let ghost fv = matches_view(fs@);
    let ghost cv = matches_view(cs@);
    let mut macros: Vec<CppMacro> = Vec::new();
    let mut i: usize = 0;
    while i < os.len()
        invariant
            i <= os@.len(),
            ov == matches_view(os@),
            macro_views(macros@) == object_macros(ov.take(i as int)),
        decreases os@.len() - i,
    {
        assert(ov.take(i + 1).drop_last() =~= ov.take(i as int));
        let name = text_of(&os[i], 1);
        if !is_include_guard_exec(name.as_str()) {
            let value = text_of(&os[i], 2);
            let body = trim(value.as_str());
            let ghost prev = macro_views(macros@);
            let m = CppMacro { name, params: None, body, is_conditional: false };
            let ghost mv = macro_view(m);
            macros.push(m);
            assert(macro_views(macros@) =~= prev.push(mv));
        } else {
            assert(object_macros(ov.take(i + 1)) =~= object_macros(ov.take(i as int)));
        }
        i = i + 1;
    }
    assert(ov.take(os@.len() as int) =~= ov);
    let ghost base = macro_views(macros@);
    let mut j: usize = 0;
    while j < fs.len()
        invariant
            j <= fs@.len(),
            fv == matches_view(fs@),
            macro_views(macros@) == add_function_macros(base, fv.take(j as int)),
        decreases fs@.len() - j,
    {
        assert(fv.take(j + 1).drop_last() =~= fv.take(j as int));
        let name = text_of(&fs[j], 1);
        let list = text_of(&fs[j], 2);
        let params = split_trim(list.as_str(), ',');
        let value = text_of(&fs[j], 3);
        let body = trim(value.as_str());
        let kept = remove_named(macros, name.as_str());
        macros = kept;
        let ghost prev = macro_views(macros@);
        let m = CppMacro { name, params: Some(params), body, is_conditional: false };
        let ghost mv = macro_view(m);
        macros.push(m);
        assert(macro_views(macros@) =~= prev.push(mv));
        j = j + 1;
    }
    assert(fv.take(fs@.len() as int) =~= fv);
    let ghost mid = macro_views(macros@);
    let mut c: usize = 0;
    while c < cs.len()
        invariant
            c <= cs@.len(),
            cv == matches_view(cs@),
            macro_views(macros@) == mid + conditional_macros(cv.take(c as int)),
        decreases cs@.len() - c,
    {
        let cond = text_of(&cs[c], 2);
        let name = trim(cond.as_str());
        let ghost prev = macro_views(macros@);
        let m = CppMacro { name, params: None, body: String::new(), is_conditional: true };
        let ghost mv = macro_view(m);
        macros.push(m);
        assert(macro_views(macros@) =~= prev.push(mv));
        assert(conditional_macros(cv.take(c + 1)) =~= conditional_macros(cv.take(c as int)).push(
            mv,
        ));
        c = c + 1;
    }
    assert(cv.take(cs@.len() as int) =~= cv);
    macros
}

/// The macros and conditionals of `source` (see `macros_spec`).
pub fn extract_macros(source: &str) -> (r: Vec<CppMacro>)
    ensures
        macro_views(r@) == macros_spec(
            regex_captures(OBJECT_MACRO_PATTERN@, source@),
            regex_captures(FUNCTION_MACRO_PATTERN@, source@),
            regex_captures(CONDITIONAL_PATTERN@, source@),
        ),
{
    let os = captures_all(OBJECT_MACRO_PATTERN, source);
    let fs = captures_all(FUNCTION_MACRO_PATTERN, source);
    let cs = captures_all(CONDITIONAL_PATTERN, source);
    macros_from_matches(&os, &fs, &cs)
}

/// Include resolution: the source is handed on as it is, whatever the include paths.
pub fn resolve_includes(source: &str, include_paths: &[String]) -> (r: Result<String, String>)
    ensures
        r matches Ok(s) && s@ == source@,
{
    Ok(copy_str(source))
}

} // verus!
