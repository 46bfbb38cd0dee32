//! Ownership inference for the parameters of a C/C++ function, and the ownership context
//! handed to the converter.
use vstd::prelude::*;
use vstd::string::*;
use vstd::utf8::*;

use crate::memory::{analyze_memory_patterns, memory_sites, pattern_views, summarize_memory_patterns, summary_spec};
use crate::text::{contains, contains_char, contains_spec, copy_str, push_str};
use crate::types::{CppFunction, CppParam, MemoryPattern, MemoryPatternKind};

verus! {

/// How a parameter should be owned on the Rust side.
#[derive(Clone, Copy, Debug, PartialEq, Eq, Structural)]
pub enum OwnershipSuggestion {
    Owned,
    Borrowed,
    BorrowedMut,
    BoxOwned,
    ArcShared,
}

/// The text by which a suggestion is shown.
pub open spec fn suggestion_text(s: OwnershipSuggestion) -> Seq<char> {
    match s {
        OwnershipSuggestion::Owned => "owned (move)"@,
        OwnershipSuggestion::Borrowed => "&T (immutable borrow)"@,
        OwnershipSuggestion::BorrowedMut => "&mut T (mutable borrow)"@,
        OwnershipSuggestion::BoxOwned => "Box<T> (heap allocation)"@,
        OwnershipSuggestion::ArcShared => "Arc<T> (shared ownership)"@,
    }
}

impl OwnershipSuggestion {
    /// The text by which the suggestion is shown.
    pub fn as_str(&self) -> (r: &'static str)
        ensures
            r@ == suggestion_text(*self),
    {
        match self {
            OwnershipSuggestion::Owned => "owned (move)",
            OwnershipSuggestion::Borrowed => "&T (immutable borrow)",
            OwnershipSuggestion::BorrowedMut => "&mut T (mutable borrow)",
            OwnershipSuggestion::BoxOwned => "Box<T> (heap allocation)",
            OwnershipSuggestion::ArcShared => "Arc<T> (shared ownership)",
        }
    }

    /// The text by which the suggestion is shown, as an owned string.
    pub fn to_string(&self) -> (r: String)
        ensures
            r@ == suggestion_text(*self),
    {
        copy_str(self.as_str())
    }
}

/// The ownership inferred for one parameter, with the reason.
pub struct OwnershipHint {
    pub parameter: String,
    pub suggestion: OwnershipSuggestion,
    pub reason: String,
}

/// The text that marks `name` as freed in a body: `free(name)`.
pub open spec fn free_call(name: Seq<char>) -> Seq<char> {
    "free("@ + name + ")"@
}

/// The suggestion for a parameter and its reason, decided in this order: a const pointer or
/// reference is borrowed; a pointer freed in the body is owned; another pointer or reference
/// is borrowed mutably; a value is owned.
pub open spec fn param_hint_spec(p: CppParam, body: Seq<char>) -> (OwnershipSuggestion, Seq<char>) {
    let q = "'"@ + p.name@;
    if p.is_const && (p.is_pointer || p.is_reference) {
        (OwnershipSuggestion::Borrowed, q + "' is const pointer/reference → immutable borrow"@)
    } else if p.is_pointer && contains_spec(body, free_call(p.name@)) {
        (OwnershipSuggestion::Owned, q + "' is freed in the function → takes ownership"@)
    } else if p.is_pointer || p.is_reference {
        (OwnershipSuggestion::BorrowedMut, q + "' is non-const pointer/reference → mutable borrow"@)
    } else {
        (OwnershipSuggestion::Owned, q + "' is passed by value → owned"@)
    }
}

/// Whether `h` is the hint for parameter `p` of a function with body `body`.
pub open spec fn is_hint_for(h: OwnershipHint, p: CppParam, body: Seq<char>) -> bool {
    &&& h.parameter@ == p.name@
    &&& (h.suggestion, h.reason@) == param_hint_spec(p, body)
}

/// Infers how one parameter should be owned, from its qualifiers and from whether `body`
/// frees it.
pub fn infer_param_ownership(param: &CppParam, body: &str) -> (r: OwnershipHint)
    ensures
        is_hint_for(r, *param, body@),
{
    let name = param.name.as_str();
    let mut reason = String::new();
    push_str(&mut reason, "'");
    push_str(&mut reason, name);
    if param.is_const && (param.is_pointer || param.is_reference) {
        push_str(&mut reason, "' is const pointer/reference → immutable borrow");
        return OwnershipHint {
            parameter: copy_str(name),
            suggestion: OwnershipSuggestion::Borrowed,
            reason,
        };
    }
    if param.is_pointer {
        let mut call = String::new();
        push_str(&mut call, "free(");
        push_str(&mut call, name);
        push_str(&mut call, ")");
        if contains(body, call.as_str()) {
            push_str(&mut reason, "' is freed in the function → takes ownership");
            return OwnershipHint {
                parameter: copy_str(name),
                suggestion: OwnershipSuggestion::Owned,
                reason,
            };
        }
    }
    if param.is_pointer || param.is_reference {
        push_str(&mut reason, "' is non-const pointer/reference → mutable borrow");
        return OwnershipHint {
            parameter: copy_str(name),
            suggestion: OwnershipSuggestion::BorrowedMut,
            reason,
        };
    }
    push_str(&mut reason, "' is passed by value → owned");
    OwnershipHint { parameter: copy_str(name), suggestion: OwnershipSuggestion::Owned, reason }
}

/// One hint for each parameter of `func`, in order.
pub fn infer_ownership(func: &CppFunction) -> (r: Vec<OwnershipHint>)
    ensures
        r@.len() == func.params@.len(),
        forall|i: int|
            0 <= i < r@.len() ==> is_hint_for(#[trigger] r@[i], func.params@[i], func.body@),
{
    let mut hints: Vec<OwnershipHint> = Vec::new();
    let mut i: usize = 0;
    while i < func.params.len()
        invariant
            i <= func.params@.len(),
            hints@.len() == i,
            forall|j: int|
                0 <= j < i ==> is_hint_for(#[trigger] hints@[j], func.params@[j], func.body@),
        decreases func.params@.len() - i,
    {
        let h = infer_param_ownership(&func.params[i], func.body.as_str());
        hints.push(h);
        i = i + 1;
    }
    hints
}

/// The line that shows one parameter's hint.
pub open spec fn hint_line(p: CppParam, body: Seq<char>) -> Seq<char> {
    let (s, reason) = param_hint_spec(p, body);
    "- "@ + p.name@ + ": "@ + suggestion_text(s) + " ("@ + reason + ")\n"@
}

/// The hint lines of the parameters `ps`, in order.
pub open spec fn hint_lines(ps: Seq<CppParam>, body: Seq<char>) -> Seq<char>
    decreases ps.len(),
{
    if ps.len() == 0 {
        Seq::empty()
    } else {
        hint_lines(ps.drop_last(), body) + hint_line(ps.last(), body)
    }
}

/// Whether some site among `ps` is a `malloc` or a scalar `new`.
pub open spec fn has_allocation(ps: Seq<(MemoryPatternKind, Seq<char>, int)>) -> bool
    decreases ps.len(),
{
    if ps.len() == 0 {
        false
    } else {
        has_allocation(ps.drop_last()) || ps.last().0 == MemoryPatternKind::Malloc
            || ps.last().0 == MemoryPatternKind::New
    }
}

/// The ownership context of `func`: its parameters' hints, a summary of the memory management
/// in its body, and, for a return type with a `*` and without `const`, advice on the return
/// type that depends on whether the body allocates.
pub open spec fn ownership_context_spec(func: CppFunction) -> Seq<char> {
    let sites = memory_sites(func.body@);
    let hints = if func.params@.len() > 0 {
        "Ownership hints for parameters:\n"@ + hint_lines(func.params@, func.body@)
    } else {
        Seq::empty()
    };
    let memory = if sites.len() > 0 {
        "\nMemory management:\n"@ + summary_spec(sites) + "\n"@
    } else {
        Seq::empty()
    };
    let ret = if func.return_type@.contains('*') && !contains_spec(func.return_type@, "const"@) {
        if has_allocation(sites) {
            "\nReturn: Function allocates and returns a pointer → return owned type (Box<T>, Vec<T>, or String)\n"@
        } else {
            "\nReturn: Returns pointer but doesn't allocate → consider returning a reference or Option<&T>\n"@
        }
    } else {
        Seq::empty()
    };
    hints + memory + ret
}

fn allocates(patterns: &Vec<MemoryPattern>) -> (r: bool)
    ensures
        r == has_allocation(pattern_views(patterns@)),
{
    let ghost pv = pattern_views(patterns@);
    let mut found = false;
    let mut i: usize = 0;
    while i < patterns.len()
        invariant
            i <= patterns@.len(),
            pv == pattern_views(patterns@),
            found == has_allocation(pv.take(i as int)),
        decreases patterns@.len() - i,
    {
        assert(pv.take(i + 1).drop_last() =~= pv.take(i as int));
        let k = patterns[i].kind;
        if k == MemoryPatternKind::Malloc || k == MemoryPatternKind::New {
            found = true;
        }
        i = i + 1;
    }
    assert(pv.take(patterns@.len() as int) =~= pv);
    found
}

/// Builds the ownership context of `func` (see `ownership_context_spec`).
pub fn generate_ownership_context(func: &CppFunction) -> (r: String)
    requires
        encode_utf8(func.body@).len() < usize::MAX,
    ensures
        r@ == ownership_context_spec(*func),
{
    let hints = infer_ownership(func);
    let patterns = analyze_memory_patterns(func.body.as_str());
    let mut context = String::new();
    if hints.len() > 0 {
        push_str(&mut context, "Ownership hints for parameters:\n");
        let ghost head = context@;
        let mut i: usize = 0;
        while i < hints.len()
            invariant
                i <= hints@.len(),
                hints@.len() == func.params@.len(),
                forall|j: int|
                    0 <= j < hints@.len() ==> is_hint_for(
                        #[trigger] hints@[j],
                        func.params@[j],
                        func.body@,
                    ),
                context@ == head + hint_lines(func.params@.take(i as int), func.body@),
            decreases hints@.len() - i,
        {
            let h = &hints[i];
            assert(is_hint_for(hints@[i as int], func.params@[i as int], func.body@));
            assert(func.params@.take(i + 1).drop_last() =~= func.params@.take(i as int));
            push_str(&mut context, "- ");
            push_str(&mut context, h.parameter.as_str());
            push_str(&mut context, ": ");
            push_str(&mut context, h.suggestion.as_str());
            push_str(&mut context, " (");
            push_str(&mut context, h.reason.as_str());
            push_str(&mut context, ")\n");
            i = i + 1;
        }
        assert(func.params@.take(hints@.len() as int) =~= func.params@);
    }
    if patterns.len() > 0 {
        push_str(&mut context, "\nMemory management:\n");
        let summary = summarize_memory_patterns(patterns.as_slice());
        push_str(&mut context, summary.as_str());
        push_str(&mut context, "\n");
    }
    let rt = func.return_type.as_str();
    if contains_char(rt, '*') && !contains(rt, "const") {
        if allocates(&patterns) {
            push_str(
                &mut context,
                "\nReturn: Function allocates and returns a pointer → return owned type (Box<T>, Vec<T>, or String)\n",
            );
        } else {
            push_str(
                &mut context,
                "\nReturn: Returns pointer but doesn't allocate → consider returning a reference or Option<&T>\n",
            );
        }
    }
    context
}

} // verus!
