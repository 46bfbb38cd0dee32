//! Classification of `void*` parameters and function pointers, and the Rust conversions to
//! suggest for them.
use vstd::prelude::*;
use vstd::string::*;

use crate::analyzer::somes;
use crate::patterns::{
    captures_all, group_text, matches_view, regex_captures, regex_replace_all, replace_all, text_of,
    Match,
};
use crate::text::{
    lines, lines_spec,
    contains, contains_spec, copy_str, decimal, join, join_spec, push_decimal, push_str,
    split_char, split_spec, starts_with, starts_with_spec, str_eq, str_lower, to_lowercase, trim,
    trim_spec, views,
};

verus! {

/// What a `void*` is used for.
#[derive(Debug, Clone, Copy, PartialEq, Eq, Structural)]
pub enum VoidPtrKind {
    /// Opaque context passed through callbacks (`void *data`).
    UserData,
    /// Read-only input buffer (`const void *src`).
    InputBuffer,
    /// Output buffer (`void *dest`).
    OutputBuffer,
    /// Allocator function pointer returning `void*`.
    AllocatorFnPtr,
    /// Deallocator function pointer (`void (*free_func)(void*)`).
    DeallocatorFnPtr,
    /// Callback function pointer.
    CallbackFnPtr,
    /// Anything else.
    Other,
}

/// A detected `void*` or function-pointer use.
#[derive(Debug, Clone)]
pub struct VoidPtrPattern {
    /// The trimmed source line.
    pub context: String,
    /// The 1-based line number.
    pub line: usize,
    pub kind: VoidPtrKind,
    /// The suggested Rust replacement.
    pub rust_suggestion: String,
}

/// The classification of an allocator function pointer `void *(*name)(params)`.
pub open spec fn allocator_spec(name: Seq<char>, params: Seq<char>) -> (VoidPtrKind, Seq<char>) {
    if contains_spec(name, "realloc"@) || (split_spec(params, ',').len() == 2 && contains_spec(
        params,
        "size_t"@,
    )) {
        (VoidPtrKind::AllocatorFnPtr, "// TODO: replace with custom Allocator trait or Vec::resize"@)
    } else {
        (VoidPtrKind::AllocatorFnPtr, "// TODO: replace with Box<T> or Vec<T>"@)
    }
}

/// Classifies an allocator-style function pointer returning `void*`.
pub fn classify_allocator_fn(name: &str, params: &str) -> (r: (VoidPtrKind, String))
    ensures
        (r.0, r.1@) == allocator_spec(name@, params@),
{
    let param_count = split_char(params, ',').len();
    if contains(name, "realloc") || (param_count == 2 && contains(params, "size_t")) {
        (
            VoidPtrKind::AllocatorFnPtr,
            copy_str("// TODO: replace with custom Allocator trait or Vec::resize"),
        )
    } else {
        (VoidPtrKind::AllocatorFnPtr, copy_str("// TODO: replace with Box<T> or Vec<T>"))
    }
}

/// The number of pieces of `ps` that are not blank.
pub open spec fn nonblank_count(ps: Seq<Seq<char>>) -> nat
    decreases ps.len(),
{
    if ps.len() == 0 {
        0
    } else {
        nonblank_count(ps.drop_last()) + if trim_spec(ps.last()).len() > 0 {
            1nat
        } else {
            0nat
        }
    }
}

/// The Rust callback type for a callback's parameter list: field callbacks
/// `(void*, size_t, void*)` and row callbacks `(int, void*)` get closures over `&mut T`.
pub open spec fn callback_type_spec(params: Seq<char>) -> Seq<char> {
    let parts = split_spec(params, ',').map_values(|p: Seq<char>| trim_spec(p));
    if parts.len() == 3 && starts_with_spec(parts[2], "void"@) && (contains_spec(
        parts[1],
        "size_t"@,
    ) || contains_spec(parts[1], "size"@)) {
        "impl FnMut(&[u8], &mut T) where T: user_data_type"@
    } else if parts.len() == 2 && starts_with_spec(parts[1], "void"@) {
        "impl FnMut(u8, &mut T) where T: user_data_type"@
    } else {
        "Box<dyn FnMut(...)>"@
    }
}

/// The trimmed pieces of a comma-separated list.
fn trimmed_pieces(params: &str) -> (r: Vec<String>)
    ensures
        views(r@) == split_spec(params@, ',').map_values(|p: Seq<char>| trim_spec(p)),
{
    let pieces = split_char(params, ',');
    let ghost pv = views(pieces@);
    let mut r: Vec<String> = Vec::new();
    let mut i: usize = 0;
    while i < pieces.len()
        invariant
            i <= pieces@.len(),
            pv == views(pieces@),
            views(r@) =~= pv.take(i as int).map_values(|p: Seq<char>| trim_spec(p)),
        decreases pieces@.len() - i,
    {
        let t = trim(pieces[i].as_str());
        let ghost before = views(r@);
        r.push(t);
        assert(views(r@) =~= before.push(t@));
        assert(pv.take(i + 1).map_values(|p: Seq<char>| trim_spec(p)) =~= pv.take(
            i as int,
        ).map_values(|p: Seq<char>| trim_spec(p)).push(trim_spec(pv[i as int])));
        i = i + 1;
    }
    assert(pv.take(pieces@.len() as int) =~= pv);
    r
}

/// Builds the Rust callback type for a callback's parameter list.
pub fn build_callback_rust_type(params: &str) -> (r: String)
    ensures
        r@ == callback_type_spec(params@),
{
    let parts = trimmed_pieces(params);
    if parts.len() == 3 {
        let has_size_t = contains(parts[1].as_str(), "size_t") || contains(
            parts[1].as_str(),
            "size",
        );
        let last_is_void = starts_with(parts[2].as_str(), "void");
        if last_is_void && has_size_t {
            return copy_str("impl FnMut(&[u8], &mut T) where T: user_data_type");
        }
    }
    if parts.len() == 2 {
        if starts_with(parts[1].as_str(), "void") {
            return copy_str("impl FnMut(u8, &mut T) where T: user_data_type");
        }
    }
    copy_str("Box<dyn FnMut(...)>")
}

/// `n` underscores separated by `, `.
pub open spec fn placeholders(n: nat) -> Seq<char> {
    join_spec(Seq::new(n, |i: int| "_"@), ", "@)
}

/// The classification of a function pointer returning `void`: a deallocator when its name
/// contains `free` or it takes exactly `void *`; otherwise a callback, typed by
/// `callback_type_spec` when its last parameter starts with `void`.
pub open spec fn void_fn_spec(name: Seq<char>, params: Seq<char>) -> (VoidPtrKind, Seq<char>) {
    let pieces = split_spec(params, ',');
    if contains_spec(name, "free"@) || (nonblank_count(pieces) == 1 && trim_spec(params)
        == "void *"@) {
        (VoidPtrKind::DeallocatorFnPtr, "// Rust RAII: Drop trait replaces free_func"@)
    } else {
        let last = trim_spec(pieces.last());
        if starts_with_spec(last, "void"@) || last == "void *"@ {
            (VoidPtrKind::CallbackFnPtr, callback_type_spec(params))
        } else {
            (
                VoidPtrKind::CallbackFnPtr,
                "impl FnMut("@ + placeholders(pieces.len()) + ") + 'static"@,
            )
        }
    }
}

/// Classifies a function pointer returning `void`.
pub fn classify_void_fn(name: &str, params: &str) -> (r: (VoidPtrKind, String))
    ensures
        (r.0, r.1@) == void_fn_spec(name@, params@),
{
    let pieces = split_char(params, ',');
    let ghost pv = views(pieces@);
    proof {
        crate::text::lemma_split_nonempty(params@, ',');
    }
    let mut count: usize = 0;
    let mut i: usize = 0;
    while i < pieces.len()
        invariant
            i <= pieces@.len(),
            pv == views(pieces@),
            count == nonblank_count(pv.take(i as int)),
            count <= i,
        decreases pieces@.len() - i,
    {
        assert(pv.take(i + 1).drop_last() =~= pv.take(i as int));
        if !trim(pieces[i].as_str()).as_str().is_empty() {
            count = count + 1;
        }
        i = i + 1;
    }
    assert(pv.take(pieces@.len() as int) =~= pv);
    if contains(name, "free") || (count == 1 && str_eq(trim(params).as_str(), "void *")) {
        return (
            VoidPtrKind::DeallocatorFnPtr,
            copy_str("// Rust RAII: Drop trait replaces free_func"),
        );
    }
    let last = trim(pieces[pieces.len() - 1].as_str());
    if starts_with(last.as_str(), "void") || str_eq(last.as_str(), "void *") {
        return (VoidPtrKind::CallbackFnPtr, build_callback_rust_type(params));
    }
    let mut unders: Vec<String> = Vec::new();
    let mut k: usize = 0;
    while k < pieces.len()
        invariant
            k <= pieces@.len(),
            views(unders@) =~= Seq::new(k as nat, |i: int| "_"@),
        decreases pieces@.len() - k,
    {
        let ghost before = views(unders@);
        let u = copy_str("_");
        unders.push(u);
        assert(views(unders@) =~= before.push(u@));
        k = k + 1;
    }
    let mut out = copy_str("impl FnMut(");
    push_str(&mut out, join(&unders, ", ").as_str());
    push_str(&mut out, ") + 'static");
    (VoidPtrKind::CallbackFnPtr, out)
}

/// Whether a lowercased parameter name is a user-data name.
pub open spec fn is_user_data_name(n: Seq<char>) -> bool {
    n == "data"@ || n == "user_data"@ || n == "userdata"@ || n == "context"@ || n == "ctx"@ || n
        == "arg"@ || n == "args"@ || n == "handle"@
}

/// Whether a lowercased parameter name is an input-buffer name.
pub open spec fn is_input_name(n: Seq<char>) -> bool {
    n == "s"@ || n == "src"@ || n == "source"@ || n == "buf"@ || n == "buffer"@ || n == "input"@
        || n == "in"@ || n == "data"@
}

/// Whether a lowercased parameter name is an output-buffer name.
pub open spec fn is_output_name(n: Seq<char>) -> bool {
    n == "dest"@ || n == "dst"@ || n == "out"@ || n == "output"@ || n == "buf"@ || n == "buffer"@
}

/// The classification of a plain `void *name` parameter, by its lowercased name and constness.
pub open spec fn void_param_spec(name: Seq<char>, is_const: bool) -> (VoidPtrKind, Seq<char>) {
    let lower = str_lower(name);
    if is_user_data_name(lower) {
        (VoidPtrKind::UserData, "<T> user_data: &"@ + (if is_const {
            ""@
        } else {
            "mut "@
        }) + "T"@)
    } else if is_const || is_input_name(lower) {
        (VoidPtrKind::InputBuffer, "&[u8]"@)
    } else if is_output_name(lower) {
        (VoidPtrKind::OutputBuffer, "&mut [u8]"@)
    } else {
        (VoidPtrKind::Other, "Box<dyn std::any::Any>"@)
    }
}

fn is_one_of(n: &str, names: &[&str]) -> (r: bool)
    ensures
        r == exists|i: int| 0 <= i < names@.len() && n@ == names@[i]@,
{
    let mut i: usize = 0;
    while i < names.len()
        invariant
            i <= names@.len(),
            forall|j: int| 0 <= j < i ==> n@ != names@[j]@,
        decreases names@.len() - i,
    {
        if str_eq(n, names[i]) {
            return true;
        }
        i = i + 1;
    }
    false
}

/// Classifies a plain `void *name` parameter.
pub fn classify_void_param(name: &str, is_const: bool, line: &str) -> (r: (VoidPtrKind, String))
    ensures
        (r.0, r.1@) == void_param_spec(name@, is_const),
{
    let lower = to_lowercase(name);
    let l = lower.as_str();
    let user = str_eq(l, "data") || str_eq(l, "user_data") || str_eq(l, "userdata") || str_eq(
        l,
        "context",
    ) || str_eq(l, "ctx") || str_eq(l, "arg") || str_eq(l, "args") || str_eq(l, "handle");
    if user {
        let mut s = copy_str("<T> user_data: &");
        push_str(
            &mut s,
            if is_const {
                ""
            } else {
                "mut "
            },
        );
        push_str(&mut s, "T");
        return (VoidPtrKind::UserData, s);
    }
    let input = str_eq(l, "s") || str_eq(l, "src") || str_eq(l, "source") || str_eq(l, "buf")
        || str_eq(l, "buffer") || str_eq(l, "input") || str_eq(l, "in") || str_eq(l, "data");
    if is_const || input {
        return (VoidPtrKind::InputBuffer, copy_str("&[u8]"));
    }
    let output = str_eq(l, "dest") || str_eq(l, "dst") || str_eq(l, "out") || str_eq(l, "output")
        || str_eq(l, "buf") || str_eq(l, "buffer");
    if output {
        return (VoidPtrKind::OutputBuffer, copy_str("&mut [u8]"));
    }
    (VoidPtrKind::Other, copy_str("Box<dyn std::any::Any>"))
}

// ---------------------------------------------------------------------------
// Counting and hints
// ---------------------------------------------------------------------------

/// The number of patterns whose kind satisfies `f`.
pub open spec fn kind_count(ps: Seq<VoidPtrPattern>, f: spec_fn(VoidPtrKind) -> bool) -> nat
    decreases ps.len(),
{
    if ps.len() == 0 {
        0
    } else {
        kind_count(ps.drop_last(), f) + if f(ps.last().kind) {
            1nat
        } else {
            0nat
        }
    }
}

/// User data.
pub open spec fn is_user_data(k: VoidPtrKind) -> bool {
    k == VoidPtrKind::UserData
}

/// Callback function pointers.
pub open spec fn is_callback(k: VoidPtrKind) -> bool {
    k == VoidPtrKind::CallbackFnPtr
}

/// Allocator and deallocator function pointers.
pub open spec fn is_alloc(k: VoidPtrKind) -> bool {
    k == VoidPtrKind::AllocatorFnPtr || k == VoidPtrKind::DeallocatorFnPtr
}

/// Input and output buffers.
pub open spec fn is_buffer(k: VoidPtrKind) -> bool {
    k == VoidPtrKind::InputBuffer || k == VoidPtrKind::OutputBuffer
}

/// Counts patterns by group: (user data, callbacks, allocator/deallocator, buffers).
pub fn count_patterns(patterns: &[VoidPtrPattern]) -> (r: (usize, usize, usize, usize))
    ensures
        r.0 == kind_count(patterns@, |k| is_user_data(k)),
        r.1 == kind_count(patterns@, |k| is_callback(k)),
        r.2 == kind_count(patterns@, |k| is_alloc(k)),
        r.3 == kind_count(patterns@, |k| is_buffer(k)),
{
    let mut u: usize = 0;
    let mut c: usize = 0;
    let mut a: usize = 0;
    let mut b: usize = 0;
    let mut i: usize = 0;
    while i < patterns.len()
        invariant
            i <= patterns@.len(),
            u == kind_count(patterns@.take(i as int), |k| is_user_data(k)),
            c == kind_count(patterns@.take(i as int), |k| is_callback(k)),
            a == kind_count(patterns@.take(i as int), |k| is_alloc(k)),
            b == kind_count(patterns@.take(i as int), |k| is_buffer(k)),
            u <= i && c <= i && a <= i && b <= i,
        decreases patterns@.len() - i,
    {
        assert(patterns@.take(i + 1).drop_last() =~= patterns@.take(i as int));
        match patterns[i].kind {
            VoidPtrKind::UserData => { u = u + 1; },
            VoidPtrKind::CallbackFnPtr => { c = c + 1; },
            VoidPtrKind::AllocatorFnPtr | VoidPtrKind::DeallocatorFnPtr => { a = a + 1; },
            VoidPtrKind::InputBuffer | VoidPtrKind::OutputBuffer => { b = b + 1; },
            VoidPtrKind::Other => {},
        }
        i = i + 1;
    }
    assert(patterns@.take(patterns@.len() as int) =~= patterns@);
    (u, c, a, b)
}

/// A paragraph of the hint: `title`, the count, then `tail`; empty for a zero count.
pub open spec fn paragraph(n: nat, title: Seq<char>, tail: Seq<char>) -> Seq<char> {
    if n > 0 {
        title + decimal(n) + tail
    } else {
        Seq::empty()
    }
}

/// The hint block for the given group counts.
pub open spec fn void_hints_for(u: nat, c: nat, a: nat, b: nat) -> Seq<char> {
    "## Void Pointer Conversion Hints\n\n"@
        + "The following `void*` patterns were detected and should be converted:\n\n"@
        + paragraph(
        u,
        "### User Data (`void *data`) — "@,
        " occurrences\nUse a generic type parameter `<T>` and pass `&mut T` through callbacks.\nThis eliminates the void* completely and provides type safety.\n\n"@,
    ) + paragraph(
        c,
        "### Callback Function Pointers — "@,
        " occurrences\nConvert `void (*cb)(void*, size_t, void*)` to:\n```rust\ncb1: impl FnMut(&[u8], &mut T)\ncb2: impl FnMut(u8, &mut T)\n```\nThis makes the API generic over the user data type `T`.\n\n"@,
    ) + paragraph(
        a,
        "### Allocator Function Pointers — "@,
        " occurrences\nReplace with `Vec<u8>` for buffer management. Rust's allocator handles resizing.\n`realloc_func` → `Vec::resize` or `Vec::extend`\n`free_func` → automatic via Drop (no explicit call needed)\n\n"@,
    ) + paragraph(
        b,
        "### Input/Output Buffers — "@,
        " occurrences\n`const void *s` → `&[u8]`\n`void *dest` → `&mut [u8]` or return a `Vec<u8>`\n\n"@,
    )
}

/// Appends a paragraph to `hint`.
fn push_paragraph(hint: &mut String, n: usize, title: &str, tail: &str)
    ensures
        final(hint)@ == old(hint)@ + paragraph(n as nat, title@, tail@),
{
    if n > 0 {
        push_str(hint, title);
        push_decimal(hint, n);
        push_str(hint, tail);
        assert(hint@ =~= old(hint)@ + paragraph(n as nat, title@, tail@));
    } else {
        assert(hint@ =~= old(hint)@ + paragraph(n as nat, title@, tail@));
    }
}

/// The hint block for a list of patterns (empty for none).
pub open spec fn void_hints_spec(ps: Seq<VoidPtrPattern>) -> Seq<char> {
    if ps.len() == 0 {
        Seq::empty()
    } else {
        void_hints_for(
            kind_count(ps, |k| is_user_data(k)),
            kind_count(ps, |k| is_callback(k)),
            kind_count(ps, |k| is_alloc(k)),
            kind_count(ps, |k| is_buffer(k)),
        )
    }
}

/// Generates the `void*` conversion hint block: one paragraph per group that occurs (user data,
/// callbacks, allocator/deallocator pointers, buffers) with its count. Empty for no patterns.
pub fn generate_void_ptr_hints(patterns: &[VoidPtrPattern]) -> (r: String)
    ensures
        r@ == void_hints_spec(patterns@),
{
    if patterns.len() == 0 {
        return String::new();
    }
    let (u, c, a, b) = count_patterns(patterns);
    let mut hint = copy_str("## Void Pointer Conversion Hints\n\n");
    push_str(
        &mut hint,
        "The following `void*` patterns were detected and should be converted:\n\n",
    );
    push_paragraph(
        &mut hint,
        u,
        "### User Data (`void *data`) — ",
        " occurrences\nUse a generic type parameter `<T>` and pass `&mut T` through callbacks.\nThis eliminates the void* completely and provides type safety.\n\n",
    );
    push_paragraph(
        &mut hint,
        c,
        "### Callback Function Pointers — ",
        " occurrences\nConvert `void (*cb)(void*, size_t, void*)` to:\n```rust\ncb1: impl FnMut(&[u8], &mut T)\ncb2: impl FnMut(u8, &mut T)\n```\nThis makes the API generic over the user data type `T`.\n\n",
    );
    push_paragraph(
        &mut hint,
        a,
        "### Allocator Function Pointers — ",
        " occurrences\nReplace with `Vec<u8>` for buffer management. Rust's allocator handles resizing.\n`realloc_func` → `Vec::resize` or `Vec::extend`\n`free_func` → automatic via Drop (no explicit call needed)\n\n",
    );
    push_paragraph(
        &mut hint,
        b,
        "### Input/Output Buffers — ",
        " occurrences\n`const void *s` → `&[u8]`\n`void *dest` → `&mut [u8]` or return a `Vec<u8>`\n\n",
    );
    assert(hint@ =~= void_hints_spec(patterns@));
    hint
}


// ---------------------------------------------------------------------------
// Detection
// ---------------------------------------------------------------------------

/// The plain value of a detected pattern: context, line, kind, suggestion.
pub open spec fn void_pattern_view(p: VoidPtrPattern) -> (Seq<char>, nat, VoidPtrKind, Seq<char>) {
    (p.context@, p.line as nat, p.kind, p.rust_suggestion@)
}

/// The plain values of detected patterns.
pub open spec fn void_pattern_views(ps: Seq<VoidPtrPattern>) -> Seq<(Seq<char>, nat, VoidPtrKind, Seq<char>)> {
    ps.map_values(|p: VoidPtrPattern| void_pattern_view(p))
}

/// The pattern of a function pointer returning `void*`: group 1 is its name, group 2 its
/// parameters.
pub const ALLOCATOR_FN_PATTERN: &'static str = r"void\s*\*\s*\(\s*\*\s*(\w+)\s*\)\s*\(([^)]*)\)";

/// The pattern of a function pointer returning `void`: group 1 is its name, group 2 its
/// parameters.
pub const VOID_FN_PATTERN: &'static str = r"void\s+\(\s*\*\s*(\w+)\s*\)\s*\(([^)]*)\)";

/// The pattern of a `void*` (or `const void*`) name; group 1 is the name.
pub const VOID_PARAM_PATTERN: &'static str = r"(?:const\s+)?void\s*\*\s*(\w+)";

/// What function pointers are replaced by before plain `void*` names are looked for.
pub const FN_PTR_PLACEHOLDER: &'static str = " __FN_PTR__ ";

/// A line with its function pointers replaced by `FN_PTR_PLACEHOLDER`, allocator-style ones
/// first.
pub open spec fn stripped_line(line: Seq<char>) -> Seq<char> {
    regex_replace_all(
        VOID_FN_PATTERN@,
        regex_replace_all(ALLOCATOR_FN_PATTERN@, line, FN_PTR_PLACEHOLDER@),
        FN_PTR_PLACEHOLDER@,
    )
}

/// The plain `void*` parameter read from one match in a stripped line; none for the names
/// `void`, the empty name and the placeholder's name.
pub open spec fn void_param_entry(line: Seq<char>, line_no: nat, m: Seq<Option<(int, int, Seq<char>)>>) -> Option<
    (Seq<char>, nat, VoidPtrKind, Seq<char>),
> {
    let name = group_text(m, 1);
    if name == "void"@ || name.len() == 0 || name == "__FN_PTR__"@ {
        None
    } else {
        let (k, s) = void_param_spec(name, contains_spec(line, "const void"@));
        Some((trim_spec(line), line_no, k, s))
    }
}

/// The patterns on one line, from the matches of the allocator and `void` function-pointer
/// patterns in it and of `VOID_PARAM_PATTERN` in its stripped form: the allocator function
/// pointers, then the other function pointers, then the plain `void*` names.
pub open spec fn line_patterns_spec(
    line: Seq<char>,
    line_no: nat,
    allocs: Seq<Seq<Option<(int, int, Seq<char>)>>>,
    fns: Seq<Seq<Option<(int, int, Seq<char>)>>>,
    params: Seq<Seq<Option<(int, int, Seq<char>)>>>,
) -> Seq<(Seq<char>, nat, VoidPtrKind, Seq<char>)> {
    let ctx = trim_spec(line);
    allocs.map_values(
        |m: Seq<Option<(int, int, Seq<char>)>>|
            {
                let (k, s) = allocator_spec(group_text(m, 1), group_text(m, 2));
                (ctx, line_no, k, s)
            },
    ) + fns.map_values(
        |m: Seq<Option<(int, int, Seq<char>)>>|
            {
                let (k, s) = void_fn_spec(group_text(m, 1), group_text(m, 2));
                (ctx, line_no, k, s)
            },
    ) + somes(
        params.map_values(
            |m: Seq<Option<(int, int, Seq<char>)>>| void_param_entry(line, line_no, m),
        ),
    )
}

/// The patterns on the first `n` of the lines `ls`, numbered from 1.
pub open spec fn void_patterns_upto(ls: Seq<Seq<char>>, n: int) -> Seq<(Seq<char>, nat, VoidPtrKind, Seq<char>)>
    decreases n,
{
    if n <= 0 {
        Seq::empty()
    } else {
        let l = ls[n - 1];
        void_patterns_upto(ls, n - 1) + line_patterns_spec(
            l,
            n as nat,
            regex_captures(ALLOCATOR_FN_PATTERN@, l),
            regex_captures(VOID_FN_PATTERN@, l),
            regex_captures(VOID_PARAM_PATTERN@, stripped_line(l)),
        )
    }
}

/// The `void*` and function-pointer patterns of a source, line by line.
pub open spec fn void_patterns_spec(source: Seq<char>) -> Seq<(Seq<char>, nat, VoidPtrKind, Seq<char>)> {
    void_patterns_upto(lines_spec(source), lines_spec(source).len() as int)
}

/// The patterns on `line`, numbered `line_no`, from the matches of the allocator and `void`
/// function-pointer patterns in it and of `VOID_PARAM_PATTERN` in its stripped form (see
/// `line_patterns_spec`).
pub fn patterns_on_line(
    line: &str,
    line_no: usize,
    allocs: &Vec<Match>,
    fns: &Vec<Match>,
    params: &Vec<Match>,
) -> (r: Vec<VoidPtrPattern>)
    ensures
        void_pattern_views(r@) == line_patterns_spec(
            line@,
            line_no as nat,
            matches_view(allocs@),
            matches_view(fns@),
            matches_view(params@),
        ),
{
    let ctx = trim(line);
    let ghost av = matches_view(allocs@);
    let ghost fv = matches_view(fns@);
    let ghost pv = matches_view(params@);
    let ghost alloc_part = av.map_values(
        |m: Seq<Option<(int, int, Seq<char>)>>|
            {
                let (k, s) = allocator_spec(group_text(m, 1), group_text(m, 2));
                (ctx@, line_no as nat, k, s)
            },
    );
    let ghost fn_part = fv.map_values(
        |m: Seq<Option<(int, int, Seq<char>)>>|
            {
                let (k, s) = void_fn_spec(group_text(m, 1), group_text(m, 2));
                (ctx@, line_no as nat, k, s)
            },
    );
    let ghost param_mapped = pv.map_values(
        |m: Seq<Option<(int, int, Seq<char>)>>| void_param_entry(line@, line_no as nat, m),
    );
    let mut r: Vec<VoidPtrPattern> = Vec::new();
    let mut i: usize = 0;
    while i < allocs.len()
        invariant
            i <= allocs@.len(),
            av == matches_view(allocs@),
            ctx@ == trim_spec(line@),
            alloc_part == av.map_values(
                |m: Seq<Option<(int, int, Seq<char>)>>|
                    {
                        let (k, s) = allocator_spec(group_text(m, 1), group_text(m, 2));
                        (ctx@, line_no as nat, k, s)
                    },
            ),
            void_pattern_views(r@) == alloc_part.take(i as int),
        decreases allocs@.len() - i,
    {
        let name = text_of(&allocs[i], 1);
        let ps = text_of(&allocs[i], 2);
        let (kind, rust_suggestion) = classify_allocator_fn(name.as_str(), ps.as_str());
        let p = VoidPtrPattern { context: copy_str(ctx.as_str()), line: line_no, kind, rust_suggestion };
        let ghost prev = void_pattern_views(r@);
        r.push(p);
        assert(void_pattern_views(r@) =~= prev.push(void_pattern_view(p)));
        assert(alloc_part.take(i + 1) =~= alloc_part.take(i as int).push(alloc_part[i as int]));
        i = i + 1;
    }
    assert(alloc_part.take(allocs@.len() as int) =~= alloc_part);
    let mut j: usize = 0;
    while j < fns.len()
        invariant
            j <= fns@.len(),
            fv == matches_view(fns@),
            ctx@ == trim_spec(line@),
            fn_part == fv.map_values(
                |m: Seq<Option<(int, int, Seq<char>)>>|
                    {
                        let (k, s) = void_fn_spec(group_text(m, 1), group_text(m, 2));
                        (ctx@, line_no as nat, k, s)
                    },
            ),
            void_pattern_views(r@) == alloc_part + fn_part.take(j as int),
        decreases fns@.len() - j,
    {
        let name = text_of(&fns[j], 1);
        let ps = text_of(&fns[j], 2);
        let (kind, rust_suggestion) = classify_void_fn(name.as_str(), ps.as_str());
        let p = VoidPtrPattern { context: copy_str(ctx.as_str()), line: line_no, kind, rust_suggestion };
        let ghost prev = void_pattern_views(r@);
        r.push(p);
        assert(void_pattern_views(r@) =~= prev.push(void_pattern_view(p)));
        assert(fn_part.take(j + 1) =~= fn_part.take(j as int).push(fn_part[j as int]));
        j = j + 1;
    }
    assert(fn_part.take(fns@.len() as int) =~= fn_part);
    let is_const = contains(line, "const void");
    let mut k: usize = 0;
    while k < params.len()
        invariant
            k <= params@.len(),
            pv == matches_view(params@),
            ctx@ == trim_spec(line@),
            is_const == contains_spec(line@, "const void"@),
            param_mapped == pv.map_values(
                |m: Seq<Option<(int, int, Seq<char>)>>| void_param_entry(line@, line_no as nat, m),
            ),
            void_pattern_views(r@) == alloc_part + fn_part + somes(param_mapped.take(k as int)),
        decreases params@.len() - k,
    {
        assert(param_mapped.take(k + 1).drop_last() =~= param_mapped.take(k as int));
        let name = text_of(&params[k], 1);
        let n = name.as_str();
        if !(str_eq(n, "void") || n.unicode_len() == 0 || str_eq(n, "__FN_PTR__")) {
            let (kind, rust_suggestion) = classify_void_param(n, is_const, line);
            let p = VoidPtrPattern {
                context: copy_str(ctx.as_str()),
                line: line_no,
                kind,
                rust_suggestion,
            };
            let ghost prev = void_pattern_views(r@);
            r.push(p);
            assert(void_pattern_views(r@) =~= prev.push(void_pattern_view(p)));
        }
        k = k + 1;
    }
    assert(param_mapped.take(params@.len() as int) =~= param_mapped);
    r
}

/// The `void*` and function-pointer patterns of `source`, line by line (see
/// `void_patterns_spec`).
pub fn detect_void_ptr_patterns(source: &str) -> (r: Vec<VoidPtrPattern>)
    ensures
        void_pattern_views(r@) == void_patterns_spec(source@),
{
    let ls = lines(source);
    let ghost l = views(ls@);
    let mut r: Vec<VoidPtrPattern> = Vec::new();
    let mut i: usize = 0;
    while i < ls.len()
        invariant
            i <= l.len(),
            l == views(ls@),
            l == lines_spec(source@),
            void_pattern_views(r@) == void_patterns_upto(l, i as int),
        decreases l.len() - i,
    {
        let line = ls[i].as_str();
        let allocs = captures_all(ALLOCATOR_FN_PATTERN, line);
        let fns = captures_all(VOID_FN_PATTERN, line);
        let s1 = replace_all(ALLOCATOR_FN_PATTERN, line, FN_PTR_PLACEHOLDER);
        let s2 = replace_all(VOID_FN_PATTERN, s1.as_str(), FN_PTR_PLACEHOLDER);
        let params = captures_all(VOID_PARAM_PATTERN, s2.as_str());
        let mut found = patterns_on_line(line, i + 1, &allocs, &fns, &params);
        let ghost prev = void_pattern_views(r@);
        let ghost added = void_pattern_views(found@);
        r.append(&mut found);
        assert(void_pattern_views(r@) =~= prev + added);
        i = i + 1;
    }
    r
}

} // verus!
