//! Detection and summary of manual memory management (malloc/free, new/delete, smart pointers).
use vstd::prelude::*;
use vstd::string::*;
use vstd::utf8::*;

use crate::patterns::{
    captures_all, groups_in_bounds, match_start, match_view, matches_view, regex_captures,
    start_of, group_view,
};
use crate::text::{
    copy_str, decimal, holds_text, join, join_spec, lemma_join_append, lemma_join_cons, lines, lines_spec, push_decimal, push_str, trim, trim_spec,
    views,
};
use crate::types::{MemoryPattern, MemoryPatternKind};

verus! {

/// The detection table: the regular expression for each kind, in the order they are scanned.
pub open spec fn memory_check(i: int) -> (Seq<char>, MemoryPatternKind) {
    if i == 0 {
        ("\\bmalloc\\s*\\("@, MemoryPatternKind::Malloc)
    } else if i == 1 {
        ("\\bcalloc\\s*\\("@, MemoryPatternKind::Calloc)
    } else if i == 2 {
        ("\\brealloc\\s*\\("@, MemoryPatternKind::Realloc)
    } else if i == 3 {
        ("\\bfree\\s*\\("@, MemoryPatternKind::Free)
    } else if i == 4 {
        ("\\bnew\\s+\\w+\\s*\\["@, MemoryPatternKind::NewArray)
    } else if i == 5 {
        ("\\bnew\\s+\\w+"@, MemoryPatternKind::New)
    } else if i == 6 {
        ("\\bdelete\\s*\\[\\s*\\]"@, MemoryPatternKind::DeleteArray)
    } else if i == 7 {
        ("\\bdelete\\s+"@, MemoryPatternKind::Delete)
    } else if i == 8 {
        ("\\bunique_ptr\\s*<"@, MemoryPatternKind::UniquePtr)
    } else if i == 9 {
        ("\\bshared_ptr\\s*<"@, MemoryPatternKind::SharedPtr)
    } else {
        ("\\bweak_ptr\\s*<"@, MemoryPatternKind::WeakPtr)
    }
}

/// The number of entries in the detection table.
pub open spec fn memory_check_count() -> int {
    11
}

fn memory_check_exec(i: usize) -> (r: (&'static str, MemoryPatternKind))
    requires
        i < 11,
    ensures
        (r.0@, r.1) == memory_check(i as int),
{
    if i == 0 {
        ("\\bmalloc\\s*\\(", MemoryPatternKind::Malloc)
    } else if i == 1 {
        ("\\bcalloc\\s*\\(", MemoryPatternKind::Calloc)
    } else if i == 2 {
        ("\\brealloc\\s*\\(", MemoryPatternKind::Realloc)
    } else if i == 3 {
        ("\\bfree\\s*\\(", MemoryPatternKind::Free)
    } else if i == 4 {
        ("\\bnew\\s+\\w+\\s*\\[", MemoryPatternKind::NewArray)
    } else if i == 5 {
        ("\\bnew\\s+\\w+", MemoryPatternKind::New)
    } else if i == 6 {
        ("\\bdelete\\s*\\[\\s*\\]", MemoryPatternKind::DeleteArray)
    } else if i == 7 {
        ("\\bdelete\\s+", MemoryPatternKind::Delete)
    } else if i == 8 {
        ("\\bunique_ptr\\s*<", MemoryPatternKind::UniquePtr)
    } else if i == 9 {
        ("\\bshared_ptr\\s*<", MemoryPatternKind::SharedPtr)
    } else {
        ("\\bweak_ptr\\s*<", MemoryPatternKind::WeakPtr)
    }
}

/// The plain value of a memory pattern: kind, trimmed line text, line number.
pub open spec fn pattern_view(p: MemoryPattern) -> (MemoryPatternKind, Seq<char>, int) {
    (p.kind, p.location@, p.line as int)
}

/// The plain values of a list of memory patterns.
pub open spec fn pattern_views(ps: Seq<MemoryPattern>) -> Seq<(MemoryPatternKind, Seq<char>, int)> {
    ps.map_values(|p: MemoryPattern| pattern_view(p))
}

/// The memory-management sites of `source`, as `analyze_memory_patterns` reports them.
pub open spec fn memory_sites(source: Seq<char>) -> Seq<(MemoryPatternKind, Seq<char>, int)> {
    sort_by_line(sites_upto(source, memory_check_count()))
}

/// The number of newline bytes in `b`.
pub open spec fn newline_count(b: Seq<u8>) -> nat
    decreases b.len(),
{
    if b.len() == 0 {
        0
    } else {
        newline_count(b.drop_last()) + if b.last() == 10 {
            1nat
        } else {
            0nat
        }
    }
}

/// The `i`-th element of `s`, or the empty text past its end.
pub open spec fn nth_or_empty(s: Seq<Seq<char>>, i: int) -> Seq<char> {
    if 0 <= i < s.len() {
        s[i]
    } else {
        Seq::<char>::empty()
    }
}

/// The 1-based line on which the byte at offset `start` of `source` lies.
pub open spec fn line_at(source: Seq<char>, start: int) -> int {
    newline_count(encode_utf8(source).take(start)) as int + 1
}

/// The site reported for one match of a detection pattern.
pub open spec fn site(source: Seq<char>, kind: MemoryPatternKind, m: Seq<Option<(int, int, Seq<char>)>>) -> (
    MemoryPatternKind,
    Seq<char>,
    int,
) {
    let line = line_at(source, match_start(m));
    (kind, trim_spec(nth_or_empty(lines_spec(source), line - 1)), line)
}

/// The sites found by the first `n` entries of the detection table, table order then match order.
pub open spec fn sites_upto(source: Seq<char>, n: int) -> Seq<(MemoryPatternKind, Seq<char>, int)>
    decreases n,
{
    if n <= 0 {
        Seq::empty()
    } else {
        let (pat, kind) = memory_check(n - 1);
        sites_upto(source, n - 1) + regex_captures(pat, source).map_values(
            |m: Seq<Option<(int, int, Seq<char>)>>| site(source, kind, m),
        )
    }
}

/// Inserts `x` after every element whose line is at most `x`'s, scanning from the back.
pub open spec fn insert_by_line<K>(s: Seq<(K, Seq<char>, int)>, x: (K, Seq<char>, int)) -> Seq<
    (K, Seq<char>, int),
>
    decreases s.len(),
{
    if s.len() == 0 {
        seq![x]
    } else if s.last().2 <= x.2 {
        s.push(x)
    } else {
        insert_by_line(s.drop_last(), x).push(s.last())
    }
}

/// Stable sort by line number (insertion sort).
pub open spec fn sort_by_line<K>(s: Seq<(K, Seq<char>, int)>) -> Seq<(K, Seq<char>, int)>
    decreases s.len(),
{
    if s.len() == 0 {
        s
    } else {
        insert_by_line(sort_by_line(s.drop_last()), s.last())
    }
}

proof fn lemma_insert_by_line<K>(s: Seq<(K, Seq<char>, int)>, x: (K, Seq<char>, int), p: int)
    requires
        0 <= p <= s.len(),
        forall|j: int| p <= j < s.len() ==> s[j].2 > x.2,
        p == 0 || s[p - 1].2 <= x.2,
    ensures
        insert_by_line(s, x) =~= s.take(p).push(x) + s.skip(p),
    decreases s.len(),
{
    if s.len() > 0 && p < s.len() {
        lemma_insert_by_line(s.drop_last(), x, p);
        assert(s.drop_last().take(p) =~= s.take(p));
        assert(s.drop_last().skip(p).push(s.last()) =~= s.skip(p));
    } else if s.len() > 0 {
        assert(s.take(p) =~= s);
        assert(s.skip(p) =~= Seq::<(K, Seq<char>, int)>::empty());
    }
}

/// Inserts `x` into `v` as `insert_by_line` does.
fn insert_pattern(v: &mut Vec<MemoryPattern>, x: MemoryPattern)
    ensures
        final(v)@.map_values(|p: MemoryPattern| pattern_view(p)) == insert_by_line(
            old(v)@.map_values(|p: MemoryPattern| pattern_view(p)),
            pattern_view(x),
        ),
{
    let ghost s = v@.map_values(|p: MemoryPattern| pattern_view(p));
    let mut p = v.len();
    while p > 0 && v[p - 1].line > x.line
        invariant
            p <= v@.len(),
            s == v@.map_values(|p: MemoryPattern| pattern_view(p)),
            forall|j: int| p <= j < s.len() ==> s[j].2 > x.line,
        decreases p,
    {
        p = p - 1;
    }
    proof {
        lemma_insert_by_line(s, pattern_view(x), p as int);
    }
    v.insert(p, x);
    assert(v@.map_values(|p: MemoryPattern| pattern_view(p)) =~= s.take(p as int).push(
        pattern_view(x),
    ) + s.skip(p as int));
}

/// A copy of `p`.
pub fn copy_pattern(p: &MemoryPattern) -> (r: MemoryPattern)
    ensures
        pattern_view(r) == pattern_view(*p),
{
    MemoryPattern { kind: p.kind, location: copy_str(p.location.as_str()), line: p.line }
}

/// The number of newline bytes among the first `n` bytes of `b`.
fn count_newlines(b: &[u8], n: usize) -> (c: usize)
    requires
        n <= b@.len(),
    ensures
        c == newline_count(b@.take(n as int)),
        c <= n,
{
    let mut c: usize = 0;
    let mut i: usize = 0;
    while i < n
        invariant
            i <= n <= b@.len(),
            c == newline_count(b@.take(i as int)),
            c <= i,
        decreases n - i,
    {
        assert(b@.take(i + 1).drop_last() =~= b@.take(i as int));
        if b[i] == 10 {
            c = c + 1;
        }
        i = i + 1;
    }
    c
}

/// Finds every memory-management site in `source`: the matches of each detection pattern in
/// table order, each with its 1-based line and that line's trimmed text, then stably sorted by
/// line.
pub fn analyze_memory_patterns(source: &str) -> (r: Vec<MemoryPattern>)
    requires
        source.spec_bytes().len() < usize::MAX,
    ensures
        pattern_views(r@) == memory_sites(source@),
{
    let bytes = source.as_bytes();
    let all_lines = lines(source);
    let mut sites: Vec<MemoryPattern> = Vec::new();
    let mut i: usize = 0;
    while i < 11
        invariant
            i <= 11,
            bytes@ == source.spec_bytes(),
            source.spec_bytes().len() < usize::MAX,
            views(all_lines@) == lines_spec(source@),
            sites@.map_values(|p: MemoryPattern| pattern_view(p)) == sites_upto(source@, i as int),
        decreases 11 - i,
    {
        let (pat, kind) = memory_check_exec(i);
        let ms = captures_all(pat, source);
        let ghost before = sites@.map_values(|p: MemoryPattern| pattern_view(p));
        let ghost mv = matches_view(ms@);
        let mut k: usize = 0;
        while k < ms.len()
            invariant
                k <= ms@.len(),
                bytes@ == source.spec_bytes(),
                source.spec_bytes().len() < usize::MAX,
                views(all_lines@) == lines_spec(source@),
                mv == matches_view(ms@),
                mv == regex_captures(pat@, source@),
                forall|j: int|
                    0 <= j < ms@.len() ==> groups_in_bounds(
                        #[trigger] ms@[j],
                        source.spec_bytes().len() as int,
                    ),
                sites@.map_values(|p: MemoryPattern| pattern_view(p)) == before + mv.take(
                    k as int,
                ).map_values(|m: Seq<Option<(int, int, Seq<char>)>>| site(source@, kind, m)),
            decreases ms@.len() - k,
        {
            let m = &ms[k];
            let start = start_of(m);
            assert(mv[k as int] == match_view(*m));
            assert(start <= bytes@.len()) by {
                if m.groups@.len() > 0 {
                    assert(groups_in_bounds(ms@[k as int], source.spec_bytes().len() as int));
                    if m.groups@[0] is Some {
                        assert(match_view(*m)[0] == group_view(m.groups@[0]));
                    }
                }
            }
            let line = count_newlines(bytes, start) + 1;
            let location = if line - 1 < all_lines.len() {
                trim(all_lines[line - 1].as_str())
            } else {
                trim("")
            };
            proof {
                if line - 1 < all_lines@.len() {
                    assert(views(all_lines@)[line - 1] == all_lines@[line - 1]@);
                }
                assert(""@.len() == 0) by {
                    reveal_strlit("");
                }
                assert(""@ =~= Seq::<char>::empty());
                assert(trim_spec(Seq::<char>::empty()) =~= Seq::<char>::empty());
            }
            let ghost prev = sites@.map_values(|p: MemoryPattern| pattern_view(p));
            let entry = MemoryPattern { kind, location, line };
            assert(pattern_view(entry) == site(source@, kind, mv[k as int]));
            sites.push(entry);
            assert(sites@.map_values(|p: MemoryPattern| pattern_view(p)) =~= prev.push(
                pattern_view(entry),
            ));
            assert(mv.take(k + 1) =~= mv.take(k as int).push(mv[k as int]));
            assert(mv.take(k + 1).map_values(
                |m: Seq<Option<(int, int, Seq<char>)>>| site(source@, kind, m),
            ) =~= mv.take(k as int).map_values(
                |m: Seq<Option<(int, int, Seq<char>)>>| site(source@, kind, m),
            ).push(site(source@, kind, mv[k as int])));
            k = k + 1;
        }
        assert(mv.take(ms@.len() as int) =~= mv);
        i = i + 1;
    }
    let mut sorted: Vec<MemoryPattern> = Vec::new();
    let ghost all = sites@.map_values(|p: MemoryPattern| pattern_view(p));
    let mut j: usize = 0;
    let n = sites.len();
    while j < n
        invariant
            n == sites@.len(),
            j <= n,
            all == sites@.map_values(|p: MemoryPattern| pattern_view(p)),
            sorted@.map_values(|p: MemoryPattern| pattern_view(p)) == sort_by_line(
                all.take(j as int),
            ),
        decreases n - j,
    {
        let x = copy_pattern(&sites[j]);
        assert(pattern_view(x) == all[j as int]);
        insert_pattern(&mut sorted, x);
        assert(all.take(j + 1).drop_last() =~= all.take(j as int));
        j = j + 1;
    }
    assert(all.take(n as int) =~= all);
    sorted
}


/// The number of patterns in `ps` whose kind satisfies `f`.
pub open spec fn count_kinds(
    ps: Seq<(MemoryPatternKind, Seq<char>, int)>,
    f: spec_fn(MemoryPatternKind) -> bool,
) -> nat
    decreases ps.len(),
{
    if ps.len() == 0 {
        0
    } else {
        count_kinds(ps.drop_last(), f) + if f(ps.last().0) {
            1nat
        } else {
            0nat
        }
    }
}

/// `malloc` or `calloc`.
pub open spec fn is_c_alloc(k: MemoryPatternKind) -> bool {
    k == MemoryPatternKind::Malloc || k == MemoryPatternKind::Calloc
}

/// `free`.
pub open spec fn is_free(k: MemoryPatternKind) -> bool {
    k == MemoryPatternKind::Free
}

/// `new` or `new[]`.
pub open spec fn is_new(k: MemoryPatternKind) -> bool {
    k == MemoryPatternKind::New || k == MemoryPatternKind::NewArray
}

/// `delete` or `delete[]`.
pub open spec fn is_delete(k: MemoryPatternKind) -> bool {
    k == MemoryPatternKind::Delete || k == MemoryPatternKind::DeleteArray
}

/// A smart pointer.
pub open spec fn is_smart(k: MemoryPatternKind) -> bool {
    k == MemoryPatternKind::UniquePtr || k == MemoryPatternKind::SharedPtr || k
        == MemoryPatternKind::WeakPtr
}

/// The lines of a memory summary for the given counts.
pub open spec fn summary_lines(
    allocs: nat,
    frees: nat,
    news: nat,
    deletes: nat,
    smart: nat,
) -> Seq<Seq<char>> {
    let c_part = if allocs > 0 || frees > 0 {
        let line = "C-style: "@ + decimal(allocs) + " malloc/calloc, "@ + decimal(frees) + " free"@;
        if allocs != frees {
            seq![line, "  WARNING: malloc/free count mismatch (potential leak)"@]
        } else {
            seq![line]
        }
    } else {
        Seq::empty()
    };
    let cpp_part = if news > 0 || deletes > 0 {
        let line = "C++-style: "@ + decimal(news) + " new, "@ + decimal(deletes) + " delete"@;
        if news != deletes {
            seq![line, "  WARNING: new/delete count mismatch (potential leak)"@]
        } else {
            seq![line]
        }
    } else {
        Seq::empty()
    };
    let smart_part = if smart > 0 {
        seq!["Smart pointers: "@ + decimal(smart) + " usages"@]
    } else {
        Seq::empty()
    };
    c_part + cpp_part + smart_part
}

/// The summary text of a list of memory patterns.
pub open spec fn summary_spec(ps: Seq<(MemoryPatternKind, Seq<char>, int)>) -> Seq<char> {
    if ps.len() == 0 {
        "No manual memory management detected."@
    } else {
        join_spec(
            summary_lines(
                count_kinds(ps, |k| is_c_alloc(k)),
                count_kinds(ps, |k| is_free(k)),
                count_kinds(ps, |k| is_new(k)),
                count_kinds(ps, |k| is_delete(k)),
                count_kinds(ps, |k| is_smart(k)),
            ),
            "\n"@,
        )
    }
}

/// The counts of allocations, frees, news, deletes and smart pointers in `ps`.
fn count_all(ps: &[MemoryPattern]) -> (r: (usize, usize, usize, usize, usize))
    ensures
        r.0 == count_kinds(pattern_views(ps@), |k| is_c_alloc(k)),
        r.1 == count_kinds(pattern_views(ps@), |k| is_free(k)),
        r.2 == count_kinds(pattern_views(ps@), |k| is_new(k)),
        r.3 == count_kinds(pattern_views(ps@), |k| is_delete(k)),
        r.4 == count_kinds(pattern_views(ps@), |k| is_smart(k)),
{
    let ghost pv = pattern_views(ps@);
    let mut a: usize = 0;
    let mut f: usize = 0;
    let mut n: usize = 0;
    let mut d: usize = 0;
    let mut s: usize = 0;
    let mut i: usize = 0;
    while i < ps.len()
        invariant
            i <= ps@.len(),
            pv == pattern_views(ps@),
            a == count_kinds(pv.take(i as int), |k| is_c_alloc(k)),
            f == count_kinds(pv.take(i as int), |k| is_free(k)),
            n == count_kinds(pv.take(i as int), |k| is_new(k)),
            d == count_kinds(pv.take(i as int), |k| is_delete(k)),
            s == count_kinds(pv.take(i as int), |k| is_smart(k)),
            a <= i && f <= i && n <= i && d <= i && s <= i,
        decreases ps@.len() - i,
    {
        assert(pv.take(i + 1).drop_last() =~= pv.take(i as int));
        let k = ps[i].kind;
        assert(pv.take(i + 1).last().0 == k);
        match k {
            MemoryPatternKind::Malloc | MemoryPatternKind::Calloc => { a = a + 1; },
            MemoryPatternKind::Free => { f = f + 1; },
            MemoryPatternKind::New | MemoryPatternKind::NewArray => { n = n + 1; },
            MemoryPatternKind::Delete | MemoryPatternKind::DeleteArray => { d = d + 1; },
            MemoryPatternKind::UniquePtr | MemoryPatternKind::SharedPtr
            | MemoryPatternKind::WeakPtr => { s = s + 1; },
            _ => {},
        }
        i = i + 1;
    }
    assert(pv.take(ps@.len() as int) =~= pv);
    (a, f, n, d, s)
}

/// Summarises memory patterns: counts of C-style allocations (`malloc`/`calloc`) and frees, of
/// C++ `new`/`delete` (array forms included) with a warning line when a pair's counts differ,
/// and of smart-pointer uses, one item per line; a fixed sentence when there are none.
pub fn summarize_memory_patterns(patterns: &[MemoryPattern]) -> (r: String)
    ensures
        r@ == summary_spec(pattern_views(patterns@)),
{
    if patterns.len() == 0 {
        return copy_str("No manual memory management detected.");
    }
    let (a, f, n, d, s) = count_all(patterns);
    let mut parts: Vec<String> = Vec::new();
    if a > 0 || f > 0 {
        let mut line = String::new();
        push_str(&mut line, "C-style: ");
        push_decimal(&mut line, a);
        push_str(&mut line, " malloc/calloc, ");
        push_decimal(&mut line, f);
        push_str(&mut line, " free");
        parts.push(line);
        if a != f {
            parts.push(copy_str("  WARNING: malloc/free count mismatch (potential leak)"));
        }
    }
    if n > 0 || d > 0 {
        let mut line = String::new();
        push_str(&mut line, "C++-style: ");
        push_decimal(&mut line, n);
        push_str(&mut line, " new, ");
        push_decimal(&mut line, d);
        push_str(&mut line, " delete");
        parts.push(line);
        if n != d {
            parts.push(copy_str("  WARNING: new/delete count mismatch (potential leak)"));
        }
    }
    if s > 0 {
        let mut line = String::new();
        push_str(&mut line, "Smart pointers: ");
        push_decimal(&mut line, s);
        push_str(&mut line, " usages");
        parts.push(line);
    }
    assert(views(parts@) =~= summary_lines(a as nat, f as nat, n as nat, d as nat, s as nat));
    join(&parts, "\n")
}

/// The number of patterns of `ps` of kind `k`.
pub open spec fn kind_total(ps: Seq<(MemoryPatternKind, Seq<char>, int)>, k: MemoryPatternKind) -> nat
    decreases ps.len(),
{
    if ps.len() == 0 {
        0
    } else {
        kind_total(ps.drop_last(), k) + if ps.last().0 == k {
            1nat
        } else {
            0nat
        }
    }
}

proof fn lemma_alloc_free_totals(ps: Seq<(MemoryPatternKind, Seq<char>, int)>)
    ensures
        count_kinds(ps, |k| is_c_alloc(k)) == kind_total(ps, MemoryPatternKind::Malloc) + kind_total(
            ps,
            MemoryPatternKind::Calloc,
        ),
        count_kinds(ps, |k| is_free(k)) == kind_total(ps, MemoryPatternKind::Free),
        ps.len() == 0 ==> kind_total(ps, MemoryPatternKind::Malloc) + kind_total(
            ps,
            MemoryPatternKind::Calloc,
        ) + kind_total(ps, MemoryPatternKind::Free) == 0,
    decreases ps.len(),
{
    if ps.len() > 0 {
        lemma_alloc_free_totals(ps.drop_last());
    }
}

/// The C-style line of a memory summary counts every `malloc` and every `calloc` as an
/// allocation and every `free` as a free: the summary starts with
/// `C-style: <allocations> malloc/calloc, <frees> free`. When the two counts differ, the
/// mismatch warning follows on the next line; when they agree, no warning follows (the summary
/// ends there, or its next line is the C++ or smart-pointer line).
pub proof fn law_summary_counts_c_allocations(ps: Seq<(MemoryPatternKind, Seq<char>, int)>)
    requires
        kind_total(ps, MemoryPatternKind::Malloc) + kind_total(ps, MemoryPatternKind::Calloc)
            + kind_total(ps, MemoryPatternKind::Free) > 0,
    ensures
        ({
            let m = kind_total(ps, MemoryPatternKind::Malloc) + kind_total(ps, MemoryPatternKind::Calloc);
            let f = kind_total(ps, MemoryPatternKind::Free);
            let line = "C-style: "@ + decimal(m) + " malloc/calloc, "@ + decimal(f) + " free"@;
            let warning = "\n  WARNING: malloc/free count mismatch (potential leak)"@;
            let sum = summary_spec(ps);
            &&& line.len() <= sum.len()
            &&& sum.take(line.len() as int) == line
            &&& m != f ==> line.len() + warning.len() <= sum.len() && sum.subrange(
                line.len() as int,
                (line.len() + warning.len()) as int,
            ) == warning
            &&& m == f ==> sum.len() == line.len() || (line.len() + 2 <= sum.len() && sum[line.len() as int] == '\n'
                && (sum[line.len() + 1int] == 'C' || sum[line.len() + 1int] == 'S'))
        }),
{
    lemma_alloc_free_totals(ps);
    let m = kind_total(ps, MemoryPatternKind::Malloc) + kind_total(ps, MemoryPatternKind::Calloc);
    let f = kind_total(ps, MemoryPatternKind::Free);
    let line = "C-style: "@ + decimal(m) + " malloc/calloc, "@ + decimal(f) + " free"@;
    let w = "  WARNING: malloc/free count mismatch (potential leak)"@;
    let warning = "\n  WARNING: malloc/free count mismatch (potential leak)"@;
    let n = count_kinds(ps, |k| is_new(k));
    let d = count_kinds(ps, |k| is_delete(k));
    let sm = count_kinds(ps, |k| is_smart(k));
    let lines = summary_lines(m, f, n, d, sm);
    let cpp_part = if n > 0 || d > 0 {
        let l = "C++-style: "@ + decimal(n) + " new, "@ + decimal(d) + " delete"@;
        if n != d {
            seq![l, "  WARNING: new/delete count mismatch (potential leak)"@]
        } else {
            seq![l]
        }
    } else {
        Seq::empty()
    };
    let smart_part = if sm > 0 {
        seq!["Smart pointers: "@ + decimal(sm) + " usages"@]
    } else {
        Seq::empty()
    };
    let rest = cpp_part + smart_part;
    let sep = "\n"@;
    let sum = summary_spec(ps);
    assert(sum == join_spec(lines, sep));
    if m != f {
        assert(lines =~= seq![line] + (seq![w] + rest));
        lemma_join_cons(line, seq![w] + rest, sep);
        lemma_join_cons(w, rest, sep);
        reveal_strlit("\n  WARNING: malloc/free count mismatch (potential leak)");
        reveal_strlit("  WARNING: malloc/free count mismatch (potential leak)");
        reveal_strlit("\n");
        assert(warning =~= sep + w);
        let j = join_spec(seq![w] + rest, sep);
        assert(j.take(w.len() as int) =~= w);
        assert(sum =~= line + sep + j);
        assert(sum.take(line.len() as int) =~= line);
        assert(sum.subrange(line.len() as int, (line.len() + warning.len()) as int) =~= warning);
    } else {
        assert(lines =~= seq![line] + rest);
        lemma_join_cons(line, rest, sep);
        if rest.len() == 0 {
            assert(sum == line);
            assert(sum.take(line.len() as int) =~= line);
        } else {
            let j = join_spec(rest, sep);
            lemma_join_cons(rest[0], rest.drop_first(), sep);
            assert(rest =~= seq![rest[0]] + rest.drop_first());
            reveal_strlit("\n");
            reveal_strlit("C++-style: ");
            reveal_strlit("Smart pointers: ");
            assert(rest[0][0] == 'C' || rest[0][0] == 'S');
            assert(rest[0].len() > 0);
            assert(j[0] == rest[0][0]);
            assert(sum =~= line + sep + j);
            assert(sum.take(line.len() as int) =~= line);
            assert(sum[line.len() as int] == '\n');
            assert(sum[line.len() + 1int] == j[0]);
        }
    }
}

proof fn lemma_new_delete_totals(ps: Seq<(MemoryPatternKind, Seq<char>, int)>)
    ensures
        count_kinds(ps, |k| is_new(k)) == kind_total(ps, MemoryPatternKind::New) + kind_total(
            ps,
            MemoryPatternKind::NewArray,
        ),
        count_kinds(ps, |k| is_delete(k)) == kind_total(ps, MemoryPatternKind::Delete) + kind_total(
            ps,
            MemoryPatternKind::DeleteArray,
        ),
        ps.len() == 0 ==> kind_total(ps, MemoryPatternKind::New) + kind_total(
            ps,
            MemoryPatternKind::NewArray,
        ) + kind_total(ps, MemoryPatternKind::Delete) + kind_total(ps, MemoryPatternKind::DeleteArray)
            == 0,
    decreases ps.len(),
{
    if ps.len() > 0 {
        lemma_new_delete_totals(ps.drop_last());
    }
}

/// The C++-style line of a memory summary counts `new` and `new[]` as allocations and `delete`
/// and `delete[]` as releases: the summary holds the line
/// `C++-style: <allocations> new, <releases> delete`, followed by the mismatch warning on the
/// next line when the two counts differ.
pub proof fn law_summary_counts_cpp_allocations(ps: Seq<(MemoryPatternKind, Seq<char>, int)>)
    requires
        kind_total(ps, MemoryPatternKind::New) + kind_total(ps, MemoryPatternKind::NewArray)
            + kind_total(ps, MemoryPatternKind::Delete) + kind_total(ps, MemoryPatternKind::DeleteArray)
            > 0,
    ensures
        ({
            let n = kind_total(ps, MemoryPatternKind::New) + kind_total(ps, MemoryPatternKind::NewArray);
            let d = kind_total(ps, MemoryPatternKind::Delete) + kind_total(
                ps,
                MemoryPatternKind::DeleteArray,
            );
            let line = "C++-style: "@ + decimal(n) + " new, "@ + decimal(d) + " delete"@;
            let warning = "\n  WARNING: new/delete count mismatch (potential leak)"@;
            &&& holds_text(summary_spec(ps), line)
            &&& n != d ==> holds_text(summary_spec(ps), line + warning)
        }),
{
    lemma_new_delete_totals(ps);
    let n = kind_total(ps, MemoryPatternKind::New) + kind_total(ps, MemoryPatternKind::NewArray);
    let d = kind_total(ps, MemoryPatternKind::Delete) + kind_total(ps, MemoryPatternKind::DeleteArray);
    let line = "C++-style: "@ + decimal(n) + " new, "@ + decimal(d) + " delete"@;
    let w = "  WARNING: new/delete count mismatch (potential leak)"@;
    let warning = "\n  WARNING: new/delete count mismatch (potential leak)"@;
    let sep = "\n"@;
    let m = count_kinds(ps, |k| is_c_alloc(k));
    let f = count_kinds(ps, |k| is_free(k));
    let sm = count_kinds(ps, |k| is_smart(k));
    let c_part = if m > 0 || f > 0 {
        let l = "C-style: "@ + decimal(m) + " malloc/calloc, "@ + decimal(f) + " free"@;
        if m != f {
            seq![l, "  WARNING: malloc/free count mismatch (potential leak)"@]
        } else {
            seq![l]
        }
    } else {
        Seq::empty()
    };
    let smart_part = if sm > 0 {
        seq!["Smart pointers: "@ + decimal(sm) + " usages"@]
    } else {
        Seq::empty()
    };
    let after = if n != d {
        seq![w] + smart_part
    } else {
        smart_part
    };
    let tail = seq![line] + after;
    let lines = summary_lines(m, f, n, d, sm);
    assert(lines =~= c_part + tail);
    let sum = summary_spec(ps);
    assert(sum == join_spec(lines, sep));
    lemma_join_cons(line, after, sep);
    let jt = join_spec(tail, sep);
    reveal_strlit("\n  WARNING: new/delete count mismatch (potential leak)");
    reveal_strlit("  WARNING: new/delete count mismatch (potential leak)");
    reveal_strlit("\n");
    assert(warning =~= sep + w);
    assert(jt.take(line.len() as int) =~= line);
    if n != d {
        lemma_join_cons(w, smart_part, sep);
        assert(after =~= seq![w] + smart_part);
        let ja = join_spec(after, sep);
        assert(ja.take(w.len() as int) =~= w);
        assert(jt =~= line + sep + ja);
        assert(jt.take((line + warning).len() as int) =~= line + warning);
    }
    let k: int = if c_part.len() == 0 {
        assert(lines =~= tail);
        0
    } else {
        lemma_join_append(c_part, tail, sep);
        join_spec(c_part, sep).len() + 1int
    };
    assert(sum =~= sum.take(k) + jt);
    assert(sum.subrange(k, k + line.len()) =~= line);
    assert(holds_text(sum, line));
    if n != d {
        assert(sum.subrange(k, k + (line + warning).len()) =~= line + warning);
        assert(holds_text(sum, line + warning));
    }
}

} // verus!
