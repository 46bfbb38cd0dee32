//! Character-level text utilities with mathematical specifications.
//!
//! Every string is modelled by its view, the sequence of its `char`s.
use vstd::prelude::*;
use vstd::string::*;
use vstd::utf8::*;

verus! {

// ---------------------------------------------------------------------------
// Conversions between strings and character vectors
// ---------------------------------------------------------------------------

/// The characters of `s`, in order.
pub fn chars_of(s: &str) -> (v: Vec<char>)
    ensures
        v@ == s@,
{
    let n = s.unicode_len();
    let mut v: Vec<char> = Vec::new();
    let mut i: usize = 0;
    while i < n
        invariant
            n == s@.len(),
            i <= n,
            v@ == s@.subrange(0, i as int),
        decreases n - i,
    {
        v.push(s.get_char(i));
        i = i + 1;
    }
    v
}

/// Appends one character to `s` (std's `String::push`).
#[verifier::external_body]
pub(crate) fn push_char(s: &mut String, c: char)
    ensures
        final(s)@ == old(s)@.push(c),
{
    s.push(c);
}

/// Appends `t` to `s`.
pub fn push_str(s: &mut String, t: &str)
    ensures
        final(s)@ == old(s)@ + t@,
{
    s.append(t);
}

/// A new string holding the characters `cs`.
pub fn string_from(cs: &[char]) -> (s: String)
    ensures
        s@ == cs@,
{
    let mut s = String::new();
    let mut i: usize = 0;
    while i < cs.len()
        invariant
            i <= cs@.len(),
            s@ == cs@.subrange(0, i as int),
        decreases cs@.len() - i,
    {
        push_char(&mut s, cs[i]);
        i = i + 1;
    }
    s
}

/// Appends the characters `cs[from..to]` to `s`.
pub fn push_range(s: &mut String, cs: &[char], from: usize, to: usize)
    requires
        from <= to <= cs@.len(),
    ensures
        final(s)@ == old(s)@ + cs@.subrange(from as int, to as int),
{
    let mut i = from;
    while i < to
        invariant
            from <= i <= to <= cs@.len(),
            s@ == old(s)@ + cs@.subrange(from as int, i as int),
        decreases to - i,
    {
        push_char(s, cs[i]);
        i = i + 1;
        assert(cs@.subrange(from as int, i as int) =~= cs@.subrange(from as int, i - 1).push(
            cs@[i - 1],
        ));
    }
}

/// A copy of `s`.
pub fn copy_str(s: &str) -> (r: String)
    ensures
        r@ == s@,
{
    s.to_owned()
}

// ---------------------------------------------------------------------------
// Whitespace and trimming
// ---------------------------------------------------------------------------

/// The characters with the Unicode `White_Space` property (what `char::is_whitespace` tests).
pub open spec fn is_ws(c: char) -> bool {
    ||| c == '\t'
    ||| c == '\n'
    ||| c == '\x0B'
    ||| c == '\x0C'
    ||| c == '\r'
    ||| c == ' '
    ||| c == '\u{85}'
    ||| c == '\u{A0}'
    ||| c == '\u{1680}'
    ||| ('\u{2000}' <= c && c <= '\u{200A}')
    ||| c == '\u{2028}'
    ||| c == '\u{2029}'
    ||| c == '\u{202F}'
    ||| c == '\u{205F}'
    ||| c == '\u{3000}'
}

pub fn is_whitespace(c: char) -> (r: bool)
    ensures
        r == is_ws(c),
{
    c == '\t' || c == '\n' || c == '\x0B' || c == '\x0C' || c == '\r' || c == ' ' || c == '\u{85}'
        || c == '\u{A0}' || c == '\u{1680}' || ('\u{2000}' <= c && c <= '\u{200A}') || c
        == '\u{2028}' || c == '\u{2029}' || c == '\u{202F}' || c == '\u{205F}' || c == '\u{3000}'
}

/// `s` without its leading whitespace.
pub open spec fn trim_start_spec(s: Seq<char>) -> Seq<char>
    decreases s.len(),
{
    if s.len() > 0 && is_ws(s[0]) {
        trim_start_spec(s.drop_first())
    } else {
        s
    }
}

/// `s` without its trailing whitespace.
pub open spec fn trim_end_spec(s: Seq<char>) -> Seq<char>
    decreases s.len(),
{
    if s.len() > 0 && is_ws(s.last()) {
        trim_end_spec(s.drop_last())
    } else {
        s
    }
}

/// `s` without leading and trailing whitespace (what `str::trim` gives).
pub open spec fn trim_spec(s: Seq<char>) -> Seq<char> {
    trim_end_spec(trim_start_spec(s))
}

/// Index of the first non-whitespace character of `cs[from..to]`, or `to`.
fn skip_ws_forward(cs: &[char], from: usize, to: usize) -> (i: usize)
    requires
        from <= to <= cs@.len(),
    ensures
        from <= i <= to,
        trim_start_spec(cs@.subrange(from as int, to as int)) == cs@.subrange(i as int, to as int),
{
    let mut i = from;
    while i < to && is_whitespace(cs[i])
        invariant
            from <= i <= to <= cs@.len(),
            trim_start_spec(cs@.subrange(from as int, to as int)) == trim_start_spec(
                cs@.subrange(i as int, to as int),
            ),
        decreases to - i,
    {
        assert(cs@.subrange(i as int, to as int).drop_first() =~= cs@.subrange(i + 1, to as int));
        i = i + 1;
    }
    i
}

/// Index one past the last non-whitespace character of `cs[from..to]`, or `from`.
fn skip_ws_backward(cs: &[char], from: usize, to: usize) -> (j: usize)
    requires
        from <= to <= cs@.len(),
    ensures
        from <= j <= to,
        trim_end_spec(cs@.subrange(from as int, to as int)) == cs@.subrange(from as int, j as int),
{
    let mut j = to;
    while j > from && is_whitespace(cs[j - 1])
        invariant
            from <= j <= to <= cs@.len(),
            trim_end_spec(cs@.subrange(from as int, to as int)) == trim_end_spec(
                cs@.subrange(from as int, j as int),
            ),
        decreases j,
    {
        assert(cs@.subrange(from as int, j as int).drop_last() =~= cs@.subrange(
            from as int,
            j - 1,
        ));
        j = j - 1;
    }
    j
}

/// The bounds `(lo, hi)` of the trimmed part of `cs`.
pub fn trim_bounds(cs: &[char]) -> (r: (usize, usize))
    ensures
        r.0 <= r.1 <= cs@.len(),
        trim_spec(cs@) == cs@.subrange(r.0 as int, r.1 as int),
{
    let lo = skip_ws_forward(cs, 0, cs.len());
    assert(cs@.subrange(0, cs@.len() as int) =~= cs@);
    let hi = skip_ws_backward(cs, lo, cs.len());
    (lo, hi)
}

/// `str::trim`, as an owned string.
pub fn trim(s: &str) -> (r: String)
    ensures
        r@ == trim_spec(s@),
{
    let cs = chars_of(s);
    let (lo, hi) = trim_bounds(cs.as_slice());
    let mut r = String::new();
    push_range(&mut r, cs.as_slice(), lo, hi);
    r
}

// ---------------------------------------------------------------------------
// Prefixes, suffixes, substrings
// ---------------------------------------------------------------------------

/// Whether `p` occurs in `s` starting at index `i`.
pub open spec fn occurs_at(s: Seq<char>, p: Seq<char>, i: int) -> bool {
    0 <= i && i + p.len() <= s.len() && s.subrange(i, i + p.len()) == p
}

/// Whether `s` contains `p` as a contiguous substring.
pub open spec fn contains_spec(s: Seq<char>, p: Seq<char>) -> bool {
    exists|i: int| occurs_at(s, p, i)
}

/// Whether `s` starts with `p`.
pub open spec fn starts_with_spec(s: Seq<char>, p: Seq<char>) -> bool {
    occurs_at(s, p, 0)
}

/// Whether `s` ends with `p`.
pub open spec fn ends_with_spec(s: Seq<char>, p: Seq<char>) -> bool {
    p.len() <= s.len() && occurs_at(s, p, s.len() - p.len())
}

/// Whether `p` occurs in `cs` at index `i`.
pub fn occurs_at_exec(cs: &[char], p: &[char], i: usize) -> (r: bool)
    ensures
        r == occurs_at(cs@, p@, i as int),
{
    if i > cs.len() || p.len() > cs.len() - i {
        return false;
    }
    let mut k: usize = 0;
    while k < p.len()
        invariant
            i + p@.len() <= cs@.len(),
            cs@.len() == cs.len(),
            k <= p@.len(),
            forall|j: int| 0 <= j < k ==> cs@[i + j] == p@[j],
        decreases p@.len() - k,
    {
        if cs[i + k] != p[k] {
            assert(cs@.subrange(i as int, i + p@.len())[k as int] != p@[k as int]);
            return false;
        }
        k = k + 1;
    }
    assert(cs@.subrange(i as int, i + p@.len()) =~= p@);
    true
}

/// The first index at or after `from` where `p` occurs in `cs`.
pub fn find_from(cs: &[char], p: &[char], from: usize) -> (r: Option<usize>)
    ensures
        match r {
            Some(i) => from <= i && occurs_at(cs@, p@, i as int) && forall|j: int|
                from <= j < i ==> !occurs_at(cs@, p@, j),
            None => forall|j: int| from <= j ==> !occurs_at(cs@, p@, j),
        },
{
    if from > cs.len() {
        return None;
    }
    let mut i = from;
    while i < cs.len()
        invariant
            from <= i <= cs@.len(),
            forall|j: int| from <= j < i ==> !occurs_at(cs@, p@, j),
        decreases cs@.len() - i,
    {
        if occurs_at_exec(cs, p, i) {
            return Some(i);
        }
        i = i + 1;
    }
    if occurs_at_exec(cs, p, i) {
        return Some(i);
    }
    None
}

/// `str::contains` with a string pattern.
pub fn contains(s: &str, p: &str) -> (r: bool)
    ensures
        r == contains_spec(s@, p@),
{
    let cs = chars_of(s);
    let ps = chars_of(p);
    match find_from(cs.as_slice(), ps.as_slice(), 0) {
        Some(i) => true,
        None => false,
    }
}

/// `str::starts_with` with a string pattern.
pub fn starts_with(s: &str, p: &str) -> (r: bool)
    ensures
        r == starts_with_spec(s@, p@),
{
    let cs = chars_of(s);
    let ps = chars_of(p);
    occurs_at_exec(cs.as_slice(), ps.as_slice(), 0)
}

/// `str::ends_with` with a string pattern.
pub fn ends_with(s: &str, p: &str) -> (r: bool)
    ensures
        r == ends_with_spec(s@, p@),
{
    let cs = chars_of(s);
    let ps = chars_of(p);
    if ps.len() > cs.len() {
        false
    } else {
        occurs_at_exec(cs.as_slice(), ps.as_slice(), cs.len() - ps.len())
    }
}

/// Whether the character `c` occurs in `s`.
pub fn contains_char(s: &str, c: char) -> (r: bool)
    ensures
        r == s@.contains(c),
{
    let cs = chars_of(s);
    let mut i: usize = 0;
    while i < cs.len()
        invariant
            cs@ == s@,
            i <= cs@.len(),
            forall|j: int| 0 <= j < i ==> cs@[j] != c,
        decreases cs@.len() - i,
    {
        if cs[i] == c {
            return true;
        }
        i = i + 1;
    }
    false
}


// ---------------------------------------------------------------------------
// Splitting
// ---------------------------------------------------------------------------

/// The pieces of `s` between occurrences of `c` (what `str::split` with a `char` yields);
/// there is always at least one piece.
pub open spec fn split_spec(s: Seq<char>, c: char) -> Seq<Seq<char>>
    decreases s.len(),
{
    if s.len() == 0 {
        seq![Seq::<char>::empty()]
    } else {
        let prev = split_spec(s.drop_last(), c);
        if s.last() == c {
            prev.push(Seq::<char>::empty())
        } else {
            prev.update(prev.len() - 1, prev.last().push(s.last()))
        }
    }
}

pub proof fn lemma_split_nonempty(s: Seq<char>, c: char)
    ensures
        split_spec(s, c).len() >= 1,
    decreases s.len(),
{
    if s.len() > 0 {
        lemma_split_nonempty(s.drop_last(), c);
    }
}

/// The views of a vector of strings.
pub open spec fn views(v: Seq<String>) -> Seq<Seq<char>> {
    v.map_values(|x: String| x@)
}

/// `str::split` on a single character, collected into owned strings.
pub fn split_char(s: &str, c: char) -> (r: Vec<String>)
    ensures
        views(r@) == split_spec(s@, c),
{
    let cs = chars_of(s);
    let mut r: Vec<String> = Vec::new();
    let mut cur = String::new();
    let mut i: usize = 0;
    while i < cs.len()
        invariant
            cs@ == s@,
            i <= cs@.len(),
            views(r@).push(cur@) == split_spec(cs@.take(i as int), c),
        decreases cs@.len() - i,
    {
        let ghost prev = cs@.take(i as int);
        assert(cs@.take(i + 1).drop_last() =~= prev);
        proof {
            lemma_split_nonempty(prev, c);
        }
        if cs[i] == c {
            let done = cur;
            r.push(done);
            cur = String::new();
            assert(views(r@) =~= views(r@.drop_last()).push(done@));
            assert(views(r@).push(cur@) =~= split_spec(cs@.take(i + 1), c));
        } else {
            let ghost old_r = views(r@);
            let ghost old_cur = cur@;
            push_char(&mut cur, cs[i]);
            assert(views(r@).push(cur@) =~= old_r.push(old_cur).update(
                old_r.len() as int,
                old_cur.push(cs@[i as int]),
            ));
        }
        i = i + 1;
    }
    let last = cur;
    r.push(last);
    assert(cs@.take(cs@.len() as int) =~= cs@);
    assert(views(r@) =~= views(r@.drop_last()).push(last@));
    r
}

/// `x` without one trailing carriage return.
pub open spec fn strip_cr(x: Seq<char>) -> Seq<char> {
    if x.len() > 0 && x.last() == '\r' {
        x.drop_last()
    } else {
        x
    }
}

/// The lines of `s` (what `str::lines` yields): `s` is split at each `'\n'`, a `'\r'` just
/// before a `'\n'` is dropped, and an empty piece after the final `'\n'` is not a line.
pub open spec fn lines_spec(s: Seq<char>) -> Seq<Seq<char>> {
    let parts = split_spec(s, '\n');
    let n = if parts.last().len() == 0 {
        parts.len() - 1
    } else {
        parts.len() as int
    };
    Seq::new(
        n as nat,
        |i: int|
            if i < parts.len() - 1 {
                strip_cr(parts[i])
            } else {
                parts[i]
            },
    )
}

/// Removes one trailing `'\r'` from `x`.
pub fn strip_cr_exec(x: String) -> (r: String)
    ensures
        r@ == strip_cr(x@),
{
    let cs = chars_of(x.as_str());
    if cs.len() > 0 && cs[cs.len() - 1] == '\r' {
        let mut r = String::new();
        push_range(&mut r, cs.as_slice(), 0, cs.len() - 1);
        assert(cs@.subrange(0, cs@.len() - 1) =~= x@.drop_last());
        r
    } else {
        x
    }
}

/// `str::lines`, collected into owned strings.
pub fn lines(s: &str) -> (r: Vec<String>)
    ensures
        views(r@) == lines_spec(s@),
{
    let parts = split_char(s, '\n');
    proof {
        lemma_split_nonempty(s@, '\n');
    }
    let ghost pv = views(parts@);
    let n = if parts[parts.len() - 1].as_str().is_empty() {
        parts.len() - 1
    } else {
        parts.len()
    };
    let mut r: Vec<String> = Vec::new();
    let mut i: usize = 0;
    while i < n
        invariant
            pv == views(parts@),
            pv == split_spec(s@, '\n'),
            n <= parts@.len(),
            n == if pv.last().len() == 0 {
                pv.len() - 1
            } else {
                pv.len() as int
            },
            i <= n,
            views(r@) =~= lines_spec(s@).take(i as int),
        decreases n - i,
    {
        let piece = copy_str(parts[i].as_str());
        assert(piece@ == pv[i as int]);
        let ghost old_r = views(r@);
        if i + 1 < parts.len() {
            let stripped = strip_cr_exec(piece);
            r.push(stripped);
            assert(views(r@) =~= old_r.push(stripped@));
        } else {
            r.push(piece);
            assert(views(r@) =~= old_r.push(piece@));
        }
        assert(lines_spec(s@).take(i + 1) =~= lines_spec(s@).take(i as int).push(
            lines_spec(s@)[i as int],
        ));
        i = i + 1;
    }
    r
}

/// The state of splitting at whitespace: the finished words and the word being read.
pub open spec fn words_state(s: Seq<char>) -> (Seq<Seq<char>>, Seq<char>)
    decreases s.len(),
{
    if s.len() == 0 {
        (Seq::<Seq<char>>::empty(), Seq::<char>::empty())
    } else {
        let (ws, cur) = words_state(s.drop_last());
        let c = s.last();
        if is_ws(c) {
            if cur.len() > 0 {
                (ws.push(cur), Seq::<char>::empty())
            } else {
                (ws, cur)
            }
        } else {
            (ws, cur.push(c))
        }
    }
}

/// The maximal runs of non-whitespace characters of `s` (what `str::split_whitespace` yields).
pub open spec fn split_whitespace_spec(s: Seq<char>) -> Seq<Seq<char>> {
    let (ws, cur) = words_state(s);
    if cur.len() > 0 {
        ws.push(cur)
    } else {
        ws
    }
}

/// `str::split_whitespace`, collected into owned strings.
pub fn split_whitespace(s: &str) -> (r: Vec<String>)
    ensures
        views(r@) == split_whitespace_spec(s@),
{
    let cs = chars_of(s);
    let mut r: Vec<String> = Vec::new();
    let mut cur = String::new();
    let mut i: usize = 0;
    while i < cs.len()
        invariant
            cs@ == s@,
            i <= cs@.len(),
            (views(r@), cur@) == words_state(cs@.take(i as int)),
        decreases cs@.len() - i,
    {
        assert(cs@.take(i + 1).drop_last() =~= cs@.take(i as int));
        if is_whitespace(cs[i]) {
            if !cur.as_str().is_empty() {
                let done = cur;
                r.push(done);
                cur = String::new();
                assert(views(r@) =~= views(r@.drop_last()).push(done@));
            }
        } else {
            push_char(&mut cur, cs[i]);
        }
        i = i + 1;
    }
    assert(cs@.take(cs@.len() as int) =~= cs@);
    if !cur.as_str().is_empty() {
        let last = cur;
        r.push(last);
        assert(views(r@) =~= views(r@.drop_last()).push(last@));
    }
    r
}

// ---------------------------------------------------------------------------
// Joining and replacing
// ---------------------------------------------------------------------------

/// The pieces of `l` with `sep` between consecutive ones (what `[String]::join` gives).
pub open spec fn join_spec(l: Seq<Seq<char>>, sep: Seq<char>) -> Seq<char>
    decreases l.len(),
{
    if l.len() == 0 {
        Seq::<char>::empty()
    } else if l.len() == 1 {
        l[0]
    } else {
        join_spec(l.drop_last(), sep) + sep + l.last()
    }
}

/// Whether `t` occurs in `d` as a run of consecutive characters.
pub open spec fn holds_text(d: Seq<char>, t: Seq<char>) -> bool {
    exists|k: int| 0 <= k && k + t.len() <= d.len() && #[trigger] d.subrange(k, k + t.len()) == t
}

/// Joining two nonempty lists one after the other: the join of the first, the separator, and
/// the join of the second.
pub proof fn lemma_join_append(a: Seq<Seq<char>>, b: Seq<Seq<char>>, sep: Seq<char>)
    requires
        a.len() > 0,
        b.len() > 0,
    ensures
        join_spec(a + b, sep) == join_spec(a, sep) + sep + join_spec(b, sep),
    decreases b.len(),
{
    let l = a + b;
    assert(l.last() == b.last());
    assert(join_spec(l, sep) == join_spec(l.drop_last(), sep) + sep + l.last());
    if b.len() == 1 {
        assert(l.drop_last() =~= a);
        assert(join_spec(b, sep) == b[0]);
    } else {
        assert(l.drop_last() =~= a + b.drop_last());
        lemma_join_append(a, b.drop_last(), sep);
        assert(join_spec(b, sep) == join_spec(b.drop_last(), sep) + sep + b.last());
        assert(join_spec(a, sep) + sep + join_spec(b, sep) =~= join_spec(a, sep) + sep + join_spec(
            b.drop_last(),
            sep,
        ) + sep + b.last());
    }
}

/// Joining a list that starts with `x`: `x`, then the separator and the join of the rest
/// when there is a rest.
pub proof fn lemma_join_cons(x: Seq<char>, rest: Seq<Seq<char>>, sep: Seq<char>)
    ensures
        join_spec(seq![x] + rest, sep) == if rest.len() == 0 {
            x
        } else {
            x + sep + join_spec(rest, sep)
        },
    decreases rest.len(),
{
    let l = seq![x] + rest;
    if rest.len() == 0 {
        assert(l =~= seq![x]);
        assert(join_spec(l, sep) == l[0]);
    } else if rest.len() == 1 {
        assert(l.len() == 2);
        assert(l.drop_last() =~= seq![x]);
        assert(l.last() == rest[0]);
        assert(join_spec(l.drop_last(), sep) == x);
        assert(join_spec(rest, sep) == rest[0]);
        assert(join_spec(l, sep) == join_spec(l.drop_last(), sep) + sep + l.last());
    } else {
        assert(l.drop_last() =~= seq![x] + rest.drop_last());
        assert(l.last() == rest.last());
        lemma_join_cons(x, rest.drop_last(), sep);
        assert(join_spec(l, sep) == join_spec(l.drop_last(), sep) + sep + l.last());
        assert(join_spec(rest, sep) == join_spec(rest.drop_last(), sep) + sep + rest.last());
        assert(x + sep + join_spec(rest, sep) =~= x + sep + join_spec(rest.drop_last(), sep) + sep
            + rest.last());
    }
}

/// `[String]::join`.
pub fn join(l: &Vec<String>, sep: &str) -> (r: String)
    ensures
        r@ == join_spec(views(l@), sep@),
{
    let mut r = String::new();
    let mut i: usize = 0;
    while i < l.len()
        invariant
            i <= l@.len(),
            r@ == join_spec(views(l@).take(i as int), sep@),
        decreases l@.len() - i,
    {
        assert(views(l@).take(i + 1).drop_last() =~= views(l@).take(i as int));
        if i > 0 {
            push_str(&mut r, sep);
        }
        push_str(&mut r, l[i].as_str());
        i = i + 1;
    }
    assert(views(l@).take(l@.len() as int) =~= views(l@));
    r
}

/// `s` with every non-overlapping occurrence of `from`, scanning left to right, replaced by `to`
/// (what `str::replace` gives for a non-empty pattern).
pub open spec fn replace_spec(s: Seq<char>, from: Seq<char>, to: Seq<char>) -> Seq<char>
    decreases s.len(),
{
    if from.len() == 0 || s.len() == 0 {
        s
    } else if starts_with_spec(s, from) {
        to + replace_spec(s.skip(from.len() as int), from, to)
    } else {
        seq![s[0]] + replace_spec(s.drop_first(), from, to)
    }
}

/// `str::replace` for a non-empty pattern.
pub fn replace(s: &str, from: &str, to: &str) -> (r: String)
    requires
        from@.len() > 0,
    ensures
        r@ == replace_spec(s@, from@, to@),
{
    let cs = chars_of(s);
    let fs = chars_of(from);
    let mut r = String::new();
    let mut i: usize = 0;
    assert(cs@.skip(0) =~= cs@);
    assert(r@ + replace_spec(cs@, fs@, to@) =~= replace_spec(cs@, fs@, to@));
    while i < cs.len()
        invariant
            cs@ == s@,
            fs@ == from@,
            fs@.len() > 0,
            i <= cs@.len(),
            r@ + replace_spec(cs@.skip(i as int), fs@, to@) == replace_spec(cs@, fs@, to@),
        decreases cs@.len() - i,
    {
        let ghost rest = cs@.skip(i as int);
        if occurs_at_exec(cs.as_slice(), fs.as_slice(), i) {
            assert(rest.subrange(0, fs@.len() as int) =~= cs@.subrange(i as int, i + fs@.len()));
            assert(rest.skip(fs@.len() as int) =~= cs@.skip(i + fs@.len()));
            push_str(&mut r, to);
            assert(r@ + replace_spec(cs@.skip(i + fs@.len()), fs@, to@) =~= replace_spec(
                cs@,
                fs@,
                to@,
            ));
            i = i + fs.len();
        } else {
            assert(!starts_with_spec(rest, fs@)) by {
                if starts_with_spec(rest, fs@) {
                    assert(rest.subrange(0, fs@.len() as int) =~= cs@.subrange(
                        i as int,
                        i + fs@.len(),
                    ));
                }
            }
            assert(rest.drop_first() =~= cs@.skip(i + 1));
            let ghost old_r = r@;
            push_char(&mut r, cs[i]);
            assert(r@ + replace_spec(cs@.skip(i + 1), fs@, to@) =~= old_r + (seq![rest[0]]
                + replace_spec(rest.drop_first(), fs@, to@)));
            i = i + 1;
        }
    }
    assert(cs@.skip(cs@.len() as int) =~= Seq::<char>::empty());
    assert(r@ + Seq::<char>::empty() =~= r@);
    r
}

// ---------------------------------------------------------------------------
// Decimal numbers
// ---------------------------------------------------------------------------

/// The ASCII digit for `d < 10`.
pub open spec fn digit_char(d: nat) -> char {
    if d == 0 {
        '0'
    } else if d == 1 {
        '1'
    } else if d == 2 {
        '2'
    } else if d == 3 {
        '3'
    } else if d == 4 {
        '4'
    } else if d == 5 {
        '5'
    } else if d == 6 {
        '6'
    } else if d == 7 {
        '7'
    } else if d == 8 {
        '8'
    } else {
        '9'
    }
}

/// The decimal representation of `n`, without leading zeros (what `{}` prints for an integer).
pub open spec fn decimal(n: nat) -> Seq<char>
    decreases n,
{
    if n < 10 {
        seq![digit_char(n)]
    } else {
        decimal(n / 10).push(digit_char(n % 10))
    }
}

fn digit_exec(d: usize) -> (c: char)
    requires
        d < 10,
    ensures
        c == digit_char(d as nat),
{
    if d == 0 {
        '0'
    } else if d == 1 {
        '1'
    } else if d == 2 {
        '2'
    } else if d == 3 {
        '3'
    } else if d == 4 {
        '4'
    } else if d == 5 {
        '5'
    } else if d == 6 {
        '6'
    } else if d == 7 {
        '7'
    } else if d == 8 {
        '8'
    } else {
        '9'
    }
}

/// Appends the decimal representation of `n` to `s`.
pub fn push_decimal(s: &mut String, n: usize)
    ensures
        final(s)@ == old(s)@ + decimal(n as nat),
    decreases n,
{
    if n >= 10 {
        push_decimal(s, n / 10);
    }
    push_char(s, digit_exec(n % 10));
    assert(n < 10 ==> decimal(n as nat) =~= seq![digit_char(n as nat)]);
}

/// The decimal representation of `n`.
pub fn decimal_string(n: usize) -> (s: String)
    ensures
        s@ == decimal(n as nat),
{
    let mut s = String::new();
    push_decimal(&mut s, n);
    assert(Seq::<char>::empty() + decimal(n as nat) =~= decimal(n as nat));
    s
}


/// Whether `a` and `b` hold the same characters.
pub fn str_eq(a: &str, b: &str) -> (r: bool)
    ensures
        r == (a@ == b@),
{
    let x = chars_of(a);
    let y = chars_of(b);
    if x.len() != y.len() {
        return false;
    }
    let mut i: usize = 0;
    while i < x.len()
        invariant
            x@ == a@,
            y@ == b@,
            x@.len() == y@.len(),
            i <= x@.len(),
            forall|j: int| 0 <= j < i ==> x@[j] == y@[j],
        decreases x@.len() - i,
    {
        if x[i] != y[i] {
            return false;
        }
        i = i + 1;
    }
    assert(x@ =~= y@);
    true
}


// ---------------------------------------------------------------------------
// Case
// ---------------------------------------------------------------------------

/// Whether `c` has the Unicode `Uppercase` property (what `char::is_uppercase` tests).
pub uninterp spec fn char_is_upper(c: char) -> bool;

/// Whether `c` has the Unicode `Lowercase` property (what `char::is_lowercase` tests).
pub uninterp spec fn char_is_lower(c: char) -> bool;

/// The first character of the lowercase mapping of `c` (what `char::to_lowercase` yields first).
pub uninterp spec fn char_lower_first(c: char) -> char;

/// The lowercase mapping of `s` (what `str::to_lowercase` gives).
pub uninterp spec fn str_lower(s: Seq<char>) -> Seq<char>;

/// The ASCII lowercase of `c` (other characters unchanged).
pub open spec fn ascii_lower(c: char) -> char {
    if 'A' <= c <= 'Z' {
        ((c as u32) + 32) as char
    } else {
        c
    }
}

/// `char::is_uppercase`. Names the result; for ASCII characters, as documented, exactly `A`-`Z`
/// are uppercase.
#[verifier::external_body]
pub(crate) fn is_uppercase(c: char) -> (r: bool)
    ensures
        r == char_is_upper(c),
        c <= '\x7F' ==> (r <==> 'A' <= c <= 'Z'),
{
    c.is_uppercase()
}

/// `char::is_lowercase`. Names the result; for ASCII characters, as documented, exactly `a`-`z`
/// are lowercase.
#[verifier::external_body]
pub(crate) fn is_lowercase(c: char) -> (r: bool)
    ensures
        r == char_is_lower(c),
        c <= '\x7F' ==> (r <==> 'a' <= c <= 'z'),
{
    c.is_lowercase()
}

/// The first character that `char::to_lowercase` yields. Names the result; for ASCII characters
/// it is the ASCII lowercase.
#[verifier::external_body]
pub(crate) fn lower_first(c: char) -> (r: char)
    ensures
        r == char_lower_first(c),
        c <= '\x7F' ==> r == ascii_lower(c),
{
    c.to_lowercase().next().unwrap_or(c)
}

/// `str::to_lowercase`. Names the result; for an all-ASCII string it is the ASCII lowercase of
/// each character.
#[verifier::external_body]
pub(crate) fn to_lowercase(s: &str) -> (r: String)
    ensures
        r@ == str_lower(s@),
        (forall|i: int| 0 <= i < s@.len() ==> s@[i] <= '\x7F') ==> r@ == s@.map_values(
            |c: char| ascii_lower(c),
        ),
{
    s.to_lowercase()
}

// ---------------------------------------------------------------------------
// Stripping and cutting
// ---------------------------------------------------------------------------

/// `s` without all its leading copies of `c` (what `str::trim_start_matches` gives for a char).
pub open spec fn trim_start_char(s: Seq<char>, c: char) -> Seq<char>
    decreases s.len(),
{
    if s.len() > 0 && s[0] == c {
        trim_start_char(s.drop_first(), c)
    } else {
        s
    }
}

/// `s` without all its trailing copies of `c` (what `str::trim_end_matches` gives for a char).
pub open spec fn trim_end_char(s: Seq<char>, c: char) -> Seq<char>
    decreases s.len(),
{
    if s.len() > 0 && s.last() == c {
        trim_end_char(s.drop_last(), c)
    } else {
        s
    }
}

/// `str::trim_start_matches` with a character pattern.
pub fn trim_start_matches(s: &str, c: char) -> (r: String)
    ensures
        r@ == trim_start_char(s@, c),
{
    let cs = chars_of(s);
    let mut i: usize = 0;
    assert(cs@.subrange(0, cs@.len() as int) =~= cs@);
    while i < cs.len() && cs[i] == c
        invariant
            cs@ == s@,
            i <= cs@.len(),
            trim_start_char(s@, c) == trim_start_char(cs@.subrange(i as int, cs@.len() as int), c),
        decreases cs@.len() - i,
    {
        assert(cs@.subrange(i as int, cs@.len() as int).drop_first() =~= cs@.subrange(
            i + 1,
            cs@.len() as int,
        ));
        i = i + 1;
    }
    let mut r = String::new();
    push_range(&mut r, cs.as_slice(), i, cs.len());
    r
}

/// `str::trim_end_matches` with a character pattern.
pub fn trim_end_matches(s: &str, c: char) -> (r: String)
    ensures
        r@ == trim_end_char(s@, c),
{
    let cs = chars_of(s);
    let mut j: usize = cs.len();
    assert(cs@.subrange(0, cs@.len() as int) =~= cs@);
    while j > 0 && cs[j - 1] == c
        invariant
            cs@ == s@,
            j <= cs@.len(),
            trim_end_char(s@, c) == trim_end_char(cs@.subrange(0, j as int), c),
        decreases j,
    {
        assert(cs@.subrange(0, j as int).drop_last() =~= cs@.subrange(0, j - 1));
        j = j - 1;
    }
    let mut r = String::new();
    push_range(&mut r, cs.as_slice(), 0, j);
    r
}

/// The first index at which `p` occurs in `s`, if any.
pub open spec fn find_spec(s: Seq<char>, p: Seq<char>) -> Option<int> {
    if exists|i: int| occurs_at(s, p, i) {
        Some(choose|i: int| occurs_at(s, p, i) && forall|j: int| 0 <= j < i ==> !occurs_at(s, p, j))
    } else {
        None
    }
}

proof fn lemma_find_spec(s: Seq<char>, p: Seq<char>, i: int)
    requires
        occurs_at(s, p, i),
        forall|j: int| 0 <= j < i ==> !occurs_at(s, p, j),
    ensures
        find_spec(s, p) == Some(i),
{
    assert(exists|i: int| occurs_at(s, p, i));
    let k = choose|k: int| occurs_at(s, p, k) && forall|j: int| 0 <= j < k ==> !occurs_at(s, p, j);
    assert(occurs_at(s, p, k) && forall|j: int| 0 <= j < k ==> !occurs_at(s, p, j)) by {
        assert(occurs_at(s, p, i) && forall|j: int| 0 <= j < i ==> !occurs_at(s, p, j));
    }
    if k < i {
        assert(!occurs_at(s, p, k));
    }
    if i < k {
        assert(!occurs_at(s, p, i));
    }
}

/// `str::find` with a string pattern: the character index of the first occurrence.
pub fn find(s: &str, p: &str) -> (r: Option<usize>)
    ensures
        match r {
            Some(i) => find_spec(s@, p@) == Some(i as int) && occurs_at(s@, p@, i as int),
            None => find_spec(s@, p@) is None,
        },
{
    let cs = chars_of(s);
    let ps = chars_of(p);
    let r = find_from(cs.as_slice(), ps.as_slice(), 0);
    match r {
        Some(i) => {
            proof {
                lemma_find_spec(s@, p@, i as int);
            }
            Some(i)
        },
        None => {
            assert(!exists|i: int| occurs_at(s@, p@, i)) by {
                if exists|i: int| occurs_at(s@, p@, i) {
                    let i = choose|i: int| occurs_at(s@, p@, i);
                    assert(i >= 0);
                }
            }
            None
        },
    }
}

/// The part of `s` before the first occurrence of `p` (all of `s` when `p` does not occur);
/// what the first item of `str::split` with a string pattern is.
pub open spec fn before_first(s: Seq<char>, p: Seq<char>) -> Seq<char> {
    match find_spec(s, p) {
        Some(i) => s.take(i),
        None => s,
    }
}

/// The part of `s` before the first occurrence of `p`.
pub fn before_first_exec(s: &str, p: &str) -> (r: String)
    ensures
        r@ == before_first(s@, p@),
{
    let cs = chars_of(s);
    match find(s, p) {
        Some(i) => {
            let mut r = String::new();
            push_range(&mut r, cs.as_slice(), 0, i);
            assert(cs@.subrange(0, i as int) =~= s@.take(i as int));
            r
        },
        None => copy_str(s),
    }
}


// ---------------------------------------------------------------------------
// Byte offsets
// ---------------------------------------------------------------------------

/// A byte offset at which a non-continuation byte stands is a character boundary.
pub proof fn lemma_boundary_at(s: &str, i: int)
    requires
        0 <= i < s.spec_bytes().len(),
        !is_continuation_byte(s.spec_bytes()[i]),
    ensures
        is_char_boundary(s.spec_bytes(), i),
{
    encode_utf8_valid_utf8(s@);
    is_char_boundary_iff_not_is_continuation_byte(s.spec_bytes(), i);
}

/// `str::split_at` at a byte offset that is a character boundary; each half is the decoding of
/// its bytes.
pub fn split_at_byte(s: &str, mid: usize) -> (r: (&str, &str))
    requires
        is_char_boundary(s.spec_bytes(), mid as int),
    ensures
        r.0@ == decode_utf8(s.spec_bytes().subrange(0, mid as int)),
        r.1@ == decode_utf8(s.spec_bytes().subrange(mid as int, s.spec_bytes().len() as int)),
        r.0.spec_bytes() == s.spec_bytes().subrange(0, mid as int),
        r.1.spec_bytes() == s.spec_bytes().subrange(mid as int, s.spec_bytes().len() as int),
{
    let r = s.split_at(mid);
    proof {
        encode_utf8_decode_utf8(r.0@);
        encode_utf8_decode_utf8(r.1@);
    }
    r
}


/// The text from a byte offset at which an ASCII byte stands starts with that character.
pub proof fn lemma_suffix_starts_ascii(s: &str, pos: int)
    requires
        0 <= pos < s.spec_bytes().len(),
        s.spec_bytes()[pos] < 0x80,
    ensures
        decode_utf8(s.spec_bytes().subrange(pos, s.spec_bytes().len() as int)).len() > 0,
        decode_utf8(s.spec_bytes().subrange(pos, s.spec_bytes().len() as int))[0] == (
        s.spec_bytes()[pos] as char),
{
    let b = s.spec_bytes();
    lemma_boundary_at(s, pos);
    encode_utf8_valid_utf8(s@);
    valid_utf8_split(b, pos);
    let sb = b.subrange(pos, b.len() as int);
    assert(valid_utf8(sb));
    assert(sb[0] == b[pos]);
    let x = b[pos];
    assert((x & 0x7F) == x) by (bit_vector)
        requires
            x < 0x80,
    ;
    assert(decode_first_scalar(sb) == x as u32);
    assert(decode_utf8(sb) == seq![decode_first_scalar(sb) as char] + decode_utf8(
        pop_first_scalar(sb),
    ));
}


/// The plain value of an optional string.
pub open spec fn opt_view(o: Option<String>) -> Option<Seq<char>> {
    match o {
        Some(s) => Some(s@),
        None => None,
    }
}


// ---------------------------------------------------------------------------
// Parsing unsigned integers
// ---------------------------------------------------------------------------

/// Whether `c` is an ASCII decimal digit.
pub open spec fn is_ascii_digit(c: char) -> bool {
    '0' <= c && c <= '9'
}

/// The value of a sequence of ASCII decimal digits.
pub open spec fn digits_value(d: Seq<char>) -> nat
    decreases d.len(),
{
    if d.len() == 0 {
        0
    } else {
        digits_value(d.drop_last()) * 10 + ((d.last() as nat) - ('0' as nat)) as nat
    }
}

/// Whether every character of `d` is an ASCII decimal digit.
pub open spec fn all_digits(d: Seq<char>) -> bool {
    forall|i: int| 0 <= i < d.len() ==> is_ascii_digit(#[trigger] d[i])
}

/// `s` without one leading `+`, if it has one.
pub open spec fn without_plus(s: Seq<char>) -> Seq<char> {
    if s.len() > 0 && s[0] == '+' {
        s.drop_first()
    } else {
        s
    }
}

/// What `str::parse::<usize>` gives: an optional `+`, then one or more ASCII digits whose value
/// fits in a `usize`; anything else is refused.
pub open spec fn parse_usize_spec(s: Seq<char>) -> Option<nat> {
    let d = without_plus(s);
    if d.len() > 0 && all_digits(d) && digits_value(d) <= usize::MAX {
        Some(digits_value(d))
    } else {
        None
    }
}

proof fn lemma_digits_value_monotone(d: Seq<char>, j: int)
    requires
        0 <= j <= d.len(),
        forall|i: int| 0 <= i < d.len() ==> is_ascii_digit(#[trigger] d[i]),
    ensures
        digits_value(d.take(j)) <= digits_value(d),
    decreases d.len() - j,
{
    if j < d.len() {
        lemma_digits_value_monotone(d, j + 1);
        assert(d.take(j + 1).drop_last() =~= d.take(j));
    } else {
        assert(d.take(j) =~= d);
    }
}

/// `str::parse::<usize>` (see `parse_usize_spec`).
pub fn parse_usize(s: &str) -> (r: Option<usize>)
    ensures
        match r {
            Some(v) => parse_usize_spec(s@) == Some(v as nat),
            None => parse_usize_spec(s@) is None,
        },
{
    let cs = chars_of(s);
    let start: usize = if cs.len() > 0 && cs[0] == '+' {
        1
    } else {
        0
    };
    let ghost d = cs@.subrange(start as int, cs@.len() as int);
    assert(d =~= without_plus(s@));
    if start >= cs.len() {
        return None;
    }
    let mut v: usize = 0;
    let mut i: usize = start;
    while i < cs.len()
        invariant
            start <= i <= cs@.len(),
            cs@ == s@,
            d == cs@.subrange(start as int, cs@.len() as int),
            d == without_plus(s@),
            forall|j: int| 0 <= j < i - start ==> is_ascii_digit(#[trigger] d[j]),
            v == digits_value(d.take(i - start)),
        decreases cs@.len() - i,
    {
        let c = cs[i];
        assert(c == d[i - start]);
        if !('0' <= c && c <= '9') {
            assert(!is_ascii_digit(d[i - start]));
            return None;
        }
        assert(d.take(i - start + 1).drop_last() =~= d.take(i - start));
        let digit = (c as u32 - '0' as u32) as usize;
        let ghost k = i - start;
        assert(digits_value(d.take(k + 1)) == v * 10 + digit);
        let next = match v.checked_mul(10) {
            Some(t) => t.checked_add(digit),
            None => None,
        };
        match next {
            Some(u) => {
                v = u;
            },
            None => {
                assert(v * 10 + digit > usize::MAX);
                proof {
                    if all_digits(d) {
                        lemma_digits_value_monotone(d, k + 1);
                    }
                }
                return None;
            },
        }
        i = i + 1;
    }
    assert(d.take(d.len() as int) =~= d);
    Some(v)
}


/// The pieces of `s` between occurrences of `c`, each trimmed.
pub open spec fn split_trim_spec(s: Seq<char>, c: char) -> Seq<Seq<char>> {
    split_spec(s, c).map_values(|p: Seq<char>| trim_spec(p))
}

/// Splits `s` at each `c` and trims every piece.
pub fn split_trim(s: &str, c: char) -> (r: Vec<String>)
    ensures
        views(r@) == split_trim_spec(s@, c),
{
    let pieces = split_char(s, c);
    let mut out: Vec<String> = Vec::new();
    let mut k: usize = 0;
    while k < pieces.len()
        invariant
            k <= pieces@.len(),
            views(pieces@) == split_spec(s@, c),
            views(out@) == views(pieces@).take(k as int).map_values(|p: Seq<char>| trim_spec(p)),
        decreases pieces@.len() - k,
    {
        let t = trim(pieces[k].as_str());
        let ghost prev = views(out@);
        let ghost tv = t@;
        out.push(t);
        assert(views(out@) =~= prev.push(tv));
        assert(views(pieces@).take(k + 1) =~= views(pieces@).take(k as int).push(
            views(pieces@)[k as int],
        ));
        k = k + 1;
    }
    assert(views(pieces@).take(pieces@.len() as int) =~= views(pieces@));
    out
}


// ---------------------------------------------------------------------------
// Length bounds
// ---------------------------------------------------------------------------

proof fn lemma_split_shape(s: Seq<char>, c: char)
    ensures
        split_spec(s, c).len() >= 1,
        split_spec(s, c).len() + split_spec(s, c).last().len() <= s.len() + 1,
    decreases s.len(),
{
    if s.len() > 0 {
        lemma_split_shape(s.drop_last(), c);
    }
}

/// A text has no more lines than characters.
pub proof fn lemma_lines_len(s: Seq<char>)
    ensures
        lines_spec(s).len() <= s.len(),
{
    lemma_split_shape(s, '\n');
}

/// Every character takes at least one byte in UTF-8.
pub proof fn lemma_encode_len(s: Seq<char>)
    ensures
        s.len() <= encode_utf8(s).len(),
    decreases s.len(),
{
    if s.len() > 0 {
        lemma_encode_len(s.drop_first());
    }
}

} // verus!
