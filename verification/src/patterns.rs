//! Regular-expression matching, done by the `regex` crate, with its results as plain values.
use vstd::prelude::*;
use vstd::string::*;
use vstd::utf8::*;

verus! {

/// A participating capture group: byte offsets into the haystack and the matched text.
#[derive(Debug, Clone)]
pub struct Group {
    pub start: usize,
    pub end: usize,
    pub text: String,
}

/// One match: its capture groups in order, group 0 being the whole match.
#[derive(Debug, Clone)]
pub struct Match {
    pub groups: Vec<Option<Group>>,
}

/// The plain value of a capture group.
pub open spec fn group_view(g: Option<Group>) -> Option<(int, int, Seq<char>)> {
    match g {
        Some(g) => Some((g.start as int, g.end as int, g.text@)),
        None => None,
    }
}

/// The plain value of a match.
pub open spec fn match_view(m: Match) -> Seq<Option<(int, int, Seq<char>)>> {
    m.groups@.map_values(|g: Option<Group>| group_view(g))
}

/// The plain value of a list of matches.
pub open spec fn matches_view(ms: Seq<Match>) -> Seq<Seq<Option<(int, int, Seq<char>)>>> {
    ms.map_values(|m: Match| match_view(m))
}

/// The successive non-overlapping matches of the regular expression `pattern` in `text`, each
/// with all its capture groups (what `Regex::captures_iter` yields), as plain values; empty when
/// `pattern` does not compile.
pub uninterp spec fn regex_captures(pattern: Seq<char>, text: Seq<char>) -> Seq<
    Seq<Option<(int, int, Seq<char>)>>,
>;

/// `text` with every match of `pattern` replaced by `replacement` (what `Regex::replace_all`
/// gives); `text` itself when `pattern` does not compile.
pub uninterp spec fn regex_replace_all(
    pattern: Seq<char>,
    text: Seq<char>,
    replacement: Seq<char>,
) -> Seq<char>;

/// Whether `c` is one of the characters that `regex::escape` escapes (regex-syntax's
/// `is_meta_character`).
pub open spec fn regex_meta(c: char) -> bool {
    c == '\\' || c == '.' || c == '+' || c == '*' || c == '?' || c == '(' || c == ')' || c == '|'
        || c == '[' || c == ']' || c == '{' || c == '}' || c == '^' || c == '$' || c == '#' || c
        == '&' || c == '-' || c == '~'
}

/// `s` with a backslash put before each meta character (see `regex_meta`), every other
/// character copied (what `regex::escape` gives).
pub open spec fn regex_escape(s: Seq<char>) -> Seq<char>
    decreases s.len(),
{
    if s.len() == 0 {
        Seq::empty()
    } else {
        regex_escape(s.drop_last()) + if regex_meta(s.last()) {
            seq!['\\', s.last()]
        } else {
            seq![s.last()]
        }
    }
}

/// Whether the regular expression `pattern` matches somewhere in `text` (what
/// `Regex::is_match` gives); false when `pattern` does not compile.
pub uninterp spec fn regex_is_match(pattern: Seq<char>, text: Seq<char>) -> bool;

/// Whether the groups of a match lie within a haystack of `len` bytes.
pub open spec fn groups_in_bounds(m: Match, len: int) -> bool {
    forall|k: int|
        0 <= k < m.groups@.len() ==> (#[trigger] m.groups@[k] matches Some(g) ==> g.start
            <= g.end <= len)
}

/// Whether every participating group of a match starts and ends on a character boundary of a
/// haystack whose UTF-8 encoding is `bytes`.
pub open spec fn groups_on_boundaries(m: Match, bytes: Seq<u8>) -> bool {
    forall|k: int|
        0 <= k < m.groups@.len() ==> (#[trigger] m.groups@[k] matches Some(g) ==> is_char_boundary(
            bytes,
            g.start as int,
        ) && is_char_boundary(bytes, g.end as int))
}

/// All matches of `pattern` in `text` (`Regex::new` then `Regex::captures_iter`). The contract
/// names the result and states, as the crate documents, that every reported group lies within
/// the haystack and that its offsets fall on character boundaries; which matches are found is
/// not stated beyond the name.
#[verifier::external_body]
pub(crate) fn captures_all(pattern: &str, text: &str) -> (r: Vec<Match>)
    ensures
        matches_view(r@) == regex_captures(pattern@, text@),
        forall|i: int|
            0 <= i < r@.len() ==> groups_in_bounds(#[trigger] r@[i], text.spec_bytes().len() as int),
        forall|i: int| 0 <= i < r@.len() ==> groups_on_boundaries(#[trigger] r@[i], text.spec_bytes()),
{
    let to_group = |m: regex::Match| Group { start: m.start(), end: m.end(), text: m.as_str().to_string() };
    match regex::Regex::new(pattern) {
        Ok(re) => re.captures_iter(text).map(|c| Match { groups: c.iter().map(|g| g.map(to_group)).collect() }).collect(),
        Err(_) => Vec::new(),
    }
}

/// `Regex::replace_all` with a literal replacement: names the result.
#[verifier::external_body]
pub(crate) fn replace_all(pattern: &str, text: &str, replacement: &str) -> (r: String)
    ensures
        r@ == regex_replace_all(pattern@, text@, replacement@),
{
    match regex::Regex::new(pattern) {
        Ok(re) => re.replace_all(text, regex::NoExpand(replacement)).into_owned(),
        Err(_) => text.to_string(),
    }
}

/// `regex::escape`: each meta character gets a backslash before it (see `regex_escape`).
#[verifier::external_body]
pub(crate) fn escape(s: &str) -> (r: String)
    ensures
        r@ == regex_escape(s@),
{
    regex::escape(s)
}

/// `Regex::new` then `Regex::is_match`: names the result.
#[verifier::external_body]
pub(crate) fn is_match(pattern: &str, text: &str) -> (r: bool)
    ensures
        r == regex_is_match(pattern@, text@),
{
    match regex::Regex::new(pattern) {
        Ok(re) => re.is_match(text),
        Err(_) => false,
    }
}

/// The text of group `k` of a match, or the empty text when the group does not exist or did
/// not participate.
pub open spec fn group_text(m: Seq<Option<(int, int, Seq<char>)>>, k: int) -> Seq<char> {
    if 0 <= k < m.len() {
        match m[k] {
            Some(g) => g.2,
            None => Seq::<char>::empty(),
        }
    } else {
        Seq::<char>::empty()
    }
}

/// Whether group `k` of a match exists and participated.
pub open spec fn group_present(m: Seq<Option<(int, int, Seq<char>)>>, k: int) -> bool {
    0 <= k < m.len() && m[k] is Some
}

/// The text of group `k` of `m` (empty when absent).
pub fn text_of(m: &Match, k: usize) -> (r: String)
    ensures
        r@ == group_text(match_view(*m), k as int),
{
    if k < m.groups.len() {
        match &m.groups[k] {
            Some(g) => crate::text::copy_str(g.text.as_str()),
            None => String::new(),
        }
    } else {
        String::new()
    }
}

/// Whether group `k` of `m` participated.
pub fn present(m: &Match, k: usize) -> (r: bool)
    ensures
        r == group_present(match_view(*m), k as int),
{
    k < m.groups.len() && m.groups[k].is_some()
}

/// The start offset of the whole match (0 when absent).
pub open spec fn match_start(m: Seq<Option<(int, int, Seq<char>)>>) -> int {
    if group_present(m, 0) {
        match m[0] {
            Some(g) => g.0,
            None => 0,
        }
    } else {
        0
    }
}

/// The end offset of the whole match (0 when absent).
pub open spec fn match_end(m: Seq<Option<(int, int, Seq<char>)>>) -> int {
    if group_present(m, 0) {
        match m[0] {
            Some(g) => g.1,
            None => 0,
        }
    } else {
        0
    }
}

/// The start offset of the whole match.
pub fn start_of(m: &Match) -> (r: usize)
    ensures
        r == match_start(match_view(*m)),
{
    if m.groups.len() > 0 {
        match &m.groups[0] {
            Some(g) => g.start,
            None => 0,
        }
    } else {
        0
    }
}

/// The end offset of the whole match.
pub fn end_of(m: &Match) -> (r: usize)
    ensures
        r == match_end(match_view(*m)),
{
    if m.groups.len() > 0 {
        match &m.groups[0] {
            Some(g) => g.end,
            None => 0,
        }
    } else {
        0
    }
}

/// The end of a match whose groups fall on character boundaries is a character boundary.
pub proof fn lemma_match_end_boundary(m: Match, text: &str)
    requires
        groups_on_boundaries(m, text.spec_bytes()),
    ensures
        is_char_boundary(text.spec_bytes(), match_end(match_view(m))),
{
    if m.groups@.len() > 0 && m.groups@[0] is Some {
        assert(match_view(m)[0] == group_view(m.groups@[0]));
    } else {
        encode_utf8_valid_utf8(text@);
        is_char_boundary_start_end_of_seq(text.spec_bytes());
    }
}

} // verus!
