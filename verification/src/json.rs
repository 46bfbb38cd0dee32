//! A JSON document model with its parser and printer.
//!
//! Numbers are kept as their text: what that text is worth as a floating-point number, and how
//! a floating-point number is written, are left to the caller.
use vstd::prelude::*;
use vstd::string::*;
use vstd::utf8::*;

use crate::utf::{lemma_encode_utf8_concat, lemma_read_advances, read_spec, utf8_read};
use crate::text::{chars_of, copy_str, is_whitespace, is_ws, push_char, push_str, str_eq, trim, trim_spec};

verus! {

/// A JSON value. A number holds its text; an object holds its members, each key once.
#[derive(Debug, PartialEq)]
pub enum JsonNode {
    Null,
    Bool(bool),
    Number(String),
    Str(String),
    Array(Vec<JsonNode>),
    Object(Vec<(String, JsonNode)>),
    Raw(String),
}

/// The mathematical value of a JSON value.
pub ghost enum JsonView {
    Null,
    Bool(bool),
    Number(Seq<char>),
    Str(Seq<char>),
    Array(Seq<JsonView>),
    Object(Seq<(Seq<char>, JsonView)>),
    Raw(Seq<char>),
}

/// The mathematical value of a node.
pub open spec fn view_of(n: JsonNode) -> JsonView
    decreases n, 0nat,
{
    match n {
        JsonNode::Null => JsonView::Null,
        JsonNode::Bool(b) => JsonView::Bool(b),
        JsonNode::Number(t) => JsonView::Number(t@),
        JsonNode::Str(s) => JsonView::Str(s@),
        JsonNode::Array(a) => JsonView::Array(views_of(a@)),
        JsonNode::Object(o) => JsonView::Object(entry_views(o@)),
        JsonNode::Raw(s) => JsonView::Raw(s@),
    }
}

/// The values of a sequence of nodes.
pub open spec fn views_of(s: Seq<JsonNode>) -> Seq<JsonView>
    decreases s, 1nat,
{
    if s.len() == 0 {
        Seq::empty()
    } else {
        views_of(s.drop_last()).push(view_of(s.last()))
    }
}

/// The values of a sequence of members.
pub open spec fn entry_views(s: Seq<(String, JsonNode)>) -> Seq<(Seq<char>, JsonView)>
    decreases s, 1nat,
{
    if s.len() == 0 {
        Seq::empty()
    } else {
        entry_views(s.drop_last()).push((s.last().0@, view_of(s.last().1)))
    }
}

proof fn lemma_views_of_index(s: Seq<JsonNode>, i: int)
    requires
        0 <= i < s.len(),
    ensures
        views_of(s).len() == s.len(),
        views_of(s)[i] == view_of(s[i]),
    decreases s.len(),
{
    if i < s.len() - 1 {
        lemma_views_of_index(s.drop_last(), i);
    } else {
        lemma_views_of_len(s.drop_last());
    }
}

proof fn lemma_views_of_len(s: Seq<JsonNode>)
    ensures
        views_of(s).len() == s.len(),
    decreases s.len(),
{
    if s.len() > 0 {
        lemma_views_of_len(s.drop_last());
    }
}

proof fn lemma_entry_views_index(s: Seq<(String, JsonNode)>, i: int)
    requires
        0 <= i < s.len(),
    ensures
        entry_views(s).len() == s.len(),
        entry_views(s)[i] == (s[i].0@, view_of(s[i].1)),
    decreases s.len(),
{
    if i < s.len() - 1 {
        lemma_entry_views_index(s.drop_last(), i);
    } else {
        lemma_entry_views_len(s.drop_last());
    }
}

proof fn lemma_entry_views_len(s: Seq<(String, JsonNode)>)
    ensures
        entry_views(s).len() == s.len(),
    decreases s.len(),
{
    if s.len() > 0 {
        lemma_entry_views_len(s.drop_last());
    }
}

// ---------------------------------------------------------------------------
// Escaping strings
// ---------------------------------------------------------------------------

/// The lowercase hexadecimal digit for `d < 16`.
pub open spec fn hex_digit(d: nat) -> char {
    if d < 10 {
        ((d + 48) as u32) as char
    } else {
        ((d + 87) as u32) as char
    }
}

/// How one character is written inside a JSON string: `"`, `\`, newline, carriage return and
/// tab by their escapes, other control characters as `\u` and four hexadecimal digits, the
/// rest as they are.
pub open spec fn escape_char(c: char) -> Seq<char> {
    if c == '"' {
        seq!['\\', '"']
    } else if c == '\\' {
        seq!['\\', '\\']
    } else if c == '\n' {
        seq!['\\', 'n']
    } else if c == '\r' {
        seq!['\\', 'r']
    } else if c == '\t' {
        seq!['\\', 't']
    } else if (c as u32) < 0x20 {
        seq!['\\', 'u', '0', '0', hex_digit((c as u32 / 16) as nat), hex_digit((c as u32 % 16) as nat)]
    } else {
        seq![c]
    }
}

/// `s` with each character escaped.
pub open spec fn escape_spec(s: Seq<char>) -> Seq<char>
    decreases s.len(),
{
    if s.len() == 0 {
        Seq::empty()
    } else {
        escape_spec(s.drop_last()) + escape_char(s.last())
    }
}

fn hex_digit_exec(d: u32) -> (c: char)
    requires
        d < 16,
    ensures
        c == hex_digit(d as nat),
{
    if d < 10 {
        char_from_digit(d + 48)
    } else {
        char_from_digit(d + 87)
    }
}

fn char_from_digit(v: u32) -> (c: char)
    requires
        48 <= v <= 57 || 97 <= v <= 102,
    ensures
        c == v as char,
{
    match crate::utf::char_from_u32(v) {
        Some(c) => c,
        None => ' ',
    }
}

/// Escapes `s` for a JSON string (see `escape_spec`).
pub fn escape_string(s: &str) -> (r: String)
    ensures
        r@ == escape_spec(s@),
{
    let cs = chars_of(s);
    let mut out = String::new();
    let mut i: usize = 0;
    while i < cs.len()
        invariant
            cs@ == s@,
            i <= cs@.len(),
            out@ == escape_spec(s@.take(i as int)),
        decreases cs@.len() - i,
    {
        assert(s@.take(i + 1).drop_last() =~= s@.take(i as int));
        let c = cs[i];
        let ghost before = out@;
        if c == '"' {
            push_char(&mut out, '\\');
            push_char(&mut out, '"');
        } else if c == '\\' {
            push_char(&mut out, '\\');
            push_char(&mut out, '\\');
        } else if c == '\n' {
            push_char(&mut out, '\\');
            push_char(&mut out, 'n');
        } else if c == '\r' {
            push_char(&mut out, '\\');
            push_char(&mut out, 'r');
        } else if c == '\t' {
            push_char(&mut out, '\\');
            push_char(&mut out, 't');
        } else if (c as u32) < 0x20 {
            let v = c as u32;
            push_char(&mut out, '\\');
            push_char(&mut out, 'u');
            push_char(&mut out, '0');
            push_char(&mut out, '0');
            push_char(&mut out, hex_digit_exec(v / 16));
            push_char(&mut out, hex_digit_exec(v % 16));
        } else {
            push_char(&mut out, c);
        }
        assert(out@ =~= before + escape_char(c));
        i = i + 1;
    }
    assert(s@.take(s@.len() as int) =~= s@);
    out
}

// ---------------------------------------------------------------------------
// Printing
// ---------------------------------------------------------------------------

/// How a value is printed: indented with tabs when `pretty` (the `{:#}` form), compact
/// otherwise; object members in the order in which they are stored.
pub open spec fn print_view(v: JsonView, pretty: bool) -> Seq<char>
    decreases v, 0int,
{
    match v {
        JsonView::Null => "null"@,
        JsonView::Bool(b) => if b {
            "true"@
        } else {
            "false"@
        },
        JsonView::Number(t) => t,
        JsonView::Str(s) => seq!['"'] + escape_spec(s) + seq!['"'],
        JsonView::Array(vs) => if pretty {
            seq!['[', '\n'] + array_items(vs, true, vs.len() as int) + seq![']']
        } else {
            seq!['['] + array_items(vs, false, vs.len() as int) + seq![']']
        },
        JsonView::Object(es) => if pretty {
            seq!['{', '\n'] + object_items(es, true, es.len() as int) + seq!['}']
        } else {
            seq!['{'] + object_items(es, false, es.len() as int) + seq!['}']
        },
        JsonView::Raw(s) => s,
    }
}

/// The first `k` items of an array: pretty, each on a line of its own after a tab, with a
/// comma after all but the last; compact, separated by commas.
pub open spec fn array_items(vs: Seq<JsonView>, pretty: bool, k: int) -> Seq<char>
    decreases vs, k,
{
    if k <= 0 || k > vs.len() {
        Seq::empty()
    } else if pretty {
        array_items(vs, pretty, k - 1) + seq!['\t'] + print_view(vs[k - 1], true) + (if k
            < vs.len() {
            seq![',']
        } else {
            Seq::empty()
        }) + seq!['\n']
    } else {
        array_items(vs, pretty, k - 1) + (if k > 1 {
            seq![',']
        } else {
            Seq::empty()
        }) + print_view(vs[k - 1], false)
    }
}

/// The first `k` members of an object: pretty, each as `"key": value` on a line of its own
/// after a tab, with a comma after all but the last; compact, as `"key":value` separated by
/// commas. Keys are written as they are.
pub open spec fn object_items(es: Seq<(Seq<char>, JsonView)>, pretty: bool, k: int) -> Seq<char>
    decreases es, k,
{
    if k <= 0 || k > es.len() {
        Seq::empty()
    } else if pretty {
        object_items(es, pretty, k - 1) + seq!['\t', '"'] + es[k - 1].0 + seq!['"', ':', ' ']
            + print_view(es[k - 1].1, true) + (if k < es.len() {
            seq![',']
        } else {
            Seq::empty()
        }) + seq!['\n']
    } else {
        object_items(es, pretty, k - 1) + (if k > 1 {
            seq![',']
        } else {
            Seq::empty()
        }) + seq!['"'] + es[k - 1].0 + seq!['"', ':'] + print_view(es[k - 1].1, false)
    }
}

/// Appends the printed form of `n` to `out` (see `print_view`).
#[verifier::rlimit(40)]
fn write_node(n: &JsonNode, pretty: bool, out: &mut String)
    ensures
        final(out)@ == old(out)@ + print_view(view_of(*n), pretty),
    decreases n,
{
    match n {
        JsonNode::Null => push_str(out, "null"),
        JsonNode::Bool(b) => {
            if *b {
                push_str(out, "true");
            } else {
                push_str(out, "false");
            }
        },
        JsonNode::Number(t) => push_str(out, t.as_str()),
        JsonNode::Str(s) => {
            let e = escape_string(s.as_str());
            push_char(out, '"');
            push_str(out, e.as_str());
            push_char(out, '"');
        },
        JsonNode::Array(a) => {
            let ghost vs = views_of(a@);
            proof {
                lemma_views_of_len(a@);
            }
            let ghost start = out@;
            if pretty {
                push_char(out, '[');
                push_char(out, '\n');
            } else {
                push_char(out, '[');
            }
            let ghost head = out@;
            let mut i: usize = 0;
            while i < a.len()
                invariant
                    i <= a@.len(),
                    *n == JsonNode::Array(*a),
                    vs == views_of(a@),
                    vs.len() == a@.len(),
                    out@ == head + array_items(vs, pretty, i as int),
                decreases a@.len() - i,
            {
                proof {
                    lemma_views_of_index(a@, i as int);
                }
                proof {
                    assert(decreases_to!(a => a[i as int]));
                    assert(decreases_to!(*n => n->Array_0));
                    assert(decreases_to!(*n => a[i as int]));
                }
                if pretty {
                    push_char(out, '\t');
                    write_node(&a[i], true, out);
                    if i + 1 < a.len() {
                        push_char(out, ',');
                    }
                    push_char(out, '\n');
                } else {
                    if i > 0 {
                        push_char(out, ',');
                    }
                    write_node(&a[i], false, out);
                }
                i = i + 1;
            }
            push_char(out, ']');
        },
        JsonNode::Object(o) => {
            let ghost es = entry_views(o@);
            proof {
                lemma_entry_views_len(o@);
            }
            if pretty {
                push_char(out, '{');
                push_char(out, '\n');
            } else {
                push_char(out, '{');
            }
            let ghost head = out@;
            let mut j: usize = 0;
            while j < o.len()
                invariant
                    j <= o@.len(),
                    *n == JsonNode::Object(*o),
                    es == entry_views(o@),
                    es.len() == o@.len(),
                    out@ == head + object_items(es, pretty, j as int),
                decreases o@.len() - j,
            {
                proof {
                    lemma_entry_views_index(o@, j as int);
                }
                let entry = &o[j];
                proof {
                    assert(decreases_to!(o => o[j as int]));
                    assert(decreases_to!(*n => n->Object_0));
                    assert(decreases_to!(o[j as int] => o[j as int].1));
                    assert(decreases_to!(*n => o[j as int].1));
                }
                if pretty {
                    push_char(out, '\t');
                    push_char(out, '"');
                    push_str(out, entry.0.as_str());
                    push_char(out, '"');
                    push_char(out, ':');
                    push_char(out, ' ');
                    write_node(&entry.1, true, out);
                    if j + 1 < o.len() {
                        push_char(out, ',');
                    }
                    push_char(out, '\n');
                } else {
                    if j > 0 {
                        push_char(out, ',');
                    }
                    push_char(out, '"');
                    push_str(out, entry.0.as_str());
                    push_char(out, '"');
                    push_char(out, ':');
                    write_node(&entry.1, false, out);
                }
                j = j + 1;
            }
            push_char(out, '}');
        },
        JsonNode::Raw(s) => push_str(out, s.as_str()),
    }
}

impl JsonNode {
    /// The value printed in the indented form.
    pub fn print(&self) -> (r: String)
        ensures
            r@ == print_view(view_of(*self), true),
    {
        let mut out = String::new();
        write_node(self, true, &mut out);
        out
    }

    /// The value printed in the compact form.
    pub fn print_unformatted(&self) -> (r: String)
        ensures
            r@ == print_view(view_of(*self), false),
    {
        let mut out = String::new();
        write_node(self, false, &mut out);
        out
    }
}


// ---------------------------------------------------------------------------
// Parsing
// ---------------------------------------------------------------------------

/// Whether a byte, read as the character of the same number, is whitespace.
pub open spec fn ws_byte(b: u8) -> bool {
    is_ws((b as u32) as char)
}

/// The character of the same number as a byte.
pub open spec fn byte_char(b: u8) -> char {
    (b as u32) as char
}

/// Whether byte `p` of `s` stands for the character `c`.
pub open spec fn byte_is(s: Seq<u8>, p: int, c: char) -> bool {
    0 <= p < s.len() && byte_char(s[p]) == c
}

/// The first position at or after `p` whose byte is not whitespace.
pub open spec fn skip_ws_spec(s: Seq<u8>, p: int) -> int
    decreases s.len() - p,
{
    if 0 <= p < s.len() && ws_byte(s[p]) {
        skip_ws_spec(s, p + 1)
    } else {
        p
    }
}

/// The first position at or after `p` whose byte is not an ASCII digit.
pub open spec fn digits_end(s: Seq<u8>, p: int) -> int
    decreases s.len() - p,
{
    if 0 <= p < s.len() && '0' <= byte_char(s[p]) && byte_char(s[p]) <= '9' {
        digits_end(s, p + 1)
    } else {
        p
    }
}

/// The end of the number that starts at `q`: an optional `-`, digits, optionally `.` and
/// digits, optionally `e` or `E`, a sign and digits.
pub open spec fn number_end(s: Seq<u8>, q: int) -> int {
    let p1 = if byte_is(s, q, '-') {
        q + 1
    } else {
        q
    };
    let p2 = digits_end(s, p1);
    let p3 = if byte_is(s, p2, '.') {
        digits_end(s, p2 + 1)
    } else {
        p2
    };
    if byte_is(s, p3, 'e') || byte_is(s, p3, 'E') {
        let p5 = p3 + 1;
        let p6 = if byte_is(s, p5, '+') || byte_is(s, p5, '-') {
            p5 + 1
        } else {
            p5
        };
        digits_end(s, p6)
    } else {
        p3
    }
}

/// Whether the number text that starts at `q` is one that a float can be read from: it has a
/// digit before or after its `.`, and when it has an exponent marker, a digit after it.
pub open spec fn number_ok(s: Seq<u8>, q: int) -> bool {
    let p1 = if byte_is(s, q, '-') {
        q + 1
    } else {
        q
    };
    let p2 = digits_end(s, p1);
    let p3 = if byte_is(s, p2, '.') {
        digits_end(s, p2 + 1)
    } else {
        p2
    };
    let mantissa = p2 > p1 || (byte_is(s, p2, '.') && p3 > p2 + 1);
    let exponent = if byte_is(s, p3, 'e') || byte_is(s, p3, 'E') {
        let p5 = p3 + 1;
        let p6 = if byte_is(s, p5, '+') || byte_is(s, p5, '-') {
            p5 + 1
        } else {
            p5
        };
        digits_end(s, p6) > p6
    } else {
        true
    };
    mantissa && exponent
}

/// The bytes `a..b` of `s`, each read as the character of the same number.
pub open spec fn bytes_text(s: Seq<u8>, a: int, b: int) -> Seq<char> {
    s.subrange(a, b).map_values(|x: u8| byte_char(x))
}

/// Whether the bytes of `lit` stand at position `q` of `s`.
pub open spec fn starts_at(s: Seq<u8>, q: int, lit: Seq<u8>) -> bool {
    0 <= q && q + lit.len() <= s.len() && s.subrange(q, q + lit.len()) == lit
}

/// The character an escape stands for: `b`, `f`, `n`, `r` and `t` for their control
/// characters, any other character for itself.
pub open spec fn unescape(e: char) -> char {
    if e == 'b' {
        '\x08'
    } else if e == 'f' {
        '\x0C'
    } else if e == 'n' {
        '\n'
    } else if e == 'r' {
        '\r'
    } else if e == 't' {
        '\t'
    } else {
        e
    }
}

/// The value of a hexadecimal digit.
pub open spec fn hex_value(c: char) -> Option<nat> {
    if '0' <= c && c <= '9' {
        Some((c as nat - 48) as nat)
    } else if 'a' <= c && c <= 'f' {
        Some((c as nat - 87) as nat)
    } else if 'A' <= c && c <= 'F' {
        Some((c as nat - 55) as nat)
    } else {
        None
    }
}

/// Whether every character of `d` is a hexadecimal digit.
pub open spec fn all_hex(d: Seq<char>) -> bool {
    forall|i: int| 0 <= i < d.len() ==> #[trigger] hex_value(d[i]) is Some
}

/// The value of a sequence of hexadecimal digits.
pub open spec fn hex_digits_value(d: Seq<char>) -> nat
    decreases d.len(),
{
    if d.len() == 0 {
        0
    } else {
        hex_digits_value(d.drop_last()) * 16 + match hex_value(d.last()) {
            Some(v) => v,
            None => 0,
        }
    }
}

/// What `u16::from_str_radix(h, 16)` gives: an optional `+`, then one or more hexadecimal
/// digits whose value fits in 16 bits.
pub open spec fn parse_hex_u16(h: Seq<char>) -> Option<nat> {
    let d = crate::text::without_plus(h);
    if d.len() > 0 && all_hex(d) && hex_digits_value(d) <= 0xFFFF {
        Some(hex_digits_value(d))
    } else {
        None
    }
}

/// The characters of a string body from position `p` on, after the characters `acc` read so
/// far, up to and past the closing quote: the text and the position after the quote; none
/// when the input ends first. A byte of 0x80 or more starts a UTF-8 character, read as
/// `utf8_read` reads it. An escape `\u` takes up to four following bytes as hexadecimal
/// digits and adds their character when they parse and name one; any other escaped character
/// stands for `unescape` of it.
pub open spec fn string_body(s: Seq<u8>, p: int, acc: Seq<char>) -> Option<(Seq<char>, int)>
    decreases s.len() - p,
{
    if p < 0 || p >= s.len() {
        None
    } else if s[p] >= 0x80 {
        let (ch, next) = read_spec(s, p);
        proof {
            lemma_read_advances(s, p);
        }
        string_body(s, next, acc.push(ch))
    } else {
        let c = byte_char(s[p]);
        if c == '"' {
            Some((acc, p + 1))
        } else if c == '\\' {
            if p + 1 >= s.len() {
                None
            } else if s[p + 1] >= 0x80 {
                let (ch, next) = read_spec(s, p + 1);
                proof {
                    lemma_read_advances(s, p + 1);
                }
                string_body(s, next, acc.push(ch))
            } else {
                let e = byte_char(s[p + 1]);
                if e == 'u' {
                    let stop = if p + 6 <= s.len() {
                        p + 6
                    } else {
                        s.len() as int
                    };
                    let acc2 = match parse_hex_u16(bytes_text(s, p + 2, stop)) {
                        Some(v) => if is_scalar(v as u32) {
                            acc.push((v as u32) as char)
                        } else {
                            acc
                        },
                        None => acc,
                    };
                    string_body(s, stop, acc2)
                } else {
                    string_body(s, p + 2, acc.push(unescape(e)))
                }
            }
        } else {
            string_body(s, p + 1, acc.push(c))
        }
    }
}

/// The string that starts at `q`: its first byte is taken as the opening quote, whatever it
/// is.
pub open spec fn string_spec(s: Seq<u8>, q: int) -> Option<(Seq<char>, int)> {
    if 0 <= q < s.len() {
        string_body(s, q + 1, Seq::empty())
    } else {
        None
    }
}

/// The position of the first member of `acc` with key `k`.
pub open spec fn member_index(acc: Seq<(Seq<char>, JsonView)>, k: Seq<char>) -> Option<int>
    decreases acc.len(),
{
    if acc.len() == 0 {
        None
    } else {
        match member_index(acc.drop_last(), k) {
            Some(i) => Some(i),
            None => if acc.last().0 == k {
                Some(acc.len() - 1)
            } else {
                None
            },
        }
    }
}

/// The members after storing `v` under `k`: the member with that key gets the value, or a new
/// member goes last.
pub open spec fn insert_member(acc: Seq<(Seq<char>, JsonView)>, k: Seq<char>, v: JsonView) -> Seq<
    (Seq<char>, JsonView),
> {
    match member_index(acc, k) {
        Some(i) => acc.update(i, (k, v)),
        None => acc.push((k, v)),
    }
}

/// The bytes of `null`.
pub open spec fn null_bytes() -> Seq<u8> {
    seq![110u8, 117u8, 108u8, 108u8]
}

/// The bytes of `true`.
pub open spec fn true_bytes() -> Seq<u8> {
    seq![116u8, 114u8, 117u8, 101u8]
}

/// The bytes of `false`.
pub open spec fn false_bytes() -> Seq<u8> {
    seq![102u8, 97u8, 108u8, 115u8, 101u8]
}

/// The value at position `p` after whitespace, and the position after it: `null`, `true`,
/// `false`, a string, an array, an object or a number, chosen by its first byte.
pub open spec fn value_spec(s: Seq<u8>, p: int) -> Option<(JsonView, int)>
    decreases s.len() - p, 1int,
{
    let q = skip_ws_spec(s, p);
    if q < p || q < 0 || q >= s.len() {
        None
    } else {
        let c = byte_char(s[q]);
        if c == 'n' {
            if starts_at(s, q, null_bytes()) {
                Some((JsonView::Null, q + 4))
            } else {
                None
            }
        } else if c == 't' || c == 'f' {
            if starts_at(s, q, true_bytes()) {
                Some((JsonView::Bool(true), q + 4))
            } else if starts_at(s, q, false_bytes()) {
                Some((JsonView::Bool(false), q + 5))
            } else {
                None
            }
        } else if c == '"' {
            match string_spec(s, q) {
                Some((t, e)) => Some((JsonView::Str(t), e)),
                None => None,
            }
        } else if c == '[' {
            array_spec(s, q)
        } else if c == '{' {
            object_spec(s, q)
        } else if c == '-' || ('0' <= c && c <= '9') {
            if number_ok(s, q) {
                let e = number_end(s, q);
                Some((JsonView::Number(bytes_text(s, q, e)), e))
            } else {
                None
            }
        } else {
            None
        }
    }
}

/// The array whose `[` stands at `q`.
pub open spec fn array_spec(s: Seq<u8>, q: int) -> Option<(JsonView, int)>
    decreases s.len() - q, 0int,
{
    if q < 0 || q >= s.len() {
        None
    } else {
        let r = skip_ws_spec(s, q + 1);
        if r < q + 1 || r > s.len() {
            None
        } else if byte_is(s, r, ']') {
            Some((JsonView::Array(Seq::empty()), r + 1))
        } else {
            elements_spec(s, r, Seq::empty())
        }
    }
}

/// The rest of an array from position `p`, after the elements `acc`: a value, then `]` to end
/// or `,` to go on.
pub open spec fn elements_spec(s: Seq<u8>, p: int, acc: Seq<JsonView>) -> Option<(JsonView, int)>
    decreases s.len() - p, 2int,
{
    match value_spec(s, p) {
        None => None,
        Some((v, e)) => {
            let e2 = skip_ws_spec(s, e);
            if e2 < p || e2 >= s.len() {
                None
            } else if byte_char(s[e2]) == ']' {
                Some((JsonView::Array(acc.push(v)), e2 + 1))
            } else if byte_char(s[e2]) == ',' {
                elements_spec(s, e2 + 1, acc.push(v))
            } else {
                None
            }
        },
    }
}

/// The object whose `{` stands at `q`.
pub open spec fn object_spec(s: Seq<u8>, q: int) -> Option<(JsonView, int)>
    decreases s.len() - q, 0int,
{
    if q < 0 || q >= s.len() {
        None
    } else {
        let r = skip_ws_spec(s, q + 1);
        if r < q + 1 || r > s.len() {
            None
        } else if byte_is(s, r, '}') {
            Some((JsonView::Object(Seq::empty()), r + 1))
        } else {
            members_spec(s, r, Seq::empty())
        }
    }
}

/// The rest of an object from position `p`, after the members `acc`: a key, `:`, a value
/// (stored under the key), then `}` to end or `,` to go on.
pub open spec fn members_spec(s: Seq<u8>, p: int, acc: Seq<(Seq<char>, JsonView)>) -> Option<
    (JsonView, int),
>
    decreases s.len() - p, 2int,
{
    let q = skip_ws_spec(s, p);
    if q < p {
        None
    } else {
        match string_spec(s, q) {
            None => None,
            Some((k, e)) => {
                let c = skip_ws_spec(s, e);
                if c < p || c >= s.len() || byte_char(s[c]) != ':' {
                    None
                } else {
                    match value_spec(s, c + 1) {
                        None => None,
                        Some((v, e3)) => {
                            let e4 = skip_ws_spec(s, e3);
                            let acc2 = insert_member(acc, k, v);
                            if e4 < p || e4 >= s.len() {
                                None
                            } else if byte_char(s[e4]) == '}' {
                                Some((JsonView::Object(acc2), e4 + 1))
                            } else if byte_char(s[e4]) == ',' {
                                members_spec(s, e4 + 1, acc2)
                            } else {
                                None
                            }
                        },
                    }
                }
            },
        }
    }
}

/// The value of a JSON text: the value at the start of the UTF-8 bytes of the text trimmed of
/// whitespace; what follows it is not looked at.
pub open spec fn parse_spec(input: Seq<char>) -> Option<JsonView> {
    match value_spec(encode_utf8(trim_spec(input)), 0) {
        Some((v, e)) => Some(v),
        None => None,
    }
}


proof fn lemma_skip_ws_bounds(s: Seq<u8>, p: int)
    requires
        0 <= p <= s.len(),
    ensures
        p <= skip_ws_spec(s, p) <= s.len(),
    decreases s.len() - p,
{
    if p < s.len() && ws_byte(s[p]) {
        lemma_skip_ws_bounds(s, p + 1);
    }
}

proof fn lemma_digits_end_bounds(s: Seq<u8>, p: int)
    requires
        0 <= p <= s.len(),
    ensures
        p <= digits_end(s, p) <= s.len(),
    decreases s.len() - p,
{
    if p < s.len() && '0' <= byte_char(s[p]) && byte_char(s[p]) <= '9' {
        lemma_digits_end_bounds(s, p + 1);
    }
}

/// The number of the given power of 16.
pub open spec fn pow16(n: nat) -> nat
    decreases n,
{
    if n == 0 {
        1
    } else {
        16 * pow16((n - 1) as nat)
    }
}

proof fn lemma_hex_value_bound(d: Seq<char>)
    requires
        all_hex(d),
    ensures
        hex_digits_value(d) < pow16(d.len()),
    decreases d.len(),
{
    if d.len() > 0 {
        assert(hex_value(d[d.len() - 1]) is Some);
        assert(d.drop_last().len() == d.len() - 1);
        assert forall|i: int| 0 <= i < d.drop_last().len() implies #[trigger] hex_value(d.drop_last()[i]) is Some by {
            assert(d.drop_last()[i] == d[i]);
        }
        lemma_hex_value_bound(d.drop_last());
    }
}

fn byte_to_char(b: u8) -> (c: char)
    ensures
        c == byte_char(b),
{
    match crate::utf::char_from_u32(b as u32) {
        Some(c) => c,
        None => ' ',
    }
}

/// `u16::from_str_radix(h, 16)` on at most four characters (see `parse_hex_u16`).
#[verifier::rlimit(40)]
#[verifier::spinoff_prover]
pub fn parse_hex_u16_exec(h: &str) -> (r: Option<u32>)
    requires
        h@.len() <= 4,
    ensures
        match r {
            Some(v) => parse_hex_u16(h@) == Some(v as nat),
            None => parse_hex_u16(h@) is None,
        },
{
    let cs = chars_of(h);
    let start: usize = if cs.len() > 0 && cs[0] == '+' {
        1
    } else {
        0
    };
    let ghost d = cs@.subrange(start as int, cs@.len() as int);
    assert(d =~= crate::text::without_plus(h@));
    if start >= cs.len() {
        return None;
    }
    let mut v: u32 = 0;
    let mut i: usize = start;
    while i < cs.len()
        invariant
            start <= i <= cs@.len(),
            cs@ == h@,
            cs@.len() <= 4,
            d == cs@.subrange(start as int, cs@.len() as int),
            d == crate::text::without_plus(h@),
            all_hex(d.take(i - start)),
            v == hex_digits_value(d.take(i - start)),
        decreases cs@.len() - i,
    {
        let c = cs[i];
        assert(c == d[i - start]);
        let dv: u32 = if '0' <= c && c <= '9' {
            (c as u32) - 48
        } else if 'a' <= c && c <= 'f' {
            (c as u32) - 87
        } else if 'A' <= c && c <= 'F' {
            (c as u32) - 55
        } else {
            assert(hex_value(d[i - start]) is None);
            return None;
        };
        assert(d.take(i - start + 1).drop_last() =~= d.take(i - start));
        assert(all_hex(d.take(i - start + 1))) by {
            assert forall|k: int| 0 <= k < d.take(i - start + 1).len() implies #[trigger] hex_value(
                d.take(i - start + 1)[k],
            ) is Some by {
                if k < i - start {
                    assert(d.take(i - start + 1)[k] == d.take(i - start)[k]);
                }
            }
        }
        proof {
            lemma_hex_value_bound(d.take(i - start));
            assert(pow16(0) == 1);
            assert(pow16(1) == 16);
            assert(pow16(2) == 256);
            assert(pow16(3) == 4096);
        }
        v = v * 16 + dv;
        i = i + 1;
    }
    assert(d.take(d.len() as int) =~= d);
    proof {
        lemma_hex_value_bound(d);
        assert(pow16(0) == 1);
        assert(pow16(1) == 16);
        assert(pow16(2) == 256);
        assert(pow16(3) == 4096);
        assert(pow16(4) == 65536);
    }
    Some(v)
}

/// A reader of the bytes of a JSON text, at a position.
pub struct Parser<'a> {
    input: &'a [u8],
    pos: usize,
}

impl<'a> Parser<'a> {
    #[verifier::type_invariant]
    spec fn in_bounds(&self) -> bool {
        self.pos <= self.input@.len()
    }

    /// The bytes being read.
    pub closed spec fn bytes(&self) -> Seq<u8> {
        self.input@
    }

    /// The position reached.
    pub closed spec fn position(&self) -> int {
        self.pos as int
    }

    /// A reader at the start of the UTF-8 bytes of `input`.
    pub fn new(input: &'a str) -> (r: Parser<'a>)
        ensures
            r.bytes() == input.spec_bytes(),
            r.position() == 0,
    {
        Parser { input: input.as_bytes(), pos: 0 }
    }

    /// Moves past whitespace (bytes read as characters).
    pub fn skip_whitespace(&mut self)
        ensures
            final(self).bytes() == old(self).bytes(),
            final(self).position() == skip_ws_spec(old(self).bytes(), old(self).position()),
            old(self).position() <= final(self).position() <= final(self).bytes().len(),
    {
        proof {
            use_type_invariant(&*self);
            lemma_skip_ws_bounds(self.bytes(), self.position());
        }
        while self.pos < self.input.len() && is_whitespace(byte_to_char(self.input[self.pos]))
            invariant
                self.bytes() == old(self).bytes(),
                self.pos <= self.input@.len(),
                skip_ws_spec(old(self).bytes(), old(self).position()) == skip_ws_spec(
                    self.bytes(),
                    self.position(),
                ),
            decreases self.input@.len() - self.pos,
        {
            self.pos = self.pos + 1;
        }
    }

    /// The character at the position, if any.
    pub fn peek(&self) -> (r: Option<char>)
        ensures
            r == if 0 <= self.position() < self.bytes().len() {
                Some(byte_char(self.bytes()[self.position()]))
            } else {
                None::<char>
            },
    {
        if self.pos < self.input.len() {
            Some(byte_to_char(self.input[self.pos]))
        } else {
            None
        }
    }

    /// The character at the position, moving past it; none at the end.
    pub fn consume(&mut self) -> (r: Option<char>)
        ensures
            final(self).bytes() == old(self).bytes(),
            r == if 0 <= old(self).position() < old(self).bytes().len() {
                Some(byte_char(old(self).bytes()[old(self).position()]))
            } else {
                None::<char>
            },
            final(self).position() == if r is Some {
                old(self).position() + 1
            } else {
                old(self).position()
            },
    {
        proof {
            use_type_invariant(&*self);
        }
        if self.pos < self.input.len() {
            let c = byte_to_char(self.input[self.pos]);
            self.pos = self.pos + 1;
            Some(c)
        } else {
            None
        }
    }

    /// Reads a string: the character at the position is taken as its opening quote (see
    /// `string_spec`).
    pub fn parse_string(&mut self) -> (r: Option<String>)
        ensures
            final(self).bytes() == old(self).bytes(),
            match string_spec(old(self).bytes(), old(self).position()) {
                Some((t, e)) => r matches Some(x) && x@ == t && final(self).position() == e,
                None => r is None,
            },
            r is Some ==> final(self).position() > old(self).position(),
    {
        proof {
            use_type_invariant(&*self);
        }
        let ghost s = self.bytes();
        let ghost q = self.position();
        if self.consume().is_none() {
            return None;
        }
        let mut acc = String::new();
        loop
            invariant
                self.bytes() == s,
                s == old(self).bytes(),
                q == old(self).position(),
                0 <= q < s.len(),
                q < self.position() <= s.len(),
                string_spec(s, q) == string_body(s, self.position(), acc@),
            decreases s.len() - self.position(),
        {
            proof {
                use_type_invariant(&*self);
            }
            let ghost p = self.position();
            if self.pos < self.input.len() && self.input[self.pos] >= 0x80 {
                let mut q = self.pos;
                let ch = utf8_read(self.input, &mut q);
                proof {
                    lemma_read_advances(s, p);
                }
                self.pos = q;
                push_char(&mut acc, ch);
                continue;
            }
            let c = match self.consume() {
                Some(c) => c,
                None => return None,
            };
            if c == '"' {
                return Some(acc);
            } else if c == '\\' {
                if self.pos < self.input.len() && self.input[self.pos] >= 0x80 {
                    let mut q = self.pos;
                    let ch = utf8_read(self.input, &mut q);
                    proof {
                        lemma_read_advances(s, p + 1);
                    }
                    self.pos = q;
                    push_char(&mut acc, ch);
                    continue;
                }
                let e = match self.consume() {
                    Some(e) => e,
                    None => return None,
                };
                if e == 'u' {
                    let mut hex = String::new();
                    let mut k: usize = 0;
                    while k < 4
                        invariant
                            self.bytes() == s,
                            k <= 4,
                            0 <= p,
                            p + 2 <= s.len(),
                            self.position() == if p + 2 + k <= s.len() {
                                p + 2 + k
                            } else {
                                s.len() as int
                            },
                            hex@ == bytes_text(s, p + 2, self.position()),
                        decreases 4 - k,
                    {
                        let ghost before = hex@;
                        let ghost at = self.position();
                        match self.consume() {
                            Some(ch) => {
                                push_char(&mut hex, ch);
                                assert(s.subrange(p + 2, at + 1) =~= s.subrange(p + 2, at).push(
                                    s[at],
                                ));
                                assert(bytes_text(s, p + 2, at + 1) =~= bytes_text(s, p + 2, at).push(
                                    ch,
                                ));
                            },
                            None => {},
                        }
                        k = k + 1;
                    }
                    let ghost stop = self.position();
                    assert(stop == if p + 6 <= s.len() {
                        p + 6
                    } else {
                        s.len() as int
                    });
                    let ghost before = acc@;
                    match parse_hex_u16_exec(hex.as_str()) {
                        Some(v) => {
                            match crate::utf::char_from_u32(v) {
                                Some(ch) => {
                                    push_char(&mut acc, ch);
                                },
                                None => {},
                            }
                        },
                        None => {},
                    }
                } else {
                    push_char(&mut acc, unescape_exec(e));
                }
            } else {
                push_char(&mut acc, c);
            }
        }
    }
}

fn unescape_exec(e: char) -> (r: char)
    ensures
        r == unescape(e),
{
    if e == 'b' {
        '\x08'
    } else if e == 'f' {
        '\x0C'
    } else if e == 'n' {
        '\n'
    } else if e == 'r' {
        '\r'
    } else if e == 't' {
        '\t'
    } else {
        e
    }
}


proof fn lemma_member_index_prefix(s: Seq<(Seq<char>, JsonView)>, m: int, k: Seq<char>)
    requires
        0 <= m <= s.len(),
        member_index(s.take(m), k) is Some,
    ensures
        member_index(s, k) == member_index(s.take(m), k),
    decreases s.len() - m,
{
    if m < s.len() {
        assert(s.take(m + 1).drop_last() =~= s.take(m));
        lemma_member_index_prefix(s, m + 1, k);
    } else {
        assert(s.take(m) =~= s);
    }
}

proof fn lemma_entry_views_update(s: Seq<(String, JsonNode)>, i: int, x: (String, JsonNode))
    requires
        0 <= i < s.len(),
    ensures
        entry_views(s.update(i, x)) == entry_views(s).update(i, (x.0@, view_of(x.1))),
    decreases s.len(),
{
    lemma_entry_views_len(s);
    lemma_entry_views_len(s.update(i, x));
    if i < s.len() - 1 {
        lemma_entry_views_update(s.drop_last(), i, x);
        assert(s.update(i, x).drop_last() =~= s.drop_last().update(i, x));
    } else {
        assert(s.update(i, x).drop_last() =~= s.drop_last());
    }
    assert(entry_views(s.update(i, x)) =~= entry_views(s).update(i, (x.0@, view_of(x.1))));
}

/// Stores `value` under `key` among the members `o` (see `insert_member`).
fn insert_into(o: &mut Vec<(String, JsonNode)>, key: String, value: JsonNode)
    ensures
        entry_views(final(o)@) == insert_member(entry_views(old(o)@), key@, view_of(value)),
{
    let ghost ev = entry_views(o@);
    proof {
        lemma_entry_views_len(o@);
    }
    let mut i: usize = 0;
    while i < o.len()
        invariant
            i <= o@.len(),
            o@ == old(o)@,
            ev == entry_views(o@),
            ev.len() == o@.len(),
            member_index(ev.take(i as int), key@) is None,
        decreases o@.len() - i,
    {
        proof {
            lemma_entry_views_index(o@, i as int);
        }
        assert(ev.take(i + 1).drop_last() =~= ev.take(i as int));
        if str_eq(o[i].0.as_str(), key.as_str()) {
            assert(ev[i as int].0 == key@);
            assert(member_index(ev.take(i + 1), key@) == Some(i as int));
            proof {
                lemma_member_index_prefix(ev, i + 1, key@);
                lemma_entry_views_update(o@, i as int, (key, value));
            }
            o.set(i, (key, value));
            return;
        }
        i = i + 1;
    }
    assert(ev.take(o@.len() as int) =~= ev);
    let ghost old_o = o@;
    o.push((key, value));
    assert(o@.drop_last() =~= old_o);
}

impl<'a> Parser<'a> {
    fn parse_literal(&mut self, lit: &[u8]) -> (r: bool)
        ensures
            final(self).bytes() == old(self).bytes(),
            r == starts_at(old(self).bytes(), old(self).position(), lit@),
            final(self).position() == if r {
                old(self).position() + lit@.len()
            } else {
                old(self).position()
            },
    {
        proof {
            use_type_invariant(&*self);
        }
        if lit.len() > self.input.len() - self.pos {
            return false;
        }
        let mut i: usize = 0;
        let n = self.input.len();
        while i < lit.len()
            invariant
                n == self.input@.len(),
                self.bytes() == old(self).bytes(),
                self.pos == old(self).position(),
                self.pos + lit@.len() <= self.input@.len(),
                i <= lit@.len(),
                forall|j: int| 0 <= j < i ==> self.input@[self.pos + j] == lit@[j],
            decreases lit@.len() - i,
        {
            if self.input[self.pos + i] != lit[i] {
                assert(self.input@.subrange(self.pos as int, self.pos + lit@.len())[i as int]
                    != lit@[i as int]);
                return false;
            }
            i = i + 1;
        }
        assert(self.input@.subrange(self.pos as int, self.pos + lit@.len()) =~= lit@);
        self.pos = self.pos + lit.len();
        true
    }

    fn skip_digits(&mut self)
        ensures
            final(self).bytes() == old(self).bytes(),
            final(self).position() == digits_end(old(self).bytes(), old(self).position()),
            old(self).position() <= final(self).position() <= final(self).bytes().len(),
    {
        proof {
            use_type_invariant(&*self);
            lemma_digits_end_bounds(self.bytes(), self.position());
        }
        loop
            invariant
                self.bytes() == old(self).bytes(),
                old(self).position() <= digits_end(old(self).bytes(), old(self).position())
                    <= old(self).bytes().len(),
                digits_end(old(self).bytes(), old(self).position()) == digits_end(
                    self.bytes(),
                    self.position(),
                ),
            decreases self.bytes().len() - self.position(),
        {
            proof {
                use_type_invariant(&*self);
            }
            match self.peek() {
                Some(c) => {
                    if '0' <= c && c <= '9' {
                        self.consume();
                    } else {
                        return;
                    }
                },
                None => {
                    return;
                },
            }
        }
    }

    fn parse_number(&mut self) -> (r: Option<JsonNode>)
        ensures
            final(self).bytes() == old(self).bytes(),
            number_ok(old(self).bytes(), old(self).position()) ==> ({
                let e = number_end(old(self).bytes(), old(self).position());
                &&& r matches Some(n) && view_of(n) == JsonView::Number(
                    bytes_text(old(self).bytes(), old(self).position(), e),
                )
                &&& final(self).position() == e
            }),
            !number_ok(old(self).bytes(), old(self).position()) ==> r is None,
            r is Some ==> final(self).position() > old(self).position(),
    {
        proof {
            use_type_invariant(&*self);
        }
        let start = self.pos;
        let ghost s = self.bytes();
        if self.peek() == Some('-') {
            self.consume();
        }
        let p1 = self.pos;
        self.skip_digits();
        let mut mantissa = self.pos > p1;
        if self.peek() == Some('.') {
            self.consume();
            let p = self.pos;
            self.skip_digits();
            if self.pos > p {
                mantissa = true;
            }
        }
        let mut exponent = true;
        let c = self.peek();
        if c == Some('e') || c == Some('E') {
            self.consume();
            let d = self.peek();
            if d == Some('+') || d == Some('-') {
                self.consume();
            }
            let p = self.pos;
            self.skip_digits();
            exponent = self.pos > p;
        }
        if !(mantissa && exponent) {
            return None;
        }
        proof {
            use_type_invariant(&*self);
        }
        let mut text = String::new();
        let mut i: usize = start;
        while i < self.pos
            invariant
                self.bytes() == s,
                start <= i <= self.pos <= self.input@.len(),
                text@ == bytes_text(s, start as int, i as int),
            decreases self.pos - i,
        {
            push_char(&mut text, byte_to_char(self.input[i]));
            assert(s.subrange(start as int, i + 1) =~= s.subrange(start as int, i as int).push(s[i as int]));
            assert(bytes_text(s, start as int, i + 1) =~= bytes_text(s, start as int, i as int).push(
                byte_char(s[i as int]),
            ));
            i = i + 1;
        }
        Some(JsonNode::Number(text))
    }

    /// Reads the value at the position (see `value_spec`).
    pub fn parse_value(&mut self) -> (r: Option<JsonNode>)
        ensures
            final(self).bytes() == old(self).bytes(),
            match value_spec(old(self).bytes(), old(self).position()) {
                Some((v, e)) => r matches Some(n) && view_of(n) == v && final(self).position() == e,
                None => r is None,
            },
            r is Some ==> final(self).position() > old(self).position(),
        decreases old(self).bytes().len() - old(self).position(), 1int,
    {
        proof {
            use_type_invariant(&*self);
            lemma_skip_ws_bounds(self.bytes(), self.position());
        }
        let ghost s = self.bytes();
        let ghost p = self.position();
        self.skip_whitespace();
        let c = match self.peek() {
            Some(c) => c,
            None => return None,
        };
        if c == 'n' {
            if self.parse_literal(&[110u8, 117u8, 108u8, 108u8]) {
                Some(JsonNode::Null)
            } else {
                None
            }
        } else if c == 't' || c == 'f' {
            if self.parse_literal(&[116u8, 114u8, 117u8, 101u8]) {
                Some(JsonNode::Bool(true))
            } else if self.parse_literal(&[102u8, 97u8, 108u8, 115u8, 101u8]) {
                Some(JsonNode::Bool(false))
            } else {
                None
            }
        } else if c == '"' {
            match self.parse_string() {
                Some(t) => Some(JsonNode::Str(t)),
                None => None,
            }
        } else if c == '[' {
            self.parse_array()
        } else if c == '{' {
            self.parse_object()
        } else if c == '-' || ('0' <= c && c <= '9') {
            self.parse_number()
        } else {
            None
        }
    }

    fn parse_array(&mut self) -> (r: Option<JsonNode>)
        ensures
            final(self).bytes() == old(self).bytes(),
            match array_spec(old(self).bytes(), old(self).position()) {
                Some((v, e)) => r matches Some(n) && view_of(n) == v && final(self).position() == e,
                None => r is None,
            },
            r is Some ==> final(self).position() > old(self).position(),
        decreases old(self).bytes().len() - old(self).position(), 0int,
    {
        proof {
            use_type_invariant(&*self);
        }
        let ghost s = self.bytes();
        let ghost q = self.position();
        if self.consume().is_none() {
            return None;
        }
        self.skip_whitespace();
        let mut arr: Vec<JsonNode> = Vec::new();
        if self.peek() == Some(']') {
            self.consume();
            assert(views_of(arr@) =~= Seq::<JsonView>::empty());
            return Some(JsonNode::Array(arr));
        }
        assert(views_of(arr@) =~= Seq::<JsonView>::empty());
        loop
            invariant
                self.bytes() == s,
                s == old(self).bytes(),
                q == old(self).position(),
                0 <= q < s.len(),
                q < self.position() <= s.len(),
                array_spec(s, q) == elements_spec(s, self.position(), views_of(arr@)),
            decreases s.len() - self.position(),
        {
            let ghost p = self.position();
            let v = match self.parse_value() {
                Some(v) => v,
                None => return None,
            };
            proof {
                use_type_invariant(&*self);
                lemma_skip_ws_bounds(s, self.position());
            }
            let ghost prev = arr@;
            arr.push(v);
            assert(arr@.drop_last() =~= prev);
            self.skip_whitespace();
            match self.consume() {
                Some(c) => {
                    if c == ']' {
                        return Some(JsonNode::Array(arr));
                    } else if c != ',' {
                        return None;
                    }
                },
                None => {
                    return None;
                },
            }
        }
    }

    fn parse_object(&mut self) -> (r: Option<JsonNode>)
        ensures
            final(self).bytes() == old(self).bytes(),
            match object_spec(old(self).bytes(), old(self).position()) {
                Some((v, e)) => r matches Some(n) && view_of(n) == v && final(self).position() == e,
                None => r is None,
            },
            r is Some ==> final(self).position() > old(self).position(),
        decreases old(self).bytes().len() - old(self).position(), 0int,
    {
        proof {
            use_type_invariant(&*self);
        }
        let ghost s = self.bytes();
        let ghost q = self.position();
        if self.consume().is_none() {
            return None;
        }
        self.skip_whitespace();
        let mut members: Vec<(String, JsonNode)> = Vec::new();
        if self.peek() == Some('}') {
            self.consume();
            assert(entry_views(members@) =~= Seq::<(Seq<char>, JsonView)>::empty());
            return Some(JsonNode::Object(members));
        }
        assert(entry_views(members@) =~= Seq::<(Seq<char>, JsonView)>::empty());
        loop
            invariant
                self.bytes() == s,
                s == old(self).bytes(),
                q == old(self).position(),
                0 <= q < s.len(),
                q < self.position() <= s.len(),
                object_spec(s, q) == members_spec(s, self.position(), entry_views(members@)),
            decreases s.len() - self.position(),
        {
            let ghost p = self.position();
            proof {
                lemma_skip_ws_bounds(s, p);
            }
            self.skip_whitespace();
            let key = match self.parse_string() {
                Some(k) => k,
                None => return None,
            };
            proof {
                use_type_invariant(&*self);
                lemma_skip_ws_bounds(s, self.position());
            }
            self.skip_whitespace();
            match self.consume() {
                Some(c) => {
                    if c != ':' {
                        return None;
                    }
                },
                None => {
                    return None;
                },
            }
            let v = match self.parse_value() {
                Some(v) => v,
                None => return None,
            };
            proof {
                use_type_invariant(&*self);
                lemma_skip_ws_bounds(s, self.position());
            }
            insert_into(&mut members, key, v);
            self.skip_whitespace();
            match self.consume() {
                Some(c) => {
                    if c == '}' {
                        return Some(JsonNode::Object(members));
                    } else if c != ',' {
                        return None;
                    }
                },
                None => {
                    return None;
                },
            }
        }
    }
}

impl JsonNode {
    /// Parses a JSON text (see `parse_spec`).
    pub fn parse(input: &str) -> (r: Option<JsonNode>)
        ensures
            match parse_spec(input@) {
                Some(v) => r matches Some(n) && view_of(n) == v,
                None => r is None,
            },
    {
        let t = trim(input);
        let mut parser = Parser::new(t.as_str());
        parser.parse_value()
    }
}


// ---------------------------------------------------------------------------
// Reading and changing values
// ---------------------------------------------------------------------------

/// The value stored under `k` among the members `es`, if any.
pub open spec fn member_value(es: Seq<(Seq<char>, JsonView)>, k: Seq<char>) -> Option<JsonView> {
    match member_index(es, k) {
        Some(i) => Some(es[i].1),
        None => None,
    }
}

/// The member of an object named `key`: none for other values.
pub open spec fn object_item_spec(v: JsonView, key: Seq<char>) -> Option<JsonView> {
    match v {
        JsonView::Object(es) => member_value(es, key),
        _ => None,
    }
}

proof fn lemma_member_index_found(es: Seq<(Seq<char>, JsonView)>, k: Seq<char>)
    ensures
        match member_index(es, k) {
            Some(i) => 0 <= i < es.len() && es[i].0 == k && forall|j: int|
                0 <= j < i ==> #[trigger] es[j].0 != k,
            None => forall|j: int| 0 <= j < es.len() ==> #[trigger] es[j].0 != k,
        },
    decreases es.len(),
{
    if es.len() > 0 {
        lemma_member_index_found(es.drop_last(), k);
        assert forall|j: int| 0 <= j < es.len() - 1 implies #[trigger] es[j] == es.drop_last()[j] by {}
    }
}

/// After storing `v` under `k`, `k` reads back `v`, and every other key reads back what it
/// read before.
pub proof fn law_member_after_insert(
    es: Seq<(Seq<char>, JsonView)>,
    k: Seq<char>,
    v: JsonView,
    other: Seq<char>,
)
    ensures
        member_value(insert_member(es, k, v), k) == Some(v),
        other != k ==> member_value(insert_member(es, k, v), other) == member_value(es, other),
{
    let es2 = insert_member(es, k, v);
    lemma_member_index_found(es, k);
    lemma_member_index_found(es2, k);
    lemma_member_index_found(es, other);
    lemma_member_index_found(es2, other);
    match member_index(es, k) {
        Some(i) => {
            assert(es2[i].0 == k);
            match member_index(es2, k) {
                Some(j) => {
                    if j < i {
                        assert(es2[j] == es[j]);
                    } else if j > i {
                        assert(es2[i].0 == k);
                    }
                },
                None => {
                    assert(es2[i].0 == k);
                },
            }
        },
        None => {
            assert(es2[es.len() as int].0 == k);
            match member_index(es2, k) {
                Some(j) => {
                    if j < es.len() {
                        assert(es2[j] == es[j]);
                    }
                },
                None => {
                    assert(es2[es.len() as int].0 == k);
                },
            }
        },
    }
    if other != k {
        match member_index(es, other) {
            Some(i) => {
                match member_index(es2, other) {
                    Some(j) => {
                        if j < i {
                            assert(es2[j] == es[j]);
                        } else if j > i {
                            assert(es2[i] == es[i]);
                        }
                    },
                    None => {
                        assert(es2[i] == es[i]);
                    },
                }
            },
            None => {
                match member_index(es2, other) {
                    Some(j) => {
                        if j < es.len() {
                            assert(es2[j] == es[j]);
                        }
                    },
                    None => {},
                }
            },
        }
    }
}

impl JsonNode {
    /// The member named `key` of an object; none for other values.
    pub fn get_object_item(&self, key: &str) -> (r: Option<&JsonNode>)
        ensures
            match object_item_spec(view_of(*self), key@) {
                Some(v) => r matches Some(n) && view_of(*n) == v,
                None => r is None,
            },
    {
        match self {
            JsonNode::Object(o) => {
                let ghost ev = entry_views(o@);
                proof {
                    lemma_entry_views_len(o@);
                    lemma_member_index_found(ev, key@);
                }
                let mut i: usize = 0;
                while i < o.len()
                    invariant
                        i <= o@.len(),
                        *self == JsonNode::Object(*o),
                        ev == entry_views(o@),
                        ev.len() == o@.len(),
                        forall|j: int| 0 <= j < i ==> #[trigger] ev[j].0 != key@,
                        match member_index(ev, key@) {
                            Some(m) => 0 <= m < ev.len() && ev[m].0 == key@ && forall|j: int|
                                0 <= j < m ==> #[trigger] ev[j].0 != key@,
                            None => forall|j: int| 0 <= j < ev.len() ==> #[trigger] ev[j].0 != key@,
                        },
                    decreases o@.len() - i,
                {
                    proof {
                        lemma_entry_views_index(o@, i as int);
                    }
                    if str_eq(o[i].0.as_str(), key) {
                        assert(ev[i as int].0 == key@);
                        proof {
                            match member_index(ev, key@) {
                                Some(m) => {
                                    if m < i {
                                        assert(ev[m].0 != key@);
                                    } else if m > i {
                                        assert(ev[i as int].0 != key@);
                                    }
                                },
                                None => {
                                    assert(ev[i as int].0 != key@);
                                },
                            }
                        }
                        assert(member_index(ev, key@) == Some(i as int));
                        return Some(&o[i].1);
                    }
                    i = i + 1;
                }
                None
            },
            _ => None,
        }
    }

    /// Whether an object has a member named `key`.
    pub fn has_object_item(&self, key: &str) -> (r: bool)
        ensures
            r == (object_item_spec(view_of(*self), key@) is Some),
    {
        self.get_object_item(key).is_some()
    }

    /// Element `index` of an array; none for other values or past the
    /// end.
    pub fn get_array_item(&self, index: usize) -> (r: Option<&JsonNode>)
        ensures
            match view_of(*self) {
                JsonView::Array(vs) => if index < vs.len() {
                    r matches Some(n) && view_of(*n) == vs[index as int]
                } else {
                    r is None
                },
                _ => r is None,
            },
    {
        match self {
            JsonNode::Array(a) => {
                proof {
                    lemma_views_of_len(a@);
                }
                if index < a.len() {
                    proof {
                        lemma_views_of_index(a@, index as int);
                    }
                    Some(&a[index])
                } else {
                    None
                }
            },
            _ => None,
        }
    }

    /// The number of elements of an array or members of an object; 0
    /// for other values.
    pub fn get_array_size(&self) -> (r: usize)
        ensures
            r == match view_of(*self) {
                JsonView::Array(vs) => vs.len(),
                JsonView::Object(es) => es.len(),
                _ => 0,
            },
    {
        match self {
            JsonNode::Array(a) => {
                proof {
                    lemma_views_of_len(a@);
                }
                a.len()
            },
            JsonNode::Object(o) => {
                proof {
                    lemma_entry_views_len(o@);
                }
                o.len()
            },
            _ => 0,
        }
    }

    /// Whether the value is `null`.
    pub fn is_null(&self) -> (r: bool)
        ensures
            r == (view_of(*self) == JsonView::Null),
    {
        match self {
            JsonNode::Null => true,
            _ => false,
        }
    }

    /// The value of a boolean.
    pub fn as_bool(&self) -> (r: Option<bool>)
        ensures
            r == match view_of(*self) {
                JsonView::Bool(b) => Some(b),
                _ => None::<bool>,
            },
    {
        match self {
            JsonNode::Bool(b) => Some(*b),
            _ => None,
        }
    }

    /// The text of a string.
    pub fn as_str(&self) -> (r: Option<&str>)
        ensures
            match view_of(*self) {
                JsonView::Str(s) => r matches Some(t) && t@ == s,
                _ => r is None,
            },
    {
        match self {
            JsonNode::Str(s) => Some(s.as_str()),
            _ => None,
        }
    }

    /// The text of a number.
    pub fn number_text(&self) -> (r: Option<&str>)
        ensures
            match view_of(*self) {
                JsonView::Number(t) => r matches Some(x) && x@ == t,
                _ => r is None,
            },
    {
        match self {
            JsonNode::Number(t) => Some(t.as_str()),
            _ => None,
        }
    }

    /// Appends `item` to an array; other values are left as they are.
    pub fn array_push(&mut self, item: JsonNode)
        ensures
            view_of(*final(self)) == match view_of(*old(self)) {
                JsonView::Array(vs) => JsonView::Array(vs.push(view_of(item))),
                v => v,
            },
    {
        match self {
            JsonNode::Array(a) => {
                let ghost prev = a@;
                a.push(item);
                assert(a@.drop_last() =~= prev);
            },
            _ => {},
        }
    }

    /// Stores `value` under `key` in an object (see `insert_member`); other values are left
    /// as they are.
    pub fn object_insert(&mut self, key: &str, value: JsonNode)
        ensures
            view_of(*final(self)) == match view_of(*old(self)) {
                JsonView::Object(es) => JsonView::Object(insert_member(es, key@, view_of(value))),
                v => v,
            },
    {
        match self {
            JsonNode::Object(o) => {
                insert_into(o, copy_str(key), value);
            },
            _ => {},
        }
    }

    /// Gives the value up: dropping it frees it.
    pub fn delete(self) {
    }
}

// ---------------------------------------------------------------------------
// Reading back an escaped string
// ---------------------------------------------------------------------------

/// Whether the bytes of `s` from `p` on, each read as a character, spell `w`.
pub open spec fn spells(s: Seq<u8>, p: int, w: Seq<char>) -> bool {
    &&& 0 <= p
    &&& p + w.len() <= s.len()
    &&& forall|i: int| 0 <= i < w.len() ==> byte_char(#[trigger] s[p + i]) == w[i]
}

proof fn lemma_escape_spec_concat(a: Seq<char>, b: Seq<char>)
    ensures
        escape_spec(a + b) == escape_spec(a) + escape_spec(b),
    decreases b.len(),
{
    if b.len() == 0 {
        assert(a + b =~= a);
        assert(escape_spec(a) + escape_spec(b) =~= escape_spec(a));
    } else {
        lemma_escape_spec_concat(a, b.drop_last());
        assert((a + b).drop_last() =~= a + b.drop_last());
        assert((a + b).last() == b.last());
        assert(escape_spec(a) + escape_spec(b) =~= escape_spec(a) + escape_spec(b.drop_last())
            + escape_char(b.last()));
    }
}

proof fn lemma_hex_digit_value(d: nat)
    requires
        d < 16,
    ensures
        hex_value(hex_digit(d)) == Some(d),
        '0' <= hex_digit(d) <= 'f',
{
}

proof fn lemma_escape_char_ascii(c: char)
    requires
        '\0' <= c <= '\x7f',
    ensures
        is_ascii_chars(escape_char(c)),
        escape_char(c).len() >= 1,
{
    if (c as u32) < 0x20 && c != '\n' && c != '\r' && c != '\t' {
        lemma_hex_digit_value((c as u32 / 16) as nat);
        lemma_hex_digit_value((c as u32 % 16) as nat);
    }
}

/// Reading the escape of one ASCII character gives the character back and moves past the
/// escape.
proof fn lemma_read_escaped_char(s: Seq<u8>, p: int, c: char, acc: Seq<char>)
    requires
        '\0' <= c <= '\x7f',
        spells(s, p, escape_char(c)),
    ensures
        string_body(s, p, acc) == string_body(s, p + escape_char(c).len(), acc.push(c)),
{
    let e = escape_char(c);
    assert(byte_char(s[p + 0]) == e[0]);
    if c == '"' || c == '\\' || c == '\n' || c == '\r' || c == '\t' {
        assert(byte_char(s[p + 1]) == e[1]);
    } else if (c as u32) < 0x20 {
        let v = c as u32;
        let h1 = (v / 16) as nat;
        let h2 = (v % 16) as nat;
        lemma_hex_digit_value(h1);
        lemma_hex_digit_value(h2);
        assert(byte_char(s[p + 1]) == e[1]);
        assert(byte_char(s[p + 2]) == e[2]);
        assert(byte_char(s[p + 3]) == e[3]);
        assert(byte_char(s[p + 4]) == e[4]);
        assert(byte_char(s[p + 5]) == e[5]);
        let d = bytes_text(s, p + 2, p + 6);
        assert(d =~= seq!['0', '0', hex_digit(h1), hex_digit(h2)]);
        assert(crate::text::without_plus(d) == d);
        assert(all_hex(d));
        assert(d.drop_last().drop_last().drop_last().drop_last() =~= Seq::<char>::empty());
        reveal_with_fuel(hex_digits_value, 5);
        assert(hex_digits_value(d) == h1 * 16 + h2);
        assert(hex_digits_value(d) == v);
        assert(is_scalar(v));
        assert((v as u32) as char == c);
    }
}

/// Whether no character of `t` is one of the noncharacters U+FFFE, U+FFFF, which `utf8_read`
/// reads as U+FFFD.
pub open spec fn no_nonchars(t: Seq<char>) -> bool {
    forall|i: int| 0 <= i < t.len() ==> #[trigger] t[i] != '\u{FFFE}' && t[i] != '\u{FFFF}'
}

/// The first byte of the UTF-8 encoding of a nonempty string is not a continuation byte.
proof fn lemma_encode_first_not_cont(u: Seq<char>)
    requires
        u.len() > 0,
    ensures
        encode_utf8(u).len() > 0,
        !crate::utf::is_cont(encode_utf8(u)[0]),
{
    char_is_scalar(u[0]);
    crate::utf::lemma_scalar_lead_not_cont(u[0] as u32);
    assert(encode_utf8(u) =~= encode_scalar(u[0] as u32) + encode_utf8(u.drop_first()));
}

/// Reading the UTF-8 bytes of one escaped character gives the character back and moves past
/// them.
proof fn lemma_read_escaped_one(pre: Seq<u8>, c: char, more: Seq<u8>, acc: Seq<char>)
    requires
        c != '\u{FFFE}',
        c != '\u{FFFF}',
        more.len() > 0,
        !crate::utf::is_cont(more[0]),
    ensures
        ({
            let e = encode_utf8(escape_char(c));
            let s = pre + e + more;
            string_body(s, pre.len() as int, acc) == string_body(
                s,
                (pre.len() + e.len()) as int,
                acc.push(c),
            )
        }),
{
    let e = encode_utf8(escape_char(c));
    let s = pre + e + more;
    let p = pre.len() as int;
    if '\0' <= c <= '\x7f' {
        lemma_escape_char_ascii(c);
        is_ascii_chars_encode_utf8(escape_char(c));
        let w = escape_char(c);
        assert(spells(s, p, w)) by {
            assert forall|i: int| 0 <= i < w.len() implies byte_char(#[trigger] s[p + i]) == w[i] by {
                assert(s[p + i] == e[i]);
                assert(e[i] == w[i] as u8);
            }
        }
        lemma_read_escaped_char(s, p, c, acc);
    } else {
        assert(escape_char(c) == seq![c]);
        char_is_scalar(c);
        assert(e =~= encode_scalar(c as u32) + encode_utf8(seq![c].drop_first()));
        assert(encode_utf8(seq![c].drop_first()) =~= Seq::<u8>::empty());
        crate::utf::law_read_encoded_char(c, more);
        assert(e + more =~= encode_utf8(seq![c]) + more);
        assert(s =~= pre + (e + more));
        crate::utf::lemma_read_shift(pre, e + more);
        assert(s[p] == e[0]);
        assert((c as u32) >= 0x80);
        assert(e[0] >= 0x80) by {
            assert(encode_scalar(c as u32)[0] >= 0xC0) by {
                let v = c as u32;
                if v <= 0x7FF {
                    assert(leading_byte_width_2(v) >= 0xC0) by (bit_vector)
                        requires
                            0x80 <= v <= 0x7FF,
                    ;
                } else if v <= 0xFFFF {
                    assert(leading_byte_width_3(v) >= 0xC0) by (bit_vector)
                        requires
                            0x800 <= v <= 0xFFFF,
                    ;
                } else {
                    assert(leading_byte_width_4(v) >= 0xC0) by (bit_vector)
                        requires
                            0x10000 <= v <= 0x10FFFF,
                    ;
                }
            }
        }
    }
}

/// The escape of a string, closed by a quote, reads back as the string.
proof fn lemma_read_escaped(pre: Seq<u8>, t: Seq<char>, rest: Seq<u8>, acc: Seq<char>)
    requires
        no_nonchars(t),
    ensures
        string_body(
            pre + encode_utf8(escape_spec(t).push('"')) + rest,
            pre.len() as int,
            acc,
        ) == Some((acc + t, (pre.len() + encode_utf8(escape_spec(t)).len() + 1) as int)),
    decreases t.len(),
{
    let q = seq!['"'];
    assert(encode_utf8(q) =~= encode_scalar('"' as u32) + encode_utf8(q.drop_first()));
    assert(encode_utf8(q.drop_first()) =~= Seq::<u8>::empty());
    assert(escape_spec(t).push('"') =~= escape_spec(t) + q);
    lemma_encode_utf8_concat(escape_spec(t), q);
    if t.len() == 0 {
        assert(escape_spec(t) =~= Seq::<char>::empty());
        let s = pre + encode_utf8(escape_spec(t).push('"')) + rest;
        assert(s[pre.len() as int] == encode_utf8(q)[0]);
        assert(('"' as u32) == 34);
        assert(leading_byte_width_1(34u32) == 34u8) by (bit_vector);
        assert(encode_utf8(q)[0] == 34u8);
        assert(byte_char(34u8) == '"');
        assert(acc + t =~= acc);
    } else {
        let c = t[0];
        let tl = t.drop_first();
        assert(t =~= seq![c] + tl);
        lemma_escape_spec_concat(seq![c], tl);
        assert(escape_spec(seq![c]) =~= escape_char(c)) by {
            assert(seq![c].drop_last() =~= Seq::<char>::empty());
            assert(seq![c].last() == c);
            assert(escape_spec(Seq::<char>::empty()) =~= Seq::<char>::empty());
            assert(Seq::<char>::empty() + escape_char(c) =~= escape_char(c));
        }
        assert(no_nonchars(tl)) by {
            assert forall|i: int| 0 <= i < tl.len() implies #[trigger] tl[i] != '\u{FFFE}' && tl[i]
                != '\u{FFFF}' by {
                assert(tl[i] == t[i + 1]);
            }
        }
        assert(c == t[0]);
        let e = encode_utf8(escape_char(c));
        let r = encode_utf8(escape_spec(tl).push('"'));
        assert(escape_spec(t).push('"') =~= escape_char(c) + escape_spec(tl).push('"'));
        lemma_encode_utf8_concat(escape_char(c), escape_spec(tl).push('"'));
        lemma_encode_utf8_concat(escape_char(c), escape_spec(tl));
        lemma_encode_first_not_cont(escape_spec(tl).push('"'));
        let more = r + rest;
        assert(more[0] == r[0]);
        lemma_read_escaped_one(pre, c, more, acc);
        let s = pre + encode_utf8(escape_spec(t).push('"')) + rest;
        assert(s =~= pre + e + more);
        assert(s =~= (pre + e) + r + rest);
        lemma_read_escaped(pre + e, tl, rest, acc.push(c));
        assert(escape_spec(t) == escape_char(c) + escape_spec(tl));
        assert(encode_utf8(escape_spec(t)).len() == e.len() + encode_utf8(escape_spec(tl)).len());
        assert(acc.push(c) + tl =~= acc + t);
    }
}

/// A string without the noncharacters U+FFFE, U+FFFF, written by `escape_string` between
/// double quotes and followed by any bytes, reads back through `Parser::parse_string` as the
/// same string, and the reader stops just after the closing quote.
pub proof fn law_escaped_string_reads_back(t: Seq<char>, rest: Seq<u8>)
    requires
        no_nonchars(t),
    ensures
        ({
            let w = seq!['"'] + escape_spec(t) + seq!['"'];
            string_spec(encode_utf8(w) + rest, 0) == Some((t, encode_utf8(w).len() as int))
        }),
{
    let w = seq!['"'] + escape_spec(t) + seq!['"'];
    let q = seq!['"'];
    assert(w =~= q + escape_spec(t).push('"'));
    lemma_encode_utf8_concat(q, escape_spec(t).push('"'));
    assert(encode_utf8(q) =~= encode_scalar('"' as u32) + encode_utf8(q.drop_first()));
    assert(encode_utf8(q.drop_first()) =~= Seq::<u8>::empty());
    lemma_read_escaped(encode_utf8(q), t, rest, Seq::empty());
    assert(escape_spec(t).push('"') =~= escape_spec(t) + seq!['"']);
    lemma_encode_utf8_concat(escape_spec(t), seq!['"']);
    assert(encode_utf8(w) + rest =~= encode_utf8(q) + encode_utf8(escape_spec(t).push('"')) + rest);
    assert(Seq::<char>::empty() + t =~= t);
}

/// A whitespace byte (tab, line feed, vertical tab, form feed, carriage return or space) is
/// passed over: skipping whitespace from it ends where skipping from the next byte ends, and
/// the value read from it is the value read from the next byte. So whitespace between tokens,
/// line breaks included, never changes what is parsed.
pub proof fn law_whitespace_is_skipped(s: Seq<u8>, p: int)
    requires
        0 <= p < s.len(),
        s[p] == 9 || s[p] == 10 || s[p] == 11 || s[p] == 12 || s[p] == 13 || s[p] == 32,
    ensures
        skip_ws_spec(s, p) == skip_ws_spec(s, p + 1),
        skip_ws_spec(s, p) > p,
        value_spec(s, p) == value_spec(s, p + 1),
{
    assert(ws_byte(s[p])) by {
        let b = s[p];
        assert(b == 9 ==> (b as u32) as char == '\t');
        assert(b == 10 ==> (b as u32) as char == '\n');
        assert(b == 11 ==> (b as u32) as char == '\x0B');
        assert(b == 12 ==> (b as u32) as char == '\x0C');
        assert(b == 13 ==> (b as u32) as char == '\r');
        assert(b == 32 ==> (b as u32) as char == ' ');
    }
    lemma_skip_ws_bounds(s, p + 1);
}

} // verus!
