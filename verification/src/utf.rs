//! UTF-8 and UTF-16 reading, counting and conversion.
//!
//! Byte strings are modelled by their sequences of bytes, text by its sequence of `char`s.
use vstd::prelude::*;
use vstd::utf8::*;

verus! {

/// The replacement character U+FFFD.
pub open spec fn replacement() -> char {
    '\u{FFFD}'
}

/// Whether `b` is a UTF-8 continuation byte (`b & 0xC0 == 0x80`).
pub open spec fn is_cont(b: u8) -> bool {
    0x80 <= b <= 0xBF
}

/// The payload bits of a lead byte `>= 0xC0`, before its continuation bytes are added.
pub open spec fn lead_bits(lead: u8) -> u32 {
    if lead <= 0xDF {
        (lead - 0xC0) as u32
    } else if lead <= 0xEF {
        (lead - 0xE0) as u32
    } else if lead <= 0xF7 {
        (lead - 0xF0) as u32
    } else if lead <= 0xFB {
        (lead - 0xF8) as u32
    } else if lead <= 0xFD {
        (lead - 0xFC) as u32
    } else {
        0
    }
}

/// The number of consecutive continuation bytes of `b` starting at index `p`.
pub open spec fn cont_run(b: Seq<u8>, p: int) -> nat
    decreases b.len() - p,
{
    if 0 <= p < b.len() && is_cont(b[p]) {
        1 + cont_run(b, p + 1)
    } else {
        0
    }
}

/// The number of consecutive continuation bytes of `b` starting at `p`, stopping at `limit`.
pub open spec fn cont_run_upto(b: Seq<u8>, p: int, limit: int) -> nat
    decreases limit - p,
{
    if 0 <= p < limit && p < b.len() && is_cont(b[p]) {
        1 + cont_run_upto(b, p + 1, limit)
    } else {
        0
    }
}

/// Shifts the payload bits of `n` continuation bytes `b[p..p + n]` into `c` (32-bit arithmetic,
/// high bits falling off).
pub open spec fn accumulate(c: u32, b: Seq<u8>, p: int, n: nat) -> u32
    decreases n,
{
    if n == 0 {
        c
    } else {
        accumulate(((c << 6u32) | ((b[p] & 0x3Fu8) as u32)) as u32, b, p + 1, (n - 1) as nat)
    }
}

/// Whether the decoded value `c` is refused: overlong, surrogate, U+FFFE/U+FFFF, or not a
/// Unicode scalar at all.
pub open spec fn rejected(c: u32) -> bool {
    c < 0x80 || (c & 0xFFFF_F800u32) == 0xD800u32 || (c & 0xFFFF_FFFEu32) == 0xFFFEu32
        || !is_scalar(c)
}

/// The character read at `b[p]` and the index just past it.
pub open spec fn read_spec(b: Seq<u8>, p: int) -> (char, int) {
    let lead = b[p];
    if lead < 0x80 {
        (lead as char, p + 1)
    } else if lead < 0xC0 {
        (replacement(), p + 1)
    } else {
        let n = cont_run(b, p + 1);
        let c = accumulate(lead_bits(lead), b, p + 1, n);
        (if rejected(c) {
            replacement()
        } else {
            c as char
        }, p + 1 + n as int)
    }
}

/// `char::from_u32`: the character with scalar value `v`, if `v` is a Unicode scalar value.
#[verifier::external_body]
pub(crate) fn char_from_u32(v: u32) -> (r: Option<char>)
    ensures
        r == (if is_scalar(v) {
            Some(v as char)
        } else {
            None
        }),
{
    char::from_u32(v)
}

fn lead_bits_exec(lead: u8) -> (r: u32)
    requires
        lead >= 0xC0,
    ensures
        r == lead_bits(lead),
{
    if lead <= 0xDF {
        (lead - 0xC0) as u32
    } else if lead <= 0xEF {
        (lead - 0xE0) as u32
    } else if lead <= 0xF7 {
        (lead - 0xF0) as u32
    } else if lead <= 0xFB {
        (lead - 0xF8) as u32
    } else if lead <= 0xFD {
        (lead - 0xFC) as u32
    } else {
        0
    }
}

proof fn lemma_cont_run_step(b: Seq<u8>, p: int)
    requires
        0 <= p < b.len(),
        is_cont(b[p]),
    ensures
        cont_run(b, p) == 1 + cont_run(b, p + 1),
{
}

proof fn lemma_accumulate_step(c: u32, b: Seq<u8>, p: int, n: nat)
    ensures
        accumulate(c, b, p, n + 1) == accumulate(
            ((c << 6u32) | ((b[p] & 0x3Fu8) as u32)) as u32,
            b,
            p + 1,
            n,
        ),
{
}

/// Folds the continuation run starting at `start` into `c`; returns the value and the index
/// just past the run.
fn read_run(bytes: &[u8], start: usize, c0: u32) -> (r: (u32, usize))
    requires
        start <= bytes@.len(),
    ensures
        r.1 == start + cont_run(bytes@, start as int),
        r.0 == accumulate(c0, bytes@, start as int, cont_run(bytes@, start as int)),
{
    let mut c = c0;
    let mut pos = start;
    while pos < bytes.len() && bytes[pos] >= 0x80 && bytes[pos] < 0xC0
        invariant
            start <= pos <= bytes@.len(),
            cont_run(bytes@, start as int) == (pos - start) + cont_run(bytes@, pos as int),
            accumulate(c0, bytes@, start as int, cont_run(bytes@, start as int)) == accumulate(
                c,
                bytes@,
                pos as int,
                cont_run(bytes@, pos as int),
            ),
        decreases bytes@.len() - pos,
    {
        proof {
            lemma_cont_run_step(bytes@, pos as int);
            lemma_accumulate_step(c, bytes@, pos as int, cont_run(bytes@, pos + 1));
        }
        c = (c << 6) | ((bytes[pos] & 0x3F) as u32);
        pos = pos + 1;
    }
    (c, pos)
}

fn rejected_exec(c: u32) -> (r: bool)
    ensures
        r == rejected(c),
{
    if c < 0x80 || (c & 0xFFFF_F800) == 0xD800 || (c & 0xFFFF_FFFE) == 0xFFFE {
        true
    } else {
        match char_from_u32(c) {
            Some(_) => false,
            None => true,
        }
    }
}

/// Reads one UTF-8 character from `bytes` at `*pos` and advances `*pos` past it.
/// A lead byte is followed by however many continuation bytes come after
/// it; invalid, overlong, surrogate and U+FFFE/U+FFFF encodings give U+FFFD. At or past the end
/// it gives U+FFFD and leaves `*pos` alone.
pub fn utf8_read(bytes: &[u8], pos: &mut usize) -> (c: char)
    ensures
        *old(pos) >= bytes@.len() ==> c == replacement() && *final(pos) == *old(pos),
        *old(pos) < bytes@.len() ==> (c, *final(pos) as int) == read_spec(
            bytes@,
            *old(pos) as int,
        ),
{
    if *pos >= bytes.len() {
        return '\u{FFFD}';
    }
    let lead = bytes[*pos];
    *pos = *pos + 1;
    if lead < 0x80 {
        return lead as char;
    }
    if lead < 0xC0 {
        return '\u{FFFD}';
    }
    let (c, next) = read_run(bytes, *pos, lead_bits_exec(lead));
    *pos = next;
    if rejected_exec(c) {
        '\u{FFFD}'
    } else {
        match char_from_u32(c) {
            Some(ch) => ch,
            None => '\u{FFFD}',
        }
    }
}

/// The character read from the first `min(n, len, 4)` bytes of `bytes` and how many bytes it
/// used.
pub open spec fn read_limited_spec(b: Seq<u8>, n: int) -> (char, int) {
    let m = if n < b.len() {
        n
    } else {
        b.len() as int
    };
    let m = if m < 4 {
        m
    } else {
        4
    };
    if m <= 0 {
        (replacement(), 0)
    } else if b[0] < 0x80 {
        (b[0] as char, 1)
    } else if b[0] < 0xC0 {
        (replacement(), 1)
    } else {
        let k = cont_run_upto(b, 1, m);
        let c = accumulate(lead_bits(b[0]), b, 1, k);
        (if is_scalar(c) {
            c as char
        } else {
            replacement()
        }, 1 + k as int)
    }
}

proof fn lemma_cont_run_upto_step(b: Seq<u8>, p: int, limit: int)
    requires
        0 <= p < limit,
        p < b.len(),
        is_cont(b[p]),
    ensures
        cont_run_upto(b, p, limit) == 1 + cont_run_upto(b, p + 1, limit),
{
}

/// Reads one UTF-8 character from at most `n` (and at most four) bytes of `bytes`; returns it
/// with the number of bytes it used.
pub fn utf8_read_limited(bytes: &[u8], n: usize) -> (r: (char, usize))
    ensures
        (r.0, r.1 as int) == read_limited_spec(bytes@, n as int),
{
    let m = if n < bytes.len() {
        n
    } else {
        bytes.len()
    };
    let m = if m < 4 {
        m
    } else {
        4
    };
    if m == 0 {
        return ('\u{FFFD}', 0);
    }
    let lead = bytes[0];
    if lead < 0x80 {
        return (lead as char, 1);
    }
    if lead < 0xC0 {
        return ('\u{FFFD}', 1);
    }
    let mut c = lead_bits_exec(lead);
    let mut i: usize = 1;
    while i < m && bytes[i] >= 0x80 && bytes[i] < 0xC0
        invariant
            1 <= i <= m <= 4,
            m <= bytes@.len(),
            cont_run_upto(bytes@, 1, m as int) == (i - 1) + cont_run_upto(
                bytes@,
                i as int,
                m as int,
            ),
            accumulate(lead_bits(lead), bytes@, 1, cont_run_upto(bytes@, 1, m as int))
                == accumulate(c, bytes@, i as int, cont_run_upto(bytes@, i as int, m as int)),
        decreases m - i,
    {
        proof {
            lemma_cont_run_upto_step(bytes@, i as int, m as int);
            lemma_accumulate_step(c, bytes@, i as int, cont_run_upto(bytes@, i + 1, m as int));
        }
        c = (c << 6) | ((bytes[i] & 0x3F) as u32);
        i = i + 1;
    }
    let ch = match char_from_u32(c) {
        Some(ch) => ch,
        None => '\u{FFFD}',
    };
    (ch, i)
}

/// The index just past the character that starts at `b[p]`: after a lead byte of 0xC0 or more,
/// the continuation bytes that follow it are skipped too.
pub open spec fn skip_spec(b: Seq<u8>, p: int) -> int {
    if b[p] >= 0xC0 {
        p + 1 + cont_run(b, p + 1)
    } else {
        p + 1
    }
}

/// Advances `*pos` past one UTF-8 character: the byte at `*pos`, and when that byte is a lead
/// byte (0xC0 or more), the continuation bytes that follow it. At or past the end nothing
/// changes.
pub fn skip_utf8(bytes: &[u8], pos: &mut usize)
    ensures
        *old(pos) >= bytes@.len() ==> *final(pos) == *old(pos),
        *old(pos) < bytes@.len() ==> *final(pos) == skip_spec(bytes@, *old(pos) as int),
{
    if *pos >= bytes.len() {
        return ;
    }
    let lead = bytes[*pos];
    *pos = *pos + 1;
    if lead >= 0xC0 {
        let (_, next) = read_run(bytes, *pos, 0);
        *pos = next;
    }
}

/// Whether byte `i` of `b` is a continuation byte that `skip_utf8` passes over as part of the
/// character before it: it follows a lead byte (0xC0 or more), or another such byte.
pub open spec fn in_tail(b: Seq<u8>, i: int) -> bool
    decreases i,
{
    if 0 < i < b.len() && is_cont(b[i]) {
        b[i - 1] >= 0xC0 || in_tail(b, i - 1)
    } else {
        false
    }
}

/// Whether a character starts at index `i` of `b` when `b` is read from its start one
/// `skip_utf8` at a time: every byte but one passed over as a continuation.
pub open spec fn starts_char(b: Seq<u8>, i: int) -> bool {
    !in_tail(b, i)
}

/// The number of characters that start in `b`.
pub open spec fn char_count(b: Seq<u8>) -> nat
    decreases b.len(),
{
    if b.len() == 0 {
        0
    } else {
        char_count(b.drop_last()) + if starts_char(b, b.len() - 1) {
            1nat
        } else {
            0nat
        }
    }
}

/// Whether a byte is passed over depends only on the bytes up to it.
proof fn lemma_in_tail_prefix(b: Seq<u8>, n: int, i: int)
    requires
        0 <= i < n <= b.len(),
    ensures
        in_tail(b.take(n), i) == in_tail(b, i),
    decreases i,
{
    if i > 0 {
        lemma_in_tail_prefix(b, n, i - 1);
    }
}

/// The index of the first zero byte of `b`, or its length.
pub open spec fn nul_index(b: Seq<u8>) -> int
    decreases b.len(),
{
    if b.len() == 0 {
        0
    } else if nul_index(b.drop_last()) < b.len() - 1 {
        nul_index(b.drop_last())
    } else if b.last() == 0 {
        b.len() - 1
    } else {
        b.len() as int
    }
}

proof fn lemma_nul_index_bounds(b: Seq<u8>)
    ensures
        0 <= nul_index(b) <= b.len(),
        nul_index(b) < b.len() ==> b[nul_index(b)] == 0,
        forall|j: int| 0 <= j < nul_index(b) ==> b[j] != 0,
    decreases b.len(),
{
    if b.len() > 0 {
        lemma_nul_index_bounds(b.drop_last());
        assert forall|j: int| 0 <= j < nul_index(b) implies b[j] != 0 by {
            if j < b.len() - 1 {
                assert(b.drop_last()[j] == b[j]);
            }
        }
    }
}

/// The number of characters in the first `n_byte` bytes of `bytes` (all of them when
/// `n_byte` is `None`), stopping at the first zero byte.
pub open spec fn char_len_spec(b: Seq<u8>, n_byte: Option<usize>) -> nat {
    let limit = match n_byte {
        Some(n) => if n < b.len() {
            n as int
        } else {
            b.len() as int
        },
        None => b.len() as int,
    };
    char_count(b.take(nul_index(b.take(limit))))
}

/// Counts the characters in the first `n_byte` bytes of `bytes` (all of them for `None`),
/// stopping at the first zero byte.
pub fn utf8_char_len(bytes: &[u8], n_byte: Option<usize>) -> (count: usize)
    ensures
        count == char_len_spec(bytes@, n_byte),
{
    let limit = match n_byte {
        Some(n) => if n < bytes.len() {
            n
        } else {
            bytes.len()
        },
        None => bytes.len(),
    };
    let mut end: usize = 0;
    while end < limit && bytes[end] != 0
        invariant
            end <= limit <= bytes@.len(),
            forall|j: int| 0 <= j < end ==> bytes@[j] != 0,
        decreases limit - end,
    {
        end = end + 1;
    }
    proof {
        let t = bytes@.take(limit as int);
        lemma_nul_index_bounds(t);
        if nul_index(t) < end {
            assert(t[nul_index(t)] == 0);
        }
        if end < nul_index(t) {
            assert(t[end as int] != 0);
        }
        assert(nul_index(t) == end);
        assert(bytes@.take(nul_index(t)) =~= bytes@.take(end as int));
    }
    let mut count: usize = 0;
    let mut i: usize = 0;
    let mut tail = false;
    while i < end
        invariant
            end <= bytes@.len(),
            i <= end,
            count == char_count(bytes@.take(i as int)),
            count <= i,
            i > 0 ==> tail == in_tail(bytes@, i - 1),
        decreases end - i,
    {
        let ghost prev = bytes@.take(i as int);
        assert(bytes@.take(i + 1).drop_last() =~= prev);
        let b = bytes[i];
        let now = i > 0 && b >= 0x80 && b < 0xC0 && (bytes[i - 1] >= 0xC0 || tail);
        proof {
            lemma_in_tail_prefix(bytes@, i + 1, i as int);
        }
        assert(now == in_tail(bytes@, i as int));
        if !now {
            count = count + 1;
        }
        tail = now;
        i = i + 1;
    }
    count
}

/// Appends the UTF-8 encoding of `c` to `out` (`WRITE_UTF8`).
pub fn encode_utf8_into(out: &mut Vec<u8>, c: char)
    ensures
        final(out)@ == old(out)@ + encode_utf8(seq![c]),
{
    let v = c as u32;
    proof {
        char_is_scalar(c);
        assert(encode_utf8(seq![c]) =~= encode_scalar(v) + encode_utf8(seq![c].drop_first()));
        assert(encode_utf8(seq![c].drop_first()) =~= Seq::<u8>::empty());
    }
    let ghost enc = encode_scalar(v);
    if v <= 0x7F {
        out.push((v & 0x7F) as u8);
    } else if v <= 0x7FF {
        out.push(0xC0 | ((v >> 6) & 0x1F) as u8);
        out.push(0x80 | (v & 0x3F) as u8);
    } else if v <= 0xFFFF {
        out.push(0xE0 | ((v >> 12) & 0x0F) as u8);
        out.push(0x80 | ((v >> 6) & 0x3F) as u8);
        out.push(0x80 | (v & 0x3F) as u8);
    } else {
        out.push(0xF0 | ((v >> 18) & 0x7) as u8);
        out.push(0x80 | ((v >> 12) & 0x3F) as u8);
        out.push(0x80 | ((v >> 6) & 0x3F) as u8);
        out.push(0x80 | (v & 0x3F) as u8);
    }
    assert(out@ =~= old(out)@ + enc);
}


// ---------------------------------------------------------------------------
// UTF-16
// ---------------------------------------------------------------------------

/// The value of the little-endian 16-bit unit made of `lo` and `hi`.
pub open spec fn unit_from(lo: u8, hi: u8) -> u16 {
    (lo as int + 256 * hi as int) as u16
}

/// The 16-bit units of `b` read little-endian, two bytes each (a trailing odd byte is ignored).
pub open spec fn units_le(b: Seq<u8>) -> Seq<u16> {
    Seq::new(b.len() / 2, |i: int| unit_from(b[2 * i], b[2 * i + 1]))
}

/// The 16-bit units of `b` read big-endian, two bytes each (a trailing odd byte is ignored).
pub open spec fn units_be(b: Seq<u8>) -> Seq<u16> {
    Seq::new(b.len() / 2, |i: int| unit_from(b[2 * i + 1], b[2 * i]))
}

/// The index of the first zero unit of `u`, or its length.
pub open spec fn zero_unit_index(u: Seq<u16>) -> int
    decreases u.len(),
{
    if u.len() == 0 {
        0
    } else if zero_unit_index(u.drop_last()) < u.len() - 1 {
        zero_unit_index(u.drop_last())
    } else if u.last() == 0 {
        u.len() - 1
    } else {
        u.len() as int
    }
}

proof fn lemma_zero_unit_index(u: Seq<u16>)
    ensures
        0 <= zero_unit_index(u) <= u.len(),
        zero_unit_index(u) < u.len() ==> u[zero_unit_index(u)] == 0,
        forall|j: int| 0 <= j < zero_unit_index(u) ==> u[j] != 0,
    decreases u.len(),
{
    if u.len() > 0 {
        lemma_zero_unit_index(u.drop_last());
        assert forall|j: int| 0 <= j < zero_unit_index(u) implies u[j] != 0 by {
            if j < u.len() - 1 {
                assert(u.drop_last()[j] == u[j]);
            }
        }
    }
}

/// Whether `x` is a high (leading) surrogate.
pub open spec fn is_high_surrogate(x: u16) -> bool {
    0xD800 <= x <= 0xDBFF
}

/// Whether `x` is a low (trailing) surrogate.
pub open spec fn is_low_surrogate(x: u16) -> bool {
    0xDC00 <= x <= 0xDFFF
}

/// The scalar value of the surrogate pair `hi`, `lo`.
pub open spec fn pair_value(hi: u16, lo: u16) -> u32 {
    (0x10000 + (hi as int - 0xD800) * 1024 + (lo as int - 0xDC00)) as u32
}

/// Lossy UTF-16 decoding (what `String::from_utf16_lossy` gives): a high surrogate followed by
/// a low one is a supplementary character, any other surrogate is U+FFFD.
pub open spec fn decode_utf16_lossy(u: Seq<u16>) -> Seq<char>
    decreases u.len(),
{
    if u.len() == 0 {
        Seq::<char>::empty()
    } else if u.len() >= 2 && is_high_surrogate(u[0]) && is_low_surrogate(u[1]) {
        seq![pair_value(u[0], u[1]) as char] + decode_utf16_lossy(u.skip(2))
    } else if 0xD800 <= u[0] <= 0xDFFF {
        seq![replacement()] + decode_utf16_lossy(u.drop_first())
    } else {
        seq![u[0] as u32 as char] + decode_utf16_lossy(u.drop_first())
    }
}

/// The UTF-16 units of one character.
pub open spec fn encode_char_utf16(c: char) -> Seq<u16> {
    let v = c as u32;
    if v <= 0xFFFF {
        seq![v as u16]
    } else {
        seq![(0xD800 + (v - 0x10000) / 1024) as u16, (0xDC00 + (v - 0x10000) % 1024) as u16]
    }
}

/// The UTF-16 encoding of `s` (what `str::encode_utf16` yields).
pub open spec fn encode_utf16(s: Seq<char>) -> Seq<u16>
    decreases s.len(),
{
    if s.len() == 0 {
        Seq::<u16>::empty()
    } else {
        encode_char_utf16(s[0]) + encode_utf16(s.drop_first())
    }
}

/// The bytes of the units `u`, each little-endian.
pub open spec fn bytes_le(u: Seq<u16>) -> Seq<u8> {
    Seq::new(
        2 * u.len(),
        |i: int|
            if i % 2 == 0 {
                (u[i / 2] % 256) as u8
            } else {
                (u[i / 2] / 256) as u8
            },
    )
}

/// The bytes of the units `u`, each big-endian.
pub open spec fn bytes_be(u: Seq<u16>) -> Seq<u8> {
    Seq::new(
        2 * u.len(),
        |i: int|
            if i % 2 == 0 {
                (u[i / 2] / 256) as u8
            } else {
                (u[i / 2] % 256) as u8
            },
    )
}

/// Decodes the units `u` up to the first zero unit into a string.
fn decode_units(u: &Vec<u16>) -> (s: String)
    ensures
        s@ == decode_utf16_lossy(u@.take(zero_unit_index(u@))),
{
    proof {
        lemma_zero_unit_index(u@);
    }
    let mut end: usize = 0;
    while end < u.len() && u[end] != 0
        invariant
            end <= u@.len(),
            forall|j: int| 0 <= j < end ==> u@[j] != 0,
        decreases u@.len() - end,
    {
        end = end + 1;
    }
    proof {
        let z = zero_unit_index(u@);
        if z < end {
            assert(u@[z] == 0);
        }
        if end < z {
            assert(u@[end as int] != 0);
        }
    }
    let ghost w = u@.take(end as int);
    let mut s = String::new();
    let mut i: usize = 0;
    assert(w.skip(0) =~= w);
    assert(s@ + decode_utf16_lossy(w) =~= decode_utf16_lossy(w));
    while i < end
        invariant
            end <= u@.len(),
            w == u@.take(end as int),
            i <= end,
            s@ + decode_utf16_lossy(w.skip(i as int)) == decode_utf16_lossy(w),
        decreases end - i,
    {
        let ghost rest = w.skip(i as int);
        let ghost old_s = s@;
        let x = u[i];
        assert(rest[0] == x);
        if x >= 0xD800 && x <= 0xDBFF && i + 1 < end && u[i + 1] >= 0xDC00 && u[i + 1] <= 0xDFFF {
            let y = u[i + 1];
            assert(rest[1] == y);
            let v: u32 = 0x10000 + ((x - 0xD800) as u32) * 1024 + ((y - 0xDC00) as u32);
            let ch = match char_from_u32(v) {
                Some(ch) => ch,
                None => '\u{FFFD}',
            };
            proof {
                assert(is_scalar(v));
            }
            crate::text::push_char(&mut s, ch);
            assert(rest.skip(2) =~= w.skip(i + 2));
            assert(s@ + decode_utf16_lossy(w.skip(i + 2)) =~= old_s + decode_utf16_lossy(rest));
            i = i + 2;
        } else {
            let ch = if x >= 0xD800 && x <= 0xDFFF {
                '\u{FFFD}'
            } else {
                match char_from_u32(x as u32) {
                    Some(ch) => ch,
                    None => '\u{FFFD}',
                }
            };
            crate::text::push_char(&mut s, ch);
            assert(rest.drop_first() =~= w.skip(i + 1));
            assert(s@ + decode_utf16_lossy(w.skip(i + 1)) =~= old_s + decode_utf16_lossy(rest));
            i = i + 1;
        }
    }
    assert(w.skip(end as int) =~= Seq::<u16>::empty());
    assert(s@ =~= s@ + decode_utf16_lossy(Seq::<u16>::empty()));
    s
}

/// Converts UTF-16LE bytes to a string: the bytes are read two at a time as little-endian units
/// (a trailing odd byte is ignored) up to the first zero unit, then decoded with U+FFFD for
/// unpaired surrogates.
pub fn utf16le_to_string(bytes: &[u8]) -> (s: String)
    ensures
        s@ == decode_utf16_lossy(units_le(bytes@).take(zero_unit_index(units_le(bytes@)))),
{
    let mut u: Vec<u16> = Vec::new();
    let mut i: usize = 0;
    let n = bytes.len() / 2;
    while i < n
        invariant
            n == bytes@.len() / 2,
            bytes@.len() == bytes.len(),
            i <= n,
            u@ =~= units_le(bytes@).take(i as int),
        decreases n - i,
    {
        let unit = (bytes[2 * i] as u16) + 256 * (bytes[2 * i + 1] as u16);
        u.push(unit);
        i = i + 1;
    }
    assert(units_le(bytes@).take(n as int) =~= units_le(bytes@));
    decode_units(&u)
}

/// Converts UTF-16BE bytes to a string, as [`utf16le_to_string`] does for little-endian units.
pub fn utf16be_to_string(bytes: &[u8]) -> (s: String)
    ensures
        s@ == decode_utf16_lossy(units_be(bytes@).take(zero_unit_index(units_be(bytes@)))),
{
    let mut u: Vec<u16> = Vec::new();
    let mut i: usize = 0;
    let n = bytes.len() / 2;
    while i < n
        invariant
            n == bytes@.len() / 2,
            bytes@.len() == bytes.len(),
            i <= n,
            u@ =~= units_be(bytes@).take(i as int),
        decreases n - i,
    {
        let unit = (bytes[2 * i + 1] as u16) + 256 * (bytes[2 * i] as u16);
        u.push(unit);
        i = i + 1;
    }
    assert(units_be(bytes@).take(n as int) =~= units_be(bytes@));
    decode_units(&u)
}

/// The UTF-16 units of `s`.
fn encode_units(s: &str) -> (u: Vec<u16>)
    ensures
        u@ == encode_utf16(s@),
{
    let cs = crate::text::chars_of(s);
    let mut u: Vec<u16> = Vec::new();
    assert(cs@.skip(0) =~= cs@);
    let mut k: usize = 0;
    while k < cs.len()
        invariant
            cs@ == s@,
            k <= cs@.len(),
            encode_utf16(cs@) == u@ + encode_utf16(cs@.skip(k as int)),
        decreases cs@.len() - k,
    {
        let ghost rest = cs@.skip(k as int);
        assert(rest.drop_first() =~= cs@.skip(k + 1));
        let c = cs[k];
        let v = c as u32;
        proof {
            vstd::utf8::char_is_scalar(c);
        }
        let ghost old_u = u@;
        if v <= 0xFFFF {
            u.push(v as u16);
        } else {
            let w = v - 0x10000;
            u.push((0xD800 + w / 1024) as u16);
            u.push((0xDC00 + w % 1024) as u16);
        }
        assert(u@ =~= old_u + encode_char_utf16(c));
        assert(u@ + encode_utf16(cs@.skip(k + 1)) =~= old_u + encode_utf16(rest));
        k = k + 1;
    }
    assert(cs@.skip(cs@.len() as int) =~= Seq::<char>::empty());
    assert(u@ + Seq::<u16>::empty() =~= u@);
    u
}

/// Converts a string to UTF-16LE bytes.
pub fn utf8_to_utf16le(s: &str) -> (b: Vec<u8>)
    ensures
        b@ == bytes_le(encode_utf16(s@)),
{
    let u = encode_units(s);
    let mut b: Vec<u8> = Vec::new();
    let mut i: usize = 0;
    while i < u.len()
        invariant
            i <= u@.len(),
            b@ =~= bytes_le(u@).take(2 * i),
        decreases u@.len() - i,
    {
        b.push((u[i] % 256) as u8);
        b.push((u[i] / 256) as u8);
        i = i + 1;
    }
    assert(bytes_le(u@).take(2 * u@.len() as int) =~= bytes_le(u@));
    b
}

/// Converts a string to UTF-16BE bytes.
pub fn utf8_to_utf16be(s: &str) -> (b: Vec<u8>)
    ensures
        b@ == bytes_be(encode_utf16(s@)),
{
    let u = encode_units(s);
    let mut b: Vec<u8> = Vec::new();
    let mut i: usize = 0;
    while i < u.len()
        invariant
            i <= u@.len(),
            b@ =~= bytes_be(u@).take(2 * i),
        decreases u@.len() - i,
    {
        b.push((u[i] / 256) as u8);
        b.push((u[i] % 256) as u8);
        i = i + 1;
    }
    assert(bytes_be(u@).take(2 * u@.len() as int) =~= bytes_be(u@));
    b
}


/// The byte length of up to `left` UTF-16LE characters of `b` starting at `pos`: each step takes
/// one unit, and one more when the first is a high surrogate and another whole unit follows.
pub open spec fn utf16_len_counted(b: Seq<u8>, pos: int, left: nat) -> int
    decreases left,
{
    if pos + 1 < b.len() && left > 0 {
        let unit = unit_from(b[pos], b[pos + 1]);
        let next = if is_high_surrogate(unit) && pos + 3 < b.len() {
            pos + 4
        } else {
            pos + 2
        };
        utf16_len_counted(b, next, (left - 1) as nat)
    } else {
        pos
    }
}

/// The byte length of the UTF-16 text of `b` from `pos` through its first zero unit (two zero
/// bytes at an even offset), or to the end of `b`.
pub open spec fn utf16_len_terminated(b: Seq<u8>, pos: int) -> int
    decreases b.len() - pos,
{
    if 0 <= pos && pos + 1 < b.len() {
        if b[pos] == 0 && b[pos + 1] == 0 {
            pos + 2
        } else {
            utf16_len_terminated(b, pos + 2)
        }
    } else {
        b.len() as int
    }
}

/// The byte length of a UTF-16LE string: with `Some(n)`, of its first
/// `n` characters (a surrogate pair counting as one); with `None`, up to and including the first
/// zero unit, or all of `bytes` when there is none.
pub fn utf16_byte_len(bytes: &[u8], n_char: Option<usize>) -> (len: usize)
    ensures
        len == match n_char {
            Some(n) => utf16_len_counted(bytes@, 0, n as nat),
            None => utf16_len_terminated(bytes@, 0),
        },
{
    match n_char {
        Some(n) => {
            let mut pos: usize = 0;
            let mut chars: usize = 0;
            while pos < bytes.len() && bytes.len() - pos >= 2 && chars < n
                invariant
                    pos <= bytes@.len(),
                    bytes@.len() == bytes.len(),
                    chars <= n,
                    utf16_len_counted(bytes@, 0, n as nat) == utf16_len_counted(
                        bytes@,
                        pos as int,
                        (n - chars) as nat,
                    ),
                decreases n - chars,
            {
                let unit: u16 = (bytes[pos] as u16) + 256 * (bytes[pos + 1] as u16);
                pos = pos + 2;
                if unit >= 0xD800 && unit <= 0xDBFF && pos < bytes.len() && bytes.len() - pos >= 2 {
                    pos = pos + 2;
                }
                chars = chars + 1;
            }
            pos
        },
        None => {
            let mut pos: usize = 0;
            while pos < bytes.len() && bytes.len() - pos >= 2
                invariant
                    pos <= bytes@.len(),
                    bytes@.len() == bytes.len(),
                    n_char is None,
                    utf16_len_terminated(bytes@, 0) == utf16_len_terminated(bytes@, pos as int),
                decreases bytes@.len() - pos,
            {
                if bytes[pos] == 0 && bytes[pos + 1] == 0 {
                    assert(utf16_len_terminated(bytes@, pos as int) == pos + 2);
                    return pos + 2;
                }
                pos = pos + 2;
            }
            bytes.len()
        },
    }
}

// ---------------------------------------------------------------------------
// Laws
// ---------------------------------------------------------------------------

proof fn lemma_units_le_of_bytes_le(u: Seq<u16>)
    ensures
        units_le(bytes_le(u)) =~= u,
{
    assert forall|i: int| 0 <= i < u.len() implies #[trigger] units_le(bytes_le(u))[i] == u[i] by {
        let b = bytes_le(u);
        assert((2 * i) % 2 == 0);
        assert((2 * i + 1) % 2 == 1);
        assert((2 * i) / 2 == i);
        assert((2 * i + 1) / 2 == i);
        assert(b[2 * i] == (u[i] % 256) as u8);
        assert(b[2 * i + 1] == (u[i] / 256) as u8);
    }
}

proof fn lemma_units_be_of_bytes_be(u: Seq<u16>)
    ensures
        units_be(bytes_be(u)) =~= u,
{
    assert forall|i: int| 0 <= i < u.len() implies #[trigger] units_be(bytes_be(u))[i] == u[i] by {
        let b = bytes_be(u);
        assert((2 * i) % 2 == 0);
        assert((2 * i + 1) % 2 == 1);
        assert((2 * i) / 2 == i);
        assert((2 * i + 1) / 2 == i);
        assert(b[2 * i] == (u[i] / 256) as u8);
        assert(b[2 * i + 1] == (u[i] % 256) as u8);
    }
}

proof fn lemma_encode_utf16_nonzero(s: Seq<char>)
    requires
        !s.contains('\0'),
    ensures
        forall|j: int| 0 <= j < encode_utf16(s).len() ==> encode_utf16(s)[j] != 0,
    decreases s.len(),
{
    if s.len() > 0 {
        assert(s[0] != '\0') by {
            assert(s.contains(s[0]));
        }
        assert(!s.drop_first().contains('\0')) by {
            if s.drop_first().contains('\0') {
                let k = choose|k: int| 0 <= k < s.drop_first().len() && s.drop_first()[k] == '\0';
                assert(s[k + 1] == '\0');
            }
        }
        lemma_encode_utf16_nonzero(s.drop_first());
        vstd::utf8::char_is_scalar(s[0]);
        let head = encode_char_utf16(s[0]);
        let tail = encode_utf16(s.drop_first());
        assert(encode_utf16(s) == head + tail);
        let v = s[0] as u32;
        vstd::utf8::char_u32_cast(s[0], v);
        assert(v != 0);
        assert forall|j: int| 0 <= j < head.len() implies head[j] != 0 by {}
        assert forall|j: int| 0 <= j < encode_utf16(s).len() implies encode_utf16(s)[j] != 0 by {
            if j < head.len() {
                assert(encode_utf16(s)[j] == head[j]);
            } else {
                assert(encode_utf16(s)[j] == tail[j - head.len()]);
            }
        }
    }
}

proof fn lemma_decode_encode_utf16(s: Seq<char>)
    ensures
        decode_utf16_lossy(encode_utf16(s)) =~= s,
    decreases s.len(),
{
    if s.len() > 0 {
        let c = s[0];
        let v = c as u32;
        vstd::utf8::char_is_scalar(c);
        lemma_decode_encode_utf16(s.drop_first());
        let head = encode_char_utf16(c);
        let tail = encode_utf16(s.drop_first());
        let u = head + tail;
        assert(encode_utf16(s) == u);
        if v <= 0xFFFF {
            assert(!(0xD800 <= v <= 0xDFFF));
            assert(u[0] == v as u16);
            assert(u.drop_first() =~= tail);
            vstd::utf8::char_u32_cast(c, v);
            assert((u[0] as u32) == v);
        } else {
            let w = (v - 0x10000) as int;
            assert(0 <= w < 0x100000);
            assert(u[0] == (0xD800 + w / 1024) as u16);
            assert(u[1] == (0xDC00 + w % 1024) as u16);
            assert(u.skip(2) =~= tail);
            assert(pair_value(u[0], u[1]) == v) by (nonlinear_arith)
                requires
                    u[0] == (0xD800 + w / 1024) as u16,
                    u[1] == (0xDC00 + w % 1024) as u16,
                    w == (v - 0x10000) as int,
                    0 <= w < 0x100000,
                    pair_value(u[0], u[1]) == (0x10000 + (u[0] as int - 0xD800) * 1024 + (
                    u[1] as int - 0xDC00)) as u32,
            ;
            vstd::utf8::char_u32_cast(c, v);
        }
        assert(s =~= seq![c] + s.drop_first());
    }
}

proof fn lemma_encode_utf16_concat(a: Seq<char>, b: Seq<char>)
    ensures
        encode_utf16(a + b) == encode_utf16(a) + encode_utf16(b),
    decreases a.len(),
{
    if a.len() == 0 {
        assert(a + b =~= b);
        assert(encode_utf16(a) + encode_utf16(b) =~= encode_utf16(b));
    } else {
        assert((a + b).drop_first() =~= a.drop_first() + b);
        assert((a + b)[0] == a[0]);
        lemma_encode_utf16_concat(a.drop_first(), b);
        assert(encode_utf16(a) + encode_utf16(b) =~= encode_char_utf16(a[0]) + (encode_utf16(
            a.drop_first(),
        ) + encode_utf16(b)));
    }
}

/// The units of a string up to the first zero unit are those of its characters before its
/// first NUL, which decode back to those characters.
proof fn lemma_utf16_before_nul(s: Seq<char>)
    ensures
        decode_utf16_lossy(encode_utf16(s).take(zero_unit_index(encode_utf16(s)))) == s.take(
            nul_char_index(s),
        ),
{
    let m = nul_char_index(s);
    lemma_nul_char_index(s);
    let pre = s.take(m);
    assert(!pre.contains('\0')) by {
        if pre.contains('\0') {
            let k = choose|k: int| 0 <= k < pre.len() && pre[k] == '\0';
            assert(s[k] == '\0');
        }
    }
    lemma_encode_utf16_nonzero(pre);
    assert(s =~= pre + s.skip(m));
    lemma_encode_utf16_concat(pre, s.skip(m));
    let u = encode_utf16(s);
    let k = encode_utf16(pre).len() as int;
    lemma_zero_unit_index(u);
    assert forall|j: int| 0 <= j < k implies u[j] != 0 by {
        assert(u[j] == encode_utf16(pre)[j]);
    }
    if m < s.len() {
        let t = s.skip(m);
        assert(t[0] == '\0');
        vstd::utf8::char_u32_cast(t[0], t[0] as u32);
        assert(encode_utf16(t) == encode_char_utf16(t[0]) + encode_utf16(t.drop_first()));
        assert(u[k] == encode_utf16(t)[0]);
        assert(u[k] == 0);
        if zero_unit_index(u) > k {
            assert(u[k] != 0);
        }
    } else {
        assert(pre =~= s);
        if zero_unit_index(u) < k {
            assert(u[zero_unit_index(u)] == 0);
        }
    }
    assert(u.take(k) =~= encode_utf16(pre));
    lemma_decode_encode_utf16(pre);
}

/// Encoding a string as UTF-16LE and decoding the bytes gives back its characters before its
/// first NUL (all of them when it has none).
pub proof fn law_utf16le_roundtrip(s: Seq<char>)
    ensures
        decode_utf16_lossy(
            units_le(bytes_le(encode_utf16(s))).take(
                zero_unit_index(units_le(bytes_le(encode_utf16(s)))),
            ),
        ) == s.take(nul_char_index(s)),
{
    lemma_units_le_of_bytes_le(encode_utf16(s));
    lemma_utf16_before_nul(s);
}

/// Encoding a string as UTF-16BE and decoding the bytes gives back its characters before its
/// first NUL (all of them when it has none).
pub proof fn law_utf16be_roundtrip(s: Seq<char>)
    ensures
        decode_utf16_lossy(
            units_be(bytes_be(encode_utf16(s))).take(
                zero_unit_index(units_be(bytes_be(encode_utf16(s)))),
            ),
        ) == s.take(nul_char_index(s)),
{
    lemma_units_be_of_bytes_be(encode_utf16(s));
    lemma_utf16_before_nul(s);
}

/// From a byte that is not a stray continuation byte, `skip_utf8` advances to exactly where
/// `utf8_read` does.
pub proof fn law_skip_agrees_with_read(b: Seq<u8>, p: int)
    requires
        0 <= p < b.len(),
        !is_cont(b[p]),
    ensures
        skip_spec(b, p) == read_spec(b, p).1,
{
}


proof fn lemma_bits_width_2(v: u32)
    by (bit_vector)
    requires
        0x80 <= v <= 0x7FF,
    ensures
        0xC0 <= (0xC0u8 | ((v >> 6u32) & 0x1Fu32) as u8) <= 0xDF,
        ((0xC0u8 | ((v >> 6u32) & 0x1Fu32) as u8) - 0xC0u8) as u32 == (v >> 6u32) & 0x1Fu32,
        0x80 <= (0x80u8 | (v & 0x3Fu32) as u8) <= 0xBF,
        ((((v >> 6u32) & 0x1Fu32) << 6u32) | (((0x80u8 | (v & 0x3Fu32) as u8) & 0x3Fu8) as u32))
            == v,
        (v & 0xFFFF_F800u32) != 0xD800u32,
        (v & 0xFFFF_FFFEu32) != 0xFFFEu32,
{
}

proof fn lemma_bits_width_3(v: u32)
    by (bit_vector)
    requires
        0x800 <= v <= 0xFFFD,
        !(0xD800 <= v <= 0xDFFF),
    ensures
        0xE0 <= (0xE0u8 | ((v >> 12u32) & 0x0Fu32) as u8) <= 0xEF,
        ((0xE0u8 | ((v >> 12u32) & 0x0Fu32) as u8) - 0xE0u8) as u32 == (v >> 12u32) & 0x0Fu32,
        0x80 <= (0x80u8 | ((v >> 6u32) & 0x3Fu32) as u8) <= 0xBF,
        0x80 <= (0x80u8 | (v & 0x3Fu32) as u8) <= 0xBF,
        ((((((v >> 12u32) & 0x0Fu32) << 6u32) | (((0x80u8 | ((v >> 6u32) & 0x3Fu32) as u8)
            & 0x3Fu8) as u32)) << 6u32) | (((0x80u8 | (v & 0x3Fu32) as u8) & 0x3Fu8) as u32))
            == v,
        (v & 0xFFFF_F800u32) != 0xD800u32,
        (v & 0xFFFF_FFFEu32) != 0xFFFEu32,
{
}

proof fn lemma_bits_width_4(v: u32)
    by (bit_vector)
    requires
        0x10000 <= v <= 0x10FFFF,
    ensures
        0xF0 <= (0xF0u8 | ((v >> 18u32) & 0x7u32) as u8) <= 0xF7,
        ((0xF0u8 | ((v >> 18u32) & 0x7u32) as u8) - 0xF0u8) as u32 == (v >> 18u32) & 0x7u32,
        0x80 <= (0x80u8 | ((v >> 12u32) & 0x3Fu32) as u8) <= 0xBF,
        0x80 <= (0x80u8 | ((v >> 6u32) & 0x3Fu32) as u8) <= 0xBF,
        0x80 <= (0x80u8 | (v & 0x3Fu32) as u8) <= 0xBF,
        ((((((((v >> 18u32) & 0x7u32) << 6u32) | (((0x80u8 | ((v >> 12u32) & 0x3Fu32) as u8)
            & 0x3Fu8) as u32)) << 6u32) | (((0x80u8 | ((v >> 6u32) & 0x3Fu32) as u8) & 0x3Fu8)
            as u32)) << 6u32) | (((0x80u8 | (v & 0x3Fu32) as u8) & 0x3Fu8) as u32)) == v,
        (v & 0xFFFF_F800u32) != 0xD800u32,
        (v & 0xFFFF_FFFEu32) != 0xFFFEu32,
{
}

/// Reading the UTF-8 encoding of a character with `utf8_read` gives the character back and
/// moves past exactly its encoding, when the next byte (if any) is not a continuation byte and
/// the character is not one of the noncharacters U+FFFE, U+FFFF, which `utf8_read` reads as U+FFFD.
pub proof fn law_read_encoded_char(c: char, rest: Seq<u8>)
    requires
        c != '\u{FFFE}',
        c != '\u{FFFF}',
        rest.len() == 0 || !is_cont(rest[0]),
    ensures
        read_spec(encode_utf8(seq![c]) + rest, 0) == (c, encode_utf8(seq![c]).len() as int),
{
    let v = c as u32;
    vstd::utf8::char_is_scalar(c);
    vstd::utf8::char_u32_cast(c, v);
    assert(encode_utf8(seq![c]) =~= encode_scalar(v) + encode_utf8(seq![c].drop_first()));
    assert(encode_utf8(seq![c].drop_first()) =~= Seq::<u8>::empty());
    let e = encode_scalar(v);
    assert(encode_utf8(seq![c]) =~= e);
    let b = e + rest;
    if v <= 0x7F {
        assert(b[0] == (v & 0x7F) as u8);
        assert((v & 0x7F) == v) by (bit_vector)
            requires
                v <= 0x7F,
        ;
    } else if v <= 0x7FF {
        lemma_bits_width_2(v);
        assert(b[1] == e[1]);
        assert(cont_run(b, 2) == 0);
        assert(cont_run(b, 1) == 1);
        let c1 = ((lead_bits(b[0]) << 6u32) | ((b[1] & 0x3Fu8) as u32)) as u32;
        assert(accumulate(lead_bits(b[0]), b, 1, 1) == accumulate(c1, b, 2, 0));
    } else if v <= 0xFFFF {
        assert(v != 0xFFFE && v != 0xFFFF) by {
            if v == 0xFFFE {
                vstd::utf8::char_u32_cast('\u{FFFE}', v);
            }
            if v == 0xFFFF {
                vstd::utf8::char_u32_cast('\u{FFFF}', v);
            }
        }
        lemma_bits_width_3(v);
        assert(b[1] == e[1] && b[2] == e[2]);
        assert(cont_run(b, 3) == 0);
        assert(cont_run(b, 2) == 1);
        assert(cont_run(b, 1) == 2);
        let c1 = ((lead_bits(b[0]) << 6u32) | ((b[1] & 0x3Fu8) as u32)) as u32;
        let c2 = ((c1 << 6u32) | ((b[2] & 0x3Fu8) as u32)) as u32;
        assert(accumulate(lead_bits(b[0]), b, 1, 2) == accumulate(c1, b, 2, 1));
        assert(accumulate(c1, b, 2, 1) == accumulate(c2, b, 3, 0));
    } else {
        lemma_bits_width_4(v);
        assert(b[1] == e[1] && b[2] == e[2] && b[3] == e[3]);
        assert(cont_run(b, 4) == 0);
        assert(cont_run(b, 3) == 1);
        assert(cont_run(b, 2) == 2);
        assert(cont_run(b, 1) == 3);
        let c1 = ((lead_bits(b[0]) << 6u32) | ((b[1] & 0x3Fu8) as u32)) as u32;
        let c2 = ((c1 << 6u32) | ((b[2] & 0x3Fu8) as u32)) as u32;
        let c3 = ((c2 << 6u32) | ((b[3] & 0x3Fu8) as u32)) as u32;
        assert(accumulate(lead_bits(b[0]), b, 1, 3) == accumulate(c1, b, 2, 2));
        assert(accumulate(c1, b, 2, 2) == accumulate(c2, b, 3, 1));
        assert(accumulate(c2, b, 3, 1) == accumulate(c3, b, 4, 0));
    }
}

pub(crate) proof fn lemma_encode_utf8_concat(a: Seq<char>, b: Seq<char>)
    ensures
        encode_utf8(a + b) == encode_utf8(a) + encode_utf8(b),
    decreases a.len(),
{
    if a.len() == 0 {
        assert(a + b =~= b);
        assert(encode_utf8(a) + encode_utf8(b) =~= encode_utf8(b));
    } else {
        assert((a + b).drop_first() =~= a.drop_first() + b);
        assert((a + b)[0] == a[0]);
        lemma_encode_utf8_concat(a.drop_first(), b);
        assert(encode_utf8(a) + encode_utf8(b) =~= encode_scalar(a[0] as u32) + (encode_utf8(
            a.drop_first(),
        ) + encode_utf8(b)));
    }
}

proof fn lemma_cont_run_shift(pre: Seq<u8>, b: Seq<u8>, q: int)
    requires
        0 <= q <= b.len(),
    ensures
        cont_run(pre + b, pre.len() + q) == cont_run(b, q),
    decreases b.len() - q,
{
    if q < b.len() {
        assert((pre + b)[pre.len() + q] == b[q]);
        lemma_cont_run_shift(pre, b, q + 1);
    }
}

proof fn lemma_accumulate_shift(c: u32, pre: Seq<u8>, b: Seq<u8>, q: int, n: nat)
    requires
        0 <= q,
        q + n <= b.len(),
    ensures
        accumulate(c, pre + b, pre.len() + q, n) == accumulate(c, b, q, n),
    decreases n,
{
    if n > 0 {
        assert((pre + b)[pre.len() + q] == b[q]);
        lemma_accumulate_shift(((c << 6u32) | ((b[q] & 0x3Fu8) as u32)) as u32, pre, b, q + 1, (n - 1) as nat);
    }
}

pub proof fn lemma_cont_run_bound(b: Seq<u8>, q: int)
    requires
        0 <= q <= b.len(),
    ensures
        q + cont_run(b, q) <= b.len(),
    decreases b.len() - q,
{
    if q < b.len() {
        lemma_cont_run_bound(b, q + 1);
    }
}

/// `utf8_read` moves forward and stays within the bytes.
pub proof fn lemma_read_advances(b: Seq<u8>, p: int)
    requires
        0 <= p < b.len(),
    ensures
        p < read_spec(b, p).1 <= b.len(),
{
    lemma_cont_run_bound(b, p + 1);
}

/// What is read at the start of `b` is read the same after any bytes put before it.
pub(crate) proof fn lemma_read_shift(pre: Seq<u8>, b: Seq<u8>)
    requires
        b.len() > 0,
    ensures
        read_spec(pre + b, pre.len() as int) == (read_spec(b, 0).0, pre.len() + read_spec(b, 0).1),
{
    assert((pre + b)[pre.len() as int] == b[0]);
    lemma_cont_run_shift(pre, b, 1);
    lemma_cont_run_bound(b, 1);
    let lead = b[0];
    lemma_accumulate_shift(lead_bits(lead), pre, b, 1, cont_run(b, 1));
}

/// Reading the UTF-8 bytes of a string at the boundary before its character `k` gives that
/// character and moves past exactly its encoding, when it is not one of the noncharacters
/// U+FFFE, U+FFFF, which `utf8_read` reads as U+FFFD.
pub proof fn law_read_at_boundary(s: Seq<char>, k: int)
    requires
        0 <= k < s.len(),
        s[k] != '\u{FFFE}',
        s[k] != '\u{FFFF}',
    ensures
        ({
            let p = encode_utf8(s.take(k)).len() as int;
            read_spec(encode_utf8(s), p) == (s[k], p + encode_utf8(seq![s[k]]).len())
        }),
{
    let pre = encode_utf8(s.take(k));
    let c = s[k];
    let rest = encode_utf8(s.skip(k + 1));
    assert(s =~= s.take(k) + (seq![c] + s.skip(k + 1)));
    lemma_encode_utf8_concat(s.take(k), seq![c] + s.skip(k + 1));
    lemma_encode_utf8_concat(seq![c], s.skip(k + 1));
    let b = encode_utf8(seq![c]) + rest;
    assert(encode_utf8(s) == pre + b);
    assert(rest.len() == 0 || !is_cont(rest[0])) by {
        if rest.len() > 0 {
            let t = s.skip(k + 1);
            assert(t.len() > 0);
            assert(rest =~= encode_scalar(t[0] as u32) + encode_utf8(t.drop_first()));
            char_is_scalar(t[0]);
            lemma_scalar_lead_not_cont(t[0] as u32);
        }
    }
    law_read_encoded_char(c, rest);
    char_is_scalar(c);
    assert(encode_utf8(seq![c]) =~= encode_scalar(c as u32) + encode_utf8(seq![c].drop_first()));
    assert(b.len() > 0);
    lemma_read_shift(pre, b);
}

/// The first byte of a scalar's encoding is not a continuation byte.
pub(crate) proof fn lemma_scalar_lead_not_cont(v: u32)
    requires
        is_scalar(v),
    ensures
        !is_cont(encode_scalar(v)[0]),
{
    if v <= 0x7F {
        assert(leading_byte_width_1(v) < 0x80) by (bit_vector)
            requires
                v <= 0x7F,
        ;
    } else if v <= 0x7FF {
        assert(leading_byte_width_2(v) >= 0xC0) by (bit_vector)
            requires
                0x80 <= v <= 0x7FF,
        ;
    } else if v <= 0xFFFF {
        assert(leading_byte_width_3(v) >= 0xC0) by (bit_vector)
            requires
                0x800 <= v <= 0xFFFF,
        ;
    } else {
        assert(leading_byte_width_4(v) >= 0xC0) by (bit_vector)
            requires
                0x10000 <= v <= 0x10FFFF,
        ;
    }
}

/// The shape of the UTF-8 encoding of a scalar: one byte equal to the scalar below 0x80;
/// otherwise a lead byte of 0xC0 or more followed by continuation bytes.
proof fn lemma_scalar_shape(v: u32)
    requires
        is_scalar(v),
    ensures
        1 <= encode_scalar(v).len() <= 4,
        v <= 0x7F ==> encode_scalar(v).len() == 1 && encode_scalar(v)[0] as u32 == v,
        v > 0x7F ==> encode_scalar(v).len() > 1 && encode_scalar(v)[0] >= 0xC0,
        forall|j: int| 1 <= j < encode_scalar(v).len() ==> #[trigger] is_cont(encode_scalar(v)[j]),
{
    let e = encode_scalar(v);
    assert(last_continuation_byte(v) >= 0x80 && last_continuation_byte(v) <= 0xBF) by (bit_vector);
    assert(second_last_continuation_byte(v) >= 0x80 && second_last_continuation_byte(v) <= 0xBF)
        by (bit_vector);
    assert(third_last_continuation_byte(v) >= 0x80 && third_last_continuation_byte(v) <= 0xBF)
        by (bit_vector);
    if v <= 0x7F {
        assert(leading_byte_width_1(v) as u32 == v) by (bit_vector)
            requires
                v <= 0x7F,
        ;
    } else {
        lemma_scalar_lead_not_cont(v);
        if v <= 0x7FF {
            assert(leading_byte_width_2(v) >= 0xC0) by (bit_vector)
                requires
                    0x80 <= v <= 0x7FF,
            ;
        } else if v <= 0xFFFF {
            assert(leading_byte_width_3(v) >= 0xC0) by (bit_vector)
                requires
                    0x800 <= v <= 0xFFFF,
            ;
        } else {
            assert(leading_byte_width_4(v) >= 0xC0) by (bit_vector)
                requires
                    0x10000 <= v <= 0x10FFFF,
            ;
        }
    }
}

/// Counting one step further: the count of `b` grows by one exactly when a character starts at
/// its last byte.
proof fn lemma_char_count_step(b: Seq<u8>, n: int)
    requires
        0 <= n < b.len(),
    ensures
        char_count(b.take(n + 1)) == char_count(b.take(n)) + if in_tail(b, n) {
            0nat
        } else {
            1nat
        },
{
    assert(b.take(n + 1).drop_last() =~= b.take(n));
    lemma_in_tail_prefix(b, n + 1, n);
}

/// Appending the encoding of one scalar adds one character to the count.
proof fn lemma_char_count_append_scalar(a: Seq<u8>, v: u32)
    requires
        is_scalar(v),
    ensures
        char_count(a + encode_scalar(v)) == char_count(a) + 1,
{
    let e = encode_scalar(v);
    let x = a + e;
    let m = a.len() as int;
    lemma_scalar_shape(v);
    lemma_scalar_lead_not_cont(v);
    assert(x.take(m) =~= a);
    assert(x[m] == e[0]);
    lemma_char_count_step(x, m);
    assert(!in_tail(x, m));
    if e.len() > 1 {
        assert(x[m + 1] == e[1] && is_cont(e[1]));
        assert(in_tail(x, m + 1));
        lemma_char_count_step(x, m + 1);
    }
    if e.len() > 2 {
        assert(x[m + 2] == e[2] && is_cont(e[2]));
        assert(in_tail(x, m + 2));
        lemma_char_count_step(x, m + 2);
    }
    if e.len() > 3 {
        assert(x[m + 3] == e[3] && is_cont(e[3]));
        assert(in_tail(x, m + 3));
        lemma_char_count_step(x, m + 3);
    }
    assert(x.take(m + e.len()) =~= x);
}

/// The count of the UTF-8 encoding of a string is its number of characters.
proof fn lemma_char_count_encode(t: Seq<char>)
    ensures
        char_count(encode_utf8(t)) == t.len(),
    decreases t.len(),
{
    if t.len() > 0 {
        let c = t.last();
        lemma_char_count_encode(t.drop_last());
        assert(t =~= t.drop_last() + seq![c]);
        lemma_encode_utf8_concat(t.drop_last(), seq![c]);
        char_is_scalar(c);
        assert(encode_utf8(seq![c]) =~= encode_scalar(c as u32) + encode_utf8(seq![c].drop_first()));
        assert(encode_utf8(seq![c].drop_first()) =~= Seq::<u8>::empty());
        assert(encode_utf8(seq![c]) =~= encode_scalar(c as u32));
        lemma_char_count_append_scalar(encode_utf8(t.drop_last()), c as u32);
    }
}

/// The index of the first NUL character of `s`, or its length.
pub open spec fn nul_char_index(s: Seq<char>) -> int
    decreases s.len(),
{
    if s.len() == 0 {
        0
    } else if s[0] == '\0' {
        0
    } else {
        1 + nul_char_index(s.drop_first())
    }
}

proof fn lemma_nul_char_index(s: Seq<char>)
    ensures
        0 <= nul_char_index(s) <= s.len(),
        nul_char_index(s) < s.len() ==> s[nul_char_index(s)] == '\0',
        forall|j: int| 0 <= j < nul_char_index(s) ==> s[j] != '\0',
    decreases s.len(),
{
    if s.len() > 0 && s[0] != '\0' {
        lemma_nul_char_index(s.drop_first());
        assert forall|j: int| 0 <= j < nul_char_index(s) implies s[j] != '\0' by {
            if j > 0 {
                assert(s[j] == s.drop_first()[j - 1]);
            }
        }
    }
}

/// The encoding of a string without NUL has no zero byte.
proof fn lemma_encode_nonzero(t: Seq<char>)
    requires
        forall|j: int| 0 <= j < t.len() ==> t[j] != '\0',
    ensures
        forall|j: int| 0 <= j < encode_utf8(t).len() ==> encode_utf8(t)[j] != 0,
    decreases t.len(),
{
    if t.len() > 0 {
        let c = t[0];
        assert forall|j: int| 0 <= j < t.drop_first().len() implies t.drop_first()[j] != '\0' by {
            assert(t.drop_first()[j] == t[j + 1]);
        }
        lemma_encode_nonzero(t.drop_first());
        char_is_scalar(c);
        let v = c as u32;
        lemma_scalar_shape(v);
        assert(v != 0) by {
            if v == 0 {
                char_u32_cast('\0', v);
                char_u32_cast(c, v);
            }
        }
        let e = encode_scalar(v);
        assert forall|j: int| 0 <= j < encode_utf8(t).len() implies encode_utf8(t)[j] != 0 by {
            if j < e.len() {
                assert(encode_utf8(t)[j] == e[j]);
                if j >= 1 {
                    assert(is_cont(e[j]));
                }
            } else {
                assert(encode_utf8(t)[j] == encode_utf8(t.drop_first())[j - e.len()]);
            }
        }
    }
}

/// Where the first zero byte of the UTF-8 encoding of `s` lies: at the encoding of the
/// characters before its first NUL.
proof fn lemma_nul_index_encode(s: Seq<char>)
    ensures
        nul_index(encode_utf8(s)) == encode_utf8(s.take(nul_char_index(s))).len(),
{
    let m = nul_char_index(s);
    lemma_nul_char_index(s);
    let b = encode_utf8(s);
    let pre = s.take(m);
    assert forall|j: int| 0 <= j < pre.len() implies pre[j] != '\0' by {}
    lemma_encode_nonzero(pre);
    assert(s =~= pre + s.skip(m));
    lemma_encode_utf8_concat(pre, s.skip(m));
    let k = encode_utf8(pre).len() as int;
    lemma_nul_index_bounds(b);
    assert forall|j: int| 0 <= j < k implies b[j] != 0 by {
        assert(b[j] == encode_utf8(pre)[j]);
    }
    if m < s.len() {
        let t = s.skip(m);
        assert(t[0] == '\0');
        char_is_scalar(t[0]);
        char_u32_cast(t[0], t[0] as u32);
        lemma_scalar_shape(t[0] as u32);
        assert(encode_utf8(t) =~= encode_scalar(t[0] as u32) + encode_utf8(t.drop_first()));
        assert(b[k] == encode_utf8(t)[0]);
        assert(b[k] == 0);
        if nul_index(b) > k {
            assert(b[k] != 0);
        }
    } else {
        assert(pre =~= s);
        if nul_index(b) < k {
            assert(b[nul_index(b)] == 0);
        }
    }
}

/// Counting the characters of the UTF-8 bytes of a string (all of them, or a count of bytes
/// that reaches its end) gives the number of its characters before its first NUL.
pub proof fn law_char_len_of_string(s: Seq<char>, n_byte: Option<usize>)
    requires
        match n_byte {
            Some(n) => n >= encode_utf8(s).len(),
            None => true,
        },
    ensures
        char_len_spec(encode_utf8(s), n_byte) == nul_char_index(s),
{
    let b = encode_utf8(s);
    assert(b.take(b.len() as int) =~= b);
    lemma_nul_index_encode(s);
    lemma_nul_char_index(s);
    let m = nul_char_index(s);
    assert(s =~= s.take(m) + s.skip(m));
    lemma_encode_utf8_concat(s.take(m), s.skip(m));
    assert(b.take(encode_utf8(s.take(m)).len() as int) =~= encode_utf8(s.take(m)));
    lemma_char_count_encode(s.take(m));
}

/// Counting from the start of the units of the first `k` characters of `s`, with
/// `s.len() - k` characters left to count, reaches the end of all its units.
proof fn lemma_utf16_count_rest(s: Seq<char>, k: int)
    requires
        0 <= k <= s.len(),
    ensures
        utf16_len_counted(
            bytes_le(encode_utf16(s)),
            (2 * encode_utf16(s.take(k)).len()) as int,
            (s.len() - k) as nat,
        ) == 2 * encode_utf16(s).len(),
    decreases s.len() - k,
{
    let u = encode_utf16(s);
    let b = bytes_le(u);
    lemma_units_le_of_bytes_le(u);
    if k == s.len() {
        assert(s.take(k) =~= s);
    } else {
        let c = s[k];
        let pre = encode_utf16(s.take(k));
        let cu = encode_char_utf16(c);
        assert(s =~= s.take(k) + (seq![c] + s.skip(k + 1)));
        lemma_encode_utf16_concat(s.take(k), seq![c] + s.skip(k + 1));
        lemma_encode_utf16_concat(seq![c], s.skip(k + 1));
        assert(encode_utf16(seq![c]) =~= cu + encode_utf16(seq![c].drop_first()));
        assert(encode_utf16(seq![c].drop_first()) =~= Seq::<u16>::empty());
        assert(s.take(k + 1) =~= s.take(k) + seq![c]);
        lemma_encode_utf16_concat(s.take(k), seq![c]);
        assert(encode_utf16(s.take(k + 1)) =~= pre + cu);
        assert(u == pre + cu + encode_utf16(s.skip(k + 1)));
        let pos = (2 * pre.len()) as int;
        let idx = pre.len() as int;
        assert(units_le(b)[idx] == u[idx]);
        assert(u[idx] == cu[0]);
        assert(pos + 1 < b.len());
        assert(unit_from(b[pos], b[pos + 1]) == units_le(b)[idx]);
        let v = c as u32;
        vstd::utf8::char_is_scalar(c);
        if v <= 0xFFFF {
            assert(!(0xD800 <= v <= 0xDFFF));
            assert(cu[0] == v as u16);
            assert(!is_high_surrogate(cu[0]));
        } else {
            assert(v <= 0x10FFFF);
            assert((v - 0x10000) / 1024 <= 0x3FF);
            assert(is_high_surrogate(cu[0]));
            assert(pos + 3 < b.len());
        }
        lemma_utf16_count_rest(s, k + 1);
    }
}

/// Asking for the byte length of as many characters as a string has, in its UTF-16LE bytes,
/// gives the length of all its bytes: every character counts once, and a character above
/// U+FFFF, written as a surrogate pair, counts as one character of four bytes.
pub proof fn law_utf16_len_of_all_chars(s: Seq<char>)
    ensures
        utf16_len_counted(bytes_le(encode_utf16(s)), 0, s.len()) == bytes_le(encode_utf16(s)).len(),
{
    assert(s.take(0) =~= Seq::<char>::empty());
    assert(encode_utf16(s.take(0)) =~= Seq::<u16>::empty());
    lemma_utf16_count_rest(s, 0);
}

proof fn lemma_utf16_terminated_from(u: Seq<u16>, i: int)
    requires
        0 <= i <= u.len(),
        forall|j: int| 0 <= j < u.len() ==> u[j] != 0,
    ensures
        utf16_len_terminated(bytes_le(u), 2 * i) == bytes_le(u).len(),
    decreases u.len() - i,
{
    let b = bytes_le(u);
    lemma_units_le_of_bytes_le(u);
    if i < u.len() {
        assert(units_le(b)[i] == u[i]);
        assert(unit_from(b[2 * i], b[2 * i + 1]) == u[i]);
        assert(!(b[2 * i] == 0 && b[2 * i + 1] == 0));
        lemma_utf16_terminated_from(u, i + 1);
    }
}

/// Without a character count, the byte length of the UTF-16LE bytes of a string without NUL
/// is the length of all of them.
pub proof fn law_utf16_len_without_nul(s: Seq<char>)
    requires
        !s.contains('\0'),
    ensures
        utf16_len_terminated(bytes_le(encode_utf16(s)), 0) == bytes_le(encode_utf16(s)).len(),
{
    lemma_encode_utf16_nonzero(s);
    lemma_utf16_terminated_from(encode_utf16(s), 0);
}

} // verus!
