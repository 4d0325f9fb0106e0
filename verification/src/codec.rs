//! Byte-level encoding helpers: big- and little-endian integers, byte
//! copies, and unsigned integer parsing in radix 10 and 16 (the textual
//! grammar of `u8::from_str` / `u16::from_str_radix`).
use vstd::prelude::*;
use vstd::string::StringExecFns;

verus! {

/// Big-endian encoding of a 16-bit value.
pub open spec fn be16(v: u16) -> Seq<u8> {
    seq![(v / 256) as u8, (v % 256) as u8]
}

/// Big-endian encoding of a 32-bit value.
pub open spec fn be32(v: u32) -> Seq<u8> {
    seq![
        (v / 0x1000000) as u8,
        ((v / 0x10000) % 256) as u8,
        ((v / 0x100) % 256) as u8,
        (v % 256) as u8,
    ]
}

/// The 16-bit big-endian value stored at `s[i..i+2]`.
pub open spec fn be16_at(s: Seq<u8>, i: int) -> u16 {
    (s[i] * 256 + s[i + 1]) as u16
}

/// The 32-bit big-endian value stored at `s[i..i+4]`.
pub open spec fn be32_at(s: Seq<u8>, i: int) -> u32 {
    (s[i] * 0x1000000 + s[i + 1] * 0x10000 + s[i + 2] * 0x100 + s[i + 3]) as u32
}

/// The 16-bit little-endian value stored at `s[i..i+2]`.
pub open spec fn le16_at(s: Seq<u8>, i: int) -> u16 {
    (s[i] + s[i + 1] * 256) as u16
}

pub proof fn lemma_be16_roundtrip(v: u16)
    ensures
        be16(v).len() == 2,
        be16_at(be16(v), 0) == v,
{
}

pub proof fn lemma_be32_roundtrip(v: u32)
    ensures
        be32(v).len() == 4,
        be32_at(be32(v), 0) == v,
{
}

/// Reading a 16-bit big-endian value and encoding it again gives the same bytes.
pub proof fn lemma_be16_bytes(s: Seq<u8>, i: int)
    requires
        0 <= i,
        i + 2 <= s.len(),
    ensures
        be16(be16_at(s, i)) =~= s.subrange(i, i + 2),
{
    let a = s[i] as int;
    let b = s[i + 1] as int;
    assert((a * 256 + b) / 256 == a && (a * 256 + b) % 256 == b) by (nonlinear_arith)
        requires
            0 <= a < 256,
            0 <= b < 256,
    ;
}

/// Reading a 32-bit big-endian value and encoding it again gives the same bytes.
pub proof fn lemma_be32_bytes(s: Seq<u8>, i: int)
    requires
        0 <= i,
        i + 4 <= s.len(),
    ensures
        be32(be32_at(s, i)) =~= s.subrange(i, i + 4),
{
    let a = s[i] as int;
    let b = s[i + 1] as int;
    let c = s[i + 2] as int;
    let d = s[i + 3] as int;
    let v = a * 0x1000000 + b * 0x10000 + c * 0x100 + d;
    assert(v / 0x1000000 == a && (v / 0x10000) % 256 == b && (v / 0x100) % 256 == c && v % 256
        == d) by (nonlinear_arith)
        requires
            0 <= a < 256,
            0 <= b < 256,
            0 <= c < 256,
            0 <= d < 256,
            v == a * 0x1000000 + b * 0x10000 + c * 0x100 + d,
    ;
}

/// Append the big-endian bytes of `v`.
pub fn push_be16(buf: &mut Vec<u8>, v: u16)
    ensures
        final(buf)@ == old(buf)@ + be16(v),
{
    buf.push((v / 256) as u8);
    buf.push((v % 256) as u8);
    assert(final(buf)@ =~= old(buf)@ + be16(v));
}

/// Little-endian encoding of a 16-bit value.
pub open spec fn le16(v: u16) -> Seq<u8> {
    seq![(v % 256) as u8, (v / 256) as u8]
}

/// Decoding the little-endian encoding of a value gives it back.
pub proof fn lemma_le16_roundtrip(v: u16)
    ensures
        le16(v).len() == 2,
        le16_at(le16(v), 0) == v,
{
}

/// Append the little-endian bytes of `v`.
pub fn push_le16(buf: &mut Vec<u8>, v: u16)
    ensures
        final(buf)@ == old(buf)@ + le16(v),
{
    buf.push((v % 256) as u8);
    buf.push((v / 256) as u8);
    assert(final(buf)@ =~= old(buf)@ + le16(v));
}

/// Little-endian encoding of a 32-bit value.
pub open spec fn le32(v: u32) -> Seq<u8> {
    seq![
        (v % 256) as u8,
        ((v / 0x100) % 256) as u8,
        ((v / 0x10000) % 256) as u8,
        (v / 0x1000000) as u8,
    ]
}

/// Append the little-endian bytes of `v`.
pub fn push_le32(buf: &mut Vec<u8>, v: u32)
    ensures
        final(buf)@ == old(buf)@ + le32(v),
{
    buf.push((v % 256) as u8);
    buf.push(((v / 0x100) % 256) as u8);
    buf.push(((v / 0x10000) % 256) as u8);
    buf.push((v / 0x1000000) as u8);
    assert(final(buf)@ =~= old(buf)@ + le32(v));
}

/// Append the big-endian bytes of `v`.
pub fn push_be32(buf: &mut Vec<u8>, v: u32)
    ensures
        final(buf)@ == old(buf)@ + be32(v),
{
    buf.push((v / 0x1000000) as u8);
    buf.push(((v / 0x10000) % 256) as u8);
    buf.push(((v / 0x100) % 256) as u8);
    buf.push((v % 256) as u8);
    assert(final(buf)@ =~= old(buf)@ + be32(v));
}

/// Append a copy of `src`.
pub fn push_bytes(buf: &mut Vec<u8>, src: &[u8])
    ensures
        final(buf)@ == old(buf)@ + src@,
{
    let ghost start = buf@;
    let mut i: usize = 0;
    while i < src.len()
        invariant
            i <= src@.len(),
            buf@ == start + src@.subrange(0, i as int),
        decreases src@.len() - i,
    {
        buf.push(src[i]);
        i = i + 1;
        assert(buf@ =~= start + src@.subrange(0, i as int));
    }
    assert(src@.subrange(0, i as int) =~= src@);
}

/// Read the 16-bit big-endian value at `s[i..i+2]`.
pub fn read_be16(s: &[u8], i: usize) -> (r: u16)
    requires
        i + 2 <= s@.len(),
    ensures
        r == be16_at(s@, i as int),
{
    (s[i] as u16) * 256 + (s[i + 1] as u16)
}

/// Read the 32-bit big-endian value at `s[i..i+4]`.
pub fn read_be32(s: &[u8], i: usize) -> (r: u32)
    requires
        i + 4 <= s@.len(),
    ensures
        r == be32_at(s@, i as int),
{
    (s[i] as u32) * 0x1000000 + (s[i + 1] as u32) * 0x10000 + (s[i + 2] as u32) * 0x100 + (s[i
        + 3] as u32)
}

/// Read the 16-bit little-endian value at `s[i..i+2]`.
pub fn read_le16(s: &[u8], i: usize) -> (r: u16)
    requires
        i + 2 <= s@.len(),
    ensures
        r == le16_at(s@, i as int),
{
    (s[i] as u16) + (s[i + 1] as u16) * 256
}

// ── Unsigned integer text ────────────────────────────────────────────

/// Whether byte `b` is a digit in `radix` (10 or 16, letters in either case).
pub open spec fn is_digit(b: u8, radix: nat) -> bool {
    ||| 48 <= b <= 57
    ||| (radix == 16 && 97 <= b <= 102)
    ||| (radix == 16 && 65 <= b <= 70)
}

/// The numeric value of a digit byte.
pub open spec fn digit_value(b: u8) -> nat {
    if 48 <= b <= 57 {
        (b - 48) as nat
    } else if 97 <= b <= 102 {
        (b - 87) as nat
    } else {
        (b - 55) as nat
    }
}

/// Positional value of a digit string.
pub open spec fn digits_value(s: Seq<u8>, radix: nat) -> nat
    decreases s.len(),
{
    if s.len() == 0 {
        0
    } else {
        digits_value(s.drop_last(), radix) * radix + digit_value(s.last())
    }
}

/// The digit part of an unsigned integer literal: one leading `+` is
/// dropped when something follows it.
pub open spec fn unsigned_digits(s: Seq<u8>) -> Seq<u8> {
    if s.len() >= 2 && s[0] == 43 {
        s.drop_first()
    } else {
        s
    }
}

/// The value of the unsigned integer literal `s` in `radix`, if it is one
/// and does not exceed `max`.
pub open spec fn parse_unsigned(s: Seq<u8>, radix: nat, max: nat) -> Option<nat> {
    let d = unsigned_digits(s);
    if d.len() > 0 && (forall|i: int| 0 <= i < d.len() ==> is_digit(#[trigger] d[i], radix))
        && digits_value(d, radix) <= max {
        Some(digits_value(d, radix))
    } else {
        None
    }
}

proof fn lemma_digits_value_mono(s: Seq<u8>, radix: nat, i: int, j: int)
    requires
        radix >= 1,
        0 <= i <= j <= s.len(),
    ensures
        digits_value(s.subrange(0, i), radix) <= digits_value(s.subrange(0, j), radix),
    decreases j - i,
{
    if i < j {
        lemma_digits_value_mono(s, radix, i, j - 1);
        let p = s.subrange(0, j);
        assert(p.drop_last() =~= s.subrange(0, j - 1));
        let v = digits_value(s.subrange(0, j - 1), radix);
        assert(v * radix >= v) by (nonlinear_arith)
            requires
                radix >= 1,
        ;
    }
}

/// Parse an unsigned integer literal in radix 10 or 16 whose value is at
/// most `max`.
pub fn parse_unsigned_exec(s: &[u8], radix: u64, max: u64) -> (r: Option<u64>)
    requires
        radix == 10 || radix == 16,
        max <= 0xffff_ffff,
    ensures
        r == (match parse_unsigned(s@, radix as nat, max as nat) {
            Some(v) => Some(v as u64),
            None => None,
        }),
{
    let start: usize = if s.len() >= 2 && s[0] == 43 {
        1
    } else {
        0
    };
    let ghost d = unsigned_digits(s@);
    assert(d =~= s@.subrange(start as int, s@.len() as int));
    if start == s.len() {
        return None;
    }
    let mut acc: u64 = 0;
    let mut i: usize = start;
    while i < s.len()
        invariant
            start <= i <= s@.len(),
            d == unsigned_digits(s@),
            d =~= s@.subrange(start as int, s@.len() as int),
            radix == 10 || radix == 16,
            max <= 0xffff_ffff,
            acc <= max,
            acc == digits_value(d.subrange(0, i - start), radix as nat),
            forall|k: int| 0 <= k < i - start ==> is_digit(#[trigger] d[k], radix as nat),
        decreases s@.len() - i,
    {
        let b = s[i];
        let ok = (48 <= b && b <= 57) || (radix == 16 && ((97 <= b && b <= 102) || (65 <= b && b
            <= 70)));
        if !ok {
            assert(!is_digit(d[i - start], radix as nat));
            assert(!(forall|k: int| 0 <= k < d.len() ==> is_digit(#[trigger] d[k], radix as nat)));
            return None;
        }
        let dv: u64 = if 48 <= b && b <= 57 {
            (b - 48) as u64
        } else if 97 <= b && b <= 102 {
            (b - 87) as u64
        } else {
            (b - 55) as u64
        };
        let ghost pre = d.subrange(0, i - start);
        let ghost post = d.subrange(0, i + 1 - start);
        assert(post.drop_last() =~= pre);
        assert(acc * radix <= 0xffff_ffff * 16) by (nonlinear_arith)
            requires
                acc <= 0xffff_ffff,
                radix <= 16,
        ;
        assert(d[i - start] == b);
        assert(post.last() == b);
        assert(digit_value(b) == dv);
        assert(digits_value(post, radix as nat) == digits_value(pre, radix as nat) * radix + dv);
        acc = acc * radix + dv;
        i = i + 1;
        if acc > max {
            proof {
                lemma_digits_value_mono(d, radix as nat, i - start, d.len() as int);
                assert(d.subrange(0, d.len() as int) =~= d);
            }
            return None;
        }
    }
    assert(d.subrange(0, d.len() as int) =~= d);
    Some(acc)
}

} // verus!

verus! {

/// Copy `s[off..off+N]` into a fixed-size array.
pub fn take_array<const N: usize>(s: &[u8], off: usize) -> (a: [u8; N])
    requires
        off + N <= s@.len(),
    ensures
        a@ == s@.subrange(off as int, off + N),
{
    let mut a = [0u8; N];
    let mut i: usize = 0;
    let n = s.len();
    while i < N
        invariant
            i <= N,
            n == s@.len(),
            off + N <= s@.len(),
            a@.len() == N,
            forall|k: int| 0 <= k < i ==> a@[k] == s@[off + k],
        decreases N - i,
    {
        assert(off + i < s@.len());
        a[i] = s[off + i];
        i = i + 1;
    }
    assert(a@ =~= s@.subrange(off as int, off + N));
    a
}

/// A zero-filled array of `N` bytes that starts with the first
/// `min(src.len(), max)` bytes of `src` (`max <= N`).
pub open spec fn zero_padded(src: Seq<u8>, max: nat, n: nat) -> Seq<u8> {
    let len = if src.len() < max {
        src.len()
    } else {
        max
    };
    Seq::new(n, |k: int| if k < len { src[k] } else { 0u8 })
}

/// Build a zero-filled array holding at most `max` leading bytes of `src`.
pub fn copy_prefix_padded<const N: usize>(src: &[u8], max: usize) -> (a: [u8; N])
    requires
        max <= N,
    ensures
        a@ == zero_padded(src@, max as nat, N as nat),
{
    let mut a = [0u8; N];
    let len = if src.len() < max {
        src.len()
    } else {
        max
    };
    let mut i: usize = 0;
    assert(a@ =~= Seq::new(N as nat, |k: int| 0u8));
    while i < len
        invariant
            i <= len,
            len <= max <= N,
            len <= src@.len(),
            a@.len() == N,
            forall|k: int| 0 <= k < i ==> a@[k] == src@[k],
            forall|k: int| i <= k < N ==> a@[k] == 0u8,
        decreases len - i,
    {
        a[i] = src[i];
        i = i + 1;
    }
    assert(a@ =~= zero_padded(src@, max as nat, N as nat));
    a
}

/// Position of the first occurrence of byte `b` in `s`, or the length of
/// `s` when it does not occur.
pub open spec fn byte_end(s: Seq<u8>, b: u8) -> int
    decreases s.len(),
{
    if s.len() == 0 {
        0
    } else if s[0] == b {
        0
    } else {
        1 + byte_end(s.drop_first(), b)
    }
}

/// Position of the first zero byte, or the length when there is none.
pub open spec fn nul_end(s: Seq<u8>) -> int {
    byte_end(s, 0)
}

pub proof fn lemma_byte_end(s: Seq<u8>, b: u8)
    ensures
        0 <= byte_end(s, b) <= s.len(),
        forall|k: int| 0 <= k < byte_end(s, b) ==> s[k] != b,
        byte_end(s, b) < s.len() ==> s[byte_end(s, b)] == b,
    decreases s.len(),
{
    if s.len() > 0 && s[0] != b {
        lemma_byte_end(s.drop_first(), b);
        assert forall|k: int| 0 <= k < byte_end(s, b) implies s[k] != b by {
            if k > 0 {
                assert(s[k] == s.drop_first()[k - 1]);
            }
        }
    }
}

/// Position of the first occurrence of `b`, or the length when there is none.
pub fn find_byte(s: &[u8], b: u8) -> (r: usize)
    ensures
        r == byte_end(s@, b),
        r <= s@.len(),
{
    let mut i: usize = 0;
    while i < s.len() && s[i] != b
        invariant
            i <= s@.len(),
            forall|k: int| 0 <= k < i ==> s@[k] != b,
        decreases s@.len() - i,
    {
        i = i + 1;
    }
    proof {
        lemma_byte_end(s@, b);
        if byte_end(s@, b) < i {
            assert(s@[byte_end(s@, b)] == b);
        }
        if i < byte_end(s@, b) {
            assert(s@[i as int] != b);
        }
    }
    i
}

/// Position of the first zero byte, or the length when there is none.
pub fn find_nul(s: &[u8]) -> (r: usize)
    ensures
        r == nul_end(s@),
        r <= s@.len(),
{
    find_byte(s, 0)
}

/// UTF-8 decoding of a byte string: `Some` exactly when the bytes are
/// valid UTF-8, then the decoded characters.
#[verifier::external_body]
pub(crate) fn utf8_str(bytes: &[u8]) -> (r: Option<&str>)
    ensures
        r is Some <==> vstd::utf8::valid_utf8(bytes@),
        r matches Some(s) ==> s@ == vstd::utf8::decode_utf8(bytes@),
{
    std::str::from_utf8(bytes).ok()
}

} // verus!

verus! {

// ── Decimal text ─────────────────────────────────────────────────────

/// The character of decimal digit `d`.
pub open spec fn digit_char(d: nat) -> char {
    (48 + d) as char
}

/// The decimal digits of `n`, most significant first, without leading
/// zeros.
pub open spec fn decimal_text(n: nat) -> Seq<char>
    decreases n,
{
    if n < 10 {
        seq![digit_char(n)]
    } else {
        decimal_text(n / 10).push(digit_char(n % 10))
    }
}

/// The text of an integer: a `-` for negative values, then the decimal
/// digits of its magnitude.
pub open spec fn signed_text(v: int) -> Seq<char> {
    if v < 0 {
        seq!['-'] + decimal_text((-v) as nat)
    } else {
        decimal_text(v as nat)
    }
}

/// `i64::to_string`: the decimal text of `v`, with a leading `-` when it
/// is negative.
#[verifier::external_body]
pub(crate) fn int_text(v: i64) -> (s: String)
    ensures
        s@ == signed_text(v as int),
{
    v.to_string()
}

/// `prefix` followed by the decimal text of `v`.
pub fn text_with_number(prefix: &str, v: i64) -> (s: String)
    ensures
        s@ == prefix@ + signed_text(v as int),
{
    let mut s = prefix.to_owned();
    let n = int_text(v);
    s.append(n.as_str());
    s
}

} // verus!

verus! {

// ── ASCII positions in UTF-8 text ────────────────────────────────────

/// In valid UTF-8, an ASCII byte at position `i` starts a character and
/// so does the position right after it.
pub proof fn lemma_ascii_byte_boundaries(b: Seq<u8>, i: int)
    requires
        vstd::utf8::valid_utf8(b),
        0 <= i < b.len(),
        b[i] < 0x80,
    ensures
        vstd::utf8::is_char_boundary(b, i),
        vstd::utf8::is_char_boundary(b, i + 1),
{
    vstd::utf8::is_char_boundary_iff_not_is_continuation_byte(b, i);
    vstd::utf8::is_char_boundary_start_end_of_seq(b);
    if i + 1 < b.len() {
        vstd::utf8::valid_utf8_split(b, i);
        let t = b.subrange(i, b.len() as int);
        assert(t[0] == b[i]);
        assert(vstd::utf8::length_of_first_scalar(t) == 1);
        let u = vstd::utf8::pop_first_scalar(t);
        assert(u =~= b.subrange(i + 1, b.len() as int));
        assert(vstd::utf8::valid_utf8(u));
        assert(u.len() > 0);
        assert(vstd::utf8::valid_first_scalar(u));
        assert(u[0] == b[i + 1]);
        assert(!vstd::utf8::is_continuation_byte(b[i + 1]));
        vstd::utf8::is_char_boundary_iff_not_is_continuation_byte(b, i + 1);
    }
}

} // verus!

verus! {

// ── Byte-wise order of text ──────────────────────────────────────────

/// Lexicographic order of byte strings (the order of `str`): a proper
/// prefix comes first, else the first differing byte decides.
pub open spec fn bytes_lt(a: Seq<u8>, b: Seq<u8>) -> bool
    decreases a.len(),
{
    if a.len() == 0 {
        b.len() > 0
    } else if b.len() == 0 {
        false
    } else if a[0] != b[0] {
        a[0] < b[0]
    } else {
        bytes_lt(a.drop_first(), b.drop_first())
    }
}

proof fn lemma_bytes_lt_irreflexive(a: Seq<u8>)
    ensures
        !bytes_lt(a, a),
    decreases a.len(),
{
    if a.len() > 0 {
        lemma_bytes_lt_irreflexive(a.drop_first());
    }
}

proof fn lemma_bytes_lt_asymmetric(a: Seq<u8>, b: Seq<u8>)
    ensures
        bytes_lt(a, b) ==> !bytes_lt(b, a),
    decreases a.len(),
{
    if a.len() > 0 && b.len() > 0 && a[0] == b[0] {
        lemma_bytes_lt_asymmetric(a.drop_first(), b.drop_first());
    }
}

proof fn lemma_bytes_lt_transitive(a: Seq<u8>, b: Seq<u8>, c: Seq<u8>)
    ensures
        bytes_lt(a, b) && bytes_lt(b, c) ==> bytes_lt(a, c),
    decreases a.len(),
{
    if a.len() > 0 && b.len() > 0 && c.len() > 0 && a[0] == b[0] && b[0] == c[0] {
        lemma_bytes_lt_transitive(a.drop_first(), b.drop_first(), c.drop_first());
    }
}

proof fn lemma_bytes_lt_total(a: Seq<u8>, b: Seq<u8>)
    ensures
        a != b ==> bytes_lt(a, b) || bytes_lt(b, a),
    decreases a.len(),
{
    if a.len() == 0 && b.len() == 0 {
        assert(a =~= b);
    }
    if a.len() > 0 && b.len() > 0 && a[0] == b[0] {
        lemma_bytes_lt_total(a.drop_first(), b.drop_first());
        if a.drop_first() == b.drop_first() {
            assert(a =~= seq![a[0]] + a.drop_first());
            assert(b =~= seq![b[0]] + b.drop_first());
        }
    }
}

/// `bytes_lt` is a strict total order.
pub proof fn lemma_bytes_lt_order(a: Seq<u8>, b: Seq<u8>, c: Seq<u8>)
    ensures
        !bytes_lt(a, a),
        bytes_lt(a, b) ==> !bytes_lt(b, a),
        bytes_lt(a, b) && bytes_lt(b, c) ==> bytes_lt(a, c),
        a != b ==> bytes_lt(a, b) || bytes_lt(b, a),
{
    lemma_bytes_lt_irreflexive(a);
    lemma_bytes_lt_asymmetric(a, b);
    lemma_bytes_lt_transitive(a, b, c);
    lemma_bytes_lt_total(a, b);
}

/// Whether `a` comes before `b` in byte-wise order.
pub fn bytes_less(a: &[u8], b: &[u8]) -> (r: bool)
    ensures
        r == bytes_lt(a@, b@),
{
    let mut i: usize = 0;
    assert(a@.skip(0) =~= a@);
    assert(b@.skip(0) =~= b@);
    while i < a.len() && i < b.len() && a[i] == b[i]
        invariant
            i <= a@.len(),
            i <= b@.len(),
            bytes_lt(a@, b@) == bytes_lt(a@.skip(i as int), b@.skip(i as int)),
        decreases a@.len() - i,
    {
        proof {
            let sa = a@.skip(i as int);
            let sb = b@.skip(i as int);
            assert(sa.drop_first() =~= a@.skip(i + 1));
            assert(sb.drop_first() =~= b@.skip(i + 1));
        }
        i = i + 1;
    }
    if i == a.len() {
        i < b.len()
    } else if i == b.len() {
        false
    } else {
        a[i] < b[i]
    }
}

} // verus!
