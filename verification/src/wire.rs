//! Integer encodings of the frame format: little-endian literals, the
//! variable-width unsigned integer, and the zigzag form of a signed one.

use vstd::prelude::*;

verus! {

/// Largest value that the variable-width form holds in its first byte.
pub const SINGLE_BYTE_MAX: u8 = 250;

/// Marker byte that announces a two-byte literal.
pub const U16_MARK: u8 = 251;

/// Marker byte that announces a four-byte literal.
pub const U32_MARK: u8 = 252;

/// Marker byte that announces an eight-byte literal.
pub const U64_MARK: u8 = 253;

/// The number of values that `width` bytes can tell apart.
pub open spec fn span(width: nat) -> nat
    decreases width,
{
    if width == 0 {
        1
    } else {
        256 * span((width - 1) as nat)
    }
}

/// `n` in `width` bytes, least significant byte first.
pub open spec fn le_bytes(n: nat, width: nat) -> Seq<u8>
    decreases width,
{
    if width == 0 {
        Seq::empty()
    } else {
        seq![(n % 256) as u8] + le_bytes(n / 256, (width - 1) as nat)
    }
}

/// The number that `bytes` spell, least significant byte first.
pub open spec fn le_value(bytes: Seq<u8>) -> nat
    decreases bytes.len(),
{
    if bytes.len() == 0 {
        0
    } else {
        bytes[0] as nat + 256 * le_value(bytes.skip(1))
    }
}

/// `n` as a four-byte length prefix, most significant byte first.
pub open spec fn be32(n: nat) -> Seq<u8> {
    seq![
        (n / 0x100_0000 % 256) as u8,
        (n / 0x1_0000 % 256) as u8,
        (n / 0x100 % 256) as u8,
        (n % 256) as u8,
    ]
}

/// The number that a four-byte length prefix at the front of `bytes` spells.
pub open spec fn be32_value(bytes: Seq<u8>) -> nat
    recommends
        bytes.len() >= 4,
{
    (bytes[0] as nat) * 0x100_0000 + (bytes[1] as nat) * 0x1_0000 + (bytes[2] as nat) * 0x100
        + bytes[3] as nat
}

/// The variable-width form of an unsigned integer below 2^64.
pub open spec fn varint(n: nat) -> Seq<u8> {
    if n <= 250 {
        seq![n as u8]
    } else if n <= 0xffff {
        seq![251u8] + le_bytes(n, 2)
    } else if n <= 0xffff_ffff {
        seq![252u8] + le_bytes(n, 4)
    } else {
        seq![253u8] + le_bytes(n, 8)
    }
}

/// Reads a variable-width integer that starts at index `at` of `bytes`:
/// its value and the index just behind it, or `None` where the bytes end
/// too early or start with a marker that stands for no 64-bit integer.
/// A value in a wider literal than it needs is read as well.
pub open spec fn varint_at(bytes: Seq<u8>, at: nat) -> Option<(nat, nat)> {
    if at >= bytes.len() {
        None
    } else if bytes[at as int] <= 250 {
        Some((bytes[at as int] as nat, at + 1))
    } else if bytes[at as int] == 251 {
        literal_at(bytes, at + 1, 2)
    } else if bytes[at as int] == 252 {
        literal_at(bytes, at + 1, 4)
    } else if bytes[at as int] == 253 {
        literal_at(bytes, at + 1, 8)
    } else {
        None
    }
}

/// Reads `width` little-endian bytes at index `at`, where that many are left.
pub open spec fn literal_at(bytes: Seq<u8>, at: nat, width: nat) -> Option<(nat, nat)> {
    if at + width <= bytes.len() {
        Some((le_value(bytes.subrange(at as int, (at + width) as int)), at + width))
    } else {
        None
    }
}

/// The zigzag form of a signed integer: 0, -1, 1, -2, ... become 0, 1, 2, 3, ...
pub open spec fn zigzag(c: int) -> nat {
    if c >= 0 {
        (2 * c) as nat
    } else {
        (-2 * c - 1) as nat
    }
}

/// The signed integer that a zigzag form stands for.
pub open spec fn unzigzag(n: nat) -> int {
    if n % 2 == 0 {
        n as int / 2
    } else {
        -(n as int / 2) - 1
    }
}

/// The first powers of 256.
pub proof fn lemma_span_values()
    ensures
        span(0) == 1,
        span(1) == 0x100,
        span(2) == 0x1_0000,
        span(3) == 0x100_0000,
        span(4) == 0x1_0000_0000,
        span(5) == 0x100_0000_0000,
        span(6) == 0x1_0000_0000_0000,
        span(7) == 0x100_0000_0000_0000,
        span(8) == 0x1_0000_0000_0000_0000,
{
    reveal_with_fuel(span, 10);
}

/// A little-endian rendering has the width asked for.
pub proof fn lemma_le_bytes_len(n: nat, width: nat)
    ensures
        le_bytes(n, width).len() == width,
    decreases width,
{
    if width > 0 {
        lemma_le_bytes_len(n / 256, (width - 1) as nat);
    }
}

/// What bytes spell lies below the span of their number.
pub proof fn lemma_le_value_bound(bytes: Seq<u8>)
    ensures
        le_value(bytes) < span(bytes.len()),
    decreases bytes.len(),
{
    if bytes.len() > 0 {
        lemma_le_value_bound(bytes.skip(1));
    }
}

/// Reading back a little-endian rendering gives the number rendered.
pub proof fn lemma_le_round_trip(n: nat, width: nat)
    requires
        n < span(width),
    ensures
        le_value(le_bytes(n, width)) == n,
    decreases width,
{
    if width > 0 {
        let rest = le_bytes(n / 256, (width - 1) as nat);
        lemma_le_round_trip(n / 256, (width - 1) as nat);
        lemma_le_bytes_len(n, width);
        assert(le_bytes(n, width).skip(1) =~= rest);
        assert(le_bytes(n, width)[0] == (n % 256) as u8);
    }
}

/// The zigzag form is undone by [`unzigzag`], and fits 32 bits for a 32-bit integer.
pub proof fn lemma_zigzag_round_trip(c: i32)
    ensures
        unzigzag(zigzag(c as int)) == c,
        zigzag(c as int) <= u32::MAX,
{
}

/// A variable-width integer takes between one and nine bytes.
pub proof fn lemma_varint_len(n: nat)
    ensures
        1 <= varint(n).len() <= 9,
        n <= 250 ==> varint(n).len() == 1,
{
    lemma_le_bytes_len(n, 2);
    lemma_le_bytes_len(n, 4);
    lemma_le_bytes_len(n, 8);
}

/// A variable-width integer written at index `at` is read back from there,
/// whatever stands before and behind it.
pub proof fn lemma_varint_round_trip(bytes: Seq<u8>, at: nat, n: nat)
    requires
        n <= u64::MAX,
        at + varint(n).len() <= bytes.len(),
        bytes.subrange(at as int, (at + varint(n).len()) as int) == varint(n),
    ensures
        varint_at(bytes, at) == Some((n, at + varint(n).len())),
{
    lemma_span_values();
    lemma_varint_len(n);
    let code = varint(n);
    assert(bytes[at as int] == code[0]);
    if n <= 250 {
    } else {
        let width: nat = if n <= 0xffff {
            2
        } else if n <= 0xffff_ffff {
            4
        } else {
            8
        };
        lemma_le_bytes_len(n, width);
        lemma_le_round_trip(n, width);
        assert(code.len() == 1 + width);
        assert(bytes.subrange((at + 1) as int, (at + 1 + width) as int) =~= code.skip(1));
        assert(code.skip(1) =~= le_bytes(n, width));
    }
}

/// Appends `n` in `width` bytes, least significant first.
pub fn put_le(out: &mut Vec<u8>, n: u64, width: usize)
    ensures
        final(out)@ == old(out)@ + le_bytes(n as nat, width as nat),
{
    let mut rest: u64 = n;
    let mut i: usize = 0;
    while i < width
        invariant
            i <= width,
            out@ + le_bytes(rest as nat, (width - i) as nat) == old(out)@ + le_bytes(
                n as nat,
                width as nat,
            ),
        decreases width - i,
    {
        let ghost before = out@;
        let ghost tail = le_bytes((rest / 256) as nat, (width - i - 1) as nat);
        out.push((rest % 256) as u8);
        proof {
            assert(le_bytes(rest as nat, (width - i) as nat) == seq![(rest % 256) as u8] + tail);
            assert(out@ + tail =~= before + (seq![(rest % 256) as u8] + tail));
        }
        rest = rest / 256;
        i += 1;
    }
    assert(out@ + Seq::<u8>::empty() =~= out@);
}

/// Reads the `width` little-endian bytes that start at index `at`.
pub fn get_le(buf: &[u8], at: usize, width: usize) -> (n: u64)
    requires
        width <= 8,
        at + width <= buf@.len(),
    ensures
        n == le_value(buf@.subrange(at as int, at + width)),
{
    let mut value: u64 = 0;
    let mut i: usize = width;
    let len: usize = buf.len();
    while i > 0
        invariant
            i <= width <= 8,
            len == buf@.len(),
            at + width <= len,
            value == le_value(buf@.subrange(at + i, at + width)),
        decreases i,
    {
        let ghost tail = buf@.subrange(at + i, at + width);
        let ghost whole = buf@.subrange(at + i - 1, at + width);
        proof {
            lemma_le_value_bound(tail);
            lemma_le_value_bound(whole);
            lemma_span_le(whole.len(), 8);
            lemma_span_values();
            assert(whole.skip(1) =~= tail);
            assert(whole[0] == buf@[at + i - 1]);
        }
        i -= 1;
        value = value * 256 + buf[at + i] as u64;
    }
    value
}

/// The span grows with the width.
pub proof fn lemma_span_le(a: nat, b: nat)
    requires
        a <= b,
    ensures
        span(a) <= span(b),
    decreases b,
{
    if a < b {
        lemma_span_le(a, (b - 1) as nat);
    }
}

/// Appends the variable-width form of `n`.
pub fn put_varint(out: &mut Vec<u8>, n: u64)
    ensures
        final(out)@ == old(out)@ + varint(n as nat),
{
    let ghost before = out@;
    if n <= 250 {
        out.push(n as u8);
    } else if n <= 0xffff {
        out.push(U16_MARK);
        put_le(out, n, 2);
        assert(out@ =~= before + (seq![251u8] + le_bytes(n as nat, 2)));
    } else if n <= 0xffff_ffff {
        out.push(U32_MARK);
        put_le(out, n, 4);
        assert(out@ =~= before + (seq![252u8] + le_bytes(n as nat, 4)));
    } else {
        out.push(U64_MARK);
        put_le(out, n, 8);
        assert(out@ =~= before + (seq![253u8] + le_bytes(n as nat, 8)));
    }
}

/// Reads the variable-width integer that starts at index `at`: its value
/// and the index just behind it.
pub fn get_varint(buf: &[u8], at: usize) -> (r: Option<(u64, usize)>)
    ensures
        match varint_at(buf@, at as nat) {
            Some((value, next)) => r == Some((value as u64, next as usize)) && value <= u64::MAX
                && at < next <= buf@.len(),
            None => r.is_none(),
        },
{
    if at >= buf.len() {
        return None;
    }
    let mark: u8 = buf[at];
    if mark <= SINGLE_BYTE_MAX {
        return Some((mark as u64, at + 1));
    }
    let width: usize = if mark == U16_MARK {
        2
    } else if mark == U32_MARK {
        4
    } else if mark == U64_MARK {
        8
    } else {
        return None;
    };
    if buf.len() - at - 1 < width {
        return None;
    }
    proof {
        lemma_le_value_bound(buf@.subrange(at + 1, at + 1 + width));
        lemma_span_le(width as nat, 8);
        lemma_span_values();
    }
    let value: u64 = get_le(buf, at + 1, width);
    Some((value, at + 1 + width))
}

/// The zigzag form of `c`.
pub fn zigzag_encode(c: i32) -> (n: u32)
    ensures
        n == zigzag(c as int),
{
    if c >= 0 {
        (c as u32) * 2
    } else {
        ((-(c + 1)) as u32) * 2 + 1
    }
}

/// The signed integer whose zigzag form is `n`.
pub fn zigzag_decode(n: u32) -> (c: i32)
    ensures
        c == unzigzag(n as nat),
{
    if n % 2 == 0 {
        (n / 2) as i32
    } else {
        -((n / 2) as i32) - 1
    }
}

/// Appends `n` as a four-byte length prefix, most significant byte first.
pub fn put_be32(out: &mut Vec<u8>, n: u32)
    ensures
        final(out)@ == old(out)@ + be32(n as nat),
{
    out.push((n / 0x100_0000 % 256) as u8);
    out.push((n / 0x1_0000 % 256) as u8);
    out.push((n / 0x100 % 256) as u8);
    out.push((n % 256) as u8);
    assert(out@ =~= old(out)@ + be32(n as nat));
}

/// Reads the four-byte length prefix at the front of `buf`.
pub fn get_be32(buf: &[u8]) -> (n: u32)
    requires
        buf@.len() >= 4,
    ensures
        n == be32_value(buf@),
{
    let a: u32 = buf[0] as u32;
    let b: u32 = buf[1] as u32;
    let c: u32 = buf[2] as u32;
    let d: u32 = buf[3] as u32;
    a * 0x100_0000 + b * 0x1_0000 + c * 0x100 + d
}

/// A length prefix is read back as written.
pub proof fn lemma_be32_round_trip(n: nat)
    requires
        n <= u32::MAX,
    ensures
        be32(n).len() == 4,
        be32_value(be32(n)) == n,
{
}

} // verus!
