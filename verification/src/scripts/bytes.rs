//! Little-endian reading and writing of script bytes, and the Latin-1 string
//! encoding that SCM bytecode uses.

use byteorder::ByteOrder;
use byteorder::LittleEndian;
use vstd::prelude::*;

verus! {

/// The unsigned 16-bit little-endian value of `b[p..p + 2]`.
pub open spec fn spec_u16_le(b: Seq<u8>, p: int) -> int {
    b[p] as int + 256 * (b[p + 1] as int)
}

/// The unsigned 32-bit little-endian value of `b[p..p + 4]`.
pub open spec fn spec_u32_le(b: Seq<u8>, p: int) -> int {
    b[p] as int + 256 * (b[p + 1] as int) + 65536 * (b[p + 2] as int) + 16777216 * (
    b[p + 3] as int)
}

/// The two's-complement reading of an 8-bit value.
pub open spec fn spec_i8(u: int) -> int {
    if u >= 0x80 {
        u - 0x100
    } else {
        u
    }
}

/// The two's-complement reading of a 16-bit value.
pub open spec fn spec_i16(u: int) -> int {
    if u >= 0x8000 {
        u - 0x10000
    } else {
        u
    }
}

/// The two's-complement reading of a 32-bit value.
pub open spec fn spec_i32(u: int) -> int {
    if u >= 0x8000_0000 {
        u - 0x1_0000_0000
    } else {
        u
    }
}

/// The two little-endian bytes of `n`.
pub open spec fn spec_u16_bytes(n: int) -> Seq<u8> {
    seq![(n % 256) as u8, ((n / 256) % 256) as u8]
}

/// The four little-endian bytes of `n`.
pub open spec fn spec_u32_bytes(n: int) -> Seq<u8> {
    seq![
        (n % 256) as u8,
        ((n / 256) % 256) as u8,
        ((n / 65536) % 256) as u8,
        ((n / 16777216) % 256) as u8,
    ]
}

/// The four little-endian two's-complement bytes of `n`.
pub open spec fn spec_i32_bytes(n: int) -> Seq<u8> {
    spec_u32_bytes(
        if n < 0 {
            n + 0x1_0000_0000
        } else {
            n
        },
    )
}

/// Decoding the bytes of a 16-bit value gives it back.
pub proof fn lemma_u16_bytes_roundtrip(n: int)
    requires
        0 <= n < 0x10000,
    ensures
        spec_u16_le(spec_u16_bytes(n), 0) == n,
{
    let b = spec_u16_bytes(n);
    assert(0 <= n % 256 < 256 && 0 <= n / 256 < 256 && n == 256 * (n / 256) + n % 256)
        by (nonlinear_arith)
        requires
            0 <= n < 0x10000,
    ;
    assert((n / 256) % 256 == n / 256) by (nonlinear_arith)
        requires
            0 <= n / 256 < 256,
    ;
    assert(b[0] as int == n % 256);
    assert(b[1] as int == n / 256);
}

/// Decoding the bytes of a 32-bit value gives it back.
pub proof fn lemma_u32_bytes_roundtrip(n: int)
    requires
        0 <= n < 0x1_0000_0000,
    ensures
        spec_u32_le(spec_u32_bytes(n), 0) == n,
{
    let b = spec_u32_bytes(n);
    let a0 = n % 256;
    let n1 = n / 256;
    let a1 = n1 % 256;
    let n2 = n1 / 256;
    let a2 = n2 % 256;
    let a3 = n2 / 256;
    assert(0 <= a0 < 256 && n == 256 * n1 + a0 && 0 <= n1 < 0x1000000) by (nonlinear_arith)
        requires
            0 <= n < 0x1_0000_0000,
            a0 == n % 256,
            n1 == n / 256,
    ;
    assert(0 <= a1 < 256 && n1 == 256 * n2 + a1 && 0 <= n2 < 0x10000) by (nonlinear_arith)
        requires
            0 <= n1 < 0x1000000,
            a1 == n1 % 256,
            n2 == n1 / 256,
    ;
    assert(0 <= a2 < 256 && n2 == 256 * a3 + a2 && 0 <= a3 < 256) by (nonlinear_arith)
        requires
            0 <= n2 < 0x10000,
            a2 == n2 % 256,
            a3 == n2 / 256,
    ;
    assert(n / 65536 == n2) by (nonlinear_arith)
        requires
            n == 256 * n1 + a0,
            0 <= a0 < 256,
            n1 == 256 * n2 + a1,
            0 <= a1 < 256,
    ;
    assert(n / 16777216 == a3) by (nonlinear_arith)
        requires
            n == 256 * n1 + a0,
            0 <= a0 < 256,
            n1 == 256 * n2 + a1,
            0 <= a1 < 256,
            n2 == 256 * a3 + a2,
            0 <= a2 < 256,
    ;
    assert(a3 % 256 == a3) by (nonlinear_arith)
        requires
            0 <= a3 < 256,
    ;
    assert(b[0] as int == a0);
    assert(b[1] as int == a1);
    assert(b[2] as int == a2);
    assert(b[3] as int == a3);
}

/// Decoding the bytes of a signed 32-bit value gives it back.
pub proof fn lemma_i32_bytes_roundtrip(n: int)
    requires
        -0x8000_0000 <= n < 0x8000_0000,
    ensures
        spec_i32(spec_u32_le(spec_i32_bytes(n), 0)) == n,
{
    let u = if n < 0 {
        n + 0x1_0000_0000
    } else {
        n
    };
    lemma_u32_bytes_roundtrip(u);
}

/// `LittleEndian::read_u16`: the unsigned little-endian value of the first two
/// bytes of `buf`.
#[verifier::external_body]
pub(crate) fn read_u16_le(buf: &[u8]) -> (v: u16)
    requires
        buf@.len() >= 2,
    ensures
        v == spec_u16_le(buf@, 0),
{
    LittleEndian::read_u16(buf)
}

/// `LittleEndian::read_i16`: the two's-complement little-endian value of the
/// first two bytes of `buf`.
#[verifier::external_body]
pub(crate) fn read_i16_le(buf: &[u8]) -> (v: i16)
    requires
        buf@.len() >= 2,
    ensures
        v == spec_i16(spec_u16_le(buf@, 0)),
{
    LittleEndian::read_i16(buf)
}

/// `LittleEndian::read_u32`: the unsigned little-endian value of the first four
/// bytes of `buf`.
#[verifier::external_body]
pub(crate) fn read_u32_le(buf: &[u8]) -> (v: u32)
    requires
        buf@.len() >= 4,
    ensures
        v == spec_u32_le(buf@, 0),
{
    LittleEndian::read_u32(buf)
}

/// `LittleEndian::read_i32`: the two's-complement little-endian value of the
/// first four bytes of `buf`.
#[verifier::external_body]
pub(crate) fn read_i32_le(buf: &[u8]) -> (v: i32)
    requires
        buf@.len() >= 4,
    ensures
        v == spec_i32(spec_u32_le(buf@, 0)),
{
    LittleEndian::read_i32(buf)
}

/// `LittleEndian::write_u16` into a fresh two-byte buffer: the bytes whose
/// little-endian value is `n`.
#[verifier::external_body]
pub(crate) fn u16_le_bytes(n: u16) -> (b: [u8; 2])
    ensures
        b@ == spec_u16_bytes(n as int),
{
    let mut buf = [0u8; 2];
    LittleEndian::write_u16(&mut buf, n);
    buf
}

/// `LittleEndian::write_u32` into a fresh four-byte buffer: the bytes whose
/// little-endian value is `n`.
#[verifier::external_body]
pub(crate) fn u32_le_bytes(n: u32) -> (b: [u8; 4])
    ensures
        b@ == spec_u32_bytes(n as int),
{
    let mut buf = [0u8; 4];
    LittleEndian::write_u32(&mut buf, n);
    buf
}

/// The eight little-endian bytes of `n`.
pub open spec fn spec_u64_bytes(n: int) -> Seq<u8> {
    Seq::new(8, |k: int| ((n / vstd::arithmetic::power::pow(256, k as nat)) % 256) as u8)
}

/// `LittleEndian::write_u64` into a fresh eight-byte buffer: the bytes whose
/// little-endian value is `n`.
#[verifier::external_body]
pub(crate) fn u64_le_bytes(n: u64) -> (b: [u8; 8])
    ensures
        b@ == spec_u64_bytes(n as int),
{
    let mut buf = [0u8; 8];
    LittleEndian::write_u64(&mut buf, n);
    buf
}

/// `LittleEndian::write_i32` into a fresh four-byte buffer: the bytes whose
/// two's-complement little-endian value is `n`.
#[verifier::external_body]
pub(crate) fn i32_le_bytes(n: i32) -> (b: [u8; 4])
    ensures
        b@ == spec_i32_bytes(n as int),
{
    let mut buf = [0u8; 4];
    LittleEndian::write_i32(&mut buf, n);
    buf
}

/// `String::push`: appends one character.
#[verifier::external_body]
pub(crate) fn string_push(s: &mut String, c: char)
    ensures
        final(s)@ == old(s)@.push(c),
{
    s.push(c);
}

/// The bytes of `s` that come before its first zero byte (all of `s` if it
/// holds none).
pub open spec fn spec_until_nul(s: Seq<u8>) -> Seq<u8>
    decreases s.len(),
{
    if s.len() == 0 {
        s
    } else if s[0] == 0 {
        Seq::empty()
    } else {
        seq![s[0]] + spec_until_nul(s.drop_first())
    }
}

/// Reads each byte as the character with the same number.
pub open spec fn spec_latin1(s: Seq<u8>) -> Seq<char> {
    s.map_values(|b: u8| b as char)
}

/// A prefix without zero bytes passes through `spec_until_nul` untouched.
pub proof fn lemma_until_nul_prefix(p: Seq<u8>, q: Seq<u8>)
    requires
        forall|j: int| 0 <= j < p.len() ==> p[j] != 0,
    ensures
        spec_until_nul(p + q) == p + spec_until_nul(q),
    decreases p.len(),
{
    if p.len() > 0 {
        assert((p + q).drop_first() =~= p.drop_first() + q);
        lemma_until_nul_prefix(p.drop_first(), q);
        assert(p =~= seq![p[0]] + p.drop_first());
        assert(seq![p[0]] + (p.drop_first() + spec_until_nul(q)) =~= p + spec_until_nul(q));
    } else {
        assert(p + q =~= q);
        assert(p + spec_until_nul(q) =~= spec_until_nul(q));
    }
}

/// Reads `bytes[start..end]` up to its first zero byte as a Latin-1 string.
pub fn latin1_until_nul(bytes: &[u8], start: usize, end: usize) -> (s: String)
    requires
        start <= end <= bytes@.len(),
    ensures
        s@ == spec_latin1(spec_until_nul(bytes@.subrange(start as int, end as int))),
{
    let mut s = String::new();
    let mut i = start;
    while i < end && bytes[i] != 0
        invariant
            start <= i <= end <= bytes@.len(),
            forall|j: int| start <= j < i ==> bytes@[j] != 0,
            s@ == spec_latin1(bytes@.subrange(start as int, i as int)),
        decreases end - i,
    {
        let c = bytes[i] as char;
        string_push(&mut s, c);
        proof {
            assert(bytes@.subrange(start as int, i + 1) =~= bytes@.subrange(start as int, i as int)
                .push(bytes@[i as int]));
            assert(spec_latin1(bytes@.subrange(start as int, i + 1)) =~= spec_latin1(
                bytes@.subrange(start as int, i as int),
            ).push(bytes@[i as int] as char));
        }
        i = i + 1;
    }
    proof {
        let p = bytes@.subrange(start as int, i as int);
        let q = bytes@.subrange(i as int, end as int);
        assert(bytes@.subrange(start as int, end as int) =~= p + q);
        lemma_until_nul_prefix(p, q);
        assert(spec_until_nul(q) =~= Seq::<u8>::empty());
        assert(p + Seq::<u8>::empty() =~= p);
    }
    s
}

} // verus!
