//! Byte-level codec shared by the wire formats: the VarInt (LEB128 over the
//! 32 bits of an `i32`), big- and little-endian integers, length-prefixed
//! strings, and a read cursor over an in-memory packet body.

use vstd::prelude::*;
use vstd::utf8::*;
use vstd::string::StringSliceAdditionalSpecFns;

verus! {

broadcast use vstd::utf8::encode_utf8_valid_utf8, vstd::utf8::encode_utf8_decode_utf8;

/// Why a read from a byte buffer failed.
#[derive(Clone, Copy, PartialEq, Eq, Debug, Structural)]
pub enum CodecError {
    /// The buffer ended before the value did.
    UnexpectedEof,
    /// A VarInt ran past five bytes.
    VarIntTooBig,
    /// A string length prefix was negative or above the string limit.
    StringTooLong,
    /// String bytes were not UTF-8.
    BadUtf8,
    /// A skip ran past the end of the buffer.
    SkipPastEnd,
    /// An NBT value carried an unknown tag.
    BadNbtTag,
    /// A chunk's data length ran past the packet.
    ChunkDataLen,
    /// A packet length prefix was negative or above the frame limit.
    PacketTooLarge,
    /// A paletted container announced 64 or more bits per entry.
    BadBitsPerEntry,
    /// A compressed frame did not inflate.
    Zlib,
}

// ---------------------------------------------------------------------------
// VarInt encoding.
// ---------------------------------------------------------------------------

/// Number of bytes of the VarInt encoding of the 32 bits `v`.
pub open spec fn varint_len(v: u32) -> nat {
    if v < 0x80 {
        1
    } else if v < 0x4000 {
        2
    } else if v < 0x20_0000 {
        3
    } else if v < 0x1000_0000 {
        4
    } else {
        5
    }
}

/// `v` shifted right by `7 * i` bits, for the five byte positions.
pub open spec fn shr7(v: u32, i: nat) -> u32 {
    if i == 0 {
        v
    } else if i == 1 {
        v >> 7u32
    } else if i == 2 {
        v >> 14u32
    } else if i == 3 {
        v >> 21u32
    } else {
        v >> 28u32
    }
}

/// Byte `i` of the encoding: the next seven data bits, with the high bit set
/// on every byte but the last.
pub open spec fn varint_byte(v: u32, i: nat) -> u8 {
    if i + 1 < varint_len(v) {
        ((shr7(v, i) & 0x7f) | 0x80) as u8
    } else {
        shr7(v, i) as u8
    }
}

/// The VarInt encoding of the 32 bits `v`.
pub open spec fn varint_bytes(v: u32) -> Seq<u8> {
    Seq::new(varint_len(v), |i: int| varint_byte(v, i as nat))
}

proof fn lemma_varint_write_step(u: u32, k: nat)
    requires
        k < varint_len(u),
    ensures
        (shr7(u, k) & !0x7fu32 == 0) == (k + 1 == varint_len(u)),
        k + 1 == varint_len(u) ==> shr7(u, k) as u8 == varint_byte(u, k),
        k + 1 < varint_len(u) ==> ((shr7(u, k) & 0x7f) | 0x80) as u8 == varint_byte(u, k)
            && shr7(u, k) >> 7u32 == shr7(u, k + 1),
{
    if k == 0 {
        assert((u & !0x7fu32 == 0) == (u < 0x80)) by (bit_vector);
        assert((u >> 7u32) == (u >> 7u32));
    } else if k == 1 {
        assert(u >= 0x80 ==> (((u >> 7u32) & !0x7fu32 == 0) == (u < 0x4000))) by (bit_vector);
        assert((u >> 7u32) >> 7u32 == u >> 14u32) by (bit_vector);
    } else if k == 2 {
        assert(u >= 0x4000 ==> (((u >> 14u32) & !0x7fu32 == 0) == (u < 0x20_0000))) by (bit_vector);
        assert((u >> 14u32) >> 7u32 == u >> 21u32) by (bit_vector);
    } else if k == 3 {
        assert(u >= 0x20_0000 ==> (((u >> 21u32) & !0x7fu32 == 0) == (u < 0x1000_0000))) by (bit_vector);
        assert((u >> 21u32) >> 7u32 == u >> 28u32) by (bit_vector);
    } else {
        assert((u >> 28u32) & !0x7fu32 == 0) by (bit_vector);
    }
}

/// Append a VarInt to `buf`. Negative values are encoded as their `u32` bits
/// (so they always occupy the full 5 bytes), matching the vanilla protocol.
pub fn write_varint(buf: &mut Vec<u8>, value: i32)
    ensures
        final(buf)@ == old(buf)@ + varint_bytes(value as u32),
{
    let ghost u = value as u32;
    let ghost start = buf@;
    let mut v = value as u32;
    let ghost mut k: nat = 0;
    loop
        invariant
            k < varint_len(u),
            v == shr7(u, k),
            u == value as u32,
            start == old(buf)@,
            buf@ == start + varint_bytes(u).take(k as int),
        decreases 5 - k,
    {
        proof {
            lemma_varint_write_step(u, k);
        }
        if v & !0x7F == 0 {
            buf.push(v as u8);
            assert(varint_bytes(u) =~= varint_bytes(u).take(k as int).push(varint_byte(u, k)));
            assert(buf@ =~= start + varint_bytes(u));
            return;
        }
        buf.push(((v & 0x7F) | 0x80) as u8);
        v = v >> 7;
        proof {
            assert(varint_bytes(u).take((k + 1) as int) =~= varint_bytes(u).take(k as int).push(varint_byte(u, k)));
            k = k + 1;
        }
    }
}

/// Partial VarInt: the bits gathered so far and where the next seven go.
#[derive(Clone, Copy, PartialEq, Eq, Debug, Structural)]
pub struct VarIntState {
    pub num: u32,
    pub shift: u32,
}

/// What one more byte does to a partial VarInt.
#[derive(Clone, Copy, PartialEq, Eq, Debug, Structural)]
pub enum VarIntStep {
    More(VarIntState),
    Done(i32),
    TooBig,
}

pub open spec fn spec_varint_step(st: VarIntState, byte: u8) -> VarIntStep {
    let num = st.num | (((byte & 0x7f) as u32) << st.shift);
    if byte & 0x80 == 0 {
        VarIntStep::Done(num as i32)
    } else if st.shift + 7 >= 35 {
        VarIntStep::TooBig
    } else {
        VarIntStep::More(VarIntState { num, shift: (st.shift + 7) as u32 })
    }
}

/// The state before the first byte.
pub fn varint_start() -> (r: VarIntState)
    ensures
        r == (VarIntState { num: 0, shift: 0 }),
{
    VarIntState { num: 0, shift: 0 }
}

/// Feed one byte to a partial VarInt (for reading one straight off a stream,
/// byte by byte).
pub fn varint_step(st: VarIntState, byte: u8) -> (r: VarIntStep)
    requires
        st.shift < 32,
    ensures
        r == spec_varint_step(st, byte),
{
    let num = st.num | (((byte & 0x7F) as u32) << st.shift);
    if byte & 0x80 == 0 {
        VarIntStep::Done(num as i32)
    } else if st.shift + 7 >= 35 {
        VarIntStep::TooBig
    } else {
        VarIntStep::More(VarIntState { num, shift: st.shift + 7 })
    }
}

/// Decoding the VarInt that starts at byte `i` of `s`, in state `st`:
/// the value and the index just past it, or why it failed.
pub open spec fn varint_scan(s: Seq<u8>, i: int, st: VarIntState) -> Result<(i32, int), CodecError>
    decreases s.len() - i,
{
    if i < 0 || i >= s.len() {
        Err(CodecError::UnexpectedEof)
    } else {
        match spec_varint_step(st, s[i]) {
            VarIntStep::Done(v) => Ok((v, i + 1)),
            VarIntStep::TooBig => Err(CodecError::VarIntTooBig),
            VarIntStep::More(st2) => varint_scan(s, i + 1, st2),
        }
    }
}

/// Decoding the VarInt that starts at byte `i` of `s`.
pub open spec fn spec_read_varint(s: Seq<u8>, i: int) -> Result<(i32, int), CodecError> {
    varint_scan(s, i, VarIntState { num: 0, shift: 0 })
}

proof fn lemma_varint_decode_steps(u: u32, s: Seq<u8>, p: int)
    requires
        0 <= p,
        p + varint_len(u) <= s.len(),
        s.subrange(p, p + varint_len(u)) == varint_bytes(u),
    ensures
        spec_read_varint(s, p) == Ok::<(i32, int), CodecError>((u as i32, p + varint_len(u))),
{
    let b = varint_bytes(u);
    let n = varint_len(u) as int;
    assert forall|i: int| 0 <= i < n implies s[p + i] == #[trigger] b[i] by {
        assert(s.subrange(p, p + n)[i] == s[p + i]);
    }
    let st0 = VarIntState { num: 0, shift: 0 };
    let st1 = VarIntState { num: u & 0x7f, shift: 7 };
    let st2 = VarIntState { num: u & 0x3fff, shift: 14 };
    let st3 = VarIntState { num: u & 0x1f_ffff, shift: 21 };
    let st4 = VarIntState { num: u & 0x0fff_ffff, shift: 28 };
    let done = VarIntStep::Done(u as i32);
    if n > 1 {
        assert(s[p] == b[0]);
        assert(((((u & 0x7f) | 0x80) as u8) & 0x80 != 0) && (0u32 | (((((u & 0x7f) | 0x80) as u8) & 0x7f) as u32) << 0u32) == u & 0x7f) by (bit_vector);
        assert(spec_varint_step(st0, s[p]) == VarIntStep::More(st1));
    }
    if n > 2 {
        assert(s[p + 1] == b[1]);
        assert(((((((u >> 7u32) & 0x7f) | 0x80) as u8) & 0x80) != 0) && ((u & 0x7f) | ((((((u >> 7u32) & 0x7f) | 0x80) as u8) & 0x7f) as u32) << 7u32) == u & 0x3fff) by (bit_vector);
        assert(spec_varint_step(st1, s[p + 1]) == VarIntStep::More(st2));
    }
    if n > 3 {
        assert(s[p + 2] == b[2]);
        assert(((((((u >> 14u32) & 0x7f) | 0x80) as u8) & 0x80) != 0) && ((u & 0x3fff) | ((((((u >> 14u32) & 0x7f) | 0x80) as u8) & 0x7f) as u32) << 14u32) == u & 0x1f_ffff) by (bit_vector);
        assert(spec_varint_step(st2, s[p + 2]) == VarIntStep::More(st3));
    }
    if n > 4 {
        assert(s[p + 3] == b[3]);
        assert(((((((u >> 21u32) & 0x7f) | 0x80) as u8) & 0x80) != 0) && ((u & 0x1f_ffff) | ((((((u >> 21u32) & 0x7f) | 0x80) as u8) & 0x7f) as u32) << 21u32) == u & 0x0fff_ffff) by (bit_vector);
        assert(spec_varint_step(st3, s[p + 3]) == VarIntStep::More(st4));
    }
    if n == 1 {
        assert(s[p] == b[0]);
        assert(u < 0x80 ==> ((u as u8) & 0x80 == 0) && (0u32 | (((u as u8) & 0x7f) as u32) << 0u32) == u) by (bit_vector);
        assert(spec_varint_step(st0, s[p]) == done);
    } else if n == 2 {
        assert(s[p + 1] == b[1]);
        assert(0x80 <= u < 0x4000 ==> (((u >> 7u32) as u8) & 0x80 == 0) && ((u & 0x7f) | (((((u >> 7u32) as u8) & 0x7f) as u32) << 7u32)) == u) by (bit_vector);
        assert(spec_varint_step(st1, s[p + 1]) == done);
        assert(varint_scan(s, p + 1, st1) == Ok::<(i32, int), CodecError>((u as i32, p + 2)));
    } else if n == 3 {
        assert(s[p + 2] == b[2]);
        assert(0x4000 <= u < 0x20_0000 ==> (((u >> 14u32) as u8) & 0x80 == 0) && ((u & 0x3fff) | (((((u >> 14u32) as u8) & 0x7f) as u32) << 14u32)) == u) by (bit_vector);
        assert(spec_varint_step(st2, s[p + 2]) == done);
        assert(varint_scan(s, p + 2, st2) == Ok::<(i32, int), CodecError>((u as i32, p + 3)));
        assert(varint_scan(s, p + 1, st1) == Ok::<(i32, int), CodecError>((u as i32, p + 3)));
    } else if n == 4 {
        assert(s[p + 3] == b[3]);
        assert(0x20_0000 <= u < 0x1000_0000 ==> (((u >> 21u32) as u8) & 0x80 == 0) && ((u & 0x1f_ffff) | (((((u >> 21u32) as u8) & 0x7f) as u32) << 21u32)) == u) by (bit_vector);
        assert(spec_varint_step(st3, s[p + 3]) == done);
        assert(varint_scan(s, p + 3, st3) == Ok::<(i32, int), CodecError>((u as i32, p + 4)));
        assert(varint_scan(s, p + 2, st2) == Ok::<(i32, int), CodecError>((u as i32, p + 4)));
        assert(varint_scan(s, p + 1, st1) == Ok::<(i32, int), CodecError>((u as i32, p + 4)));
    } else {
        assert(s[p + 4] == b[4]);
        assert((((u >> 28u32) as u8) & 0x80 == 0) && ((u & 0x0fff_ffff) | (((((u >> 28u32) as u8) & 0x7f) as u32) << 28u32)) == u) by (bit_vector);
        assert(spec_varint_step(st4, s[p + 4]) == done);
        assert(varint_scan(s, p + 4, st4) == Ok::<(i32, int), CodecError>((u as i32, p + 5)));
        assert(varint_scan(s, p + 3, st3) == Ok::<(i32, int), CodecError>((u as i32, p + 5)));
        assert(varint_scan(s, p + 2, st2) == Ok::<(i32, int), CodecError>((u as i32, p + 5)));
        assert(varint_scan(s, p + 1, st1) == Ok::<(i32, int), CodecError>((u as i32, p + 5)));
    }
}

/// Reading back a written VarInt gives the value, whatever follows it.
pub proof fn lemma_varint_roundtrip(v: i32, prefix: Seq<u8>, rest: Seq<u8>)
    ensures
        spec_read_varint(prefix + varint_bytes(v as u32) + rest, prefix.len() as int)
            == Ok::<(i32, int), CodecError>((v, (prefix.len() + varint_len(v as u32)) as int)),
        1 <= varint_bytes(v as u32).len() <= 5,
{
    let u = v as u32;
    let s = prefix + varint_bytes(u) + rest;
    assert(s.subrange(prefix.len() as int, (prefix.len() + varint_len(u)) as int) =~= varint_bytes(u));
    lemma_varint_decode_steps(u, s, prefix.len() as int);
    assert((v as u32) as i32 == v) by (bit_vector);
}

// ---------------------------------------------------------------------------
// Fixed-width integers.
// ---------------------------------------------------------------------------

pub open spec fn u16_be(v: u16) -> Seq<u8> {
    seq![(v >> 8u16) as u8, v as u8]
}

pub open spec fn u32_be(v: u32) -> Seq<u8> {
    seq![(v >> 24u32) as u8, (v >> 16u32) as u8, (v >> 8u32) as u8, v as u8]
}

pub open spec fn u64_be(v: u64) -> Seq<u8> {
    seq![
        (v >> 56u64) as u8, (v >> 48u64) as u8, (v >> 40u64) as u8, (v >> 32u64) as u8,
        (v >> 24u64) as u8, (v >> 16u64) as u8, (v >> 8u64) as u8, v as u8,
    ]
}

pub open spec fn u16_le(v: u16) -> Seq<u8> {
    seq![v as u8, (v >> 8u16) as u8]
}

pub open spec fn u32_le(v: u32) -> Seq<u8> {
    seq![v as u8, (v >> 8u32) as u8, (v >> 16u32) as u8, (v >> 24u32) as u8]
}

/// The big-endian value of the bytes `s[i..i + 2]`.
pub open spec fn be_u16_at(s: Seq<u8>, i: int) -> u16 {
    ((s[i] as u16) << 8u16) | (s[i + 1] as u16)
}

pub open spec fn be_u32_at(s: Seq<u8>, i: int) -> u32 {
    ((s[i] as u32) << 24u32) | ((s[i + 1] as u32) << 16u32) | ((s[i + 2] as u32) << 8u32) | (s[i + 3] as u32)
}

pub open spec fn be_u64_at(s: Seq<u8>, i: int) -> u64 {
    ((be_u32_at(s, i) as u64) << 32u64) | (be_u32_at(s, i + 4) as u64)
}

pub open spec fn le_u16_at(s: Seq<u8>, i: int) -> u16 {
    (s[i] as u16) | ((s[i + 1] as u16) << 8u16)
}

pub open spec fn le_u32_at(s: Seq<u8>, i: int) -> u32 {
    (s[i] as u32) | ((s[i + 1] as u32) << 8u32) | ((s[i + 2] as u32) << 16u32) | ((s[i + 3] as u32) << 24u32)
}

pub fn push_u16_be(buf: &mut Vec<u8>, v: u16)
    ensures
        final(buf)@ == old(buf)@ + u16_be(v),
{
    buf.push((v >> 8) as u8);
    buf.push(v as u8);
    assert(buf@ =~= old(buf)@ + u16_be(v));
}

pub fn push_u32_be(buf: &mut Vec<u8>, v: u32)
    ensures
        final(buf)@ == old(buf)@ + u32_be(v),
{
    buf.push((v >> 24) as u8);
    buf.push((v >> 16) as u8);
    buf.push((v >> 8) as u8);
    buf.push(v as u8);
    assert(buf@ =~= old(buf)@ + u32_be(v));
}

pub fn push_u64_be(buf: &mut Vec<u8>, v: u64)
    ensures
        final(buf)@ == old(buf)@ + u64_be(v),
{
    buf.push((v >> 56) as u8);
    buf.push((v >> 48) as u8);
    buf.push((v >> 40) as u8);
    buf.push((v >> 32) as u8);
    buf.push((v >> 24) as u8);
    buf.push((v >> 16) as u8);
    buf.push((v >> 8) as u8);
    buf.push(v as u8);
    assert(buf@ =~= old(buf)@ + u64_be(v));
}

pub fn push_u16_le(buf: &mut Vec<u8>, v: u16)
    ensures
        final(buf)@ == old(buf)@ + u16_le(v),
{
    buf.push(v as u8);
    buf.push((v >> 8) as u8);
    assert(buf@ =~= old(buf)@ + u16_le(v));
}

pub fn push_u32_le(buf: &mut Vec<u8>, v: u32)
    ensures
        final(buf)@ == old(buf)@ + u32_le(v),
{
    buf.push(v as u8);
    buf.push((v >> 8) as u8);
    buf.push((v >> 16) as u8);
    buf.push((v >> 24) as u8);
    assert(buf@ =~= old(buf)@ + u32_le(v));
}

/// The little-endian `u16` at `p[i..i + 2]`.
pub fn le_u16_from(p: &[u8], i: usize) -> (r: u16)
    requires
        i + 2 <= p@.len(),
    ensures
        r == le_u16_at(p@, i as int),
{
    (p[i] as u16) | ((p[i + 1] as u16) << 8)
}

/// The little-endian `u32` at `p[i..i + 4]`.
pub fn le_u32_from(p: &[u8], i: usize) -> (r: u32)
    requires
        i + 4 <= p@.len(),
    ensures
        r == le_u32_at(p@, i as int),
{
    (p[i] as u32) | ((p[i + 1] as u32) << 8) | ((p[i + 2] as u32) << 16) | ((p[i + 3] as u32) << 24)
}

/// Reading a written little-endian `u16` gives it back.
pub proof fn lemma_le_u16_field(b: Seq<u8>, i: int, v: u16)
    requires
        0 <= i,
        i + 2 <= b.len(),
        b.subrange(i, i + 2) == u16_le(v),
    ensures
        le_u16_at(b, i) == v,
{
    lemma_fixed_width_roundtrip(v, 0, 0, b, i);
}

/// Reading a written little-endian `u32` gives it back.
pub proof fn lemma_le_u32_field(b: Seq<u8>, i: int, v: u32)
    requires
        0 <= i,
        i + 4 <= b.len(),
        b.subrange(i, i + 4) == u32_le(v),
    ensures
        le_u32_at(b, i) == v,
{
    lemma_fixed_width_roundtrip(0, v, 0, b, i);
}

/// Appends every byte of `src`.
pub fn push_all(buf: &mut Vec<u8>, src: &[u8])
    ensures
        final(buf)@ == old(buf)@ + src@,
{
    let ghost start = buf@;
    let mut i: usize = 0;
    while i < src.len()
        invariant
            i <= src@.len(),
            buf@ == start + src@.take(i as int),
        decreases src@.len() - i,
    {
        buf.push(src[i]);
        assert(src@.take(i + 1) =~= src@.take(i as int).push(src@[i as int]));
        i = i + 1;
    }
    assert(src@.take(i as int) =~= src@);
}

/// Reading back written fixed-width integers gives the values.
pub proof fn lemma_fixed_width_roundtrip(a: u16, b: u32, c: u64, s: Seq<u8>, i: int)
    ensures
        0 <= i && i + 2 <= s.len() && s.subrange(i, i + 2) == u16_be(a) ==> be_u16_at(s, i) == a,
        0 <= i && i + 4 <= s.len() && s.subrange(i, i + 4) == u32_be(b) ==> be_u32_at(s, i) == b,
        0 <= i && i + 8 <= s.len() && s.subrange(i, i + 8) == u64_be(c) ==> be_u64_at(s, i) == c,
        0 <= i && i + 2 <= s.len() && s.subrange(i, i + 2) == u16_le(a) ==> le_u16_at(s, i) == a,
        0 <= i && i + 4 <= s.len() && s.subrange(i, i + 4) == u32_le(b) ==> le_u32_at(s, i) == b,
{
    if 0 <= i && i + 2 <= s.len() && s.subrange(i, i + 2) == u16_be(a) {
        assert(s[i] == s.subrange(i, i + 2)[0] && s[i + 1] == s.subrange(i, i + 2)[1]);
        assert((((a >> 8u16) as u8) as u16) << 8u16 | ((a as u8) as u16) == a) by (bit_vector);
    }
    if 0 <= i && i + 4 <= s.len() && s.subrange(i, i + 4) == u32_be(b) {
        let t = s.subrange(i, i + 4);
        assert(s[i] == t[0] && s[i + 1] == t[1] && s[i + 2] == t[2] && s[i + 3] == t[3]);
        assert(((((b >> 24u32) as u8) as u32) << 24u32) | ((((b >> 16u32) as u8) as u32) << 16u32)
            | ((((b >> 8u32) as u8) as u32) << 8u32) | ((b as u8) as u32) == b) by (bit_vector);
    }
    if 0 <= i && i + 8 <= s.len() && s.subrange(i, i + 8) == u64_be(c) {
        let t = s.subrange(i, i + 8);
        assert(s[i] == t[0] && s[i + 1] == t[1] && s[i + 2] == t[2] && s[i + 3] == t[3]);
        assert(s[i + 4] == t[4] && s[i + 5] == t[5] && s[i + 6] == t[6] && s[i + 7] == t[7]);
        let hi = be_u32_at(s, i);
        let lo = be_u32_at(s, i + 4);
        assert(hi == ((((c >> 56u64) as u8) as u32) << 24u32) | ((((c >> 48u64) as u8) as u32) << 16u32)
            | ((((c >> 40u64) as u8) as u32) << 8u32) | (((c >> 32u64) as u8) as u32));
        assert(lo == ((((c >> 24u64) as u8) as u32) << 24u32) | ((((c >> 16u64) as u8) as u32) << 16u32)
            | ((((c >> 8u64) as u8) as u32) << 8u32) | ((c as u8) as u32));
        assert(((((((c >> 56u64) as u8) as u32) << 24u32) | ((((c >> 48u64) as u8) as u32) << 16u32)
            | ((((c >> 40u64) as u8) as u32) << 8u32) | (((c >> 32u64) as u8) as u32)) as u64) << 32u64
            | (((((c >> 24u64) as u8) as u32) << 24u32) | ((((c >> 16u64) as u8) as u32) << 16u32)
            | ((((c >> 8u64) as u8) as u32) << 8u32) | ((c as u8) as u32)) as u64 == c) by (bit_vector);
    }
    if 0 <= i && i + 2 <= s.len() && s.subrange(i, i + 2) == u16_le(a) {
        assert(s[i] == s.subrange(i, i + 2)[0] && s[i + 1] == s.subrange(i, i + 2)[1]);
        assert(((a as u8) as u16) | ((((a >> 8u16) as u8) as u16) << 8u16) == a) by (bit_vector);
    }
    if 0 <= i && i + 4 <= s.len() && s.subrange(i, i + 4) == u32_le(b) {
        let t = s.subrange(i, i + 4);
        assert(s[i] == t[0] && s[i + 1] == t[1] && s[i + 2] == t[2] && s[i + 3] == t[3]);
        assert(((b as u8) as u32) | ((((b >> 8u32) as u8) as u32) << 8u32)
            | ((((b >> 16u32) as u8) as u32) << 16u32) | ((((b >> 24u32) as u8) as u32) << 24u32) == b) by (bit_vector);
    }
}


// ---------------------------------------------------------------------------
// Strings.
// ---------------------------------------------------------------------------

/// The characters that `String::from_utf8_lossy` makes of some bytes:
/// malformed sequences become U+FFFD.
pub uninterp spec fn utf8_lossy(bytes: Seq<u8>) -> Seq<char>;

/// `String::from_utf8`: the string the bytes spell when they are UTF-8.
#[verifier::external_body]
fn string_from_utf8(bytes: Vec<u8>) -> (r: Option<String>)
    ensures
        r is Some <==> valid_utf8(bytes@),
        r matches Some(s) ==> s@ == decode_utf8(bytes@),
{
    String::from_utf8(bytes).ok()
}

/// `String::from_utf8_lossy`: the bytes decoded, each malformed sequence
/// replaced by U+FFFD; valid UTF-8 decodes unchanged.
#[verifier::external_body]
pub(crate) fn string_from_utf8_lossy(bytes: &[u8]) -> (r: String)
    ensures
        r@ == utf8_lossy(bytes@),
        valid_utf8(bytes@) ==> r@ == decode_utf8(bytes@),
{
    String::from_utf8_lossy(bytes).into_owned()
}

/// Longest string a length prefix may announce.
pub const MAX_STRING_LEN: i32 = 0x10_0000;

/// A length-prefixed UTF-8 string: the VarInt byte count, then the bytes.
pub open spec fn string_bytes(s: Seq<char>) -> Seq<u8> {
    varint_bytes((encode_utf8(s).len() as i32) as u32) + encode_utf8(s)
}

/// Length-prefixed UTF-8 string (VarInt count of bytes, then the bytes).
pub fn write_string(buf: &mut Vec<u8>, s: &str)
    ensures
        final(buf)@ == old(buf)@ + string_bytes(s@),
{
    let bytes = s.as_bytes();
    let n = bytes.len();
    assert(bytes@ == encode_utf8(s@));
    write_varint(buf, n as i32);
    push_all(buf, bytes);
    assert(final(buf)@ =~= old(buf)@ + string_bytes(s@));
}

/// The string that starts at byte `i` of `s`: its characters (strictly
/// decoded when `lossy` is false) and the index just past it, or why it
/// failed.
pub open spec fn spec_read_string(s: Seq<u8>, i: int, lossy: bool) -> Result<(Seq<char>, int), CodecError> {
    match spec_read_varint(s, i) {
        Err(e) => Err(e),
        Ok((n, j)) => if n < 0 || n > MAX_STRING_LEN {
            Err(CodecError::StringTooLong)
        } else if j + n > s.len() {
            Err(CodecError::UnexpectedEof)
        } else if lossy {
            Ok((utf8_lossy(s.subrange(j, j + n)), j + n))
        } else if !valid_utf8(s.subrange(j, j + n)) {
            Err(CodecError::BadUtf8)
        } else {
            Ok((decode_utf8(s.subrange(j, j + n)), j + n))
        },
    }
}

/// Reading back a written string gives the string, whatever follows it.
pub proof fn lemma_string_roundtrip(text: Seq<char>, prefix: Seq<u8>, rest: Seq<u8>)
    requires
        encode_utf8(text).len() <= MAX_STRING_LEN,
    ensures
        spec_read_string(prefix + string_bytes(text) + rest, prefix.len() as int, false)
            == Ok::<(Seq<char>, int), CodecError>((text, (prefix.len() + string_bytes(text).len()) as int)),
{
    let bytes = encode_utf8(text);
    let n = bytes.len() as i32;
    let s = prefix + string_bytes(text) + rest;
    assert(s =~= prefix + varint_bytes(n as u32) + (bytes + rest));
    lemma_varint_roundtrip(n, prefix, bytes + rest);
    let j = prefix.len() + varint_len(n as u32);
    assert(n as int == bytes.len());
    assert(s.subrange(j as int, j + n) =~= bytes);
    assert(valid_utf8(bytes));
    assert(decode_utf8(bytes) == text);
}

// ---------------------------------------------------------------------------
// Read cursor.
// ---------------------------------------------------------------------------

/// A cursor over an in-memory packet body, with the field readers the
/// protocols need. A read that runs off the end fails with
/// `UnexpectedEof` and leaves the cursor at the end.
pub struct Buf {
    pub data: Vec<u8>,
    pub pos: usize,
}

/// Does `s` hold `n` bytes from index `i` on?
pub open spec fn has_bytes(s: Seq<u8>, i: int, n: int) -> bool {
    0 <= i && i + n <= s.len()
}

impl Buf {
    /// A cursor's position never passes the end of its data.
    pub open spec fn wf(&self) -> bool {
        self.pos <= self.data@.len()
    }

    pub fn new(v: Vec<u8>) -> (r: Buf)
        ensures
            r.wf(),
            r.data@ == v@,
            r.pos == 0,
    {
        Buf { data: v, pos: 0 }
    }

    /// Bytes left to read.
    pub fn remaining(&self) -> (r: usize)
        requires
            self.wf(),
        ensures
            r == self.data@.len() - self.pos,
    {
        self.data.len() - self.pos
    }

    pub fn position(&self) -> (r: usize)
        ensures
            r == self.pos,
    {
        self.pos
    }

    /// Read exactly `n` bytes.
    pub fn read_exact(&mut self, n: usize) -> (r: Result<Vec<u8>, CodecError>)
        requires
            old(self).wf(),
        ensures
            final(self).wf(),
            final(self).data@ == old(self).data@,
            has_bytes(old(self).data@, old(self).pos as int, n as int) ==> (r matches Ok(v)
                && v@ == old(self).data@.subrange(old(self).pos as int, old(self).pos + n)
                && final(self).pos == old(self).pos + n),
            !has_bytes(old(self).data@, old(self).pos as int, n as int) ==> r == Err::<Vec<u8>, CodecError>(CodecError::UnexpectedEof)
                && final(self).pos == final(self).data@.len(),
    {
        if n > self.data.len() - self.pos {
            self.pos = self.data.len();
            return Err(CodecError::UnexpectedEof);
        }
        let mut out: Vec<u8> = Vec::new();
        let end = self.pos + n;
        let mut i: usize = 0;
        while i < n
            invariant
                self.wf(),
                end == self.pos + n,
                self.pos + n <= self.data@.len(),
                i <= n,
                out@ == self.data@.subrange(self.pos as int, self.pos + i),
            decreases n - i,
        {
            out.push(self.data[self.pos + i]);
            assert(self.data@.subrange(self.pos as int, self.pos + i + 1) =~= out@);
            i = i + 1;
        }
        self.pos = self.pos + n;
        Ok(out)
    }

    pub fn u8(&mut self) -> (r: Result<u8, CodecError>)
        requires
            old(self).wf(),
        ensures
            final(self).wf(),
            final(self).data@ == old(self).data@,
            has_bytes(old(self).data@, old(self).pos as int, 1) ==> r == Ok::<u8, CodecError>(old(self).data@[old(self).pos as int])
                && final(self).pos == old(self).pos + 1,
            !has_bytes(old(self).data@, old(self).pos as int, 1) ==> r == Err::<u8, CodecError>(CodecError::UnexpectedEof)
                && final(self).pos == final(self).data@.len(),
    {
        if self.pos >= self.data.len() {
            self.pos = self.data.len();
            return Err(CodecError::UnexpectedEof);
        }
        let b = self.data[self.pos];
        self.pos = self.pos + 1;
        Ok(b)
    }

    /// Big-endian `u16`.
    pub fn u16(&mut self) -> (r: Result<u16, CodecError>)
        requires
            old(self).wf(),
        ensures
            final(self).wf(),
            final(self).data@ == old(self).data@,
            has_bytes(old(self).data@, old(self).pos as int, 2) ==> r == Ok::<u16, CodecError>(be_u16_at(old(self).data@, old(self).pos as int))
                && final(self).pos == old(self).pos + 2,
            !has_bytes(old(self).data@, old(self).pos as int, 2) ==> r == Err::<u16, CodecError>(CodecError::UnexpectedEof)
                && final(self).pos == final(self).data@.len(),
    {
        if self.data.len() - self.pos < 2 {
            self.pos = self.data.len();
            return Err(CodecError::UnexpectedEof);
        }
        let p = self.pos;
        let v = ((self.data[p] as u16) << 8) | (self.data[p + 1] as u16);
        self.pos = p + 2;
        Ok(v)
    }

    /// Big-endian `u32`.
    pub fn u32(&mut self) -> (r: Result<u32, CodecError>)
        requires
            old(self).wf(),
        ensures
            final(self).wf(),
            final(self).data@ == old(self).data@,
            has_bytes(old(self).data@, old(self).pos as int, 4) ==> r == Ok::<u32, CodecError>(be_u32_at(old(self).data@, old(self).pos as int))
                && final(self).pos == old(self).pos + 4,
            !has_bytes(old(self).data@, old(self).pos as int, 4) ==> r == Err::<u32, CodecError>(CodecError::UnexpectedEof)
                && final(self).pos == final(self).data@.len(),
    {
        if self.data.len() - self.pos < 4 {
            self.pos = self.data.len();
            return Err(CodecError::UnexpectedEof);
        }
        let p = self.pos;
        let v = ((self.data[p] as u32) << 24) | ((self.data[p + 1] as u32) << 16)
            | ((self.data[p + 2] as u32) << 8) | (self.data[p + 3] as u32);
        self.pos = p + 4;
        Ok(v)
    }

    /// Big-endian `u64`.
    pub fn u64(&mut self) -> (r: Result<u64, CodecError>)
        requires
            old(self).wf(),
        ensures
            final(self).wf(),
            final(self).data@ == old(self).data@,
            has_bytes(old(self).data@, old(self).pos as int, 8) ==> r == Ok::<u64, CodecError>(be_u64_at(old(self).data@, old(self).pos as int))
                && final(self).pos == old(self).pos + 8,
            !has_bytes(old(self).data@, old(self).pos as int, 8) ==> r == Err::<u64, CodecError>(CodecError::UnexpectedEof)
                && final(self).pos == final(self).data@.len(),
    {
        if self.data.len() - self.pos < 8 {
            self.pos = self.data.len();
            return Err(CodecError::UnexpectedEof);
        }
        let hi = self.u32();
        let lo = self.u32();
        match (hi, lo) {
            (Ok(h), Ok(l)) => Ok(((h as u64) << 32) | (l as u64)),
            _ => Err(CodecError::UnexpectedEof),
        }
    }

    /// Big-endian `i16`.
    pub fn i16(&mut self) -> (r: Result<i16, CodecError>)
        requires
            old(self).wf(),
        ensures
            final(self).wf(),
            final(self).data@ == old(self).data@,
            has_bytes(old(self).data@, old(self).pos as int, 2) ==> r == Ok::<i16, CodecError>(be_u16_at(old(self).data@, old(self).pos as int) as i16)
                && final(self).pos == old(self).pos + 2,
            !has_bytes(old(self).data@, old(self).pos as int, 2) ==> r == Err::<i16, CodecError>(CodecError::UnexpectedEof)
                && final(self).pos == final(self).data@.len(),
    {
        match self.u16() {
            Ok(v) => Ok(v as i16),
            Err(e) => Err(e),
        }
    }

    /// Big-endian `i32`.
    pub fn i32(&mut self) -> (r: Result<i32, CodecError>)
        requires
            old(self).wf(),
        ensures
            final(self).wf(),
            final(self).data@ == old(self).data@,
            has_bytes(old(self).data@, old(self).pos as int, 4) ==> r == Ok::<i32, CodecError>(be_u32_at(old(self).data@, old(self).pos as int) as i32)
                && final(self).pos == old(self).pos + 4,
            !has_bytes(old(self).data@, old(self).pos as int, 4) ==> r == Err::<i32, CodecError>(CodecError::UnexpectedEof)
                && final(self).pos == final(self).data@.len(),
    {
        match self.u32() {
            Ok(v) => Ok(v as i32),
            Err(e) => Err(e),
        }
    }

    /// Big-endian `i64`.
    pub fn i64(&mut self) -> (r: Result<i64, CodecError>)
        requires
            old(self).wf(),
        ensures
            final(self).wf(),
            final(self).data@ == old(self).data@,
            has_bytes(old(self).data@, old(self).pos as int, 8) ==> r == Ok::<i64, CodecError>(be_u64_at(old(self).data@, old(self).pos as int) as i64)
                && final(self).pos == old(self).pos + 8,
            !has_bytes(old(self).data@, old(self).pos as int, 8) ==> r == Err::<i64, CodecError>(CodecError::UnexpectedEof)
                && final(self).pos == final(self).data@.len(),
    {
        match self.u64() {
            Ok(v) => Ok(v as i64),
            Err(e) => Err(e),
        }
    }

    /// The eight bytes of a big-endian double, as its bit pattern.
    pub fn f64_bits(&mut self) -> (r: Result<u64, CodecError>)
        requires
            old(self).wf(),
        ensures
            final(self).wf(),
            final(self).data@ == old(self).data@,
            has_bytes(old(self).data@, old(self).pos as int, 8) ==> r == Ok::<u64, CodecError>(be_u64_at(old(self).data@, old(self).pos as int))
                && final(self).pos == old(self).pos + 8,
            !has_bytes(old(self).data@, old(self).pos as int, 8) ==> r == Err::<u64, CodecError>(CodecError::UnexpectedEof)
                && final(self).pos == final(self).data@.len(),
    {
        self.u64()
    }

    /// A VarInt.
    pub fn varint(&mut self) -> (r: Result<i32, CodecError>)
        requires
            old(self).wf(),
        ensures
            final(self).wf(),
            final(self).data@ == old(self).data@,
            final(self).pos >= old(self).pos,
            match spec_read_varint(old(self).data@, old(self).pos as int) {
                Ok((v, end)) => r == Ok::<i32, CodecError>(v) && final(self).pos == end,
                Err(e) => r == Err::<i32, CodecError>(e)
                    && (e == CodecError::UnexpectedEof ==> final(self).pos == final(self).data@.len())
                    && (e == CodecError::VarIntTooBig ==> final(self).pos == old(self).pos + 5),
            },
    {
        let ghost s = self.data@;
        let ghost p0 = self.pos as int;
        let mut st = varint_start();
        loop
            invariant
                self.wf(),
                self.data@ == s,
                s == old(self).data@,
                p0 == old(self).pos,
                self.pos >= p0,
                st.shift == 0 || st.shift == 7 || st.shift == 14 || st.shift == 21 || st.shift == 28,
                st.shift == 7 * (self.pos - p0),
                varint_scan(s, p0, VarIntState { num: 0, shift: 0 }) == varint_scan(s, self.pos as int, st),
            decreases s.len() - self.pos,
        {
            if self.pos >= self.data.len() {
                return Err(CodecError::UnexpectedEof);
            }
            let b = self.data[self.pos];
            self.pos = self.pos + 1;
            match varint_step(st, b) {
                VarIntStep::Done(v) => {
                    return Ok(v);
                },
                VarIntStep::TooBig => {
                    return Err(CodecError::VarIntTooBig);
                },
                VarIntStep::More(next) => {
                    st = next;
                },
            }
        }
    }

    /// A length-prefixed string, decoded leniently (malformed UTF-8 becomes
    /// U+FFFD).
    pub fn string(&mut self) -> (r: Result<String, CodecError>)
        requires
            old(self).wf(),
        ensures
            final(self).wf(),
            final(self).data@ == old(self).data@,
            match spec_read_string(old(self).data@, old(self).pos as int, true) {
                Ok((text, end)) => (r matches Ok(t) && t@ == text && final(self).pos == end),
                Err(e) => r == Err::<String, CodecError>(e),
            },
    {
        let n = match self.varint() {
            Ok(n) => n,
            Err(e) => {
                return Err(e);
            },
        };
        if n < 0 || n > MAX_STRING_LEN {
            return Err(CodecError::StringTooLong);
        }
        let bytes = match self.read_exact(n as usize) {
            Ok(b) => b,
            Err(e) => {
                return Err(e);
            },
        };
        Ok(string_from_utf8_lossy(bytes.as_slice()))
    }

    /// Skip `n` bytes; fails (without moving) when fewer remain.
    pub fn skip(&mut self, n: usize) -> (r: Result<(), CodecError>)
        requires
            old(self).wf(),
        ensures
            final(self).wf(),
            final(self).data@ == old(self).data@,
            has_bytes(old(self).data@, old(self).pos as int, n as int) ==> r is Ok && final(self).pos == old(self).pos + n,
            !has_bytes(old(self).data@, old(self).pos as int, n as int) ==> r == Err::<(), CodecError>(CodecError::SkipPastEnd)
                && final(self).pos == old(self).pos,
    {
        if n > self.data.len() - self.pos {
            return Err(CodecError::SkipPastEnd);
        }
        self.pos = self.pos + n;
        Ok(())
    }
}

/// Read a VarInt from a cursor over an in-memory slice.
pub fn read_varint_buf(c: &mut Buf) -> (r: Result<i32, CodecError>)
    requires
        old(c).wf(),
    ensures
        final(c).wf(),
        final(c).data@ == old(c).data@,
        match spec_read_varint(old(c).data@, old(c).pos as int) {
            Ok((v, end)) => r == Ok::<i32, CodecError>(v) && final(c).pos == end,
            Err(e) => r == Err::<i32, CodecError>(e)
                && (e == CodecError::UnexpectedEof ==> final(c).pos == final(c).data@.len())
                && (e == CodecError::VarIntTooBig ==> final(c).pos == old(c).pos + 5),
        },
{
    c.varint()
}

/// Read the VarInt that prefixes a packet's length, from the bytes buffered
/// so far; the same decoding as `read_varint_buf`.
pub fn read_varint_stream(c: &mut Buf) -> (r: Result<i32, CodecError>)
    requires
        old(c).wf(),
    ensures
        final(c).wf(),
        final(c).data@ == old(c).data@,
        match spec_read_varint(old(c).data@, old(c).pos as int) {
            Ok((v, end)) => r == Ok::<i32, CodecError>(v) && final(c).pos == end,
            Err(e) => r == Err::<i32, CodecError>(e)
                && (e == CodecError::UnexpectedEof ==> final(c).pos == final(c).data@.len())
                && (e == CodecError::VarIntTooBig ==> final(c).pos == old(c).pos + 5),
        },
{
    c.varint()
}

/// Length-prefixed UTF-8 string, strictly decoded.
pub fn read_string(c: &mut Buf) -> (r: Result<String, CodecError>)
    requires
        old(c).wf(),
    ensures
        final(c).wf(),
        final(c).data@ == old(c).data@,
        match spec_read_string(old(c).data@, old(c).pos as int, false) {
            Ok((text, end)) => (r matches Ok(t) && t@ == text && final(c).pos == end),
            Err(e) => r == Err::<String, CodecError>(e),
        },
{
    let n = match c.varint() {
        Ok(n) => n,
        Err(e) => {
            return Err(e);
        },
    };
    if n < 0 || n > MAX_STRING_LEN {
        return Err(CodecError::StringTooLong);
    }
    let bytes = match c.read_exact(n as usize) {
        Ok(b) => b,
        Err(e) => {
            return Err(e);
        },
    };
    match string_from_utf8(bytes) {
        Some(s) => Ok(s),
        None => Err(CodecError::BadUtf8),
    }
}

} // verus!
