//! Minecraft Java Edition client-side decoding: network NBT skipping,
//! paletted block-state containers, chunk sections, chat components, and
//! the compressed packet framing of the play connection.

use vstd::prelude::*;
use crate::blocks::Block;
use crate::codec;
use crate::codec::{Buf, CodecError};
use crate::text;
use std::io::{Read, Write};

verus! {

broadcast use vstd::string::group_string_axioms;

pub const PROTOCOL_VERSION: i32 = 765;

// ---------------------------------------------------------------------------
// Network NBT.
// ---------------------------------------------------------------------------

/// Skipping `n` bytes from index `i`.
pub open spec fn skip_n(s: Seq<u8>, i: int, n: int) -> Result<int, CodecError> {
    if 0 <= i && 0 <= n && i + n <= s.len() {
        Ok(i + n)
    } else {
        Err(CodecError::SkipPastEnd)
    }
}

/// Skipping a count-prefixed array whose 4-byte big-endian count starts at
/// `i` and whose elements are `width` bytes each.
pub open spec fn skip_array(s: Seq<u8>, i: int, width: int) -> Result<int, CodecError> {
    if !codec::has_bytes(s, i, 4) {
        Err(CodecError::UnexpectedEof)
    } else {
        let n = codec::be_u32_at(s, i) as i32;
        if n < 0 {
            Err(CodecError::SkipPastEnd)
        } else {
            skip_n(s, i + 4, n * width)
        }
    }
}

/// Skipping the payload of an NBT value of type `tag` that starts at `i`:
/// the index just past it, or why it is malformed.
pub open spec fn nbt_payload(s: Seq<u8>, i: int, tag: u8) -> Result<int, CodecError>
    decreases s.len() - i, 1int,
{
    if i < 0 || i > s.len() {
        Err(CodecError::UnexpectedEof)
    } else if tag == 1 {
        skip_n(s, i, 1)
    } else if tag == 2 {
        skip_n(s, i, 2)
    } else if tag == 3 || tag == 5 {
        skip_n(s, i, 4)
    } else if tag == 4 || tag == 6 {
        skip_n(s, i, 8)
    } else if tag == 7 {
        skip_array(s, i, 1)
    } else if tag == 8 {
        if !codec::has_bytes(s, i, 2) {
            Err(CodecError::UnexpectedEof)
        } else {
            let n = codec::be_u16_at(s, i) as i16;
            if n < 0 {
                Err(CodecError::SkipPastEnd)
            } else {
                skip_n(s, i + 2, n as int)
            }
        }
    } else if tag == 9 {
        if !codec::has_bytes(s, i, 5) {
            Err(CodecError::UnexpectedEof)
        } else {
            nbt_list(s, i + 5, s[i], (codec::be_u32_at(s, i + 1) as i32) as int)
        }
    } else if tag == 10 {
        nbt_compound(s, i)
    } else if tag == 11 {
        skip_array(s, i, 4)
    } else if tag == 12 {
        skip_array(s, i, 8)
    } else {
        Err(CodecError::BadNbtTag)
    }
}

/// Skipping `n` list elements of type `et` from `j`. (Every element that
/// parses moves forward; a guard says so for the termination argument.)
pub open spec fn nbt_list(s: Seq<u8>, j: int, et: u8, n: int) -> Result<int, CodecError>
    decreases s.len() - j, 2int,
{
    if n <= 0 {
        Ok(j)
    } else if j < 0 || j > s.len() {
        Err(CodecError::UnexpectedEof)
    } else {
        match nbt_payload(s, j, et) {
            Ok(k) => if j < k <= s.len() {
                nbt_list(s, k, et, n - 1)
            } else {
                Err(CodecError::BadNbtTag)
            },
            Err(e) => Err(e),
        }
    }
}

/// Skipping named compound entries from `j` up to and including the end
/// tag.
pub open spec fn nbt_compound(s: Seq<u8>, j: int) -> Result<int, CodecError>
    decreases s.len() - j, 0int,
{
    if !codec::has_bytes(s, j, 1) {
        Err(CodecError::UnexpectedEof)
    } else if s[j] == 0 {
        Ok(j + 1)
    } else if !codec::has_bytes(s, j + 1, 2) {
        Err(CodecError::UnexpectedEof)
    } else {
        let nlen = codec::be_u16_at(s, j + 1) as i16;
        if nlen < 0 || !codec::has_bytes(s, j + 3, nlen as int) {
            Err(CodecError::SkipPastEnd)
        } else {
            match nbt_payload(s, j + 3 + nlen, s[j]) {
                Ok(k) => if j < k <= s.len() {
                    nbt_compound(s, k)
                } else {
                    Err(CodecError::BadNbtTag)
                },
                Err(e) => Err(e),
            }
        }
    }
}

/// Skipping a network-NBT value whose root has no name.
pub open spec fn spec_skip_nbt(s: Seq<u8>, i: int) -> Result<int, CodecError> {
    if !codec::has_bytes(s, i, 1) {
        Err(CodecError::UnexpectedEof)
    } else if s[i] == 0 {
        Ok(i + 1)
    } else {
        nbt_payload(s, i + 1, s[i])
    }
}

fn skip_array_exec(b: &mut Buf, width: u64) -> (r: Result<(), CodecError>)
    requires
        old(b).wf(),
        width == 1 || width == 4 || width == 8,
    ensures
        final(b).wf(),
        final(b).data@ == old(b).data@,
        match skip_array(old(b).data@, old(b).pos as int, width as int) {
            Ok(k) => r is Ok && final(b).pos == k,
            Err(e) => r == Err::<(), CodecError>(e),
        },
{
    let n = match b.i32() {
        Ok(n) => n,
        Err(e) => {
            return Err(e);
        },
    };
    if n < 0 {
        return Err(CodecError::SkipPastEnd);
    }
    let bytes = (n as u64) * width;
    if bytes > (b.remaining() as u64) {
        return Err(CodecError::SkipPastEnd);
    }
    b.skip(bytes as usize)
}

/// Skip the payload of an NBT value of type `tag`.
pub fn skip_nbt_payload(b: &mut Buf, tag: u8) -> (r: Result<(), CodecError>)
    requires
        old(b).wf(),
    ensures
        final(b).wf(),
        final(b).data@ == old(b).data@,
        match nbt_payload(old(b).data@, old(b).pos as int, tag) {
            Ok(k) => r is Ok && final(b).pos == k,
            Err(e) => r == Err::<(), CodecError>(e),
        },
        r is Ok ==> final(b).pos > old(b).pos,
    decreases old(b).data@.len() - old(b).pos, 1int,
{
    let ghost s = b.data@;
    let ghost p0 = b.pos as int;
    if tag == 1 {
        b.skip(1)
    } else if tag == 2 {
        b.skip(2)
    } else if tag == 3 || tag == 5 {
        b.skip(4)
    } else if tag == 4 || tag == 6 {
        b.skip(8)
    } else if tag == 7 {
        skip_array_exec(b, 1)
    } else if tag == 8 {
        let n = match b.i16() {
            Ok(n) => n,
            Err(e) => {
                return Err(e);
            },
        };
        if n < 0 {
            return Err(CodecError::SkipPastEnd);
        }
        b.skip(n as usize)
    } else if tag == 9 {
        if b.remaining() < 5 {
            b.pos = b.data.len();
            return Err(CodecError::UnexpectedEof);
        }
        let et = match b.u8() {
            Ok(t) => t,
            Err(e) => {
                return Err(e);
            },
        };
        let n = match b.i32() {
            Ok(n) => n,
            Err(e) => {
                return Err(e);
            },
        };
        let mut k: i32 = 0;
        while k < n
            invariant
                b.wf(),
                b.data@ == s,
                s == old(b).data@,
                p0 == old(b).pos,
                b.pos > p0,
                0 <= k <= n || n <= 0,
                nbt_payload(s, p0, tag) == nbt_list(s, b.pos as int, et, (n - k) as int),
            decreases n - k,
        {
            let ghost j = b.pos as int;
            match skip_nbt_payload(b, et) {
                Ok(()) => {},
                Err(e) => {
                    return Err(e);
                },
            }
            k = k + 1;
        }
        Ok(())
    } else if tag == 10 {
        loop
            invariant
                b.wf(),
                b.data@ == s,
                s == old(b).data@,
                p0 == old(b).pos,
                b.pos >= p0,
                nbt_payload(s, p0, tag) == nbt_compound(s, b.pos as int),
            decreases s.len() - b.pos,
        {
            let t = match b.u8() {
                Ok(t) => t,
                Err(e) => {
                    return Err(e);
                },
            };
            if t == 0 {
                return Ok(());
            }
            let nlen = match b.i16() {
                Ok(n) => n,
                Err(e) => {
                    return Err(e);
                },
            };
            if nlen < 0 {
                return Err(CodecError::SkipPastEnd);
            }
            match b.skip(nlen as usize) {
                Ok(()) => {},
                Err(e) => {
                    return Err(e);
                },
            }
            match skip_nbt_payload(b, t) {
                Ok(()) => {},
                Err(e) => {
                    return Err(e);
                },
            }
        }
    } else if tag == 11 {
        skip_array_exec(b, 4)
    } else if tag == 12 {
        skip_array_exec(b, 8)
    } else {
        Err(CodecError::BadNbtTag)
    }
}

/// Skip a network-NBT value whose root has no name (1.20.2+ heightmaps).
pub fn skip_nbt(b: &mut Buf) -> (r: Result<(), CodecError>)
    requires
        old(b).wf(),
    ensures
        final(b).wf(),
        final(b).data@ == old(b).data@,
        match spec_skip_nbt(old(b).data@, old(b).pos as int) {
            Ok(k) => r is Ok && final(b).pos == k,
            Err(e) => r == Err::<(), CodecError>(e),
        },
{
    let tag = match b.u8() {
        Ok(t) => t,
        Err(e) => {
            return Err(e);
        },
    };
    if tag == 0 {
        return Ok(());
    }
    skip_nbt_payload(b, tag)
}


// ---------------------------------------------------------------------------
// Paletted containers.
// ---------------------------------------------------------------------------

/// `n` VarInts from index `i`, each taken as its 32 bits, and the index
/// after them.
pub open spec fn varints_at(s: Seq<u8>, i: int, n: nat) -> Result<(Seq<u32>, int), CodecError>
    decreases n,
{
    if n == 0 {
        Ok((Seq::empty(), i))
    } else {
        match varints_at(s, i, (n - 1) as nat) {
            Ok((vs, j)) => match codec::spec_read_varint(s, j) {
                Ok((v, k)) => Ok((vs.push(v as u32), k)),
                Err(e) => Err(e),
            },
            Err(e) => Err(e),
        }
    }
}

/// `n` big-endian 64-bit words from index `i`, and the index after them.
pub open spec fn longs_at(s: Seq<u8>, i: int, n: nat) -> Result<(Seq<u64>, int), CodecError> {
    if codec::has_bytes(s, i, 8 * n as int) {
        Ok((Seq::new(n, |k: int| codec::be_u64_at(s, i + 8 * k)), i + 8 * n))
    } else {
        Err(CodecError::UnexpectedEof)
    }
}

/// Mask of the low `bpe` bits.
pub open spec fn entry_mask(bpe: u64) -> u64 {
    ((1u64 << bpe) - 1) as u64
}

/// Cell `i` of packed `bpe`-bit indices: cells fill each word from its low
/// bits up, `64 / bpe` cells per word, never straddling words.
pub open spec fn unpack_cell(longs: Seq<u64>, bpe: u64, i: int) -> u32 {
    let per = 64u64 / bpe;
    ((longs[i / per as int] >> (((i % per as int) as u64) * bpe)) & entry_mask(bpe)) as u32
}

/// A packed index resolved through the palette (unknown indices read 0);
/// without a palette the index is already the value.
pub open spec fn resolve(palette: Option<Seq<u32>>, raw: u32) -> u32 {
    match palette {
        Some(p) => if (raw as int) < p.len() { p[raw as int] } else { 0 },
        None => raw,
    }
}

/// The `entries` cells of a container: packed cells while the words last,
/// zero after.
pub open spec fn paletted_cells(longs: Seq<u64>, bpe: u64, palette: Option<Seq<u32>>, entries: nat) -> Seq<u32> {
    Seq::new(entries, |i: int|
        if i < longs.len() * (64u64 / bpe) as int {
            resolve(palette, unpack_cell(longs, bpe, i))
        } else {
            0
        })
}

/// The palette of a container with `bpe` bits per entry at `i`: a
/// VarInt-counted list of VarInts for up to 8 bits, none (direct ids) above.
pub open spec fn palette_at(s: Seq<u8>, i: int, bpe: u64) -> Result<(Option<Seq<u32>>, int), CodecError> {
    if bpe <= 8 {
        match codec::spec_read_varint(s, i) {
            Ok((n, j)) => if n < 0 {
                Err(CodecError::UnexpectedEof)
            } else {
                match varints_at(s, j, n as nat) {
                    Ok((p, k)) => Ok((Some(p), k)),
                    Err(e) => Err(e),
                }
            },
            Err(e) => Err(e),
        }
    } else {
        Ok((None, i))
    }
}

/// Reading one paletted container of `entries` cells at `i`: the cell
/// values (palette resolved) and the index after the container.
pub open spec fn spec_read_paletted(s: Seq<u8>, i: int, entries: nat) -> Result<(Seq<u32>, int), CodecError> {
    if !codec::has_bytes(s, i, 1) {
        Err(CodecError::UnexpectedEof)
    } else if s[i] == 0 {
        match codec::spec_read_varint(s, i + 1) {
            Ok((v, j)) => match codec::spec_read_varint(s, j) {
                Ok((dl, k)) => if dl < 0 || !codec::has_bytes(s, k, 8 * dl) {
                    Err(CodecError::SkipPastEnd)
                } else {
                    Ok((Seq::new(entries, |c: int| v as u32), k + 8 * dl))
                },
                Err(e) => Err(e),
            },
            Err(e) => Err(e),
        }
    } else if s[i] >= 64 {
        Err(CodecError::BadBitsPerEntry)
    } else {
        let bpe = s[i] as u64;
        match palette_at(s, i + 1, bpe) {
            Ok((palette, j)) => match codec::spec_read_varint(s, j) {
                Ok((dl, k)) => if dl < 0 {
                    Err(CodecError::UnexpectedEof)
                } else {
                    match longs_at(s, k, dl as nat) {
                        Ok((longs, e)) => Ok((paletted_cells(longs, bpe, palette, entries), e)),
                        Err(err) => Err(err),
                    }
                },
                Err(e) => Err(e),
            },
            Err(e) => Err(e),
        }
    }
}

proof fn lemma_varints_err(s: Seq<u8>, p0: int, i: nat, m: nat, e: CodecError)
    requires
        varints_at(s, p0, i) == Err::<(Seq<u32>, int), CodecError>(e),
        m >= i,
    ensures
        varints_at(s, p0, m) == Err::<(Seq<u32>, int), CodecError>(e),
    decreases m,
{
    if m > i {
        lemma_varints_err(s, p0, i, (m - 1) as nat, e);
    }
}

fn read_varints(b: &mut Buf, n: usize) -> (r: Result<Vec<u32>, CodecError>)
    requires
        old(b).wf(),
    ensures
        final(b).wf(),
        final(b).data@ == old(b).data@,
        match varints_at(old(b).data@, old(b).pos as int, n as nat) {
            Ok((vs, k)) => (r matches Ok(v) && v@ == vs && final(b).pos == k),
            Err(e) => r == Err::<Vec<u32>, CodecError>(e),
        },
{
    let ghost s = b.data@;
    let ghost p0 = b.pos as int;
    let mut out: Vec<u32> = Vec::new();
    let mut i: usize = 0;
    while i < n
        invariant
            b.wf(),
            b.data@ == s,
            s == old(b).data@,
            p0 == old(b).pos,
            i <= n,
            varints_at(s, p0, i as nat) == Ok::<(Seq<u32>, int), CodecError>((out@, b.pos as int)),
        decreases n - i,
    {
        match b.varint() {
            Ok(v) => {
                out.push(v as u32);
            },
            Err(e) => {
                proof {
                    lemma_varints_err(s, p0, (i + 1) as nat, n as nat, e);
                }
                return Err(e);
            },
        }
        i = i + 1;
    }
    Ok(out)
}

/// Read one paletted container of `entries` cells, returning a value per
/// cell (palette already resolved to global ids for block states).
pub fn read_paletted(b: &mut Buf, entries: usize) -> (r: Result<Vec<u32>, CodecError>)
    requires
        old(b).wf(),
    ensures
        final(b).wf(),
        final(b).data@ == old(b).data@,
        match spec_read_paletted(old(b).data@, old(b).pos as int, entries as nat) {
            Ok((cells, k)) => (r matches Ok(v) && v@ == cells && final(b).pos == k),
            Err(e) => r == Err::<Vec<u32>, CodecError>(e),
        },
{
    let ghost s = b.data@;
    let ghost p0 = b.pos as int;
    let bpe = match b.u8() {
        Ok(v) => v,
        Err(e) => {
            return Err(e);
        },
    };
    if bpe == 0 {
        // Single valued: one id for the whole section/biome volume.
        let value = match b.varint() {
            Ok(v) => v as u32,
            Err(e) => {
                return Err(e);
            },
        };
        let dl = match b.varint() {
            Ok(v) => v,
            Err(e) => {
                return Err(e);
            },
        };
        if dl < 0 || (dl as u64) * 8 > (b.remaining() as u64) {
            return Err(CodecError::SkipPastEnd);
        }
        match b.skip((dl as usize) * 8) {
            Ok(()) => {},
            Err(e) => {
                return Err(e);
            },
        }
        let mut out: Vec<u32> = Vec::new();
        let mut i: usize = 0;
        while i < entries
            invariant
                i <= entries,
                out@ == Seq::new(i as nat, |c: int| value),
            decreases entries - i,
        {
            out.push(value);
            i = i + 1;
            assert(out@ =~= Seq::new(i as nat, |c: int| value));
        }
        return Ok(out);
    }
    if bpe >= 64 {
        return Err(CodecError::BadBitsPerEntry);
    }
    let bits = bpe as u64;
    let palette: Option<Vec<u32>> = if bpe <= 8 {
        let n = match b.varint() {
            Ok(v) => v,
            Err(e) => {
                return Err(e);
            },
        };
        if n < 0 {
            return Err(CodecError::UnexpectedEof);
        }
        match read_varints(b, n as usize) {
            Ok(p) => Some(p),
            Err(e) => {
                return Err(e);
            },
        }
    } else {
        None  // direct: indices are already global ids
    };
    let ghost pal_view: Option<Seq<u32>> = match &palette {
        Some(p) => Some(p@),
        None => None,
    };
    assert(palette_at(s, p0 + 1, bits) == Ok::<(Option<Seq<u32>>, int), CodecError>((pal_view, b.pos as int)));
    let dl = match b.varint() {
        Ok(v) => v,
        Err(e) => {
            return Err(e);
        },
    };
    if dl < 0 {
        return Err(CodecError::UnexpectedEof);
    }
    let ghost k0 = b.pos as int;
    if (dl as u64) * 8 > (b.remaining() as u64) {
        b.pos = b.data.len();
        return Err(CodecError::UnexpectedEof);
    }
    let mut longs: Vec<u64> = Vec::new();
    let mut j: usize = 0;
    while j < dl as usize
        invariant
            b.wf(),
            b.data@ == s,
            0 <= dl,
            j <= dl,
            k0 + 8 * dl <= s.len(),
            b.pos == k0 + 8 * j,
            longs@ == Seq::new(j as nat, |q: int| codec::be_u64_at(s, k0 + 8 * q)),
        decreases dl - j,
    {
        match b.u64() {
            Ok(w) => {
                longs.push(w);
            },
            Err(e) => {
                return Err(e);
            },
        }
        j = j + 1;
        assert(longs@ =~= Seq::new(j as nat, |q: int| codec::be_u64_at(s, k0 + 8 * q)));
    }
    assert(longs_at(s, k0, dl as nat) == Ok::<(Seq<u64>, int), CodecError>((longs@, b.pos as int)));
    let per = 64 / bits;
    assert(per >= 1) by (nonlinear_arith)
        requires
            per == 64u64 / bits,
            1 <= bits < 64,
    ;
    assert(1 <= bits < 64 ==> (1u64 << bits) >= 1) by (bit_vector);
    let mask = (1u64 << bits) - 1;
    assert(mask == entry_mask(bits));
    let filled: usize = match longs.len().checked_mul(per as usize) {
        Some(c) => if c < entries { c } else { entries },
        None => entries,
    };
    let ghost cells = paletted_cells(longs@, bits, pal_view, entries as nat);
    let mut out: Vec<u32> = Vec::new();
    let mut i: usize = 0;
    while i < filled
        invariant
            1 <= bits < 64,
            per == 64u64 / bits,
            per >= 1,
            mask == entry_mask(bits),
            filled <= entries,
            filled <= longs@.len() * per,
            i <= filled,
            cells == paletted_cells(longs@, bits, pal_view, entries as nat),
            pal_view == (match &palette {
                Some(p) => Some(p@),
                None => None::<Seq<u32>>,
            }),
            out@ == cells.take(i as int),
        decreases filled - i,
    {
        let li = i / (per as usize);
        let k = (i % (per as usize)) as u64;
        assert(k * bits < 64) by (nonlinear_arith)
            requires
                k < per,
                per == 64u64 / bits,
                bits >= 1,
        ;
        assert(li < longs@.len()) by (nonlinear_arith)
            requires
                li as int == (i as int) / (per as int),
                i < longs@.len() * per,
                per >= 1,
        ;
        let raw = ((longs[li] >> (k * bits)) & mask) as u32;
        let val = match &palette {
            Some(p) => if (raw as usize) < p.len() { p[raw as usize] } else { 0 },
            None => raw,
        };
        out.push(val);
        assert(out@ =~= cells.take(i + 1));
        i = i + 1;
    }
    while i < entries
        invariant
            filled <= i <= entries,
            1 <= bits < 64,
            per == 64u64 / bits,
            filled == entries || filled >= longs@.len() * per,
            cells == paletted_cells(longs@, bits, pal_view, entries as nat),
            out@ == cells.take(i as int),
        decreases entries - i,
    {
        out.push(0);
        assert(out@ =~= cells.take(i + 1));
        i = i + 1;
    }
    assert(out@ =~= cells);
    Ok(out)
}

// ---------------------------------------------------------------------------
// Chat components.
// ---------------------------------------------------------------------------

/// The characters `"text":` that introduce a text field.
pub open spec fn text_needle() -> Seq<char> {
    seq!['"', 't', 'e', 'x', 't', '"', ':']
}

/// The first double quote at or after `i` (the end when there is none).
pub open spec fn quote_from(b: Seq<char>, i: int) -> int
    decreases b.len() - i,
{
    if i < 0 || i >= b.len() {
        b.len() as int
    } else if b[i] == '"' {
        i
    } else {
        quote_from(b, i + 1)
    }
}

/// The text of a quoted field whose first character is at `i`, a backslash
/// making the next character literal; with the index where the text stopped.
pub open spec fn text_run(b: Seq<char>, i: int) -> (Seq<char>, int)
    decreases b.len() - i,
{
    if i < 0 || i >= b.len() || b[i] == '"' {
        (Seq::empty(), i)
    } else {
        let j = if b[i] == '\\' { i + 1 } else { i };
        if j >= b.len() {
            (Seq::empty(), b.len() as int)
        } else {
            let (rest, k) = text_run(b, j + 1);
            (seq![b[j]] + rest, k)
        }
    }
}

/// Every text field's characters from index `i` on, concatenated.
pub open spec fn chat_scan(b: Seq<char>, i: int) -> Seq<char>
    decreases b.len() + 1 - i,
{
    if i < 0 || i + 7 >= b.len() {
        Seq::empty()
    } else if b.subrange(i, i + 7) == text_needle() {
        let q = quote_from(b, i + 7);
        let (t, k) = text_run(b, q + 1);
        if i < k <= b.len() + 1 {
            t + chat_scan(b, k)
        } else {
            t
        }
    } else {
        chat_scan(b, i + 1)
    }
}

/// Unicode `White_Space`, the characters `str::trim` removes.
pub open spec fn is_white_space(c: char) -> bool {
    let u = c as u32;
    ||| 0x9 <= u <= 0xd
    ||| u == 0x20 || u == 0x85 || u == 0xa0 || u == 0x1680
    ||| 0x2000 <= u <= 0x200a
    ||| u == 0x2028 || u == 0x2029 || u == 0x202f || u == 0x205f || u == 0x3000
}

/// The characters left after dropping leading white space.
pub open spec fn trim_start_ws(s: Seq<char>) -> Seq<char>
    decreases s.len(),
{
    if s.len() > 0 && is_white_space(s[0]) {
        trim_start_ws(s.drop_first())
    } else {
        s
    }
}

/// The characters left after dropping trailing white space.
pub open spec fn trim_end_ws(s: Seq<char>) -> Seq<char>
    decreases s.len(),
{
    if s.len() > 0 && is_white_space(s.last()) {
        trim_end_ws(s.drop_last())
    } else {
        s
    }
}

/// A string with leading and trailing white space removed.
pub open spec fn spec_trim(s: Seq<char>) -> Seq<char> {
    trim_end_ws(trim_start_ws(s))
}

/// `str::trim`. Claims what its documentation says: the string with leading
/// and trailing characters of the Unicode `White_Space` property removed.
#[verifier::external_body]
fn trim_str(s: &str) -> (r: &str)
    ensures
        r@ == spec_trim(s@),
{
    s.trim()
}

/// The plain text of a chat component: every `"text"` field's value,
/// concatenated; a string without any is returned trimmed.
pub open spec fn spec_chat_to_text(json: Seq<char>) -> Seq<char> {
    let t = chat_scan(json, 0);
    if t.len() == 0 {
        spec_trim(json)
    } else {
        t
    }
}

proof fn lemma_quote_from(b: Seq<char>, i: int)
    requires
        0 <= i <= b.len(),
    ensures
        i <= quote_from(b, i) <= b.len(),
        quote_from(b, i) < b.len() ==> b[quote_from(b, i)] == '"',
    decreases b.len() - i,
{
    if i < b.len() && b[i] != '"' {
        lemma_quote_from(b, i + 1);
    }
}

proof fn lemma_text_run(b: Seq<char>, i: int)
    requires
        0 <= i,
    ensures
        text_run(b, i).1 >= i,
        i <= b.len() ==> text_run(b, i).1 <= b.len(),
    decreases b.len() - i,
{
    if i < b.len() && b[i] != '"' {
        let j = if b[i] == '\\' { i + 1 } else { i };
        if j < b.len() {
            lemma_text_run(b, j + 1);
        }
    }
}

fn needle_at(b: &[char], i: usize) -> (r: bool)
    requires
        i + 7 <= b@.len(),
    ensures
        r == (b@.subrange(i as int, i + 7) == text_needle()),
{
    let r = b[i] == '"' && b[i + 1] == 't' && b[i + 2] == 'e' && b[i + 3] == 'x' && b[i + 4] == 't'
        && b[i + 5] == '"' && b[i + 6] == ':';
    if r {
        assert(b@.subrange(i as int, i + 7) =~= text_needle());
    } else {
        proof {
            let sub = b@.subrange(i as int, i + 7);
            if sub == text_needle() {
                assert(sub[0] == b@[i as int] && sub[1] == b@[i + 1] && sub[2] == b@[i + 2]);
                assert(sub[3] == b@[i + 3] && sub[4] == b@[i + 4] && sub[5] == b@[i + 5]);
                assert(sub[6] == b@[i + 6]);
            }
        }
    }
    r
}

/// Crudely flatten a Minecraft chat-component JSON into plain text by
/// concatenating every `"text"` field. Good enough for a chat log line.
pub fn chat_to_text(json: &str) -> (r: String)
    ensures
        r@ == spec_chat_to_text(json@),
{
    let cs = text::chars_of(json);
    let bytes = cs.as_slice();
    let ghost b = bytes@;
    let mut out: Vec<char> = Vec::new();
    let mut i: usize = 0;
    while i < bytes.len() && bytes.len() - i > 7
        invariant
            b == bytes@,
            i <= b.len(),
            out@ + chat_scan(b, i as int) == chat_scan(b, 0),
        decreases b.len() - i,
    {
        if needle_at(bytes, i) {
            let ghost i0 = i as int;
            i = i + 7;
            proof {
                lemma_quote_from(b, i as int);
            }
            while i < bytes.len() && bytes[i] != '"'
                invariant
                    b == bytes@,
                    i0 + 7 <= i <= b.len(),
                    quote_from(b, i0 + 7) == quote_from(b, i as int),
                decreases b.len() - i,
            {
                i = i + 1;
            }
            let ghost q = i as int;
            assert(q == quote_from(b, i0 + 7));
            let ghost out0 = out@;
            if i < bytes.len() {
                i = i + 1;
                proof {
                    lemma_text_run(b, q + 1);
                }
                while i < bytes.len() && bytes[i] != '"'
                    invariant
                        b == bytes@,
                        q + 1 <= i <= b.len(),
                        out@ + text_run(b, i as int).0 == out0 + text_run(b, q + 1).0,
                        text_run(b, i as int).1 == text_run(b, q + 1).1,
                    decreases b.len() - i,
                {
                    if bytes[i] == '\\' {
                        i = i + 1;
                    }
                    if i < bytes.len() {
                        out.push(bytes[i]);
                        i = i + 1;
                    }
                    assert(out@ + text_run(b, i as int).0 =~= out0 + text_run(b, q + 1).0);
                }
                assert(i as int == text_run(b, q + 1).1);
                assert(out@ + chat_scan(b, i as int) =~= chat_scan(b, 0));
            } else {
                assert(text_run(b, q + 1) == (Seq::<char>::empty(), q + 1));
                assert(chat_scan(b, q + 1) =~= Seq::<char>::empty());
                assert(chat_scan(b, i as int) =~= Seq::<char>::empty());
                assert(out@ + chat_scan(b, i as int) =~= chat_scan(b, 0));
            }
        } else {
            i = i + 1;
        }
    }
    assert(chat_scan(b, i as int) =~= Seq::<char>::empty());
    if out.len() == 0 {
        trim_str(json).to_string()
    } else {
        text::string_from_chars(out.as_slice())
    }
}


// ---------------------------------------------------------------------------
// Connection framing: length prefix and optional zlib compression.
// ---------------------------------------------------------------------------

/// The zlib stream `flate2` writes for `data` at the default level.
pub uninterp spec fn zlib_deflate(data: Seq<u8>) -> Seq<u8>;

/// What `flate2`'s zlib decoder reads out of `data`; `None` when it reports
/// an error.
pub uninterp spec fn zlib_inflate(data: Seq<u8>) -> Option<Seq<u8>>;

/// Compresses `data` with `flate2::write::ZlibEncoder` at
/// `Compression::default()`. Claims: the call succeeds (the encoder writes
/// into a `Vec`, which takes every byte, and a fresh default-level
/// `miniz_oxide` stream reports no error), the stream is `zlib_deflate` of
/// the data, and `flate2`'s decoder reads the data back from it (the round
/// trip its documentation shows).
#[verifier::external_body]
fn zlib_compress(data: &[u8]) -> (r: Option<Vec<u8>>)
    ensures
        r is Some,
        r matches Some(c) ==> c@ == zlib_deflate(data@) && zlib_inflate(c@) == Some(data@),
{
    let mut z = flate2::write::ZlibEncoder::new(Vec::new(), flate2::Compression::default());
    match z.write_all(data) {
        Ok(()) => {},
        Err(_) => return None,
    }
    match z.finish() {
        Ok(v) => Some(v),
        Err(_) => None,
    }
}

/// Decompresses `data` with `flate2::read::ZlibDecoder` (`read_to_end`).
/// Claims: the result is `zlib_inflate` of the data.
#[verifier::external_body]
fn zlib_decompress(data: &[u8]) -> (r: Option<Vec<u8>>)
    ensures
        match zlib_inflate(data@) {
            Some(v) => r matches Some(o) && o@ == v,
            None => r is None,
        },
{
    let mut out: Vec<u8> = Vec::new();
    match flate2::read::ZlibDecoder::new(data).read_to_end(&mut out) {
        Ok(_) => Some(out),
        Err(_) => None,
    }
}

/// Largest frame the client accepts from a server (8 MiB).
pub const MAX_CLIENT_FRAME: i32 = 0x80_0000;

/// A frame with its VarInt length in front.
pub open spec fn length_prefixed(frame: Seq<u8>) -> Seq<u8> {
    codec::varint_bytes((frame.len() as i32) as u32) + frame
}

/// The packet (VarInt id, then body) that a frame carries. With compression
/// off (`threshold < 0`) the frame is the packet; with it on, a VarInt data
/// length comes first: 0 for a packet stored as is, else the packet's length
/// and the packet zlib-compressed.
pub open spec fn spec_frame_payload(threshold: i32, frame: Seq<u8>) -> Result<Seq<u8>, CodecError> {
    if threshold < 0 {
        Ok(frame)
    } else {
        match codec::spec_read_varint(frame, 0) {
            Err(e) => Err(e),
            Ok((dl, j)) => {
                let rest = frame.subrange(j, frame.len() as int);
                if dl == 0 {
                    Ok(rest)
                } else {
                    match zlib_inflate(rest) {
                        Some(p) => Ok(p),
                        None => Err(CodecError::Zlib),
                    }
                }
            },
        }
    }
}

/// The frame `send` writes for a packet (before its length prefix).
pub open spec fn spec_frame_body(threshold: i32, payload: Seq<u8>) -> Seq<u8> {
    if threshold < 0 {
        payload
    } else if payload.len() < threshold {
        codec::varint_bytes(0) + payload
    } else {
        codec::varint_bytes(payload.len() as u32) + zlib_deflate(payload)
    }
}

/// What the receiving side makes of bytes that start with a length-prefixed
/// frame: the packet id and body.
pub open spec fn spec_read_frame(threshold: i32, s: Seq<u8>) -> Result<(i32, Seq<u8>), CodecError> {
    match codec::spec_read_varint(s, 0) {
        Err(e) => Err(e),
        Ok((n, j)) => if n < 0 || j + n > s.len() {
            Err(CodecError::UnexpectedEof)
        } else {
            match spec_frame_payload(threshold, s.subrange(j, j + n)) {
                Err(e) => Err(e),
                Ok(p) => match codec::spec_read_varint(p, 0) {
                    Err(e) => Err(e),
                    Ok((id, k)) => Ok((id, p.subrange(k, p.len() as int))),
                },
            }
        },
    }
}

/// The bytes `send` puts on the wire for packet `id` with `body`, under the
/// compression `threshold` (negative: compression off). Packets shorter than
/// the threshold go uncompressed behind a zero data length. Only a
/// compressed packet can fail: when its frame would not fit the 32-bit
/// length. Reading the bytes back gives the id and body.
pub fn encode_frame(threshold: i32, id: i32, body: &[u8]) -> (r: Result<Vec<u8>, CodecError>)
    requires
        body.len() + 16 <= i32::MAX,
    ensures
        ({
            let payload = codec::varint_bytes(id as u32) + body@;
            &&& r is Err <==> spec_frame_body(threshold, payload).len() > 0x7fff_ffff
            &&& r is Err ==> r == Err::<Vec<u8>, CodecError>(CodecError::PacketTooLarge)
            &&& r matches Ok(v) ==> v@ == length_prefixed(spec_frame_body(threshold, payload))
            &&& r matches Ok(v) ==> spec_read_frame(threshold, v@) == Ok::<(i32, Seq<u8>), CodecError>((id, body@))
        }),
{
    let mut payload: Vec<u8> = Vec::new();
    codec::write_varint(&mut payload, id);
    codec::push_all(&mut payload, body);
    proof {
        codec::lemma_varint_roundtrip(id, Seq::empty(), body@);
        assert(Seq::<u8>::empty() + codec::varint_bytes(id as u32) + body@ =~= payload@);
        assert(payload@.subrange(codec::varint_len(id as u32) as int, payload@.len() as int) =~= body@);
    }
    let ghost pl = payload@;
    let mut frame: Vec<u8> = Vec::new();
    if threshold < 0 {
        codec::push_all(&mut frame, payload.as_slice());
    } else if (payload.len() as i32) < threshold {
        codec::write_varint(&mut frame, 0);
        codec::push_all(&mut frame, payload.as_slice());
        proof {
            codec::lemma_varint_roundtrip(0, Seq::empty(), pl);
            assert(Seq::<u8>::empty() + codec::varint_bytes(0) + pl =~= frame@);
            assert(frame@.subrange(codec::varint_len(0) as int, frame@.len() as int) =~= pl);
        }
    } else {
        let compressed = zlib_compress(payload.as_slice()).unwrap();
        let n = payload.len() as i32;
        codec::write_varint(&mut frame, n);
        codec::push_all(&mut frame, compressed.as_slice());
        proof {
            codec::lemma_varint_roundtrip(n, Seq::empty(), compressed@);
            assert(Seq::<u8>::empty() + codec::varint_bytes(n as u32) + compressed@ =~= frame@);
            assert(frame@.subrange(codec::varint_len(n as u32) as int, frame@.len() as int) =~= compressed@);
        }
    }
    assert(frame@ == spec_frame_body(threshold, pl));
    if frame.len() > 0x7fff_ffff {
        return Err(CodecError::PacketTooLarge);
    }
    let mut out: Vec<u8> = Vec::new();
    codec::write_varint(&mut out, frame.len() as i32);
    codec::push_all(&mut out, frame.as_slice());
    proof {
        let f = frame@;
        codec::lemma_varint_roundtrip(f.len() as i32, Seq::empty(), f);
        assert(Seq::<u8>::empty() + codec::varint_bytes((f.len() as i32) as u32) + f =~= out@);
        let j = codec::varint_len((f.len() as i32) as u32) as int;
        assert(out@.subrange(j, j + f.len()) =~= f);
    }
    Ok(out)
}

/// Is a frame length announced by the server acceptable? Negative lengths
/// and lengths past `MAX_CLIENT_FRAME` are refused.
pub fn client_frame_len_ok(len: i32) -> (r: bool)
    ensures
        r == (0 <= len <= MAX_CLIENT_FRAME),
{
    0 <= len && len <= MAX_CLIENT_FRAME
}

/// Undo the framing of one received frame (its length prefix already
/// read): decompress when compression is on, then split off the packet id.
/// The cursor is left at the start of the body.
pub fn decode_frame(threshold: i32, frame: Vec<u8>) -> (r: Result<(i32, Buf), CodecError>)
    ensures
        match spec_frame_payload(threshold, frame@) {
            Err(e) => r == Err::<(i32, Buf), CodecError>(e),
            Ok(p) => match codec::spec_read_varint(p, 0) {
                Err(e) => r == Err::<(i32, Buf), CodecError>(e),
                Ok((id, end)) => (r matches Ok((rid, b)) && rid == id && b.data@ == p && b.pos == end && b.wf()),
            },
        },
{
    let payload: Vec<u8> = if threshold < 0 {
        frame
    } else {
        let mut c = Buf::new(frame);
        let data_len = match codec::read_varint_buf(&mut c) {
            Ok(v) => v,
            Err(e) => {
                return Err(e);
            },
        };
        let mut rest: Vec<u8> = Vec::new();
        let mut i: usize = c.pos;
        while i < c.data.len()
            invariant
                c.wf(),
                c.pos <= i <= c.data@.len(),
                rest@ == c.data@.subrange(c.pos as int, i as int),
            decreases c.data@.len() - i,
        {
            rest.push(c.data[i]);
            assert(rest@ =~= c.data@.subrange(c.pos as int, i + 1));
            i = i + 1;
        }
        if data_len == 0 {
            rest
        } else {
            match zlib_decompress(rest.as_slice()) {
                Some(p) => p,
                None => {
                    return Err(CodecError::Zlib);
                },
            }
        }
    };
    let mut b = Buf::new(payload);
    match codec::read_varint_buf(&mut b) {
        Ok(id) => Ok((id, b)),
        Err(e) => Err(e),
    }
}

// ---------------------------------------------------------------------------
// Join sequence: handshake, login, configuration.
// ---------------------------------------------------------------------------

/// Handshake: protocol version, server address, port, next state 2 (login).
pub open spec fn spec_handshake_body(host: Seq<char>, port: u16) -> Seq<u8> {
    codec::varint_bytes(PROTOCOL_VERSION as u32) + codec::string_bytes(host) + codec::u16_be(port)
        + codec::varint_bytes(2)
}

pub fn handshake_body(host: &str, port: u16) -> (r: Vec<u8>)
    ensures
        r@ == spec_handshake_body(host@, port),
{
    let mut b: Vec<u8> = Vec::new();
    codec::write_varint(&mut b, PROTOCOL_VERSION);
    codec::write_string(&mut b, host);
    codec::push_u16_be(&mut b, port);
    codec::write_varint(&mut b, 2);
    assert(b@ =~= spec_handshake_body(host@, port));
    b
}

/// Login Start: the player name, then a zero UUID (an offline server
/// assigns its own).
pub open spec fn spec_login_start_body(name: Seq<char>) -> Seq<u8> {
    codec::string_bytes(name) + Seq::new(16, |i: int| 0u8)
}

pub fn login_start_body(name: &str) -> (r: Vec<u8>)
    ensures
        r@ == spec_login_start_body(name@),
{
    let mut b: Vec<u8> = Vec::new();
    codec::write_string(&mut b, name);
    let ghost start = b@;
    let mut i: usize = 0;
    while i < 16
        invariant
            i <= 16,
            b@ == start + Seq::new(i as nat, |j: int| 0u8),
        decreases 16 - i,
    {
        b.push(0);
        assert(b@ =~= start + Seq::new((i + 1) as nat, |j: int| 0u8));
        i = i + 1;
    }
    b
}

/// Client Information: locale "en_us", the view distance, chat enabled with
/// colours, all skin parts, right hand, no text filtering, listed.
pub open spec fn spec_client_information_body(view_distance: u8) -> Seq<u8> {
    codec::string_bytes(seq!['e', 'n', '_', 'u', 's']) + seq![view_distance] + codec::varint_bytes(0)
        + seq![1u8, 0x7fu8] + codec::varint_bytes(1) + seq![0u8, 1u8]
}

pub fn client_information_body(view_distance: u8) -> (r: Vec<u8>)
    ensures
        r@ == spec_client_information_body(view_distance),
{
    let mut b: Vec<u8> = Vec::new();
    let locale = "en_us";
    proof {
        reveal_strlit("en_us");
    }
    assert(locale@ =~= seq!['e', 'n', '_', 'u', 's']);
    codec::write_string(&mut b, locale);
    b.push(view_distance);
    codec::write_varint(&mut b, 0);
    b.push(1);
    b.push(0x7f);
    codec::write_varint(&mut b, 1);
    b.push(0);
    b.push(1);
    assert(b@ =~= spec_client_information_body(view_distance));
    b
}

/// Why joining a server failed.
pub enum JoinError {
    /// The server refused the login, with this reason.
    LoginDisconnect(String),
    /// The server wants encryption (online mode).
    OnlineMode,
    /// The server dropped us during configuration, with this reason.
    ConfigDisconnect(String),
    /// A packet could not be read.
    Read(CodecError),
}

/// What the login phase does with one server packet.
pub enum LoginStep {
    /// Set Compression: frames above this size are compressed from now on.
    SetCompression(i32),
    /// Answer with this packet and keep reading.
    Reply(i32, Vec<u8>),
    /// Login Success: send this acknowledgement and enter configuration.
    Enter(i32, Vec<u8>),
    /// Nothing to do.
    Ignore,
}

/// The text of a string field, or the empty text when it cannot be read.
pub open spec fn reason_at(s: Seq<u8>, i: int) -> Seq<char> {
    match codec::spec_read_string(s, i, true) {
        Ok((t, _)) => t,
        Err(_) => Seq::empty(),
    }
}

fn read_reason(b: &mut Buf) -> (r: String)
    requires
        old(b).wf(),
    ensures
        final(b).wf(),
        final(b).data@ == old(b).data@,
        r@ == reason_at(old(b).data@, old(b).pos as int),
{
    match b.string() {
        Ok(t) => t,
        Err(_) => String::new(),
    }
}

/// The login phase's answer to packet `id`, whose body `b` is positioned
/// after the id.
pub fn login_step(id: i32, b: &mut Buf) -> (r: Result<LoginStep, JoinError>)
    requires
        old(b).wf(),
    ensures
        final(b).wf(),
        ({
            let s = old(b).data@;
            let p = old(b).pos as int;
            if id == 0x00 {
                r matches Err(JoinError::LoginDisconnect(t)) && t@ == reason_at(s, p)
            } else if id == 0x01 {
                r matches Err(JoinError::OnlineMode)
            } else if id == 0x02 {
                r matches Ok(LoginStep::Enter(aid, body)) && aid == 0x03 && body@.len() == 0
            } else if id == 0x03 {
                match codec::spec_read_varint(s, p) {
                    Ok((t, _)) => r matches Ok(LoginStep::SetCompression(v)) && v == t,
                    Err(e) => r matches Err(JoinError::Read(x)) && x == e,
                }
            } else if id == 0x04 {
                match codec::spec_read_varint(s, p) {
                    Ok((m, _)) => r matches Ok(LoginStep::Reply(rid, body)) && rid == 0x02
                        && body@ == codec::varint_bytes(m as u32) + seq![0u8],
                    Err(e) => r matches Err(JoinError::Read(x)) && x == e,
                }
            } else {
                r matches Ok(LoginStep::Ignore)
            }
        }),
{
    if id == 0x00 {
        Err(JoinError::LoginDisconnect(read_reason(b)))
    } else if id == 0x01 {
        Err(JoinError::OnlineMode)
    } else if id == 0x02 {
        Ok(LoginStep::Enter(0x03, Vec::new()))
    } else if id == 0x03 {
        match codec::read_varint_buf(b) {
            Ok(t) => Ok(LoginStep::SetCompression(t)),
            Err(e) => Err(JoinError::Read(e)),
        }
    } else if id == 0x04 {
        match codec::read_varint_buf(b) {
            Ok(m) => {
                let mut r: Vec<u8> = Vec::new();
                codec::write_varint(&mut r, m);
                r.push(0);
                assert(r@ =~= codec::varint_bytes(m as u32) + seq![0u8]);
                Ok(LoginStep::Reply(0x02, r))
            },
            Err(e) => Err(JoinError::Read(e)),
        }
    } else {
        Ok(LoginStep::Ignore)
    }
}

/// What the configuration phase does with one server packet.
pub enum ConfigStep {
    /// Answer with this packet and keep reading.
    Reply(i32, Vec<u8>),
    /// Finish Configuration: send this acknowledgement and enter play.
    Finish(i32, Vec<u8>),
    /// Nothing to do.
    Ignore,
}

/// Keep Alive and Ping are echoed: the long or int read back, big-endian.
pub open spec fn spec_config_reply(id: i32, s: Seq<u8>, p: int) -> Option<Seq<u8>> {
    if id == 0x03 {
        if codec::has_bytes(s, p, 8) { Some(codec::u64_be(codec::be_u64_at(s, p))) } else { None }
    } else {
        if codec::has_bytes(s, p, 4) { Some(codec::u32_be(codec::be_u32_at(s, p))) } else { None }
    }
}

/// The configuration phase's answer to packet `id`. During a configuration
/// the server asked for in play (`reconfiguring`), a disconnect packet is
/// not watched for.
pub fn config_step(id: i32, b: &mut Buf, reconfiguring: bool) -> (r: Result<ConfigStep, JoinError>)
    requires
        old(b).wf(),
    ensures
        final(b).wf(),
        ({
            let s = old(b).data@;
            let p = old(b).pos as int;
            if id == 0x01 && !reconfiguring {
                r matches Err(JoinError::ConfigDisconnect(t)) && t@ == reason_at(s, p)
            } else if id == 0x02 {
                r matches Ok(ConfigStep::Finish(aid, body)) && aid == 0x02 && body@.len() == 0
            } else if id == 0x03 || id == 0x04 {
                match spec_config_reply(id, s, p) {
                    Some(echo) => r matches Ok(ConfigStep::Reply(rid, body)) && rid == id && body@ == echo,
                    None => r matches Err(JoinError::Read(e)) && e == CodecError::UnexpectedEof,
                }
            } else {
                r matches Ok(ConfigStep::Ignore)
            }
        }),
{
    if id == 0x01 && !reconfiguring {
        Err(JoinError::ConfigDisconnect(read_reason(b)))
    } else if id == 0x02 {
        Ok(ConfigStep::Finish(0x02, Vec::new()))
    } else if id == 0x03 {
        match b.u64() {
            Ok(k) => {
                let mut r: Vec<u8> = Vec::new();
                codec::push_u64_be(&mut r, k);
                Ok(ConfigStep::Reply(0x03, r))
            },
            Err(e) => Err(JoinError::Read(e)),
        }
    } else if id == 0x04 {
        match b.u32() {
            Ok(v) => {
                let mut r: Vec<u8> = Vec::new();
                codec::push_u32_be(&mut r, v);
                Ok(ConfigStep::Reply(0x04, r))
            },
            Err(e) => Err(JoinError::Read(e)),
        }
    } else {
        Ok(ConfigStep::Ignore)
    }
}

// ---------------------------------------------------------------------------
// Chunk data.
// ---------------------------------------------------------------------------

/// Lowest block row of the overworld (1.20.4).
pub const WORLD_MIN_Y: i32 = -64;

/// Sixteen-block sections in a chunk column.
pub const SECTION_COUNT: usize = 24;

/// One column of blocks decoded from a Chunk Data packet, in MineRust terms.
pub struct ChunkColumn {
    pub cx: i32,
    pub cz: i32,
    /// `(world_x, world_y, world_z, block, mc_block_index)` for every non-air
    /// block. The Minecraft block-type index drives true-colour rendering; the
    /// `Block` drives physics.
    pub blocks: Vec<(i32, i32, i32, Block, u16)>,
}

/// The block and Minecraft block-type index a global block state maps to;
/// states past the end of the table map to air.
pub open spec fn state_entry(table: Seq<(Block, u16)>, state: u32) -> (Block, u16) {
    if state < table.len() {
        table[state as int]
    } else {
        (Block::Air, 0)
    }
}

/// World position of cell `i` (x fastest, then z, then y) of section `sec`
/// in chunk `(cx, cz)`.
pub open spec fn cell_pos(i: int, sec: int, cx: i32, cz: i32) -> (i32, i32, i32) {
    (
        cx.wrapping_mul(16).wrapping_add((i % 16) as i32),
        (WORLD_MIN_Y + sec * 16 + i / 256) as i32,
        cz.wrapping_mul(16).wrapping_add(((i / 16) % 16) as i32),
    )
}

/// The blocks of one section's cells, in cell order, leaving out state 0 and
/// states that map to air.
pub open spec fn section_blocks(states: Seq<u32>, sec: int, cx: i32, cz: i32, table: Seq<(Block, u16)>)
    -> Seq<(i32, i32, i32, Block, u16)>
    decreases states.len(),
{
    if states.len() == 0 {
        Seq::empty()
    } else {
        let i = states.len() - 1;
        let init = section_blocks(states.drop_last(), sec, cx, cz, table);
        let st = states.last();
        let (blk, mci) = state_entry(table, st);
        if st == 0 || blk == Block::Air {
            init
        } else {
            let (x, y, z) = cell_pos(i, sec, cx, cz);
            init.push((x, y, z, blk, mci))
        }
    }
}

/// One section at index `p` of chunk data: a block count, 4096 block states
/// and 64 biomes. The result is the section's blocks and the index after it.
#[verifier::opaque]
pub open spec fn section_at(data: Seq<u8>, p: int, sec: int, cx: i32, cz: i32, table: Seq<(Block, u16)>)
    -> Result<(Seq<(i32, i32, i32, Block, u16)>, int), CodecError>
{
    if !codec::has_bytes(data, p, 2) {
        Err(CodecError::UnexpectedEof)
    } else {
        match spec_read_paletted(data, p + 2, 4096) {
            Err(e) => Err(e),
            Ok((states, p2)) => match spec_read_paletted(data, p2, 64) {
                Err(e) => Err(e),
                Ok((_, p3)) => Ok((section_blocks(states, sec, cx, cz, table), p3)),
            },
        }
    }
}

/// Sections `sec..SECTION_COUNT` of chunk data from index `p`, their blocks
/// in order.
pub open spec fn spec_sections(data: Seq<u8>, p: int, sec: nat, cx: i32, cz: i32, table: Seq<(Block, u16)>)
    -> Result<Seq<(i32, i32, i32, Block, u16)>, CodecError>
    decreases SECTION_COUNT - sec,
{
    if sec >= SECTION_COUNT {
        Ok(Seq::empty())
    } else {
        match section_at(data, p, sec as int, cx, cz, table) {
            Err(e) => Err(e),
            Ok((sb, p3)) => match spec_sections(data, p3, sec + 1, cx, cz, table) {
                Err(e) => Err(e),
                Ok(rest) => Ok(sb + rest),
            },
        }
    }
}

/// A Chunk Data packet body from index `i`: chunk x and z, the heightmap
/// NBT, then the section data behind its VarInt byte count. The result is
/// the column and the index after the section data.
pub open spec fn spec_parse_chunk(s: Seq<u8>, i: int, table: Seq<(Block, u16)>)
    -> Result<(i32, i32, Seq<(i32, i32, i32, Block, u16)>, int), CodecError>
{
    if !codec::has_bytes(s, i, 8) {
        Err(CodecError::UnexpectedEof)
    } else {
        let cx = codec::be_u32_at(s, i) as i32;
        let cz = codec::be_u32_at(s, i + 4) as i32;
        match spec_skip_nbt(s, i + 8) {
            Err(e) => Err(e),
            Ok(j) => match codec::spec_read_varint(s, j) {
                Err(e) => Err(e),
                Ok((dl, k)) => if dl < 0 || k + dl > s.len() {
                    Err(CodecError::ChunkDataLen)
                } else {
                    match spec_sections(s.subrange(k, k + dl), 0, 0, cx, cz, table) {
                        Err(e) => Err(e),
                        Ok(blocks) => Ok((cx, cz, blocks, k + dl)),
                    }
                },
            },
        }
    }
}

fn push_section_blocks(
    out: &mut Vec<(i32, i32, i32, Block, u16)>,
    states: &Vec<u32>,
    sec: usize,
    cx: i32,
    cz: i32,
    table: &[(Block, u16)],
)
    requires
        sec < SECTION_COUNT,
        states@.len() <= 4096,
    ensures
        final(out)@ == old(out)@ + section_blocks(states@, sec as int, cx, cz, table@),
{
    let ghost start = out@;
    let mut i: usize = 0;
    while i < states.len()
        invariant
            sec < SECTION_COUNT,
            states@.len() <= 4096,
            i <= states@.len(),
            out@ == start + section_blocks(states@.take(i as int), sec as int, cx, cz, table@),
        decreases states@.len() - i,
    {
        let ghost before = out@;
        let ghost pre = states@.take(i as int);
        let ghost cur = states@.take(i + 1);
        assert(cur.drop_last() =~= pre);
        assert(cur.last() == states@[i as int]);
        assert(cur.len() - 1 == i);
        let state = states[i];
        let (blk, mci) = if (state as usize) < table.len() {
            table[state as usize]
        } else {
            (Block::Air, 0u16)
        };
        assert((blk, mci) == state_entry(table@, state));
        if state != 0 && blk != Block::Air {
            let x = cx.wrapping_mul(16).wrapping_add((i % 16) as i32);
            let y = WORLD_MIN_Y + (sec as i32) * 16 + (i / 256) as i32;
            let z = cz.wrapping_mul(16).wrapping_add(((i / 16) % 16) as i32);
            assert((x, y, z) == cell_pos(i as int, sec as int, cx, cz));
            out.push((x, y, z, blk, mci));
            assert(out@ =~= start + section_blocks(cur, sec as int, cx, cz, table@));
        } else {
            assert(section_blocks(cur, sec as int, cx, cz, table@) == section_blocks(pre, sec as int, cx, cz, table@));
        }
        i = i + 1;
    }
    assert(states@.take(i as int) =~= states@);
}

fn read_section(
    data: &mut Buf,
    out: &mut Vec<(i32, i32, i32, Block, u16)>,
    sec: usize,
    cx: i32,
    cz: i32,
    table: &[(Block, u16)],
) -> (r: Result<(), CodecError>)
    requires
        old(data).wf(),
        sec < SECTION_COUNT,
    ensures
        final(data).wf(),
        final(data).data@ == old(data).data@,
        match section_at(old(data).data@, old(data).pos as int, sec as int, cx, cz, table@) {
            Ok((sb, end)) => r is Ok && final(data).pos == end && final(out)@ == old(out)@ + sb,
            Err(e) => r == Err::<(), CodecError>(e),
        },
{
    proof {
        reveal(section_at);
    }
    match data.i16() {
        Ok(_) => {},
        Err(e) => {
            return Err(e);
        },
    }
    let states = match read_paletted(data, 4096) {
        Ok(v) => v,
        Err(e) => {
            return Err(e);
        },
    };
    match read_paletted(data, 64) {
        Ok(_) => {},
        Err(e) => {
            return Err(e);
        },
    }
    push_section_blocks(out, &states, sec, cx, cz, table);
    Ok(())
}

/// Decode a Chunk Data packet body into a column of MineRust blocks, with
/// `table` giving the block and Minecraft block index of each global block
/// state. The cursor moves past the section data.
pub fn parse_chunk(b: &mut Buf, table: &[(Block, u16)]) -> (r: Result<ChunkColumn, CodecError>)
    requires
        old(b).wf(),
    ensures
        final(b).wf(),
        final(b).data@ == old(b).data@,
        match spec_parse_chunk(old(b).data@, old(b).pos as int, table@) {
            Ok((cx, cz, blocks, end)) => (r matches Ok(c) && c.cx == cx && c.cz == cz && c.blocks@ == blocks
                && final(b).pos == end),
            Err(e) => r == Err::<ChunkColumn, CodecError>(e),
        },
{
    let ghost s = b.data@;
    let ghost p0 = b.pos as int;
    if b.remaining() < 8 {
        b.pos = b.data.len();
        return Err(CodecError::UnexpectedEof);
    }
    let cx = match b.i32() {
        Ok(v) => v,
        Err(e) => {
            return Err(e);
        },
    };
    let cz = match b.i32() {
        Ok(v) => v,
        Err(e) => {
            return Err(e);
        },
    };
    match skip_nbt(b) {
        Ok(()) => {},
        Err(e) => {
            return Err(e);
        },
    }
    let data_len = match codec::read_varint_buf(b) {
        Ok(v) => v,
        Err(e) => {
            return Err(e);
        },
    };
    if data_len < 0 || data_len as usize > b.remaining() {
        return Err(CodecError::ChunkDataLen);
    }
    let start = b.pos;
    let n = data_len as usize;
    let mut bytes: Vec<u8> = Vec::new();
    let mut i: usize = 0;
    while i < n
        invariant
            b.wf(),
            b.data@ == s,
            start == b.pos,
            start + n <= b.data.len(),
            i <= n,
            bytes@ == s.subrange(start as int, start + i),
        decreases n - i,
    {
        bytes.push(b.data[start + i]);
        assert(bytes@ =~= s.subrange(start as int, start + i + 1));
        i = i + 1;
    }
    b.pos = start + n;
    let mut data = Buf::new(bytes);
    let ghost d = data.data@;
    let mut blocks: Vec<(i32, i32, i32, Block, u16)> = Vec::new();
    assert(d =~= s.subrange(start as int, start + n));
    assert(spec_parse_chunk(s, p0, table@) == match spec_sections(d, 0, 0, cx, cz, table@) {
        Ok(bl) => Ok((cx, cz, bl, (start + n) as int)),
        Err(e) => Err::<(i32, i32, Seq<(i32, i32, i32, Block, u16)>, int), CodecError>(e),
    });
    let mut sec: usize = 0;
    while sec < SECTION_COUNT
        invariant
            b.wf(),
            b.data@ == s,
            s == old(b).data@,
            p0 == old(b).pos,
            b.pos == start + n,
            spec_parse_chunk(s, p0, table@) == match spec_sections(d, 0, 0, cx, cz, table@) {
                Ok(bl) => Ok((cx, cz, bl, (start + n) as int)),
                Err(e) => Err::<(i32, i32, Seq<(i32, i32, i32, Block, u16)>, int), CodecError>(e),
            },
            data.wf(),
            data.data@ == d,
            sec <= SECTION_COUNT,
            spec_sections(d, 0, 0, cx, cz, table@) == match spec_sections(d, data.pos as int, sec as nat, cx, cz, table@) {
                Ok(rest) => Ok(blocks@ + rest),
                Err(e) => Err::<Seq<(i32, i32, i32, Block, u16)>, CodecError>(e),
            },
        decreases SECTION_COUNT - sec,
    {
        let ghost p = data.pos as int;
        let ghost before = blocks@;
        match read_section(&mut data, &mut blocks, sec, cx, cz, table) {
            Ok(()) => {},
            Err(e) => {
                assert(spec_sections(d, p, sec as nat, cx, cz, table@) == Err::<Seq<(i32, i32, i32, Block, u16)>, CodecError>(e));
                return Err(e);
            },
        }
        proof {
            let sb = blocks@.subrange(before.len() as int, blocks@.len() as int);
            assert(blocks@ =~= before + sb);
            match section_at(d, p, sec as int, cx, cz, table@) {
                Ok((sb2, e2)) => {
                    assert(blocks@ == before + sb2);
                    assert((before + sb2).subrange(before.len() as int, blocks@.len() as int) =~= sb2);
                },
                Err(_) => {},
            }
            assert(section_at(d, p, sec as int, cx, cz, table@) == Ok::<(Seq<(i32, i32, i32, Block, u16)>, int), CodecError>((sb, data.pos as int)));
            match spec_sections(d, data.pos as int, (sec + 1) as nat, cx, cz, table@) {
                Ok(rest) => {
                    assert(spec_sections(d, p, sec as nat, cx, cz, table@) == Ok::<Seq<(i32, i32, i32, Block, u16)>, CodecError>(sb + rest));
                    assert(before + (sb + rest) =~= blocks@ + rest);
                },
                Err(e) => {
                    assert(spec_sections(d, p, sec as nat, cx, cz, table@) == Err::<Seq<(i32, i32, i32, Block, u16)>, CodecError>(e));
                },
            }
        }
        sec = sec + 1;
    }
    Ok(ChunkColumn { cx, cz, blocks })
}

// ---------------------------------------------------------------------------
// Play state.
// ---------------------------------------------------------------------------

/// Set Position and Rotation body: x, y, z (`f64` bits), yaw, pitch (`f32`
/// bits), all big-endian, then "on ground".
pub open spec fn spec_position_body(x: u64, y: u64, z: u64, yaw: u32, pitch: u32) -> Seq<u8> {
    codec::u64_be(x) + codec::u64_be(y) + codec::u64_be(z) + codec::u32_be(yaw) + codec::u32_be(pitch) + seq![1u8]
}

pub fn position_body(x: u64, y: u64, z: u64, yaw: u32, pitch: u32) -> (r: Vec<u8>)
    ensures
        r@ == spec_position_body(x, y, z, yaw, pitch),
{
    let mut b: Vec<u8> = Vec::new();
    codec::push_u64_be(&mut b, x);
    codec::push_u64_be(&mut b, y);
    codec::push_u64_be(&mut b, z);
    codec::push_u32_be(&mut b, yaw);
    codec::push_u32_be(&mut b, pitch);
    b.push(1);
    assert(b@ =~= spec_position_body(x, y, z, yaw, pitch));
    b
}

/// What the play loop does with one server packet.
pub enum PlayStep {
    /// The server closed the connection, with this reason.
    Disconnected(String),
    /// Answer with this packet.
    Reply(i32, Vec<u8>),
    /// Join Game: our entity id.
    Joined(i32),
    /// Synchronize Player Position: the position (`f64` bits); confirm the
    /// teleport with packet 0x00 and `confirm`, then send our position back
    /// with packet 0x18 and `echo`.
    Spawn { x: u64, y: u64, z: u64, confirm: Vec<u8>, echo: Vec<u8> },
    /// A decoded chunk column.
    Chunk(ChunkColumn),
    /// A chunk packet that could not be decoded.
    ChunkFailed(CodecError),
    /// The server moves us back to configuration: send this acknowledgement
    /// and run the configuration phase again.
    Reconfigure(i32, Vec<u8>),
    /// A chat message (raw component JSON).
    Chat(String),
    /// Nothing to do.
    Ignore,
}

/// The play loop's answer to packet `id`, whose body `b` is positioned
/// after the id. `table` maps block states for chunk data.
#[verifier::spinoff_prover]
#[verifier::rlimit(30)]
pub fn play_step(id: i32, b: &mut Buf, table: &[(Block, u16)]) -> (r: Result<PlayStep, JoinError>)
    requires
        old(b).wf(),
    ensures
        final(b).wf(),
        ({
            let s = old(b).data@;
            let p = old(b).pos as int;
            if id == 0x1b {
                r matches Ok(PlayStep::Disconnected(t)) && t@ == reason_at(s, p)
            } else if id == 0x24 {
                if codec::has_bytes(s, p, 8) {
                    r matches Ok(PlayStep::Reply(rid, body)) && rid == 0x15 && body@ == codec::u64_be(codec::be_u64_at(s, p))
                } else {
                    r matches Err(JoinError::Read(e)) && e == CodecError::UnexpectedEof
                }
            } else if id == 0x33 {
                if codec::has_bytes(s, p, 4) {
                    r matches Ok(PlayStep::Reply(rid, body)) && rid == 0x24 && body@ == codec::u32_be(codec::be_u32_at(s, p))
                } else {
                    r matches Err(JoinError::Read(e)) && e == CodecError::UnexpectedEof
                }
            } else if id == 0x29 {
                r matches Ok(PlayStep::Joined(eid))
                    && eid == (if codec::has_bytes(s, p, 4) { codec::be_u32_at(s, p) as i32 } else { 0 })
            } else if id == 0x3e {
                if !codec::has_bytes(s, p, 33) {
                    r matches Err(JoinError::Read(e)) && e == CodecError::UnexpectedEof
                } else {
                    match codec::spec_read_varint(s, p + 33) {
                        Err(e) => r matches Err(JoinError::Read(x)) && x == e,
                        Ok((tid, _)) => r matches Ok(PlayStep::Spawn { x, y, z, confirm, echo })
                            && x == codec::be_u64_at(s, p) && y == codec::be_u64_at(s, p + 8)
                            && z == codec::be_u64_at(s, p + 16)
                            && confirm@ == codec::varint_bytes(tid as u32)
                            && echo@ == spec_position_body(x, y, z, codec::be_u32_at(s, p + 24), codec::be_u32_at(s, p + 28)),
                    }
                }
            } else if id == 0x25 {
                match spec_parse_chunk(s, p, table@) {
                    Ok((cx, cz, blocks, _)) => r matches Ok(PlayStep::Chunk(c)) && c.cx == cx && c.cz == cz && c.blocks@ == blocks,
                    Err(e) => r matches Ok(PlayStep::ChunkFailed(x)) && x == e,
                }
            } else if id == 0x0c {
                r matches Ok(PlayStep::Reply(rid, body)) && rid == 0x07 && body@ == codec::u32_be(0x4200_0000)
            } else if id == 0x67 {
                r matches Ok(PlayStep::Reconfigure(rid, body)) && rid == 0x0b && body@.len() == 0
            } else if id == 0x69 || id == 0x37 {
                match codec::spec_read_string(s, p, true) {
                    Ok((t, _)) => r matches Ok(PlayStep::Chat(m)) && m@ == t,
                    Err(_) => r matches Ok(PlayStep::Ignore),
                }
            } else {
                r matches Ok(PlayStep::Ignore)
            }
        }),
{
    if id == 0x1b {
        Ok(PlayStep::Disconnected(read_reason(b)))
    } else if id == 0x24 {
        match b.u64() {
            Ok(k) => {
                let mut r: Vec<u8> = Vec::new();
                codec::push_u64_be(&mut r, k);
                Ok(PlayStep::Reply(0x15, r))
            },
            Err(e) => Err(JoinError::Read(e)),
        }
    } else if id == 0x33 {
        match b.u32() {
            Ok(v) => {
                let mut r: Vec<u8> = Vec::new();
                codec::push_u32_be(&mut r, v);
                Ok(PlayStep::Reply(0x24, r))
            },
            Err(e) => Err(JoinError::Read(e)),
        }
    } else if id == 0x29 {
        let eid = match b.i32() {
            Ok(v) => v,
            Err(_) => 0,
        };
        Ok(PlayStep::Joined(eid))
    } else if id == 0x3e {
        if b.remaining() < 33 {
            b.pos = b.data.len();
            return Err(JoinError::Read(CodecError::UnexpectedEof));
        }
        let x = match b.u64() {
            Ok(v) => v,
            Err(e) => {
                return Err(JoinError::Read(e));
            },
        };
        let y = match b.u64() {
            Ok(v) => v,
            Err(e) => {
                return Err(JoinError::Read(e));
            },
        };
        let z = match b.u64() {
            Ok(v) => v,
            Err(e) => {
                return Err(JoinError::Read(e));
            },
        };
        let yaw = match b.u32() {
            Ok(v) => v,
            Err(e) => {
                return Err(JoinError::Read(e));
            },
        };
        let pitch = match b.u32() {
            Ok(v) => v,
            Err(e) => {
                return Err(JoinError::Read(e));
            },
        };
        match b.u8() {
            Ok(_) => {},
            Err(e) => {
                return Err(JoinError::Read(e));
            },
        }
        let tid = match codec::read_varint_buf(b) {
            Ok(v) => v,
            Err(e) => {
                return Err(JoinError::Read(e));
            },
        };
        let mut confirm: Vec<u8> = Vec::new();
        codec::write_varint(&mut confirm, tid);
        let echo = position_body(x, y, z, yaw, pitch);
        Ok(PlayStep::Spawn { x, y, z, confirm, echo })
    } else if id == 0x25 {
        match parse_chunk(b, table) {
            Ok(c) => Ok(PlayStep::Chunk(c)),
            Err(e) => Ok(PlayStep::ChunkFailed(e)),
        }
    } else if id == 0x0c {
        let mut r: Vec<u8> = Vec::new();
        codec::push_u32_be(&mut r, 0x4200_0000);
        Ok(PlayStep::Reply(0x07, r))
    } else if id == 0x67 {
        Ok(PlayStep::Reconfigure(0x0b, Vec::new()))
    } else if id == 0x69 || id == 0x37 {
        match b.string() {
            Ok(t) => Ok(PlayStep::Chat(t)),
            Err(_) => Ok(PlayStep::Ignore),
        }
    } else {
        Ok(PlayStep::Ignore)
    }
}

} // verus!
