//! Sound effects are synthesized as in-memory WAV files: 16-bit mono PCM
//! at a fixed sample rate, framed by the standard RIFF header.

use vstd::prelude::*;
use crate::codec::{push_u16_le, push_u32_le, u16_le, u32_le};

verus! {

/// Samples per second of every synthesized sound.
pub const RATE: u32 = 22050;

/// The little-endian bytes of 16-bit samples, in order.
pub open spec fn samples_le(s: Seq<i16>) -> Seq<u8>
    decreases s.len(),
{
    if s.len() == 0 {
        Seq::empty()
    } else {
        samples_le(s.drop_last()) + u16_le(s.last() as u16)
    }
}

/// The 44-byte RIFF/WAVE header of `n` mono 16-bit samples at `RATE`:
/// `RIFF`, the file size less eight, `WAVEfmt `, a 16-byte PCM format
/// chunk (format 1, one channel, the rate, the byte rate, block align 2,
/// 16 bits), then `data` and the size of the sample data.
pub open spec fn wav_header(n: nat) -> Seq<u8> {
    let data_len = (2 * n) as u32;
    seq![0x52u8, 0x49u8, 0x46u8, 0x46u8] + u32_le((36 + data_len) as u32) + seq![
        0x57u8,
        0x41u8,
        0x56u8,
        0x45u8,
        0x66u8,
        0x6du8,
        0x74u8,
        0x20u8,
    ] + u32_le(16) + u16_le(1) + u16_le(1) + u32_le(RATE) + u32_le((RATE * 2) as u32) + u16_le(2) + u16_le(16)
        + seq![0x64u8, 0x61u8, 0x74u8, 0x61u8] + u32_le(data_len)
}

fn push4(out: &mut Vec<u8>, a: u8, b: u8, c: u8, d: u8)
    ensures
        final(out)@ == old(out)@ + seq![a, b, c, d],
{
    out.push(a);
    out.push(b);
    out.push(c);
    out.push(d);
    assert(out@ =~= old(out)@ + seq![a, b, c, d]);
}

/// A WAV file holding `samples`.
pub fn wav_from_samples(samples: &[i16]) -> (out: Vec<u8>)
    requires
        2 * samples@.len() + 36 <= u32::MAX,
    ensures
        out@ == wav_header(samples@.len()) + samples_le(samples@),
{
    let data_len = (samples.len() * 2) as u32;
    let mut out: Vec<u8> = Vec::new();
    push4(&mut out, 0x52, 0x49, 0x46, 0x46);
    push_u32_le(&mut out, 36 + data_len);
    push4(&mut out, 0x57, 0x41, 0x56, 0x45);
    push4(&mut out, 0x66, 0x6d, 0x74, 0x20);
    push_u32_le(&mut out, 16);
    push_u16_le(&mut out, 1);
    push_u16_le(&mut out, 1);
    push_u32_le(&mut out, RATE);
    push_u32_le(&mut out, RATE * 2);
    push_u16_le(&mut out, 2);
    push_u16_le(&mut out, 16);
    push4(&mut out, 0x64, 0x61, 0x74, 0x61);
    push_u32_le(&mut out, data_len);
    assert(out@ =~= wav_header(samples@.len()));
    let ghost head = out@;
    let mut i: usize = 0;
    while i < samples.len()
        invariant
            0 <= i <= samples@.len(),
            out@ == head + samples_le(samples@.take(i as int)),
        decreases samples@.len() - i,
    {
        push_u16_le(&mut out, samples[i] as u16);
        assert(samples@.take(i + 1).drop_last() =~= samples@.take(i as int));
        i = i + 1;
        assert(out@ =~= head + samples_le(samples@.take(i as int)));
    }
    assert(samples@.take(samples@.len() as int) =~= samples@);
    out
}

} // verus!
