//! The RIFF/WAVE container of 32-bit IEEE-float PCM that carries audio
//! to MiniMax: a 44-byte header, then the samples, little-endian.
//! Samples are given by their bit patterns (`f32::to_bits`).
use vstd::prelude::*;

verus! {

/// Little-endian bytes of a 16-bit value.
pub open spec fn le16(x: nat) -> Seq<u8> {
    seq![(x % 256) as u8, ((x / 256) % 256) as u8]
}

/// Little-endian bytes of a 32-bit value.
pub open spec fn le32(x: nat) -> Seq<u8> {
    seq![(x % 256) as u8, ((x / 256) % 256) as u8, ((x / 65536) % 256) as u8, ((x / 16777216) % 256) as u8]
}

/// The samples' bytes, one little-endian word each, in order.
pub open spec fn sample_bytes(bits: Seq<u32>) -> Seq<u8>
    decreases bits.len(),
{
    if bits.len() == 0 {
        Seq::empty()
    } else {
        sample_bytes(bits.drop_last()) + le32(bits.last() as nat)
    }
}

/// The payload size the header states: four bytes a sample, cut to 32
/// bits.
pub open spec fn data_size(n: nat) -> nat {
    (n * 4) % 0x1_0000_0000
}

/// The whole file: `RIFF` chunk, `fmt ` chunk for IEEE float (format 3,
/// 32 bits a sample) with the given rate and channel count, `data`
/// chunk with the samples.
pub open spec fn wav_file(bits: Seq<u32>, sample_rate: u32, channels: u16) -> Seq<u8> {
    let data = data_size(bits.len());
    seq![82u8, 73, 70, 70] + le32(36 + data) + seq![87u8, 65, 86, 69] + seq![102u8, 109, 116, 32]
        + le32(16) + le16(3) + le16(channels as nat) + le32(sample_rate as nat)
        + le32((sample_rate * channels * 4) as nat) + le16((channels * 4) as nat) + le16(32)
        + seq![100u8, 97, 116, 97] + le32(data) + sample_bytes(bits)
}

fn push_le16(buf: &mut Vec<u8>, x: u16)
    ensures
        final(buf)@ == old(buf)@ + le16(x as nat),
{
    buf.push((x % 256) as u8);
    buf.push((x / 256) as u8);
    assert(final(buf)@ =~= old(buf)@ + le16(x as nat));
}

fn push_le32(buf: &mut Vec<u8>, x: u32)
    ensures
        final(buf)@ == old(buf)@ + le32(x as nat),
{
    buf.push((x % 256) as u8);
    buf.push(((x / 256) % 256) as u8);
    buf.push(((x / 65536) % 256) as u8);
    buf.push((x / 16777216) as u8);
    assert(final(buf)@ =~= old(buf)@ + le32(x as nat));
}

fn push_tag(buf: &mut Vec<u8>, a: u8, b: u8, c: u8, d: u8)
    ensures
        final(buf)@ == old(buf)@ + seq![a, b, c, d],
{
    buf.push(a);
    buf.push(b);
    buf.push(c);
    buf.push(d);
    assert(final(buf)@ =~= old(buf)@ + seq![a, b, c, d]);
}

/// Write samples (given as `f32` bit patterns) into a WAV file of
/// 32-bit float PCM. The header's sizes count four bytes a sample; the
/// caller interleaves channels.
pub fn write_wav_pcm_f32(sample_bits: &[u32], sample_rate: u32, channels: u16) -> (buf: Vec<u8>)
    requires
        sample_rate * channels * 4 <= u32::MAX,
        channels * 4 <= u16::MAX,
        sample_bits@.len() * 4 <= usize::MAX,
        36 + data_size(sample_bits@.len()) <= u32::MAX,
    ensures
        buf@ == wav_file(sample_bits@, sample_rate, channels),
{
    let byte_rate: u32 = sample_rate * (channels as u32) * 4;
    let block_align: u16 = channels * 4;
    let n: usize = sample_bits.len() * 4;
    let wide: u64 = n as u64;
    assert(wide == n);
    let data: u32 = wide as u32;
    assert(data == wide % 0x1_0000_0000) by (bit_vector)
        requires
            data == wide as u32,
    ;
    let chunk: u32 = 36 + data;
    let mut buf: Vec<u8> = Vec::new();
    push_tag(&mut buf, 82, 73, 70, 70);
    push_le32(&mut buf, chunk);
    push_tag(&mut buf, 87, 65, 86, 69);
    push_tag(&mut buf, 102, 109, 116, 32);
    push_le32(&mut buf, 16);
    push_le16(&mut buf, 3);
    push_le16(&mut buf, channels);
    push_le32(&mut buf, sample_rate);
    push_le32(&mut buf, byte_rate);
    push_le16(&mut buf, block_align);
    push_le16(&mut buf, 32);
    push_tag(&mut buf, 100, 97, 116, 97);
    push_le32(&mut buf, data);
    let ghost head = buf@;
    let mut i: usize = 0;
    while i < sample_bits.len()
        invariant
            i <= sample_bits@.len(),
            buf@ == head + sample_bytes(sample_bits@.take(i as int)),
        decreases sample_bits@.len() - i,
    {
        proof {
            assert(sample_bits@.take(i + 1).drop_last() =~= sample_bits@.take(i as int));
        }
        push_le32(&mut buf, sample_bits[i]);
        proof {
            assert(buf@ =~= head + sample_bytes(sample_bits@.take(i + 1)));
        }
        i = i + 1;
    }
    proof {
        assert(sample_bits@.take(sample_bits@.len() as int) =~= sample_bits@);
        assert(buf@ =~= wav_file(sample_bits@, sample_rate, channels));
    }
    buf
}

proof fn lemma_sample_bytes_len(bits: Seq<u32>)
    ensures
        sample_bytes(bits).len() == 4 * bits.len(),
    decreases bits.len(),
{
    if bits.len() > 0 {
        lemma_sample_bytes_len(bits.drop_last());
    }
}

/// A WAV file is the 44-byte header followed by the samples, four bytes
/// each: sample `i` occupies bytes `44 + 4i .. 48 + 4i`, little-endian.
pub proof fn lemma_wav_layout(bits: Seq<u32>, sample_rate: u32, channels: u16)
    ensures
        wav_file(bits, sample_rate, channels).len() == 44 + 4 * bits.len(),
        wav_file(bits, sample_rate, channels).skip(44) == sample_bytes(bits),
        forall|i: int| 0 <= i < bits.len() ==> sample_bytes(bits).subrange(4 * i, 4 * i + 4) == le32(
            #[trigger] bits[i] as nat,
        ),
{
    lemma_sample_bytes_len(bits);
    let f = wav_file(bits, sample_rate, channels);
    let header = f.take(44);
    assert(f =~= header + sample_bytes(bits));
    assert(f.skip(44) =~= sample_bytes(bits));
    assert forall|i: int| 0 <= i < bits.len() implies sample_bytes(bits).subrange(4 * i, 4 * i + 4) == le32(
        #[trigger] bits[i] as nat,
    ) by {
        lemma_sample_at(bits, i);
    }
}

proof fn lemma_sample_at(bits: Seq<u32>, i: int)
    requires
        0 <= i < bits.len(),
    ensures
        sample_bytes(bits).subrange(4 * i, 4 * i + 4) == le32(bits[i] as nat),
    decreases bits.len(),
{
    lemma_sample_bytes_len(bits);
    lemma_sample_bytes_len(bits.drop_last());
    let prev = sample_bytes(bits.drop_last());
    if i == bits.len() - 1 {
        assert(sample_bytes(bits).subrange(4 * i, 4 * i + 4) =~= le32(bits.last() as nat));
    } else {
        lemma_sample_at(bits.drop_last(), i);
        assert(sample_bytes(bits).subrange(4 * i, 4 * i + 4) =~= prev.subrange(4 * i, 4 * i + 4));
    }
}

} // verus!
