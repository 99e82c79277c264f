//! 16-bit little-endian PCM: decoding bytes into samples, encoding samples into bytes,
//! and the peak level of a block of samples.
//!
//! Samples stay integers here; a sample `s` stands for the amplitude `s / 32768`.
use vstd::prelude::*;

verus! {

/// The sample stored little-endian in the bytes `lo`, `hi`.
pub open spec fn le16(lo: u8, hi: u8) -> i16 {
    let u = hi * 256 + lo;
    if u >= 32768 {
        (u - 65536) as i16
    } else {
        u as i16
    }
}

/// The samples of a byte string read as 16-bit little-endian PCM; a trailing odd byte is
/// not a sample.
pub open spec fn s16le_samples(bytes: Seq<u8>) -> Seq<i16> {
    Seq::new(bytes.len() / 2, |k: int| le16(bytes[2 * k], bytes[2 * k + 1]))
}

/// The two's-complement bit pattern of a sample.
pub open spec fn bits16(s: i16) -> nat {
    if s < 0 {
        (s + 65536) as nat
    } else {
        s as nat
    }
}

/// The bytes of samples written as 16-bit little-endian PCM.
pub open spec fn s16le_bytes(samples: Seq<i16>) -> Seq<u8> {
    Seq::new(
        2 * samples.len(),
        |i: int|
            if i % 2 == 0 {
                (bits16(samples[i / 2]) % 256) as u8
            } else {
                (bits16(samples[i / 2]) / 256) as u8
            },
    )
}

/// The magnitude of a sample; that of -32768 is 32768.
pub open spec fn magnitude(s: i16) -> nat {
    if s < 0 {
        (-s) as nat
    } else {
        s as nat
    }
}

/// The largest magnitude among the samples, 0 for no samples.
pub open spec fn peak(samples: Seq<i16>) -> nat
    decreases samples.len(),
{
    if samples.len() == 0 {
        0
    } else {
        let rest = peak(samples.drop_last());
        let m = magnitude(samples.last());
        if m > rest {
            m
        } else {
            rest
        }
    }
}

/// Decodes two bytes of little-endian PCM.
fn sample_from_le(lo: u8, hi: u8) -> (s: i16)
    ensures
        s == le16(lo, hi),
{
    if hi < 128 {
        hi as i16 * 256 + lo as i16
    } else {
        (hi as i16 - 256) * 256 + lo as i16
    }
}

/// Appends the samples of `input`, read as 16-bit little-endian PCM, to `output`.
pub fn decode_s16le(input: &[u8], output: &mut Vec<i16>)
    ensures
        final(output)@ == old(output)@ + s16le_samples(input@),
{
    let len = input.len();
    let n = len / 2;
    let mut k: usize = 0;
    while k < n
        invariant
            len == input@.len(),
            n == input@.len() / 2,
            2 * n <= input@.len(),
            k <= n,
            output@ == old(output)@ + s16le_samples(input@).subrange(0, k as int),
        decreases n - k,
    {
        let s = sample_from_le(input[2 * k], input[2 * k + 1]);
        output.push(s);
        k = k + 1;
        assert(output@ =~= old(output)@ + s16le_samples(input@).subrange(0, k as int));
    }
    assert(s16le_samples(input@).subrange(0, n as int) =~= s16le_samples(input@));
}

/// Replaces the contents of `dst` by the samples of `s16_bytes` (16-bit little-endian PCM).
pub fn convert_s16_le(s16_bytes: &[u8], dst: &mut Vec<i16>)
    ensures
        final(dst)@ == s16le_samples(s16_bytes@),
{
    dst.clear();
    decode_s16le(s16_bytes, dst);
    assert(dst@ =~= s16le_samples(s16_bytes@));
}

/// Writes samples as 16-bit little-endian PCM.
pub fn encode_s16le(samples: &[i16]) -> (bytes: Vec<u8>)
    requires
        2 * samples@.len() <= usize::MAX,
    ensures
        bytes@ == s16le_bytes(samples@),
{
    let mut out: Vec<u8> = Vec::new();
    let mut k: usize = 0;
    while k < samples.len()
        invariant
            k <= samples@.len(),
            out@ == s16le_bytes(samples@).subrange(0, 2 * k as int),
        decreases samples@.len() - k,
    {
        let s = samples[k];
        let u: u16 = if s < 0 {
            (s as i32 + 65536) as u16
        } else {
            s as u16
        };
        out.push((u % 256) as u8);
        out.push((u / 256) as u8);
        k = k + 1;
        assert(out@ =~= s16le_bytes(samples@).subrange(0, 2 * k as int));
    }
    assert(s16le_bytes(samples@).subrange(0, 2 * samples@.len() as int) =~= s16le_bytes(samples@));
    out
}

/// The largest sample magnitude in a block (the peak level, 32768 being full scale).
pub fn peak_magnitude(samples: &[i16]) -> (m: u32)
    ensures
        m == peak(samples@),
        forall|i: int| 0 <= i < samples@.len() ==> magnitude(#[trigger] samples@[i]) <= m,
        samples@.len() > 0 ==> exists|i: int| 0 <= i < samples@.len() && magnitude(#[trigger] samples@[i]) == m,
        m <= 32768,
{
    let mut max: u32 = 0;
    let mut k: usize = 0;
    while k < samples.len()
        invariant
            k <= samples@.len(),
            max == peak(samples@.subrange(0, k as int)),
            max <= 32768,
            forall|i: int| 0 <= i < k ==> magnitude(#[trigger] samples@[i]) <= max,
            k > 0 ==> exists|i: int| 0 <= i < k && magnitude(#[trigger] samples@[i]) == max,
        decreases samples@.len() - k,
    {
        let s = samples[k];
        let m: u32 = if s < 0 {
            (-(s as i32)) as u32
        } else {
            s as u32
        };
        assert(samples@.subrange(0, k + 1).drop_last() =~= samples@.subrange(0, k as int));
        assert(samples@.subrange(0, k + 1).last() == samples@[k as int]);
        if m > max {
            max = m;
        }
        k = k + 1;
    }
    assert(samples@.subrange(0, samples@.len() as int) =~= samples@);
    max
}

/// Writing samples as 16-bit little-endian PCM and reading them back gives the same samples.
pub proof fn law_s16le_roundtrip(samples: Seq<i16>)
    ensures
        s16le_samples(s16le_bytes(samples)) == samples,
{
    let b = s16le_bytes(samples);
    assert forall|k: int| 0 <= k < samples.len() implies #[trigger] s16le_samples(b)[k] == samples[k] by {
        assert((2 * k) / 2 == k && (2 * k) % 2 == 0);
        assert((2 * k + 1) / 2 == k && (2 * k + 1) % 2 == 1);
        let u = bits16(samples[k]);
        assert(b[2 * k] == (u % 256) as u8);
        assert(b[2 * k + 1] == (u / 256) as u8);
        assert((u / 256) * 256 + u % 256 == u);
    }
    assert(s16le_samples(b) =~= samples);
}

/// Linear PCM decoder: 16-bit little-endian mono bytes to samples.
pub struct PcmDecoder;

impl PcmDecoder {
    /// Creates a new PCM decoder.
    pub fn new() -> (d: Self) {
        PcmDecoder
    }

    /// Appends the samples of `input` to `output`; a trailing odd byte is ignored.
    pub fn decode(&mut self, input: &[u8], output: &mut Vec<i16>)
        ensures
            final(output)@ == old(output)@ + s16le_samples(input@),
    {
        decode_s16le(input, output)
    }
}

} // verus!
