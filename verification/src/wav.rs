//! The boundary audio container: uncompressed PCM, 16-bit signed samples,
//! mono, at a given sample rate, in a RIFF/WAVE file with one "fmt " chunk
//! and one "data" chunk (the classic 44-byte header). Encoding and decoding
//! are exact inverses, which `lemma_wav_round_trip` states.

use vstd::prelude::*;
use vstd::arithmetic::div_mod::lemma_fundamental_div_mod;
use vstd::arithmetic::div_mod::lemma_div_denominator;

verus! {

/// The unsigned 16-bit pattern of a signed sample (two's complement).
pub open spec fn sample_pattern(v: i16) -> u16 {
    if v >= 0 {
        v as u16
    } else {
        (v + 0x10000) as u16
    }
}

/// The signed sample read back from an unsigned 16-bit pattern.
pub open spec fn pattern_sample(u: u16) -> i16 {
    if u < 0x8000 {
        u as i16
    } else {
        (u - 0x10000) as i16
    }
}

pub open spec fn u16_le(v: u16) -> Seq<u8> {
    seq![(v % 256) as u8, (v / 256) as u8]
}

pub open spec fn u32_le(v: u32) -> Seq<u8> {
    seq![
        (v % 256) as u8,
        ((v / 256) % 256) as u8,
        ((v / 0x10000) % 256) as u8,
        ((v / 0x1000000) % 256) as u8,
    ]
}

/// The 16-bit little-endian value at offset `i`.
pub open spec fn le16_at(b: Seq<u8>, i: int) -> u16 {
    (b[i] + 256 * b[i + 1]) as u16
}

/// The 32-bit little-endian value at offset `i`.
pub open spec fn le32_at(b: Seq<u8>, i: int) -> u32 {
    (b[i] + 256 * b[i + 1] + 0x10000 * b[i + 2] + 0x1000000 * b[i + 3]) as u32
}

pub open spec fn riff_tag() -> Seq<u8> {
    seq![0x52u8, 0x49u8, 0x46u8, 0x46u8]
}

pub open spec fn wave_tag() -> Seq<u8> {
    seq![0x57u8, 0x41u8, 0x56u8, 0x45u8]
}

pub open spec fn fmt_tag() -> Seq<u8> {
    seq![0x66u8, 0x6du8, 0x74u8, 0x20u8]
}

pub open spec fn data_tag() -> Seq<u8> {
    seq![0x64u8, 0x61u8, 0x74u8, 0x61u8]
}

/// The sample data section: each sample as two little-endian bytes.
pub open spec fn sample_data(samples: Seq<i16>) -> Seq<u8>
    decreases samples.len(),
{
    if samples.len() == 0 {
        Seq::empty()
    } else {
        sample_data(samples.drop_last()) + u16_le(sample_pattern(samples.last()))
    }
}

/// The 44-byte header for mono 16-bit PCM: RIFF size, WAVE form, one
/// 16-byte "fmt " chunk (tag 1, one channel, the sample rate, its byte
/// rate, block align 2, 16 bits per sample), then the "data" chunk header.
pub open spec fn wav_header(sample_rate: u32, data_len: u32) -> Seq<u8> {
    riff_tag() + u32_le((data_len + 36) as u32) + wave_tag() + fmt_tag() + u32_le(16) + u16_le(1)
        + u16_le(1) + u32_le(sample_rate) + u32_le((2 * sample_rate) as u32) + u16_le(2) + u16_le(
        16,
    ) + data_tag() + u32_le(data_len)
}

/// Whether the encoded container fits its 32-bit size fields.
pub open spec fn wav_fits(samples: Seq<i16>, sample_rate: u32) -> bool {
    &&& 2 * samples.len() + 44 <= 0xFFFF_FFFF
    &&& 2 * sample_rate <= 0xFFFF_FFFF
}

/// The whole encoded container.
pub open spec fn wav_bytes(samples: Seq<i16>, sample_rate: u32) -> Seq<u8> {
    wav_header(sample_rate, (2 * samples.len()) as u32) + sample_data(samples)
}

/// All fixed bytes and redundant size fields of a mono 16-bit PCM header.
pub open spec fn header_shape_ok(b: Seq<u8>) -> bool {
    &&& b.len() >= 44
    &&& b.subrange(0, 4) == riff_tag()
    &&& le32_at(b, 4) == b.len() - 8
    &&& b.subrange(8, 12) == wave_tag()
    &&& b.subrange(12, 16) == fmt_tag()
    &&& le32_at(b, 16) == 16
    &&& le16_at(b, 20) == 1
    &&& le16_at(b, 22) == 1
    &&& le32_at(b, 28) == 2 * le32_at(b, 24)
    &&& le16_at(b, 32) == 2
    &&& le16_at(b, 34) == 16
    &&& b.subrange(36, 40) == data_tag()
    &&& le32_at(b, 40) == b.len() - 44
    &&& (b.len() - 44) % 2 == 0
}

/// The samples held by a data section.
pub open spec fn data_samples(d: Seq<u8>) -> Seq<i16> {
    Seq::new(d.len() / 2, |i: int| pattern_sample(le16_at(d, 2 * i)))
}

/// What a byte sequence decodes to, when it is a well-formed mono 16-bit
/// PCM container.
pub open spec fn spec_decode_wav(b: Seq<u8>) -> Option<(Seq<i16>, u32)> {
    if header_shape_ok(b) {
        Some((data_samples(b.skip(44)), le32_at(b, 24)))
    } else {
        None
    }
}

fn push_tag4(out: &mut Vec<u8>, a: u8, b: u8, c: u8, d: u8)
    ensures
        final(out)@ == old(out)@ + seq![a, b, c, d],
{
    out.push(a);
    out.push(b);
    out.push(c);
    out.push(d);
    proof {
        assert(out@ =~= old(out)@ + seq![a, b, c, d]);
    }
}

fn push_u16_le(out: &mut Vec<u8>, v: u16)
    ensures
        final(out)@ == old(out)@ + u16_le(v),
{
    out.push((v % 256) as u8);
    out.push((v / 256) as u8);
    proof {
        assert(out@ =~= old(out)@ + u16_le(v));
    }
}

fn push_u32_le(out: &mut Vec<u8>, v: u32)
    ensures
        final(out)@ == old(out)@ + u32_le(v),
{
    out.push((v % 256) as u8);
    out.push(((v / 256) % 256) as u8);
    out.push(((v / 0x10000) % 256) as u8);
    out.push(((v / 0x1000000) % 256) as u8);
    proof {
        assert(out@ =~= old(out)@ + u32_le(v));
    }
}

/// The two's-complement pattern of a sample.
fn sample_pattern_exec(v: i16) -> (u: u16)
    ensures
        u == sample_pattern(v),
{
    if v >= 0 {
        v as u16
    } else {
        ((v as i32) + 0x10000) as u16
    }
}

/// The sample of a two's-complement pattern.
fn pattern_sample_exec(u: u16) -> (v: i16)
    ensures
        v == pattern_sample(u),
{
    if u < 0x8000 {
        u as i16
    } else {
        ((u as i32) - 0x10000) as i16
    }
}

/// Encode mono samples into the PCM container at the given sample rate.
#[verifier::loop_isolation(false)]
pub fn encode_wav(samples: &Vec<i16>, sample_rate: u32) -> (r: Vec<u8>)
    requires
        wav_fits(samples@, sample_rate),
    ensures
        r@ == wav_bytes(samples@, sample_rate),
{
    let n = samples.len();
    let data_len: u32 = (2 * n) as u32;
    let mut out: Vec<u8> = Vec::new();
    push_tag4(&mut out, 0x52, 0x49, 0x46, 0x46);
    push_u32_le(&mut out, data_len + 36);
    push_tag4(&mut out, 0x57, 0x41, 0x56, 0x45);
    push_tag4(&mut out, 0x66, 0x6d, 0x74, 0x20);
    push_u32_le(&mut out, 16);
    push_u16_le(&mut out, 1);
    push_u16_le(&mut out, 1);
    push_u32_le(&mut out, sample_rate);
    push_u32_le(&mut out, 2 * sample_rate);
    push_u16_le(&mut out, 2);
    push_u16_le(&mut out, 16);
    push_tag4(&mut out, 0x64, 0x61, 0x74, 0x61);
    push_u32_le(&mut out, data_len);
    proof {
        assert(out@ =~= wav_header(sample_rate, data_len));
        assert(samples@.take(0) =~= Seq::<i16>::empty());
        assert(out@ + sample_data(samples@.take(0)) =~= out@);
    }
    let ghost header = out@;
    let mut i: usize = 0;
    while i < n
        invariant
            i <= n,
            out@ == header + sample_data(samples@.take(i as int)),
        decreases n - i,
    {
        let u = sample_pattern_exec(samples[i]);
        push_u16_le(&mut out, u);
        proof {
            let t = samples@.take(i as int + 1);
            assert(t.drop_last() =~= samples@.take(i as int));
            assert(t.last() == samples@[i as int]);
            assert(sample_data(t) == sample_data(samples@.take(i as int)) + u16_le(u));
            assert(header + sample_data(samples@.take(i as int)) + u16_le(u)
                =~= header + sample_data(t));
        }
        i = i + 1;
    }
    proof {
        assert(samples@.take(n as int) =~= samples@);
    }
    out
}

fn read_u16_le(b: &Vec<u8>, i: usize) -> (v: u16)
    requires
        i + 2 <= b.len(),
    ensures
        v == le16_at(b@, i as int),
{
    (b[i] as u16) + 256 * (b[i + 1] as u16)
}

fn read_u32_le(b: &Vec<u8>, i: usize) -> (v: u32)
    requires
        i + 4 <= b.len(),
    ensures
        v == le32_at(b@, i as int),
{
    (b[i] as u32) + 256 * (b[i + 1] as u32) + 0x10000 * (b[i + 2] as u32) + 0x1000000 * (b[i
        + 3] as u32)
}

fn tag_at(b: &Vec<u8>, i: usize, t0: u8, t1: u8, t2: u8, t3: u8) -> (r: bool)
    requires
        i + 4 <= b.len(),
    ensures
        r == (b@.subrange(i as int, i as int + 4) == seq![t0, t1, t2, t3]),
{
    let r = b[i] == t0 && b[i + 1] == t1 && b[i + 2] == t2 && b[i + 3] == t3;
    proof {
        if r {
            assert(b@.subrange(i as int, i as int + 4) =~= seq![t0, t1, t2, t3]);
        } else {
            assert(b@.subrange(i as int, i as int + 4) != seq![t0, t1, t2, t3]) by {
                let s = b@.subrange(i as int, i as int + 4);
                assert(s[0] == b@[i as int]);
                assert(s[1] == b@[i as int + 1]);
                assert(s[2] == b@[i as int + 2]);
                assert(s[3] == b@[i as int + 3]);
            }
        }
    }
    r
}

/// Decode a mono 16-bit PCM container into its samples and sample rate;
/// `None` exactly on byte sequences that no encoding produces.
#[verifier::loop_isolation(false)]
pub fn decode_wav(bytes: &Vec<u8>) -> (r: Option<(Vec<i16>, u32)>)
    ensures
        match r {
            Some(out) => spec_decode_wav(bytes@) == Some((out.0@, out.1)),
            None => spec_decode_wav(bytes@) is None,
        },
{
    let len = bytes.len();
    if len < 44 {
        return None;
    }
    let ok = tag_at(bytes, 0, 0x52, 0x49, 0x46, 0x46) && tag_at(bytes, 8, 0x57, 0x41, 0x56, 0x45)
        && tag_at(bytes, 12, 0x66, 0x6d, 0x74, 0x20) && tag_at(bytes, 36, 0x64, 0x61, 0x74, 0x61);
    if !ok {
        return None;
    }
    let riff_len = read_u32_le(bytes, 4);
    let fmt_len = read_u32_le(bytes, 16);
    let format_tag = read_u16_le(bytes, 20);
    let channels = read_u16_le(bytes, 22);
    let sample_rate = read_u32_le(bytes, 24);
    let byte_rate = read_u32_le(bytes, 28);
    let block_align = read_u16_le(bytes, 32);
    let bits = read_u16_le(bytes, 34);
    let data_len = read_u32_le(bytes, 40);
    if !(riff_len as u64 == len as u64 - 8) {
        return None;
    }
    if fmt_len != 16 || format_tag != 1 || channels != 1 || block_align != 2 || bits != 16 {
        return None;
    }
    if !(byte_rate as u64 == 2 * (sample_rate as u64)) {
        return None;
    }
    if !(data_len as u64 == len as u64 - 44) {
        return None;
    }
    if data_len % 2 != 0 {
        return None;
    }
    let n = (data_len / 2) as usize;
    let mut samples: Vec<i16> = Vec::new();
    let mut i: usize = 0;
    while i < n
        invariant
            i <= n,
            samples@.len() == i as int,
            forall|j: int|
                0 <= j < i ==> samples@[j] == pattern_sample(le16_at(bytes@, 44 + 2 * j)),
        decreases n - i,
    {
        let u = read_u16_le(bytes, 44 + 2 * i);
        samples.push(pattern_sample_exec(u));
        i = i + 1;
    }
    proof {
        let b = bytes@;
        assert(header_shape_ok(b));
        let d = b.skip(44);
        assert(d.len() == len - 44);
        assert forall|j: int| 0 <= j < n implies #[trigger] le16_at(d, 2 * j) == le16_at(b, 44 + 2 * j) by {
            assert(d[2 * j] == b[44 + 2 * j]);
            assert(d[2 * j + 1] == b[44 + 2 * j + 1]);
        }
        assert(samples@ =~= data_samples(d));
    }
    Some((samples, sample_rate))
}

/// The data section is twice as long as its samples.
pub proof fn lemma_sample_data_len(samples: Seq<i16>)
    ensures
        sample_data(samples).len() == 2 * samples.len(),
    decreases samples.len(),
{
    if samples.len() > 0 {
        lemma_sample_data_len(samples.drop_last());
    }
}

/// The two bytes of sample `j` inside the data section.
proof fn lemma_sample_data_index(samples: Seq<i16>, j: int)
    requires
        0 <= j < samples.len(),
    ensures
        sample_data(samples)[2 * j] == u16_le(sample_pattern(samples[j]))[0],
        sample_data(samples)[2 * j + 1] == u16_le(sample_pattern(samples[j]))[1],
    decreases samples.len(),
{
    lemma_sample_data_len(samples.drop_last());
    if j == samples.len() - 1 {
    } else {
        lemma_sample_data_index(samples.drop_last(), j);
    }
}

/// Recomposing the four little-endian bytes of a 32-bit value gives it back.
proof fn lemma_u32_le_round(v: u32)
    ensures
        u32_le(v)[0] + 256 * u32_le(v)[1] + 0x10000 * u32_le(v)[2] + 0x1000000 * u32_le(v)[3]
            == v,
{
    lemma_fundamental_div_mod(v as int, 256);
    lemma_fundamental_div_mod(v as int / 256, 256);
    lemma_fundamental_div_mod(v as int / 0x10000, 256);
    lemma_div_denominator(v as int, 256, 256);
    lemma_div_denominator(v as int, 0x10000, 256);
}

/// Recomposing the two little-endian bytes of a 16-bit value gives it back.
proof fn lemma_u16_le_round(v: u16)
    ensures
        u16_le(v)[0] + 256 * u16_le(v)[1] == v,
{
    lemma_fundamental_div_mod(v as int, 256);
}

/// The pattern of a sample reads back as the sample.
proof fn lemma_pattern_round(v: i16)
    ensures
        pattern_sample(sample_pattern(v)) == v,
{
}

/// The header fields read back as what the header was built from.
#[verifier::rlimit(100)]
#[verifier::spinoff_prover]
proof fn lemma_header_fields(sample_rate: u32, data_len: u32)
    requires
        data_len + 36 <= 0xFFFF_FFFF,
        2 * sample_rate <= 0xFFFF_FFFF,
    ensures
        wav_header(sample_rate, data_len).len() == 44,
        wav_header(sample_rate, data_len).subrange(0, 4) == riff_tag(),
        le32_at(wav_header(sample_rate, data_len), 4) == data_len + 36,
        wav_header(sample_rate, data_len).subrange(8, 12) == wave_tag(),
        wav_header(sample_rate, data_len).subrange(12, 16) == fmt_tag(),
        le32_at(wav_header(sample_rate, data_len), 16) == 16,
        le16_at(wav_header(sample_rate, data_len), 20) == 1,
        le16_at(wav_header(sample_rate, data_len), 22) == 1,
        le32_at(wav_header(sample_rate, data_len), 24) == sample_rate,
        le32_at(wav_header(sample_rate, data_len), 28) == 2 * sample_rate,
        le16_at(wav_header(sample_rate, data_len), 32) == 2,
        le16_at(wav_header(sample_rate, data_len), 34) == 16,
        wav_header(sample_rate, data_len).subrange(36, 40) == data_tag(),
        le32_at(wav_header(sample_rate, data_len), 40) == data_len,
{
    let h = wav_header(sample_rate, data_len);
    lemma_u32_le_round((data_len + 36) as u32);
    lemma_u32_le_round(16);
    lemma_u32_le_round(sample_rate);
    lemma_u32_le_round((2 * sample_rate) as u32);
    lemma_u32_le_round(data_len);
    lemma_u16_le_round(1);
    lemma_u16_le_round(2);
    lemma_u16_le_round(16);
    assert(h.subrange(0, 4) =~= riff_tag());
    assert(h.subrange(8, 12) =~= wave_tag());
    assert(h.subrange(12, 16) =~= fmt_tag());
    assert(h.subrange(36, 40) =~= data_tag());
}

/// Decoding inverts encoding: the container built from any samples and rate
/// that fit its size fields decodes to exactly those samples at that rate.
#[verifier::rlimit(100)]
#[verifier::spinoff_prover]
pub proof fn lemma_wav_round_trip(samples: Seq<i16>, sample_rate: u32)
    requires
        wav_fits(samples, sample_rate),
    ensures
        spec_decode_wav(wav_bytes(samples, sample_rate)) == Some((samples, sample_rate)),
{
    let data_len = (2 * samples.len()) as u32;
    let h = wav_header(sample_rate, data_len);
    let b = wav_bytes(samples, sample_rate);
    lemma_sample_data_len(samples);
    lemma_header_fields(sample_rate, data_len);
    assert(h.len() == 44);
    assert(b.len() == 44 + 2 * samples.len());
    assert forall|i: int| 0 <= i < 44 implies b[i] == h[i] by {}
    assert(b.subrange(0, 4) =~= h.subrange(0, 4));
    assert(b.subrange(8, 12) =~= h.subrange(8, 12));
    assert(b.subrange(12, 16) =~= h.subrange(12, 16));
    assert(b.subrange(36, 40) =~= h.subrange(36, 40));
    assert(le32_at(b, 4) == le32_at(h, 4));
    assert(le32_at(b, 16) == le32_at(h, 16));
    assert(le16_at(b, 20) == le16_at(h, 20));
    assert(le16_at(b, 22) == le16_at(h, 22));
    assert(le32_at(b, 24) == le32_at(h, 24));
    assert(le32_at(b, 28) == le32_at(h, 28));
    assert(le16_at(b, 32) == le16_at(h, 32));
    assert(le16_at(b, 34) == le16_at(h, 34));
    assert(le32_at(b, 40) == le32_at(h, 40));
    assert(header_shape_ok(b));
    // sample recovery
    let d = b.skip(44);
    assert(d =~= sample_data(samples));
    assert forall|j: int| 0 <= j < samples.len() implies data_samples(d)[j] == samples[j] by {
        lemma_sample_data_index(samples, j);
        lemma_u16_le_round(sample_pattern(samples[j]));
        assert(le16_at(d, 2 * j) == sample_pattern(samples[j]));
        lemma_pattern_round(samples[j]);
    }
    assert(data_samples(d) =~= samples);
}

} // verus!
