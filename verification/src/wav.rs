//! Encoding 16-bit mono samples as a RIFF/WAVE file.
use vstd::prelude::*;

verus! {

/// The four bytes of `v`, least significant first.
pub open spec fn le_u32(v: u32) -> Seq<u8> {
    seq![
        (v % 256) as u8,
        ((v / 256) % 256) as u8,
        ((v / 65536) % 256) as u8,
        ((v / 16777216) % 256) as u8,
    ]
}

/// The two bytes of `v`, least significant first.
pub open spec fn le_u16(v: u16) -> Seq<u8> {
    seq![(v % 256) as u8, ((v / 256) % 256) as u8]
}

/// The ASCII bytes of a four-letter chunk tag.
pub open spec fn tag(a: u8, b: u8, c: u8, d: u8) -> Seq<u8> {
    seq![a, b, c, d]
}

/// The 44-byte header of a PCM WAVE file with one channel of 16-bit samples
/// at `sample_rate` samples per second and `data_len` bytes of sample data.
pub open spec fn wav_header(data_len: u32, sample_rate: u32) -> Seq<u8> {
    tag(82, 73, 70, 70) + le_u32((36 + data_len) as u32) + tag(87, 65, 86, 69) + tag(
        102,
        109,
        116,
        32,
    ) + le_u32(16) + le_u16(1) + le_u16(1) + le_u32(sample_rate) + le_u32(
        (sample_rate * 2) as u32,
    ) + le_u16(2) + le_u16(16) + tag(100, 97, 116, 97) + le_u32(data_len)
}

/// The samples, each as its two's-complement bytes, least significant first.
pub open spec fn sample_bytes(samples: Seq<i16>) -> Seq<u8>
    decreases samples.len(),
{
    if samples.len() == 0 {
        seq![]
    } else {
        sample_bytes(samples.drop_last()) + le_u16(samples.last() as u16)
    }
}

/// The byte count of the sample data written in the header: twice the sample
/// count, the count taken modulo 2^32.
pub open spec fn data_len_of(samples: Seq<i16>) -> int {
    (samples.len() as u32) * 2
}

fn push_u32_le(bytes: &mut Vec<u8>, v: u32)
    ensures
        final(bytes)@ == old(bytes)@ + le_u32(v),
{
    assert((v & 0xff) == v % 256 && ((v >> 8u32) & 0xff) == (v / 256) % 256 && ((v >> 16u32)
        & 0xff) == (v / 65536) % 256 && (v >> 24u32) == (v / 16777216) % 256) by (bit_vector);
    bytes.push((v & 0xff) as u8);
    bytes.push(((v >> 8) & 0xff) as u8);
    bytes.push(((v >> 16) & 0xff) as u8);
    bytes.push((v >> 24) as u8);
    assert(bytes@ =~= old(bytes)@ + le_u32(v));
}

fn push_u16_le(bytes: &mut Vec<u8>, v: u16)
    ensures
        final(bytes)@ == old(bytes)@ + le_u16(v),
{
    assert((v & 0xff) == v % 256 && (v >> 8u16) == (v / 256) % 256) by (bit_vector);
    bytes.push((v & 0xff) as u8);
    bytes.push((v >> 8) as u8);
    assert(bytes@ =~= old(bytes)@ + le_u16(v));
}

fn push_tag(bytes: &mut Vec<u8>, a: u8, b: u8, c: u8, d: u8)
    ensures
        final(bytes)@ == old(bytes)@ + tag(a, b, c, d),
{
    bytes.push(a);
    bytes.push(b);
    bytes.push(c);
    bytes.push(d);
    assert(bytes@ =~= old(bytes)@ + tag(a, b, c, d));
}

/// A complete WAVE file holding `samples` as one channel of 16-bit PCM at
/// `sample_rate` samples per second: the header, then the sample bytes.
pub fn wav_from_i16(samples: &[i16], sample_rate: u32) -> (bytes: Vec<u8>)
    requires
        data_len_of(samples@) + 36 <= u32::MAX,
        sample_rate * 2 <= u32::MAX,
    ensures
        bytes@ == wav_header(data_len_of(samples@) as u32, sample_rate) + sample_bytes(samples@),
{
    let data_len = #[verifier::truncate] (samples.len() as u32) * 2;
    let mut bytes: Vec<u8> = Vec::new();

    push_tag(&mut bytes, 82, 73, 70, 70); // "RIFF"
    push_u32_le(&mut bytes, 36 + data_len);
    push_tag(&mut bytes, 87, 65, 86, 69); // "WAVE"
    push_tag(&mut bytes, 102, 109, 116, 32); // "fmt "
    push_u32_le(&mut bytes, 16);
    push_u16_le(&mut bytes, 1);
    push_u16_le(&mut bytes, 1);
    push_u32_le(&mut bytes, sample_rate);
    push_u32_le(&mut bytes, sample_rate * 2);
    push_u16_le(&mut bytes, 2);
    push_u16_le(&mut bytes, 16);
    push_tag(&mut bytes, 100, 97, 116, 97); // "data"
    push_u32_le(&mut bytes, data_len);
    let ghost header = bytes@;
    assert(header =~= wav_header(data_len, sample_rate));

    let mut i: usize = 0;
    while i < samples.len()
        invariant
            0 <= i <= samples@.len(),
            bytes@ == header + sample_bytes(samples@.take(i as int)),
        decreases samples@.len() - i,
    {
        let ghost before = bytes@;
        push_u16_le(&mut bytes, samples[i] as u16);
        proof {
            assert(samples@.take(i + 1).drop_last() =~= samples@.take(i as int));
            assert(bytes@ =~= header + sample_bytes(samples@.take(i + 1)));
        }
        i += 1;
    }
    assert(samples@.take(samples@.len() as int) =~= samples@);
    bytes
}

/// The little-endian 16-bit number stored at `i`.
pub open spec fn read_u16(bytes: Seq<u8>, i: int) -> int {
    bytes[i] + 256 * bytes[i + 1]
}

/// The little-endian 32-bit number stored at `i`.
pub open spec fn read_u32(bytes: Seq<u8>, i: int) -> int {
    bytes[i] + 256 * bytes[i + 1] + 65536 * bytes[i + 2] + 16777216 * bytes[i + 3]
}

/// Reading back the four bytes of `v` gives `v`.
pub proof fn lemma_le_u32_reads_back(v: u32)
    ensures
        read_u32(le_u32(v), 0) == v,
{
    let b0 = (v % 256) as u8;
    let b1 = ((v / 256) % 256) as u8;
    let b2 = ((v / 65536) % 256) as u8;
    let b3 = ((v / 16777216) % 256) as u8;
    assert(v == (v % 256) + 256 * ((v / 256) % 256) + 65536 * ((v / 65536) % 256) + 16777216 * ((v
        / 16777216) % 256)) by (nonlinear_arith);
    assert(le_u32(v)[0] == b0 && le_u32(v)[1] == b1 && le_u32(v)[2] == b2 && le_u32(v)[3] == b3);
}

/// Reading back the two bytes of `v` gives `v`.
pub proof fn lemma_le_u16_reads_back(v: u16)
    ensures
        read_u16(le_u16(v), 0) == v,
{
    assert(v == (v % 256) + 256 * ((v / 256) % 256)) by (nonlinear_arith);
}

/// The sample bytes hold two bytes per sample, sample `i` at `2 * i`.
pub proof fn lemma_sample_bytes(samples: Seq<i16>, i: int)
    requires
        0 <= i < samples.len(),
    ensures
        sample_bytes(samples).len() == 2 * samples.len(),
        sample_bytes(samples)[2 * i] == le_u16(samples[i] as u16)[0],
        sample_bytes(samples)[2 * i + 1] == le_u16(samples[i] as u16)[1],
    decreases samples.len(),
{
    let n = samples.len();
    lemma_sample_len(samples.drop_last());
    if i < n - 1 {
        lemma_sample_bytes(samples.drop_last(), i);
    }
}

/// The sample bytes hold two bytes per sample.
pub proof fn lemma_sample_len(samples: Seq<i16>)
    ensures
        sample_bytes(samples).len() == 2 * samples.len(),
    decreases samples.len(),
{
    if samples.len() > 0 {
        lemma_sample_len(samples.drop_last());
    }
}

/// What a reader of the file finds: 44 header bytes then two per sample; the
/// RIFF size counts everything after its own field; one channel of 16-bit
/// PCM at the given rate, with the byte rate and block alignment that follow
/// from them; a data size of two bytes per sample; and sample `i` stored
/// little-endian at byte `44 + 2 * i`.
pub proof fn lemma_wav_reads_back(samples: Seq<i16>, sample_rate: u32)
    requires
        samples.len() * 2 + 36 <= u32::MAX,
        sample_rate * 2 <= u32::MAX,
    ensures
        ({
            let bytes = wav_header(data_len_of(samples) as u32, sample_rate) + sample_bytes(samples);
            &&& bytes.len() == 44 + 2 * samples.len()
            &&& bytes.subrange(0, 4) == seq![82u8, 73, 70, 70]
            &&& read_u32(bytes, 4) == bytes.len() - 8
            &&& bytes.subrange(8, 16) == seq![87u8, 65, 86, 69, 102, 109, 116, 32]
            &&& read_u32(bytes, 16) == 16
            &&& read_u16(bytes, 20) == 1
            &&& read_u16(bytes, 22) == 1
            &&& read_u32(bytes, 24) == sample_rate
            &&& read_u16(bytes, 32) == read_u16(bytes, 22) * read_u16(bytes, 34) / 8
            &&& read_u32(bytes, 28) == read_u32(bytes, 24) * read_u16(bytes, 32)
            &&& read_u16(bytes, 34) == 16
            &&& bytes.subrange(36, 40) == seq![100u8, 97, 116, 97]
            &&& read_u32(bytes, 40) == bytes.len() - 44
            &&& forall|i: int|
                0 <= i < samples.len() ==> #[trigger] read_u16(bytes, 44 + 2 * i)
                    == samples[i] as u16
        }),
{
    let d = data_len_of(samples) as u32;
    let h = wav_header(d, sample_rate);
    let sb = sample_bytes(samples);
    let bytes = h + sb;
    lemma_sample_len(samples);
    assert(samples.len() as u32 == samples.len());
    assert(d == 2 * samples.len());
    assert(h.len() == 44);
    lemma_le_u32_reads_back((36 + d) as u32);
    lemma_le_u32_reads_back(16);
    lemma_le_u16_reads_back(1);
    lemma_le_u32_reads_back(sample_rate);
    lemma_le_u32_reads_back((sample_rate * 2) as u32);
    lemma_le_u16_reads_back(2);
    lemma_le_u16_reads_back(16);
    lemma_le_u32_reads_back(d);
    assert(bytes.subrange(0, 4) =~= seq![82u8, 73, 70, 70]);
    assert(bytes.subrange(8, 16) =~= seq![87u8, 65, 86, 69, 102, 109, 116, 32]);
    assert(bytes.subrange(36, 40) =~= seq![100u8, 97, 116, 97]);
    assert(read_u32(bytes, 4) == read_u32(le_u32((36 + d) as u32), 0));
    assert(read_u32(bytes, 16) == read_u32(le_u32(16), 0));
    assert(read_u16(bytes, 20) == read_u16(le_u16(1), 0));
    assert(read_u16(bytes, 22) == read_u16(le_u16(1), 0));
    assert(read_u32(bytes, 24) == read_u32(le_u32(sample_rate), 0));
    assert(read_u32(bytes, 28) == read_u32(le_u32((sample_rate * 2) as u32), 0));
    assert(read_u16(bytes, 32) == read_u16(le_u16(2), 0));
    assert(read_u16(bytes, 34) == read_u16(le_u16(16), 0));
    assert(read_u32(bytes, 40) == read_u32(le_u32(d), 0));
    assert forall|i: int| 0 <= i < samples.len() implies #[trigger] read_u16(bytes, 44 + 2 * i)
        == samples[i] as u16 by {
        lemma_sample_bytes(samples, i);
        lemma_le_u16_reads_back(samples[i] as u16);
        assert(bytes[44 + 2 * i] == sb[2 * i]);
        assert(bytes[44 + 2 * i + 1] == sb[2 * i + 1]);
    }
}

} // verus!
