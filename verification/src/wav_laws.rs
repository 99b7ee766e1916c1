use vstd::prelude::*;

use crate::wav::{
    chunk_search, i16_bits, le16_at, le32_at, lemma_samples_le_index, lemma_samples_le_len,
    parse_wav, samples_le, u16_le, u32_le, wav_bytes, wav_fits, WavError,
};

verus! {

// The statements below spell the RIFF/WAVE layout out byte by byte, with
// helpers of their own, so that they say what a file holds independently of
// how the reader and the writer are written.

/// Four bytes, little-endian.
pub open spec fn le4(x: nat) -> Seq<u8> {
    seq![
        (x % 256) as u8,
        ((x / 256) % 256) as u8,
        ((x / 65536) % 256) as u8,
        ((x / 16777216) % 256) as u8,
    ]
}

/// Two bytes, little-endian.
pub open spec fn le2(x: nat) -> Seq<u8> {
    seq![(x % 256) as u8, ((x / 256) % 256) as u8]
}

/// The value of the four bytes at `i`, little-endian.
pub open spec fn value4(b: Seq<u8>, i: int) -> nat {
    (b[i] + 256 * b[i + 1] + 65536 * b[i + 2] + 16777216 * b[i + 3]) as nat
}

/// The value of the two bytes at `i`, little-endian.
pub open spec fn value2(b: Seq<u8>, i: int) -> nat {
    (b[i] + 256 * b[i + 1]) as nat
}

/// The signed 16-bit sample held by the two bytes at `i`.
pub open spec fn pcm_sample(b: Seq<u8>, i: int) -> int {
    if b[i + 1] >= 128 {
        value2(b, i) - 65536
    } else {
        value2(b, i) as int
    }
}

/// The first 36 bytes of a mono PCM 16-bit file at `rate`: "RIFF", the RIFF
/// size as given, "WAVE", and a 16-byte "fmt " chunk (format 1, one channel,
/// `rate`, byte rate `2 rate`, block align 2, 16 bits per sample).
pub open spec fn mono_fmt_header(riff_size: nat, rate: nat) -> Seq<u8> {
    seq![0x52u8, 0x49u8, 0x46u8, 0x46u8] + le4(riff_size) + seq![0x57u8, 0x41u8, 0x56u8, 0x45u8]
        + seq![0x66u8, 0x6du8, 0x74u8, 0x20u8] + le4(16) + le2(1) + le2(1) + le4(rate) + le4(
        2 * rate,
    ) + le2(2) + le2(16)
}

/// A chunk: its identifier, its body size, its body and the padding after it.
pub open spec fn chunk_bytes(id: Seq<u8>, body: Seq<u8>, pad: Seq<u8>) -> Seq<u8> {
    id + le4(body.len()) + body + pad
}

/// The identifier "data".
pub open spec fn data_tag() -> Seq<u8> {
    seq![0x64u8, 0x61u8, 0x74u8, 0x61u8]
}

/// A mono PCM 16-bit file at `rate` whose data chunk holds `data`, with one
/// more chunk (`extra_id`, `extra_body`, padded by `pad`) between the "fmt "
/// and "data" chunks.
pub open spec fn file_with_extra_chunk(
    riff_size: nat,
    rate: nat,
    extra_id: Seq<u8>,
    extra_body: Seq<u8>,
    pad: Seq<u8>,
    data: Seq<u8>,
) -> Seq<u8> {
    mono_fmt_header(riff_size, rate) + chunk_bytes(extra_id, extra_body, pad) + chunk_bytes(
        data_tag(),
        data,
        seq![],
    )
}

/// The 32-bit reader and `value4` agree.
proof fn lemma_le32_is_value4(b: Seq<u8>, i: int)
    requires
        0 <= i,
        i + 4 <= b.len(),
    ensures
        le32_at(b, i) as nat == value4(b, i),
{
}

/// The 16-bit reader and `value2` agree.
proof fn lemma_le16_is_value2(b: Seq<u8>, i: int)
    requires
        0 <= i,
        i + 2 <= b.len(),
    ensures
        le16_at(b, i) as nat == value2(b, i),
{
}

/// Reading the little-endian bytes of `x` back gives `x`.
proof fn lemma_le4_value(x: nat)
    requires
        x < 0x1_0000_0000,
    ensures
        le4(x).len() == 4,
        value4(le4(x), 0) == x,
{
    let y = x as u32;
    assert(y % 256 + 256 * ((y / 256) % 256) + 65536 * ((y / 65536) % 256) + 16777216 * ((y
        / 16777216) % 256) == y) by (bit_vector);
}

/// Reading the little-endian bytes of `x` back gives `x`.
proof fn lemma_le2_value(x: nat)
    requires
        x < 0x1_0000,
    ensures
        le2(x).len() == 2,
        value2(le2(x), 0) == x,
{
    let y = x as u16;
    assert(y % 256 + 256 * ((y / 256) % 256) == y) by (bit_vector);
}

/// The fields of the 36-byte header.
proof fn lemma_header_fields(riff_size: nat, rate: nat)
    requires
        riff_size < 0x1_0000_0000,
        2 * rate < 0x1_0000_0000,
    ensures
        ({
            let h = mono_fmt_header(riff_size, rate);
            &&& h.len() == 36
            &&& h.subrange(0, 4) == seq![0x52u8, 0x49u8, 0x46u8, 0x46u8]
            &&& h.subrange(8, 12) == seq![0x57u8, 0x41u8, 0x56u8, 0x45u8]
            &&& h.subrange(12, 16) == seq![0x66u8, 0x6du8, 0x74u8, 0x20u8]
            &&& value4(h, 16) == 16
            &&& value2(h, 20) == 1
            &&& value2(h, 22) == 1
            &&& value4(h, 24) == rate
            &&& value2(h, 34) == 16
        }),
{
    let h = mono_fmt_header(riff_size, rate);
    lemma_le4_value(16);
    lemma_le2_value(1);
    lemma_le4_value(rate);
    lemma_le2_value(16);
    assert(h.subrange(0, 4) =~= seq![0x52u8, 0x49u8, 0x46u8, 0x46u8]);
    assert(h.subrange(8, 12) =~= seq![0x57u8, 0x41u8, 0x56u8, 0x45u8]);
    assert(h.subrange(12, 16) =~= seq![0x66u8, 0x6du8, 0x74u8, 0x20u8]);
    assert(h.subrange(16, 20) =~= le4(16));
    assert(h.subrange(20, 22) =~= le2(1));
    assert(h.subrange(22, 24) =~= le2(1));
    assert(h.subrange(24, 28) =~= le4(rate));
    assert(h.subrange(34, 36) =~= le2(16));
    assert(value4(h, 16) == value4(le4(16), 0));
    assert(value2(h, 20) == value2(le2(1), 0));
    assert(value2(h, 22) == value2(le2(1), 0));
    assert(value4(h, 24) == value4(le4(rate), 0));
    assert(value2(h, 34) == value2(le2(16), 0));
}

/// The fields of a chunk.
proof fn lemma_chunk_fields(id: Seq<u8>, body: Seq<u8>, pad: Seq<u8>)
    requires
        id.len() == 4,
        body.len() < 0x1_0000_0000,
    ensures
        ({
            let c = chunk_bytes(id, body, pad);
            &&& c.len() == 8 + body.len() + pad.len()
            &&& c.subrange(0, 4) == id
            &&& value4(c, 4) == body.len()
            &&& forall|j: int| 0 <= j < body.len() ==> c[8 + j] == body[j]
        }),
{
    let c = chunk_bytes(id, body, pad);
    lemma_le4_value(body.len());
    assert(c.subrange(0, 4) =~= id);
    assert(c.subrange(4, 8) =~= le4(body.len()));
    assert(value4(c, 4) == value4(le4(body.len()), 0));
}

/// Where the fields of a file with an extra chunk stand, as the reader sees
/// them.
#[verifier::rlimit(100)]
proof fn lemma_extra_chunk_layout(
    riff_size: nat,
    rate: nat,
    extra_id: Seq<u8>,
    extra_body: Seq<u8>,
    pad: Seq<u8>,
    data: Seq<u8>,
)
    requires
        riff_size < 0x1_0000_0000,
        2 * rate < 0x1_0000_0000,
        extra_id.len() == 4,
        extra_body.len() < 0x8000_0000,
        pad.len() == extra_body.len() % 2,
        0 < data.len() < 0x8000_0000,
    ensures
        ({
            let wav = file_with_extra_chunk(riff_size, rate, extra_id, extra_body, pad, data);
            let d: int = 44 + extra_body.len() + pad.len() as int;
            &&& wav.len() == d + 8 + data.len()
            &&& wav.subrange(0, 4) == crate::wav::riff_id()
            &&& wav.subrange(8, 12) == crate::wav::wave_id()
            &&& wav.subrange(12, 16) == crate::wav::fmt_id()
            &&& wav.subrange(36, 40) == extra_id
            &&& wav.subrange(d, d + 4) == crate::wav::data_id()
            &&& le32_at(wav, 16) == 16
            &&& le16_at(wav, 20) == 1
            &&& le16_at(wav, 22) == 1
            &&& le32_at(wav, 24) == rate
            &&& le16_at(wav, 34) == 16
            &&& le32_at(wav, 40) == extra_body.len()
            &&& le32_at(wav, d + 4) == data.len()
            &&& forall|j: int| 0 <= j < data.len() ==> wav[d + 8 + j] == data[j]
        }),
{
    let h = mono_fmt_header(riff_size, rate);
    let e = chunk_bytes(extra_id, extra_body, pad);
    let c = chunk_bytes(data_tag(), data, seq![]);
    let wav = file_with_extra_chunk(riff_size, rate, extra_id, extra_body, pad, data);
    lemma_header_fields(riff_size, rate);
    lemma_chunk_fields(extra_id, extra_body, pad);
    lemma_chunk_fields(data_tag(), data, seq![]);
    let k = extra_body.len();
    let d: int = 44 + k + pad.len() as int;
    let n = data.len();
    assert(wav == h + e + c);
    assert(wav.len() == d + 8 + n);
    assert forall|i: int| 0 <= i < 36 implies wav[i] == h[i] by {}
    assert forall|i: int| 0 <= i < 8 + k + pad.len() implies wav[36 + i] == e[i] by {}
    assert forall|i: int| 0 <= i < 8 + n implies wav[d + i] == c[i] by {}
    assert(wav.subrange(0, 4) =~= crate::wav::riff_id()) by {
        assert(h.subrange(0, 4) == crate::wav::riff_id());
    }
    assert(wav.subrange(8, 12) =~= crate::wav::wave_id()) by {
        assert(h.subrange(8, 12) == crate::wav::wave_id());
    }
    assert(wav.subrange(12, 16) =~= crate::wav::fmt_id()) by {
        assert(h.subrange(12, 16) == crate::wav::fmt_id());
    }
    assert(wav.subrange(36, 40) =~= extra_id) by {
        assert(e.subrange(0, 4) == extra_id);
        assert forall|i: int| 0 <= i < 4 implies wav[36 + i] == e.subrange(0, 4)[i] by {}
    }
    assert(wav.subrange(d, d + 4) =~= crate::wav::data_id()) by {
        assert(c.subrange(0, 4) == data_tag());
        assert forall|i: int| 0 <= i < 4 implies wav[d + i] == c.subrange(0, 4)[i] by {}
    }
    lemma_le32_is_value4(wav, 16);
    lemma_le16_is_value2(wav, 20);
    lemma_le16_is_value2(wav, 22);
    lemma_le32_is_value4(wav, 24);
    lemma_le16_is_value2(wav, 34);
    lemma_le32_is_value4(wav, 40);
    lemma_le32_is_value4(wav, d + 4);
    assert(value4(wav, 16) == value4(h, 16));
    assert(value2(wav, 20) == value2(h, 20));
    assert(value2(wav, 22) == value2(h, 22));
    assert(value4(wav, 24) == value4(h, 24));
    assert(value2(wav, 34) == value2(h, 34));
    assert(value4(wav, 40) == value4(e, 4)) by {
        assert(wav[40] == e[4] && wav[41] == e[5] && wav[42] == e[6] && wav[43] == e[7]);
    }
    assert(value4(wav, d + 4) == value4(c, 4)) by {
        assert(wav[d + 4] == c[4] && wav[d + 5] == c[5] && wav[d + 6] == c[6] && wav[d + 7]
            == c[7]);
    }
    assert forall|j: int| 0 <= j < n implies wav[d + 8 + j] == data[j] by {
        assert(wav[d + (8 + j)] == c[8 + j]);
    }
}

/// A reader finds the data chunk past any other chunk: a mono PCM 16-bit file
/// with a complete extra chunk (for instance "LIST") between its "fmt " and
/// "data" chunks reads as one channel at its sample rate, with exactly the
/// samples of its data chunk.
#[verifier::rlimit(100)]
pub proof fn lemma_extra_chunk_is_skipped(
    riff_size: nat,
    rate: nat,
    extra_id: Seq<u8>,
    extra_body: Seq<u8>,
    pad: Seq<u8>,
    data: Seq<u8>,
)
    requires
        riff_size < 0x1_0000_0000,
        2 * rate < 0x1_0000_0000,
        extra_id.len() == 4,
        extra_id != data_tag(),
        extra_body.len() < 0x8000_0000,
        pad.len() == extra_body.len() % 2,
        0 < data.len() < 0x8000_0000,
        data.len() % 2 == 0,
    ensures
        ({
            let wav = file_with_extra_chunk(riff_size, rate, extra_id, extra_body, pad, data);
            match parse_wav(wav) {
                Ok((r, channels, samples)) => {
                    &&& r == rate
                    &&& channels == 1
                    &&& samples.len() == data.len() / 2
                    &&& forall|k: int|
                        0 <= k < samples.len() ==> samples[k] as int == pcm_sample(data, 2 * k)
                },
                Err(_) => false,
            }
        }),
{
    let wav = file_with_extra_chunk(riff_size, rate, extra_id, extra_body, pad, data);
    lemma_extra_chunk_layout(riff_size, rate, extra_id, extra_body, pad, data);
    let k = extra_body.len();
    let d: int = 44 + k + pad.len() as int;
    let n = data.len();
    // The walk: "fmt " at 12, then the extra chunk at 36, then "data".
    assert(chunk_search(wav, crate::wav::fmt_id(), 12) == Some((20nat, 16nat)));
    assert(wav.subrange(12, 16) != crate::wav::data_id()) by {
        assert(wav.subrange(12, 16)[0] != crate::wav::data_id()[0]);
    }
    assert(extra_id != crate::wav::data_id());
    assert(chunk_search(wav, crate::wav::data_id(), d as nat) == Some(((d + 8) as nat, n)));
    assert(chunk_search(wav, crate::wav::data_id(), 36) == chunk_search(
        wav,
        crate::wav::data_id(),
        d as nat,
    ));
    assert(chunk_search(wav, crate::wav::data_id(), 12) == chunk_search(
        wav,
        crate::wav::data_id(),
        36,
    ));
    match parse_wav(wav) {
        Ok((r, channels, samples)) => {
            assert forall|j: int| 0 <= j < samples.len() implies samples[j] as int == pcm_sample(
                data,
                2 * j,
            ) by {
                assert(wav[d + 8 + 2 * j] == data[2 * j]);
                assert(wav[d + 8 + (2 * j + 1)] == data[2 * j + 1]);
                lemma_le16_is_value2(wav, d + 8 + 2 * j);
            }
        },
        Err(_) => {},
    }
}

/// The writer's little-endian pieces are the little-endian bytes.
proof fn lemma_writer_pieces(x: u32, y: u16)
    ensures
        u32_le(x) == le4(x as nat),
        u16_le(y) == le2(y as nat),
{
    assert(x / 16777216 < 256) by (bit_vector);
    assert(y / 256 < 256) by (bit_vector);
    assert(u32_le(x) =~= le4(x as nat));
    assert(u16_le(y) =~= le2(y as nat));
}

/// What a written file holds, field by field: "RIFF", the RIFF size
/// `36 + 2n`, "WAVE", a 16-byte "fmt " chunk with format 1, one channel, the
/// sample rate, the byte rate (sample rate times the block align of 2),
/// block align 2 and 16 bits per sample, then "data" with size `2n` and each
/// sample as two little-endian bytes, in order.
#[verifier::rlimit(100)]
pub proof fn lemma_written_file_fields(samples: Seq<i16>, sample_rate: u32)
    requires
        wav_fits(samples.len(), sample_rate),
    ensures
        ({
            let w = wav_bytes(samples, sample_rate);
            let n = samples.len();
            &&& w.len() == 44 + 2 * n
            &&& w.subrange(0, 4) == seq![0x52u8, 0x49u8, 0x46u8, 0x46u8]
            &&& value4(w, 4) == 36 + 2 * n
            &&& w.subrange(8, 12) == seq![0x57u8, 0x41u8, 0x56u8, 0x45u8]
            &&& w.subrange(12, 16) == seq![0x66u8, 0x6du8, 0x74u8, 0x20u8]
            &&& value4(w, 16) == 16
            &&& value2(w, 20) == 1
            &&& value2(w, 22) == 1
            &&& value4(w, 24) == sample_rate
            &&& value4(w, 28) == 2 * sample_rate
            &&& value4(w, 28) == value4(w, 24) * value2(w, 32)
            &&& value2(w, 32) == 2
            &&& value2(w, 34) == 16
            &&& w.subrange(36, 40) == data_tag()
            &&& value4(w, 40) == 2 * n
            &&& forall|k: int| 0 <= k < n ==> pcm_sample(w, 44 + 2 * k) == samples[k] as int
        }),
{
    let w = wav_bytes(samples, sample_rate);
    let n = samples.len();
    let ds = (n * 2) as u32;
    lemma_samples_le_len(samples);
    lemma_writer_pieces((36 + ds) as u32, 1);
    lemma_writer_pieces(16, 2);
    lemma_writer_pieces(sample_rate, 16);
    lemma_writer_pieces((sample_rate * 2) as u32, 1);
    lemma_writer_pieces(ds, 1);
    lemma_le4_value((36 + ds) as nat);
    lemma_le4_value(16);
    lemma_le4_value(sample_rate as nat);
    lemma_le4_value((2 * sample_rate) as nat);
    lemma_le4_value(ds as nat);
    lemma_le2_value(1);
    lemma_le2_value(2);
    lemma_le2_value(16);
    assert(w.len() == 44 + 2 * n);
    assert(w.subrange(0, 4) =~= seq![0x52u8, 0x49u8, 0x46u8, 0x46u8]);
    assert(w.subrange(4, 8) =~= le4((36 + 2 * n) as nat));
    assert(w.subrange(8, 12) =~= seq![0x57u8, 0x41u8, 0x56u8, 0x45u8]);
    assert(w.subrange(12, 16) =~= seq![0x66u8, 0x6du8, 0x74u8, 0x20u8]);
    assert(w.subrange(16, 20) =~= le4(16));
    assert(w.subrange(20, 22) =~= le2(1));
    assert(w.subrange(22, 24) =~= le2(1));
    assert(w.subrange(24, 28) =~= le4(sample_rate as nat));
    assert(w.subrange(28, 32) =~= le4((2 * sample_rate) as nat));
    assert(w.subrange(32, 34) =~= le2(2));
    assert(w.subrange(34, 36) =~= le2(16));
    assert(w.subrange(36, 40) =~= data_tag());
    assert(w.subrange(40, 44) =~= le4(2 * n));
    assert(value4(w, 4) == value4(le4((36 + 2 * n) as nat), 0));
    assert(value4(w, 16) == value4(le4(16), 0));
    assert(value2(w, 20) == value2(le2(1), 0));
    assert(value2(w, 22) == value2(le2(1), 0));
    assert(value4(w, 24) == value4(le4(sample_rate as nat), 0));
    assert(value4(w, 28) == value4(le4((2 * sample_rate) as nat), 0));
    assert(value2(w, 32) == value2(le2(2), 0));
    assert(value2(w, 34) == value2(le2(16), 0));
    assert(value4(w, 40) == value4(le4(2 * n), 0));
    assert forall|k: int| 0 <= k < n implies pcm_sample(w, 44 + 2 * k) == samples[k] as int by {
        lemma_samples_le_index(samples, k);
        let bits = i16_bits(samples[k]);
        assert(w[44 + 2 * k] == samples_le(samples)[2 * k]);
        assert(w[44 + 2 * k + 1] == samples_le(samples)[2 * k + 1]);
        assert(bits % 256 + 256 * (bits / 256) == bits && (bits / 256 >= 128 <==> bits >= 32768)
            && bits / 256 < 256) by (bit_vector);
    }
}


/// A chunk that the search finds is a real chunk of the file: its
/// identifier stands in the eight bytes before its body, followed by its
/// body size (below 2^31), and its body lies inside the file, after where
/// the search started.
pub proof fn lemma_found_chunk_is_named(wav: Seq<u8>, id: Seq<u8>, offset: nat)
    ensures
        chunk_search(wav, id, offset) matches Some((o, n)) ==> {
            &&& offset + 8 <= o
            &&& o + n <= wav.len()
            &&& wav.subrange(o - 8, o - 4) == id
            &&& value4(wav, o - 4) == n
            &&& n < 0x8000_0000
        },
    decreases wav.len() + 1 - offset,
{
    if offset + 8 <= wav.len() {
        lemma_le32_is_value4(wav, offset + 4int);
        let size = le32_at(wav, offset + 4int);
        if size < 0x8000_0000 && offset + 8 + size <= wav.len() && wav.subrange(
            offset as int,
            offset + 4int,
        ) != id {
            lemma_found_chunk_is_named(wav, id, (offset + 8 + size + size % 2) as nat);
        }
    }
}

/// A file shorter than 12 bytes, or not starting with "RIFF" and "WAVE" at
/// bytes 0 and 8, is refused as no RIFF/WAVE file; a file that reads starts
/// with both.
pub proof fn lemma_riff_wave_required(wav: Seq<u8>)
    ensures
        (wav.len() < 12 || wav.subrange(0, 4) != seq![0x52u8, 0x49u8, 0x46u8, 0x46u8]
            || wav.subrange(8, 12) != seq![0x57u8, 0x41u8, 0x56u8, 0x45u8]) ==> parse_wav(wav)
            == Err::<(u32, u16, Seq<i16>), WavError>(WavError::NotRiffWave),
        parse_wav(wav) is Ok ==> wav.len() >= 12 && wav.subrange(0, 4) == seq![
            0x52u8,
            0x49u8,
            0x46u8,
            0x46u8,
        ] && wav.subrange(8, 12) == seq![0x57u8, 0x41u8, 0x56u8, 0x45u8],
{
    assert(crate::wav::riff_id() =~= seq![0x52u8, 0x49u8, 0x46u8, 0x46u8]);
    assert(crate::wav::wave_id() =~= seq![0x57u8, 0x41u8, 0x56u8, 0x45u8]);
}

/// A file that reads gives the samples of its first "data" chunk and the
/// sample rate and channel count of its first "fmt " chunk (format 1, 16
/// bits per sample), with a whole number of frames.
pub proof fn lemma_read_fields(wav: Seq<u8>)
    ensures
        parse_wav(wav) matches Ok((rate, channels, samples)) ==> {
            &&& chunk_search(wav, crate::wav::fmt_id(), 12) matches Some((f, fs))
            &&& chunk_search(wav, crate::wav::data_id(), 12) matches Some((d, ds))
            &&& fs >= 16
            &&& value2(wav, f as int) == 1
            &&& value2(wav, f + 2int) == channels && channels > 0
            &&& value4(wav, f + 4int) == rate
            &&& value2(wav, f + 14int) == 16
            &&& ds > 0 && ds % (2 * channels as nat) == 0
            &&& samples.len() == ds / 2
            &&& forall|k: int| 0 <= k < samples.len() ==> samples[k] as int == pcm_sample(wav, d + 2 * k)
        },
{
    if let Ok((rate, channels, samples)) = parse_wav(wav) {
        crate::wav::lemma_chunk_search_in_bounds(wav, crate::wav::fmt_id(), 12);
        crate::wav::lemma_chunk_search_in_bounds(wav, crate::wav::data_id(), 12);
        let (f, fs) = chunk_search(wav, crate::wav::fmt_id(), 12)->0;
        let (d, ds) = chunk_search(wav, crate::wav::data_id(), 12)->0;
        lemma_le16_is_value2(wav, f as int);
        lemma_le16_is_value2(wav, f + 2int);
        lemma_le32_is_value4(wav, f + 4int);
        lemma_le16_is_value2(wav, f + 14int);
        assert forall|k: int| 0 <= k < samples.len() implies samples[k] as int == pcm_sample(
            wav,
            d + 2 * k,
        ) by {
            lemma_le16_is_value2(wav, d + 2 * k);
        }
    }
}

} // verus!
