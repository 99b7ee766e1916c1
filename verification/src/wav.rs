use vstd::prelude::*;

verus! {

// ---------------------------------------------------------------------------
// Byte layout
// ---------------------------------------------------------------------------

/// Little-endian bytes of a 16-bit value.
pub open spec fn u16_le(x: u16) -> Seq<u8> {
    seq![(x % 256) as u8, (x / 256) as u8]
}

/// Little-endian bytes of a 32-bit value.
pub open spec fn u32_le(x: u32) -> Seq<u8> {
    seq![
        (x % 256) as u8,
        ((x / 256) % 256) as u8,
        ((x / 65536) % 256) as u8,
        (x / 16777216) as u8,
    ]
}

/// The two's-complement bit pattern of a 16-bit sample.
pub open spec fn i16_bits(s: i16) -> u16 {
    if s < 0 {
        (s + 65536) as u16
    } else {
        s as u16
    }
}

/// The 16-bit sample whose two's-complement bit pattern is `bits`.
pub open spec fn i16_from_bits(bits: u16) -> i16 {
    if bits >= 32768 {
        (bits - 65536) as i16
    } else {
        bits as i16
    }
}

/// Little-endian 16-bit value at byte `i` of `b`.
pub open spec fn le16_at(b: Seq<u8>, i: int) -> u16 {
    (b[i] + 256 * b[i + 1]) as u16
}

/// Little-endian 32-bit value at byte `i` of `b`.
pub open spec fn le32_at(b: Seq<u8>, i: int) -> u32 {
    (b[i] + 256 * b[i + 1] + 65536 * b[i + 2] + 16777216 * b[i + 3]) as u32
}

/// The PCM data bytes of a sequence of samples: each sample as two
/// little-endian bytes, in order.
pub open spec fn samples_le(samples: Seq<i16>) -> Seq<u8>
    decreases samples.len(),
{
    if samples.len() == 0 {
        seq![]
    } else {
        samples_le(samples.drop_last()) + u16_le(i16_bits(samples.last()))
    }
}

/// The four-byte chunk identifier "RIFF".
pub open spec fn riff_id() -> Seq<u8> {
    seq![0x52u8, 0x49u8, 0x46u8, 0x46u8]
}

/// The four-byte form type "WAVE".
pub open spec fn wave_id() -> Seq<u8> {
    seq![0x57u8, 0x41u8, 0x56u8, 0x45u8]
}

/// The four-byte chunk identifier "fmt ".
pub open spec fn fmt_id() -> Seq<u8> {
    seq![0x66u8, 0x6du8, 0x74u8, 0x20u8]
}

/// The four-byte chunk identifier "data".
pub open spec fn data_id() -> Seq<u8> {
    seq![0x64u8, 0x61u8, 0x74u8, 0x61u8]
}

/// The 44-byte header of a mono PCM 16-bit file whose data chunk holds
/// `data_size` bytes: RIFF size, the 16-byte fmt chunk (format 1, one
/// channel, sample rate, byte rate, block align 2, 16 bits per sample) and the
/// data chunk header.
pub open spec fn wav_header(data_size: u32, sample_rate: u32) -> Seq<u8> {
    riff_id() + u32_le((36 + data_size) as u32) + wave_id() + fmt_id() + u32_le(16) + u16_le(1)
        + u16_le(1) + u32_le(sample_rate) + u32_le((sample_rate * 2) as u32) + u16_le(2) + u16_le(
        16,
    ) + data_id() + u32_le(data_size)
}

/// The complete mono PCM 16-bit WAVE file for `samples` at `sample_rate`.
pub open spec fn wav_bytes(samples: Seq<i16>, sample_rate: u32) -> Seq<u8> {
    wav_header((samples.len() * 2) as u32, sample_rate) + samples_le(samples)
}

/// The sizes that a WAVE header can record: the RIFF size `36 + 2n` and the
/// byte rate `2 * sample_rate` must fit in 32 bits.
pub open spec fn wav_fits(sample_count: nat, sample_rate: u32) -> bool {
    &&& 36 + 2 * sample_count <= u32::MAX
    &&& 2 * sample_rate <= u32::MAX
}

// ---------------------------------------------------------------------------
// Writing
// ---------------------------------------------------------------------------

/// Appends the little-endian bytes of `value`.
pub fn push_u16(buffer: &mut Vec<u8>, value: u16)
    ensures
        final(buffer)@ == old(buffer)@ + u16_le(value),
        final(buffer)@.len() == old(buffer)@.len() + 2,
        final(buffer)@.subrange(0, old(buffer)@.len() as int) == old(buffer)@,
        crate::wav_laws::value2(final(buffer)@, old(buffer)@.len() as int) == value,
{
    buffer.push((value % 256) as u8);
    buffer.push((value / 256) as u8);
    assert(buffer@ =~= old(buffer)@ + u16_le(value));
    assert(buffer@.subrange(0, old(buffer)@.len() as int) =~= old(buffer)@);
    assert(value % 256 + 256 * (value / 256) == value) by (bit_vector);
}

/// Appends the little-endian bytes of `value`.
pub fn push_u32(buffer: &mut Vec<u8>, value: u32)
    ensures
        final(buffer)@ == old(buffer)@ + u32_le(value),
        final(buffer)@.len() == old(buffer)@.len() + 4,
        final(buffer)@.subrange(0, old(buffer)@.len() as int) == old(buffer)@,
        crate::wav_laws::value4(final(buffer)@, old(buffer)@.len() as int) == value,
{
    buffer.push((value % 256) as u8);
    buffer.push(((value / 256) % 256) as u8);
    buffer.push(((value / 65536) % 256) as u8);
    buffer.push((value / 16777216) as u8);
    assert(buffer@ =~= old(buffer)@ + u32_le(value));
    assert(buffer@.subrange(0, old(buffer)@.len() as int) =~= old(buffer)@);
    assert(value % 256 + 256 * ((value / 256) % 256) + 65536 * ((value / 65536) % 256) + 16777216
        * (value / 16777216) == value) by (bit_vector);
}

/// Appends a four-byte chunk identifier.
fn push_id(buffer: &mut Vec<u8>, id: [u8; 4])
    ensures
        final(buffer)@ == old(buffer)@ + id@,
{
    buffer.push(id[0]);
    buffer.push(id[1]);
    buffer.push(id[2]);
    buffer.push(id[3]);
    assert(buffer@ =~= old(buffer)@ + id@);
}

/// The two's-complement bit pattern of a sample.
fn sample_bits(sample: i16) -> (bits: u16)
    ensures
        bits == i16_bits(sample),
{
    if sample < 0 {
        (sample as i32 + 65536) as u16
    } else {
        sample as u16
    }
}

/// Encodes samples as a RIFF/WAVE file: PCM, 16 bits per sample, one
/// channel, at `sample_rate`.
pub fn write_pcm16_mono_wav(samples: &[i16], sample_rate: u32) -> (wav: Vec<u8>)
    requires
        wav_fits(samples@.len(), sample_rate),
    ensures
        wav@ == wav_bytes(samples@, sample_rate),
        wav@.len() == 44 + 2 * samples@.len(),
        crate::wav_laws::value4(wav@, 24) == sample_rate,
        crate::wav_laws::value4(wav@, 28) == 2 * sample_rate,
        crate::wav_laws::value2(wav@, 32) == 2,
        crate::wav_laws::value2(wav@, 22) == 1,
        crate::wav_laws::value2(wav@, 34) == 16,
        crate::wav_laws::value4(wav@, 40) == 2 * samples@.len(),
        forall|k: int|
            0 <= k < samples@.len() ==> crate::wav_laws::pcm_sample(wav@, 44 + 2 * k)
                == samples@[k] as int,
{
    let data_size = (samples.len() * 2) as u32;
    let mut wav: Vec<u8> = Vec::new();
    push_id(&mut wav, [0x52u8, 0x49u8, 0x46u8, 0x46u8]);
    push_u32(&mut wav, 36 + data_size);
    push_id(&mut wav, [0x57u8, 0x41u8, 0x56u8, 0x45u8]);
    push_id(&mut wav, [0x66u8, 0x6du8, 0x74u8, 0x20u8]);
    push_u32(&mut wav, 16);
    push_u16(&mut wav, 1);
    push_u16(&mut wav, 1);
    push_u32(&mut wav, sample_rate);
    push_u32(&mut wav, sample_rate * 2);
    push_u16(&mut wav, 2);
    push_u16(&mut wav, 16);
    push_id(&mut wav, [0x64u8, 0x61u8, 0x74u8, 0x61u8]);
    push_u32(&mut wav, data_size);
    let ghost header = wav@;
    assert(header =~= wav_header(data_size, sample_rate));

    let mut i: usize = 0;
    while i < samples.len()
        invariant
            i <= samples@.len(),
            wav@ == header + samples_le(samples@.take(i as int)),
        decreases samples@.len() - i,
    {
        assert(samples@.take(i as int + 1).drop_last() =~= samples@.take(i as int));
        let bits = sample_bits(samples[i]);
        push_u16(&mut wav, bits);
        i = i + 1;
        assert(wav@ =~= header + samples_le(samples@.take(i as int)));
    }
    assert(samples@.take(i as int) =~= samples@);
    proof {
        lemma_samples_le_len(samples@);
        crate::wav_laws::lemma_written_file_fields(samples@, sample_rate);
    }
    wav
}

/// The data bytes of `n` samples are `2 n` bytes long.
pub proof fn lemma_samples_le_len(samples: Seq<i16>)
    ensures
        samples_le(samples).len() == 2 * samples.len(),
    decreases samples.len(),
{
    if samples.len() > 0 {
        lemma_samples_le_len(samples.drop_last());
    }
}


// ---------------------------------------------------------------------------
// Reading
// ---------------------------------------------------------------------------

/// Why a reference file was refused.
#[derive(Clone, Copy, Debug, PartialEq, Eq, Structural)]
pub enum WavError {
    /// Shorter than 12 bytes, or not "RIFF" .. "WAVE".
    NotRiffWave,
    /// No well-formed "fmt " chunk.
    MissingFmtChunk,
    /// No well-formed "data" chunk.
    MissingDataChunk,
    /// The "fmt " chunk is shorter than 16 bytes.
    FmtChunkTooSmall,
    /// Not PCM, not 16 bits per sample, or zero channels.
    UnsupportedEncoding,
    /// The data chunk is empty or not a whole number of frames.
    InvalidDataSize,
    /// A field reaches past the end of the file.
    UnexpectedEnd,
}

/// Reads the little-endian 16-bit value at `offset`.
pub fn read_u16(data: &[u8], offset: usize) -> (res: Result<u16, WavError>)
    ensures
        offset + 2 > data@.len() ==> res == Err::<u16, WavError>(WavError::UnexpectedEnd),
        offset + 2 <= data@.len() ==> res == Ok::<u16, WavError>(le16_at(data@, offset as int)),
        res matches Ok(v) ==> v as nat == crate::wav_laws::value2(data@, offset as int),
{
    if offset > data.len() || data.len() - offset < 2 {
        return Err(WavError::UnexpectedEnd);
    }
    Ok(data[offset] as u16 + 256 * (data[offset + 1] as u16))
}

/// Reads the little-endian 32-bit value at `offset`.
pub fn read_u32(data: &[u8], offset: usize) -> (res: Result<u32, WavError>)
    ensures
        offset + 4 > data@.len() ==> res == Err::<u32, WavError>(WavError::UnexpectedEnd),
        offset + 4 <= data@.len() ==> res == Ok::<u32, WavError>(le32_at(data@, offset as int)),
        res matches Ok(v) ==> v as nat == crate::wav_laws::value4(data@, offset as int),
{
    if offset > data.len() || data.len() - offset < 4 {
        return Err(WavError::UnexpectedEnd);
    }
    Ok(data[offset] as u32 + 256 * (data[offset + 1] as u32) + 65536 * (data[offset + 2] as u32)
        + 16777216 * (data[offset + 3] as u32))
}

/// The chunk search: starting at byte `offset`, walk the chunk headers
/// (identifier, 32-bit size, body padded to an even length) and find the first
/// chunk named `id`, as (offset of its body, size of its body). The walk stops
/// with `None` at a header that does not fit, at a size with the sign bit
/// set, or at a body that runs past the end.
pub open spec fn chunk_search(wav: Seq<u8>, id: Seq<u8>, offset: nat) -> Option<(nat, nat)>
    decreases wav.len() + 1 - offset,
{
    if offset + 8 > wav.len() {
        None
    } else {
        let size = le32_at(wav, offset + 4int);
        if size >= 0x8000_0000 {
            None
        } else if offset + 8 + size > wav.len() {
            None
        } else if wav.subrange(offset as int, offset + 4int) == id {
            Some(((offset + 8) as nat, size as nat))
        } else {
            chunk_search(wav, id, (offset + 8 + size + size % 2) as nat)
        }
    }
}

/// Finds the first chunk named `chunk_id` after the 12-byte RIFF header.
pub fn find_chunk(wav: &[u8], chunk_id: &[u8; 4]) -> (res: Option<(usize, usize)>)
    ensures
        res matches Some((o, n)) ==> chunk_search(wav@, chunk_id@, 12) == Some(
            (o as nat, n as nat),
        ),
        res is None ==> chunk_search(wav@, chunk_id@, 12) is None,
{
    let mut offset: usize = 12;
    while offset <= wav.len() && wav.len() - offset >= 8
        invariant
            chunk_search(wav@, chunk_id@, 12) == chunk_search(wav@, chunk_id@, offset as nat),
        decreases wav@.len() + 1 - offset,
    {
        let size = match read_u32(wav, offset + 4) {
            Ok(size) => size,
            Err(_) => return None,
        };
        if size >= 0x8000_0000 {
            return None;
        }
        let size = size as usize;
        let data_offset = offset + 8;
        if size > wav.len() - data_offset {
            return None;
        }
        if wav[offset] == chunk_id[0] && wav[offset + 1] == chunk_id[1] && wav[offset + 2]
            == chunk_id[2] && wav[offset + 3] == chunk_id[3] {
            assert(wav@.subrange(offset as int, offset + 4) =~= chunk_id@);
            return Some((data_offset, size));
        }
        assert(wav@.subrange(offset as int, offset + 4) != chunk_id@) by {
            if wav@.subrange(offset as int, offset + 4) == chunk_id@ {
                assert(wav@.subrange(offset as int, offset + 4)[0] == wav@[offset as int]);
                assert(wav@.subrange(offset as int, offset + 4)[1] == wav@[offset + 1]);
                assert(wav@.subrange(offset as int, offset + 4)[2] == wav@[offset + 2]);
                assert(wav@.subrange(offset as int, offset + 4)[3] == wav@[offset + 3]);
            }
        }
        let end = data_offset + size;
        if end >= wav.len() {
            assert(chunk_search(wav@, chunk_id@, (end + size % 2) as nat) is None);
            return None;
        }
        offset = end + size % 2;
    }
    None
}


/// A chunk that the search finds lies inside the file.
pub proof fn lemma_chunk_search_in_bounds(wav: Seq<u8>, id: Seq<u8>, offset: nat)
    ensures
        chunk_search(wav, id, offset) matches Some((o, n)) ==> o + n <= wav.len() && o >= 8,
    decreases wav.len() + 1 - offset,
{
    if offset + 8 <= wav.len() {
        let size = le32_at(wav, offset + 4int);
        if size < 0x8000_0000 && offset + 8 + size <= wav.len() && wav.subrange(
            offset as int,
            offset + 4int,
        ) != id {
            lemma_chunk_search_in_bounds(wav, id, (offset + 8 + size + size % 2) as nat);
        }
    }
}

/// The sample stored at index `k` of a data chunk whose body starts at
/// byte `data_offset`.
pub open spec fn sample_at(wav: Seq<u8>, data_offset: int, k: int) -> i16 {
    i16_from_bits(le16_at(wav, data_offset + 2 * k))
}

/// What reading a reference file gives: the sample rate, the number of
/// channels and all samples of the data chunk (interleaved by channel), or
/// the reason the file is refused. The checks come in this order: RIFF/WAVE
/// header, "fmt " chunk present, "data" chunk present, fmt chunk at least
/// 16 bytes, PCM format 1 with 16 bits and at least one channel, data size
/// non-zero and a whole number of frames.
pub open spec fn parse_wav(wav: Seq<u8>) -> Result<(u32, u16, Seq<i16>), WavError> {
    if wav.len() < 12 || wav.subrange(0, 4) != riff_id() || wav.subrange(8, 12) != wave_id() {
        Err(WavError::NotRiffWave)
    } else {
        match chunk_search(wav, fmt_id(), 12) {
            None => Err(WavError::MissingFmtChunk),
            Some((fmt_offset, fmt_size)) => match chunk_search(wav, data_id(), 12) {
                None => Err(WavError::MissingDataChunk),
                Some((data_offset, data_size)) => {
                    if fmt_size < 16 {
                        Err(WavError::FmtChunkTooSmall)
                    } else {
                        let format = le16_at(wav, fmt_offset as int);
                        let channels = le16_at(wav, fmt_offset + 2int);
                        let sample_rate = le32_at(wav, fmt_offset + 4int);
                        let bits = le16_at(wav, fmt_offset + 14int);
                        if format != 1 || bits != 16 || channels == 0 {
                            Err(WavError::UnsupportedEncoding)
                        } else if data_size == 0 || data_size % (2 * channels as nat) != 0 {
                            Err(WavError::InvalidDataSize)
                        } else {
                            Ok(
                                (
                                    sample_rate,
                                    channels,
                                    Seq::new(
                                        data_size / 2,
                                        |k: int| sample_at(wav, data_offset as int, k),
                                    ),
                                ),
                            )
                        }
                    }
                }
            },
        }
    }
}

/// A decoded PCM 16-bit file: sample rate, channel count, and the samples of
/// all channels interleaved frame by frame.
pub struct Pcm16Wav {
    pub sample_rate: u32,
    pub channels: u16,
    pub samples: Vec<i16>,
}

impl Pcm16Wav {
    /// The decoded file as plain values.
    pub open spec fn model(&self) -> (u32, u16, Seq<i16>) {
        (self.sample_rate, self.channels, self.samples@)
    }
}

/// The sample with bit pattern `bits`.
fn sample_from_bits(bits: u16) -> (s: i16)
    ensures
        s == i16_from_bits(bits),
{
    if bits >= 32768 {
        (bits as i32 - 65536) as i16
    } else {
        bits as i16
    }
}

/// Reads a PCM 16-bit RIFF/WAVE file.
pub fn parse_pcm16_wav_mono(wav: &[u8]) -> (res: Result<Pcm16Wav, WavError>)
    ensures
        match res {
            Ok(p) => parse_wav(wav@) == Ok::<(u32, u16, Seq<i16>), WavError>(p.model()),
            Err(e) => parse_wav(wav@) == Err::<(u32, u16, Seq<i16>), WavError>(e),
        },
{
    if wav.len() < 12 || wav[0] != 0x52 || wav[1] != 0x49 || wav[2] != 0x46 || wav[3] != 0x46
        || wav[8] != 0x57 || wav[9] != 0x41 || wav[10] != 0x56 || wav[11] != 0x45 {
        proof {
            if wav@.len() >= 12 {
                if wav@.subrange(0, 4) == riff_id() {
                    assert(wav@.subrange(0, 4)[0] == wav@[0]);
                    assert(wav@.subrange(0, 4)[1] == wav@[1]);
                    assert(wav@.subrange(0, 4)[2] == wav@[2]);
                    assert(wav@.subrange(0, 4)[3] == wav@[3]);
                    assert(wav@.subrange(8, 12)[0] == wav@[8]);
                    assert(wav@.subrange(8, 12)[1] == wav@[9]);
                    assert(wav@.subrange(8, 12)[2] == wav@[10]);
                    assert(wav@.subrange(8, 12)[3] == wav@[11]);
                }
            }
        }
        return Err(WavError::NotRiffWave);
    }
    assert(wav@.subrange(0, 4) =~= riff_id());
    assert(wav@.subrange(8, 12) =~= wave_id());
    let fmt_tag: [u8; 4] = [0x66u8, 0x6du8, 0x74u8, 0x20u8];
    let data_tag: [u8; 4] = [0x64u8, 0x61u8, 0x74u8, 0x61u8];
    assert(fmt_tag@ =~= fmt_id());
    assert(data_tag@ =~= data_id());
    let (fmt_offset, fmt_size) = match find_chunk(wav, &fmt_tag) {
        Some(found) => found,
        None => return Err(WavError::MissingFmtChunk),
    };
    let (data_offset, data_size) = match find_chunk(wav, &data_tag) {
        Some(found) => found,
        None => return Err(WavError::MissingDataChunk),
    };
    if fmt_size < 16 {
        return Err(WavError::FmtChunkTooSmall);
    }
    proof {
        lemma_chunk_search_in_bounds(wav@, fmt_id(), 12);
        lemma_chunk_search_in_bounds(wav@, data_id(), 12);
    }
    let audio_format = read_u16(wav, fmt_offset)?;
    let channels = read_u16(wav, fmt_offset + 2)?;
    let sample_rate = read_u32(wav, fmt_offset + 4)?;
    let bits_per_sample = read_u16(wav, fmt_offset + 14)?;
    if audio_format != 1 || bits_per_sample != 16 || channels == 0 {
        return Err(WavError::UnsupportedEncoding);
    }
    let bytes_per_frame = channels as usize * 2;
    if data_size == 0 || data_size % bytes_per_frame != 0 {
        return Err(WavError::InvalidDataSize);
    }
    let count = data_size / 2;
    let mut samples: Vec<i16> = Vec::with_capacity(count);
    let mut k: usize = 0;
    while k < count
        invariant
            count == data_size / 2,
            2 * count <= data_size,
            wav@.len() <= usize::MAX,
            data_offset + data_size <= wav@.len(),
            k <= count,
            samples@.len() == k,
            forall|j: int| 0 <= j < k ==> samples@[j] == sample_at(wav@, data_offset as int, j),
        decreases count - k,
    {
        let offset = data_offset + 2 * k;
        let bits = wav[offset] as u16 + 256 * (wav[offset + 1] as u16);
        samples.push(sample_from_bits(bits));
        k = k + 1;
    }
    let ghost expected = Seq::new(
        (data_size / 2) as nat,
        |j: int| sample_at(wav@, data_offset as int, j),
    );
    assert(samples@ =~= expected);
    Ok(Pcm16Wav { sample_rate, channels, samples })
}


// ---------------------------------------------------------------------------
// Writing then reading gives the samples back
// ---------------------------------------------------------------------------

/// Reading back the little-endian bytes of a 32-bit value gives the value.
proof fn lemma_le32_at(b: Seq<u8>, i: int, x: u32)
    requires
        0 <= i,
        i + 4 <= b.len(),
        b.subrange(i, i + 4) == u32_le(x),
    ensures
        le32_at(b, i) == x,
{
    assert(b[i] == b.subrange(i, i + 4)[0]);
    assert(b[i + 1] == b.subrange(i, i + 4)[1]);
    assert(b[i + 2] == b.subrange(i, i + 4)[2]);
    assert(b[i + 3] == b.subrange(i, i + 4)[3]);
    assert(x % 256 + 256 * ((x / 256) % 256) + 65536 * ((x / 65536) % 256) + 16777216 * (x
        / 16777216) == x) by (bit_vector);
}

/// Reading back the little-endian bytes of a 16-bit value gives the value.
proof fn lemma_le16_at(b: Seq<u8>, i: int, x: u16)
    requires
        0 <= i,
        i + 2 <= b.len(),
        b.subrange(i, i + 2) == u16_le(x),
    ensures
        le16_at(b, i) == x,
{
    assert(b[i] == b.subrange(i, i + 2)[0]);
    assert(b[i + 1] == b.subrange(i, i + 2)[1]);
    assert(x % 256 + 256 * (x / 256) == x) by (bit_vector);
}

/// Byte `2k` and `2k + 1` of the data bytes are the little-endian bytes of
/// sample `k`.
pub proof fn lemma_samples_le_index(samples: Seq<i16>, k: int)
    requires
        0 <= k < samples.len(),
    ensures
        samples_le(samples).len() == 2 * samples.len(),
        samples_le(samples)[2 * k] == (i16_bits(samples[k]) % 256) as u8,
        samples_le(samples)[2 * k + 1] == (i16_bits(samples[k]) / 256) as u8,
    decreases samples.len(),
{
    lemma_samples_le_len(samples);
    lemma_samples_le_len(samples.drop_last());
    if k < samples.len() - 1 {
        lemma_samples_le_index(samples.drop_last(), k);
    }
}

/// A file written by `write_pcm16_mono_wav` reads back as one channel at the
/// same sample rate with exactly the samples that were written, provided
/// there is at least one sample (an empty data chunk is refused) and the data
/// size stays below 2^31 bytes (a larger size reads as negative).
pub proof fn lemma_wav_roundtrip(samples: Seq<i16>, sample_rate: u32)
    requires
        wav_fits(samples.len(), sample_rate),
        0 < samples.len(),
        2 * samples.len() < 0x8000_0000,
    ensures
        parse_wav(wav_bytes(samples, sample_rate)) == Ok::<(u32, u16, Seq<i16>), WavError>(
            (sample_rate, 1u16, samples),
        ),
{
    let n = samples.len();
    let ds = (n * 2) as u32;
    let b = wav_bytes(samples, sample_rate);
    lemma_samples_le_len(samples);
    assert(b.len() == 44 + 2 * n);
    assert(b.subrange(0, 4) =~= riff_id());
    assert(b.subrange(4, 8) =~= u32_le((36 + ds) as u32));
    assert(b.subrange(8, 12) =~= wave_id());
    assert(b.subrange(12, 16) =~= fmt_id());
    assert(b.subrange(16, 20) =~= u32_le(16));
    assert(b.subrange(20, 22) =~= u16_le(1));
    assert(b.subrange(22, 24) =~= u16_le(1));
    assert(b.subrange(24, 28) =~= u32_le(sample_rate));
    assert(b.subrange(34, 36) =~= u16_le(16));
    assert(b.subrange(36, 40) =~= data_id());
    assert(b.subrange(40, 44) =~= u32_le(ds));
    lemma_le32_at(b, 16, 16);
    lemma_le16_at(b, 20, 1);
    lemma_le16_at(b, 22, 1);
    lemma_le32_at(b, 24, sample_rate);
    lemma_le16_at(b, 34, 16);
    lemma_le32_at(b, 40, ds);
    // The "fmt " chunk is found first, the "data" chunk right after it.
    assert(chunk_search(b, fmt_id(), 12) == Some((20nat, 16nat)));
    assert(b.subrange(12, 16) != data_id()) by {
        assert(b.subrange(12, 16)[0] != data_id()[0]);
    }
    assert(chunk_search(b, data_id(), 36) == Some((44nat, (2 * n) as nat)));
    assert(chunk_search(b, data_id(), 12) == chunk_search(b, data_id(), 36));
    // Every sample reads back.
    let read = Seq::new(((2 * n) as nat / 2) as nat, |k: int| sample_at(b, 44, k));
    assert forall|k: int| 0 <= k < n implies read[k] == samples[k] by {
        lemma_samples_le_index(samples, k);
        let bits = i16_bits(samples[k]);
        assert(b[44 + 2 * k] == samples_le(samples)[2 * k]);
        assert(b[44 + 2 * k + 1] == samples_le(samples)[2 * k + 1]);
        assert(bits % 256 + 256 * (bits / 256) == bits) by (bit_vector);
    }
    assert(read =~= samples);
}


/// A file that reads successfully holds at least one sample and a whole
/// number of frames: its sample count is a non-zero multiple of its channel
/// count.
pub proof fn lemma_parse_whole_frames(wav: Seq<u8>)
    ensures
        parse_wav(wav) matches Ok((rate, channels, samples)) ==> channels > 0 && samples.len() > 0
            && samples.len() % (channels as nat) == 0,
{
    if let Ok((rate, channels, samples)) = parse_wav(wav) {
        let (data_offset, data_size) = chunk_search(wav, data_id(), 12)->0;
        let c = channels as nat;
        assert(data_size % (2 * c) == 0 && data_size > 0);
        assert(samples.len() == data_size / 2);
        assert((data_size / 2) % c == 0 && data_size / 2 > 0) by (nonlinear_arith)
            requires
                data_size % (2 * c) == 0,
                data_size > 0,
                c > 0,
        {
            let q = data_size / (2 * c);
            assert(data_size == 2 * c * q);
            assert(data_size / 2 == c * q);
        }
    }
}

} // verus!
