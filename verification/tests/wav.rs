use build_keyboard_sounds::wav::{
    find_chunk, parse_pcm16_wav_mono, push_u16, push_u32, read_u16, read_u32,
    write_pcm16_mono_wav, WavError,
};

#[test]
fn written_header_is_pcm16_mono() {
    let samples: Vec<i16> = vec![0, 1, -1, i16::MAX, i16::MIN, 1234];
    let wav = write_pcm16_mono_wav(&samples, 44_100);

    assert_eq!(&wav[0..4], b"RIFF");
    assert_eq!(&wav[8..12], b"WAVE");
    assert_eq!(&wav[12..16], b"fmt ");
    assert_eq!(u32::from_le_bytes([wav[4], wav[5], wav[6], wav[7]]), 36 + 12);
    assert_eq!(u32::from_le_bytes([wav[16], wav[17], wav[18], wav[19]]), 16);
    assert_eq!(u16::from_le_bytes([wav[20], wav[21]]), 1);
    assert_eq!(u16::from_le_bytes([wav[22], wav[23]]), 1);
    assert_eq!(
        u32::from_le_bytes([wav[24], wav[25], wav[26], wav[27]]),
        44_100
    );
    assert_eq!(
        u32::from_le_bytes([wav[28], wav[29], wav[30], wav[31]]),
        88_200
    );
    assert_eq!(u16::from_le_bytes([wav[32], wav[33]]), 2);
    assert_eq!(u16::from_le_bytes([wav[34], wav[35]]), 16);
    assert_eq!(&wav[36..40], b"data");
    assert_eq!(
        u32::from_le_bytes([wav[40], wav[41], wav[42], wav[43]]) as usize,
        wav.len() - 44
    );
    let data: Vec<i16> = wav[44..]
        .chunks_exact(2)
        .map(|b| i16::from_le_bytes([b[0], b[1]]))
        .collect();
    assert_eq!(data, samples);
}

#[test]
fn written_file_reads_back() {
    let reference_samples = vec![0, 1200, -2400, 3600, -4800, 2400, -1200, 0];
    let reference = write_pcm16_mono_wav(&reference_samples, 22_050);
    let parsed = parse_pcm16_wav_mono(&reference).unwrap();

    assert_eq!(parsed.sample_rate, 22_050);
    assert_eq!(parsed.channels, 1);
    assert_eq!(parsed.samples, reference_samples);
}

#[test]
fn empty_data_is_refused() {
    let wav = write_pcm16_mono_wav(&[], 44_100);
    assert_eq!(wav.len(), 44);
    assert_eq!(
        parse_pcm16_wav_mono(&wav).err(),
        Some(WavError::InvalidDataSize)
    );
}

/// A stereo file with an extra chunk before "fmt " and an odd-sized chunk
/// between "fmt " and "data".
fn stereo_file() -> Vec<u8> {
    let mut wav = Vec::new();
    wav.extend_from_slice(b"RIFF");
    wav.extend_from_slice(&0u32.to_le_bytes());
    wav.extend_from_slice(b"WAVE");
    wav.extend_from_slice(b"LIST");
    wav.extend_from_slice(&3u32.to_le_bytes());
    wav.extend_from_slice(&[1, 2, 3, 0]);
    wav.extend_from_slice(b"fmt ");
    wav.extend_from_slice(&18u32.to_le_bytes());
    wav.extend_from_slice(&1u16.to_le_bytes());
    wav.extend_from_slice(&2u16.to_le_bytes());
    wav.extend_from_slice(&48_000u32.to_le_bytes());
    wav.extend_from_slice(&192_000u32.to_le_bytes());
    wav.extend_from_slice(&4u16.to_le_bytes());
    wav.extend_from_slice(&16u16.to_le_bytes());
    wav.extend_from_slice(&[0, 0]);
    wav.extend_from_slice(b"data");
    wav.extend_from_slice(&8u32.to_le_bytes());
    for s in [100i16, -100, 7, -32768] {
        wav.extend_from_slice(&s.to_le_bytes());
    }
    wav
}

#[test]
fn chunks_are_found_past_other_chunks() {
    let wav = stereo_file();
    assert_eq!(find_chunk(&wav, b"fmt "), Some((32, 18)));
    assert_eq!(find_chunk(&wav, b"data"), Some((58, 8)));
    assert_eq!(find_chunk(&wav, b"LIST"), Some((20, 3)));
    assert_eq!(find_chunk(&wav, b"cue "), None);
    let parsed = parse_pcm16_wav_mono(&wav).unwrap();
    assert_eq!(parsed.sample_rate, 48_000);
    assert_eq!(parsed.channels, 2);
    assert_eq!(parsed.samples, vec![100, -100, 7, -32768]);
}

#[test]
fn negative_or_overlong_chunk_sizes_end_the_search() {
    let mut wav = stereo_file();
    wav[16..20].copy_from_slice(&0x8000_0000u32.to_le_bytes());
    assert_eq!(find_chunk(&wav, b"fmt "), None);
    let mut wav = stereo_file();
    wav[16..20].copy_from_slice(&1000u32.to_le_bytes());
    assert_eq!(find_chunk(&wav, b"fmt "), None);
}

#[test]
fn each_refusal_has_its_reason() {
    let good = write_pcm16_mono_wav(&[1, 2, 3], 8_000);

    assert_eq!(parse_pcm16_wav_mono(&good[..11]).err(), Some(WavError::NotRiffWave));
    let mut bad = good.clone();
    bad[8] = b'X';
    assert_eq!(parse_pcm16_wav_mono(&bad).err(), Some(WavError::NotRiffWave));

    let mut no_fmt = good.clone();
    no_fmt[12..16].copy_from_slice(b"fmtx");
    assert_eq!(parse_pcm16_wav_mono(&no_fmt).err(), Some(WavError::MissingFmtChunk));

    let mut no_data = good.clone();
    no_data[36..40].copy_from_slice(b"date");
    assert_eq!(parse_pcm16_wav_mono(&no_data).err(), Some(WavError::MissingDataChunk));

    let mut small_fmt = good.clone();
    small_fmt[16..20].copy_from_slice(&14u32.to_le_bytes());
    small_fmt[34..36].copy_from_slice(b"xx");
    // The fmt chunk now ends at 34; pad the next chunk header accordingly.
    let mut small_fmt_file = small_fmt[..34].to_vec();
    small_fmt_file.extend_from_slice(b"data");
    small_fmt_file.extend_from_slice(&6u32.to_le_bytes());
    small_fmt_file.extend_from_slice(&good[44..]);
    assert_eq!(
        parse_pcm16_wav_mono(&small_fmt_file).err(),
        Some(WavError::FmtChunkTooSmall)
    );

    let mut float_format = good.clone();
    float_format[20] = 3;
    assert_eq!(
        parse_pcm16_wav_mono(&float_format).err(),
        Some(WavError::UnsupportedEncoding)
    );
    let mut eight_bit = good.clone();
    eight_bit[34] = 8;
    assert_eq!(
        parse_pcm16_wav_mono(&eight_bit).err(),
        Some(WavError::UnsupportedEncoding)
    );
    let mut no_channels = good.clone();
    no_channels[22] = 0;
    assert_eq!(
        parse_pcm16_wav_mono(&no_channels).err(),
        Some(WavError::UnsupportedEncoding)
    );

    let mut stereo_odd = good.clone();
    stereo_odd[22] = 2;
    assert_eq!(
        parse_pcm16_wav_mono(&stereo_odd).err(),
        Some(WavError::InvalidDataSize)
    );
}

#[test]
fn refusal_messages() {
    assert_eq!(
        WavError::NotRiffWave.message(),
        "reference is not a RIFF/WAVE file".to_string()
    );
    assert_eq!(
        WavError::MissingFmtChunk.message(),
        "reference wav missing fmt chunk".to_string()
    );
    assert_eq!(
        WavError::MissingDataChunk.message(),
        "reference wav missing data chunk".to_string()
    );
    assert_eq!(
        WavError::FmtChunkTooSmall.message(),
        "reference wav fmt chunk is too small".to_string()
    );
    assert_eq!(
        WavError::UnsupportedEncoding.message(),
        "only PCM 16-bit reference wav files are supported".to_string()
    );
    assert_eq!(
        WavError::InvalidDataSize.to_invalid().message,
        "reference wav data size is invalid".to_string()
    );
    assert_eq!(
        WavError::UnexpectedEnd.message(),
        "unexpected end of wav".to_string()
    );
}

#[test]
fn little_endian_reads_and_pushes() {
    let data = [0x34u8, 0x12, 0x78, 0x56];
    assert_eq!(read_u16(&data, 0), Ok(0x1234));
    assert_eq!(read_u16(&data, 2), Ok(0x5678));
    assert_eq!(read_u16(&data, 3), Err(WavError::UnexpectedEnd));
    assert_eq!(read_u16(&data, usize::MAX), Err(WavError::UnexpectedEnd));
    assert_eq!(read_u32(&data, 0), Ok(0x5678_1234));
    assert_eq!(read_u32(&data, 1), Err(WavError::UnexpectedEnd));

    let mut buffer = vec![9u8];
    push_u16(&mut buffer, 0xbeef);
    push_u32(&mut buffer, 0x0102_0304);
    assert_eq!(buffer, vec![9, 0xef, 0xbe, 4, 3, 2, 1]);
}
