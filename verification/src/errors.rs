use vstd::prelude::*;
use vstd::string::StringExecFns;

use crate::args::{ArgError, ArgErrorModel};
use crate::wav::WavError;

verus! {

/// A refused input, as the message shown to the user.
#[derive(Debug)]
pub struct InvalidInput {
    pub message: String,
}

/// The refusal of an input, with its message.
pub fn invalid(message: String) -> (e: InvalidInput)
    ensures
        e.message@ == message@,
{
    InvalidInput { message }
}

/// The message for a refused command line.
pub open spec fn arg_error_text(e: ArgErrorModel) -> Seq<char> {
    match e {
        ArgErrorModel::UnknownArgument(a) => "unknown argument: "@ + a,
        ArgErrorModel::MissingValue(flag) => "missing value for "@ + flag,
        ArgErrorModel::UnknownPreset(v) => "unknown preset: "@ + v
            + "; expected soft, classic, crisp, blue, balanced, or retro"@,
        ArgErrorModel::InvalidSampleRate(v) => "invalid sample rate: "@ + v,
        ArgErrorModel::SampleRateOutOfRange => "sample rate must be between 8000 and 192000"@,
    }
}

/// The message for a refused reference file.
pub open spec fn wav_error_text(e: WavError) -> Seq<char> {
    match e {
        WavError::NotRiffWave => "reference is not a RIFF/WAVE file"@,
        WavError::MissingFmtChunk => "reference wav missing fmt chunk"@,
        WavError::MissingDataChunk => "reference wav missing data chunk"@,
        WavError::FmtChunkTooSmall => "reference wav fmt chunk is too small"@,
        WavError::UnsupportedEncoding => "only PCM 16-bit reference wav files are supported"@,
        WavError::InvalidDataSize => "reference wav data size is invalid"@,
        WavError::UnexpectedEnd => "unexpected end of wav"@,
    }
}

impl ArgError {
    /// The message shown for this error.
    pub fn message(&self) -> (text: String)
        ensures
            text@ == arg_error_text(self.model()),
    {
        match self {
            ArgError::UnknownArgument(a) => String::from_str("unknown argument: ").concat(
                a.as_str(),
            ),
            ArgError::MissingValue(flag) => String::from_str("missing value for ").concat(
                flag.as_str(),
            ),
            ArgError::UnknownPreset(v) => String::from_str("unknown preset: ").concat(
                v.as_str(),
            ).concat("; expected soft, classic, crisp, blue, balanced, or retro"),
            ArgError::InvalidSampleRate(v) => String::from_str("invalid sample rate: ").concat(
                v.as_str(),
            ),
            ArgError::SampleRateOutOfRange => String::from_str(
                "sample rate must be between 8000 and 192000",
            ),
        }
    }

    /// This error as a refused input.
    pub fn to_invalid(&self) -> (e: InvalidInput)
        ensures
            e.message@ == arg_error_text(self.model()),
    {
        invalid(self.message())
    }
}

impl WavError {
    /// The message shown for this error.
    pub fn message(&self) -> (text: String)
        ensures
            text@ == wav_error_text(*self),
    {
        match self {
            WavError::NotRiffWave => String::from_str("reference is not a RIFF/WAVE file"),
            WavError::MissingFmtChunk => String::from_str("reference wav missing fmt chunk"),
            WavError::MissingDataChunk => String::from_str("reference wav missing data chunk"),
            WavError::FmtChunkTooSmall => String::from_str("reference wav fmt chunk is too small"),
            WavError::UnsupportedEncoding => String::from_str(
                "only PCM 16-bit reference wav files are supported",
            ),
            WavError::InvalidDataSize => String::from_str("reference wav data size is invalid"),
            WavError::UnexpectedEnd => String::from_str("unexpected end of wav"),
        }
    }

    /// This error as a refused input.
    pub fn to_invalid(&self) -> (e: InvalidInput)
        ensures
            e.message@ == wav_error_text(*self),
    {
        invalid(self.message())
    }
}


/// The messages of a refused command line name the problem and the text
/// that caused it.
pub proof fn lemma_arg_error_texts(a: Seq<char>)
    ensures
        arg_error_text(ArgErrorModel::UnknownArgument(a)) == "unknown argument: "@ + a,
        arg_error_text(ArgErrorModel::MissingValue(a)) == "missing value for "@ + a,
        arg_error_text(ArgErrorModel::UnknownPreset(a)) == "unknown preset: "@ + a
            + "; expected soft, classic, crisp, blue, balanced, or retro"@,
        arg_error_text(ArgErrorModel::InvalidSampleRate(a)) == "invalid sample rate: "@ + a,
        arg_error_text(ArgErrorModel::SampleRateOutOfRange)
            == "sample rate must be between 8000 and 192000"@,
{
}

/// The messages of a refused reference file.
pub proof fn lemma_wav_error_texts()
    ensures
        wav_error_text(WavError::NotRiffWave) == "reference is not a RIFF/WAVE file"@,
        wav_error_text(WavError::MissingFmtChunk) == "reference wav missing fmt chunk"@,
        wav_error_text(WavError::MissingDataChunk) == "reference wav missing data chunk"@,
        wav_error_text(WavError::FmtChunkTooSmall) == "reference wav fmt chunk is too small"@,
        wav_error_text(WavError::UnsupportedEncoding)
            == "only PCM 16-bit reference wav files are supported"@,
        wav_error_text(WavError::InvalidDataSize) == "reference wav data size is invalid"@,
        wav_error_text(WavError::UnexpectedEnd) == "unexpected end of wav"@,
{
}

} // verus!
