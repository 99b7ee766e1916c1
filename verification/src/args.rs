use vstd::prelude::*;
use vstd::string::StrSliceExecFns;
use vstd::string::StringExecFns;

use crate::presets::{Preset, PresetOption};
use crate::text::{ascii_lowercase, lowercase_eq, str_eq};

verus! {

// ---------------------------------------------------------------------------
// Errors
// ---------------------------------------------------------------------------

/// A command line that was refused.
#[derive(Debug)]
pub enum ArgError {
    /// An argument that is not an option.
    UnknownArgument(String),
    /// An option (named here) whose value is missing.
    MissingValue(String),
    /// A preset name that no pack has.
    UnknownPreset(String),
    /// A sample rate that is not a decimal number.
    InvalidSampleRate(String),
    /// A sample rate outside 8000 ..= 192000.
    SampleRateOutOfRange,
}

/// A refused command line, as plain values.
pub enum ArgErrorModel {
    UnknownArgument(Seq<char>),
    MissingValue(Seq<char>),
    UnknownPreset(Seq<char>),
    InvalidSampleRate(Seq<char>),
    SampleRateOutOfRange,
}

impl ArgError {
    /// The error as plain values.
    pub open spec fn model(&self) -> ArgErrorModel {
        match self {
            ArgError::UnknownArgument(s) => ArgErrorModel::UnknownArgument(s@),
            ArgError::MissingValue(s) => ArgErrorModel::MissingValue(s@),
            ArgError::UnknownPreset(s) => ArgErrorModel::UnknownPreset(s@),
            ArgError::InvalidSampleRate(s) => ArgErrorModel::InvalidSampleRate(s@),
            ArgError::SampleRateOutOfRange => ArgErrorModel::SampleRateOutOfRange,
        }
    }
}

// ---------------------------------------------------------------------------
// Presets by name
// ---------------------------------------------------------------------------

/// The pack named by a lower-case name: "soft", "classic", "crisp", "blue"
/// (also "mx-blue", "cherry-blue" and the Chinese name of the blue switch),
/// "balanced", "retro" (also "typewriter").
pub open spec fn preset_named(lower: Seq<char>) -> Option<Preset> {
    if lower == "soft"@ {
        Some(Preset::Soft)
    } else if lower == "classic"@ {
        Some(Preset::Classic)
    } else if lower == "crisp"@ {
        Some(Preset::Crisp)
    } else if lower == "blue"@ || lower == "mx-blue"@ || lower == "cherry-blue"@ || lower
        == "\u{9752}\u{8ef8}"@ {
        Some(Preset::Blue)
    } else if lower == "balanced"@ {
        Some(Preset::Balanced)
    } else if lower == "retro"@ || lower == "typewriter"@ {
        Some(Preset::Retro)
    } else {
        None
    }
}

impl Preset {
    /// The pack named `value`, compared without regard to ASCII case.
    pub fn parse(value: &str) -> (res: Result<Preset, ArgError>)
        ensures
            match res {
                Ok(p) => preset_named(ascii_lowercase(value@)) == Some(p),
                Err(e) => preset_named(ascii_lowercase(value@)) is None && e.model()
                    == ArgErrorModel::UnknownPreset(value@),
            },
    {
        if lowercase_eq(value, "soft") {
            Ok(Preset::Soft)
        } else if lowercase_eq(value, "classic") {
            Ok(Preset::Classic)
        } else if lowercase_eq(value, "crisp") {
            Ok(Preset::Crisp)
        } else if lowercase_eq(value, "blue") || lowercase_eq(value, "mx-blue") || lowercase_eq(
            value,
            "cherry-blue",
        ) || lowercase_eq(value, "\u{9752}\u{8ef8}") {
            Ok(Preset::Blue)
        } else if lowercase_eq(value, "balanced") {
            Ok(Preset::Balanced)
        } else if lowercase_eq(value, "retro") || lowercase_eq(value, "typewriter") {
            Ok(Preset::Retro)
        } else {
            Err(ArgError::UnknownPreset(String::from_str(value)))
        }
    }
}

// ---------------------------------------------------------------------------
// Numbers
// ---------------------------------------------------------------------------

/// An ASCII decimal digit.
pub open spec fn is_digit(c: char) -> bool {
    '0' <= c && c <= '9'
}

/// The value of a string of decimal digits.
pub open spec fn decimal_value(digits: Seq<char>) -> nat
    decreases digits.len(),
{
    if digits.len() == 0 {
        0
    } else {
        decimal_value(digits.drop_last()) * 10 + ((digits.last() as u32) - 48) as nat
    }
}

/// The digits of an unsigned number: the text without one leading '+'.
pub open spec fn unsigned_digits(s: Seq<char>) -> Seq<char> {
    if s.len() > 0 && s[0] == '+' {
        s.drop_first()
    } else {
        s
    }
}

/// The 32-bit unsigned number that `s` spells: an optional '+', then one or
/// more ASCII digits, with a value that fits in 32 bits.
pub open spec fn parse_u32(s: Seq<char>) -> Option<u32> {
    let d = unsigned_digits(s);
    if d.len() > 0 && (forall|i: int| 0 <= i < d.len() ==> is_digit(#[trigger] d[i]))
        && decimal_value(d) <= u32::MAX {
        Some(decimal_value(d) as u32)
    } else {
        None
    }
}

/// Adding digits never makes a number smaller.
proof fn lemma_decimal_value_grows(d: Seq<char>, k: int)
    requires
        0 <= k <= d.len(),
        forall|i: int| 0 <= i < d.len() ==> is_digit(#[trigger] d[i]),
    ensures
        decimal_value(d.take(k)) <= decimal_value(d),
    decreases d.len(),
{
    if k < d.len() {
        assert(d.drop_last().take(k) =~= d.take(k));
        lemma_decimal_value_grows(d.drop_last(), k);
    } else {
        assert(d.take(k) =~= d);
    }
}

/// Reads an unsigned 32-bit decimal number.
pub fn parse_decimal_u32(value: &str) -> (res: Option<u32>)
    ensures
        res == parse_u32(value@),
{
    let n = value.unicode_len();
    let mut start: usize = 0;
    if n > 0 && value.get_char(0) == '+' {
        start = 1;
    }
    let ghost d = unsigned_digits(value@);
    assert(d =~= value@.subrange(start as int, n as int));
    if start == n {
        return None;
    }
    let mut acc: u64 = 0;
    let mut i: usize = start;
    while i < n
        invariant
            n == value@.len(),
            start <= i <= n,
            d == value@.subrange(start as int, n as int),
            d == unsigned_digits(value@),
            forall|j: int| 0 <= j < i - start ==> is_digit(#[trigger] d[j]),
            acc == decimal_value(d.take(i - start)),
            acc <= u32::MAX,
        decreases n - i,
    {
        let c = value.get_char(i);
        assert(c == d[i - start]);
        if !('0' <= c && c <= '9') {
            assert(!is_digit(d[i - start]));
            return None;
        }
        assert(d.take(i - start + 1).drop_last() =~= d.take(i - start));
        acc = acc * 10 + (c as u32 - 48) as u64;
        i = i + 1;
        if acc > 0xffff_ffff {
            proof {
                if forall|j: int| 0 <= j < d.len() ==> is_digit(#[trigger] d[j]) {
                    lemma_decimal_value_grows(d, i - start);
                }
            }
            return None;
        }
    }
    assert(d.take(n - start) =~= d);
    Some(acc as u32)
}

/// The lowest accepted sample rate.
pub const MIN_SAMPLE_RATE: u32 = 8_000;

/// The highest accepted sample rate.
pub const MAX_SAMPLE_RATE: u32 = 192_000;

/// The sample rate that `value` asks for: a decimal number in
/// 8000 ..= 192000.
pub open spec fn sample_rate_of(value: Seq<char>) -> Result<u32, ArgErrorModel> {
    match parse_u32(value) {
        None => Err(ArgErrorModel::InvalidSampleRate(value)),
        Some(rate) => if MIN_SAMPLE_RATE <= rate && rate <= MAX_SAMPLE_RATE {
            Ok(rate)
        } else {
            Err(ArgErrorModel::SampleRateOutOfRange)
        },
    }
}

/// Reads a sample rate.
pub fn parse_sample_rate(value: &str) -> (res: Result<u32, ArgError>)
    ensures
        match res {
            Ok(rate) => sample_rate_of(value@) == Ok::<u32, ArgErrorModel>(rate),
            Err(e) => sample_rate_of(value@) == Err::<u32, ArgErrorModel>(e.model()),
        },
{
    match parse_decimal_u32(value) {
        None => Err(ArgError::InvalidSampleRate(String::from_str(value))),
        Some(rate) => {
            if MIN_SAMPLE_RATE <= rate && rate <= MAX_SAMPLE_RATE {
                Ok(rate)
            } else {
                Err(ArgError::SampleRateOutOfRange)
            }
        },
    }
}


// ---------------------------------------------------------------------------
// The command line
// ---------------------------------------------------------------------------

/// The sample rate used when none is given.
pub const DEFAULT_SAMPLE_RATE: u32 = 44_100;

/// The settings a command line makes, apart from the volume (a decimal
/// fraction, which the caller reads).
#[derive(Debug)]
pub struct Options {
    pub out_dir: String,
    pub preset: PresetOption,
    pub sample_rate: u32,
    pub trace_from: Option<String>,
}

/// The settings as plain values.
#[verifier::ext_equal]
pub struct OptionsModel {
    pub out_dir: Seq<char>,
    pub preset: PresetOption,
    pub sample_rate: u32,
    pub trace_from: Option<Seq<char>>,
}

impl Options {
    /// The settings as plain values.
    pub open spec fn model(&self) -> OptionsModel {
        OptionsModel {
            out_dir: self.out_dir@,
            preset: self.preset,
            sample_rate: self.sample_rate,
            trace_from: match self.trace_from {
                Some(s) => Some(s@),
                None => None,
            },
        }
    }

    /// The settings before any argument: write to "wavs", the classic pack,
    /// 44100 Hz, no reference recordings.
    pub fn defaults() -> (options: Options)
        ensures
            options.model() == default_options(),
            options.out_dir@ == "wavs"@,
            options.preset == PresetOption::Single(Preset::Classic),
            options.sample_rate == 44_100,
            options.trace_from is None,
    {
        Options {
            out_dir: String::from_str("wavs"),
            preset: PresetOption::Single(Preset::Classic),
            sample_rate: DEFAULT_SAMPLE_RATE,
            trace_from: None,
        }
    }
}

/// The settings before any argument.
pub open spec fn default_options() -> OptionsModel {
    OptionsModel {
        out_dir: "wavs"@,
        preset: PresetOption::Single(Preset::Classic),
        sample_rate: DEFAULT_SAMPLE_RATE,
        trace_from: None,
    }
}

/// Where reading the command line stopped.
#[derive(Debug)]
pub enum ParseStep {
    /// Every argument was read.
    Done(Options),
    /// Help was asked for: print the usage and stop.
    Help,
    /// A volume was given: the caller reads `value`, then goes on reading
    /// at `resume_at` with `options`.
    Volume { options: Options, value: String, resume_at: usize },
}

/// Where reading stopped, as plain values.
pub enum StepModel {
    Done(OptionsModel),
    Help,
    Volume { options: OptionsModel, value: Seq<char>, resume_at: nat },
}

impl ParseStep {
    /// The step as plain values.
    pub open spec fn model(&self) -> StepModel {
        match self {
            ParseStep::Done(o) => StepModel::Done(o.model()),
            ParseStep::Help => StepModel::Help,
            ParseStep::Volume { options, value, resume_at } => StepModel::Volume {
                options: options.model(),
                value: value@,
                resume_at: *resume_at as nat,
            },
        }
    }
}

/// The arguments as plain values.
pub open spec fn arg_texts(args: Seq<String>) -> Seq<Seq<char>> {
    args.map_values(|a: String| a@)
}

/// The settings with the output directory replaced.
pub open spec fn with_out_dir(o: OptionsModel, v: Seq<char>) -> OptionsModel {
    OptionsModel { out_dir: v, ..o }
}

/// The settings with the pack replaced.
pub open spec fn with_preset(o: OptionsModel, p: PresetOption) -> OptionsModel {
    OptionsModel { preset: p, ..o }
}

/// The settings with the sample rate replaced.
pub open spec fn with_sample_rate(o: OptionsModel, r: u32) -> OptionsModel {
    OptionsModel { sample_rate: r, ..o }
}

/// The settings with the reference directory replaced.
pub open spec fn with_trace_from(o: OptionsModel, v: Seq<char>) -> OptionsModel {
    OptionsModel { trace_from: Some(v), ..o }
}

/// The pack option that a "--preset" value asks for: "all" in any ASCII
/// case, or a pack by name.
pub open spec fn preset_option_of(value: Seq<char>) -> Option<PresetOption> {
    if ascii_lowercase(value) == "all"@ {
        Some(PresetOption::All)
    } else {
        match preset_named(ascii_lowercase(value)) {
            Some(p) => Some(PresetOption::Single(p)),
            None => None,
        }
    }
}

/// Reading the command line from argument `i` on, with the settings `o` made
/// so far. Each option takes the next argument as its value; a later option
/// overrides an earlier one; reading stops at help, at a volume (which the
/// caller reads), at the end, or at the first error.
pub open spec fn parse_from(args: Seq<Seq<char>>, i: nat, o: OptionsModel) -> Result<
    StepModel,
    ArgErrorModel,
>
    decreases args.len() - i,
{
    if i >= args.len() {
        Ok(StepModel::Done(o))
    } else {
        let arg = args[i as int];
        let has_value = i + 1 < args.len();
        let value = args[i + 1int];
        if arg == "-h"@ || arg == "--help"@ {
            Ok(StepModel::Help)
        } else if arg == "-o"@ || arg == "--out"@ {
            if !has_value {
                Err(ArgErrorModel::MissingValue(arg))
            } else {
                parse_from(args, i + 2, with_out_dir(o, value))
            }
        } else if arg == "-p"@ || arg == "--preset"@ {
            if !has_value {
                Err(ArgErrorModel::MissingValue(arg))
            } else {
                match preset_option_of(value) {
                    Some(p) => parse_from(args, i + 2, with_preset(o, p)),
                    None => Err(ArgErrorModel::UnknownPreset(value)),
                }
            }
        } else if arg == "--sample-rate"@ {
            if !has_value {
                Err(ArgErrorModel::MissingValue(arg))
            } else {
                match sample_rate_of(value) {
                    Ok(r) => parse_from(args, i + 2, with_sample_rate(o, r)),
                    Err(e) => Err(e),
                }
            }
        } else if arg == "-v"@ || arg == "--volume"@ {
            if !has_value {
                Err(ArgErrorModel::MissingValue(arg))
            } else {
                Ok(StepModel::Volume { options: o, value, resume_at: i + 2 })
            }
        } else if arg == "--trace-from"@ || arg == "--trace"@ {
            if !has_value {
                Err(ArgErrorModel::MissingValue(arg))
            } else {
                parse_from(args, i + 2, with_trace_from(o, value))
            }
        } else {
            Err(ArgErrorModel::UnknownArgument(arg))
        }
    }
}

/// The value of the option `flag`, which is the argument at `index`.
pub fn next_arg(args: &Vec<String>, index: usize, flag: &str) -> (res: Result<String, ArgError>)
    ensures
        index < args@.len() ==> (res matches Ok(v) && v@ == args@[index as int]@),
        index >= args@.len() ==> (res matches Err(e) && e.model() == ArgErrorModel::MissingValue(
            flag@,
        )),
{
    if index < args.len() {
        Ok(args[index].clone())
    } else {
        Err(ArgError::MissingValue(String::from_str(flag)))
    }
}

/// Reads the command line from argument `start` on, with the settings
/// `options` made so far (start with `Options::defaults()` at 0, and after a
/// volume go on from its `resume_at`).
pub fn parse_args(args: &Vec<String>, start: usize, options: Options) -> (res: Result<
    ParseStep,
    ArgError,
>)
    ensures
        match res {
            Ok(step) => parse_from(arg_texts(args@), start as nat, options.model()) == Ok::<
                StepModel,
                ArgErrorModel,
            >(step.model()),
            Err(e) => parse_from(arg_texts(args@), start as nat, options.model()) == Err::<
                StepModel,
                ArgErrorModel,
            >(e.model()),
        },
        start < args@.len() && (args@[start as int]@ == "-h"@ || args@[start as int]@
            == "--help"@) ==> (res matches Ok(ParseStep::Help)),
{
    let ghost texts = arg_texts(args@);
    proof {
        if start < args@.len() && (args@[start as int]@ == "-h"@ || args@[start as int]@
            == "--help"@) {
            crate::args_laws::lemma_help_first(texts, start as nat, options.model());
        }
    }
    let mut i = start;
    let mut o = options;
    while i < args.len()
        invariant
            texts == arg_texts(args@),
            texts.len() == args@.len(),
            parse_from(texts, start as nat, options.model()) == parse_from(texts, i as nat, o.model()),
        decreases args@.len() - i,
    {
        let arg = args[i].as_str();
        assert(arg@ == texts[i as int]);
        if i + 1 < args.len() {
            assert(args@[i + 1]@ == texts[i + 1]);
        }
        let ghost before = o.model();
        if str_eq(arg, "-h") || str_eq(arg, "--help") {
            return Ok(ParseStep::Help);
        } else if str_eq(arg, "-o") || str_eq(arg, "--out") {
            let value = match next_arg(args, i + 1, arg) {
                Ok(v) => v,
                Err(e) => return Err(e),
            };
            o.out_dir = value;
            assert(o.model() =~= with_out_dir(before, texts[i + 1]));
            i = i + 2;
        } else if str_eq(arg, "-p") || str_eq(arg, "--preset") {
            let value = match next_arg(args, i + 1, arg) {
                Ok(v) => v,
                Err(e) => return Err(e),
            };
            if lowercase_eq(value.as_str(), "all") {
                o.preset = PresetOption::All;
            } else {
                match Preset::parse(value.as_str()) {
                    Ok(p) => {
                        o.preset = PresetOption::Single(p);
                    },
                    Err(e) => return Err(e),
                }
            }
            assert(o.model() =~= with_preset(before, o.preset));
            i = i + 2;
        } else if str_eq(arg, "--sample-rate") {
            let value = match next_arg(args, i + 1, arg) {
                Ok(v) => v,
                Err(e) => return Err(e),
            };
            match parse_sample_rate(value.as_str()) {
                Ok(rate) => {
                    o.sample_rate = rate;
                },
                Err(e) => return Err(e),
            }
            assert(o.model() =~= with_sample_rate(before, o.sample_rate));
            i = i + 2;
        } else if str_eq(arg, "-v") || str_eq(arg, "--volume") {
            let value = match next_arg(args, i + 1, arg) {
                Ok(v) => v,
                Err(e) => return Err(e),
            };
            return Ok(ParseStep::Volume { options: o, value, resume_at: i + 2 });
        } else if str_eq(arg, "--trace-from") || str_eq(arg, "--trace") {
            let value = match next_arg(args, i + 1, arg) {
                Ok(v) => v,
                Err(e) => return Err(e),
            };
            o.trace_from = Some(value);
            assert(o.model() =~= with_trace_from(before, texts[i + 1]));
            i = i + 2;
        } else {
            return Err(ArgError::UnknownArgument(String::from_str(arg)));
        }
    }
    Ok(ParseStep::Done(o))
}

} // verus!
