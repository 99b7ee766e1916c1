use vstd::prelude::*;

use crate::args::{
    parse_from, parse_u32, preset_option_of, with_out_dir, with_preset, with_sample_rate,
    with_trace_from, ArgErrorModel, OptionsModel, StepModel,
};
use crate::presets::{Preset, PresetOption};
use crate::text::{ascii_lower, ascii_lowercase};
use crate::args::{decimal_value, is_digit, unsigned_digits};

verus! {

/// The option names are different from each other, and so are the preset
/// names.
proof fn lemma_literals_distinct()
    ensures
        "-h"@.len() == 2 && "-o"@.len() == 2 && "-p"@.len() == 2 && "-v"@.len() == 2,
        "--help"@.len() == 6 && "--out"@.len() == 5 && "--preset"@.len() == 8,
        "--sample-rate"@.len() == 13 && "--volume"@.len() == 8 && "--trace-from"@.len() == 12,
        "--trace"@.len() == 7,
        "-h"@ != "-o"@ && "-h"@ != "-p"@ && "-h"@ != "-v"@ && "-o"@ != "-p"@ && "-o"@ != "-v"@
            && "-p"@ != "-v"@,
        "--preset"@ != "--volume"@,
        "all"@.len() == 3 && "soft"@.len() == 4 && "blue"@.len() == 4 && "crisp"@.len() == 5
            && "retro"@.len() == 5 && "classic"@.len() == 7 && "mx-blue"@.len() == 7,
        "balanced"@.len() == 8 && "typewriter"@.len() == 10 && "cherry-blue"@.len() == 11,
        "\u{9752}\u{8ef8}"@.len() == 2,
        "soft"@ != "blue"@ && "crisp"@ != "retro"@ && "classic"@ != "mx-blue"@,
{
    reveal_strlit("-h");
    reveal_strlit("-o");
    reveal_strlit("-p");
    reveal_strlit("-v");
    reveal_strlit("--help");
    reveal_strlit("--out");
    reveal_strlit("--preset");
    reveal_strlit("--sample-rate");
    reveal_strlit("--volume");
    reveal_strlit("--trace-from");
    reveal_strlit("--trace");
    reveal_strlit("all");
    reveal_strlit("soft");
    reveal_strlit("blue");
    reveal_strlit("crisp");
    reveal_strlit("retro");
    reveal_strlit("classic");
    reveal_strlit("mx-blue");
    reveal_strlit("balanced");
    reveal_strlit("typewriter");
    reveal_strlit("cherry-blue");
    reveal_strlit("\u{9752}\u{8ef8}");
    assert("-h"@[1] != "-o"@[1] && "-h"@[1] != "-p"@[1] && "-h"@[1] != "-v"@[1]);
    assert("-o"@[1] != "-p"@[1] && "-o"@[1] != "-v"@[1] && "-p"@[1] != "-v"@[1]);
    assert("--preset"@[2] != "--volume"@[2]);
    assert("soft"@[0] != "blue"@[0] && "crisp"@[0] != "retro"@[0] && "classic"@[1]
        != "mx-blue"@[1]);
}

/// Asking for help first is answered with the usage, whatever follows:
/// "-h" and "--help" alike.
pub proof fn lemma_help_first(args: Seq<Seq<char>>, i: nat, o: OptionsModel)
    requires
        i < args.len(),
        args[i as int] == "-h"@ || args[i as int] == "--help"@,
    ensures
        parse_from(args, i, o) matches Ok(StepModel::Help),
{
}

/// Each option takes the argument after it as its value: "-o"/"--out" set
/// the output directory, "--trace-from"/"--trace" the reference directory,
/// "-v"/"--volume" stop reading with the volume text and the position after
/// it; nothing else changes.
pub proof fn lemma_option_values(f: Seq<char>, v: Seq<char>, o: OptionsModel)
    ensures
        (f == "-o"@ || f == "--out"@) ==> parse_from(seq![f, v], 0, o) == Ok::<
            StepModel,
            ArgErrorModel,
        >(
            StepModel::Done(
                OptionsModel {
                    out_dir: v,
                    preset: o.preset,
                    sample_rate: o.sample_rate,
                    trace_from: o.trace_from,
                },
            ),
        ),
        (f == "--trace-from"@ || f == "--trace"@) ==> parse_from(seq![f, v], 0, o) == Ok::<
            StepModel,
            ArgErrorModel,
        >(
            StepModel::Done(
                OptionsModel {
                    out_dir: o.out_dir,
                    preset: o.preset,
                    sample_rate: o.sample_rate,
                    trace_from: Some(v),
                },
            ),
        ),
        (f == "-v"@ || f == "--volume"@) ==> parse_from(seq![f, v], 0, o) == Ok::<
            StepModel,
            ArgErrorModel,
        >(StepModel::Volume { options: o, value: v, resume_at: 2 }),
{
    lemma_literals_distinct();
    let args = seq![f, v];
    assert(args[0] == f && args[1] == v && args.len() == 2);
    let o1 = with_out_dir(o, v);
    let o2 = with_trace_from(o, v);
    assert(parse_from(args, 2, o1) == Ok::<StepModel, ArgErrorModel>(StepModel::Done(o1)));
    assert(parse_from(args, 2, o2) == Ok::<StepModel, ArgErrorModel>(StepModel::Done(o2)));
}

/// A later value of an option overrides an earlier one.
pub proof fn lemma_later_value_wins(f: Seq<char>, v1: Seq<char>, v2: Seq<char>, o: OptionsModel)
    requires
        f == "-o"@ || f == "--out"@,
    ensures
        parse_from(seq![f, v1, f, v2], 0, o) == parse_from(seq![f, v2], 0, o),
{
    lemma_literals_distinct();
    let long = seq![f, v1, f, v2];
    let short = seq![f, v2];
    assert(long[0] == f && long[1] == v1 && long[2] == f && long[3] == v2 && long.len() == 4);
    assert(short[0] == f && short[1] == v2 && short.len() == 2);
    let o1 = with_out_dir(o, v1);
    let o2 = with_out_dir(o1, v2);
    assert(o2 == with_out_dir(o, v2));
    assert(parse_from(long, 4, o2) == Ok::<StepModel, ArgErrorModel>(StepModel::Done(o2)));
    assert(parse_from(long, 2, o1) == parse_from(long, 4, o2));
    assert(parse_from(short, 2, o2) == Ok::<StepModel, ArgErrorModel>(StepModel::Done(o2)));
}

/// The sample rate option takes a decimal number in 8000 ..= 192000; any
/// other number is out of range, and text that is no number is refused with
/// the text.
pub proof fn lemma_sample_rate_option(v: Seq<char>, o: OptionsModel)
    ensures
        ({
            let res = parse_from(seq!["--sample-rate"@, v], 0, o);
            match parse_u32(v) {
                Some(r) => if 8000 <= r <= 192000 {
                    res == Ok::<StepModel, ArgErrorModel>(
                        StepModel::Done(
                            OptionsModel {
                                out_dir: o.out_dir,
                                preset: o.preset,
                                sample_rate: r,
                                trace_from: o.trace_from,
                            },
                        ),
                    )
                } else {
                    res == Err::<StepModel, ArgErrorModel>(ArgErrorModel::SampleRateOutOfRange)
                },
                None => res == Err::<StepModel, ArgErrorModel>(
                    ArgErrorModel::InvalidSampleRate(v),
                ),
            }
        }),
{
    lemma_literals_distinct();
    let args = seq!["--sample-rate"@, v];
    assert(args[0] == "--sample-rate"@ && args[1] == v && args.len() == 2);
    if let Some(r) = parse_u32(v) {
        let o1 = with_sample_rate(o, r);
        assert(parse_from(args, 2, o1) == Ok::<StepModel, ArgErrorModel>(StepModel::Done(o1)));
    }
}

/// The pack that "--preset v" selects, by the ASCII-lower-cased value.
pub open spec fn selected(f: Seq<char>, v: Seq<char>, o: OptionsModel, p: PresetOption) -> bool {
    parse_from(seq![f, v], 0, o) == Ok::<StepModel, ArgErrorModel>(
        StepModel::Done(
            OptionsModel {
                out_dir: o.out_dir,
                preset: p,
                sample_rate: o.sample_rate,
                trace_from: o.trace_from,
            },
        ),
    )
}

/// "-p"/"--preset" select a pack by name without regard to ASCII case:
/// "all" selects every pack; "soft", "classic", "crisp", "balanced" their
/// pack; "blue", "mx-blue", "cherry-blue" and the Chinese name of the blue
/// switch the blue pack; "retro" and "typewriter" the retro pack; any other
/// name is refused with the name as given.
pub proof fn lemma_preset_option(f: Seq<char>, v: Seq<char>, o: OptionsModel)
    requires
        f == "-p"@ || f == "--preset"@,
    ensures
        ({
            let l = ascii_lowercase(v);
            &&& l == "all"@ ==> selected(f, v, o, PresetOption::All)
            &&& l == "soft"@ ==> selected(f, v, o, PresetOption::Single(Preset::Soft))
            &&& l == "classic"@ ==> selected(f, v, o, PresetOption::Single(Preset::Classic))
            &&& l == "crisp"@ ==> selected(f, v, o, PresetOption::Single(Preset::Crisp))
            &&& l == "balanced"@ ==> selected(f, v, o, PresetOption::Single(Preset::Balanced))
            &&& (l == "blue"@ || l == "mx-blue"@ || l == "cherry-blue"@ || l
                == "\u{9752}\u{8ef8}"@) ==> selected(f, v, o, PresetOption::Single(Preset::Blue))
            &&& (l == "retro"@ || l == "typewriter"@) ==> selected(
                f,
                v,
                o,
                PresetOption::Single(Preset::Retro),
            )
            &&& (l != "all"@ && l != "soft"@ && l != "classic"@ && l != "crisp"@ && l
                != "balanced"@ && l != "blue"@ && l != "mx-blue"@ && l != "cherry-blue"@ && l
                != "\u{9752}\u{8ef8}"@ && l != "retro"@ && l != "typewriter"@) ==> parse_from(
                seq![f, v],
                0,
                o,
            ) == Err::<StepModel, ArgErrorModel>(ArgErrorModel::UnknownPreset(v))
        }),
{
    lemma_literals_distinct();
    let args = seq![f, v];
    assert(args[0] == f && args[1] == v && args.len() == 2);
    if let Some(p) = preset_option_of(v) {
        let o1 = with_preset(o, p);
        assert(parse_from(args, 2, o1) == Ok::<StepModel, ArgErrorModel>(StepModel::Done(o1)));
    }
}

/// An option given last, without its value, is refused naming the option.
pub proof fn lemma_missing_value(f: Seq<char>, o: OptionsModel)
    requires
        f == "-o"@ || f == "--out"@ || f == "-p"@ || f == "--preset"@ || f == "--sample-rate"@
            || f == "-v"@ || f == "--volume"@ || f == "--trace-from"@ || f == "--trace"@,
    ensures
        parse_from(seq![f], 0, o) == Err::<StepModel, ArgErrorModel>(
            ArgErrorModel::MissingValue(f),
        ),
{
    lemma_literals_distinct();
}

/// An argument that is no option is refused with the argument, whatever
/// follows it.
pub proof fn lemma_unknown_argument(args: Seq<Seq<char>>, o: OptionsModel)
    requires
        args.len() > 0,
        ({
            let a = args[0];
            a != "-h"@ && a != "--help"@ && a != "-o"@ && a != "--out"@ && a != "-p"@ && a
                != "--preset"@ && a != "--sample-rate"@ && a != "-v"@ && a != "--volume"@ && a
                != "--trace-from"@ && a != "--trace"@
        }),
    ensures
        parse_from(args, 0, o) == Err::<StepModel, ArgErrorModel>(
            ArgErrorModel::UnknownArgument(args[0]),
        ),
{
}

/// No arguments leave the settings as they are.
pub proof fn lemma_no_arguments(o: OptionsModel)
    ensures
        parse_from(seq![], 0, o) == Ok::<StepModel, ArgErrorModel>(StepModel::Done(o)),
{
}


/// ASCII lower-casing moves 'A' ..= 'Z' up by 32 and leaves every other
/// character, and keeps the length.
pub proof fn lemma_ascii_lowercase(s: Seq<char>, c: char)
    ensures
        'A' <= c <= 'Z' ==> ascii_lower(c) as u32 == c as u32 + 32,
        !('A' <= c <= 'Z') ==> ascii_lower(c) == c,
        ascii_lowercase(s).len() == s.len(),
        forall|i: int| 0 <= i < s.len() ==> ascii_lowercase(s)[i] == ascii_lower(#[trigger] s[i]),
{
}

/// A decimal number: one digit is its own value; appending a digit `c` to
/// the number `v` gives `10 v + c` while that fits in 32 bits, and nothing
/// after; empty text and a lone '+' are no number; one leading '+' is
/// allowed.
pub proof fn lemma_parse_u32_digits(s: Seq<char>, c: char)
    ensures
        parse_u32(seq![]) is None,
        parse_u32(seq!['+']) is None,
        '0' <= c <= '9' ==> parse_u32(seq![c]) == Some((c as u32 - 48) as u32),
        parse_u32(s) is Some && '0' <= c <= '9' ==> parse_u32(s.push(c)) == (if 10 * parse_u32(
            s,
        )->0 + (c as u32 - 48) <= u32::MAX {
            Some((10 * parse_u32(s)->0 + (c as u32 - 48)) as u32)
        } else {
            None
        }),
        (s.len() > 0 && s[0] != '+') ==> parse_u32(seq!['+'] + s) == parse_u32(s),
{
    assert(unsigned_digits(seq!['+']) =~= Seq::<char>::empty());
    let one = seq![c];
    if '0' <= c <= '9' {
        assert(one[0] != '+');
        assert(unsigned_digits(one) == one);
    }
    assert(one.drop_last() =~= Seq::<char>::empty());
    if let Some(v) = parse_u32(s) {
        let d = unsigned_digits(s);
        let t = s.push(c);
        assert(unsigned_digits(t) =~= d.push(c));
        assert(d.push(c).drop_last() =~= d);
    }
    if s.len() > 0 && s[0] != '+' {
        assert((seq!['+'] + s).drop_first() =~= s);
        assert(unsigned_digits(seq!['+'] + s) =~= unsigned_digits(s));
    }
}

/// Text with a character that is no digit, other than one leading '+', is
/// no number.
pub proof fn lemma_parse_u32_non_digit(s: Seq<char>, i: int)
    requires
        0 <= i < s.len(),
        !is_digit(s[i]),
        !(i == 0 && s[0] == '+'),
    ensures
        parse_u32(s) is None,
{
    let d = unsigned_digits(s);
    if s.len() > 0 && s[0] == '+' {
        assert(d[i - 1] == s[i]);
    } else {
        assert(d[i] == s[i]);
    }
}

} // verus!
