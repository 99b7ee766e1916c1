use build_keyboard_sounds::args::{
    next_arg, parse_args, parse_decimal_u32, parse_sample_rate, ArgError, Options, ParseStep,
};
use build_keyboard_sounds::presets::{Preset, PresetOption};

/// Reads a command line to the end, the way the program does: every volume
/// value is read as a fraction (a value above 1 as a percentage).
fn parse_all(args: &[&str]) -> Result<(Options, f32), ArgError> {
    let args: Vec<String> = args.iter().map(|s| s.to_string()).collect();
    let mut options = Options::defaults();
    let mut volume = 0.82_f32;
    let mut at = 0;
    loop {
        match parse_args(&args, at, options)? {
            ParseStep::Done(done) => return Ok((done, volume)),
            ParseStep::Help => panic!("help requested"),
            ParseStep::Volume {
                options: so_far,
                value,
                resume_at,
            } => {
                let parsed: f32 = value.parse().expect("volume");
                volume = if parsed > 1.0 { parsed / 100.0 } else { parsed };
                options = so_far;
                at = resume_at;
            }
        }
    }
}

fn strings(args: &[&str]) -> Vec<String> {
    args.iter().map(|s| s.to_string()).collect()
}

#[test]
fn parse_args_accepts_percentage_volume() {
    let (options, volume) = parse_all(&[
        "--out",
        "D:/tmp/fatmi-wavs",
        "--preset",
        "soft",
        "--volume",
        "65",
        "--sample-rate",
        "22050",
    ])
    .unwrap();

    assert_eq!(options.out_dir, "D:/tmp/fatmi-wavs".to_string());
    assert_eq!(options.preset, PresetOption::Single(Preset::Soft));
    assert_eq!(options.sample_rate, 22_050);
    assert!((volume - 0.65).abs() < f32::EPSILON);
}

#[test]
fn parse_args_accepts_balanced_preset() {
    let (options, _) = parse_all(&["--preset", "balanced"]).unwrap();

    assert_eq!(options.preset, PresetOption::Single(Preset::Balanced));
}

#[test]
fn parse_args_accepts_blue_preset() {
    let (options, _) = parse_all(&["--preset", "blue"]).unwrap();

    assert_eq!(options.preset, PresetOption::Single(Preset::Blue));
}

#[test]
fn parse_args_accepts_retro_preset() {
    let (options, _) = parse_all(&["--preset", "retro"]).unwrap();

    assert_eq!(options.preset, PresetOption::Single(Preset::Retro));
}

#[test]
fn parse_args_accepts_all_preset() {
    let (options, _) = parse_all(&["--preset", "all"]).unwrap();

    assert_eq!(options.preset, PresetOption::All);
}

#[test]
fn parse_args_accepts_trace_from_directory() {
    let (options, _) = parse_all(&[
        "--trace-from",
        "D:/mytools/own_keyboard_recordings/wavs",
    ])
    .unwrap();

    assert_eq!(
        options.trace_from,
        Some("D:/mytools/own_keyboard_recordings/wavs".to_string())
    );
}

#[test]
fn no_arguments_give_the_defaults() {
    let (options, volume) = parse_all(&[]).unwrap();
    assert_eq!(options.out_dir, "wavs".to_string());
    assert_eq!(options.preset, PresetOption::Single(Preset::Classic));
    assert_eq!(options.sample_rate, 44_100);
    assert_eq!(options.trace_from, None);
    assert!((volume - 0.82).abs() < f32::EPSILON);
}

#[test]
fn short_flags_and_later_values_win() {
    let (options, _) = parse_all(&["-o", "a", "-p", "CRISP", "-o", "b", "--trace", "r"]).unwrap();
    assert_eq!(options.out_dir, "b".to_string());
    assert_eq!(options.preset, PresetOption::Single(Preset::Crisp));
    assert_eq!(options.trace_from, Some("r".to_string()));
}

#[test]
fn preset_aliases_ignore_ascii_case() {
    for (name, preset) in [
        ("SOFT", Preset::Soft),
        ("Classic", Preset::Classic),
        ("mx-blue", Preset::Blue),
        ("Cherry-Blue", Preset::Blue),
        ("\u{9752}\u{8ef8}", Preset::Blue),
        ("TypeWriter", Preset::Retro),
        ("balanced", Preset::Balanced),
    ] {
        assert_eq!(Preset::parse(name).unwrap(), preset, "{name}");
    }
    let (options, _) = parse_all(&["--preset", "ALL"]).unwrap();
    assert_eq!(options.preset, PresetOption::All);
}

#[test]
fn help_stops_reading() {
    let args = strings(&["--bogus-later-ignored", "x"]);
    let args_help = strings(&["-h", "--bogus"]);
    assert!(matches!(parse_args(&args_help, 0, Options::defaults()), Ok(ParseStep::Help)));
    assert!(matches!(
        parse_args(&args, 0, Options::defaults()),
        Err(ArgError::UnknownArgument(a)) if a == "--bogus-later-ignored"
    ));
}

#[test]
fn volume_step_reports_where_to_resume() {
    let args = strings(&["--sample-rate", "8000", "-v", "0.5", "--out", "x"]);
    match parse_args(&args, 0, Options::defaults()).unwrap() {
        ParseStep::Volume {
            options,
            value,
            resume_at,
        } => {
            assert_eq!(options.sample_rate, 8000);
            assert_eq!(value, "0.5".to_string());
            assert_eq!(resume_at, 4);
        }
        other => panic!("unexpected {other:?}"),
    }
}

#[test]
fn refused_command_lines_name_the_problem() {
    let cases: Vec<(Vec<&str>, &str)> = vec![
        (vec!["--nope"], "unknown argument: --nope"),
        (vec!["--out"], "missing value for --out"),
        (vec!["-p"], "missing value for -p"),
        (
            vec!["--preset", "loud"],
            "unknown preset: loud; expected soft, classic, crisp, blue, balanced, or retro",
        ),
        (vec!["--sample-rate", "fast"], "invalid sample rate: fast"),
        (
            vec!["--sample-rate", "7999"],
            "sample rate must be between 8000 and 192000",
        ),
        (
            vec!["--sample-rate", "192001"],
            "sample rate must be between 8000 and 192000",
        ),
    ];
    for (args, message) in cases {
        let err = parse_args(&strings(&args), 0, Options::defaults()).unwrap_err();
        assert_eq!(err.message(), message.to_string());
        assert_eq!(err.to_invalid().message, message.to_string());
    }
}

#[test]
fn sample_rates_are_decimal_numbers_in_range() {
    assert_eq!(parse_sample_rate("8000").unwrap(), 8000);
    assert_eq!(parse_sample_rate("+192000").unwrap(), 192_000);
    assert!(matches!(parse_sample_rate("44.1"), Err(ArgError::InvalidSampleRate(_))));
    assert!(matches!(parse_sample_rate(""), Err(ArgError::InvalidSampleRate(_))));
    assert!(matches!(parse_sample_rate(" 44100"), Err(ArgError::InvalidSampleRate(_))));
    assert!(matches!(parse_sample_rate("-8000"), Err(ArgError::InvalidSampleRate(_))));
    assert!(matches!(parse_sample_rate("0"), Err(ArgError::SampleRateOutOfRange)));
}

#[test]
fn decimal_numbers_follow_u32_from_str() {
    for text in [
        "0", "42", "+7", "4294967295", "4294967296", "99999999999", "", "+", "-1", "1_000", "12a",
        "007",
    ] {
        assert_eq!(parse_decimal_u32(text), text.parse::<u32>().ok(), "{text:?}");
    }
}

#[test]
fn next_arg_takes_the_following_value() {
    let args = strings(&["--out", "dir"]);
    assert_eq!(next_arg(&args, 1, "--out").unwrap(), "dir".to_string());
    assert!(matches!(
        next_arg(&args, 2, "--out"),
        Err(ArgError::MissingValue(f)) if f == "--out"
    ));
}
