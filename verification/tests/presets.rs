use build_keyboard_sounds::presets::{
    all_presets, reference_file_name, retro_trace_voice, should_trace_reference, specs_for_preset,
    apply_balanced_shape, tune_reference_key, Preset, RetroVoice, SoundKind, SoundShape,
};

fn names(preset: Preset) -> Vec<&'static str> {
    specs_for_preset(preset).iter().map(|spec| spec.file_name).collect()
}

fn durations(preset: Preset) -> Vec<u32> {
    specs_for_preset(preset).iter().map(|spec| spec.duration_ms).collect()
}

const FILE_NAMES: [&str; 14] = [
    "0.wav",
    "1.wav",
    "2.wav",
    "3.wav",
    "4.wav",
    "5.wav",
    "6.wav",
    "7.wav",
    "8.wav",
    "9.wav",
    "enter.wav",
    "delete.wav",
    "backspace.wav",
    "space.wav",
];

#[test]
fn preset_generates_fatmi_file_names() {
    let names: Vec<&str> = specs_for_preset(Preset::Classic)
        .iter()
        .map(|spec| spec.file_name)
        .collect();

    assert_eq!(
        names,
        vec![
            "0.wav",
            "1.wav",
            "2.wav",
            "3.wav",
            "4.wav",
            "5.wav",
            "6.wav",
            "7.wav",
            "8.wav",
            "9.wav",
            "enter.wav",
            "delete.wav",
            "backspace.wav",
            "space.wav",
        ]
    );
}

#[test]
fn balanced_preset_has_longer_big_key_shape() {
    let specs = specs_for_preset(Preset::Balanced);
    let durations: Vec<(&str, u32)> = specs
        .iter()
        .map(|spec| (spec.file_name, spec.duration_ms))
        .collect();

    assert_eq!(
        durations,
        vec![
            ("0.wav", 122),
            ("1.wav", 197),
            ("2.wav", 139),
            ("3.wav", 156),
            ("4.wav", 111),
            ("5.wav", 199),
            ("6.wav", 134),
            ("7.wav", 137),
            ("8.wav", 172),
            ("9.wav", 97),
            ("enter.wav", 485),
            ("delete.wav", 175),
            ("backspace.wav", 175),
            ("space.wav", 168),
        ]
    );
}

#[test]
fn retro_preset_uses_sweep_backspace_and_typewriter_enter() {
    let specs = specs_for_preset(Preset::Retro);
    let enter = specs
        .iter()
        .find(|spec| spec.file_name == "enter.wav")
        .unwrap();
    let backspace = specs
        .iter()
        .find(|spec| spec.file_name == "backspace.wav")
        .unwrap();
    assert_eq!(enter.kind, SoundKind::TypewriterEnter);
    assert_eq!(backspace.kind, SoundKind::RetroBackspace);
}

#[test]
fn blue_preset_uses_realistic_switch_timing() {
    let specs = specs_for_preset(Preset::Blue);
    let key_specs: Vec<&SoundShape> = specs
        .iter()
        .filter(|spec| spec.kind == SoundKind::BlueKey)
        .collect();

    assert!(key_specs
        .iter()
        .all(|spec| (78..=92).contains(&spec.duration_ms)));
    assert!(
        specs
            .iter()
            .find(|spec| spec.file_name == "space.wav")
            .unwrap()
            .duration_ms
            >= 100
    );
}

#[test]
fn normal_keys_cover_zero_to_nine_with_varied_styles() {
    let specs: Vec<SoundShape> = specs_for_preset(Preset::Classic)
        .into_iter()
        .filter(|spec| {
            matches!(
                spec.file_name,
                "0.wav"
                    | "1.wav"
                    | "2.wav"
                    | "3.wav"
                    | "4.wav"
                    | "5.wav"
                    | "6.wav"
                    | "7.wav"
                    | "8.wav"
                    | "9.wav"
            )
        })
        .collect();
    let names: Vec<&str> = specs.iter().map(|spec| spec.file_name).collect();
    let mut durations: Vec<u32> = specs.iter().map(|spec| spec.duration_ms).collect();

    durations.sort_unstable();
    durations.dedup();

    assert_eq!(
        names,
        vec![
            "0.wav", "1.wav", "2.wav", "3.wav", "4.wav", "5.wav", "6.wav", "7.wav", "8.wav",
            "9.wav"
        ]
    );
    assert!(durations.len() >= 8, "durations={durations:?}");
}

#[test]
fn trace_mode_keeps_enter_synthesized_but_traces_backspace() {
    let specs = specs_for_preset(Preset::Classic);
    let zero = specs.iter().find(|spec| spec.file_name == "0.wav").unwrap();
    let enter = specs
        .iter()
        .find(|spec| spec.file_name == "enter.wav")
        .unwrap();
    let backspace = specs
        .iter()
        .find(|spec| spec.file_name == "backspace.wav")
        .unwrap();

    assert!(should_trace_reference(zero));
    assert!(should_trace_reference(enter));
    assert!(should_trace_reference(backspace));
}

#[test]
fn every_pack_has_the_same_file_names() {
    for preset in [
        Preset::Soft,
        Preset::Classic,
        Preset::Crisp,
        Preset::Blue,
        Preset::Balanced,
        Preset::Retro,
    ] {
        assert_eq!(names(preset), FILE_NAMES.to_vec());
    }
}

#[test]
fn classic_pack_has_base_lengths_and_voices() {
    assert_eq!(
        durations(Preset::Classic),
        vec![43, 34, 35, 36, 37, 38, 39, 40, 41, 42, 118, 54, 92, 72]
    );
    let kinds: Vec<SoundKind> = specs_for_preset(Preset::Classic).iter().map(|s| s.kind).collect();
    let mut expected = vec![SoundKind::BlueKey; 10];
    expected.extend([
        SoundKind::EnterKiang,
        SoundKind::DeleteSnap,
        SoundKind::BackspaceWhoosh,
        SoundKind::SpaceBar,
    ]);
    assert_eq!(kinds, expected);
}

#[test]
fn soft_and_crisp_packs_scale_lengths() {
    assert_eq!(
        durations(Preset::Soft),
        vec![49, 39, 40, 41, 43, 44, 45, 46, 47, 48, 136, 62, 106, 83]
    );
    assert_eq!(
        durations(Preset::Crisp),
        vec![35, 28, 29, 30, 30, 31, 32, 33, 34, 34, 97, 44, 75, 59]
    );
}

#[test]
fn blue_pack_lengths_follow_key_position() {
    assert_eq!(
        durations(Preset::Blue),
        vec![78, 81, 84, 87, 90, 78, 81, 84, 87, 90, 145, 86, 108, 112]
    );
}

#[test]
fn retro_pack_lengths_and_voices() {
    let specs = specs_for_preset(Preset::Retro);
    let d: Vec<u32> = specs.iter().map(|s| s.duration_ms).collect();
    assert_eq!(d, vec![85, 89, 93, 97, 101, 85, 89, 93, 97, 101, 350, 90, 180, 130]);
    assert_eq!(specs[11].kind, SoundKind::DeleteSnap);
    assert_eq!(specs[13].kind, SoundKind::SpaceBar);
    assert!(specs[..10].iter().all(|s| s.kind == SoundKind::BlueKey));
}

#[test]
fn unknown_names_keep_their_shape() {
    let mut shapes = vec![SoundShape { file_name: "test.wav", kind: SoundKind::SpaceBar, duration_ms: 40 }];
    apply_balanced_shape(&mut shapes);
    assert_eq!(shapes[0].duration_ms, 40);
    assert_eq!(shapes[0].kind, SoundKind::SpaceBar);
}

#[test]
fn tune_reference_key_sets_length() {
    let mut shape = SoundShape { file_name: "3.wav", kind: SoundKind::BlueKey, duration_ms: 36 };
    tune_reference_key(&mut shape, 156);
    assert_eq!(shape.duration_ms, 156);
    assert_eq!(shape.file_name, "3.wav");
}

#[test]
fn all_presets_lists_every_pack_once() {
    let list = all_presets();
    assert_eq!(
        list,
        vec![
            (Preset::Classic, "classic"),
            (Preset::Soft, "soft"),
            (Preset::Crisp, "crisp"),
            (Preset::Blue, "blue"),
            (Preset::Retro, "retro"),
            (Preset::Balanced, "balanced"),
        ]
    );
}

#[test]
fn zero_key_is_traced_from_one() {
    assert_eq!(reference_file_name("0.wav"), "1.wav");
    assert_eq!(reference_file_name("7.wav"), "7.wav");
    assert_eq!(reference_file_name("enter.wav"), "enter.wav");
}

#[test]
fn retro_tracing_synthesizes_enter_backspace_and_delete() {
    assert_eq!(retro_trace_voice("enter.wav"), RetroVoice::TypewriterEnter);
    assert_eq!(retro_trace_voice("backspace.wav"), RetroVoice::RetroBackspace);
    assert_eq!(retro_trace_voice("delete.wav"), RetroVoice::RetroBackspace);
    assert_eq!(retro_trace_voice("space.wav"), RetroVoice::Reference);
    assert_eq!(retro_trace_voice("0.wav"), RetroVoice::Reference);
}

#[test]
fn pack_directory_names_parse_to_their_pack() {
    for (preset, dir_name) in all_presets() {
        assert_eq!(Preset::parse(dir_name).unwrap(), preset);
    }
}
