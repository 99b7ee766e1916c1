use vstd::prelude::*;

use crate::text::str_eq;

verus! {

/// A sound pack.
#[derive(Clone, Copy, Debug, PartialEq, Eq, Structural)]
pub enum Preset {
    Soft,
    Classic,
    Crisp,
    Blue,
    Balanced,
    Retro,
}

/// What the command line asks for: one pack, or every pack.
#[derive(Clone, Copy, Debug, PartialEq, Eq, Structural)]
pub enum PresetOption {
    Single(Preset),
    All,
}

/// The synthesis voice of a sound.
#[derive(Clone, Copy, Debug, PartialEq, Eq, Structural)]
pub enum SoundKind {
    BlueKey,
    EnterKiang,
    BackspaceWhoosh,
    DeleteSnap,
    SpaceBar,
    RetroBackspace,
    TypewriterEnter,
}

/// The integer part of one sound's recipe: the file it is written to, the
/// voice that synthesizes it, and its length in milliseconds. (The tone
/// colour of a sound, its frequency and mix levels, is floating point and
/// lives beside the synthesizer.)
#[derive(Clone, Copy, Debug)]
pub struct SoundShape {
    pub file_name: &'static str,
    pub kind: SoundKind,
    pub duration_ms: u32,
}

/// A sound shape as plain values.
#[verifier::ext_equal]
pub struct ShapeModel {
    pub name: Seq<char>,
    pub kind: SoundKind,
    pub duration_ms: u32,
}

impl SoundShape {
    /// The shape as plain values.
    pub open spec fn model(&self) -> ShapeModel {
        ShapeModel { name: self.file_name@, kind: self.kind, duration_ms: self.duration_ms }
    }
}

/// The shapes of a list, as plain values.
pub open spec fn models(shapes: Seq<SoundShape>) -> Seq<ShapeModel> {
    shapes.map_values(|s: SoundShape| s.model())
}

// ---------------------------------------------------------------------------
// The base table
// ---------------------------------------------------------------------------

/// Number of sounds in every pack.
pub const SOUND_COUNT: usize = 14;

/// The file name of sound `i` of every pack: "0.wav" .. "9.wav", then
/// "enter.wav", "delete.wav", "backspace.wav", "space.wav".
pub open spec fn sound_name(i: int) -> Seq<char> {
    if i == 0 {
        "0.wav"@
    } else if i == 1 {
        "1.wav"@
    } else if i == 2 {
        "2.wav"@
    } else if i == 3 {
        "3.wav"@
    } else if i == 4 {
        "4.wav"@
    } else if i == 5 {
        "5.wav"@
    } else if i == 6 {
        "6.wav"@
    } else if i == 7 {
        "7.wav"@
    } else if i == 8 {
        "8.wav"@
    } else if i == 9 {
        "9.wav"@
    } else if i == 10 {
        "enter.wav"@
    } else if i == 11 {
        "delete.wav"@
    } else if i == 12 {
        "backspace.wav"@
    } else {
        "space.wav"@
    }
}

/// The voice of sound `i` in the base table.
pub open spec fn base_kind(i: int) -> SoundKind {
    if i < 10 {
        SoundKind::BlueKey
    } else if i == 10 {
        SoundKind::EnterKiang
    } else if i == 11 {
        SoundKind::DeleteSnap
    } else if i == 12 {
        SoundKind::BackspaceWhoosh
    } else {
        SoundKind::SpaceBar
    }
}

/// The length of sound `i` in the base table: 43 ms for "0.wav", 34 + (i - 1)
/// ms for the keys "1.wav" .. "9.wav", then 118, 54, 92 and 72 ms.
pub open spec fn base_duration(i: int) -> u32 {
    if i == 0 {
        43
    } else if i < 10 {
        (33 + i) as u32
    } else if i == 10 {
        118
    } else if i == 11 {
        54
    } else if i == 12 {
        92
    } else {
        72
    }
}

/// The base table, as plain values.
pub open spec fn base_shapes() -> Seq<ShapeModel> {
    Seq::new(
        SOUND_COUNT as nat,
        |i: int| ShapeModel { name: sound_name(i), kind: base_kind(i), duration_ms: base_duration(i) },
    )
}

// ---------------------------------------------------------------------------
// Name tests
// ---------------------------------------------------------------------------

/// "0.wav" .. "9.wav": the ordinary keys.
pub open spec fn is_digit_key(name: Seq<char>) -> bool {
    ||| name == "0.wav"@
    ||| name == "1.wav"@
    ||| name == "2.wav"@
    ||| name == "3.wav"@
    ||| name == "4.wav"@
    ||| name == "5.wav"@
    ||| name == "6.wav"@
    ||| name == "7.wav"@
    ||| name == "8.wav"@
    ||| name == "9.wav"@
}

/// Whether `name` is one of the ordinary keys "0.wav" .. "9.wav".
pub fn is_digit_key_name(name: &str) -> (b: bool)
    ensures
        b == is_digit_key(name@),
{
    str_eq(name, "0.wav") || str_eq(name, "1.wav") || str_eq(name, "2.wav") || str_eq(
        name,
        "3.wav",
    ) || str_eq(name, "4.wav") || str_eq(name, "5.wav") || str_eq(name, "6.wav") || str_eq(
        name,
        "7.wav",
    ) || str_eq(name, "8.wav") || str_eq(name, "9.wav")
}


// ---------------------------------------------------------------------------
// Pack shapes
// ---------------------------------------------------------------------------

/// The "balanced" pack: each key gets its own longer length, the big keys
/// a long tail; voices stay.
pub open spec fn balanced_shape(m: ShapeModel) -> ShapeModel {
    let n = m.name;
    let d: u32 = if n == "0.wav"@ {
        122
    } else if n == "1.wav"@ {
        197
    } else if n == "2.wav"@ {
        139
    } else if n == "3.wav"@ {
        156
    } else if n == "4.wav"@ {
        111
    } else if n == "5.wav"@ {
        199
    } else if n == "6.wav"@ {
        134
    } else if n == "7.wav"@ {
        137
    } else if n == "8.wav"@ {
        172
    } else if n == "9.wav"@ {
        97
    } else if n == "enter.wav"@ {
        485
    } else if n == "delete.wav"@ {
        175
    } else if n == "backspace.wav"@ {
        175
    } else if n == "space.wav"@ {
        168
    } else {
        m.duration_ms
    };
    ShapeModel { name: m.name, kind: m.kind, duration_ms: d }
}

/// The "blue" pack: the key at position `index` lasts `78 + (3 index mod 15)`
/// ms, the big keys 145, 86, 108 and 112 ms; voices stay.
pub open spec fn blue_shape(m: ShapeModel, index: int) -> ShapeModel {
    let n = m.name;
    let d: u32 = if is_digit_key(n) {
        (78 + (index * 3) % 15) as u32
    } else if n == "enter.wav"@ {
        145
    } else if n == "delete.wav"@ {
        86
    } else if n == "backspace.wav"@ {
        108
    } else if n == "space.wav"@ {
        112
    } else {
        m.duration_ms
    };
    ShapeModel { name: m.name, kind: m.kind, duration_ms: d }
}

/// The "retro" pack: the key at position `index` is a key voice lasting
/// `85 + (4 index mod 20)` ms; enter becomes the typewriter return (350 ms),
/// delete a snap (90 ms), backspace the sweep (180 ms), space the space bar
/// (130 ms).
pub open spec fn retro_shape(m: ShapeModel, index: int) -> ShapeModel {
    let n = m.name;
    if is_digit_key(n) {
        ShapeModel { name: n, kind: SoundKind::BlueKey, duration_ms: (85 + (index * 4) % 20) as u32 }
    } else if n == "enter.wav"@ {
        ShapeModel { name: n, kind: SoundKind::TypewriterEnter, duration_ms: 350 }
    } else if n == "delete.wav"@ {
        ShapeModel { name: n, kind: SoundKind::DeleteSnap, duration_ms: 90 }
    } else if n == "backspace.wav"@ {
        ShapeModel { name: n, kind: SoundKind::RetroBackspace, duration_ms: 180 }
    } else if n == "space.wav"@ {
        ShapeModel { name: n, kind: SoundKind::SpaceBar, duration_ms: 130 }
    } else {
        m
    }
}

/// A length scaled by `percent` / 100, rounded to the nearest millisecond.
pub open spec fn scaled_duration(d: u32, percent: nat) -> u32 {
    ((d * percent + 50) / 100) as u32
}

/// The shapes of a pack, as plain values: the base table, then the pack's
/// own adjustment ("soft" 115 % longer lengths, "crisp" 82 %, "classic"
/// unchanged).
pub open spec fn preset_shapes(preset: Preset) -> Seq<ShapeModel> {
    let base = base_shapes();
    match preset {
        Preset::Balanced => Seq::new(base.len(), |i: int| balanced_shape(base[i])),
        Preset::Blue => Seq::new(base.len(), |i: int| blue_shape(base[i], i)),
        Preset::Retro => Seq::new(base.len(), |i: int| retro_shape(base[i], i)),
        Preset::Soft => Seq::new(
            base.len(),
            |i: int|
                ShapeModel {
                    name: base[i].name,
                    kind: base[i].kind,
                    duration_ms: scaled_duration(base[i].duration_ms, 115),
                },
        ),
        Preset::Classic => base,
        Preset::Crisp => Seq::new(
            base.len(),
            |i: int|
                ShapeModel {
                    name: base[i].name,
                    kind: base[i].kind,
                    duration_ms: scaled_duration(base[i].duration_ms, 82),
                },
        ),
    }
}

/// Sets the length of a key's sound.
pub fn tune_reference_key(shape: &mut SoundShape, duration_ms: u32)
    ensures
        final(shape).file_name == old(shape).file_name,
        final(shape).kind == old(shape).kind,
        final(shape).duration_ms == duration_ms,
{
    shape.duration_ms = duration_ms;
}

/// One shape of the "balanced" pack.
fn balanced_one(shape: SoundShape) -> (r: SoundShape)
    ensures
        r.model() == balanced_shape(shape.model()),
        r.file_name == shape.file_name,
{
    let mut s = shape;
    let n = shape.file_name;
    if str_eq(n, "0.wav") {
        tune_reference_key(&mut s, 122);
    } else if str_eq(n, "1.wav") {
        tune_reference_key(&mut s, 197);
    } else if str_eq(n, "2.wav") {
        tune_reference_key(&mut s, 139);
    } else if str_eq(n, "3.wav") {
        tune_reference_key(&mut s, 156);
    } else if str_eq(n, "4.wav") {
        tune_reference_key(&mut s, 111);
    } else if str_eq(n, "5.wav") {
        tune_reference_key(&mut s, 199);
    } else if str_eq(n, "6.wav") {
        tune_reference_key(&mut s, 134);
    } else if str_eq(n, "7.wav") {
        tune_reference_key(&mut s, 137);
    } else if str_eq(n, "8.wav") {
        tune_reference_key(&mut s, 172);
    } else if str_eq(n, "9.wav") {
        tune_reference_key(&mut s, 97);
    } else if str_eq(n, "enter.wav") {
        s.duration_ms = 485;
    } else if str_eq(n, "delete.wav") {
        s.duration_ms = 175;
    } else if str_eq(n, "backspace.wav") {
        s.duration_ms = 175;
    } else if str_eq(n, "space.wav") {
        s.duration_ms = 168;
    }
    assert(s.model() =~= balanced_shape(shape.model()));
    s
}

/// Applies the "balanced" pack's lengths, matching each sound by file name.
pub fn apply_balanced_shape(shapes: &mut Vec<SoundShape>)
    ensures
        final(shapes)@.len() == old(shapes)@.len(),
        forall|i: int|
            0 <= i < old(shapes)@.len() ==> #[trigger] final(shapes)@[i].model() == balanced_shape(
                old(shapes)@[i].model(),
            ),
        forall|i: int|
            0 <= i < old(shapes)@.len() ==> #[trigger] final(shapes)@[i].file_name == old(
                shapes,
            )@[i].file_name,
{
    let mut i: usize = 0;
    while i < shapes.len()
        invariant
            shapes@.len() == old(shapes)@.len(),
            i <= shapes@.len(),
            forall|j: int|
                0 <= j < i ==> #[trigger] shapes@[j].model() == balanced_shape(
                    old(shapes)@[j].model(),
                ),
            forall|j: int| 0 <= j < shapes@.len() ==> #[trigger] shapes@[j].file_name == old(shapes)@[j].file_name,
            forall|j: int| i <= j < shapes@.len() ==> #[trigger] shapes@[j] == old(shapes)@[j],
        decreases shapes@.len() - i,
    {
        let s = balanced_one(shapes[i]);
        shapes.set(i, s);
        i = i + 1;
    }
}

/// One shape of the "blue" pack at position `index`.
fn blue_one(shape: SoundShape, index: usize) -> (r: SoundShape)
    ensures
        r.model() == blue_shape(shape.model(), index as int),
        r.file_name == shape.file_name,
{
    let mut s = shape;
    let n = shape.file_name;
    if is_digit_key_name(n) {
        s.duration_ms = 78 + ((index % 5) * 3) as u32;
        assert((index * 3) % 15 == (index % 5) * 3) by (nonlinear_arith);
    } else if str_eq(n, "enter.wav") {
        s.duration_ms = 145;
    } else if str_eq(n, "delete.wav") {
        s.duration_ms = 86;
    } else if str_eq(n, "backspace.wav") {
        s.duration_ms = 108;
    } else if str_eq(n, "space.wav") {
        s.duration_ms = 112;
    }
    assert(s.model() =~= blue_shape(shape.model(), index as int));
    s
}

/// Applies the "blue" pack's switch timing, matching each sound by file name
/// and using its position for the ordinary keys.
pub fn apply_blue_switch_shape(shapes: &mut Vec<SoundShape>)
    ensures
        final(shapes)@.len() == old(shapes)@.len(),
        forall|i: int|
            0 <= i < old(shapes)@.len() ==> #[trigger] final(shapes)@[i].model() == blue_shape(
                old(shapes)@[i].model(),
                i,
            ),
        forall|i: int|
            0 <= i < old(shapes)@.len() ==> #[trigger] final(shapes)@[i].file_name == old(
                shapes,
            )@[i].file_name,
{
    let mut i: usize = 0;
    while i < shapes.len()
        invariant
            shapes@.len() == old(shapes)@.len(),
            i <= shapes@.len(),
            forall|j: int|
                0 <= j < i ==> #[trigger] shapes@[j].model() == blue_shape(
                    old(shapes)@[j].model(),
                    j,
                ),
            forall|j: int| 0 <= j < shapes@.len() ==> #[trigger] shapes@[j].file_name == old(shapes)@[j].file_name,
            forall|j: int| i <= j < shapes@.len() ==> #[trigger] shapes@[j] == old(shapes)@[j],
        decreases shapes@.len() - i,
    {
        let s = blue_one(shapes[i], i);
        shapes.set(i, s);
        i = i + 1;
    }
}

/// One shape of the "retro" pack at position `index`.
fn retro_one(shape: SoundShape, index: usize) -> (r: SoundShape)
    ensures
        r.model() == retro_shape(shape.model(), index as int),
        r.file_name == shape.file_name,
{
    let mut s = shape;
    let n = shape.file_name;
    if is_digit_key_name(n) {
        s.kind = SoundKind::BlueKey;
        s.duration_ms = 85 + ((index % 5) * 4) as u32;
        assert((index * 4) % 20 == (index % 5) * 4) by (nonlinear_arith);
    } else if str_eq(n, "enter.wav") {
        s.kind = SoundKind::TypewriterEnter;
        s.duration_ms = 350;
    } else if str_eq(n, "delete.wav") {
        s.kind = SoundKind::DeleteSnap;
        s.duration_ms = 90;
    } else if str_eq(n, "backspace.wav") {
        s.kind = SoundKind::RetroBackspace;
        s.duration_ms = 180;
    } else if str_eq(n, "space.wav") {
        s.kind = SoundKind::SpaceBar;
        s.duration_ms = 130;
    }
    assert(s.model() =~= retro_shape(shape.model(), index as int));
    s
}

/// Applies the "retro" typewriter pack, matching each sound by file name and
/// using its position for the ordinary keys.
pub fn apply_retro_typewriter_shape(shapes: &mut Vec<SoundShape>)
    ensures
        final(shapes)@.len() == old(shapes)@.len(),
        forall|i: int|
            0 <= i < old(shapes)@.len() ==> #[trigger] final(shapes)@[i].model() == retro_shape(
                old(shapes)@[i].model(),
                i,
            ),
        forall|i: int|
            0 <= i < old(shapes)@.len() ==> #[trigger] final(shapes)@[i].file_name == old(
                shapes,
            )@[i].file_name,
{
    let mut i: usize = 0;
    while i < shapes.len()
        invariant
            shapes@.len() == old(shapes)@.len(),
            i <= shapes@.len(),
            forall|j: int|
                0 <= j < i ==> #[trigger] shapes@[j].model() == retro_shape(
                    old(shapes)@[j].model(),
                    j,
                ),
            forall|j: int| 0 <= j < shapes@.len() ==> #[trigger] shapes@[j].file_name == old(shapes)@[j].file_name,
            forall|j: int| i <= j < shapes@.len() ==> #[trigger] shapes@[j] == old(shapes)@[j],
        decreases shapes@.len() - i,
    {
        let s = retro_one(shapes[i], i);
        shapes.set(i, s);
        i = i + 1;
    }
}


/// The base table.
fn base_table() -> (shapes: Vec<SoundShape>)
    ensures
        models(shapes@) == base_shapes(),
{
    let shapes = vec![
        SoundShape { file_name: "0.wav", kind: SoundKind::BlueKey, duration_ms: 43 },
        SoundShape { file_name: "1.wav", kind: SoundKind::BlueKey, duration_ms: 34 },
        SoundShape { file_name: "2.wav", kind: SoundKind::BlueKey, duration_ms: 35 },
        SoundShape { file_name: "3.wav", kind: SoundKind::BlueKey, duration_ms: 36 },
        SoundShape { file_name: "4.wav", kind: SoundKind::BlueKey, duration_ms: 37 },
        SoundShape { file_name: "5.wav", kind: SoundKind::BlueKey, duration_ms: 38 },
        SoundShape { file_name: "6.wav", kind: SoundKind::BlueKey, duration_ms: 39 },
        SoundShape { file_name: "7.wav", kind: SoundKind::BlueKey, duration_ms: 40 },
        SoundShape { file_name: "8.wav", kind: SoundKind::BlueKey, duration_ms: 41 },
        SoundShape { file_name: "9.wav", kind: SoundKind::BlueKey, duration_ms: 42 },
        SoundShape { file_name: "enter.wav", kind: SoundKind::EnterKiang, duration_ms: 118 },
        SoundShape { file_name: "delete.wav", kind: SoundKind::DeleteSnap, duration_ms: 54 },
        SoundShape {
            file_name: "backspace.wav",
            kind: SoundKind::BackspaceWhoosh,
            duration_ms: 92,
        },
        SoundShape { file_name: "space.wav", kind: SoundKind::SpaceBar, duration_ms: 72 },
    ];
    assert(models(shapes@) =~= base_shapes());
    shapes
}

/// Scales every length of the base table by `percent` / 100, rounding to
/// the nearest millisecond.
fn scale_durations(shapes: &mut Vec<SoundShape>, percent: u32)
    requires
        models(old(shapes)@) == base_shapes(),
        percent <= 200,
    ensures
        final(shapes)@.len() == old(shapes)@.len(),
        forall|i: int|
            0 <= i < old(shapes)@.len() ==> #[trigger] final(shapes)@[i].model() == (ShapeModel {
                name: old(shapes)@[i].model().name,
                kind: old(shapes)@[i].kind,
                duration_ms: scaled_duration(old(shapes)@[i].duration_ms, percent as nat),
            }),
{
    assert(models(shapes@).len() == shapes@.len());
    let mut i: usize = 0;
    while i < shapes.len()
        invariant
            shapes@.len() == old(shapes)@.len(),
            shapes@.len() == SOUND_COUNT,
            percent <= 200,
            i <= shapes@.len(),
            models(old(shapes)@) == base_shapes(),
            forall|j: int|
                0 <= j < i ==> #[trigger] shapes@[j].model() == (ShapeModel {
                    name: old(shapes)@[j].model().name,
                    kind: old(shapes)@[j].kind,
                    duration_ms: scaled_duration(old(shapes)@[j].duration_ms, percent as nat),
                }),
            forall|j: int| i <= j < shapes@.len() ==> #[trigger] shapes@[j] == old(shapes)@[j],
        decreases shapes@.len() - i,
    {
        let mut s = shapes[i];
        assert(models(old(shapes)@)[i as int] == base_shapes()[i as int]);
        assert(s.model() == old(shapes)@[i as int].model());
        let d = s.duration_ms;
        assert(d <= 118);
        assert(d as u64 * percent as u64 <= 23600) by (nonlinear_arith)
            requires
                d <= 118,
                percent <= 200,
        ;
        let scaled = ((d as u64 * percent as u64 + 50) / 100) as u32;
        s.duration_ms = scaled;
        shapes.set(i, s);
        i = i + 1;
    }
}

/// The sounds of a pack, in file order: "0.wav" .. "9.wav", "enter.wav",
/// "delete.wav", "backspace.wav", "space.wav", each with its voice and length.
pub fn specs_for_preset(preset: Preset) -> (shapes: Vec<SoundShape>)
    ensures
        models(shapes@) == preset_shapes(preset),
{
    let mut shapes = base_table();
    let ghost base = shapes@;
    match preset {
        Preset::Balanced => {
            apply_balanced_shape(&mut shapes);
            assert(models(shapes@) =~= preset_shapes(preset));
        },
        Preset::Blue => {
            apply_blue_switch_shape(&mut shapes);
            assert(models(shapes@) =~= preset_shapes(preset));
        },
        Preset::Retro => {
            apply_retro_typewriter_shape(&mut shapes);
            assert(models(shapes@) =~= preset_shapes(preset));
        },
        Preset::Soft => {
            scale_durations(&mut shapes, 115);
            assert(models(shapes@) =~= preset_shapes(preset));
        },
        Preset::Classic => {},
        Preset::Crisp => {
            scale_durations(&mut shapes, 82);
            assert(models(shapes@) =~= preset_shapes(preset));
        },
    }
    shapes
}


// ---------------------------------------------------------------------------
// Output and tracing choices
// ---------------------------------------------------------------------------

/// The packs written by "--preset all", with the sub-directory of each, in
/// the order they are written.
pub open spec fn all_preset_dirs() -> Seq<(Preset, Seq<char>)> {
    seq![
        (Preset::Classic, "classic"@),
        (Preset::Soft, "soft"@),
        (Preset::Crisp, "crisp"@),
        (Preset::Blue, "blue"@),
        (Preset::Retro, "retro"@),
        (Preset::Balanced, "balanced"@),
    ]
}

/// The packs written by "--preset all", each with its sub-directory.
pub fn all_presets() -> (presets: Vec<(Preset, &'static str)>)
    ensures
        presets@.map_values(|e: (Preset, &'static str)| (e.0, e.1@)) == all_preset_dirs(),
{
    let presets = vec![
        (Preset::Classic, "classic"),
        (Preset::Soft, "soft"),
        (Preset::Crisp, "crisp"),
        (Preset::Blue, "blue"),
        (Preset::Retro, "retro"),
        (Preset::Balanced, "balanced"),
    ];
    assert(presets@.map_values(|e: (Preset, &'static str)| (e.0, e.1@)) =~= all_preset_dirs());
    presets
}

/// Whether a sound is traced from a reference recording when one is given:
/// every sound is.
pub fn should_trace_reference(_shape: &SoundShape) -> (traced: bool)
    ensures
        traced,
{
    true
}

/// The reference recording that a sound is traced from: "0.wav" borrows
/// "1.wav", every other sound its own name.
pub open spec fn reference_name(file_name: Seq<char>) -> Seq<char> {
    if file_name == "0.wav"@ {
        "1.wav"@
    } else {
        file_name
    }
}

/// The file name of the reference recording for the sound `file_name`.
pub fn reference_file_name<'a>(file_name: &'a str) -> (name: &'a str)
    ensures
        name@ == reference_name(file_name@),
        file_name@ != "0.wav"@ ==> name@ == file_name@,
        file_name@ == "0.wav"@ ==> name@ == "1.wav"@,
{
    if str_eq(file_name, "0.wav") {
        "1.wav"
    } else {
        file_name
    }
}

/// How the retro pack treats a traced sound.
#[derive(Clone, Copy, Debug, PartialEq, Eq, Structural)]
pub enum RetroVoice {
    /// Enter: synthesized as the typewriter return, at normal speed.
    TypewriterEnter,
    /// Backspace and delete: synthesized as the retro sweep, at normal speed.
    RetroBackspace,
    /// Every other sound: the reference itself, slowed down.
    Reference,
}

/// The retro pack's treatment of the sound `file_name`.
pub open spec fn retro_voice(file_name: Seq<char>) -> RetroVoice {
    if file_name == "enter.wav"@ {
        RetroVoice::TypewriterEnter
    } else if file_name == "backspace.wav"@ || file_name == "delete.wav"@ {
        RetroVoice::RetroBackspace
    } else {
        RetroVoice::Reference
    }
}

/// How the retro pack treats the traced sound `file_name`.
pub fn retro_trace_voice(file_name: &str) -> (voice: RetroVoice)
    ensures
        voice == retro_voice(file_name@),
        file_name@ == "enter.wav"@ ==> voice == RetroVoice::TypewriterEnter,
        file_name@ == "backspace.wav"@ || file_name@ == "delete.wav"@ ==> voice
            == RetroVoice::RetroBackspace,
        file_name@ != "enter.wav"@ && file_name@ != "backspace.wav"@ && file_name@
            != "delete.wav"@ ==> voice == RetroVoice::Reference,
{
    proof {
        reveal_strlit("enter.wav");
        reveal_strlit("backspace.wav");
        reveal_strlit("delete.wav");
        assert("enter.wav"@.len() == 9 && "backspace.wav"@.len() == 13 && "delete.wav"@.len()
            == 10);
    }
    if str_eq(file_name, "enter.wav") {
        RetroVoice::TypewriterEnter
    } else if str_eq(file_name, "backspace.wav") || str_eq(file_name, "delete.wav") {
        RetroVoice::RetroBackspace
    } else {
        RetroVoice::Reference
    }
}

} // verus!
