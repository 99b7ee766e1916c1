use vstd::prelude::*;

use crate::args::preset_named;
use crate::presets::{
    all_preset_dirs, balanced_shape, blue_shape, is_digit_key, preset_shapes, reference_name,
    retro_shape, sound_name, Preset, ShapeModel, SoundKind, SOUND_COUNT,
};
use crate::text::ascii_lowercase;
use crate::rng::{fnv1a, lcg_next};

verus! {

/// The file names of the base table are pairwise different, and only the
/// first ten are ordinary keys.
proof fn lemma_sound_names_distinct()
    ensures
        forall|i: int, j: int|
            0 <= i < SOUND_COUNT && 0 <= j < SOUND_COUNT && i != j ==> sound_name(i) != sound_name(
                j,
            ),
        forall|i: int| 0 <= i < SOUND_COUNT ==> (is_digit_key(sound_name(i)) <==> i < 10),
{
    reveal_strlit("0.wav");
    reveal_strlit("1.wav");
    reveal_strlit("2.wav");
    reveal_strlit("3.wav");
    reveal_strlit("4.wav");
    reveal_strlit("5.wav");
    reveal_strlit("6.wav");
    reveal_strlit("7.wav");
    reveal_strlit("8.wav");
    reveal_strlit("9.wav");
    reveal_strlit("enter.wav");
    reveal_strlit("delete.wav");
    reveal_strlit("backspace.wav");
    reveal_strlit("space.wav");
    assert forall|i: int, j: int|
        0 <= i < SOUND_COUNT && 0 <= j < SOUND_COUNT && i != j implies sound_name(i) != sound_name(
            j,
        ) by {
        if i < 10 && j < 10 {
            assert(sound_name(i)[0] != sound_name(j)[0]);
        } else if i < 10 || j < 10 {
            assert(sound_name(i).len() != sound_name(j).len());
        } else {
            assert(sound_name(i)[0] != sound_name(j)[0] || sound_name(i).len() != sound_name(
                j,
            ).len());
        }
    }
    assert forall|i: int| 0 <= i < SOUND_COUNT implies (is_digit_key(sound_name(i)) <==> i < 10) by {
        if i >= 10 {
            assert(sound_name(i).len() > 5);
        }
    }
}

/// Every pack has the same fourteen sounds, in the same order: "0.wav" ..
/// "9.wav", "enter.wav", "delete.wav", "backspace.wav", "space.wav".
pub proof fn lemma_pack_file_names(preset: Preset, i: int)
    requires
        0 <= i < SOUND_COUNT,
    ensures
        preset_shapes(preset).len() == 14,
        preset_shapes(preset)[i].name == sound_name(i),
        preset_shapes(preset)[i].name == (if i == 0 {
            "0.wav"@
        } else if i == 1 {
            "1.wav"@
        } else if i == 2 {
            "2.wav"@
        } else if i == 3 {
            "3.wav"@
        } else if i == 4 {
            "4.wav"@
        } else if i == 5 {
            "5.wav"@
        } else if i == 6 {
            "6.wav"@
        } else if i == 7 {
            "7.wav"@
        } else if i == 8 {
            "8.wav"@
        } else if i == 9 {
            "9.wav"@
        } else if i == 10 {
            "enter.wav"@
        } else if i == 11 {
            "delete.wav"@
        } else if i == 12 {
            "backspace.wav"@
        } else {
            "space.wav"@
        }),
{
}

/// Every pack but "retro" keeps the voices of the base table: the ordinary
/// keys the key voice, enter the "kiang" voice, delete the snap, backspace
/// the whoosh, space the space bar. The "retro" pack gives enter the
/// typewriter return and backspace the retro sweep, and keeps the others.
pub proof fn lemma_pack_voices(preset: Preset, i: int)
    requires
        0 <= i < 14,
    ensures
        preset != Preset::Retro ==> preset_shapes(preset)[i].kind == (if i < 10 {
            SoundKind::BlueKey
        } else if i == 10 {
            SoundKind::EnterKiang
        } else if i == 11 {
            SoundKind::DeleteSnap
        } else if i == 12 {
            SoundKind::BackspaceWhoosh
        } else {
            SoundKind::SpaceBar
        }),
        preset == Preset::Retro ==> preset_shapes(preset)[i].kind == (if i < 10 {
            SoundKind::BlueKey
        } else if i == 10 {
            SoundKind::TypewriterEnter
        } else if i == 11 {
            SoundKind::DeleteSnap
        } else if i == 12 {
            SoundKind::RetroBackspace
        } else {
            SoundKind::SpaceBar
        }),
{
    lemma_sound_names_distinct();
    if i >= 10 {
        assert(!is_digit_key(sound_name(i)));
        assert(i != 10 ==> sound_name(i) != sound_name(10));
        assert(i != 11 ==> sound_name(i) != sound_name(11));
        assert(i != 12 ==> sound_name(i) != sound_name(12));
    } else {
        assert(is_digit_key(sound_name(i)));
    }
}

/// The lengths of each pack, in milliseconds. "classic": 43 for "0.wav",
/// 34 .. 42 for "1.wav" .. "9.wav", then 118, 54, 92, 72. "soft" and
/// "crisp": the classic length times 1.15 and 0.82, rounded to the nearest
/// millisecond. "balanced": 122, 197, 139, 156, 111, 199, 134, 137, 172, 97,
/// then 485, 175, 175, 168. "blue": key `i` lasts 78 + (3 i mod 15), then
/// 145, 86, 108, 112. "retro": key `i` lasts 85 + (4 i mod 20), then 350,
/// 90, 180, 130.
pub proof fn lemma_pack_lengths(i: int)
    requires
        0 <= i < 14,
    ensures
        preset_shapes(Preset::Classic)[i].duration_ms as int == (if i == 0 {
            43int
        } else if i < 10 {
            33 + i
        } else if i == 10 {
            118
        } else if i == 11 {
            54
        } else if i == 12 {
            92
        } else {
            72
        }),
        ({
            let c = preset_shapes(Preset::Classic)[i].duration_ms as int;
            let s = preset_shapes(Preset::Soft)[i].duration_ms as int;
            let k = preset_shapes(Preset::Crisp)[i].duration_ms as int;
            &&& 115 * c - 50 < 100 * s <= 115 * c + 50
            &&& 82 * c - 50 < 100 * k <= 82 * c + 50
        }),
        preset_shapes(Preset::Balanced)[i].duration_ms == (if i == 0 {
            122u32
        } else if i == 1 {
            197
        } else if i == 2 {
            139
        } else if i == 3 {
            156
        } else if i == 4 {
            111
        } else if i == 5 {
            199
        } else if i == 6 {
            134
        } else if i == 7 {
            137
        } else if i == 8 {
            172
        } else if i == 9 {
            97
        } else if i == 10 {
            485
        } else if i == 11 {
            175
        } else if i == 12 {
            175
        } else {
            168
        }),
        preset_shapes(Preset::Blue)[i].duration_ms as int == (if i < 10 {
            78 + (3 * i) % 15
        } else if i == 10 {
            145
        } else if i == 11 {
            86
        } else if i == 12 {
            108
        } else {
            112
        }),
        preset_shapes(Preset::Retro)[i].duration_ms as int == (if i < 10 {
            85 + (4 * i) % 20
        } else if i == 10 {
            350
        } else if i == 11 {
            90
        } else if i == 12 {
            180
        } else {
            130
        }),
{
    lemma_sound_names_distinct();
    if i >= 10 {
        assert(!is_digit_key(sound_name(i)));
    } else {
        assert(is_digit_key(sound_name(i)));
    }
    assert(i != 0 ==> sound_name(i) != sound_name(0));
    assert(i != 1 ==> sound_name(i) != sound_name(1));
    assert(i != 2 ==> sound_name(i) != sound_name(2));
    assert(i != 3 ==> sound_name(i) != sound_name(3));
    assert(i != 4 ==> sound_name(i) != sound_name(4));
    assert(i != 5 ==> sound_name(i) != sound_name(5));
    assert(i != 6 ==> sound_name(i) != sound_name(6));
    assert(i != 7 ==> sound_name(i) != sound_name(7));
    assert(i != 8 ==> sound_name(i) != sound_name(8));
    assert(i != 9 ==> sound_name(i) != sound_name(9));
    assert(i != 10 ==> sound_name(i) != sound_name(10));
    assert(i != 11 ==> sound_name(i) != sound_name(11));
    assert(i != 12 ==> sound_name(i) != sound_name(12));
    assert(i != 13 ==> sound_name(i) != sound_name(13));
    let c = preset_shapes(Preset::Classic)[i].duration_ms as int;
    let s = preset_shapes(Preset::Soft)[i].duration_ms as int;
    let k = preset_shapes(Preset::Crisp)[i].duration_ms as int;
    assert(s == (c * 115 + 50) / 100);
    assert(k == (c * 82 + 50) / 100);
}

/// A sound whose name is none of the fourteen pack names keeps its voice
/// and length in every pack adjustment.
pub proof fn lemma_unlisted_names_unchanged(m: ShapeModel, i: int)
    requires
        forall|j: int| 0 <= j < 14 ==> m.name != #[trigger] sound_name(j),
    ensures
        balanced_shape(m) == m,
        blue_shape(m, i) == m,
        retro_shape(m, i) == m,
{
    assert(m.name != sound_name(0) && m.name != sound_name(1) && m.name != sound_name(2));
    assert(m.name != sound_name(3) && m.name != sound_name(4) && m.name != sound_name(5));
    assert(m.name != sound_name(6) && m.name != sound_name(7) && m.name != sound_name(8));
    assert(m.name != sound_name(9) && m.name != sound_name(10) && m.name != sound_name(11));
    assert(m.name != sound_name(12) && m.name != sound_name(13));
}

/// A sound is traced from the recording of its own name, except "0.wav",
/// which is traced from "1.wav".
pub proof fn lemma_reference_names(name: Seq<char>)
    ensures
        name != "0.wav"@ ==> reference_name(name) == name,
        name == "0.wav"@ ==> reference_name(name) == "1.wav"@,
{
}

/// In the "blue" pack every key sound lasts 78 to 92 ms, and the space bar
/// at least 100 ms.
pub proof fn lemma_blue_switch_timing(i: int)
    requires
        0 <= i < SOUND_COUNT,
    ensures
        preset_shapes(Preset::Blue)[i].kind == SoundKind::BlueKey ==> 78 <= preset_shapes(
            Preset::Blue,
        )[i].duration_ms <= 92,
        preset_shapes(Preset::Blue)[13].duration_ms >= 100,
{
    lemma_sound_names_distinct();
    assert(!is_digit_key(sound_name(13)));
    assert(sound_name(13) != sound_name(10));
    assert(sound_name(13) != sound_name(11));
    assert(sound_name(13) != sound_name(12));
    if i < 10 {
        assert(is_digit_key(sound_name(i)));
    }
}

/// In the "retro" pack, enter is the typewriter return and backspace the
/// retro sweep.
pub proof fn lemma_retro_voices()
    ensures
        preset_shapes(Preset::Retro)[10].kind == SoundKind::TypewriterEnter,
        preset_shapes(Preset::Retro)[12].kind == SoundKind::RetroBackspace,
{
    lemma_sound_names_distinct();
    assert(!is_digit_key(sound_name(10)));
    assert(!is_digit_key(sound_name(12)));
    assert(sound_name(12) != sound_name(10));
    assert(sound_name(12) != sound_name(11));
}

/// The sub-directory name of every pack written by "--preset all" names
/// that same pack.
pub proof fn lemma_pack_dirs_name_their_pack(k: int)
    requires
        0 <= k < all_preset_dirs().len(),
    ensures
        preset_named(ascii_lowercase(all_preset_dirs()[k].1)) == Some(all_preset_dirs()[k].0),
{
    reveal_strlit("classic");
    reveal_strlit("soft");
    reveal_strlit("crisp");
    reveal_strlit("blue");
    reveal_strlit("retro");
    reveal_strlit("balanced");
    reveal_strlit("mx-blue");
    reveal_strlit("cherry-blue");
    reveal_strlit("\u{9752}\u{8ef8}");
    reveal_strlit("typewriter");
    let name = all_preset_dirs()[k].1;
    assert(ascii_lowercase(name) =~= name);
    if k == 0 {
        assert(name != "soft"@);
    } else if k == 1 {
    } else if k == 2 {
        assert(name[1] != "classic"@[1]);
    } else if k == 3 {
        assert(name[0] != "soft"@[0]);
    } else if k == 4 {
        assert(name[0] != "crisp"@[0]);
        assert(name[0] != "soft"@[0]);
    } else {
        assert(name.len() != "soft"@.len());
    }
}


/// The file-name hash is 32-bit FNV-1a: it starts from 2166136261 and, for
/// each byte, xors the byte in and multiplies by 16777619 modulo 2^32.
pub proof fn lemma_fnv1a_steps(bytes: Seq<u8>, b: u8)
    ensures
        fnv1a(Seq::<u8>::empty()) == 2166136261u32,
        fnv1a(bytes.push(b)) as nat == ((fnv1a(bytes) ^ (b as u32)) as nat * 16777619nat)
            % 0x1_0000_0000nat,
{
    assert(bytes.push(b).drop_last() =~= bytes);
}

/// Each step of the noise generator maps the state `s` to
/// `(1664525 s + 1013904223) mod 2^32`.
pub proof fn lemma_lcg_step(state: u32)
    ensures
        lcg_next(state) as nat == (state as nat * 1664525nat + 1013904223nat) % 0x1_0000_0000nat,
{
}

/// "--preset all" writes six packs, each a different one, each to a
/// sub-directory named after it: classic, soft, crisp, blue, retro,
/// balanced.
pub proof fn lemma_all_packs_once()
    ensures
        all_preset_dirs().len() == 6,
        forall|j: int, k: int|
            0 <= j < k < 6 ==> all_preset_dirs()[j].0 != all_preset_dirs()[k].0,
        all_preset_dirs()[0] == (Preset::Classic, "classic"@),
        all_preset_dirs()[1] == (Preset::Soft, "soft"@),
        all_preset_dirs()[2] == (Preset::Crisp, "crisp"@),
        all_preset_dirs()[3] == (Preset::Blue, "blue"@),
        all_preset_dirs()[4] == (Preset::Retro, "retro"@),
        all_preset_dirs()[5] == (Preset::Balanced, "balanced"@),
{
}

} // verus!
