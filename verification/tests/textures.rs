use xash3d::player_move::step::{
    choose_step_sound, map_texture_type_step_type, reduce_step_sound_timer, step_sample,
    step_allowed, next_step_left, step_sound_due,
    water_transition_sample, StepSound, WadeSkip, STEP_CONCRETE, STEP_DIRT, STEP_GRATE,
    STEP_LADDER, STEP_METAL, STEP_SLOSH, STEP_TILE, STEP_VENT, STEP_WADE,
};
use xash3d::player_move::stuck::{create_stuck_table, stuck_offset, StuckOffset, StuckOffsets};
use xash3d::player_move::textures::{
    catagorize_texture_type, strip_texture_prefix, trim_ascii_start, TextureTypes,
    CHAR_TEX_CONCRETE, CHAR_TEX_DIRT, CHAR_TEX_GRATE, CHAR_TEX_METAL, CHAR_TEX_SLOSH,
    CHAR_TEX_TILE, CHAR_TEX_VENT, CTEXTURESMAX,
};

#[test]
fn trim_skips_leading_white_space_only() {
    assert_eq!(trim_ascii_start(b" \t\r\n\x0cabc d "), b"abc d ");
    assert_eq!(trim_ascii_start(b"abc"), b"abc");
    assert_eq!(trim_ascii_start(b"   "), b"");
    assert_eq!(trim_ascii_start(b""), b"");
    // vertical tab is not ASCII white space
    assert_eq!(trim_ascii_start(b"\x0bx"), b"\x0bx");
}

#[test]
fn strip_prefixes() {
    assert_eq!(strip_texture_prefix(b"-0wall"), b"wall");
    assert_eq!(strip_texture_prefix(b"+1door"), b"door");
    assert_eq!(strip_texture_prefix(b"{grate"), b"grate");
    assert_eq!(strip_texture_prefix(b"!water"), b"water");
    assert_eq!(strip_texture_prefix(b"~light"), b"light");
    assert_eq!(strip_texture_prefix(b" lead"), b"lead");
    assert_eq!(strip_texture_prefix(b"+0{fence"), b"fence");
    assert_eq!(strip_texture_prefix(b"-"), b"-");
    assert_eq!(strip_texture_prefix(b"verylongtexturename"), b"verylongtext");
    assert_eq!(strip_texture_prefix(b"-a~0123456789abcdef"), b"0123456789ab");
    assert_eq!(strip_texture_prefix(b""), b"");
}

const MATERIALS: &[u8] = b"// materials\n\
M metal1\n\
  d\tDirt_Floor\r\n\
V vent\n\
G grate\n\
T tile\n\
S slosh\n\
X  bad name\n\
7 digits\n\
C\n\
C waytoolongname\n\
m METAL2";

#[test]
fn parse_and_find_materials() {
    let t = TextureTypes::init_texture_types(MATERIALS);
    assert_eq!(t.len(), 7);
    // sorted by name ignoring case
    let names: Vec<Vec<u8>> = (0..t.len()).map(|i| t.get(i).1.to_vec()).collect();
    let mut sorted = names.clone();
    sorted.sort_by(|a, b| a.to_ascii_lowercase().cmp(&b.to_ascii_lowercase()));
    assert_eq!(names, sorted);
    assert_eq!(t.find_texture_type(b"metal1"), CHAR_TEX_METAL);
    assert_eq!(t.find_texture_type(b"METAL1"), CHAR_TEX_METAL);
    assert_eq!(t.find_texture_type(b"metal2"), CHAR_TEX_METAL);
    assert_eq!(t.find_texture_type(b"dirt_floor"), CHAR_TEX_DIRT);
    assert_eq!(t.find_texture_type(b"VENT"), CHAR_TEX_VENT);
    assert_eq!(t.find_texture_type(b"grate"), CHAR_TEX_GRATE);
    assert_eq!(t.find_texture_type(b"tile"), CHAR_TEX_TILE);
    assert_eq!(t.find_texture_type(b"slosh"), CHAR_TEX_SLOSH);
    assert_eq!(t.find_texture_type(b"bad"), CHAR_TEX_CONCRETE);
    assert_eq!(t.find_texture_type(b"digits"), CHAR_TEX_CONCRETE);
    assert_eq!(t.find_texture_type(b"waytoolongname"), CHAR_TEX_CONCRETE);
    assert_eq!(t.find_texture_type(b""), CHAR_TEX_CONCRETE);
    assert_eq!(t.find_texture_type(b"unknown"), CHAR_TEX_CONCRETE);
}

#[test]
fn empty_table_finds_concrete() {
    let t = TextureTypes::empty();
    assert_eq!(t.len(), 0);
    assert_eq!(t.find_texture_type(b"anything"), CHAR_TEX_CONCRETE);
    let t = TextureTypes::init_texture_types(b"");
    assert_eq!(t.len(), 0);
}

#[test]
fn table_holds_at_most_ctexturesmax() {
    let mut file = Vec::new();
    for i in 0..(CTEXTURESMAX + 20) {
        file.extend_from_slice(format!("M tex{i}\n").as_bytes());
    }
    let t = TextureTypes::init_texture_types(&file);
    assert_eq!(t.len(), CTEXTURESMAX);
    assert_eq!(t.find_texture_type(b"tex0"), CHAR_TEX_METAL);
    assert_eq!(t.find_texture_type(b"tex511"), CHAR_TEX_METAL);
    assert_eq!(t.find_texture_type(b"tex512"), CHAR_TEX_CONCRETE);
}

#[test]
fn categorize_texture() {
    let t = TextureTypes::init_texture_types(MATERIALS);
    let (name, ty) = catagorize_texture_type(&t, Some(b"-0VENT"));
    assert_eq!(name, b"VENT");
    assert_eq!(ty, CHAR_TEX_VENT);
    let (name, ty) = catagorize_texture_type(&t, None);
    assert!(name.is_empty());
    assert_eq!(ty, CHAR_TEX_CONCRETE);
}

#[test]
fn texture_type_to_step() {
    assert_eq!(map_texture_type_step_type(CHAR_TEX_METAL), STEP_METAL);
    assert_eq!(map_texture_type_step_type(CHAR_TEX_DIRT), STEP_DIRT);
    assert_eq!(map_texture_type_step_type(CHAR_TEX_VENT), STEP_VENT);
    assert_eq!(map_texture_type_step_type(CHAR_TEX_GRATE), STEP_GRATE);
    assert_eq!(map_texture_type_step_type(CHAR_TEX_TILE), STEP_TILE);
    assert_eq!(map_texture_type_step_type(CHAR_TEX_SLOSH), STEP_SLOSH);
    assert_eq!(map_texture_type_step_type(CHAR_TEX_CONCRETE), STEP_CONCRETE);
    assert_eq!(map_texture_type_step_type(b'W'), STEP_CONCRETE);
}

#[test]
fn step_sound_choice() {
    assert_eq!(
        choose_step_sound(true, true, true, CHAR_TEX_METAL, true, false),
        StepSound { step: STEP_LADDER, volume_pct: 35, time_step_sound: 450 }
    );
    assert_eq!(
        choose_step_sound(false, true, true, CHAR_TEX_METAL, false, false),
        StepSound { step: STEP_WADE, volume_pct: 65, time_step_sound: 600 }
    );
    assert_eq!(
        choose_step_sound(false, false, true, CHAR_TEX_METAL, true, true),
        StepSound { step: STEP_SLOSH, volume_pct: 20, time_step_sound: 500 }
    );
    assert_eq!(
        choose_step_sound(false, false, false, CHAR_TEX_DIRT, false, false),
        StepSound { step: STEP_DIRT, volume_pct: 55, time_step_sound: 300 }
    );
    assert_eq!(
        choose_step_sound(false, false, false, CHAR_TEX_VENT, true, false),
        StepSound { step: STEP_VENT, volume_pct: 40, time_step_sound: 400 }
    );
    assert_eq!(
        choose_step_sound(false, false, false, b'W', false, false),
        StepSound { step: STEP_CONCRETE, volume_pct: 50, time_step_sound: 300 }
    );
}

#[test]
fn step_samples() {
    assert_eq!(step_sample(STEP_CONCRETE, 0, 0), Some("player/pl_step1.wav"));
    assert_eq!(step_sample(STEP_CONCRETE, 1, 0), Some("player/pl_step3.wav"));
    assert_eq!(step_sample(STEP_METAL, 2, 0), Some("player/pl_metal2.wav"));
    assert_eq!(step_sample(STEP_TILE, 3, 0), Some("player/pl_tile4.wav"));
    assert_eq!(step_sample(STEP_TILE, 3, 2), Some("player/pl_tile5.wav"));
    assert_eq!(step_sample(STEP_LADDER, 3, 1), Some("player/pl_ladder4.wav"));
    assert_eq!(step_sample(STEP_WADE, 1, 0), Some("player/pl_wade3.wav"));
    assert_eq!(step_sample(42, 0, 0), None);
}

#[test]
fn wading_skips_every_fourth_step() {
    let mut w = WadeSkip::new();
    let played: Vec<bool> = (0..8).map(|_| w.next()).collect();
    assert_eq!(played, vec![false, true, true, true, false, true, true, true]);
}

#[test]
fn step_timer() {
    assert_eq!(reduce_step_sound_timer(300, 16), 284);
    assert_eq!(reduce_step_sound_timer(10, 16), 0);
    assert_eq!(reduce_step_sound_timer(0, 16), 0);
    assert_eq!(reduce_step_sound_timer(-5, 16), -5);
}

#[test]
fn water_splash() {
    assert_eq!(water_transition_sample(0, 1, 0), Some("player/pl_wade1.wav"));
    assert_eq!(water_transition_sample(2, 0, 3), Some("player/pl_wade4.wav"));
    assert_eq!(water_transition_sample(1, 2, 1), None);
    assert_eq!(water_transition_sample(0, 0, 1), None);
}

#[test]
fn stuck_offsets_cycle() {
    let mut s = StuckOffsets::new();
    let seq: Vec<i32> = (0..56).map(|_| s.get_random_stuck_offsets(3, true).0).collect();
    let expected: Vec<i32> = (0..56).map(|i| i % 54).collect();
    assert_eq!(seq, expected);
    // the other side of the same player is untouched
    assert_eq!(s.get_random_stuck_offsets(3, false).0, 0);
    s.reset_stuck_offsets(3, true);
    assert_eq!(s.get_random_stuck_offsets(3, true).0, 0);
    assert_eq!(s.get_random_stuck_offsets(3, true).0, 1);
}

fn as_units(o: StuckOffset) -> [f32; 3] {
    [o.x as f32 / 8.0, o.y as f32 / 8.0, o.z as f32 / 8.0]
}

/// The table the movement code builds with its nested loops over floats.
fn float_stuck_table() -> Vec<[f32; 3]> {
    let mut table = vec![[0.0f32; 3]; 54];
    let mut idx = 0;
    let i = [-0.125, 0.0, 0.125];
    for z in i {
        table[idx] = [0.0, 0.0, z];
        idx += 1;
    }
    for y in i {
        table[idx] = [0.0, y, 0.0];
        idx += 1;
    }
    for x in i {
        table[idx] = [x, 0.0, 0.0];
        idx += 1;
    }
    let i = [-0.125, 0.125];
    for x in i {
        for y in i {
            for z in i {
                table[idx] = [x, y, z];
                idx += 1;
            }
        }
    }
    let zi = [0.0, 1.0, 6.0];
    for z in zi {
        table[idx] = [0.0, 0.0, z];
        idx += 1;
    }
    let i = [-2.0, 0.0, 2.0];
    for y in i {
        table[idx] = [0.0, y, 0.0];
        idx += 1;
    }
    for x in i {
        table[idx] = [x, 0.0, 0.0];
        idx += 1;
    }
    for z in zi {
        for x in i {
            for y in i {
                table[idx] = [x, y, z];
                idx += 1;
            }
        }
    }
    table
}

#[test]
fn stuck_table_matches_float_table() {
    let table = create_stuck_table();
    assert_eq!(table.len(), 54);
    let units: Vec<[f32; 3]> = table.iter().map(|&o| as_units(o)).collect();
    assert_eq!(units, float_stuck_table());
}

#[test]
fn stuck_table_entries() {
    assert_eq!(stuck_offset(0), StuckOffset { x: 0, y: 0, z: -1 });
    assert_eq!(stuck_offset(9), StuckOffset { x: -1, y: -1, z: -1 });
    assert_eq!(stuck_offset(16), StuckOffset { x: 1, y: 1, z: 1 });
    assert_eq!(stuck_offset(19), StuckOffset { x: 0, y: 0, z: 48 });
    assert_eq!(stuck_offset(26), StuckOffset { x: -16, y: -16, z: 0 });
    assert_eq!(stuck_offset(52), StuckOffset { x: 16, y: 16, z: 48 });
    assert_eq!(stuck_offset(53), StuckOffset { x: 0, y: 0, z: 0 });
}

#[test]
fn stuck_offsets_follow_table() {
    let mut s = StuckOffsets::new();
    for k in 0..54 {
        let (i, o) = s.get_random_stuck_offsets(31, false);
        assert_eq!(i, k);
        assert_eq!(o, stuck_offset(k as usize));
    }
    assert_eq!(s.get_random_stuck_offsets(31, false), (0, stuck_offset(0)));
}

#[test]
fn step_sound_timing() {
    // a running timer or a frozen player: no step
    assert!(!step_sound_due(10, false, false, true, true, true));
    assert!(!step_sound_due(0, true, false, true, true, true));
    // in the air, not on a ladder: no step
    assert!(!step_sound_due(0, false, false, false, true, true));
    // standing still: no step
    assert!(!step_sound_due(0, false, false, true, false, true));
    // slower than walking needs a timer below 0
    assert!(!step_sound_due(0, false, false, true, true, false));
    assert!(step_sound_due(-5, false, false, true, true, false));
    // on a ladder, in the air, at walking speed
    assert!(step_sound_due(0, false, true, false, true, true));
}

#[test]
fn step_gating_and_foot() {
    assert!(step_allowed(1, false, 0));
    assert!(step_allowed(1, true, 1));
    assert!(!step_allowed(1, true, 0));
    assert!(!step_allowed(0, false, 1));
    assert_eq!(next_step_left(0), 1);
    assert_eq!(next_step_left(1), 0);
    assert_eq!(next_step_left(5), 0);
}

#[test]
fn equal_names_keep_file_order() {
    let file = b"C foo\nM FOO\nD abc\nT Foo\nV zed\n";
    let t = TextureTypes::init_texture_types(file);
    assert_eq!(t.len(), 5);
    let kinds: Vec<u8> = (0..t.len()).map(|i| t.get(i).0).collect();
    assert_eq!(kinds, b"DCMTV".to_vec());
    assert_eq!(t.get(1).1, b"foo");
    assert_eq!(t.get(2).1, b"FOO");
    assert_eq!(t.get(3).1, b"Foo");
}
