//! Footstep sounds: which step sound a surface makes, how loud and how
//! often it plays, and which sample plays.

use vstd::prelude::*;
use crate::player_move::textures::{
    CHAR_TEX_DIRT, CHAR_TEX_GRATE, CHAR_TEX_METAL, CHAR_TEX_SLOSH, CHAR_TEX_TILE, CHAR_TEX_VENT,
};

verus! {

/// Default step sound.
pub const STEP_CONCRETE: i32 = 0;
/// Metal floor.
pub const STEP_METAL: i32 = 1;
/// Dirt, sand or rock.
pub const STEP_DIRT: i32 = 2;
/// Ventilation duct.
pub const STEP_VENT: i32 = 3;
/// Metal grating.
pub const STEP_GRATE: i32 = 4;
/// Floor tiles.
pub const STEP_TILE: i32 = 5;
/// Shallow liquid puddle.
pub const STEP_SLOSH: i32 = 6;
/// Wading in liquid.
pub const STEP_WADE: i32 = 7;
/// Climbing a ladder.
pub const STEP_LADDER: i32 = 8;

/// The step sound of a texture type; types without a sound of their own
/// sound like concrete.
pub open spec fn spec_step_type(texture_type: u8) -> i32 {
    if texture_type == CHAR_TEX_METAL {
        STEP_METAL
    } else if texture_type == CHAR_TEX_DIRT {
        STEP_DIRT
    } else if texture_type == CHAR_TEX_VENT {
        STEP_VENT
    } else if texture_type == CHAR_TEX_GRATE {
        STEP_GRATE
    } else if texture_type == CHAR_TEX_TILE {
        STEP_TILE
    } else if texture_type == CHAR_TEX_SLOSH {
        STEP_SLOSH
    } else {
        STEP_CONCRETE
    }
}

/// The step sound of a texture type.
pub fn map_texture_type_step_type(texture_type: u8) -> (r: i32)
    ensures
        r == spec_step_type(texture_type),
{
    if texture_type == CHAR_TEX_METAL {
        STEP_METAL
    } else if texture_type == CHAR_TEX_DIRT {
        STEP_DIRT
    } else if texture_type == CHAR_TEX_VENT {
        STEP_VENT
    } else if texture_type == CHAR_TEX_GRATE {
        STEP_GRATE
    } else if texture_type == CHAR_TEX_TILE {
        STEP_TILE
    } else if texture_type == CHAR_TEX_SLOSH {
        STEP_SLOSH
    } else {
        STEP_CONCRETE
    }
}

/// The next step sound: the sound, its volume in hundredths (before the
/// reduction for a ducking player), and the time in milliseconds until the
/// next step sound.
#[derive(Copy, Clone, Debug, PartialEq, Eq, Structural)]
pub struct StepSound {
    pub step: i32,
    pub volume_pct: u32,
    pub time_step_sound: i32,
}

/// The step sound that `choose_step_sound` gives: on a ladder the ladder
/// sound; with the knees in water wading; with the feet in water sloshing;
/// otherwise the sound of the texture under the player. Walking is quieter
/// than running and leaves more time to the next step, and a ducking or
/// climbing player steps 100 ms later.
pub open spec fn spec_step_sound(
    ladder: bool,
    knee_in_water: bool,
    feet_in_water: bool,
    texture_type: u8,
    walking: bool,
    ducking: bool,
) -> StepSound {
    let flduck: i32 = if ducking || ladder {
        100
    } else {
        0
    };
    let (step, vol, time): (i32, u32, i32) = if ladder {
        (STEP_LADDER, 35, 350)
    } else if knee_in_water {
        (STEP_WADE, 65, 600)
    } else if feet_in_water {
        (STEP_SLOSH, if walking { 20u32 } else { 50u32 }, if walking { 400i32 } else { 300i32 })
    } else {
        let vol: u32 = if texture_type == CHAR_TEX_DIRT {
            if walking { 25u32 } else { 55u32 }
        } else if texture_type == CHAR_TEX_VENT {
            if walking { 40u32 } else { 70u32 }
        } else {
            if walking { 20u32 } else { 50u32 }
        };
        (spec_step_type(texture_type), vol, if walking { 400i32 } else { 300i32 })
    };
    StepSound { step, volume_pct: vol, time_step_sound: (time + flduck) as i32 }
}

/// Chooses the next step sound for a player (see `spec_step_sound`).
pub fn choose_step_sound(
    ladder: bool,
    knee_in_water: bool,
    feet_in_water: bool,
    texture_type: u8,
    walking: bool,
    ducking: bool,
) -> (r: StepSound)
    ensures
        r == spec_step_sound(ladder, knee_in_water, feet_in_water, texture_type, walking, ducking),
{
    let flduck: i32 = if ducking || ladder {
        100
    } else {
        0
    };
    let (step, vol, time): (i32, u32, i32) = if ladder {
        (STEP_LADDER, 35, 350)
    } else if knee_in_water {
        (STEP_WADE, 65, 600)
    } else if feet_in_water {
        (STEP_SLOSH, if walking { 20 } else { 50 }, if walking { 400 } else { 300 })
    } else {
        let vol: u32 = if texture_type == CHAR_TEX_DIRT {
            if walking { 25 } else { 55 }
        } else if texture_type == CHAR_TEX_VENT {
            if walking { 40 } else { 70 }
        } else {
            if walking { 20 } else { 50 }
        };
        (map_texture_type_step_type(texture_type), vol, if walking { 400 } else { 300 })
    };
    StepSound { step, volume_pct: vol, time_step_sound: time + flduck }
}

/// The sample that a step sound plays: `choice` is the random pick in
/// `0..=1` plus twice the foot (0 or 1); for tiles, a second roll that is
/// not 0 picks the fifth sample instead. `None` for an unknown sound.
pub open spec fn spec_step_sample(step: i32, choice: i32, tile_roll: i32) -> Option<&'static str> {
    if step == STEP_CONCRETE {
        Some(
            if choice == 0 {
                "player/pl_step1.wav"
            } else if choice == 1 {
                "player/pl_step3.wav"
            } else if choice == 2 {
                "player/pl_step2.wav"
            } else {
                "player/pl_step4.wav"
            },
        )
    } else if step == STEP_METAL {
        Some(
            if choice == 0 {
                "player/pl_metal1.wav"
            } else if choice == 1 {
                "player/pl_metal3.wav"
            } else if choice == 2 {
                "player/pl_metal2.wav"
            } else {
                "player/pl_metal4.wav"
            },
        )
    } else if step == STEP_DIRT {
        Some(
            if choice == 0 {
                "player/pl_dirt1.wav"
            } else if choice == 1 {
                "player/pl_dirt3.wav"
            } else if choice == 2 {
                "player/pl_dirt2.wav"
            } else {
                "player/pl_dirt4.wav"
            },
        )
    } else if step == STEP_VENT {
        Some(
            if choice == 0 {
                "player/pl_duct1.wav"
            } else if choice == 1 {
                "player/pl_duct3.wav"
            } else if choice == 2 {
                "player/pl_duct2.wav"
            } else {
                "player/pl_duct4.wav"
            },
        )
    } else if step == STEP_GRATE {
        Some(
            if choice == 0 {
                "player/pl_grate1.wav"
            } else if choice == 1 {
                "player/pl_grate3.wav"
            } else if choice == 2 {
                "player/pl_grate2.wav"
            } else {
                "player/pl_grate4.wav"
            },
        )
    } else if step == STEP_TILE {
        Some(
            if tile_roll != 0 {
                "player/pl_tile5.wav"
            } else if choice == 0 {
                "player/pl_tile1.wav"
            } else if choice == 1 {
                "player/pl_tile3.wav"
            } else if choice == 2 {
                "player/pl_tile2.wav"
            } else {
                "player/pl_tile4.wav"
            },
        )
    } else if step == STEP_SLOSH {
        Some(
            if choice == 0 {
                "player/pl_slosh1.wav"
            } else if choice == 1 {
                "player/pl_slosh3.wav"
            } else if choice == 2 {
                "player/pl_slosh2.wav"
            } else {
                "player/pl_slosh4.wav"
            },
        )
    } else if step == STEP_WADE {
        Some(
            if choice == 0 {
                "player/pl_wade1.wav"
            } else if choice == 1 {
                "player/pl_wade3.wav"
            } else if choice == 2 {
                "player/pl_wade2.wav"
            } else {
                "player/pl_wade4.wav"
            },
        )
    } else if step == STEP_LADDER {
        Some(
            if choice == 0 {
                "player/pl_ladder1.wav"
            } else if choice == 1 {
                "player/pl_ladder3.wav"
            } else if choice == 2 {
                "player/pl_ladder2.wav"
            } else {
                "player/pl_ladder4.wav"
            },
        )
    } else {
        None
    }
}

/// Picks the sample of a step sound (see `spec_step_sample`).
pub fn step_sample(step: i32, choice: i32, tile_roll: i32) -> (r: Option<&'static str>)
    requires
        0 <= choice <= 3,
    ensures
        r == spec_step_sample(step, choice, tile_roll),
{
    let pick4 = |a: &'static str, b: &'static str, c: &'static str, d: &'static str| -> (r: &'static str)
        ensures
            r == if choice == 0 {
                a
            } else if choice == 1 {
                b
            } else if choice == 2 {
                c
            } else {
                d
            },
        {
            if choice == 0 {
                a
            } else if choice == 1 {
                b
            } else if choice == 2 {
                c
            } else {
                d
            }
        };
    if step == STEP_CONCRETE {
        Some(pick4("player/pl_step1.wav", "player/pl_step3.wav", "player/pl_step2.wav", "player/pl_step4.wav"))
    } else if step == STEP_METAL {
        Some(pick4("player/pl_metal1.wav", "player/pl_metal3.wav", "player/pl_metal2.wav", "player/pl_metal4.wav"))
    } else if step == STEP_DIRT {
        Some(pick4("player/pl_dirt1.wav", "player/pl_dirt3.wav", "player/pl_dirt2.wav", "player/pl_dirt4.wav"))
    } else if step == STEP_VENT {
        Some(pick4("player/pl_duct1.wav", "player/pl_duct3.wav", "player/pl_duct2.wav", "player/pl_duct4.wav"))
    } else if step == STEP_GRATE {
        Some(pick4("player/pl_grate1.wav", "player/pl_grate3.wav", "player/pl_grate2.wav", "player/pl_grate4.wav"))
    } else if step == STEP_TILE {
        if tile_roll != 0 {
            Some("player/pl_tile5.wav")
        } else {
            Some(pick4("player/pl_tile1.wav", "player/pl_tile3.wav", "player/pl_tile2.wav", "player/pl_tile4.wav"))
        }
    } else if step == STEP_SLOSH {
        Some(pick4("player/pl_slosh1.wav", "player/pl_slosh3.wav", "player/pl_slosh2.wav", "player/pl_slosh4.wav"))
    } else if step == STEP_WADE {
        Some(pick4("player/pl_wade1.wav", "player/pl_wade3.wav", "player/pl_wade2.wav", "player/pl_wade4.wav"))
    } else if step == STEP_LADDER {
        Some(pick4("player/pl_ladder1.wav", "player/pl_ladder3.wav", "player/pl_ladder2.wav", "player/pl_ladder4.wav"))
    } else {
        None
    }
}

/// The wading sound skips every fourth step: a counter that goes
/// 0, 1, 2, 3 and back to 0.
pub struct WadeSkip {
    count: u8,
}

impl WadeSkip {
    /// The counter never passes 3.
    #[verifier::type_invariant]
    spec fn count_in_range(self) -> bool {
        self.count <= 3
    }

    /// The counter's value.
    pub closed spec fn spec_count(&self) -> u8 {
        self.count
    }

    /// A counter at 0.
    pub fn new() -> (r: WadeSkip)
        ensures
            r.spec_count() == 0,
    {
        WadeSkip { count: 0 }
    }

    /// Advances the counter; `true` when the wading sample plays. The
    /// step at count 0 is silent; at 3 the counter goes back to 0.
    pub fn next(&mut self) -> (r: bool)
        ensures
            r == (old(self).spec_count() != 0),
            final(self).spec_count() == if old(self).spec_count() == 3 {
                0
            } else {
                (old(self).spec_count() + 1) as u8
            },
            final(self).spec_count() <= 3,
    {
        proof {
            use_type_invariant(&*self);
        }
        let n = self.count;
        self.count = if n == 3 {
            0
        } else {
            n + 1
        };
        n != 0
    }
}

/// Of four consecutive wading steps from any count, exactly three play.
pub proof fn lemma_wade_three_of_four(c: u8)
    requires
        c <= 3,
    ensures
        ({
            let c1: u8 = if c == 3 { 0 } else { (c + 1) as u8 };
            let c2: u8 = if c1 == 3 { 0 } else { (c1 + 1) as u8 };
            let c3: u8 = if c2 == 3 { 0 } else { (c2 + 1) as u8 };
            let c4: u8 = if c3 == 3 { 0 } else { (c3 + 1) as u8 };
            &&& c4 == c
            &&& (c != 0) as int + (c1 != 0) as int + (c2 != 0) as int + (c3 != 0) as int == 3
        }),
{
}

/// Whether a step sound is played at all: only when the movement runs its
/// functions, and in multiplayer only with footsteps turned on.
pub fn step_allowed(runfuncs: i32, multiplayer: bool, footsteps: i32) -> (r: bool)
    ensures
        r == (runfuncs != 0 && (!multiplayer || footsteps != 0)),
{
    if runfuncs == 0 {
        false
    } else if multiplayer {
        footsteps != 0
    } else {
        true
    }
}

/// The foot flag of the next step: each step toggles it, to 1 after 0 and
/// to 0 after any other value.
pub fn next_step_left(step_left: i32) -> (r: i32)
    ensures
        r == if step_left == 0 {
            1i32
        } else {
            0i32
        },
{
    if step_left == 0 {
        1
    } else {
        0
    }
}

/// Whether a step sound is due this frame. None while the timer runs or
/// the player is frozen; otherwise only on a ladder or on the ground, when
/// the player moves, and either at walking speed or more, or when the
/// timer is below 0.
pub fn step_sound_due(
    time_step_sound: i32,
    frozen: bool,
    ladder: bool,
    on_ground: bool,
    moving: bool,
    at_walk_speed: bool,
) -> (r: bool)
    ensures
        r == (time_step_sound <= 0 && !frozen && (ladder || on_ground) && moving && (at_walk_speed
            || time_step_sound != 0)),
{
    if time_step_sound > 0 || frozen {
        return false;
    }
    if !(ladder || on_ground) || !moving || !(at_walk_speed || time_step_sound != 0) {
        return false;
    }
    true
}

/// The step sound timer after a frame of `msec` milliseconds: a running
/// timer counts down and stops at 0; a timer at 0 or below stays as it is.
pub fn reduce_step_sound_timer(time_step_sound: i32, msec: u8) -> (r: i32)
    ensures
        r == if time_step_sound > 0 {
            if time_step_sound - msec > 0 {
                (time_step_sound - msec) as i32
            } else {
                0i32
            }
        } else {
            time_step_sound
        },
{
    if time_step_sound > 0 {
        let new = time_step_sound - msec as i32;
        if new > 0 {
            new
        } else {
            0
        }
    } else {
        time_step_sound
    }
}

/// The splash when the player enters or leaves water: when the water level
/// goes from 0 to another or back, the wading sample `pick` (0 to 3)
/// plays; otherwise nothing.
pub fn water_transition_sample(old_water_level: i32, water_level: i32, pick: i32) -> (r: Option<&'static str>)
    requires
        0 <= pick <= 3,
    ensures
        r is Some <==> ((old_water_level == 0) != (water_level == 0)),
        r matches Some(x) ==> x == if pick == 0 {
            "player/pl_wade1.wav"
        } else if pick == 1 {
            "player/pl_wade2.wav"
        } else if pick == 2 {
            "player/pl_wade3.wav"
        } else {
            "player/pl_wade4.wav"
        },
{
    if (old_water_level == 0 && water_level != 0) || (old_water_level != 0 && water_level == 0) {
        Some(
            if pick == 0 {
                "player/pl_wade1.wav"
            } else if pick == 1 {
                "player/pl_wade2.wav"
            } else if pick == 2 {
                "player/pl_wade3.wav"
            } else {
                "player/pl_wade4.wav"
            },
        )
    } else {
        None
    }
}

/// On a dry floor, off a ladder, the footstep is the floor's own: metal
/// ('M'), dirt ('D'), vent ('V'), grate ('G'), tile ('T') and slosh ('S')
/// textures each give their step type, and any other texture concrete. A
/// walking step is quieter than a running one and comes later (400 ms
/// against 300 ms), and ducking adds 100 ms; dirt sounds at 25 or 55
/// hundredths, a vent at 40 or 70, anything else at 20 or 50. The step
/// is also the one that `map_texture_type_step_type` gives the texture.
pub proof fn lemma_dry_floor_step(texture_type: u8, walking: bool, ducking: bool)
    ensures
        ({
            let s = spec_step_sound(false, false, false, texture_type, walking, ducking);
            &&& s.step == if texture_type == 0x4d {
                1i32
            } else if texture_type == 0x44 {
                2i32
            } else if texture_type == 0x56 {
                3i32
            } else if texture_type == 0x47 {
                4i32
            } else if texture_type == 0x54 {
                5i32
            } else if texture_type == 0x53 {
                6i32
            } else {
                0i32
            }
            &&& s.step == spec_step_type(texture_type)
            &&& s.time_step_sound == (if walking {
                400int
            } else {
                300int
            }) + (if ducking {
                100int
            } else {
                0int
            })
            &&& s.volume_pct == if texture_type == 0x44 {
                if walking {
                    25u32
                } else {
                    55u32
                }
            } else if texture_type == 0x56 {
                if walking {
                    40u32
                } else {
                    70u32
                }
            } else if walking {
                20u32
            } else {
                50u32
            }
        }),
{
}

/// On a ladder the ladder step plays, at 35 hundredths, 450 ms apart;
/// off a ladder with the knees in water, wading at 65, 600 ms apart
/// (700 ducking); whatever the floor.
pub proof fn lemma_ladder_and_wading(
    knee: bool,
    feet: bool,
    texture_type: u8,
    walking: bool,
    ducking: bool,
)
    ensures
        spec_step_sound(true, knee, feet, texture_type, walking, ducking) == (StepSound {
            step: 8,
            volume_pct: 35,
            time_step_sound: 450,
        }),
        spec_step_sound(false, true, feet, texture_type, walking, ducking) == (StepSound {
            step: 7,
            volume_pct: 65,
            time_step_sound: if ducking {
                700i32
            } else {
                600i32
            },
        }),
{
}

/// Off a ladder, with only the feet in water, the slosh step plays
/// whatever the floor: at 20 hundredths walking and 50 running, 400 ms or
/// 300 ms apart, 100 ms more when ducking.
pub proof fn lemma_feet_in_water_slosh(texture_type: u8, walking: bool, ducking: bool)
    ensures
        ({
            let s = spec_step_sound(false, false, true, texture_type, walking, ducking);
            &&& s.step == 6
            &&& s.volume_pct == if walking {
                20u32
            } else {
                50u32
            }
            &&& s.time_step_sound == (if walking {
                400int
            } else {
                300int
            }) + (if ducking {
                100int
            } else {
                0int
            })
        }),
{
}

} // verus!
