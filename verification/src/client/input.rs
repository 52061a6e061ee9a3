//! Key buttons (`kbutton_t`): the engine binds `+command`/`-command` pairs
//! to a button, which remembers up to two keys holding it down and whether
//! it went down or up during the current frame.

use vstd::prelude::*;
use vstd::utf8::{decode_utf8, valid_utf8};
use crate::utils::parse::{parse_i32, spec_parse_i32, str_from_utf8};

verus! {

/// The button is held down.
pub const KEY_DOWN: i32 = 1;
/// The button went down during this frame.
pub const KEY_IMPULSE_DOWN: i32 = 2;
/// The button went up during this frame.
pub const KEY_IMPULSE_UP: i32 = 4;

/// The state of a key button: the key codes holding it down (0 for a free
/// slot; -1 for a press typed at the console) and the state bits.
pub struct KeyButton {
    pub down: [i32; 2],
    pub state: i32,
}

/// `bits` has the `DOWN` bit.
pub open spec fn spec_is_down(bits: i32) -> bool {
    bits & KEY_DOWN != 0
}

/// `bits` has the `IMPULSE_DOWN` bit.
pub open spec fn spec_is_impulse_down(bits: i32) -> bool {
    bits & KEY_IMPULSE_DOWN != 0
}

/// `bits` has the `IMPULSE_UP` bit.
pub open spec fn spec_is_impulse_up(bits: i32) -> bool {
    bits & KEY_IMPULSE_UP != 0
}

/// The fraction of the frame (in quarters) that a button with these state
/// bits counts as held: pressed during the frame and held 2, released
/// during the frame 0, held the whole frame 4, released and pressed again
/// 3, pressed and released 1, and 0 otherwise.
pub open spec fn spec_key_state_quarters(bits: i32) -> u32 {
    let d = spec_is_down(bits);
    let id = spec_is_impulse_down(bits);
    let iu = spec_is_impulse_up(bits);
    if id && iu {
        if d {
            3
        } else {
            1
        }
    } else if !id && !iu && d {
        4
    } else if id && !iu && d {
        2
    } else {
        0
    }
}

/// The key code that a `+command` or `-command` argument names: -1 when
/// there is no argument (typed at the console), the decimal number it
/// holds, or 0 when it holds anything else.
pub open spec fn spec_key_code(arg: Seq<u8>, parsed: Option<i32>) -> i32 {
    if arg.len() == 0 {
        -1i32
    } else {
        match parsed {
            Some(k) => k,
            None => 0,
        }
    }
}

/// The slots and state bits after `key_down(k)` (see `KeyButton::key_down`).
pub open spec fn spec_key_down(down: Seq<i32>, state: i32, k: i32) -> (Seq<i32>, i32) {
    if down[0] == k || down[1] == k {
        (down, state)
    } else if down[0] == 0 || down[1] == 0 {
        let slots = if down[0] == 0 {
            seq![k, down[1]]
        } else {
            seq![down[0], k]
        };
        (slots, if spec_is_down(state) {
            state
        } else {
            state | (KEY_DOWN | KEY_IMPULSE_DOWN)
        })
    } else {
        (down, state)
    }
}

/// The slots and state bits after `key_up(k)` (see `KeyButton::key_up`).
pub open spec fn spec_key_up(down: Seq<i32>, state: i32, k: Option<i32>) -> (Seq<i32>, i32) {
    match k {
        None => (seq![0i32, 0i32], state | KEY_IMPULSE_UP),
        Some(k) => if down[0] == k || down[1] == k {
            let slots = if down[0] == k {
                seq![0i32, down[1]]
            } else {
                seq![down[0], 0i32]
            };
            (slots, if spec_is_down(state) && slots[0] == 0 && slots[1] == 0 {
                (state & !KEY_DOWN) | KEY_IMPULSE_UP
            } else {
                state
            })
        } else {
            (down, state)
        },
    }
}

impl KeyButton {
    /// A button that is up, with no key holding it.
    pub fn new() -> (r: KeyButton)
        ensures
            r.down@ == seq![0i32, 0i32],
            r.state == 0,
    {
        let r = KeyButton { down: [0, 0], state: 0 };
        assert(r.down@ =~= seq![0i32, 0i32]);
        r
    }

    /// The state bits.
    pub fn state(&self) -> (r: i32)
        ensures
            r == self.state,
    {
        self.state
    }

    /// Replaces the state bits.
    pub fn set_state(&mut self, state: i32)
        ensures
            final(self).state == state,
            final(self).down == old(self).down,
    {
        self.state = state;
    }

    /// The button is held down.
    pub fn is_down(&self) -> (r: bool)
        ensures
            r == spec_is_down(self.state),
    {
        self.state & KEY_DOWN != 0
    }

    /// The button is not held down.
    pub fn is_up(&self) -> (r: bool)
        ensures
            r == !spec_is_down(self.state),
    {
        !self.is_down()
    }

    /// The button went down during this frame.
    pub fn is_impulse_down(&self) -> (r: bool)
        ensures
            r == spec_is_impulse_down(self.state),
    {
        self.state & KEY_IMPULSE_DOWN != 0
    }

    /// The button went up during this frame.
    pub fn is_impulse_up(&self) -> (r: bool)
        ensures
            r == spec_is_impulse_up(self.state),
    {
        self.state & KEY_IMPULSE_UP != 0
    }

    /// Forgets the keys holding the button; the state bits stay.
    pub fn clear(&mut self)
        ensures
            final(self).down@ == seq![0i32, 0i32],
            final(self).state == old(self).state,
    {
        self.down[0] = 0;
        self.down[1] = 0;
        assert(self.down@ =~= seq![0i32, 0i32]);
    }

    /// `+command`: key `k` presses the button. A key already holding it, or
    /// a press when both slots are taken, changes nothing. Otherwise `k`
    /// takes the first free slot, and a button that was up goes down with
    /// an impulse down.
    pub fn key_down(&mut self, k: i32)
        ensures
            (final(self).down@, final(self).state) == spec_key_down(old(self).down@, old(self).state, k),
    {
        if self.down[0] == k || self.down[1] == k {
            assert(self.down@[0] == k || self.down@[1] == k);
            return ;
        }
        assert(!self.down@.contains(k)) by {
            if self.down@.contains(k) {
                let i = choose|i: int| 0 <= i < 2 && self.down@[i] == k;
            }
        }
        let slot: usize = if self.down[0] == 0 {
            0
        } else if self.down[1] == 0 {
            1
        } else {
            assert(self.down@ =~= old(self).down@);
            return ;
        };
        self.down[slot] = k;
        if !self.is_down() {
            self.state = self.state | (KEY_DOWN | KEY_IMPULSE_DOWN);
        }
        assert(self.down@ =~= seq![self.down[0], self.down[1]]);
    }

    /// `-command`: with a key code, the first slot holding that key is
    /// freed, and a held button whose slots are now all free goes up with
    /// an impulse up. Without one (typed at the console) all slots are
    /// freed and an impulse up is added.
    pub fn key_up(&mut self, k: Option<i32>)
        ensures
            (final(self).down@, final(self).state) == spec_key_up(old(self).down@, old(self).state, k),
    {
        match k {
            Some(k) => {
                let slot: usize = if self.down[0] == k {
                    0
                } else if self.down[1] == k {
                    1
                } else {
                    assert(self.down@ =~= old(self).down@);
                    return ;
                };
                self.down[slot] = 0;
                if self.is_down() && self.down[0] == 0 && self.down[1] == 0 {
                    self.state = (self.state & !KEY_DOWN) | KEY_IMPULSE_UP;
                }
                assert(self.down@ =~= seq![self.down[0], self.down[1]]);
            },
            None => {
                self.clear();
                self.state = self.state | KEY_IMPULSE_UP;
            },
        }
    }

    /// How much of this frame the button counted as held, in quarters (see
    /// `spec_key_state_quarters`), and clears the impulse bits.
    pub fn key_state(&mut self) -> (r: u32)
        ensures
            r == spec_key_state_quarters(old(self).state),
            final(self).state == old(self).state & KEY_DOWN,
            final(self).down == old(self).down,
    {
        let mut val: u32 = 0;
        let impulsedown = self.is_impulse_down();
        let impulseup = self.is_impulse_up();
        let down = self.is_down();
        if impulsedown && !impulseup && down {
            // pressed and held this frame
            val = 2;
        }
        if impulseup && !impulsedown && down {
            // released this frame
            val = 0;
        }
        if !impulsedown && !impulseup && down {
            // held the entire frame
            val = 4;
        }
        if impulsedown && impulseup {
            if down {
                // released and re-pressed this frame
                val = 3;
            } else {
                // pressed and released this frame
                val = 1;
            }
        }
        self.state = self.state & KEY_DOWN;
        val
    }
}

/// The key of a `-command` argument: `None` when there is no argument
/// (typed at the console), otherwise the key code it names (see
/// `key_code`).
pub fn key_up_arg(arg: &[u8]) -> (r: Option<i32>)
    ensures
        arg@.len() == 0 ==> r is None,
        arg@.len() > 0 ==> r == Some(
            spec_key_code(
                arg@,
                if valid_utf8(arg@) {
                    spec_parse_i32(decode_utf8(arg@))
                } else {
                    None
                },
            ),
        ),
{
    if arg.len() == 0 {
        None
    } else {
        Some(key_code(arg))
    }
}

/// The key code of a `+command`/`-command` argument (see `spec_key_code`).
pub fn key_code(arg: &[u8]) -> (r: i32)
    ensures
        r == spec_key_code(
            arg@,
            if valid_utf8(arg@) {
                spec_parse_i32(decode_utf8(arg@))
            } else {
                None
            },
        ),
{
    if arg.len() == 0 {
        return -1;
    }
    match str_from_utf8(arg) {
        Some(s) => match parse_i32(s) {
            Some(k) => k,
            None => 0,
        },
        None => 0,
    }
}

/// A key pressed on a button that is up, with a free slot, holds the
/// button down; the frame counts as half held (2 quarters).
pub proof fn lemma_press_holds(down: Seq<i32>, state: i32, k: i32)
    requires
        down.len() == 2,
        down[0] != k && down[1] != k,
        down[0] == 0 || down[1] == 0,
        state == 0,
    ensures
        spec_is_down(spec_key_down(down, state, k).1),
        spec_key_down(down, state, k).0.contains(k),
        spec_key_state_quarters(spec_key_down(down, state, k).1) == 2,
{
    assert(0i32 & 1i32 == 0) by (bit_vector);
    let s2 = spec_key_down(down, state, k).1;
    assert(s2 == 3i32) by (bit_vector)
        requires
            s2 == state | (1i32 | 2i32),
            state == 0i32,
    ;
    assert(3i32 & 1i32 != 0 && 3i32 & 2i32 != 0 && 3i32 & 4i32 == 0) by (bit_vector);
    let slots = spec_key_down(down, state, k).0;
    if down[0] == 0 {
        assert(slots[0] == k);
    } else {
        assert(slots[1] == k);
    }
}

/// A key pressed and released again within one frame, on a button that
/// was up and free, leaves it up, and the frame counts as a quarter held.
pub proof fn lemma_tap_counts_a_quarter(k: i32)
    requires
        k != 0,
    ensures
        ({
            let (d1, s1) = spec_key_down(seq![0i32, 0i32], 0, k);
            let (d2, s2) = spec_key_up(d1, s1, Some(k));
            &&& d2 == seq![0i32, 0i32]
            &&& !spec_is_down(s2)
            &&& spec_key_state_quarters(s2) == 1
        }),
{
    assert(0i32 & 1i32 == 0) by (bit_vector);
    let (d1, s1) = spec_key_down(seq![0i32, 0i32], 0, k);
    assert(d1 =~= seq![k, 0i32]);
    assert(s1 == 3i32) by (bit_vector)
        requires
            s1 == 0i32 | (1i32 | 2i32),
    ;
    let (d2, s2) = spec_key_up(d1, s1, Some(k));
    assert(d2 =~= seq![0i32, 0i32]);
    assert(3i32 & 1i32 != 0) by (bit_vector);
    assert(s2 == 6i32) by (bit_vector)
        requires
            s2 == (3i32 & !1i32) | 4i32,
    ;
    assert(6i32 & 1i32 == 0 && 6i32 & 2i32 != 0 && 6i32 & 4i32 != 0) by (bit_vector);
}

/// While two keys hold a button, releasing one keeps it down; releasing
/// the other then lets it go up.
pub proof fn lemma_two_keys_hold(a: i32, b: i32, state: i32)
    requires
        a != 0,
        b != 0,
        a != b,
        spec_is_down(state),
    ensures
        ({
            let (d1, s1) = spec_key_up(seq![a, b], state, Some(a));
            let (d2, s2) = spec_key_up(d1, s1, Some(b));
            &&& spec_is_down(s1)
            &&& d2 == seq![0i32, 0i32]
            &&& !spec_is_down(s2)
            &&& spec_is_impulse_up(s2)
        }),
{
    let (d1, s1) = spec_key_up(seq![a, b], state, Some(a));
    assert(d1 =~= seq![0i32, b]);
    let (d2, s2) = spec_key_up(d1, s1, Some(b));
    assert(d2 =~= seq![0i32, 0i32]);
    assert(((s1 & !1i32) | 4i32) & 1i32 == 0 && ((s1 & !1i32) | 4i32) & 4i32 != 0) by (bit_vector);
}

/// `key_state` clears the impulses, so asking again in the same state
/// gives a full frame for a held button and nothing for a released one.
pub proof fn lemma_key_state_settles(bits: i32)
    ensures
        spec_key_state_quarters(bits & KEY_DOWN) == if spec_is_down(bits) {
            4u32
        } else {
            0u32
        },
        (bits & KEY_DOWN) & KEY_DOWN == bits & KEY_DOWN,
{
    assert((bits & 1i32) & 2i32 == 0 && (bits & 1i32) & 4i32 == 0) by (bit_vector);
    assert(((bits & 1i32) & 1i32 != 0) == (bits & 1i32 != 0)) by (bit_vector);
    assert((bits & 1i32) & 1i32 == bits & 1i32) by (bit_vector);
}

/// A `-command` typed at the console (without key) frees every slot and
/// marks the button released for the frame.
pub proof fn lemma_console_release_unsticks(down: Seq<i32>, state: i32)
    ensures
        spec_key_up(down, state, None).0 == seq![0i32, 0i32],
        spec_is_impulse_up(spec_key_up(down, state, None).1),
{
    assert((state | 4i32) & 4i32 != 0) by (bit_vector);
}

/// Pressing a key on a button that is already down changes none of its
/// state bits, whatever the slots hold: a second key on a held button is
/// no new press.
pub proof fn lemma_press_on_held_keeps_state(down: Seq<i32>, state: i32, k: i32)
    requires
        down.len() == 2,
        state & KEY_DOWN != 0,
    ensures
        spec_key_down(down, state, k).1 == state,
{
}

/// Pressing a new key on a button that is up, with a free slot, sets the
/// `DOWN` and `IMPULSE_DOWN` bits and keeps every other bit.
pub proof fn lemma_press_on_up_sets_down(down: Seq<i32>, state: i32, k: i32)
    requires
        down.len() == 2,
        state & KEY_DOWN == 0,
        down[0] != k && down[1] != k,
        down[0] == 0 || down[1] == 0,
    ensures
        spec_key_down(down, state, k).1 & KEY_DOWN != 0,
        spec_key_down(down, state, k).1 & KEY_IMPULSE_DOWN != 0,
        spec_key_down(down, state, k).1 & !(KEY_DOWN | KEY_IMPULSE_DOWN) == state & !(KEY_DOWN
            | KEY_IMPULSE_DOWN),
{
    let s2 = spec_key_down(down, state, k).1;
    assert(s2 == state | (1i32 | 2i32));
    assert(s2 & 1i32 != 0 && s2 & 2i32 != 0 && s2 & !(1i32 | 2i32) == state & !(1i32 | 2i32))
        by (bit_vector)
        requires
            s2 == state | (1i32 | 2i32),
    ;
}

/// A button held through a frame and asked for its state counts that frame
/// in full; a second key pressed on it next frame leaves it held the whole
/// of that frame too (4 quarters), not freshly pressed.
pub proof fn lemma_second_key_on_held_button(down: Seq<i32>, state: i32, k: i32)
    requires
        down.len() == 2,
        state & KEY_DOWN != 0,
    ensures
        ({
            let settled = state & KEY_DOWN;
            let after = spec_key_down(down, settled, k).1;
            spec_key_state_quarters(after) == 4
        }),
{
    let settled = state & KEY_DOWN;
    assert(settled == 1i32) by (bit_vector)
        requires
            settled == state & 1i32,
            state & 1i32 != 0,
    ;
    assert(1i32 & 1i32 != 0 && 1i32 & 2i32 == 0 && 1i32 & 4i32 == 0) by (bit_vector);
}

} // verus!
