//! The table of small moves that the movement code tries, one after the
//! other, when a player is stuck in solid geometry, and the cycle through
//! it. Each player keeps one position in the table for the client side and
//! one for the server side. The moves are held in eighths of a unit, so
//! that every one of them is a whole number.

use vstd::prelude::*;

verus! {

/// The number of offsets in the stuck table.
pub const STUCK_TABLE_LEN: i32 = 54;

/// The number of players.
pub const MAX_CLIENTS: usize = 32;

/// One move of the stuck table, in eighths of a unit on each axis.
#[derive(Copy, Clone, Debug, PartialEq, Eq, Structural)]
pub struct StuckOffset {
    pub x: i32,
    pub y: i32,
    pub z: i32,
}

pub open spec fn offset(x: i32, y: i32, z: i32) -> StuckOffset {
    StuckOffset { x, y, z }
}

/// The small steps -0.125, 0 and 0.125, for `j` from 0 to 2.
pub open spec fn fine_step(j: int) -> i32 {
    (j - 1) as i32
}

/// The corner steps -0.125 and 0.125, for `j` 0 and 1.
pub open spec fn corner_step(j: int) -> i32 {
    if j == 0 {
        -1i32
    } else {
        1i32
    }
}

/// The lifts 0, 1 and 6, for `j` from 0 to 2.
pub open spec fn lift_step(j: int) -> i32 {
    if j == 0 {
        0
    } else if j == 1 {
        8
    } else {
        48
    }
}

/// The large steps -2, 0 and 2, for `j` from 0 to 2.
pub open spec fn coarse_step(j: int) -> i32 {
    (16 * (j - 1)) as i32
}

/// Entry `k` of the stuck table: first the small steps along z, y and x;
/// then the eight small diagonal corners (x slowest, z fastest); then the
/// lifts along z and the large steps along y and x; then every lift
/// combined with every large step in x and y (lift slowest, y fastest);
/// the last entry stays at no move at all.
pub open spec fn spec_stuck_offset(k: int) -> StuckOffset {
    if k < 3 {
        offset(0, 0, fine_step(k))
    } else if k < 6 {
        offset(0, fine_step(k - 3), 0)
    } else if k < 9 {
        offset(fine_step(k - 6), 0, 0)
    } else if k < 17 {
        let j = k - 9;
        offset(corner_step(j / 4), corner_step((j / 2) % 2), corner_step(j % 2))
    } else if k < 20 {
        offset(0, 0, lift_step(k - 17))
    } else if k < 23 {
        offset(0, coarse_step(k - 20), 0)
    } else if k < 26 {
        offset(coarse_step(k - 23), 0, 0)
    } else if k < 53 {
        let j = k - 26;
        offset(coarse_step((j / 3) % 3), coarse_step(j % 3), lift_step(j / 9))
    } else {
        offset(0, 0, 0)
    }
}

fn fine(j: usize) -> (r: i32)
    requires
        j < 3,
    ensures
        r == fine_step(j as int),
{
    j as i32 - 1
}

fn corner(j: usize) -> (r: i32)
    requires
        j < 2,
    ensures
        r == corner_step(j as int),
{
    if j == 0 {
        -1
    } else {
        1
    }
}

fn lift(j: usize) -> (r: i32)
    requires
        j < 3,
    ensures
        r == lift_step(j as int),
{
    if j == 0 {
        0
    } else if j == 1 {
        8
    } else {
        48
    }
}

fn coarse(j: usize) -> (r: i32)
    requires
        j < 3,
    ensures
        r == coarse_step(j as int),
{
    16 * (j as i32 - 1)
}

/// Entry `k` of the stuck table (see `spec_stuck_offset`).
pub fn stuck_offset(k: usize) -> (r: StuckOffset)
    requires
        k < STUCK_TABLE_LEN,
    ensures
        r == spec_stuck_offset(k as int),
{
    if k < 3 {
        StuckOffset { x: 0, y: 0, z: fine(k) }
    } else if k < 6 {
        StuckOffset { x: 0, y: fine(k - 3), z: 0 }
    } else if k < 9 {
        StuckOffset { x: fine(k - 6), y: 0, z: 0 }
    } else if k < 17 {
        let j = k - 9;
        StuckOffset { x: corner(j / 4), y: corner((j / 2) % 2), z: corner(j % 2) }
    } else if k < 20 {
        StuckOffset { x: 0, y: 0, z: lift(k - 17) }
    } else if k < 23 {
        StuckOffset { x: 0, y: coarse(k - 20), z: 0 }
    } else if k < 26 {
        StuckOffset { x: coarse(k - 23), y: 0, z: 0 }
    } else if k < 53 {
        let j = k - 26;
        StuckOffset { x: coarse((j / 3) % 3), y: coarse(j % 3), z: lift(j / 9) }
    } else {
        StuckOffset { x: 0, y: 0, z: 0 }
    }
}

/// The whole stuck table, in order.
pub fn create_stuck_table() -> (r: Vec<StuckOffset>)
    ensures
        r@.len() == STUCK_TABLE_LEN,
        forall|k: int| 0 <= k < STUCK_TABLE_LEN ==> #[trigger] r@[k] == spec_stuck_offset(k),
{
    let mut table: Vec<StuckOffset> = Vec::new();
    let mut k: usize = 0;
    while k < 54
        invariant
            k <= 54,
            table@.len() == k,
            forall|i: int| 0 <= i < k ==> #[trigger] table@[i] == spec_stuck_offset(i),
        decreases 54 - k,
    {
        table.push(stuck_offset(k));
        k += 1;
    }
    table
}

/// The stuck table and the position in it of each player, on each side.
pub struct StuckOffsets {
    last: Vec<i32>,
    table: Vec<StuckOffset>,
}

/// The slot of a player's counter for one side.
pub open spec fn slot(player_index: int, server: bool) -> int {
    player_index * 2 + if server {
        1int
    } else {
        0int
    }
}

impl StuckOffsets {
    /// Every player has both counters, each is a position in the table,
    /// and the table is the stuck table.
    #[verifier::type_invariant]
    spec fn wf(&self) -> bool {
        &&& self.last@.len() == 2 * MAX_CLIENTS
        &&& forall|i: int| 0 <= i < self.last@.len() ==> 0 <= #[trigger] self.last@[i] < STUCK_TABLE_LEN
        &&& self.table@.len() == STUCK_TABLE_LEN
        &&& forall|k: int| 0 <= k < STUCK_TABLE_LEN ==> #[trigger] self.table@[k] == spec_stuck_offset(k)
    }

    /// The counters, two per player: client side first, then server side.
    pub closed spec fn counters(&self) -> Seq<i32> {
        self.last@
    }

    /// The counter of `player_index` on one side.
    pub open spec fn counter(&self, player_index: int, server: bool) -> i32 {
        self.counters()[slot(player_index, server)]
    }

    /// The stuck table, with all players at its start.
    pub fn new() -> (r: StuckOffsets)
        ensures
            r.counters().len() == 2 * MAX_CLIENTS,
            forall|i: int| 0 <= i < r.counters().len() ==> #[trigger] r.counters()[i] == 0,
    {
        let mut last: Vec<i32> = Vec::new();
        let mut i: usize = 0;
        while i < 2 * MAX_CLIENTS
            invariant
                i <= 2 * MAX_CLIENTS,
                last@.len() == i,
                forall|j: int| 0 <= j < i ==> #[trigger] last@[j] == 0,
            decreases 2 * MAX_CLIENTS - i,
        {
            last.push(0);
            i += 1;
        }
        StuckOffsets { last, table: create_stuck_table() }
    }

    /// Puts a player back at the start of the table on one side.
    pub fn reset_stuck_offsets(&mut self, player_index: usize, server: bool)
        requires
            player_index < MAX_CLIENTS,
        ensures
            final(self).counters() == old(self).counters().update(slot(player_index as int, server), 0),
    {
        proof {
            use_type_invariant(&*self);
        }
        let s: usize = player_index * 2 + if server {
            1
        } else {
            0
        };
        let mut last = self.last.clone();
        last.set(s, 0);
        self.last = last;
    }

    /// The next offset to try for a player on one side, with its position
    /// in the table; the player then moves to the following position, and
    /// from the last back to the first.
    pub fn get_random_stuck_offsets(&mut self, player_index: usize, server: bool) -> (r: (
        i32,
        StuckOffset,
    ))
        requires
            player_index < MAX_CLIENTS,
        ensures
            r.0 == old(self).counter(player_index as int, server),
            0 <= r.0 < STUCK_TABLE_LEN,
            r.1 == spec_stuck_offset(r.0 as int),
            final(self).counters() == old(self).counters().update(
                slot(player_index as int, server),
                ((r.0 + 1) % (STUCK_TABLE_LEN as int)) as i32,
            ),
    {
        proof {
            use_type_invariant(&*self);
        }
        let s: usize = player_index * 2 + if server {
            1
        } else {
            0
        };
        let index = self.last[s];
        let off = self.table[index as usize];
        let mut last = self.last.clone();
        last.set(s, (index + 1) % STUCK_TABLE_LEN);
        self.last = last;
        (index, off)
    }
}

/// The position that `n` calls of `get_random_stuck_offsets` reach from
/// the start of the table, one call after the other.
pub open spec fn position_after(n: nat) -> int
    decreases n,
{
    if n == 0 {
        0
    } else {
        (position_after((n - 1) as nat) + 1) % (STUCK_TABLE_LEN as int)
    }
}

/// After a reset, the calls go through the whole table in order and start
/// over: the `n`-th call after a reset gives position `n` modulo the
/// length of the table.
pub proof fn lemma_cycle_from_reset(n: nat)
    ensures
        position_after(n) == (n as int) % (STUCK_TABLE_LEN as int),
    decreases n,
{
    if n > 0 {
        lemma_cycle_from_reset((n - 1) as nat);
        let m: int = n as int;
        assert(((m - 1) % 54 + 1) % 54 == m % 54) by (nonlinear_arith)
            requires
                m > 0,
        ;
    }
}

} // verus!
