//! Verified core logic of the xash3d engine bindings: the client input
//! buttons, the player-move material table, step sounds, stuck table and
//! touch list, sprite lookup, screen metrics, render helpers, C string
//! buffers, the console logger's lines, the allocators' choice of C
//! function, single-threaded cells, the attributes of the save/restore
//! derive and the bit-level float helpers.

pub mod math;
pub mod utils;
pub mod player_move;
pub mod client;
pub mod render;
pub mod allocator;
pub mod cell;
pub mod save_restore;
