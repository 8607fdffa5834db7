//! The gravity table: how long, in milliseconds, the driver waits
//! between automatic down-steps, keyed by how many rows the game has
//! cleared. The values follow the classic NES pacing, falling from
//! 800 ms to a floor of 20 ms.

use vstd::prelude::*;

use crate::game::Game;

verus! {

/// The gravity interval in milliseconds for a given cleared-row count:
/// monotonically falling steps from 800 ms down to 20 ms.
pub open spec fn duration_millis(rows: nat) -> nat {
    if rows < 10 {
        800
    } else if rows < 20 {
        720
    } else if rows < 30 {
        630
    } else if rows < 40 {
        550
    } else if rows < 50 {
        470
    } else if rows < 60 {
        380
    } else if rows < 70 {
        300
    } else if rows < 80 {
        220
    } else if rows < 90 {
        130
    } else if rows < 100 {
        100
    } else if rows < 130 {
        80
    } else if rows < 160 {
        70
    } else if rows < 190 {
        50
    } else if rows < 290 {
        30
    } else {
        20
    }
}

/// How many milliseconds pass before the next automatic down-step of
/// this game, by the fixed gravity table.
pub fn duration_for_level(game: &Game) -> (r: u64)
    ensures
        r == duration_millis(game@.rows),
{
    if game.rows < 10 {
        800
    } else if game.rows < 20 {
        720
    } else if game.rows < 30 {
        630
    } else if game.rows < 40 {
        550
    } else if game.rows < 50 {
        470
    } else if game.rows < 60 {
        380
    } else if game.rows < 70 {
        300
    } else if game.rows < 80 {
        220
    } else if game.rows < 90 {
        130
    } else if game.rows < 100 {
        100
    } else if game.rows < 130 {
        80
    } else if game.rows < 160 {
        70
    } else if game.rows < 190 {
        50
    } else if game.rows < 290 {
        30
    } else {
        20
    }
}

} // verus!
