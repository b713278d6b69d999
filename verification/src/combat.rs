//! Combat rules: the nuke and the projectiles' bounces.
use vstd::prelude::*;

verus! {

/// How many tail segments a nuke costs.
pub const NUKE_COST: usize = 10;

/// How many times a projectile may bounce off the arena walls.
pub const PROJECTILE_BOUNCES: u8 = 1;

/// Whether a tail of `tail_len` segments can pay for a nuke.
pub fn nuke_ready(tail_len: usize) -> (b: bool)
    ensures
        b == (tail_len >= NUKE_COST),
{
    tail_len >= NUKE_COST
}

/// What becomes of a projectile with `bounces_left` bounces that hits a wall:
/// the bounces it has left afterwards, or `None` when it is spent and vanishes.
pub fn after_wall_hit(bounces_left: u8) -> (r: Option<u8>)
    ensures
        bounces_left == 0 ==> r == None::<u8>,
        bounces_left > 0 ==> r == Some((bounces_left - 1) as u8),
{
    if bounces_left == 0 {
        None
    } else {
        Some(bounces_left - 1)
    }
}

} // verus!
