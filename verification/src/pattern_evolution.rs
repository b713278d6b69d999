//! How the seed patterns evolve under rule B3/S23 in an arena that holds
//! them: the glider and the lightweight spaceship travel, the blinker, toad,
//! beacon and pulsar oscillate, and the R-pentomino keeps changing.
use crate::cells::Cell;
use crate::gol_grid::{lives_next, next_generation};
use crate::level_config::{spec_beacon, spec_blinker, spec_glider, spec_lwss, spec_pulsar, spec_r_pentomino, spec_toad};
use vstd::prelude::*;

verus! {

/// `s` after `n` generations in the arena `bounds`.
pub open spec fn generations(s: Set<Cell>, n: nat, bounds: (i32, i32)) -> Set<Cell>
    decreases n,
{
    if n == 0 {
        s
    } else {
        next_generation(generations(s, (n - 1) as nat, bounds), bounds)
    }
}

/// The glider after each of its first 4 generations (0 being the pattern itself).
spec fn glider_phase(k: int) -> Set<Cell> {
    if k == 0 {
        set![(0i32, 0i32), (1i32, 0i32), (1i32, 2i32), (2i32, 0i32), (2i32, 1i32)]
    } else if k == 1 {
        set![(0i32, 1i32), (1i32, -1i32), (1i32, 0i32), (2i32, 0i32), (2i32, 1i32)]
    } else if k == 2 {
        set![(0i32, 0i32), (1i32, -1i32), (2i32, -1i32), (2i32, 0i32), (2i32, 1i32)]
    } else if k == 3 {
        set![(1i32, -1i32), (1i32, 1i32), (2i32, -1i32), (2i32, 0i32), (3i32, 0i32)]
    } else {
        set![(1i32, -1i32), (2i32, -1i32), (2i32, 1i32), (3i32, -1i32), (3i32, 0i32)]
    }
}

/// Generation 1 of the glider.
#[verifier::rlimit(100)]
proof fn lemma_glider_step_0(b: (i32, i32))
    requires
        b.0 >= 4,
        b.1 >= 3,
    ensures
        next_generation(glider_phase(0), b) == glider_phase(1),
{
    let s = glider_phase(0);
    let t = glider_phase(1);
    assert(lives_next(s, (-1i32, -2i32), b) == t.contains((-1i32, -2i32)));
    assert(lives_next(s, (-1i32, -1i32), b) == t.contains((-1i32, -1i32)));
    assert(lives_next(s, (-1i32, 0i32), b) == t.contains((-1i32, 0i32)));
    assert(lives_next(s, (-1i32, 1i32), b) == t.contains((-1i32, 1i32)));
    assert(lives_next(s, (-1i32, 2i32), b) == t.contains((-1i32, 2i32)));
    assert(lives_next(s, (-1i32, 3i32), b) == t.contains((-1i32, 3i32)));
    assert(lives_next(s, (0i32, -2i32), b) == t.contains((0i32, -2i32)));
    assert(lives_next(s, (0i32, -1i32), b) == t.contains((0i32, -1i32)));
    assert(lives_next(s, (0i32, 0i32), b) == t.contains((0i32, 0i32)));
    assert(lives_next(s, (0i32, 1i32), b) == t.contains((0i32, 1i32)));
    assert(lives_next(s, (0i32, 2i32), b) == t.contains((0i32, 2i32)));
    assert(lives_next(s, (0i32, 3i32), b) == t.contains((0i32, 3i32)));
    assert(lives_next(s, (1i32, -2i32), b) == t.contains((1i32, -2i32)));
    assert(lives_next(s, (1i32, -1i32), b) == t.contains((1i32, -1i32)));
    assert(lives_next(s, (1i32, 0i32), b) == t.contains((1i32, 0i32)));
    assert(lives_next(s, (1i32, 1i32), b) == t.contains((1i32, 1i32)));
    assert(lives_next(s, (1i32, 2i32), b) == t.contains((1i32, 2i32)));
    assert(lives_next(s, (1i32, 3i32), b) == t.contains((1i32, 3i32)));
    assert(lives_next(s, (2i32, -2i32), b) == t.contains((2i32, -2i32)));
    assert(lives_next(s, (2i32, -1i32), b) == t.contains((2i32, -1i32)));
    assert(lives_next(s, (2i32, 0i32), b) == t.contains((2i32, 0i32)));
    assert(lives_next(s, (2i32, 1i32), b) == t.contains((2i32, 1i32)));
    assert(lives_next(s, (2i32, 2i32), b) == t.contains((2i32, 2i32)));
    assert(lives_next(s, (2i32, 3i32), b) == t.contains((2i32, 3i32)));
    assert(lives_next(s, (3i32, -2i32), b) == t.contains((3i32, -2i32)));
    assert(lives_next(s, (3i32, -1i32), b) == t.contains((3i32, -1i32)));
    assert(lives_next(s, (3i32, 0i32), b) == t.contains((3i32, 0i32)));
    assert(lives_next(s, (3i32, 1i32), b) == t.contains((3i32, 1i32)));
    assert(lives_next(s, (3i32, 2i32), b) == t.contains((3i32, 2i32)));
    assert(lives_next(s, (3i32, 3i32), b) == t.contains((3i32, 3i32)));
    assert(lives_next(s, (4i32, -2i32), b) == t.contains((4i32, -2i32)));
    assert(lives_next(s, (4i32, -1i32), b) == t.contains((4i32, -1i32)));
    assert(lives_next(s, (4i32, 0i32), b) == t.contains((4i32, 0i32)));
    assert(lives_next(s, (4i32, 1i32), b) == t.contains((4i32, 1i32)));
    assert(lives_next(s, (4i32, 2i32), b) == t.contains((4i32, 2i32)));
    assert(lives_next(s, (4i32, 3i32), b) == t.contains((4i32, 3i32)));
    assert forall|c: Cell| lives_next(s, c, b) <==> #[trigger] t.contains(c) by {
        if !(-1 <= c.0 <= 4 && -2 <= c.1 <= 3) {
            assert(!t.contains(c));
        }
    }
    assert(next_generation(s, b) =~= t);
}

/// Generation 2 of the glider.
#[verifier::rlimit(100)]
proof fn lemma_glider_step_1(b: (i32, i32))
    requires
        b.0 >= 4,
        b.1 >= 3,
    ensures
        next_generation(glider_phase(1), b) == glider_phase(2),
{
    let s = glider_phase(1);
    let t = glider_phase(2);
    assert(lives_next(s, (-1i32, -2i32), b) == t.contains((-1i32, -2i32)));
    assert(lives_next(s, (-1i32, -1i32), b) == t.contains((-1i32, -1i32)));
    assert(lives_next(s, (-1i32, 0i32), b) == t.contains((-1i32, 0i32)));
    assert(lives_next(s, (-1i32, 1i32), b) == t.contains((-1i32, 1i32)));
    assert(lives_next(s, (-1i32, 2i32), b) == t.contains((-1i32, 2i32)));
    assert(lives_next(s, (-1i32, 3i32), b) == t.contains((-1i32, 3i32)));
    assert(lives_next(s, (0i32, -2i32), b) == t.contains((0i32, -2i32)));
    assert(lives_next(s, (0i32, -1i32), b) == t.contains((0i32, -1i32)));
    assert(lives_next(s, (0i32, 0i32), b) == t.contains((0i32, 0i32)));
    assert(lives_next(s, (0i32, 1i32), b) == t.contains((0i32, 1i32)));
    assert(lives_next(s, (0i32, 2i32), b) == t.contains((0i32, 2i32)));
    assert(lives_next(s, (0i32, 3i32), b) == t.contains((0i32, 3i32)));
    assert(lives_next(s, (1i32, -2i32), b) == t.contains((1i32, -2i32)));
    assert(lives_next(s, (1i32, -1i32), b) == t.contains((1i32, -1i32)));
    assert(lives_next(s, (1i32, 0i32), b) == t.contains((1i32, 0i32)));
    assert(lives_next(s, (1i32, 1i32), b) == t.contains((1i32, 1i32)));
    assert(lives_next(s, (1i32, 2i32), b) == t.contains((1i32, 2i32)));
    assert(lives_next(s, (1i32, 3i32), b) == t.contains((1i32, 3i32)));
    assert(lives_next(s, (2i32, -2i32), b) == t.contains((2i32, -2i32)));
    assert(lives_next(s, (2i32, -1i32), b) == t.contains((2i32, -1i32)));
    assert(lives_next(s, (2i32, 0i32), b) == t.contains((2i32, 0i32)));
    assert(lives_next(s, (2i32, 1i32), b) == t.contains((2i32, 1i32)));
    assert(lives_next(s, (2i32, 2i32), b) == t.contains((2i32, 2i32)));
    assert(lives_next(s, (2i32, 3i32), b) == t.contains((2i32, 3i32)));
    assert(lives_next(s, (3i32, -2i32), b) == t.contains((3i32, -2i32)));
    assert(lives_next(s, (3i32, -1i32), b) == t.contains((3i32, -1i32)));
    assert(lives_next(s, (3i32, 0i32), b) == t.contains((3i32, 0i32)));
    assert(lives_next(s, (3i32, 1i32), b) == t.contains((3i32, 1i32)));
    assert(lives_next(s, (3i32, 2i32), b) == t.contains((3i32, 2i32)));
    assert(lives_next(s, (3i32, 3i32), b) == t.contains((3i32, 3i32)));
    assert(lives_next(s, (4i32, -2i32), b) == t.contains((4i32, -2i32)));
    assert(lives_next(s, (4i32, -1i32), b) == t.contains((4i32, -1i32)));
    assert(lives_next(s, (4i32, 0i32), b) == t.contains((4i32, 0i32)));
    assert(lives_next(s, (4i32, 1i32), b) == t.contains((4i32, 1i32)));
    assert(lives_next(s, (4i32, 2i32), b) == t.contains((4i32, 2i32)));
    assert(lives_next(s, (4i32, 3i32), b) == t.contains((4i32, 3i32)));
    assert forall|c: Cell| lives_next(s, c, b) <==> #[trigger] t.contains(c) by {
        if !(-1 <= c.0 <= 4 && -2 <= c.1 <= 3) {
            assert(!t.contains(c));
        }
    }
    assert(next_generation(s, b) =~= t);
}

/// Generation 3 of the glider.
#[verifier::rlimit(100)]
proof fn lemma_glider_step_2(b: (i32, i32))
    requires
        b.0 >= 4,
        b.1 >= 3,
    ensures
        next_generation(glider_phase(2), b) == glider_phase(3),
{
    let s = glider_phase(2);
    let t = glider_phase(3);
    assert(lives_next(s, (-1i32, -2i32), b) == t.contains((-1i32, -2i32)));
    assert(lives_next(s, (-1i32, -1i32), b) == t.contains((-1i32, -1i32)));
    assert(lives_next(s, (-1i32, 0i32), b) == t.contains((-1i32, 0i32)));
    assert(lives_next(s, (-1i32, 1i32), b) == t.contains((-1i32, 1i32)));
    assert(lives_next(s, (-1i32, 2i32), b) == t.contains((-1i32, 2i32)));
    assert(lives_next(s, (-1i32, 3i32), b) == t.contains((-1i32, 3i32)));
    assert(lives_next(s, (0i32, -2i32), b) == t.contains((0i32, -2i32)));
    assert(lives_next(s, (0i32, -1i32), b) == t.contains((0i32, -1i32)));
    assert(lives_next(s, (0i32, 0i32), b) == t.contains((0i32, 0i32)));
    assert(lives_next(s, (0i32, 1i32), b) == t.contains((0i32, 1i32)));
    assert(lives_next(s, (0i32, 2i32), b) == t.contains((0i32, 2i32)));
    assert(lives_next(s, (0i32, 3i32), b) == t.contains((0i32, 3i32)));
    assert(lives_next(s, (1i32, -2i32), b) == t.contains((1i32, -2i32)));
    assert(lives_next(s, (1i32, -1i32), b) == t.contains((1i32, -1i32)));
    assert(lives_next(s, (1i32, 0i32), b) == t.contains((1i32, 0i32)));
    assert(lives_next(s, (1i32, 1i32), b) == t.contains((1i32, 1i32)));
    assert(lives_next(s, (1i32, 2i32), b) == t.contains((1i32, 2i32)));
    assert(lives_next(s, (1i32, 3i32), b) == t.contains((1i32, 3i32)));
    assert(lives_next(s, (2i32, -2i32), b) == t.contains((2i32, -2i32)));
    assert(lives_next(s, (2i32, -1i32), b) == t.contains((2i32, -1i32)));
    assert(lives_next(s, (2i32, 0i32), b) == t.contains((2i32, 0i32)));
    assert(lives_next(s, (2i32, 1i32), b) == t.contains((2i32, 1i32)));
    assert(lives_next(s, (2i32, 2i32), b) == t.contains((2i32, 2i32)));
    assert(lives_next(s, (2i32, 3i32), b) == t.contains((2i32, 3i32)));
    assert(lives_next(s, (3i32, -2i32), b) == t.contains((3i32, -2i32)));
    assert(lives_next(s, (3i32, -1i32), b) == t.contains((3i32, -1i32)));
    assert(lives_next(s, (3i32, 0i32), b) == t.contains((3i32, 0i32)));
    assert(lives_next(s, (3i32, 1i32), b) == t.contains((3i32, 1i32)));
    assert(lives_next(s, (3i32, 2i32), b) == t.contains((3i32, 2i32)));
    assert(lives_next(s, (3i32, 3i32), b) == t.contains((3i32, 3i32)));
    assert(lives_next(s, (4i32, -2i32), b) == t.contains((4i32, -2i32)));
    assert(lives_next(s, (4i32, -1i32), b) == t.contains((4i32, -1i32)));
    assert(lives_next(s, (4i32, 0i32), b) == t.contains((4i32, 0i32)));
    assert(lives_next(s, (4i32, 1i32), b) == t.contains((4i32, 1i32)));
    assert(lives_next(s, (4i32, 2i32), b) == t.contains((4i32, 2i32)));
    assert(lives_next(s, (4i32, 3i32), b) == t.contains((4i32, 3i32)));
    assert forall|c: Cell| lives_next(s, c, b) <==> #[trigger] t.contains(c) by {
        if !(-1 <= c.0 <= 4 && -2 <= c.1 <= 3) {
            assert(!t.contains(c));
        }
    }
    assert(next_generation(s, b) =~= t);
}

/// Generation 4 of the glider.
#[verifier::rlimit(100)]
proof fn lemma_glider_step_3(b: (i32, i32))
    requires
        b.0 >= 4,
        b.1 >= 3,
    ensures
        next_generation(glider_phase(3), b) == glider_phase(4),
{
    let s = glider_phase(3);
    let t = glider_phase(4);
    assert(lives_next(s, (-1i32, -2i32), b) == t.contains((-1i32, -2i32)));
    assert(lives_next(s, (-1i32, -1i32), b) == t.contains((-1i32, -1i32)));
    assert(lives_next(s, (-1i32, 0i32), b) == t.contains((-1i32, 0i32)));
    assert(lives_next(s, (-1i32, 1i32), b) == t.contains((-1i32, 1i32)));
    assert(lives_next(s, (-1i32, 2i32), b) == t.contains((-1i32, 2i32)));
    assert(lives_next(s, (-1i32, 3i32), b) == t.contains((-1i32, 3i32)));
    assert(lives_next(s, (0i32, -2i32), b) == t.contains((0i32, -2i32)));
    assert(lives_next(s, (0i32, -1i32), b) == t.contains((0i32, -1i32)));
    assert(lives_next(s, (0i32, 0i32), b) == t.contains((0i32, 0i32)));
    assert(lives_next(s, (0i32, 1i32), b) == t.contains((0i32, 1i32)));
    assert(lives_next(s, (0i32, 2i32), b) == t.contains((0i32, 2i32)));
    assert(lives_next(s, (0i32, 3i32), b) == t.contains((0i32, 3i32)));
    assert(lives_next(s, (1i32, -2i32), b) == t.contains((1i32, -2i32)));
    assert(lives_next(s, (1i32, -1i32), b) == t.contains((1i32, -1i32)));
    assert(lives_next(s, (1i32, 0i32), b) == t.contains((1i32, 0i32)));
    assert(lives_next(s, (1i32, 1i32), b) == t.contains((1i32, 1i32)));
    assert(lives_next(s, (1i32, 2i32), b) == t.contains((1i32, 2i32)));
    assert(lives_next(s, (1i32, 3i32), b) == t.contains((1i32, 3i32)));
    assert(lives_next(s, (2i32, -2i32), b) == t.contains((2i32, -2i32)));
    assert(lives_next(s, (2i32, -1i32), b) == t.contains((2i32, -1i32)));
    assert(lives_next(s, (2i32, 0i32), b) == t.contains((2i32, 0i32)));
    assert(lives_next(s, (2i32, 1i32), b) == t.contains((2i32, 1i32)));
    assert(lives_next(s, (2i32, 2i32), b) == t.contains((2i32, 2i32)));
    assert(lives_next(s, (2i32, 3i32), b) == t.contains((2i32, 3i32)));
    assert(lives_next(s, (3i32, -2i32), b) == t.contains((3i32, -2i32)));
    assert(lives_next(s, (3i32, -1i32), b) == t.contains((3i32, -1i32)));
    assert(lives_next(s, (3i32, 0i32), b) == t.contains((3i32, 0i32)));
    assert(lives_next(s, (3i32, 1i32), b) == t.contains((3i32, 1i32)));
    assert(lives_next(s, (3i32, 2i32), b) == t.contains((3i32, 2i32)));
    assert(lives_next(s, (3i32, 3i32), b) == t.contains((3i32, 3i32)));
    assert(lives_next(s, (4i32, -2i32), b) == t.contains((4i32, -2i32)));
    assert(lives_next(s, (4i32, -1i32), b) == t.contains((4i32, -1i32)));
    assert(lives_next(s, (4i32, 0i32), b) == t.contains((4i32, 0i32)));
    assert(lives_next(s, (4i32, 1i32), b) == t.contains((4i32, 1i32)));
    assert(lives_next(s, (4i32, 2i32), b) == t.contains((4i32, 2i32)));
    assert(lives_next(s, (4i32, 3i32), b) == t.contains((4i32, 3i32)));
    assert forall|c: Cell| lives_next(s, c, b) <==> #[trigger] t.contains(c) by {
        if !(-1 <= c.0 <= 4 && -2 <= c.1 <= 3) {
            assert(!t.contains(c));
        }
    }
    assert(next_generation(s, b) =~= t);
}

/// The glider as a set of cells.
proof fn lemma_glider_cells()
    ensures
        spec_glider().to_set() == glider_phase(0),
{
    let q = spec_glider();
    assert forall|c: Cell| q.to_set().contains(c) <==> #[trigger] glider_phase(0).contains(c) by {
        if glider_phase(0).contains(c) {
            if c == q[0] {
                assert(q.contains(q[0]));
            }
            if c == q[1] {
                assert(q.contains(q[1]));
            }
            if c == q[2] {
                assert(q.contains(q[2]));
            }
            if c == q[3] {
                assert(q.contains(q[3]));
            }
            if c == q[4] {
                assert(q.contains(q[4]));
            }
        }
    }
    assert(q.to_set() =~= glider_phase(0));
}

/// The blinker after each of its first 2 generations (0 being the pattern itself).
spec fn blinker_phase(k: int) -> Set<Cell> {
    if k == 0 {
        set![(0i32, 0i32), (1i32, 0i32), (2i32, 0i32)]
    } else if k == 1 {
        set![(1i32, -1i32), (1i32, 0i32), (1i32, 1i32)]
    } else {
        set![(0i32, 0i32), (1i32, 0i32), (2i32, 0i32)]
    }
}

/// Generation 1 of the blinker.
#[verifier::rlimit(100)]
proof fn lemma_blinker_step_0(b: (i32, i32))
    requires
        b.0 >= 3,
        b.1 >= 2,
    ensures
        next_generation(blinker_phase(0), b) == blinker_phase(1),
{
    let s = blinker_phase(0);
    let t = blinker_phase(1);
    assert(lives_next(s, (-1i32, -2i32), b) == t.contains((-1i32, -2i32)));
    assert(lives_next(s, (-1i32, -1i32), b) == t.contains((-1i32, -1i32)));
    assert(lives_next(s, (-1i32, 0i32), b) == t.contains((-1i32, 0i32)));
    assert(lives_next(s, (-1i32, 1i32), b) == t.contains((-1i32, 1i32)));
    assert(lives_next(s, (-1i32, 2i32), b) == t.contains((-1i32, 2i32)));
    assert(lives_next(s, (0i32, -2i32), b) == t.contains((0i32, -2i32)));
    assert(lives_next(s, (0i32, -1i32), b) == t.contains((0i32, -1i32)));
    assert(lives_next(s, (0i32, 0i32), b) == t.contains((0i32, 0i32)));
    assert(lives_next(s, (0i32, 1i32), b) == t.contains((0i32, 1i32)));
    assert(lives_next(s, (0i32, 2i32), b) == t.contains((0i32, 2i32)));
    assert(lives_next(s, (1i32, -2i32), b) == t.contains((1i32, -2i32)));
    assert(lives_next(s, (1i32, -1i32), b) == t.contains((1i32, -1i32)));
    assert(lives_next(s, (1i32, 0i32), b) == t.contains((1i32, 0i32)));
    assert(lives_next(s, (1i32, 1i32), b) == t.contains((1i32, 1i32)));
    assert(lives_next(s, (1i32, 2i32), b) == t.contains((1i32, 2i32)));
    assert(lives_next(s, (2i32, -2i32), b) == t.contains((2i32, -2i32)));
    assert(lives_next(s, (2i32, -1i32), b) == t.contains((2i32, -1i32)));
    assert(lives_next(s, (2i32, 0i32), b) == t.contains((2i32, 0i32)));
    assert(lives_next(s, (2i32, 1i32), b) == t.contains((2i32, 1i32)));
    assert(lives_next(s, (2i32, 2i32), b) == t.contains((2i32, 2i32)));
    assert(lives_next(s, (3i32, -2i32), b) == t.contains((3i32, -2i32)));
    assert(lives_next(s, (3i32, -1i32), b) == t.contains((3i32, -1i32)));
    assert(lives_next(s, (3i32, 0i32), b) == t.contains((3i32, 0i32)));
    assert(lives_next(s, (3i32, 1i32), b) == t.contains((3i32, 1i32)));
    assert(lives_next(s, (3i32, 2i32), b) == t.contains((3i32, 2i32)));
    assert forall|c: Cell| lives_next(s, c, b) <==> #[trigger] t.contains(c) by {
        if !(-1 <= c.0 <= 3 && -2 <= c.1 <= 2) {
            assert(!t.contains(c));
        }
    }
    assert(next_generation(s, b) =~= t);
}

/// Generation 2 of the blinker.
#[verifier::rlimit(100)]
proof fn lemma_blinker_step_1(b: (i32, i32))
    requires
        b.0 >= 3,
        b.1 >= 2,
    ensures
        next_generation(blinker_phase(1), b) == blinker_phase(2),
{
    let s = blinker_phase(1);
    let t = blinker_phase(2);
    assert(lives_next(s, (-1i32, -2i32), b) == t.contains((-1i32, -2i32)));
    assert(lives_next(s, (-1i32, -1i32), b) == t.contains((-1i32, -1i32)));
    assert(lives_next(s, (-1i32, 0i32), b) == t.contains((-1i32, 0i32)));
    assert(lives_next(s, (-1i32, 1i32), b) == t.contains((-1i32, 1i32)));
    assert(lives_next(s, (-1i32, 2i32), b) == t.contains((-1i32, 2i32)));
    assert(lives_next(s, (0i32, -2i32), b) == t.contains((0i32, -2i32)));
    assert(lives_next(s, (0i32, -1i32), b) == t.contains((0i32, -1i32)));
    assert(lives_next(s, (0i32, 0i32), b) == t.contains((0i32, 0i32)));
    assert(lives_next(s, (0i32, 1i32), b) == t.contains((0i32, 1i32)));
    assert(lives_next(s, (0i32, 2i32), b) == t.contains((0i32, 2i32)));
    assert(lives_next(s, (1i32, -2i32), b) == t.contains((1i32, -2i32)));
    assert(lives_next(s, (1i32, -1i32), b) == t.contains((1i32, -1i32)));
    assert(lives_next(s, (1i32, 0i32), b) == t.contains((1i32, 0i32)));
    assert(lives_next(s, (1i32, 1i32), b) == t.contains((1i32, 1i32)));
    assert(lives_next(s, (1i32, 2i32), b) == t.contains((1i32, 2i32)));
    assert(lives_next(s, (2i32, -2i32), b) == t.contains((2i32, -2i32)));
    assert(lives_next(s, (2i32, -1i32), b) == t.contains((2i32, -1i32)));
    assert(lives_next(s, (2i32, 0i32), b) == t.contains((2i32, 0i32)));
    assert(lives_next(s, (2i32, 1i32), b) == t.contains((2i32, 1i32)));
    assert(lives_next(s, (2i32, 2i32), b) == t.contains((2i32, 2i32)));
    assert(lives_next(s, (3i32, -2i32), b) == t.contains((3i32, -2i32)));
    assert(lives_next(s, (3i32, -1i32), b) == t.contains((3i32, -1i32)));
    assert(lives_next(s, (3i32, 0i32), b) == t.contains((3i32, 0i32)));
    assert(lives_next(s, (3i32, 1i32), b) == t.contains((3i32, 1i32)));
    assert(lives_next(s, (3i32, 2i32), b) == t.contains((3i32, 2i32)));
    assert forall|c: Cell| lives_next(s, c, b) <==> #[trigger] t.contains(c) by {
        if !(-1 <= c.0 <= 3 && -2 <= c.1 <= 2) {
            assert(!t.contains(c));
        }
    }
    assert(next_generation(s, b) =~= t);
}

/// The blinker as a set of cells.
proof fn lemma_blinker_cells()
    ensures
        spec_blinker().to_set() == blinker_phase(0),
{
    let q = spec_blinker();
    assert forall|c: Cell| q.to_set().contains(c) <==> #[trigger] blinker_phase(0).contains(c) by {
        if blinker_phase(0).contains(c) {
            if c == q[0] {
                assert(q.contains(q[0]));
            }
            if c == q[1] {
                assert(q.contains(q[1]));
            }
            if c == q[2] {
                assert(q.contains(q[2]));
            }
        }
    }
    assert(q.to_set() =~= blinker_phase(0));
}

/// The toad after each of its first 2 generations (0 being the pattern itself).
spec fn toad_phase(k: int) -> Set<Cell> {
    if k == 0 {
        set![(0i32, 1i32), (1i32, 0i32), (1i32, 1i32), (2i32, 0i32), (2i32, 1i32), (3i32, 0i32)]
    } else if k == 1 {
        set![(0i32, 0i32), (0i32, 1i32), (1i32, 2i32), (2i32, -1i32), (3i32, 0i32), (3i32, 1i32)]
    } else {
        set![(0i32, 1i32), (1i32, 0i32), (1i32, 1i32), (2i32, 0i32), (2i32, 1i32), (3i32, 0i32)]
    }
}

/// Generation 1 of the toad.
#[verifier::rlimit(100)]
proof fn lemma_toad_step_0(b: (i32, i32))
    requires
        b.0 >= 4,
        b.1 >= 3,
    ensures
        next_generation(toad_phase(0), b) == toad_phase(1),
{
    let s = toad_phase(0);
    let t = toad_phase(1);
    assert(lives_next(s, (-1i32, -2i32), b) == t.contains((-1i32, -2i32)));
    assert(lives_next(s, (-1i32, -1i32), b) == t.contains((-1i32, -1i32)));
    assert(lives_next(s, (-1i32, 0i32), b) == t.contains((-1i32, 0i32)));
    assert(lives_next(s, (-1i32, 1i32), b) == t.contains((-1i32, 1i32)));
    assert(lives_next(s, (-1i32, 2i32), b) == t.contains((-1i32, 2i32)));
    assert(lives_next(s, (-1i32, 3i32), b) == t.contains((-1i32, 3i32)));
    assert(lives_next(s, (0i32, -2i32), b) == t.contains((0i32, -2i32)));
    assert(lives_next(s, (0i32, -1i32), b) == t.contains((0i32, -1i32)));
    assert(lives_next(s, (0i32, 0i32), b) == t.contains((0i32, 0i32)));
    assert(lives_next(s, (0i32, 1i32), b) == t.contains((0i32, 1i32)));
    assert(lives_next(s, (0i32, 2i32), b) == t.contains((0i32, 2i32)));
    assert(lives_next(s, (0i32, 3i32), b) == t.contains((0i32, 3i32)));
    assert(lives_next(s, (1i32, -2i32), b) == t.contains((1i32, -2i32)));
    assert(lives_next(s, (1i32, -1i32), b) == t.contains((1i32, -1i32)));
    assert(lives_next(s, (1i32, 0i32), b) == t.contains((1i32, 0i32)));
    assert(lives_next(s, (1i32, 1i32), b) == t.contains((1i32, 1i32)));
    assert(lives_next(s, (1i32, 2i32), b) == t.contains((1i32, 2i32)));
    assert(lives_next(s, (1i32, 3i32), b) == t.contains((1i32, 3i32)));
    assert(lives_next(s, (2i32, -2i32), b) == t.contains((2i32, -2i32)));
    assert(lives_next(s, (2i32, -1i32), b) == t.contains((2i32, -1i32)));
    assert(lives_next(s, (2i32, 0i32), b) == t.contains((2i32, 0i32)));
    assert(lives_next(s, (2i32, 1i32), b) == t.contains((2i32, 1i32)));
    assert(lives_next(s, (2i32, 2i32), b) == t.contains((2i32, 2i32)));
    assert(lives_next(s, (2i32, 3i32), b) == t.contains((2i32, 3i32)));
    assert(lives_next(s, (3i32, -2i32), b) == t.contains((3i32, -2i32)));
    assert(lives_next(s, (3i32, -1i32), b) == t.contains((3i32, -1i32)));
    assert(lives_next(s, (3i32, 0i32), b) == t.contains((3i32, 0i32)));
    assert(lives_next(s, (3i32, 1i32), b) == t.contains((3i32, 1i32)));
    assert(lives_next(s, (3i32, 2i32), b) == t.contains((3i32, 2i32)));
    assert(lives_next(s, (3i32, 3i32), b) == t.contains((3i32, 3i32)));
    assert(lives_next(s, (4i32, -2i32), b) == t.contains((4i32, -2i32)));
    assert(lives_next(s, (4i32, -1i32), b) == t.contains((4i32, -1i32)));
    assert(lives_next(s, (4i32, 0i32), b) == t.contains((4i32, 0i32)));
    assert(lives_next(s, (4i32, 1i32), b) == t.contains((4i32, 1i32)));
    assert(lives_next(s, (4i32, 2i32), b) == t.contains((4i32, 2i32)));
    assert(lives_next(s, (4i32, 3i32), b) == t.contains((4i32, 3i32)));
    assert forall|c: Cell| lives_next(s, c, b) <==> #[trigger] t.contains(c) by {
        if !(-1 <= c.0 <= 4 && -2 <= c.1 <= 3) {
            assert(!t.contains(c));
        }
    }
    assert(next_generation(s, b) =~= t);
}

/// Generation 2 of the toad.
#[verifier::rlimit(100)]
proof fn lemma_toad_step_1(b: (i32, i32))
    requires
        b.0 >= 4,
        b.1 >= 3,
    ensures
        next_generation(toad_phase(1), b) == toad_phase(2),
{
    let s = toad_phase(1);
    let t = toad_phase(2);
    assert(lives_next(s, (-1i32, -2i32), b) == t.contains((-1i32, -2i32)));
    assert(lives_next(s, (-1i32, -1i32), b) == t.contains((-1i32, -1i32)));
    assert(lives_next(s, (-1i32, 0i32), b) == t.contains((-1i32, 0i32)));
    assert(lives_next(s, (-1i32, 1i32), b) == t.contains((-1i32, 1i32)));
    assert(lives_next(s, (-1i32, 2i32), b) == t.contains((-1i32, 2i32)));
    assert(lives_next(s, (-1i32, 3i32), b) == t.contains((-1i32, 3i32)));
    assert(lives_next(s, (0i32, -2i32), b) == t.contains((0i32, -2i32)));
    assert(lives_next(s, (0i32, -1i32), b) == t.contains((0i32, -1i32)));
    assert(lives_next(s, (0i32, 0i32), b) == t.contains((0i32, 0i32)));
    assert(lives_next(s, (0i32, 1i32), b) == t.contains((0i32, 1i32)));
    assert(lives_next(s, (0i32, 2i32), b) == t.contains((0i32, 2i32)));
    assert(lives_next(s, (0i32, 3i32), b) == t.contains((0i32, 3i32)));
    assert(lives_next(s, (1i32, -2i32), b) == t.contains((1i32, -2i32)));
    assert(lives_next(s, (1i32, -1i32), b) == t.contains((1i32, -1i32)));
    assert(lives_next(s, (1i32, 0i32), b) == t.contains((1i32, 0i32)));
    assert(lives_next(s, (1i32, 1i32), b) == t.contains((1i32, 1i32)));
    assert(lives_next(s, (1i32, 2i32), b) == t.contains((1i32, 2i32)));
    assert(lives_next(s, (1i32, 3i32), b) == t.contains((1i32, 3i32)));
    assert(lives_next(s, (2i32, -2i32), b) == t.contains((2i32, -2i32)));
    assert(lives_next(s, (2i32, -1i32), b) == t.contains((2i32, -1i32)));
    assert(lives_next(s, (2i32, 0i32), b) == t.contains((2i32, 0i32)));
    assert(lives_next(s, (2i32, 1i32), b) == t.contains((2i32, 1i32)));
    assert(lives_next(s, (2i32, 2i32), b) == t.contains((2i32, 2i32)));
    assert(lives_next(s, (2i32, 3i32), b) == t.contains((2i32, 3i32)));
    assert(lives_next(s, (3i32, -2i32), b) == t.contains((3i32, -2i32)));
    assert(lives_next(s, (3i32, -1i32), b) == t.contains((3i32, -1i32)));
    assert(lives_next(s, (3i32, 0i32), b) == t.contains((3i32, 0i32)));
    assert(lives_next(s, (3i32, 1i32), b) == t.contains((3i32, 1i32)));
    assert(lives_next(s, (3i32, 2i32), b) == t.contains((3i32, 2i32)));
    assert(lives_next(s, (3i32, 3i32), b) == t.contains((3i32, 3i32)));
    assert(lives_next(s, (4i32, -2i32), b) == t.contains((4i32, -2i32)));
    assert(lives_next(s, (4i32, -1i32), b) == t.contains((4i32, -1i32)));
    assert(lives_next(s, (4i32, 0i32), b) == t.contains((4i32, 0i32)));
    assert(lives_next(s, (4i32, 1i32), b) == t.contains((4i32, 1i32)));
    assert(lives_next(s, (4i32, 2i32), b) == t.contains((4i32, 2i32)));
    assert(lives_next(s, (4i32, 3i32), b) == t.contains((4i32, 3i32)));
    assert forall|c: Cell| lives_next(s, c, b) <==> #[trigger] t.contains(c) by {
        if !(-1 <= c.0 <= 4 && -2 <= c.1 <= 3) {
            assert(!t.contains(c));
        }
    }
    assert(next_generation(s, b) =~= t);
}

/// The toad as a set of cells.
proof fn lemma_toad_cells()
    ensures
        spec_toad().to_set() == toad_phase(0),
{
    let q = spec_toad();
    assert forall|c: Cell| q.to_set().contains(c) <==> #[trigger] toad_phase(0).contains(c) by {
        if toad_phase(0).contains(c) {
            if c == q[0] {
                assert(q.contains(q[0]));
            }
            if c == q[1] {
                assert(q.contains(q[1]));
            }
            if c == q[2] {
                assert(q.contains(q[2]));
            }
            if c == q[3] {
                assert(q.contains(q[3]));
            }
            if c == q[4] {
                assert(q.contains(q[4]));
            }
            if c == q[5] {
                assert(q.contains(q[5]));
            }
        }
    }
    assert(q.to_set() =~= toad_phase(0));
}

/// The beacon after each of its first 2 generations (0 being the pattern itself).
spec fn beacon_phase(k: int) -> Set<Cell> {
    if k == 0 {
        set![(0i32, 0i32), (0i32, 1i32), (1i32, 0i32), (2i32, 3i32), (3i32, 2i32), (3i32, 3i32)]
    } else if k == 1 {
        set![(0i32, 0i32), (0i32, 1i32), (1i32, 0i32), (1i32, 1i32), (2i32, 2i32), (2i32, 3i32), (3i32, 2i32), (3i32, 3i32)]
    } else {
        set![(0i32, 0i32), (0i32, 1i32), (1i32, 0i32), (2i32, 3i32), (3i32, 2i32), (3i32, 3i32)]
    }
}

/// Generation 1 of the beacon.
#[verifier::rlimit(100)]
proof fn lemma_beacon_step_0(b: (i32, i32))
    requires
        b.0 >= 4,
        b.1 >= 4,
    ensures
        next_generation(beacon_phase(0), b) == beacon_phase(1),
{
    let s = beacon_phase(0);
    let t = beacon_phase(1);
    assert(lives_next(s, (-1i32, -1i32), b) == t.contains((-1i32, -1i32)));
    assert(lives_next(s, (-1i32, 0i32), b) == t.contains((-1i32, 0i32)));
    assert(lives_next(s, (-1i32, 1i32), b) == t.contains((-1i32, 1i32)));
    assert(lives_next(s, (-1i32, 2i32), b) == t.contains((-1i32, 2i32)));
    assert(lives_next(s, (-1i32, 3i32), b) == t.contains((-1i32, 3i32)));
    assert(lives_next(s, (-1i32, 4i32), b) == t.contains((-1i32, 4i32)));
    assert(lives_next(s, (0i32, -1i32), b) == t.contains((0i32, -1i32)));
    assert(lives_next(s, (0i32, 0i32), b) == t.contains((0i32, 0i32)));
    assert(lives_next(s, (0i32, 1i32), b) == t.contains((0i32, 1i32)));
    assert(lives_next(s, (0i32, 2i32), b) == t.contains((0i32, 2i32)));
    assert(lives_next(s, (0i32, 3i32), b) == t.contains((0i32, 3i32)));
    assert(lives_next(s, (0i32, 4i32), b) == t.contains((0i32, 4i32)));
    assert(lives_next(s, (1i32, -1i32), b) == t.contains((1i32, -1i32)));
    assert(lives_next(s, (1i32, 0i32), b) == t.contains((1i32, 0i32)));
    assert(lives_next(s, (1i32, 1i32), b) == t.contains((1i32, 1i32)));
    assert(lives_next(s, (1i32, 2i32), b) == t.contains((1i32, 2i32)));
    assert(lives_next(s, (1i32, 3i32), b) == t.contains((1i32, 3i32)));
    assert(lives_next(s, (1i32, 4i32), b) == t.contains((1i32, 4i32)));
    assert(lives_next(s, (2i32, -1i32), b) == t.contains((2i32, -1i32)));
    assert(lives_next(s, (2i32, 0i32), b) == t.contains((2i32, 0i32)));
    assert(lives_next(s, (2i32, 1i32), b) == t.contains((2i32, 1i32)));
    assert(lives_next(s, (2i32, 2i32), b) == t.contains((2i32, 2i32)));
    assert(lives_next(s, (2i32, 3i32), b) == t.contains((2i32, 3i32)));
    assert(lives_next(s, (2i32, 4i32), b) == t.contains((2i32, 4i32)));
    assert(lives_next(s, (3i32, -1i32), b) == t.contains((3i32, -1i32)));
    assert(lives_next(s, (3i32, 0i32), b) == t.contains((3i32, 0i32)));
    assert(lives_next(s, (3i32, 1i32), b) == t.contains((3i32, 1i32)));
    assert(lives_next(s, (3i32, 2i32), b) == t.contains((3i32, 2i32)));
    assert(lives_next(s, (3i32, 3i32), b) == t.contains((3i32, 3i32)));
    assert(lives_next(s, (3i32, 4i32), b) == t.contains((3i32, 4i32)));
    assert(lives_next(s, (4i32, -1i32), b) == t.contains((4i32, -1i32)));
    assert(lives_next(s, (4i32, 0i32), b) == t.contains((4i32, 0i32)));
    assert(lives_next(s, (4i32, 1i32), b) == t.contains((4i32, 1i32)));
    assert(lives_next(s, (4i32, 2i32), b) == t.contains((4i32, 2i32)));
    assert(lives_next(s, (4i32, 3i32), b) == t.contains((4i32, 3i32)));
    assert(lives_next(s, (4i32, 4i32), b) == t.contains((4i32, 4i32)));
    assert forall|c: Cell| lives_next(s, c, b) <==> #[trigger] t.contains(c) by {
        if !(-1 <= c.0 <= 4 && -1 <= c.1 <= 4) {
            assert(!t.contains(c));
        }
    }
    assert(next_generation(s, b) =~= t);
}

/// Generation 2 of the beacon.
#[verifier::rlimit(100)]
proof fn lemma_beacon_step_1(b: (i32, i32))
    requires
        b.0 >= 4,
        b.1 >= 4,
    ensures
        next_generation(beacon_phase(1), b) == beacon_phase(2),
{
    let s = beacon_phase(1);
    let t = beacon_phase(2);
    assert(lives_next(s, (-1i32, -1i32), b) == t.contains((-1i32, -1i32)));
    assert(lives_next(s, (-1i32, 0i32), b) == t.contains((-1i32, 0i32)));
    assert(lives_next(s, (-1i32, 1i32), b) == t.contains((-1i32, 1i32)));
    assert(lives_next(s, (-1i32, 2i32), b) == t.contains((-1i32, 2i32)));
    assert(lives_next(s, (-1i32, 3i32), b) == t.contains((-1i32, 3i32)));
    assert(lives_next(s, (-1i32, 4i32), b) == t.contains((-1i32, 4i32)));
    assert(lives_next(s, (0i32, -1i32), b) == t.contains((0i32, -1i32)));
    assert(lives_next(s, (0i32, 0i32), b) == t.contains((0i32, 0i32)));
    assert(lives_next(s, (0i32, 1i32), b) == t.contains((0i32, 1i32)));
    assert(lives_next(s, (0i32, 2i32), b) == t.contains((0i32, 2i32)));
    assert(lives_next(s, (0i32, 3i32), b) == t.contains((0i32, 3i32)));
    assert(lives_next(s, (0i32, 4i32), b) == t.contains((0i32, 4i32)));
    assert(lives_next(s, (1i32, -1i32), b) == t.contains((1i32, -1i32)));
    assert(lives_next(s, (1i32, 0i32), b) == t.contains((1i32, 0i32)));
    assert(lives_next(s, (1i32, 1i32), b) == t.contains((1i32, 1i32)));
    assert(lives_next(s, (1i32, 2i32), b) == t.contains((1i32, 2i32)));
    assert(lives_next(s, (1i32, 3i32), b) == t.contains((1i32, 3i32)));
    assert(lives_next(s, (1i32, 4i32), b) == t.contains((1i32, 4i32)));
    assert(lives_next(s, (2i32, -1i32), b) == t.contains((2i32, -1i32)));
    assert(lives_next(s, (2i32, 0i32), b) == t.contains((2i32, 0i32)));
    assert(lives_next(s, (2i32, 1i32), b) == t.contains((2i32, 1i32)));
    assert(lives_next(s, (2i32, 2i32), b) == t.contains((2i32, 2i32)));
    assert(lives_next(s, (2i32, 3i32), b) == t.contains((2i32, 3i32)));
    assert(lives_next(s, (2i32, 4i32), b) == t.contains((2i32, 4i32)));
    assert(lives_next(s, (3i32, -1i32), b) == t.contains((3i32, -1i32)));
    assert(lives_next(s, (3i32, 0i32), b) == t.contains((3i32, 0i32)));
    assert(lives_next(s, (3i32, 1i32), b) == t.contains((3i32, 1i32)));
    assert(lives_next(s, (3i32, 2i32), b) == t.contains((3i32, 2i32)));
    assert(lives_next(s, (3i32, 3i32), b) == t.contains((3i32, 3i32)));
    assert(lives_next(s, (3i32, 4i32), b) == t.contains((3i32, 4i32)));
    assert(lives_next(s, (4i32, -1i32), b) == t.contains((4i32, -1i32)));
    assert(lives_next(s, (4i32, 0i32), b) == t.contains((4i32, 0i32)));
    assert(lives_next(s, (4i32, 1i32), b) == t.contains((4i32, 1i32)));
    assert(lives_next(s, (4i32, 2i32), b) == t.contains((4i32, 2i32)));
    assert(lives_next(s, (4i32, 3i32), b) == t.contains((4i32, 3i32)));
    assert(lives_next(s, (4i32, 4i32), b) == t.contains((4i32, 4i32)));
    assert forall|c: Cell| lives_next(s, c, b) <==> #[trigger] t.contains(c) by {
        if !(-1 <= c.0 <= 4 && -1 <= c.1 <= 4) {
            assert(!t.contains(c));
        }
    }
    assert(next_generation(s, b) =~= t);
}

/// The beacon as a set of cells.
proof fn lemma_beacon_cells()
    ensures
        spec_beacon().to_set() == beacon_phase(0),
{
    let q = spec_beacon();
    assert forall|c: Cell| q.to_set().contains(c) <==> #[trigger] beacon_phase(0).contains(c) by {
        if beacon_phase(0).contains(c) {
            if c == q[0] {
                assert(q.contains(q[0]));
            }
            if c == q[1] {
                assert(q.contains(q[1]));
            }
            if c == q[2] {
                assert(q.contains(q[2]));
            }
            if c == q[3] {
                assert(q.contains(q[3]));
            }
            if c == q[4] {
                assert(q.contains(q[4]));
            }
            if c == q[5] {
                assert(q.contains(q[5]));
            }
        }
    }
    assert(q.to_set() =~= beacon_phase(0));
}

/// The R-pentomino after each of its first 4 generations (0 being the pattern itself).
spec fn r_pentomino_phase(k: int) -> Set<Cell> {
    if k == 0 {
        set![(0i32, 1i32), (1i32, 0i32), (1i32, 1i32), (1i32, 2i32), (2i32, 0i32)]
    } else if k == 1 {
        set![(0i32, 0i32), (0i32, 1i32), (0i32, 2i32), (1i32, 0i32), (1i32, 2i32), (2i32, 0i32)]
    } else if k == 2 {
        set![(-1i32, 1i32), (0i32, 0i32), (0i32, 2i32), (1i32, -1i32), (1i32, 0i32), (1i32, 2i32), (2i32, 1i32)]
    } else if k == 3 {
        set![(-1i32, 1i32), (0i32, -1i32), (0i32, 0i32), (0i32, 2i32), (1i32, -1i32), (1i32, 0i32), (1i32, 2i32), (2i32, 0i32), (2i32, 1i32)]
    } else {
        set![(-1i32, 0i32), (-1i32, 1i32), (0i32, -1i32), (0i32, 2i32), (1i32, 2i32), (2i32, -1i32), (2i32, 0i32), (2i32, 1i32)]
    }
}

/// Generation 1 of the R-pentomino.
#[verifier::rlimit(100)]
proof fn lemma_r_pentomino_step_0(b: (i32, i32))
    requires
        b.0 >= 3,
        b.1 >= 3,
    ensures
        next_generation(r_pentomino_phase(0), b) == r_pentomino_phase(1),
{
    let s = r_pentomino_phase(0);
    let t = r_pentomino_phase(1);
    assert(lives_next(s, (-2i32, -2i32), b) == t.contains((-2i32, -2i32)));
    assert(lives_next(s, (-2i32, -1i32), b) == t.contains((-2i32, -1i32)));
    assert(lives_next(s, (-2i32, 0i32), b) == t.contains((-2i32, 0i32)));
    assert(lives_next(s, (-2i32, 1i32), b) == t.contains((-2i32, 1i32)));
    assert(lives_next(s, (-2i32, 2i32), b) == t.contains((-2i32, 2i32)));
    assert(lives_next(s, (-2i32, 3i32), b) == t.contains((-2i32, 3i32)));
    assert(lives_next(s, (-1i32, -2i32), b) == t.contains((-1i32, -2i32)));
    assert(lives_next(s, (-1i32, -1i32), b) == t.contains((-1i32, -1i32)));
    assert(lives_next(s, (-1i32, 0i32), b) == t.contains((-1i32, 0i32)));
    assert(lives_next(s, (-1i32, 1i32), b) == t.contains((-1i32, 1i32)));
    assert(lives_next(s, (-1i32, 2i32), b) == t.contains((-1i32, 2i32)));
    assert(lives_next(s, (-1i32, 3i32), b) == t.contains((-1i32, 3i32)));
    assert(lives_next(s, (0i32, -2i32), b) == t.contains((0i32, -2i32)));
    assert(lives_next(s, (0i32, -1i32), b) == t.contains((0i32, -1i32)));
    assert(lives_next(s, (0i32, 0i32), b) == t.contains((0i32, 0i32)));
    assert(lives_next(s, (0i32, 1i32), b) == t.contains((0i32, 1i32)));
    assert(lives_next(s, (0i32, 2i32), b) == t.contains((0i32, 2i32)));
    assert(lives_next(s, (0i32, 3i32), b) == t.contains((0i32, 3i32)));
    assert(lives_next(s, (1i32, -2i32), b) == t.contains((1i32, -2i32)));
    assert(lives_next(s, (1i32, -1i32), b) == t.contains((1i32, -1i32)));
    assert(lives_next(s, (1i32, 0i32), b) == t.contains((1i32, 0i32)));
    assert(lives_next(s, (1i32, 1i32), b) == t.contains((1i32, 1i32)));
    assert(lives_next(s, (1i32, 2i32), b) == t.contains((1i32, 2i32)));
    assert(lives_next(s, (1i32, 3i32), b) == t.contains((1i32, 3i32)));
    assert(lives_next(s, (2i32, -2i32), b) == t.contains((2i32, -2i32)));
    assert(lives_next(s, (2i32, -1i32), b) == t.contains((2i32, -1i32)));
    assert(lives_next(s, (2i32, 0i32), b) == t.contains((2i32, 0i32)));
    assert(lives_next(s, (2i32, 1i32), b) == t.contains((2i32, 1i32)));
    assert(lives_next(s, (2i32, 2i32), b) == t.contains((2i32, 2i32)));
    assert(lives_next(s, (2i32, 3i32), b) == t.contains((2i32, 3i32)));
    assert(lives_next(s, (3i32, -2i32), b) == t.contains((3i32, -2i32)));
    assert(lives_next(s, (3i32, -1i32), b) == t.contains((3i32, -1i32)));
    assert(lives_next(s, (3i32, 0i32), b) == t.contains((3i32, 0i32)));
    assert(lives_next(s, (3i32, 1i32), b) == t.contains((3i32, 1i32)));
    assert(lives_next(s, (3i32, 2i32), b) == t.contains((3i32, 2i32)));
    assert(lives_next(s, (3i32, 3i32), b) == t.contains((3i32, 3i32)));
    assert forall|c: Cell| lives_next(s, c, b) <==> #[trigger] t.contains(c) by {
        if !(-2 <= c.0 <= 3 && -2 <= c.1 <= 3) {
            assert(!t.contains(c));
        }
    }
    assert(next_generation(s, b) =~= t);
}

/// Generation 2 of the R-pentomino.
#[verifier::rlimit(100)]
proof fn lemma_r_pentomino_step_1(b: (i32, i32))
    requires
        b.0 >= 3,
        b.1 >= 3,
    ensures
        next_generation(r_pentomino_phase(1), b) == r_pentomino_phase(2),
{
    let s = r_pentomino_phase(1);
    let t = r_pentomino_phase(2);
    assert(lives_next(s, (-2i32, -2i32), b) == t.contains((-2i32, -2i32)));
    assert(lives_next(s, (-2i32, -1i32), b) == t.contains((-2i32, -1i32)));
    assert(lives_next(s, (-2i32, 0i32), b) == t.contains((-2i32, 0i32)));
    assert(lives_next(s, (-2i32, 1i32), b) == t.contains((-2i32, 1i32)));
    assert(lives_next(s, (-2i32, 2i32), b) == t.contains((-2i32, 2i32)));
    assert(lives_next(s, (-2i32, 3i32), b) == t.contains((-2i32, 3i32)));
    assert(lives_next(s, (-1i32, -2i32), b) == t.contains((-1i32, -2i32)));
    assert(lives_next(s, (-1i32, -1i32), b) == t.contains((-1i32, -1i32)));
    assert(lives_next(s, (-1i32, 0i32), b) == t.contains((-1i32, 0i32)));
    assert(lives_next(s, (-1i32, 1i32), b) == t.contains((-1i32, 1i32)));
    assert(lives_next(s, (-1i32, 2i32), b) == t.contains((-1i32, 2i32)));
    assert(lives_next(s, (-1i32, 3i32), b) == t.contains((-1i32, 3i32)));
    assert(lives_next(s, (0i32, -2i32), b) == t.contains((0i32, -2i32)));
    assert(lives_next(s, (0i32, -1i32), b) == t.contains((0i32, -1i32)));
    assert(lives_next(s, (0i32, 0i32), b) == t.contains((0i32, 0i32)));
    assert(lives_next(s, (0i32, 1i32), b) == t.contains((0i32, 1i32)));
    assert(lives_next(s, (0i32, 2i32), b) == t.contains((0i32, 2i32)));
    assert(lives_next(s, (0i32, 3i32), b) == t.contains((0i32, 3i32)));
    assert(lives_next(s, (1i32, -2i32), b) == t.contains((1i32, -2i32)));
    assert(lives_next(s, (1i32, -1i32), b) == t.contains((1i32, -1i32)));
    assert(lives_next(s, (1i32, 0i32), b) == t.contains((1i32, 0i32)));
    assert(lives_next(s, (1i32, 1i32), b) == t.contains((1i32, 1i32)));
    assert(lives_next(s, (1i32, 2i32), b) == t.contains((1i32, 2i32)));
    assert(lives_next(s, (1i32, 3i32), b) == t.contains((1i32, 3i32)));
    assert(lives_next(s, (2i32, -2i32), b) == t.contains((2i32, -2i32)));
    assert(lives_next(s, (2i32, -1i32), b) == t.contains((2i32, -1i32)));
    assert(lives_next(s, (2i32, 0i32), b) == t.contains((2i32, 0i32)));
    assert(lives_next(s, (2i32, 1i32), b) == t.contains((2i32, 1i32)));
    assert(lives_next(s, (2i32, 2i32), b) == t.contains((2i32, 2i32)));
    assert(lives_next(s, (2i32, 3i32), b) == t.contains((2i32, 3i32)));
    assert(lives_next(s, (3i32, -2i32), b) == t.contains((3i32, -2i32)));
    assert(lives_next(s, (3i32, -1i32), b) == t.contains((3i32, -1i32)));
    assert(lives_next(s, (3i32, 0i32), b) == t.contains((3i32, 0i32)));
    assert(lives_next(s, (3i32, 1i32), b) == t.contains((3i32, 1i32)));
    assert(lives_next(s, (3i32, 2i32), b) == t.contains((3i32, 2i32)));
    assert(lives_next(s, (3i32, 3i32), b) == t.contains((3i32, 3i32)));
    assert forall|c: Cell| lives_next(s, c, b) <==> #[trigger] t.contains(c) by {
        if !(-2 <= c.0 <= 3 && -2 <= c.1 <= 3) {
            assert(!t.contains(c));
        }
    }
    assert(next_generation(s, b) =~= t);
}

/// Generation 3 of the R-pentomino.
#[verifier::rlimit(100)]
proof fn lemma_r_pentomino_step_2(b: (i32, i32))
    requires
        b.0 >= 3,
        b.1 >= 3,
    ensures
        next_generation(r_pentomino_phase(2), b) == r_pentomino_phase(3),
{
    let s = r_pentomino_phase(2);
    let t = r_pentomino_phase(3);
    assert(lives_next(s, (-2i32, -2i32), b) == t.contains((-2i32, -2i32)));
    assert(lives_next(s, (-2i32, -1i32), b) == t.contains((-2i32, -1i32)));
    assert(lives_next(s, (-2i32, 0i32), b) == t.contains((-2i32, 0i32)));
    assert(lives_next(s, (-2i32, 1i32), b) == t.contains((-2i32, 1i32)));
    assert(lives_next(s, (-2i32, 2i32), b) == t.contains((-2i32, 2i32)));
    assert(lives_next(s, (-2i32, 3i32), b) == t.contains((-2i32, 3i32)));
    assert(lives_next(s, (-1i32, -2i32), b) == t.contains((-1i32, -2i32)));
    assert(lives_next(s, (-1i32, -1i32), b) == t.contains((-1i32, -1i32)));
    assert(lives_next(s, (-1i32, 0i32), b) == t.contains((-1i32, 0i32)));
    assert(lives_next(s, (-1i32, 1i32), b) == t.contains((-1i32, 1i32)));
    assert(lives_next(s, (-1i32, 2i32), b) == t.contains((-1i32, 2i32)));
    assert(lives_next(s, (-1i32, 3i32), b) == t.contains((-1i32, 3i32)));
    assert(lives_next(s, (0i32, -2i32), b) == t.contains((0i32, -2i32)));
    assert(lives_next(s, (0i32, -1i32), b) == t.contains((0i32, -1i32)));
    assert(lives_next(s, (0i32, 0i32), b) == t.contains((0i32, 0i32)));
    assert(lives_next(s, (0i32, 1i32), b) == t.contains((0i32, 1i32)));
    assert(lives_next(s, (0i32, 2i32), b) == t.contains((0i32, 2i32)));
    assert(lives_next(s, (0i32, 3i32), b) == t.contains((0i32, 3i32)));
    assert(lives_next(s, (1i32, -2i32), b) == t.contains((1i32, -2i32)));
    assert(lives_next(s, (1i32, -1i32), b) == t.contains((1i32, -1i32)));
    assert(lives_next(s, (1i32, 0i32), b) == t.contains((1i32, 0i32)));
    assert(lives_next(s, (1i32, 1i32), b) == t.contains((1i32, 1i32)));
    assert(lives_next(s, (1i32, 2i32), b) == t.contains((1i32, 2i32)));
    assert(lives_next(s, (1i32, 3i32), b) == t.contains((1i32, 3i32)));
    assert(lives_next(s, (2i32, -2i32), b) == t.contains((2i32, -2i32)));
    assert(lives_next(s, (2i32, -1i32), b) == t.contains((2i32, -1i32)));
    assert(lives_next(s, (2i32, 0i32), b) == t.contains((2i32, 0i32)));
    assert(lives_next(s, (2i32, 1i32), b) == t.contains((2i32, 1i32)));
    assert(lives_next(s, (2i32, 2i32), b) == t.contains((2i32, 2i32)));
    assert(lives_next(s, (2i32, 3i32), b) == t.contains((2i32, 3i32)));
    assert(lives_next(s, (3i32, -2i32), b) == t.contains((3i32, -2i32)));
    assert(lives_next(s, (3i32, -1i32), b) == t.contains((3i32, -1i32)));
    assert(lives_next(s, (3i32, 0i32), b) == t.contains((3i32, 0i32)));
    assert(lives_next(s, (3i32, 1i32), b) == t.contains((3i32, 1i32)));
    assert(lives_next(s, (3i32, 2i32), b) == t.contains((3i32, 2i32)));
    assert(lives_next(s, (3i32, 3i32), b) == t.contains((3i32, 3i32)));
    assert forall|c: Cell| lives_next(s, c, b) <==> #[trigger] t.contains(c) by {
        if !(-2 <= c.0 <= 3 && -2 <= c.1 <= 3) {
            assert(!t.contains(c));
        }
    }
    assert(next_generation(s, b) =~= t);
}

/// Generation 4 of the R-pentomino.
#[verifier::rlimit(100)]
proof fn lemma_r_pentomino_step_3(b: (i32, i32))
    requires
        b.0 >= 3,
        b.1 >= 3,
    ensures
        next_generation(r_pentomino_phase(3), b) == r_pentomino_phase(4),
{
    let s = r_pentomino_phase(3);
    let t = r_pentomino_phase(4);
    assert(lives_next(s, (-2i32, -2i32), b) == t.contains((-2i32, -2i32)));
    assert(lives_next(s, (-2i32, -1i32), b) == t.contains((-2i32, -1i32)));
    assert(lives_next(s, (-2i32, 0i32), b) == t.contains((-2i32, 0i32)));
    assert(lives_next(s, (-2i32, 1i32), b) == t.contains((-2i32, 1i32)));
    assert(lives_next(s, (-2i32, 2i32), b) == t.contains((-2i32, 2i32)));
    assert(lives_next(s, (-2i32, 3i32), b) == t.contains((-2i32, 3i32)));
    assert(lives_next(s, (-1i32, -2i32), b) == t.contains((-1i32, -2i32)));
    assert(lives_next(s, (-1i32, -1i32), b) == t.contains((-1i32, -1i32)));
    assert(lives_next(s, (-1i32, 0i32), b) == t.contains((-1i32, 0i32)));
    assert(lives_next(s, (-1i32, 1i32), b) == t.contains((-1i32, 1i32)));
    assert(lives_next(s, (-1i32, 2i32), b) == t.contains((-1i32, 2i32)));
    assert(lives_next(s, (-1i32, 3i32), b) == t.contains((-1i32, 3i32)));
    assert(lives_next(s, (0i32, -2i32), b) == t.contains((0i32, -2i32)));
    assert(lives_next(s, (0i32, -1i32), b) == t.contains((0i32, -1i32)));
    assert(lives_next(s, (0i32, 0i32), b) == t.contains((0i32, 0i32)));
    assert(lives_next(s, (0i32, 1i32), b) == t.contains((0i32, 1i32)));
    assert(lives_next(s, (0i32, 2i32), b) == t.contains((0i32, 2i32)));
    assert(lives_next(s, (0i32, 3i32), b) == t.contains((0i32, 3i32)));
    assert(lives_next(s, (1i32, -2i32), b) == t.contains((1i32, -2i32)));
    assert(lives_next(s, (1i32, -1i32), b) == t.contains((1i32, -1i32)));
    assert(lives_next(s, (1i32, 0i32), b) == t.contains((1i32, 0i32)));
    assert(lives_next(s, (1i32, 1i32), b) == t.contains((1i32, 1i32)));
    assert(lives_next(s, (1i32, 2i32), b) == t.contains((1i32, 2i32)));
    assert(lives_next(s, (1i32, 3i32), b) == t.contains((1i32, 3i32)));
    assert(lives_next(s, (2i32, -2i32), b) == t.contains((2i32, -2i32)));
    assert(lives_next(s, (2i32, -1i32), b) == t.contains((2i32, -1i32)));
    assert(lives_next(s, (2i32, 0i32), b) == t.contains((2i32, 0i32)));
    assert(lives_next(s, (2i32, 1i32), b) == t.contains((2i32, 1i32)));
    assert(lives_next(s, (2i32, 2i32), b) == t.contains((2i32, 2i32)));
    assert(lives_next(s, (2i32, 3i32), b) == t.contains((2i32, 3i32)));
    assert(lives_next(s, (3i32, -2i32), b) == t.contains((3i32, -2i32)));
    assert(lives_next(s, (3i32, -1i32), b) == t.contains((3i32, -1i32)));
    assert(lives_next(s, (3i32, 0i32), b) == t.contains((3i32, 0i32)));
    assert(lives_next(s, (3i32, 1i32), b) == t.contains((3i32, 1i32)));
    assert(lives_next(s, (3i32, 2i32), b) == t.contains((3i32, 2i32)));
    assert(lives_next(s, (3i32, 3i32), b) == t.contains((3i32, 3i32)));
    assert forall|c: Cell| lives_next(s, c, b) <==> #[trigger] t.contains(c) by {
        if !(-2 <= c.0 <= 3 && -2 <= c.1 <= 3) {
            assert(!t.contains(c));
        }
    }
    assert(next_generation(s, b) =~= t);
}

/// The R-pentomino as a set of cells.
proof fn lemma_r_pentomino_cells()
    ensures
        spec_r_pentomino().to_set() == r_pentomino_phase(0),
{
    let q = spec_r_pentomino();
    assert forall|c: Cell| q.to_set().contains(c) <==> #[trigger] r_pentomino_phase(0).contains(c) by {
        if r_pentomino_phase(0).contains(c) {
            if c == q[0] {
                assert(q.contains(q[0]));
            }
            if c == q[1] {
                assert(q.contains(q[1]));
            }
            if c == q[2] {
                assert(q.contains(q[2]));
            }
            if c == q[3] {
                assert(q.contains(q[3]));
            }
            if c == q[4] {
                assert(q.contains(q[4]));
            }
        }
    }
    assert(q.to_set() =~= r_pentomino_phase(0));
}

/// The lightweight spaceship after each of its first 4 generations (0 being the pattern itself).
spec fn lwss_phase(k: int) -> Set<Cell> {
    if k == 0 {
        set![(0i32, 0i32), (0i32, 2i32), (1i32, 3i32), (2i32, 3i32), (3i32, 0i32), (3i32, 3i32), (4i32, 1i32), (4i32, 2i32), (4i32, 3i32)]
    } else if k == 1 {
        set![(1i32, 2i32), (1i32, 3i32), (2i32, 2i32), (2i32, 3i32), (2i32, 4i32), (3i32, 1i32), (3i32, 3i32), (3i32, 4i32), (4i32, 1i32), (4i32, 2i32), (4i32, 3i32), (5i32, 2i32)]
    } else if k == 2 {
        set![(1i32, 2i32), (1i32, 4i32), (2i32, 1i32), (3i32, 1i32), (4i32, 1i32), (4i32, 4i32), (5i32, 1i32), (5i32, 2i32), (5i32, 3i32)]
    } else if k == 3 {
        set![(2i32, 1i32), (2i32, 2i32), (3i32, 0i32), (3i32, 1i32), (3i32, 2i32), (4i32, 0i32), (4i32, 1i32), (4i32, 3i32), (5i32, 1i32), (5i32, 2i32), (5i32, 3i32), (6i32, 2i32)]
    } else {
        set![(2i32, 0i32), (2i32, 2i32), (3i32, 3i32), (4i32, 3i32), (5i32, 0i32), (5i32, 3i32), (6i32, 1i32), (6i32, 2i32), (6i32, 3i32)]
    }
}

/// Generation 1 of the lightweight spaceship.
#[verifier::rlimit(100)]
proof fn lemma_lwss_step_0(b: (i32, i32))
    requires
        b.0 >= 7,
        b.1 >= 5,
    ensures
        next_generation(lwss_phase(0), b) == lwss_phase(1),
{
    let s = lwss_phase(0);
    let t = lwss_phase(1);
    assert(lives_next(s, (-1i32, -1i32), b) == t.contains((-1i32, -1i32)));
    assert(lives_next(s, (-1i32, 0i32), b) == t.contains((-1i32, 0i32)));
    assert(lives_next(s, (-1i32, 1i32), b) == t.contains((-1i32, 1i32)));
    assert(lives_next(s, (-1i32, 2i32), b) == t.contains((-1i32, 2i32)));
    assert(lives_next(s, (-1i32, 3i32), b) == t.contains((-1i32, 3i32)));
    assert(lives_next(s, (-1i32, 4i32), b) == t.contains((-1i32, 4i32)));
    assert(lives_next(s, (-1i32, 5i32), b) == t.contains((-1i32, 5i32)));
    assert(lives_next(s, (0i32, -1i32), b) == t.contains((0i32, -1i32)));
    assert(lives_next(s, (0i32, 0i32), b) == t.contains((0i32, 0i32)));
    assert(lives_next(s, (0i32, 1i32), b) == t.contains((0i32, 1i32)));
    assert(lives_next(s, (0i32, 2i32), b) == t.contains((0i32, 2i32)));
    assert(lives_next(s, (0i32, 3i32), b) == t.contains((0i32, 3i32)));
    assert(lives_next(s, (0i32, 4i32), b) == t.contains((0i32, 4i32)));
    assert(lives_next(s, (0i32, 5i32), b) == t.contains((0i32, 5i32)));
    assert(lives_next(s, (1i32, -1i32), b) == t.contains((1i32, -1i32)));
    assert(lives_next(s, (1i32, 0i32), b) == t.contains((1i32, 0i32)));
    assert(lives_next(s, (1i32, 1i32), b) == t.contains((1i32, 1i32)));
    assert(lives_next(s, (1i32, 2i32), b) == t.contains((1i32, 2i32)));
    assert(lives_next(s, (1i32, 3i32), b) == t.contains((1i32, 3i32)));
    assert(lives_next(s, (1i32, 4i32), b) == t.contains((1i32, 4i32)));
    assert(lives_next(s, (1i32, 5i32), b) == t.contains((1i32, 5i32)));
    assert(lives_next(s, (2i32, -1i32), b) == t.contains((2i32, -1i32)));
    assert(lives_next(s, (2i32, 0i32), b) == t.contains((2i32, 0i32)));
    assert(lives_next(s, (2i32, 1i32), b) == t.contains((2i32, 1i32)));
    assert(lives_next(s, (2i32, 2i32), b) == t.contains((2i32, 2i32)));
    assert(lives_next(s, (2i32, 3i32), b) == t.contains((2i32, 3i32)));
    assert(lives_next(s, (2i32, 4i32), b) == t.contains((2i32, 4i32)));
    assert(lives_next(s, (2i32, 5i32), b) == t.contains((2i32, 5i32)));
    assert(lives_next(s, (3i32, -1i32), b) == t.contains((3i32, -1i32)));
    assert(lives_next(s, (3i32, 0i32), b) == t.contains((3i32, 0i32)));
    assert(lives_next(s, (3i32, 1i32), b) == t.contains((3i32, 1i32)));
    assert(lives_next(s, (3i32, 2i32), b) == t.contains((3i32, 2i32)));
    assert(lives_next(s, (3i32, 3i32), b) == t.contains((3i32, 3i32)));
    assert(lives_next(s, (3i32, 4i32), b) == t.contains((3i32, 4i32)));
    assert(lives_next(s, (3i32, 5i32), b) == t.contains((3i32, 5i32)));
    assert(lives_next(s, (4i32, -1i32), b) == t.contains((4i32, -1i32)));
    assert(lives_next(s, (4i32, 0i32), b) == t.contains((4i32, 0i32)));
    assert(lives_next(s, (4i32, 1i32), b) == t.contains((4i32, 1i32)));
    assert(lives_next(s, (4i32, 2i32), b) == t.contains((4i32, 2i32)));
    assert(lives_next(s, (4i32, 3i32), b) == t.contains((4i32, 3i32)));
    assert(lives_next(s, (4i32, 4i32), b) == t.contains((4i32, 4i32)));
    assert(lives_next(s, (4i32, 5i32), b) == t.contains((4i32, 5i32)));
    assert(lives_next(s, (5i32, -1i32), b) == t.contains((5i32, -1i32)));
    assert(lives_next(s, (5i32, 0i32), b) == t.contains((5i32, 0i32)));
    assert(lives_next(s, (5i32, 1i32), b) == t.contains((5i32, 1i32)));
    assert(lives_next(s, (5i32, 2i32), b) == t.contains((5i32, 2i32)));
    assert(lives_next(s, (5i32, 3i32), b) == t.contains((5i32, 3i32)));
    assert(lives_next(s, (5i32, 4i32), b) == t.contains((5i32, 4i32)));
    assert(lives_next(s, (5i32, 5i32), b) == t.contains((5i32, 5i32)));
    assert(lives_next(s, (6i32, -1i32), b) == t.contains((6i32, -1i32)));
    assert(lives_next(s, (6i32, 0i32), b) == t.contains((6i32, 0i32)));
    assert(lives_next(s, (6i32, 1i32), b) == t.contains((6i32, 1i32)));
    assert(lives_next(s, (6i32, 2i32), b) == t.contains((6i32, 2i32)));
    assert(lives_next(s, (6i32, 3i32), b) == t.contains((6i32, 3i32)));
    assert(lives_next(s, (6i32, 4i32), b) == t.contains((6i32, 4i32)));
    assert(lives_next(s, (6i32, 5i32), b) == t.contains((6i32, 5i32)));
    assert(lives_next(s, (7i32, -1i32), b) == t.contains((7i32, -1i32)));
    assert(lives_next(s, (7i32, 0i32), b) == t.contains((7i32, 0i32)));
    assert(lives_next(s, (7i32, 1i32), b) == t.contains((7i32, 1i32)));
    assert(lives_next(s, (7i32, 2i32), b) == t.contains((7i32, 2i32)));
    assert(lives_next(s, (7i32, 3i32), b) == t.contains((7i32, 3i32)));
    assert(lives_next(s, (7i32, 4i32), b) == t.contains((7i32, 4i32)));
    assert(lives_next(s, (7i32, 5i32), b) == t.contains((7i32, 5i32)));
    assert forall|c: Cell| lives_next(s, c, b) <==> #[trigger] t.contains(c) by {
        if !(-1 <= c.0 <= 7 && -1 <= c.1 <= 5) {
            assert(!t.contains(c));
        }
    }
    assert(next_generation(s, b) =~= t);
}

/// Generation 2 of the lightweight spaceship.
#[verifier::rlimit(100)]
proof fn lemma_lwss_step_1(b: (i32, i32))
    requires
        b.0 >= 7,
        b.1 >= 5,
    ensures
        next_generation(lwss_phase(1), b) == lwss_phase(2),
{
    let s = lwss_phase(1);
    let t = lwss_phase(2);
    assert(lives_next(s, (-1i32, -1i32), b) == t.contains((-1i32, -1i32)));
    assert(lives_next(s, (-1i32, 0i32), b) == t.contains((-1i32, 0i32)));
    assert(lives_next(s, (-1i32, 1i32), b) == t.contains((-1i32, 1i32)));
    assert(lives_next(s, (-1i32, 2i32), b) == t.contains((-1i32, 2i32)));
    assert(lives_next(s, (-1i32, 3i32), b) == t.contains((-1i32, 3i32)));
    assert(lives_next(s, (-1i32, 4i32), b) == t.contains((-1i32, 4i32)));
    assert(lives_next(s, (-1i32, 5i32), b) == t.contains((-1i32, 5i32)));
    assert(lives_next(s, (0i32, -1i32), b) == t.contains((0i32, -1i32)));
    assert(lives_next(s, (0i32, 0i32), b) == t.contains((0i32, 0i32)));
    assert(lives_next(s, (0i32, 1i32), b) == t.contains((0i32, 1i32)));
    assert(lives_next(s, (0i32, 2i32), b) == t.contains((0i32, 2i32)));
    assert(lives_next(s, (0i32, 3i32), b) == t.contains((0i32, 3i32)));
    assert(lives_next(s, (0i32, 4i32), b) == t.contains((0i32, 4i32)));
    assert(lives_next(s, (0i32, 5i32), b) == t.contains((0i32, 5i32)));
    assert(lives_next(s, (1i32, -1i32), b) == t.contains((1i32, -1i32)));
    assert(lives_next(s, (1i32, 0i32), b) == t.contains((1i32, 0i32)));
    assert(lives_next(s, (1i32, 1i32), b) == t.contains((1i32, 1i32)));
    assert(lives_next(s, (1i32, 2i32), b) == t.contains((1i32, 2i32)));
    assert(lives_next(s, (1i32, 3i32), b) == t.contains((1i32, 3i32)));
    assert(lives_next(s, (1i32, 4i32), b) == t.contains((1i32, 4i32)));
    assert(lives_next(s, (1i32, 5i32), b) == t.contains((1i32, 5i32)));
    assert(lives_next(s, (2i32, -1i32), b) == t.contains((2i32, -1i32)));
    assert(lives_next(s, (2i32, 0i32), b) == t.contains((2i32, 0i32)));
    assert(lives_next(s, (2i32, 1i32), b) == t.contains((2i32, 1i32)));
    assert(lives_next(s, (2i32, 2i32), b) == t.contains((2i32, 2i32)));
    assert(lives_next(s, (2i32, 3i32), b) == t.contains((2i32, 3i32)));
    assert(lives_next(s, (2i32, 4i32), b) == t.contains((2i32, 4i32)));
    assert(lives_next(s, (2i32, 5i32), b) == t.contains((2i32, 5i32)));
    assert(lives_next(s, (3i32, -1i32), b) == t.contains((3i32, -1i32)));
    assert(lives_next(s, (3i32, 0i32), b) == t.contains((3i32, 0i32)));
    assert(lives_next(s, (3i32, 1i32), b) == t.contains((3i32, 1i32)));
    assert(lives_next(s, (3i32, 2i32), b) == t.contains((3i32, 2i32)));
    assert(lives_next(s, (3i32, 3i32), b) == t.contains((3i32, 3i32)));
    assert(lives_next(s, (3i32, 4i32), b) == t.contains((3i32, 4i32)));
    assert(lives_next(s, (3i32, 5i32), b) == t.contains((3i32, 5i32)));
    assert(lives_next(s, (4i32, -1i32), b) == t.contains((4i32, -1i32)));
    assert(lives_next(s, (4i32, 0i32), b) == t.contains((4i32, 0i32)));
    assert(lives_next(s, (4i32, 1i32), b) == t.contains((4i32, 1i32)));
    assert(lives_next(s, (4i32, 2i32), b) == t.contains((4i32, 2i32)));
    assert(lives_next(s, (4i32, 3i32), b) == t.contains((4i32, 3i32)));
    assert(lives_next(s, (4i32, 4i32), b) == t.contains((4i32, 4i32)));
    assert(lives_next(s, (4i32, 5i32), b) == t.contains((4i32, 5i32)));
    assert(lives_next(s, (5i32, -1i32), b) == t.contains((5i32, -1i32)));
    assert(lives_next(s, (5i32, 0i32), b) == t.contains((5i32, 0i32)));
    assert(lives_next(s, (5i32, 1i32), b) == t.contains((5i32, 1i32)));
    assert(lives_next(s, (5i32, 2i32), b) == t.contains((5i32, 2i32)));
    assert(lives_next(s, (5i32, 3i32), b) == t.contains((5i32, 3i32)));
    assert(lives_next(s, (5i32, 4i32), b) == t.contains((5i32, 4i32)));
    assert(lives_next(s, (5i32, 5i32), b) == t.contains((5i32, 5i32)));
    assert(lives_next(s, (6i32, -1i32), b) == t.contains((6i32, -1i32)));
    assert(lives_next(s, (6i32, 0i32), b) == t.contains((6i32, 0i32)));
    assert(lives_next(s, (6i32, 1i32), b) == t.contains((6i32, 1i32)));
    assert(lives_next(s, (6i32, 2i32), b) == t.contains((6i32, 2i32)));
    assert(lives_next(s, (6i32, 3i32), b) == t.contains((6i32, 3i32)));
    assert(lives_next(s, (6i32, 4i32), b) == t.contains((6i32, 4i32)));
    assert(lives_next(s, (6i32, 5i32), b) == t.contains((6i32, 5i32)));
    assert(lives_next(s, (7i32, -1i32), b) == t.contains((7i32, -1i32)));
    assert(lives_next(s, (7i32, 0i32), b) == t.contains((7i32, 0i32)));
    assert(lives_next(s, (7i32, 1i32), b) == t.contains((7i32, 1i32)));
    assert(lives_next(s, (7i32, 2i32), b) == t.contains((7i32, 2i32)));
    assert(lives_next(s, (7i32, 3i32), b) == t.contains((7i32, 3i32)));
    assert(lives_next(s, (7i32, 4i32), b) == t.contains((7i32, 4i32)));
    assert(lives_next(s, (7i32, 5i32), b) == t.contains((7i32, 5i32)));
    assert forall|c: Cell| lives_next(s, c, b) <==> #[trigger] t.contains(c) by {
        if !(-1 <= c.0 <= 7 && -1 <= c.1 <= 5) {
            assert(!t.contains(c));
        }
    }
    assert(next_generation(s, b) =~= t);
}

/// Generation 3 of the lightweight spaceship.
#[verifier::rlimit(100)]
proof fn lemma_lwss_step_2(b: (i32, i32))
    requires
        b.0 >= 7,
        b.1 >= 5,
    ensures
        next_generation(lwss_phase(2), b) == lwss_phase(3),
{
    let s = lwss_phase(2);
    let t = lwss_phase(3);
    assert(lives_next(s, (-1i32, -1i32), b) == t.contains((-1i32, -1i32)));
    assert(lives_next(s, (-1i32, 0i32), b) == t.contains((-1i32, 0i32)));
    assert(lives_next(s, (-1i32, 1i32), b) == t.contains((-1i32, 1i32)));
    assert(lives_next(s, (-1i32, 2i32), b) == t.contains((-1i32, 2i32)));
    assert(lives_next(s, (-1i32, 3i32), b) == t.contains((-1i32, 3i32)));
    assert(lives_next(s, (-1i32, 4i32), b) == t.contains((-1i32, 4i32)));
    assert(lives_next(s, (-1i32, 5i32), b) == t.contains((-1i32, 5i32)));
    assert(lives_next(s, (0i32, -1i32), b) == t.contains((0i32, -1i32)));
    assert(lives_next(s, (0i32, 0i32), b) == t.contains((0i32, 0i32)));
    assert(lives_next(s, (0i32, 1i32), b) == t.contains((0i32, 1i32)));
    assert(lives_next(s, (0i32, 2i32), b) == t.contains((0i32, 2i32)));
    assert(lives_next(s, (0i32, 3i32), b) == t.contains((0i32, 3i32)));
    assert(lives_next(s, (0i32, 4i32), b) == t.contains((0i32, 4i32)));
    assert(lives_next(s, (0i32, 5i32), b) == t.contains((0i32, 5i32)));
    assert(lives_next(s, (1i32, -1i32), b) == t.contains((1i32, -1i32)));
    assert(lives_next(s, (1i32, 0i32), b) == t.contains((1i32, 0i32)));
    assert(lives_next(s, (1i32, 1i32), b) == t.contains((1i32, 1i32)));
    assert(lives_next(s, (1i32, 2i32), b) == t.contains((1i32, 2i32)));
    assert(lives_next(s, (1i32, 3i32), b) == t.contains((1i32, 3i32)));
    assert(lives_next(s, (1i32, 4i32), b) == t.contains((1i32, 4i32)));
    assert(lives_next(s, (1i32, 5i32), b) == t.contains((1i32, 5i32)));
    assert(lives_next(s, (2i32, -1i32), b) == t.contains((2i32, -1i32)));
    assert(lives_next(s, (2i32, 0i32), b) == t.contains((2i32, 0i32)));
    assert(lives_next(s, (2i32, 1i32), b) == t.contains((2i32, 1i32)));
    assert(lives_next(s, (2i32, 2i32), b) == t.contains((2i32, 2i32)));
    assert(lives_next(s, (2i32, 3i32), b) == t.contains((2i32, 3i32)));
    assert(lives_next(s, (2i32, 4i32), b) == t.contains((2i32, 4i32)));
    assert(lives_next(s, (2i32, 5i32), b) == t.contains((2i32, 5i32)));
    assert(lives_next(s, (3i32, -1i32), b) == t.contains((3i32, -1i32)));
    assert(lives_next(s, (3i32, 0i32), b) == t.contains((3i32, 0i32)));
    assert(lives_next(s, (3i32, 1i32), b) == t.contains((3i32, 1i32)));
    assert(lives_next(s, (3i32, 2i32), b) == t.contains((3i32, 2i32)));
    assert(lives_next(s, (3i32, 3i32), b) == t.contains((3i32, 3i32)));
    assert(lives_next(s, (3i32, 4i32), b) == t.contains((3i32, 4i32)));
    assert(lives_next(s, (3i32, 5i32), b) == t.contains((3i32, 5i32)));
    assert(lives_next(s, (4i32, -1i32), b) == t.contains((4i32, -1i32)));
    assert(lives_next(s, (4i32, 0i32), b) == t.contains((4i32, 0i32)));
    assert(lives_next(s, (4i32, 1i32), b) == t.contains((4i32, 1i32)));
    assert(lives_next(s, (4i32, 2i32), b) == t.contains((4i32, 2i32)));
    assert(lives_next(s, (4i32, 3i32), b) == t.contains((4i32, 3i32)));
    assert(lives_next(s, (4i32, 4i32), b) == t.contains((4i32, 4i32)));
    assert(lives_next(s, (4i32, 5i32), b) == t.contains((4i32, 5i32)));
    assert(lives_next(s, (5i32, -1i32), b) == t.contains((5i32, -1i32)));
    assert(lives_next(s, (5i32, 0i32), b) == t.contains((5i32, 0i32)));
    assert(lives_next(s, (5i32, 1i32), b) == t.contains((5i32, 1i32)));
    assert(lives_next(s, (5i32, 2i32), b) == t.contains((5i32, 2i32)));
    assert(lives_next(s, (5i32, 3i32), b) == t.contains((5i32, 3i32)));
    assert(lives_next(s, (5i32, 4i32), b) == t.contains((5i32, 4i32)));
    assert(lives_next(s, (5i32, 5i32), b) == t.contains((5i32, 5i32)));
    assert(lives_next(s, (6i32, -1i32), b) == t.contains((6i32, -1i32)));
    assert(lives_next(s, (6i32, 0i32), b) == t.contains((6i32, 0i32)));
    assert(lives_next(s, (6i32, 1i32), b) == t.contains((6i32, 1i32)));
    assert(lives_next(s, (6i32, 2i32), b) == t.contains((6i32, 2i32)));
    assert(lives_next(s, (6i32, 3i32), b) == t.contains((6i32, 3i32)));
    assert(lives_next(s, (6i32, 4i32), b) == t.contains((6i32, 4i32)));
    assert(lives_next(s, (6i32, 5i32), b) == t.contains((6i32, 5i32)));
    assert(lives_next(s, (7i32, -1i32), b) == t.contains((7i32, -1i32)));
    assert(lives_next(s, (7i32, 0i32), b) == t.contains((7i32, 0i32)));
    assert(lives_next(s, (7i32, 1i32), b) == t.contains((7i32, 1i32)));
    assert(lives_next(s, (7i32, 2i32), b) == t.contains((7i32, 2i32)));
    assert(lives_next(s, (7i32, 3i32), b) == t.contains((7i32, 3i32)));
    assert(lives_next(s, (7i32, 4i32), b) == t.contains((7i32, 4i32)));
    assert(lives_next(s, (7i32, 5i32), b) == t.contains((7i32, 5i32)));
    assert forall|c: Cell| lives_next(s, c, b) <==> #[trigger] t.contains(c) by {
        if !(-1 <= c.0 <= 7 && -1 <= c.1 <= 5) {
            assert(!t.contains(c));
        }
    }
    assert(next_generation(s, b) =~= t);
}

/// Generation 4 of the lightweight spaceship.
#[verifier::rlimit(100)]
proof fn lemma_lwss_step_3(b: (i32, i32))
    requires
        b.0 >= 7,
        b.1 >= 5,
    ensures
        next_generation(lwss_phase(3), b) == lwss_phase(4),
{
    let s = lwss_phase(3);
    let t = lwss_phase(4);
    assert(lives_next(s, (-1i32, -1i32), b) == t.contains((-1i32, -1i32)));
    assert(lives_next(s, (-1i32, 0i32), b) == t.contains((-1i32, 0i32)));
    assert(lives_next(s, (-1i32, 1i32), b) == t.contains((-1i32, 1i32)));
    assert(lives_next(s, (-1i32, 2i32), b) == t.contains((-1i32, 2i32)));
    assert(lives_next(s, (-1i32, 3i32), b) == t.contains((-1i32, 3i32)));
    assert(lives_next(s, (-1i32, 4i32), b) == t.contains((-1i32, 4i32)));
    assert(lives_next(s, (-1i32, 5i32), b) == t.contains((-1i32, 5i32)));
    assert(lives_next(s, (0i32, -1i32), b) == t.contains((0i32, -1i32)));
    assert(lives_next(s, (0i32, 0i32), b) == t.contains((0i32, 0i32)));
    assert(lives_next(s, (0i32, 1i32), b) == t.contains((0i32, 1i32)));
    assert(lives_next(s, (0i32, 2i32), b) == t.contains((0i32, 2i32)));
    assert(lives_next(s, (0i32, 3i32), b) == t.contains((0i32, 3i32)));
    assert(lives_next(s, (0i32, 4i32), b) == t.contains((0i32, 4i32)));
    assert(lives_next(s, (0i32, 5i32), b) == t.contains((0i32, 5i32)));
    assert(lives_next(s, (1i32, -1i32), b) == t.contains((1i32, -1i32)));
    assert(lives_next(s, (1i32, 0i32), b) == t.contains((1i32, 0i32)));
    assert(lives_next(s, (1i32, 1i32), b) == t.contains((1i32, 1i32)));
    assert(lives_next(s, (1i32, 2i32), b) == t.contains((1i32, 2i32)));
    assert(lives_next(s, (1i32, 3i32), b) == t.contains((1i32, 3i32)));
    assert(lives_next(s, (1i32, 4i32), b) == t.contains((1i32, 4i32)));
    assert(lives_next(s, (1i32, 5i32), b) == t.contains((1i32, 5i32)));
    assert(lives_next(s, (2i32, -1i32), b) == t.contains((2i32, -1i32)));
    assert(lives_next(s, (2i32, 0i32), b) == t.contains((2i32, 0i32)));
    assert(lives_next(s, (2i32, 1i32), b) == t.contains((2i32, 1i32)));
    assert(lives_next(s, (2i32, 2i32), b) == t.contains((2i32, 2i32)));
    assert(lives_next(s, (2i32, 3i32), b) == t.contains((2i32, 3i32)));
    assert(lives_next(s, (2i32, 4i32), b) == t.contains((2i32, 4i32)));
    assert(lives_next(s, (2i32, 5i32), b) == t.contains((2i32, 5i32)));
    assert(lives_next(s, (3i32, -1i32), b) == t.contains((3i32, -1i32)));
    assert(lives_next(s, (3i32, 0i32), b) == t.contains((3i32, 0i32)));
    assert(lives_next(s, (3i32, 1i32), b) == t.contains((3i32, 1i32)));
    assert(lives_next(s, (3i32, 2i32), b) == t.contains((3i32, 2i32)));
    assert(lives_next(s, (3i32, 3i32), b) == t.contains((3i32, 3i32)));
    assert(lives_next(s, (3i32, 4i32), b) == t.contains((3i32, 4i32)));
    assert(lives_next(s, (3i32, 5i32), b) == t.contains((3i32, 5i32)));
    assert(lives_next(s, (4i32, -1i32), b) == t.contains((4i32, -1i32)));
    assert(lives_next(s, (4i32, 0i32), b) == t.contains((4i32, 0i32)));
    assert(lives_next(s, (4i32, 1i32), b) == t.contains((4i32, 1i32)));
    assert(lives_next(s, (4i32, 2i32), b) == t.contains((4i32, 2i32)));
    assert(lives_next(s, (4i32, 3i32), b) == t.contains((4i32, 3i32)));
    assert(lives_next(s, (4i32, 4i32), b) == t.contains((4i32, 4i32)));
    assert(lives_next(s, (4i32, 5i32), b) == t.contains((4i32, 5i32)));
    assert(lives_next(s, (5i32, -1i32), b) == t.contains((5i32, -1i32)));
    assert(lives_next(s, (5i32, 0i32), b) == t.contains((5i32, 0i32)));
    assert(lives_next(s, (5i32, 1i32), b) == t.contains((5i32, 1i32)));
    assert(lives_next(s, (5i32, 2i32), b) == t.contains((5i32, 2i32)));
    assert(lives_next(s, (5i32, 3i32), b) == t.contains((5i32, 3i32)));
    assert(lives_next(s, (5i32, 4i32), b) == t.contains((5i32, 4i32)));
    assert(lives_next(s, (5i32, 5i32), b) == t.contains((5i32, 5i32)));
    assert(lives_next(s, (6i32, -1i32), b) == t.contains((6i32, -1i32)));
    assert(lives_next(s, (6i32, 0i32), b) == t.contains((6i32, 0i32)));
    assert(lives_next(s, (6i32, 1i32), b) == t.contains((6i32, 1i32)));
    assert(lives_next(s, (6i32, 2i32), b) == t.contains((6i32, 2i32)));
    assert(lives_next(s, (6i32, 3i32), b) == t.contains((6i32, 3i32)));
    assert(lives_next(s, (6i32, 4i32), b) == t.contains((6i32, 4i32)));
    assert(lives_next(s, (6i32, 5i32), b) == t.contains((6i32, 5i32)));
    assert(lives_next(s, (7i32, -1i32), b) == t.contains((7i32, -1i32)));
    assert(lives_next(s, (7i32, 0i32), b) == t.contains((7i32, 0i32)));
    assert(lives_next(s, (7i32, 1i32), b) == t.contains((7i32, 1i32)));
    assert(lives_next(s, (7i32, 2i32), b) == t.contains((7i32, 2i32)));
    assert(lives_next(s, (7i32, 3i32), b) == t.contains((7i32, 3i32)));
    assert(lives_next(s, (7i32, 4i32), b) == t.contains((7i32, 4i32)));
    assert(lives_next(s, (7i32, 5i32), b) == t.contains((7i32, 5i32)));
    assert forall|c: Cell| lives_next(s, c, b) <==> #[trigger] t.contains(c) by {
        if !(-1 <= c.0 <= 7 && -1 <= c.1 <= 5) {
            assert(!t.contains(c));
        }
    }
    assert(next_generation(s, b) =~= t);
}

/// The lightweight spaceship as a set of cells.
proof fn lemma_lwss_cells()
    ensures
        spec_lwss().to_set() == lwss_phase(0),
{
    let q = spec_lwss();
    assert forall|c: Cell| q.to_set().contains(c) <==> #[trigger] lwss_phase(0).contains(c) by {
        if lwss_phase(0).contains(c) {
            if c == q[0] {
                assert(q.contains(q[0]));
            }
            if c == q[1] {
                assert(q.contains(q[1]));
            }
            if c == q[2] {
                assert(q.contains(q[2]));
            }
            if c == q[3] {
                assert(q.contains(q[3]));
            }
            if c == q[4] {
                assert(q.contains(q[4]));
            }
            if c == q[5] {
                assert(q.contains(q[5]));
            }
            if c == q[6] {
                assert(q.contains(q[6]));
            }
            if c == q[7] {
                assert(q.contains(q[7]));
            }
            if c == q[8] {
                assert(q.contains(q[8]));
            }
        }
    }
    assert(q.to_set() =~= lwss_phase(0));
}

/// The pulsar after each of its first 3 generations (0 being the pattern itself).
spec fn pulsar_phase(k: int) -> Set<Cell> {
    if k == 0 {
        set![(0i32, 2i32), (0i32, 3i32), (0i32, 4i32), (0i32, 8i32), (0i32, 9i32), (0i32, 10i32), (2i32, 0i32), (2i32, 5i32), (2i32, 7i32), (2i32, 12i32), (3i32, 0i32), (3i32, 5i32), (3i32, 7i32), (3i32, 12i32), (4i32, 0i32), (4i32, 5i32), (4i32, 7i32), (4i32, 12i32), (5i32, 2i32), (5i32, 3i32), (5i32, 4i32), (5i32, 8i32), (5i32, 9i32), (5i32, 10i32), (7i32, 2i32), (7i32, 3i32), (7i32, 4i32), (7i32, 8i32), (7i32, 9i32), (7i32, 10i32), (8i32, 0i32), (8i32, 5i32), (8i32, 7i32), (8i32, 12i32), (9i32, 0i32), (9i32, 5i32), (9i32, 7i32), (9i32, 12i32), (10i32, 0i32), (10i32, 5i32), (10i32, 7i32), (10i32, 12i32), (12i32, 2i32), (12i32, 3i32), (12i32, 4i32), (12i32, 8i32), (12i32, 9i32), (12i32, 10i32)]
    } else if k == 1 {
        set![(-1i32, 3i32), (-1i32, 9i32), (0i32, 3i32), (0i32, 9i32), (1i32, 3i32), (1i32, 4i32), (1i32, 8i32), (1i32, 9i32), (3i32, -1i32), (3i32, 0i32), (3i32, 1i32), (3i32, 4i32), (3i32, 5i32), (3i32, 7i32), (3i32, 8i32), (3i32, 11i32), (3i32, 12i32), (3i32, 13i32), (4i32, 1i32), (4i32, 3i32), (4i32, 5i32), (4i32, 7i32), (4i32, 9i32), (4i32, 11i32), (5i32, 3i32), (5i32, 4i32), (5i32, 8i32), (5i32, 9i32), (7i32, 3i32), (7i32, 4i32), (7i32, 8i32), (7i32, 9i32), (8i32, 1i32), (8i32, 3i32), (8i32, 5i32), (8i32, 7i32), (8i32, 9i32), (8i32, 11i32), (9i32, -1i32), (9i32, 0i32), (9i32, 1i32), (9i32, 4i32), (9i32, 5i32), (9i32, 7i32), (9i32, 8i32), (9i32, 11i32), (9i32, 12i32), (9i32, 13i32), (11i32, 3i32), (11i32, 4i32), (11i32, 8i32), (11i32, 9i32), (12i32, 3i32), (12i32, 9i32), (13i32, 3i32), (13i32, 9i32)]
    } else if k == 2 {
        set![(0i32, 2i32), (0i32, 3i32), (0i32, 9i32), (0i32, 10i32), (1i32, 3i32), (1i32, 4i32), (1i32, 8i32), (1i32, 9i32), (2i32, 0i32), (2i32, 3i32), (2i32, 5i32), (2i32, 7i32), (2i32, 9i32), (2i32, 12i32), (3i32, 0i32), (3i32, 1i32), (3i32, 2i32), (3i32, 4i32), (3i32, 5i32), (3i32, 7i32), (3i32, 8i32), (3i32, 10i32), (3i32, 11i32), (3i32, 12i32), (4i32, 1i32), (4i32, 3i32), (4i32, 5i32), (4i32, 7i32), (4i32, 9i32), (4i32, 11i32), (5i32, 2i32), (5i32, 3i32), (5i32, 4i32), (5i32, 8i32), (5i32, 9i32), (5i32, 10i32), (7i32, 2i32), (7i32, 3i32), (7i32, 4i32), (7i32, 8i32), (7i32, 9i32), (7i32, 10i32), (8i32, 1i32), (8i32, 3i32), (8i32, 5i32), (8i32, 7i32), (8i32, 9i32), (8i32, 11i32), (9i32, 0i32), (9i32, 1i32), (9i32, 2i32), (9i32, 4i32), (9i32, 5i32), (9i32, 7i32), (9i32, 8i32), (9i32, 10i32), (9i32, 11i32), (9i32, 12i32), (10i32, 0i32), (10i32, 3i32), (10i32, 5i32), (10i32, 7i32), (10i32, 9i32), (10i32, 12i32), (11i32, 3i32), (11i32, 4i32), (11i32, 8i32), (11i32, 9i32), (12i32, 2i32), (12i32, 3i32), (12i32, 9i32), (12i32, 10i32)]
    } else {
        set![(0i32, 2i32), (0i32, 3i32), (0i32, 4i32), (0i32, 8i32), (0i32, 9i32), (0i32, 10i32), (2i32, 0i32), (2i32, 5i32), (2i32, 7i32), (2i32, 12i32), (3i32, 0i32), (3i32, 5i32), (3i32, 7i32), (3i32, 12i32), (4i32, 0i32), (4i32, 5i32), (4i32, 7i32), (4i32, 12i32), (5i32, 2i32), (5i32, 3i32), (5i32, 4i32), (5i32, 8i32), (5i32, 9i32), (5i32, 10i32), (7i32, 2i32), (7i32, 3i32), (7i32, 4i32), (7i32, 8i32), (7i32, 9i32), (7i32, 10i32), (8i32, 0i32), (8i32, 5i32), (8i32, 7i32), (8i32, 12i32), (9i32, 0i32), (9i32, 5i32), (9i32, 7i32), (9i32, 12i32), (10i32, 0i32), (10i32, 5i32), (10i32, 7i32), (10i32, 12i32), (12i32, 2i32), (12i32, 3i32), (12i32, 4i32), (12i32, 8i32), (12i32, 9i32), (12i32, 10i32)]
    }
}

/// Generation 1 of the pulsar.
#[verifier::rlimit(100)]
proof fn lemma_pulsar_step_0(b: (i32, i32))
    requires
        b.0 >= 14,
        b.1 >= 14,
    ensures
        next_generation(pulsar_phase(0), b) == pulsar_phase(1),
{
    let s = pulsar_phase(0);
    let t = pulsar_phase(1);
    assert(lives_next(s, (-2i32, -2i32), b) == t.contains((-2i32, -2i32)));
    assert(lives_next(s, (-2i32, -1i32), b) == t.contains((-2i32, -1i32)));
    assert(lives_next(s, (-2i32, 0i32), b) == t.contains((-2i32, 0i32)));
    assert(lives_next(s, (-2i32, 1i32), b) == t.contains((-2i32, 1i32)));
    assert(lives_next(s, (-2i32, 2i32), b) == t.contains((-2i32, 2i32)));
    assert(lives_next(s, (-2i32, 3i32), b) == t.contains((-2i32, 3i32)));
    assert(lives_next(s, (-2i32, 4i32), b) == t.contains((-2i32, 4i32)));
    assert(lives_next(s, (-2i32, 5i32), b) == t.contains((-2i32, 5i32)));
    assert(lives_next(s, (-2i32, 6i32), b) == t.contains((-2i32, 6i32)));
    assert(lives_next(s, (-2i32, 7i32), b) == t.contains((-2i32, 7i32)));
    assert(lives_next(s, (-2i32, 8i32), b) == t.contains((-2i32, 8i32)));
    assert(lives_next(s, (-2i32, 9i32), b) == t.contains((-2i32, 9i32)));
    assert(lives_next(s, (-2i32, 10i32), b) == t.contains((-2i32, 10i32)));
    assert(lives_next(s, (-2i32, 11i32), b) == t.contains((-2i32, 11i32)));
    assert(lives_next(s, (-2i32, 12i32), b) == t.contains((-2i32, 12i32)));
    assert(lives_next(s, (-2i32, 13i32), b) == t.contains((-2i32, 13i32)));
    assert(lives_next(s, (-2i32, 14i32), b) == t.contains((-2i32, 14i32)));
    assert(lives_next(s, (-1i32, -2i32), b) == t.contains((-1i32, -2i32)));
    assert(lives_next(s, (-1i32, -1i32), b) == t.contains((-1i32, -1i32)));
    assert(lives_next(s, (-1i32, 0i32), b) == t.contains((-1i32, 0i32)));
    assert(lives_next(s, (-1i32, 1i32), b) == t.contains((-1i32, 1i32)));
    assert(lives_next(s, (-1i32, 2i32), b) == t.contains((-1i32, 2i32)));
    assert(lives_next(s, (-1i32, 3i32), b) == t.contains((-1i32, 3i32)));
    assert(lives_next(s, (-1i32, 4i32), b) == t.contains((-1i32, 4i32)));
    assert(lives_next(s, (-1i32, 5i32), b) == t.contains((-1i32, 5i32)));
    assert(lives_next(s, (-1i32, 6i32), b) == t.contains((-1i32, 6i32)));
    assert(lives_next(s, (-1i32, 7i32), b) == t.contains((-1i32, 7i32)));
    assert(lives_next(s, (-1i32, 8i32), b) == t.contains((-1i32, 8i32)));
    assert(lives_next(s, (-1i32, 9i32), b) == t.contains((-1i32, 9i32)));
    assert(lives_next(s, (-1i32, 10i32), b) == t.contains((-1i32, 10i32)));
    assert(lives_next(s, (-1i32, 11i32), b) == t.contains((-1i32, 11i32)));
    assert(lives_next(s, (-1i32, 12i32), b) == t.contains((-1i32, 12i32)));
    assert(lives_next(s, (-1i32, 13i32), b) == t.contains((-1i32, 13i32)));
    assert(lives_next(s, (-1i32, 14i32), b) == t.contains((-1i32, 14i32)));
    assert(lives_next(s, (0i32, -2i32), b) == t.contains((0i32, -2i32)));
    assert(lives_next(s, (0i32, -1i32), b) == t.contains((0i32, -1i32)));
    assert(lives_next(s, (0i32, 0i32), b) == t.contains((0i32, 0i32)));
    assert(lives_next(s, (0i32, 1i32), b) == t.contains((0i32, 1i32)));
    assert(lives_next(s, (0i32, 2i32), b) == t.contains((0i32, 2i32)));
    assert(lives_next(s, (0i32, 3i32), b) == t.contains((0i32, 3i32)));
    assert(lives_next(s, (0i32, 4i32), b) == t.contains((0i32, 4i32)));
    assert(lives_next(s, (0i32, 5i32), b) == t.contains((0i32, 5i32)));
    assert(lives_next(s, (0i32, 6i32), b) == t.contains((0i32, 6i32)));
    assert(lives_next(s, (0i32, 7i32), b) == t.contains((0i32, 7i32)));
    assert(lives_next(s, (0i32, 8i32), b) == t.contains((0i32, 8i32)));
    assert(lives_next(s, (0i32, 9i32), b) == t.contains((0i32, 9i32)));
    assert(lives_next(s, (0i32, 10i32), b) == t.contains((0i32, 10i32)));
    assert(lives_next(s, (0i32, 11i32), b) == t.contains((0i32, 11i32)));
    assert(lives_next(s, (0i32, 12i32), b) == t.contains((0i32, 12i32)));
    assert(lives_next(s, (0i32, 13i32), b) == t.contains((0i32, 13i32)));
    assert(lives_next(s, (0i32, 14i32), b) == t.contains((0i32, 14i32)));
    assert(lives_next(s, (1i32, -2i32), b) == t.contains((1i32, -2i32)));
    assert(lives_next(s, (1i32, -1i32), b) == t.contains((1i32, -1i32)));
    assert(lives_next(s, (1i32, 0i32), b) == t.contains((1i32, 0i32)));
    assert(lives_next(s, (1i32, 1i32), b) == t.contains((1i32, 1i32)));
    assert(lives_next(s, (1i32, 2i32), b) == t.contains((1i32, 2i32)));
    assert(lives_next(s, (1i32, 3i32), b) == t.contains((1i32, 3i32)));
    assert(lives_next(s, (1i32, 4i32), b) == t.contains((1i32, 4i32)));
    assert(lives_next(s, (1i32, 5i32), b) == t.contains((1i32, 5i32)));
    assert(lives_next(s, (1i32, 6i32), b) == t.contains((1i32, 6i32)));
    assert(lives_next(s, (1i32, 7i32), b) == t.contains((1i32, 7i32)));
    assert(lives_next(s, (1i32, 8i32), b) == t.contains((1i32, 8i32)));
    assert(lives_next(s, (1i32, 9i32), b) == t.contains((1i32, 9i32)));
    assert(lives_next(s, (1i32, 10i32), b) == t.contains((1i32, 10i32)));
    assert(lives_next(s, (1i32, 11i32), b) == t.contains((1i32, 11i32)));
    assert(lives_next(s, (1i32, 12i32), b) == t.contains((1i32, 12i32)));
    assert(lives_next(s, (1i32, 13i32), b) == t.contains((1i32, 13i32)));
    assert(lives_next(s, (1i32, 14i32), b) == t.contains((1i32, 14i32)));
    assert(lives_next(s, (2i32, -2i32), b) == t.contains((2i32, -2i32)));
    assert(lives_next(s, (2i32, -1i32), b) == t.contains((2i32, -1i32)));
    assert(lives_next(s, (2i32, 0i32), b) == t.contains((2i32, 0i32)));
    assert(lives_next(s, (2i32, 1i32), b) == t.contains((2i32, 1i32)));
    assert(lives_next(s, (2i32, 2i32), b) == t.contains((2i32, 2i32)));
    assert(lives_next(s, (2i32, 3i32), b) == t.contains((2i32, 3i32)));
    assert(lives_next(s, (2i32, 4i32), b) == t.contains((2i32, 4i32)));
    assert(lives_next(s, (2i32, 5i32), b) == t.contains((2i32, 5i32)));
    assert(lives_next(s, (2i32, 6i32), b) == t.contains((2i32, 6i32)));
    assert(lives_next(s, (2i32, 7i32), b) == t.contains((2i32, 7i32)));
    assert(lives_next(s, (2i32, 8i32), b) == t.contains((2i32, 8i32)));
    assert(lives_next(s, (2i32, 9i32), b) == t.contains((2i32, 9i32)));
    assert(lives_next(s, (2i32, 10i32), b) == t.contains((2i32, 10i32)));
    assert(lives_next(s, (2i32, 11i32), b) == t.contains((2i32, 11i32)));
    assert(lives_next(s, (2i32, 12i32), b) == t.contains((2i32, 12i32)));
    assert(lives_next(s, (2i32, 13i32), b) == t.contains((2i32, 13i32)));
    assert(lives_next(s, (2i32, 14i32), b) == t.contains((2i32, 14i32)));
    assert(lives_next(s, (3i32, -2i32), b) == t.contains((3i32, -2i32)));
    assert(lives_next(s, (3i32, -1i32), b) == t.contains((3i32, -1i32)));
    assert(lives_next(s, (3i32, 0i32), b) == t.contains((3i32, 0i32)));
    assert(lives_next(s, (3i32, 1i32), b) == t.contains((3i32, 1i32)));
    assert(lives_next(s, (3i32, 2i32), b) == t.contains((3i32, 2i32)));
    assert(lives_next(s, (3i32, 3i32), b) == t.contains((3i32, 3i32)));
    assert(lives_next(s, (3i32, 4i32), b) == t.contains((3i32, 4i32)));
    assert(lives_next(s, (3i32, 5i32), b) == t.contains((3i32, 5i32)));
    assert(lives_next(s, (3i32, 6i32), b) == t.contains((3i32, 6i32)));
    assert(lives_next(s, (3i32, 7i32), b) == t.contains((3i32, 7i32)));
    assert(lives_next(s, (3i32, 8i32), b) == t.contains((3i32, 8i32)));
    assert(lives_next(s, (3i32, 9i32), b) == t.contains((3i32, 9i32)));
    assert(lives_next(s, (3i32, 10i32), b) == t.contains((3i32, 10i32)));
    assert(lives_next(s, (3i32, 11i32), b) == t.contains((3i32, 11i32)));
    assert(lives_next(s, (3i32, 12i32), b) == t.contains((3i32, 12i32)));
    assert(lives_next(s, (3i32, 13i32), b) == t.contains((3i32, 13i32)));
    assert(lives_next(s, (3i32, 14i32), b) == t.contains((3i32, 14i32)));
    assert(lives_next(s, (4i32, -2i32), b) == t.contains((4i32, -2i32)));
    assert(lives_next(s, (4i32, -1i32), b) == t.contains((4i32, -1i32)));
    assert(lives_next(s, (4i32, 0i32), b) == t.contains((4i32, 0i32)));
    assert(lives_next(s, (4i32, 1i32), b) == t.contains((4i32, 1i32)));
    assert(lives_next(s, (4i32, 2i32), b) == t.contains((4i32, 2i32)));
    assert(lives_next(s, (4i32, 3i32), b) == t.contains((4i32, 3i32)));
    assert(lives_next(s, (4i32, 4i32), b) == t.contains((4i32, 4i32)));
    assert(lives_next(s, (4i32, 5i32), b) == t.contains((4i32, 5i32)));
    assert(lives_next(s, (4i32, 6i32), b) == t.contains((4i32, 6i32)));
    assert(lives_next(s, (4i32, 7i32), b) == t.contains((4i32, 7i32)));
    assert(lives_next(s, (4i32, 8i32), b) == t.contains((4i32, 8i32)));
    assert(lives_next(s, (4i32, 9i32), b) == t.contains((4i32, 9i32)));
    assert(lives_next(s, (4i32, 10i32), b) == t.contains((4i32, 10i32)));
    assert(lives_next(s, (4i32, 11i32), b) == t.contains((4i32, 11i32)));
    assert(lives_next(s, (4i32, 12i32), b) == t.contains((4i32, 12i32)));
    assert(lives_next(s, (4i32, 13i32), b) == t.contains((4i32, 13i32)));
    assert(lives_next(s, (4i32, 14i32), b) == t.contains((4i32, 14i32)));
    assert(lives_next(s, (5i32, -2i32), b) == t.contains((5i32, -2i32)));
    assert(lives_next(s, (5i32, -1i32), b) == t.contains((5i32, -1i32)));
    assert(lives_next(s, (5i32, 0i32), b) == t.contains((5i32, 0i32)));
    assert(lives_next(s, (5i32, 1i32), b) == t.contains((5i32, 1i32)));
    assert(lives_next(s, (5i32, 2i32), b) == t.contains((5i32, 2i32)));
    assert(lives_next(s, (5i32, 3i32), b) == t.contains((5i32, 3i32)));
    assert(lives_next(s, (5i32, 4i32), b) == t.contains((5i32, 4i32)));
    assert(lives_next(s, (5i32, 5i32), b) == t.contains((5i32, 5i32)));
    assert(lives_next(s, (5i32, 6i32), b) == t.contains((5i32, 6i32)));
    assert(lives_next(s, (5i32, 7i32), b) == t.contains((5i32, 7i32)));
    assert(lives_next(s, (5i32, 8i32), b) == t.contains((5i32, 8i32)));
    assert(lives_next(s, (5i32, 9i32), b) == t.contains((5i32, 9i32)));
    assert(lives_next(s, (5i32, 10i32), b) == t.contains((5i32, 10i32)));
    assert(lives_next(s, (5i32, 11i32), b) == t.contains((5i32, 11i32)));
    assert(lives_next(s, (5i32, 12i32), b) == t.contains((5i32, 12i32)));
    assert(lives_next(s, (5i32, 13i32), b) == t.contains((5i32, 13i32)));
    assert(lives_next(s, (5i32, 14i32), b) == t.contains((5i32, 14i32)));
    assert(lives_next(s, (6i32, -2i32), b) == t.contains((6i32, -2i32)));
    assert(lives_next(s, (6i32, -1i32), b) == t.contains((6i32, -1i32)));
    assert(lives_next(s, (6i32, 0i32), b) == t.contains((6i32, 0i32)));
    assert(lives_next(s, (6i32, 1i32), b) == t.contains((6i32, 1i32)));
    assert(lives_next(s, (6i32, 2i32), b) == t.contains((6i32, 2i32)));
    assert(lives_next(s, (6i32, 3i32), b) == t.contains((6i32, 3i32)));
    assert(lives_next(s, (6i32, 4i32), b) == t.contains((6i32, 4i32)));
    assert(lives_next(s, (6i32, 5i32), b) == t.contains((6i32, 5i32)));
    assert(lives_next(s, (6i32, 6i32), b) == t.contains((6i32, 6i32)));
    assert(lives_next(s, (6i32, 7i32), b) == t.contains((6i32, 7i32)));
    assert(lives_next(s, (6i32, 8i32), b) == t.contains((6i32, 8i32)));
    assert(lives_next(s, (6i32, 9i32), b) == t.contains((6i32, 9i32)));
    assert(lives_next(s, (6i32, 10i32), b) == t.contains((6i32, 10i32)));
    assert(lives_next(s, (6i32, 11i32), b) == t.contains((6i32, 11i32)));
    assert(lives_next(s, (6i32, 12i32), b) == t.contains((6i32, 12i32)));
    assert(lives_next(s, (6i32, 13i32), b) == t.contains((6i32, 13i32)));
    assert(lives_next(s, (6i32, 14i32), b) == t.contains((6i32, 14i32)));
    assert(lives_next(s, (7i32, -2i32), b) == t.contains((7i32, -2i32)));
    assert(lives_next(s, (7i32, -1i32), b) == t.contains((7i32, -1i32)));
    assert(lives_next(s, (7i32, 0i32), b) == t.contains((7i32, 0i32)));
    assert(lives_next(s, (7i32, 1i32), b) == t.contains((7i32, 1i32)));
    assert(lives_next(s, (7i32, 2i32), b) == t.contains((7i32, 2i32)));
    assert(lives_next(s, (7i32, 3i32), b) == t.contains((7i32, 3i32)));
    assert(lives_next(s, (7i32, 4i32), b) == t.contains((7i32, 4i32)));
    assert(lives_next(s, (7i32, 5i32), b) == t.contains((7i32, 5i32)));
    assert(lives_next(s, (7i32, 6i32), b) == t.contains((7i32, 6i32)));
    assert(lives_next(s, (7i32, 7i32), b) == t.contains((7i32, 7i32)));
    assert(lives_next(s, (7i32, 8i32), b) == t.contains((7i32, 8i32)));
    assert(lives_next(s, (7i32, 9i32), b) == t.contains((7i32, 9i32)));
    assert(lives_next(s, (7i32, 10i32), b) == t.contains((7i32, 10i32)));
    assert(lives_next(s, (7i32, 11i32), b) == t.contains((7i32, 11i32)));
    assert(lives_next(s, (7i32, 12i32), b) == t.contains((7i32, 12i32)));
    assert(lives_next(s, (7i32, 13i32), b) == t.contains((7i32, 13i32)));
    assert(lives_next(s, (7i32, 14i32), b) == t.contains((7i32, 14i32)));
    assert(lives_next(s, (8i32, -2i32), b) == t.contains((8i32, -2i32)));
    assert(lives_next(s, (8i32, -1i32), b) == t.contains((8i32, -1i32)));
    assert(lives_next(s, (8i32, 0i32), b) == t.contains((8i32, 0i32)));
    assert(lives_next(s, (8i32, 1i32), b) == t.contains((8i32, 1i32)));
    assert(lives_next(s, (8i32, 2i32), b) == t.contains((8i32, 2i32)));
    assert(lives_next(s, (8i32, 3i32), b) == t.contains((8i32, 3i32)));
    assert(lives_next(s, (8i32, 4i32), b) == t.contains((8i32, 4i32)));
    assert(lives_next(s, (8i32, 5i32), b) == t.contains((8i32, 5i32)));
    assert(lives_next(s, (8i32, 6i32), b) == t.contains((8i32, 6i32)));
    assert(lives_next(s, (8i32, 7i32), b) == t.contains((8i32, 7i32)));
    assert(lives_next(s, (8i32, 8i32), b) == t.contains((8i32, 8i32)));
    assert(lives_next(s, (8i32, 9i32), b) == t.contains((8i32, 9i32)));
    assert(lives_next(s, (8i32, 10i32), b) == t.contains((8i32, 10i32)));
    assert(lives_next(s, (8i32, 11i32), b) == t.contains((8i32, 11i32)));
    assert(lives_next(s, (8i32, 12i32), b) == t.contains((8i32, 12i32)));
    assert(lives_next(s, (8i32, 13i32), b) == t.contains((8i32, 13i32)));
    assert(lives_next(s, (8i32, 14i32), b) == t.contains((8i32, 14i32)));
    assert(lives_next(s, (9i32, -2i32), b) == t.contains((9i32, -2i32)));
    assert(lives_next(s, (9i32, -1i32), b) == t.contains((9i32, -1i32)));
    assert(lives_next(s, (9i32, 0i32), b) == t.contains((9i32, 0i32)));
    assert(lives_next(s, (9i32, 1i32), b) == t.contains((9i32, 1i32)));
    assert(lives_next(s, (9i32, 2i32), b) == t.contains((9i32, 2i32)));
    assert(lives_next(s, (9i32, 3i32), b) == t.contains((9i32, 3i32)));
    assert(lives_next(s, (9i32, 4i32), b) == t.contains((9i32, 4i32)));
    assert(lives_next(s, (9i32, 5i32), b) == t.contains((9i32, 5i32)));
    assert(lives_next(s, (9i32, 6i32), b) == t.contains((9i32, 6i32)));
    assert(lives_next(s, (9i32, 7i32), b) == t.contains((9i32, 7i32)));
    assert(lives_next(s, (9i32, 8i32), b) == t.contains((9i32, 8i32)));
    assert(lives_next(s, (9i32, 9i32), b) == t.contains((9i32, 9i32)));
    assert(lives_next(s, (9i32, 10i32), b) == t.contains((9i32, 10i32)));
    assert(lives_next(s, (9i32, 11i32), b) == t.contains((9i32, 11i32)));
    assert(lives_next(s, (9i32, 12i32), b) == t.contains((9i32, 12i32)));
    assert(lives_next(s, (9i32, 13i32), b) == t.contains((9i32, 13i32)));
    assert(lives_next(s, (9i32, 14i32), b) == t.contains((9i32, 14i32)));
    assert(lives_next(s, (10i32, -2i32), b) == t.contains((10i32, -2i32)));
    assert(lives_next(s, (10i32, -1i32), b) == t.contains((10i32, -1i32)));
    assert(lives_next(s, (10i32, 0i32), b) == t.contains((10i32, 0i32)));
    assert(lives_next(s, (10i32, 1i32), b) == t.contains((10i32, 1i32)));
    assert(lives_next(s, (10i32, 2i32), b) == t.contains((10i32, 2i32)));
    assert(lives_next(s, (10i32, 3i32), b) == t.contains((10i32, 3i32)));
    assert(lives_next(s, (10i32, 4i32), b) == t.contains((10i32, 4i32)));
    assert(lives_next(s, (10i32, 5i32), b) == t.contains((10i32, 5i32)));
    assert(lives_next(s, (10i32, 6i32), b) == t.contains((10i32, 6i32)));
    assert(lives_next(s, (10i32, 7i32), b) == t.contains((10i32, 7i32)));
    assert(lives_next(s, (10i32, 8i32), b) == t.contains((10i32, 8i32)));
    assert(lives_next(s, (10i32, 9i32), b) == t.contains((10i32, 9i32)));
    assert(lives_next(s, (10i32, 10i32), b) == t.contains((10i32, 10i32)));
    assert(lives_next(s, (10i32, 11i32), b) == t.contains((10i32, 11i32)));
    assert(lives_next(s, (10i32, 12i32), b) == t.contains((10i32, 12i32)));
    assert(lives_next(s, (10i32, 13i32), b) == t.contains((10i32, 13i32)));
    assert(lives_next(s, (10i32, 14i32), b) == t.contains((10i32, 14i32)));
    assert(lives_next(s, (11i32, -2i32), b) == t.contains((11i32, -2i32)));
    assert(lives_next(s, (11i32, -1i32), b) == t.contains((11i32, -1i32)));
    assert(lives_next(s, (11i32, 0i32), b) == t.contains((11i32, 0i32)));
    assert(lives_next(s, (11i32, 1i32), b) == t.contains((11i32, 1i32)));
    assert(lives_next(s, (11i32, 2i32), b) == t.contains((11i32, 2i32)));
    assert(lives_next(s, (11i32, 3i32), b) == t.contains((11i32, 3i32)));
    assert(lives_next(s, (11i32, 4i32), b) == t.contains((11i32, 4i32)));
    assert(lives_next(s, (11i32, 5i32), b) == t.contains((11i32, 5i32)));
    assert(lives_next(s, (11i32, 6i32), b) == t.contains((11i32, 6i32)));
    assert(lives_next(s, (11i32, 7i32), b) == t.contains((11i32, 7i32)));
    assert(lives_next(s, (11i32, 8i32), b) == t.contains((11i32, 8i32)));
    assert(lives_next(s, (11i32, 9i32), b) == t.contains((11i32, 9i32)));
    assert(lives_next(s, (11i32, 10i32), b) == t.contains((11i32, 10i32)));
    assert(lives_next(s, (11i32, 11i32), b) == t.contains((11i32, 11i32)));
    assert(lives_next(s, (11i32, 12i32), b) == t.contains((11i32, 12i32)));
    assert(lives_next(s, (11i32, 13i32), b) == t.contains((11i32, 13i32)));
    assert(lives_next(s, (11i32, 14i32), b) == t.contains((11i32, 14i32)));
    assert(lives_next(s, (12i32, -2i32), b) == t.contains((12i32, -2i32)));
    assert(lives_next(s, (12i32, -1i32), b) == t.contains((12i32, -1i32)));
    assert(lives_next(s, (12i32, 0i32), b) == t.contains((12i32, 0i32)));
    assert(lives_next(s, (12i32, 1i32), b) == t.contains((12i32, 1i32)));
    assert(lives_next(s, (12i32, 2i32), b) == t.contains((12i32, 2i32)));
    assert(lives_next(s, (12i32, 3i32), b) == t.contains((12i32, 3i32)));
    assert(lives_next(s, (12i32, 4i32), b) == t.contains((12i32, 4i32)));
    assert(lives_next(s, (12i32, 5i32), b) == t.contains((12i32, 5i32)));
    assert(lives_next(s, (12i32, 6i32), b) == t.contains((12i32, 6i32)));
    assert(lives_next(s, (12i32, 7i32), b) == t.contains((12i32, 7i32)));
    assert(lives_next(s, (12i32, 8i32), b) == t.contains((12i32, 8i32)));
    assert(lives_next(s, (12i32, 9i32), b) == t.contains((12i32, 9i32)));
    assert(lives_next(s, (12i32, 10i32), b) == t.contains((12i32, 10i32)));
    assert(lives_next(s, (12i32, 11i32), b) == t.contains((12i32, 11i32)));
    assert(lives_next(s, (12i32, 12i32), b) == t.contains((12i32, 12i32)));
    assert(lives_next(s, (12i32, 13i32), b) == t.contains((12i32, 13i32)));
    assert(lives_next(s, (12i32, 14i32), b) == t.contains((12i32, 14i32)));
    assert(lives_next(s, (13i32, -2i32), b) == t.contains((13i32, -2i32)));
    assert(lives_next(s, (13i32, -1i32), b) == t.contains((13i32, -1i32)));
    assert(lives_next(s, (13i32, 0i32), b) == t.contains((13i32, 0i32)));
    assert(lives_next(s, (13i32, 1i32), b) == t.contains((13i32, 1i32)));
    assert(lives_next(s, (13i32, 2i32), b) == t.contains((13i32, 2i32)));
    assert(lives_next(s, (13i32, 3i32), b) == t.contains((13i32, 3i32)));
    assert(lives_next(s, (13i32, 4i32), b) == t.contains((13i32, 4i32)));
    assert(lives_next(s, (13i32, 5i32), b) == t.contains((13i32, 5i32)));
    assert(lives_next(s, (13i32, 6i32), b) == t.contains((13i32, 6i32)));
    assert(lives_next(s, (13i32, 7i32), b) == t.contains((13i32, 7i32)));
    assert(lives_next(s, (13i32, 8i32), b) == t.contains((13i32, 8i32)));
    assert(lives_next(s, (13i32, 9i32), b) == t.contains((13i32, 9i32)));
    assert(lives_next(s, (13i32, 10i32), b) == t.contains((13i32, 10i32)));
    assert(lives_next(s, (13i32, 11i32), b) == t.contains((13i32, 11i32)));
    assert(lives_next(s, (13i32, 12i32), b) == t.contains((13i32, 12i32)));
    assert(lives_next(s, (13i32, 13i32), b) == t.contains((13i32, 13i32)));
    assert(lives_next(s, (13i32, 14i32), b) == t.contains((13i32, 14i32)));
    assert(lives_next(s, (14i32, -2i32), b) == t.contains((14i32, -2i32)));
    assert(lives_next(s, (14i32, -1i32), b) == t.contains((14i32, -1i32)));
    assert(lives_next(s, (14i32, 0i32), b) == t.contains((14i32, 0i32)));
    assert(lives_next(s, (14i32, 1i32), b) == t.contains((14i32, 1i32)));
    assert(lives_next(s, (14i32, 2i32), b) == t.contains((14i32, 2i32)));
    assert(lives_next(s, (14i32, 3i32), b) == t.contains((14i32, 3i32)));
    assert(lives_next(s, (14i32, 4i32), b) == t.contains((14i32, 4i32)));
    assert(lives_next(s, (14i32, 5i32), b) == t.contains((14i32, 5i32)));
    assert(lives_next(s, (14i32, 6i32), b) == t.contains((14i32, 6i32)));
    assert(lives_next(s, (14i32, 7i32), b) == t.contains((14i32, 7i32)));
    assert(lives_next(s, (14i32, 8i32), b) == t.contains((14i32, 8i32)));
    assert(lives_next(s, (14i32, 9i32), b) == t.contains((14i32, 9i32)));
    assert(lives_next(s, (14i32, 10i32), b) == t.contains((14i32, 10i32)));
    assert(lives_next(s, (14i32, 11i32), b) == t.contains((14i32, 11i32)));
    assert(lives_next(s, (14i32, 12i32), b) == t.contains((14i32, 12i32)));
    assert(lives_next(s, (14i32, 13i32), b) == t.contains((14i32, 13i32)));
    assert(lives_next(s, (14i32, 14i32), b) == t.contains((14i32, 14i32)));
    assert forall|c: Cell| lives_next(s, c, b) <==> #[trigger] t.contains(c) by {
        if !(-2 <= c.0 <= 14 && -2 <= c.1 <= 14) {
            assert(!t.contains(c));
        }
    }
    assert(next_generation(s, b) =~= t);
}

/// Generation 2 of the pulsar.
#[verifier::rlimit(100)]
proof fn lemma_pulsar_step_1(b: (i32, i32))
    requires
        b.0 >= 14,
        b.1 >= 14,
    ensures
        next_generation(pulsar_phase(1), b) == pulsar_phase(2),
{
    let s = pulsar_phase(1);
    let t = pulsar_phase(2);
    assert(lives_next(s, (-2i32, -2i32), b) == t.contains((-2i32, -2i32)));
    assert(lives_next(s, (-2i32, -1i32), b) == t.contains((-2i32, -1i32)));
    assert(lives_next(s, (-2i32, 0i32), b) == t.contains((-2i32, 0i32)));
    assert(lives_next(s, (-2i32, 1i32), b) == t.contains((-2i32, 1i32)));
    assert(lives_next(s, (-2i32, 2i32), b) == t.contains((-2i32, 2i32)));
    assert(lives_next(s, (-2i32, 3i32), b) == t.contains((-2i32, 3i32)));
    assert(lives_next(s, (-2i32, 4i32), b) == t.contains((-2i32, 4i32)));
    assert(lives_next(s, (-2i32, 5i32), b) == t.contains((-2i32, 5i32)));
    assert(lives_next(s, (-2i32, 6i32), b) == t.contains((-2i32, 6i32)));
    assert(lives_next(s, (-2i32, 7i32), b) == t.contains((-2i32, 7i32)));
    assert(lives_next(s, (-2i32, 8i32), b) == t.contains((-2i32, 8i32)));
    assert(lives_next(s, (-2i32, 9i32), b) == t.contains((-2i32, 9i32)));
    assert(lives_next(s, (-2i32, 10i32), b) == t.contains((-2i32, 10i32)));
    assert(lives_next(s, (-2i32, 11i32), b) == t.contains((-2i32, 11i32)));
    assert(lives_next(s, (-2i32, 12i32), b) == t.contains((-2i32, 12i32)));
    assert(lives_next(s, (-2i32, 13i32), b) == t.contains((-2i32, 13i32)));
    assert(lives_next(s, (-2i32, 14i32), b) == t.contains((-2i32, 14i32)));
    assert(lives_next(s, (-1i32, -2i32), b) == t.contains((-1i32, -2i32)));
    assert(lives_next(s, (-1i32, -1i32), b) == t.contains((-1i32, -1i32)));
    assert(lives_next(s, (-1i32, 0i32), b) == t.contains((-1i32, 0i32)));
    assert(lives_next(s, (-1i32, 1i32), b) == t.contains((-1i32, 1i32)));
    assert(lives_next(s, (-1i32, 2i32), b) == t.contains((-1i32, 2i32)));
    assert(lives_next(s, (-1i32, 3i32), b) == t.contains((-1i32, 3i32)));
    assert(lives_next(s, (-1i32, 4i32), b) == t.contains((-1i32, 4i32)));
    assert(lives_next(s, (-1i32, 5i32), b) == t.contains((-1i32, 5i32)));
    assert(lives_next(s, (-1i32, 6i32), b) == t.contains((-1i32, 6i32)));
    assert(lives_next(s, (-1i32, 7i32), b) == t.contains((-1i32, 7i32)));
    assert(lives_next(s, (-1i32, 8i32), b) == t.contains((-1i32, 8i32)));
    assert(lives_next(s, (-1i32, 9i32), b) == t.contains((-1i32, 9i32)));
    assert(lives_next(s, (-1i32, 10i32), b) == t.contains((-1i32, 10i32)));
    assert(lives_next(s, (-1i32, 11i32), b) == t.contains((-1i32, 11i32)));
    assert(lives_next(s, (-1i32, 12i32), b) == t.contains((-1i32, 12i32)));
    assert(lives_next(s, (-1i32, 13i32), b) == t.contains((-1i32, 13i32)));
    assert(lives_next(s, (-1i32, 14i32), b) == t.contains((-1i32, 14i32)));
    assert(lives_next(s, (0i32, -2i32), b) == t.contains((0i32, -2i32)));
    assert(lives_next(s, (0i32, -1i32), b) == t.contains((0i32, -1i32)));
    assert(lives_next(s, (0i32, 0i32), b) == t.contains((0i32, 0i32)));
    assert(lives_next(s, (0i32, 1i32), b) == t.contains((0i32, 1i32)));
    assert(lives_next(s, (0i32, 2i32), b) == t.contains((0i32, 2i32)));
    assert(lives_next(s, (0i32, 3i32), b) == t.contains((0i32, 3i32)));
    assert(lives_next(s, (0i32, 4i32), b) == t.contains((0i32, 4i32)));
    assert(lives_next(s, (0i32, 5i32), b) == t.contains((0i32, 5i32)));
    assert(lives_next(s, (0i32, 6i32), b) == t.contains((0i32, 6i32)));
    assert(lives_next(s, (0i32, 7i32), b) == t.contains((0i32, 7i32)));
    assert(lives_next(s, (0i32, 8i32), b) == t.contains((0i32, 8i32)));
    assert(lives_next(s, (0i32, 9i32), b) == t.contains((0i32, 9i32)));
    assert(lives_next(s, (0i32, 10i32), b) == t.contains((0i32, 10i32)));
    assert(lives_next(s, (0i32, 11i32), b) == t.contains((0i32, 11i32)));
    assert(lives_next(s, (0i32, 12i32), b) == t.contains((0i32, 12i32)));
    assert(lives_next(s, (0i32, 13i32), b) == t.contains((0i32, 13i32)));
    assert(lives_next(s, (0i32, 14i32), b) == t.contains((0i32, 14i32)));
    assert(lives_next(s, (1i32, -2i32), b) == t.contains((1i32, -2i32)));
    assert(lives_next(s, (1i32, -1i32), b) == t.contains((1i32, -1i32)));
    assert(lives_next(s, (1i32, 0i32), b) == t.contains((1i32, 0i32)));
    assert(lives_next(s, (1i32, 1i32), b) == t.contains((1i32, 1i32)));
    assert(lives_next(s, (1i32, 2i32), b) == t.contains((1i32, 2i32)));
    assert(lives_next(s, (1i32, 3i32), b) == t.contains((1i32, 3i32)));
    assert(lives_next(s, (1i32, 4i32), b) == t.contains((1i32, 4i32)));
    assert(lives_next(s, (1i32, 5i32), b) == t.contains((1i32, 5i32)));
    assert(lives_next(s, (1i32, 6i32), b) == t.contains((1i32, 6i32)));
    assert(lives_next(s, (1i32, 7i32), b) == t.contains((1i32, 7i32)));
    assert(lives_next(s, (1i32, 8i32), b) == t.contains((1i32, 8i32)));
    assert(lives_next(s, (1i32, 9i32), b) == t.contains((1i32, 9i32)));
    assert(lives_next(s, (1i32, 10i32), b) == t.contains((1i32, 10i32)));
    assert(lives_next(s, (1i32, 11i32), b) == t.contains((1i32, 11i32)));
    assert(lives_next(s, (1i32, 12i32), b) == t.contains((1i32, 12i32)));
    assert(lives_next(s, (1i32, 13i32), b) == t.contains((1i32, 13i32)));
    assert(lives_next(s, (1i32, 14i32), b) == t.contains((1i32, 14i32)));
    assert(lives_next(s, (2i32, -2i32), b) == t.contains((2i32, -2i32)));
    assert(lives_next(s, (2i32, -1i32), b) == t.contains((2i32, -1i32)));
    assert(lives_next(s, (2i32, 0i32), b) == t.contains((2i32, 0i32)));
    assert(lives_next(s, (2i32, 1i32), b) == t.contains((2i32, 1i32)));
    assert(lives_next(s, (2i32, 2i32), b) == t.contains((2i32, 2i32)));
    assert(lives_next(s, (2i32, 3i32), b) == t.contains((2i32, 3i32)));
    assert(lives_next(s, (2i32, 4i32), b) == t.contains((2i32, 4i32)));
    assert(lives_next(s, (2i32, 5i32), b) == t.contains((2i32, 5i32)));
    assert(lives_next(s, (2i32, 6i32), b) == t.contains((2i32, 6i32)));
    assert(lives_next(s, (2i32, 7i32), b) == t.contains((2i32, 7i32)));
    assert(lives_next(s, (2i32, 8i32), b) == t.contains((2i32, 8i32)));
    assert(lives_next(s, (2i32, 9i32), b) == t.contains((2i32, 9i32)));
    assert(lives_next(s, (2i32, 10i32), b) == t.contains((2i32, 10i32)));
    assert(lives_next(s, (2i32, 11i32), b) == t.contains((2i32, 11i32)));
    assert(lives_next(s, (2i32, 12i32), b) == t.contains((2i32, 12i32)));
    assert(lives_next(s, (2i32, 13i32), b) == t.contains((2i32, 13i32)));
    assert(lives_next(s, (2i32, 14i32), b) == t.contains((2i32, 14i32)));
    assert(lives_next(s, (3i32, -2i32), b) == t.contains((3i32, -2i32)));
    assert(lives_next(s, (3i32, -1i32), b) == t.contains((3i32, -1i32)));
    assert(lives_next(s, (3i32, 0i32), b) == t.contains((3i32, 0i32)));
    assert(lives_next(s, (3i32, 1i32), b) == t.contains((3i32, 1i32)));
    assert(lives_next(s, (3i32, 2i32), b) == t.contains((3i32, 2i32)));
    assert(lives_next(s, (3i32, 3i32), b) == t.contains((3i32, 3i32)));
    assert(lives_next(s, (3i32, 4i32), b) == t.contains((3i32, 4i32)));
    assert(lives_next(s, (3i32, 5i32), b) == t.contains((3i32, 5i32)));
    assert(lives_next(s, (3i32, 6i32), b) == t.contains((3i32, 6i32)));
    assert(lives_next(s, (3i32, 7i32), b) == t.contains((3i32, 7i32)));
    assert(lives_next(s, (3i32, 8i32), b) == t.contains((3i32, 8i32)));
    assert(lives_next(s, (3i32, 9i32), b) == t.contains((3i32, 9i32)));
    assert(lives_next(s, (3i32, 10i32), b) == t.contains((3i32, 10i32)));
    assert(lives_next(s, (3i32, 11i32), b) == t.contains((3i32, 11i32)));
    assert(lives_next(s, (3i32, 12i32), b) == t.contains((3i32, 12i32)));
    assert(lives_next(s, (3i32, 13i32), b) == t.contains((3i32, 13i32)));
    assert(lives_next(s, (3i32, 14i32), b) == t.contains((3i32, 14i32)));
    assert(lives_next(s, (4i32, -2i32), b) == t.contains((4i32, -2i32)));
    assert(lives_next(s, (4i32, -1i32), b) == t.contains((4i32, -1i32)));
    assert(lives_next(s, (4i32, 0i32), b) == t.contains((4i32, 0i32)));
    assert(lives_next(s, (4i32, 1i32), b) == t.contains((4i32, 1i32)));
    assert(lives_next(s, (4i32, 2i32), b) == t.contains((4i32, 2i32)));
    assert(lives_next(s, (4i32, 3i32), b) == t.contains((4i32, 3i32)));
    assert(lives_next(s, (4i32, 4i32), b) == t.contains((4i32, 4i32)));
    assert(lives_next(s, (4i32, 5i32), b) == t.contains((4i32, 5i32)));
    assert(lives_next(s, (4i32, 6i32), b) == t.contains((4i32, 6i32)));
    assert(lives_next(s, (4i32, 7i32), b) == t.contains((4i32, 7i32)));
    assert(lives_next(s, (4i32, 8i32), b) == t.contains((4i32, 8i32)));
    assert(lives_next(s, (4i32, 9i32), b) == t.contains((4i32, 9i32)));
    assert(lives_next(s, (4i32, 10i32), b) == t.contains((4i32, 10i32)));
    assert(lives_next(s, (4i32, 11i32), b) == t.contains((4i32, 11i32)));
    assert(lives_next(s, (4i32, 12i32), b) == t.contains((4i32, 12i32)));
    assert(lives_next(s, (4i32, 13i32), b) == t.contains((4i32, 13i32)));
    assert(lives_next(s, (4i32, 14i32), b) == t.contains((4i32, 14i32)));
    assert(lives_next(s, (5i32, -2i32), b) == t.contains((5i32, -2i32)));
    assert(lives_next(s, (5i32, -1i32), b) == t.contains((5i32, -1i32)));
    assert(lives_next(s, (5i32, 0i32), b) == t.contains((5i32, 0i32)));
    assert(lives_next(s, (5i32, 1i32), b) == t.contains((5i32, 1i32)));
    assert(lives_next(s, (5i32, 2i32), b) == t.contains((5i32, 2i32)));
    assert(lives_next(s, (5i32, 3i32), b) == t.contains((5i32, 3i32)));
    assert(lives_next(s, (5i32, 4i32), b) == t.contains((5i32, 4i32)));
    assert(lives_next(s, (5i32, 5i32), b) == t.contains((5i32, 5i32)));
    assert(lives_next(s, (5i32, 6i32), b) == t.contains((5i32, 6i32)));
    assert(lives_next(s, (5i32, 7i32), b) == t.contains((5i32, 7i32)));
    assert(lives_next(s, (5i32, 8i32), b) == t.contains((5i32, 8i32)));
    assert(lives_next(s, (5i32, 9i32), b) == t.contains((5i32, 9i32)));
    assert(lives_next(s, (5i32, 10i32), b) == t.contains((5i32, 10i32)));
    assert(lives_next(s, (5i32, 11i32), b) == t.contains((5i32, 11i32)));
    assert(lives_next(s, (5i32, 12i32), b) == t.contains((5i32, 12i32)));
    assert(lives_next(s, (5i32, 13i32), b) == t.contains((5i32, 13i32)));
    assert(lives_next(s, (5i32, 14i32), b) == t.contains((5i32, 14i32)));
    assert(lives_next(s, (6i32, -2i32), b) == t.contains((6i32, -2i32)));
    assert(lives_next(s, (6i32, -1i32), b) == t.contains((6i32, -1i32)));
    assert(lives_next(s, (6i32, 0i32), b) == t.contains((6i32, 0i32)));
    assert(lives_next(s, (6i32, 1i32), b) == t.contains((6i32, 1i32)));
    assert(lives_next(s, (6i32, 2i32), b) == t.contains((6i32, 2i32)));
    assert(lives_next(s, (6i32, 3i32), b) == t.contains((6i32, 3i32)));
    assert(lives_next(s, (6i32, 4i32), b) == t.contains((6i32, 4i32)));
    assert(lives_next(s, (6i32, 5i32), b) == t.contains((6i32, 5i32)));
    assert(lives_next(s, (6i32, 6i32), b) == t.contains((6i32, 6i32)));
    assert(lives_next(s, (6i32, 7i32), b) == t.contains((6i32, 7i32)));
    assert(lives_next(s, (6i32, 8i32), b) == t.contains((6i32, 8i32)));
    assert(lives_next(s, (6i32, 9i32), b) == t.contains((6i32, 9i32)));
    assert(lives_next(s, (6i32, 10i32), b) == t.contains((6i32, 10i32)));
    assert(lives_next(s, (6i32, 11i32), b) == t.contains((6i32, 11i32)));
    assert(lives_next(s, (6i32, 12i32), b) == t.contains((6i32, 12i32)));
    assert(lives_next(s, (6i32, 13i32), b) == t.contains((6i32, 13i32)));
    assert(lives_next(s, (6i32, 14i32), b) == t.contains((6i32, 14i32)));
    assert(lives_next(s, (7i32, -2i32), b) == t.contains((7i32, -2i32)));
    assert(lives_next(s, (7i32, -1i32), b) == t.contains((7i32, -1i32)));
    assert(lives_next(s, (7i32, 0i32), b) == t.contains((7i32, 0i32)));
    assert(lives_next(s, (7i32, 1i32), b) == t.contains((7i32, 1i32)));
    assert(lives_next(s, (7i32, 2i32), b) == t.contains((7i32, 2i32)));
    assert(lives_next(s, (7i32, 3i32), b) == t.contains((7i32, 3i32)));
    assert(lives_next(s, (7i32, 4i32), b) == t.contains((7i32, 4i32)));
    assert(lives_next(s, (7i32, 5i32), b) == t.contains((7i32, 5i32)));
    assert(lives_next(s, (7i32, 6i32), b) == t.contains((7i32, 6i32)));
    assert(lives_next(s, (7i32, 7i32), b) == t.contains((7i32, 7i32)));
    assert(lives_next(s, (7i32, 8i32), b) == t.contains((7i32, 8i32)));
    assert(lives_next(s, (7i32, 9i32), b) == t.contains((7i32, 9i32)));
    assert(lives_next(s, (7i32, 10i32), b) == t.contains((7i32, 10i32)));
    assert(lives_next(s, (7i32, 11i32), b) == t.contains((7i32, 11i32)));
    assert(lives_next(s, (7i32, 12i32), b) == t.contains((7i32, 12i32)));
    assert(lives_next(s, (7i32, 13i32), b) == t.contains((7i32, 13i32)));
    assert(lives_next(s, (7i32, 14i32), b) == t.contains((7i32, 14i32)));
    assert(lives_next(s, (8i32, -2i32), b) == t.contains((8i32, -2i32)));
    assert(lives_next(s, (8i32, -1i32), b) == t.contains((8i32, -1i32)));
    assert(lives_next(s, (8i32, 0i32), b) == t.contains((8i32, 0i32)));
    assert(lives_next(s, (8i32, 1i32), b) == t.contains((8i32, 1i32)));
    assert(lives_next(s, (8i32, 2i32), b) == t.contains((8i32, 2i32)));
    assert(lives_next(s, (8i32, 3i32), b) == t.contains((8i32, 3i32)));
    assert(lives_next(s, (8i32, 4i32), b) == t.contains((8i32, 4i32)));
    assert(lives_next(s, (8i32, 5i32), b) == t.contains((8i32, 5i32)));
    assert(lives_next(s, (8i32, 6i32), b) == t.contains((8i32, 6i32)));
    assert(lives_next(s, (8i32, 7i32), b) == t.contains((8i32, 7i32)));
    assert(lives_next(s, (8i32, 8i32), b) == t.contains((8i32, 8i32)));
    assert(lives_next(s, (8i32, 9i32), b) == t.contains((8i32, 9i32)));
    assert(lives_next(s, (8i32, 10i32), b) == t.contains((8i32, 10i32)));
    assert(lives_next(s, (8i32, 11i32), b) == t.contains((8i32, 11i32)));
    assert(lives_next(s, (8i32, 12i32), b) == t.contains((8i32, 12i32)));
    assert(lives_next(s, (8i32, 13i32), b) == t.contains((8i32, 13i32)));
    assert(lives_next(s, (8i32, 14i32), b) == t.contains((8i32, 14i32)));
    assert(lives_next(s, (9i32, -2i32), b) == t.contains((9i32, -2i32)));
    assert(lives_next(s, (9i32, -1i32), b) == t.contains((9i32, -1i32)));
    assert(lives_next(s, (9i32, 0i32), b) == t.contains((9i32, 0i32)));
    assert(lives_next(s, (9i32, 1i32), b) == t.contains((9i32, 1i32)));
    assert(lives_next(s, (9i32, 2i32), b) == t.contains((9i32, 2i32)));
    assert(lives_next(s, (9i32, 3i32), b) == t.contains((9i32, 3i32)));
    assert(lives_next(s, (9i32, 4i32), b) == t.contains((9i32, 4i32)));
    assert(lives_next(s, (9i32, 5i32), b) == t.contains((9i32, 5i32)));
    assert(lives_next(s, (9i32, 6i32), b) == t.contains((9i32, 6i32)));
    assert(lives_next(s, (9i32, 7i32), b) == t.contains((9i32, 7i32)));
    assert(lives_next(s, (9i32, 8i32), b) == t.contains((9i32, 8i32)));
    assert(lives_next(s, (9i32, 9i32), b) == t.contains((9i32, 9i32)));
    assert(lives_next(s, (9i32, 10i32), b) == t.contains((9i32, 10i32)));
    assert(lives_next(s, (9i32, 11i32), b) == t.contains((9i32, 11i32)));
    assert(lives_next(s, (9i32, 12i32), b) == t.contains((9i32, 12i32)));
    assert(lives_next(s, (9i32, 13i32), b) == t.contains((9i32, 13i32)));
    assert(lives_next(s, (9i32, 14i32), b) == t.contains((9i32, 14i32)));
    assert(lives_next(s, (10i32, -2i32), b) == t.contains((10i32, -2i32)));
    assert(lives_next(s, (10i32, -1i32), b) == t.contains((10i32, -1i32)));
    assert(lives_next(s, (10i32, 0i32), b) == t.contains((10i32, 0i32)));
    assert(lives_next(s, (10i32, 1i32), b) == t.contains((10i32, 1i32)));
    assert(lives_next(s, (10i32, 2i32), b) == t.contains((10i32, 2i32)));
    assert(lives_next(s, (10i32, 3i32), b) == t.contains((10i32, 3i32)));
    assert(lives_next(s, (10i32, 4i32), b) == t.contains((10i32, 4i32)));
    assert(lives_next(s, (10i32, 5i32), b) == t.contains((10i32, 5i32)));
    assert(lives_next(s, (10i32, 6i32), b) == t.contains((10i32, 6i32)));
    assert(lives_next(s, (10i32, 7i32), b) == t.contains((10i32, 7i32)));
    assert(lives_next(s, (10i32, 8i32), b) == t.contains((10i32, 8i32)));
    assert(lives_next(s, (10i32, 9i32), b) == t.contains((10i32, 9i32)));
    assert(lives_next(s, (10i32, 10i32), b) == t.contains((10i32, 10i32)));
    assert(lives_next(s, (10i32, 11i32), b) == t.contains((10i32, 11i32)));
    assert(lives_next(s, (10i32, 12i32), b) == t.contains((10i32, 12i32)));
    assert(lives_next(s, (10i32, 13i32), b) == t.contains((10i32, 13i32)));
    assert(lives_next(s, (10i32, 14i32), b) == t.contains((10i32, 14i32)));
    assert(lives_next(s, (11i32, -2i32), b) == t.contains((11i32, -2i32)));
    assert(lives_next(s, (11i32, -1i32), b) == t.contains((11i32, -1i32)));
    assert(lives_next(s, (11i32, 0i32), b) == t.contains((11i32, 0i32)));
    assert(lives_next(s, (11i32, 1i32), b) == t.contains((11i32, 1i32)));
    assert(lives_next(s, (11i32, 2i32), b) == t.contains((11i32, 2i32)));
    assert(lives_next(s, (11i32, 3i32), b) == t.contains((11i32, 3i32)));
    assert(lives_next(s, (11i32, 4i32), b) == t.contains((11i32, 4i32)));
    assert(lives_next(s, (11i32, 5i32), b) == t.contains((11i32, 5i32)));
    assert(lives_next(s, (11i32, 6i32), b) == t.contains((11i32, 6i32)));
    assert(lives_next(s, (11i32, 7i32), b) == t.contains((11i32, 7i32)));
    assert(lives_next(s, (11i32, 8i32), b) == t.contains((11i32, 8i32)));
    assert(lives_next(s, (11i32, 9i32), b) == t.contains((11i32, 9i32)));
    assert(lives_next(s, (11i32, 10i32), b) == t.contains((11i32, 10i32)));
    assert(lives_next(s, (11i32, 11i32), b) == t.contains((11i32, 11i32)));
    assert(lives_next(s, (11i32, 12i32), b) == t.contains((11i32, 12i32)));
    assert(lives_next(s, (11i32, 13i32), b) == t.contains((11i32, 13i32)));
    assert(lives_next(s, (11i32, 14i32), b) == t.contains((11i32, 14i32)));
    assert(lives_next(s, (12i32, -2i32), b) == t.contains((12i32, -2i32)));
    assert(lives_next(s, (12i32, -1i32), b) == t.contains((12i32, -1i32)));
    assert(lives_next(s, (12i32, 0i32), b) == t.contains((12i32, 0i32)));
    assert(lives_next(s, (12i32, 1i32), b) == t.contains((12i32, 1i32)));
    assert(lives_next(s, (12i32, 2i32), b) == t.contains((12i32, 2i32)));
    assert(lives_next(s, (12i32, 3i32), b) == t.contains((12i32, 3i32)));
    assert(lives_next(s, (12i32, 4i32), b) == t.contains((12i32, 4i32)));
    assert(lives_next(s, (12i32, 5i32), b) == t.contains((12i32, 5i32)));
    assert(lives_next(s, (12i32, 6i32), b) == t.contains((12i32, 6i32)));
    assert(lives_next(s, (12i32, 7i32), b) == t.contains((12i32, 7i32)));
    assert(lives_next(s, (12i32, 8i32), b) == t.contains((12i32, 8i32)));
    assert(lives_next(s, (12i32, 9i32), b) == t.contains((12i32, 9i32)));
    assert(lives_next(s, (12i32, 10i32), b) == t.contains((12i32, 10i32)));
    assert(lives_next(s, (12i32, 11i32), b) == t.contains((12i32, 11i32)));
    assert(lives_next(s, (12i32, 12i32), b) == t.contains((12i32, 12i32)));
    assert(lives_next(s, (12i32, 13i32), b) == t.contains((12i32, 13i32)));
    assert(lives_next(s, (12i32, 14i32), b) == t.contains((12i32, 14i32)));
    assert(lives_next(s, (13i32, -2i32), b) == t.contains((13i32, -2i32)));
    assert(lives_next(s, (13i32, -1i32), b) == t.contains((13i32, -1i32)));
    assert(lives_next(s, (13i32, 0i32), b) == t.contains((13i32, 0i32)));
    assert(lives_next(s, (13i32, 1i32), b) == t.contains((13i32, 1i32)));
    assert(lives_next(s, (13i32, 2i32), b) == t.contains((13i32, 2i32)));
    assert(lives_next(s, (13i32, 3i32), b) == t.contains((13i32, 3i32)));
    assert(lives_next(s, (13i32, 4i32), b) == t.contains((13i32, 4i32)));
    assert(lives_next(s, (13i32, 5i32), b) == t.contains((13i32, 5i32)));
    assert(lives_next(s, (13i32, 6i32), b) == t.contains((13i32, 6i32)));
    assert(lives_next(s, (13i32, 7i32), b) == t.contains((13i32, 7i32)));
    assert(lives_next(s, (13i32, 8i32), b) == t.contains((13i32, 8i32)));
    assert(lives_next(s, (13i32, 9i32), b) == t.contains((13i32, 9i32)));
    assert(lives_next(s, (13i32, 10i32), b) == t.contains((13i32, 10i32)));
    assert(lives_next(s, (13i32, 11i32), b) == t.contains((13i32, 11i32)));
    assert(lives_next(s, (13i32, 12i32), b) == t.contains((13i32, 12i32)));
    assert(lives_next(s, (13i32, 13i32), b) == t.contains((13i32, 13i32)));
    assert(lives_next(s, (13i32, 14i32), b) == t.contains((13i32, 14i32)));
    assert(lives_next(s, (14i32, -2i32), b) == t.contains((14i32, -2i32)));
    assert(lives_next(s, (14i32, -1i32), b) == t.contains((14i32, -1i32)));
    assert(lives_next(s, (14i32, 0i32), b) == t.contains((14i32, 0i32)));
    assert(lives_next(s, (14i32, 1i32), b) == t.contains((14i32, 1i32)));
    assert(lives_next(s, (14i32, 2i32), b) == t.contains((14i32, 2i32)));
    assert(lives_next(s, (14i32, 3i32), b) == t.contains((14i32, 3i32)));
    assert(lives_next(s, (14i32, 4i32), b) == t.contains((14i32, 4i32)));
    assert(lives_next(s, (14i32, 5i32), b) == t.contains((14i32, 5i32)));
    assert(lives_next(s, (14i32, 6i32), b) == t.contains((14i32, 6i32)));
    assert(lives_next(s, (14i32, 7i32), b) == t.contains((14i32, 7i32)));
    assert(lives_next(s, (14i32, 8i32), b) == t.contains((14i32, 8i32)));
    assert(lives_next(s, (14i32, 9i32), b) == t.contains((14i32, 9i32)));
    assert(lives_next(s, (14i32, 10i32), b) == t.contains((14i32, 10i32)));
    assert(lives_next(s, (14i32, 11i32), b) == t.contains((14i32, 11i32)));
    assert(lives_next(s, (14i32, 12i32), b) == t.contains((14i32, 12i32)));
    assert(lives_next(s, (14i32, 13i32), b) == t.contains((14i32, 13i32)));
    assert(lives_next(s, (14i32, 14i32), b) == t.contains((14i32, 14i32)));
    assert forall|c: Cell| lives_next(s, c, b) <==> #[trigger] t.contains(c) by {
        if !(-2 <= c.0 <= 14 && -2 <= c.1 <= 14) {
            assert(!t.contains(c));
        }
    }
    assert(next_generation(s, b) =~= t);
}

/// Generation 3 of the pulsar.
#[verifier::rlimit(100)]
proof fn lemma_pulsar_step_2(b: (i32, i32))
    requires
        b.0 >= 14,
        b.1 >= 14,
    ensures
        next_generation(pulsar_phase(2), b) == pulsar_phase(3),
{
    let s = pulsar_phase(2);
    let t = pulsar_phase(3);
    assert(lives_next(s, (-2i32, -2i32), b) == t.contains((-2i32, -2i32)));
    assert(lives_next(s, (-2i32, -1i32), b) == t.contains((-2i32, -1i32)));
    assert(lives_next(s, (-2i32, 0i32), b) == t.contains((-2i32, 0i32)));
    assert(lives_next(s, (-2i32, 1i32), b) == t.contains((-2i32, 1i32)));
    assert(lives_next(s, (-2i32, 2i32), b) == t.contains((-2i32, 2i32)));
    assert(lives_next(s, (-2i32, 3i32), b) == t.contains((-2i32, 3i32)));
    assert(lives_next(s, (-2i32, 4i32), b) == t.contains((-2i32, 4i32)));
    assert(lives_next(s, (-2i32, 5i32), b) == t.contains((-2i32, 5i32)));
    assert(lives_next(s, (-2i32, 6i32), b) == t.contains((-2i32, 6i32)));
    assert(lives_next(s, (-2i32, 7i32), b) == t.contains((-2i32, 7i32)));
    assert(lives_next(s, (-2i32, 8i32), b) == t.contains((-2i32, 8i32)));
    assert(lives_next(s, (-2i32, 9i32), b) == t.contains((-2i32, 9i32)));
    assert(lives_next(s, (-2i32, 10i32), b) == t.contains((-2i32, 10i32)));
    assert(lives_next(s, (-2i32, 11i32), b) == t.contains((-2i32, 11i32)));
    assert(lives_next(s, (-2i32, 12i32), b) == t.contains((-2i32, 12i32)));
    assert(lives_next(s, (-2i32, 13i32), b) == t.contains((-2i32, 13i32)));
    assert(lives_next(s, (-2i32, 14i32), b) == t.contains((-2i32, 14i32)));
    assert(lives_next(s, (-1i32, -2i32), b) == t.contains((-1i32, -2i32)));
    assert(lives_next(s, (-1i32, -1i32), b) == t.contains((-1i32, -1i32)));
    assert(lives_next(s, (-1i32, 0i32), b) == t.contains((-1i32, 0i32)));
    assert(lives_next(s, (-1i32, 1i32), b) == t.contains((-1i32, 1i32)));
    assert(lives_next(s, (-1i32, 2i32), b) == t.contains((-1i32, 2i32)));
    assert(lives_next(s, (-1i32, 3i32), b) == t.contains((-1i32, 3i32)));
    assert(lives_next(s, (-1i32, 4i32), b) == t.contains((-1i32, 4i32)));
    assert(lives_next(s, (-1i32, 5i32), b) == t.contains((-1i32, 5i32)));
    assert(lives_next(s, (-1i32, 6i32), b) == t.contains((-1i32, 6i32)));
    assert(lives_next(s, (-1i32, 7i32), b) == t.contains((-1i32, 7i32)));
    assert(lives_next(s, (-1i32, 8i32), b) == t.contains((-1i32, 8i32)));
    assert(lives_next(s, (-1i32, 9i32), b) == t.contains((-1i32, 9i32)));
    assert(lives_next(s, (-1i32, 10i32), b) == t.contains((-1i32, 10i32)));
    assert(lives_next(s, (-1i32, 11i32), b) == t.contains((-1i32, 11i32)));
    assert(lives_next(s, (-1i32, 12i32), b) == t.contains((-1i32, 12i32)));
    assert(lives_next(s, (-1i32, 13i32), b) == t.contains((-1i32, 13i32)));
    assert(lives_next(s, (-1i32, 14i32), b) == t.contains((-1i32, 14i32)));
    assert(lives_next(s, (0i32, -2i32), b) == t.contains((0i32, -2i32)));
    assert(lives_next(s, (0i32, -1i32), b) == t.contains((0i32, -1i32)));
    assert(lives_next(s, (0i32, 0i32), b) == t.contains((0i32, 0i32)));
    assert(lives_next(s, (0i32, 1i32), b) == t.contains((0i32, 1i32)));
    assert(lives_next(s, (0i32, 2i32), b) == t.contains((0i32, 2i32)));
    assert(lives_next(s, (0i32, 3i32), b) == t.contains((0i32, 3i32)));
    assert(lives_next(s, (0i32, 4i32), b) == t.contains((0i32, 4i32)));
    assert(lives_next(s, (0i32, 5i32), b) == t.contains((0i32, 5i32)));
    assert(lives_next(s, (0i32, 6i32), b) == t.contains((0i32, 6i32)));
    assert(lives_next(s, (0i32, 7i32), b) == t.contains((0i32, 7i32)));
    assert(lives_next(s, (0i32, 8i32), b) == t.contains((0i32, 8i32)));
    assert(lives_next(s, (0i32, 9i32), b) == t.contains((0i32, 9i32)));
    assert(lives_next(s, (0i32, 10i32), b) == t.contains((0i32, 10i32)));
    assert(lives_next(s, (0i32, 11i32), b) == t.contains((0i32, 11i32)));
    assert(lives_next(s, (0i32, 12i32), b) == t.contains((0i32, 12i32)));
    assert(lives_next(s, (0i32, 13i32), b) == t.contains((0i32, 13i32)));
    assert(lives_next(s, (0i32, 14i32), b) == t.contains((0i32, 14i32)));
    assert(lives_next(s, (1i32, -2i32), b) == t.contains((1i32, -2i32)));
    assert(lives_next(s, (1i32, -1i32), b) == t.contains((1i32, -1i32)));
    assert(lives_next(s, (1i32, 0i32), b) == t.contains((1i32, 0i32)));
    assert(lives_next(s, (1i32, 1i32), b) == t.contains((1i32, 1i32)));
    assert(lives_next(s, (1i32, 2i32), b) == t.contains((1i32, 2i32)));
    assert(lives_next(s, (1i32, 3i32), b) == t.contains((1i32, 3i32)));
    assert(lives_next(s, (1i32, 4i32), b) == t.contains((1i32, 4i32)));
    assert(lives_next(s, (1i32, 5i32), b) == t.contains((1i32, 5i32)));
    assert(lives_next(s, (1i32, 6i32), b) == t.contains((1i32, 6i32)));
    assert(lives_next(s, (1i32, 7i32), b) == t.contains((1i32, 7i32)));
    assert(lives_next(s, (1i32, 8i32), b) == t.contains((1i32, 8i32)));
    assert(lives_next(s, (1i32, 9i32), b) == t.contains((1i32, 9i32)));
    assert(lives_next(s, (1i32, 10i32), b) == t.contains((1i32, 10i32)));
    assert(lives_next(s, (1i32, 11i32), b) == t.contains((1i32, 11i32)));
    assert(lives_next(s, (1i32, 12i32), b) == t.contains((1i32, 12i32)));
    assert(lives_next(s, (1i32, 13i32), b) == t.contains((1i32, 13i32)));
    assert(lives_next(s, (1i32, 14i32), b) == t.contains((1i32, 14i32)));
    assert(lives_next(s, (2i32, -2i32), b) == t.contains((2i32, -2i32)));
    assert(lives_next(s, (2i32, -1i32), b) == t.contains((2i32, -1i32)));
    assert(lives_next(s, (2i32, 0i32), b) == t.contains((2i32, 0i32)));
    assert(lives_next(s, (2i32, 1i32), b) == t.contains((2i32, 1i32)));
    assert(lives_next(s, (2i32, 2i32), b) == t.contains((2i32, 2i32)));
    assert(lives_next(s, (2i32, 3i32), b) == t.contains((2i32, 3i32)));
    assert(lives_next(s, (2i32, 4i32), b) == t.contains((2i32, 4i32)));
    assert(lives_next(s, (2i32, 5i32), b) == t.contains((2i32, 5i32)));
    assert(lives_next(s, (2i32, 6i32), b) == t.contains((2i32, 6i32)));
    assert(lives_next(s, (2i32, 7i32), b) == t.contains((2i32, 7i32)));
    assert(lives_next(s, (2i32, 8i32), b) == t.contains((2i32, 8i32)));
    assert(lives_next(s, (2i32, 9i32), b) == t.contains((2i32, 9i32)));
    assert(lives_next(s, (2i32, 10i32), b) == t.contains((2i32, 10i32)));
    assert(lives_next(s, (2i32, 11i32), b) == t.contains((2i32, 11i32)));
    assert(lives_next(s, (2i32, 12i32), b) == t.contains((2i32, 12i32)));
    assert(lives_next(s, (2i32, 13i32), b) == t.contains((2i32, 13i32)));
    assert(lives_next(s, (2i32, 14i32), b) == t.contains((2i32, 14i32)));
    assert(lives_next(s, (3i32, -2i32), b) == t.contains((3i32, -2i32)));
    assert(lives_next(s, (3i32, -1i32), b) == t.contains((3i32, -1i32)));
    assert(lives_next(s, (3i32, 0i32), b) == t.contains((3i32, 0i32)));
    assert(lives_next(s, (3i32, 1i32), b) == t.contains((3i32, 1i32)));
    assert(lives_next(s, (3i32, 2i32), b) == t.contains((3i32, 2i32)));
    assert(lives_next(s, (3i32, 3i32), b) == t.contains((3i32, 3i32)));
    assert(lives_next(s, (3i32, 4i32), b) == t.contains((3i32, 4i32)));
    assert(lives_next(s, (3i32, 5i32), b) == t.contains((3i32, 5i32)));
    assert(lives_next(s, (3i32, 6i32), b) == t.contains((3i32, 6i32)));
    assert(lives_next(s, (3i32, 7i32), b) == t.contains((3i32, 7i32)));
    assert(lives_next(s, (3i32, 8i32), b) == t.contains((3i32, 8i32)));
    assert(lives_next(s, (3i32, 9i32), b) == t.contains((3i32, 9i32)));
    assert(lives_next(s, (3i32, 10i32), b) == t.contains((3i32, 10i32)));
    assert(lives_next(s, (3i32, 11i32), b) == t.contains((3i32, 11i32)));
    assert(lives_next(s, (3i32, 12i32), b) == t.contains((3i32, 12i32)));
    assert(lives_next(s, (3i32, 13i32), b) == t.contains((3i32, 13i32)));
    assert(lives_next(s, (3i32, 14i32), b) == t.contains((3i32, 14i32)));
    assert(lives_next(s, (4i32, -2i32), b) == t.contains((4i32, -2i32)));
    assert(lives_next(s, (4i32, -1i32), b) == t.contains((4i32, -1i32)));
    assert(lives_next(s, (4i32, 0i32), b) == t.contains((4i32, 0i32)));
    assert(lives_next(s, (4i32, 1i32), b) == t.contains((4i32, 1i32)));
    assert(lives_next(s, (4i32, 2i32), b) == t.contains((4i32, 2i32)));
    assert(lives_next(s, (4i32, 3i32), b) == t.contains((4i32, 3i32)));
    assert(lives_next(s, (4i32, 4i32), b) == t.contains((4i32, 4i32)));
    assert(lives_next(s, (4i32, 5i32), b) == t.contains((4i32, 5i32)));
    assert(lives_next(s, (4i32, 6i32), b) == t.contains((4i32, 6i32)));
    assert(lives_next(s, (4i32, 7i32), b) == t.contains((4i32, 7i32)));
    assert(lives_next(s, (4i32, 8i32), b) == t.contains((4i32, 8i32)));
    assert(lives_next(s, (4i32, 9i32), b) == t.contains((4i32, 9i32)));
    assert(lives_next(s, (4i32, 10i32), b) == t.contains((4i32, 10i32)));
    assert(lives_next(s, (4i32, 11i32), b) == t.contains((4i32, 11i32)));
    assert(lives_next(s, (4i32, 12i32), b) == t.contains((4i32, 12i32)));
    assert(lives_next(s, (4i32, 13i32), b) == t.contains((4i32, 13i32)));
    assert(lives_next(s, (4i32, 14i32), b) == t.contains((4i32, 14i32)));
    assert(lives_next(s, (5i32, -2i32), b) == t.contains((5i32, -2i32)));
    assert(lives_next(s, (5i32, -1i32), b) == t.contains((5i32, -1i32)));
    assert(lives_next(s, (5i32, 0i32), b) == t.contains((5i32, 0i32)));
    assert(lives_next(s, (5i32, 1i32), b) == t.contains((5i32, 1i32)));
    assert(lives_next(s, (5i32, 2i32), b) == t.contains((5i32, 2i32)));
    assert(lives_next(s, (5i32, 3i32), b) == t.contains((5i32, 3i32)));
    assert(lives_next(s, (5i32, 4i32), b) == t.contains((5i32, 4i32)));
    assert(lives_next(s, (5i32, 5i32), b) == t.contains((5i32, 5i32)));
    assert(lives_next(s, (5i32, 6i32), b) == t.contains((5i32, 6i32)));
    assert(lives_next(s, (5i32, 7i32), b) == t.contains((5i32, 7i32)));
    assert(lives_next(s, (5i32, 8i32), b) == t.contains((5i32, 8i32)));
    assert(lives_next(s, (5i32, 9i32), b) == t.contains((5i32, 9i32)));
    assert(lives_next(s, (5i32, 10i32), b) == t.contains((5i32, 10i32)));
    assert(lives_next(s, (5i32, 11i32), b) == t.contains((5i32, 11i32)));
    assert(lives_next(s, (5i32, 12i32), b) == t.contains((5i32, 12i32)));
    assert(lives_next(s, (5i32, 13i32), b) == t.contains((5i32, 13i32)));
    assert(lives_next(s, (5i32, 14i32), b) == t.contains((5i32, 14i32)));
    assert(lives_next(s, (6i32, -2i32), b) == t.contains((6i32, -2i32)));
    assert(lives_next(s, (6i32, -1i32), b) == t.contains((6i32, -1i32)));
    assert(lives_next(s, (6i32, 0i32), b) == t.contains((6i32, 0i32)));
    assert(lives_next(s, (6i32, 1i32), b) == t.contains((6i32, 1i32)));
    assert(lives_next(s, (6i32, 2i32), b) == t.contains((6i32, 2i32)));
    assert(lives_next(s, (6i32, 3i32), b) == t.contains((6i32, 3i32)));
    assert(lives_next(s, (6i32, 4i32), b) == t.contains((6i32, 4i32)));
    assert(lives_next(s, (6i32, 5i32), b) == t.contains((6i32, 5i32)));
    assert(lives_next(s, (6i32, 6i32), b) == t.contains((6i32, 6i32)));
    assert(lives_next(s, (6i32, 7i32), b) == t.contains((6i32, 7i32)));
    assert(lives_next(s, (6i32, 8i32), b) == t.contains((6i32, 8i32)));
    assert(lives_next(s, (6i32, 9i32), b) == t.contains((6i32, 9i32)));
    assert(lives_next(s, (6i32, 10i32), b) == t.contains((6i32, 10i32)));
    assert(lives_next(s, (6i32, 11i32), b) == t.contains((6i32, 11i32)));
    assert(lives_next(s, (6i32, 12i32), b) == t.contains((6i32, 12i32)));
    assert(lives_next(s, (6i32, 13i32), b) == t.contains((6i32, 13i32)));
    assert(lives_next(s, (6i32, 14i32), b) == t.contains((6i32, 14i32)));
    assert(lives_next(s, (7i32, -2i32), b) == t.contains((7i32, -2i32)));
    assert(lives_next(s, (7i32, -1i32), b) == t.contains((7i32, -1i32)));
    assert(lives_next(s, (7i32, 0i32), b) == t.contains((7i32, 0i32)));
    assert(lives_next(s, (7i32, 1i32), b) == t.contains((7i32, 1i32)));
    assert(lives_next(s, (7i32, 2i32), b) == t.contains((7i32, 2i32)));
    assert(lives_next(s, (7i32, 3i32), b) == t.contains((7i32, 3i32)));
    assert(lives_next(s, (7i32, 4i32), b) == t.contains((7i32, 4i32)));
    assert(lives_next(s, (7i32, 5i32), b) == t.contains((7i32, 5i32)));
    assert(lives_next(s, (7i32, 6i32), b) == t.contains((7i32, 6i32)));
    assert(lives_next(s, (7i32, 7i32), b) == t.contains((7i32, 7i32)));
    assert(lives_next(s, (7i32, 8i32), b) == t.contains((7i32, 8i32)));
    assert(lives_next(s, (7i32, 9i32), b) == t.contains((7i32, 9i32)));
    assert(lives_next(s, (7i32, 10i32), b) == t.contains((7i32, 10i32)));
    assert(lives_next(s, (7i32, 11i32), b) == t.contains((7i32, 11i32)));
    assert(lives_next(s, (7i32, 12i32), b) == t.contains((7i32, 12i32)));
    assert(lives_next(s, (7i32, 13i32), b) == t.contains((7i32, 13i32)));
    assert(lives_next(s, (7i32, 14i32), b) == t.contains((7i32, 14i32)));
    assert(lives_next(s, (8i32, -2i32), b) == t.contains((8i32, -2i32)));
    assert(lives_next(s, (8i32, -1i32), b) == t.contains((8i32, -1i32)));
    assert(lives_next(s, (8i32, 0i32), b) == t.contains((8i32, 0i32)));
    assert(lives_next(s, (8i32, 1i32), b) == t.contains((8i32, 1i32)));
    assert(lives_next(s, (8i32, 2i32), b) == t.contains((8i32, 2i32)));
    assert(lives_next(s, (8i32, 3i32), b) == t.contains((8i32, 3i32)));
    assert(lives_next(s, (8i32, 4i32), b) == t.contains((8i32, 4i32)));
    assert(lives_next(s, (8i32, 5i32), b) == t.contains((8i32, 5i32)));
    assert(lives_next(s, (8i32, 6i32), b) == t.contains((8i32, 6i32)));
    assert(lives_next(s, (8i32, 7i32), b) == t.contains((8i32, 7i32)));
    assert(lives_next(s, (8i32, 8i32), b) == t.contains((8i32, 8i32)));
    assert(lives_next(s, (8i32, 9i32), b) == t.contains((8i32, 9i32)));
    assert(lives_next(s, (8i32, 10i32), b) == t.contains((8i32, 10i32)));
    assert(lives_next(s, (8i32, 11i32), b) == t.contains((8i32, 11i32)));
    assert(lives_next(s, (8i32, 12i32), b) == t.contains((8i32, 12i32)));
    assert(lives_next(s, (8i32, 13i32), b) == t.contains((8i32, 13i32)));
    assert(lives_next(s, (8i32, 14i32), b) == t.contains((8i32, 14i32)));
    assert(lives_next(s, (9i32, -2i32), b) == t.contains((9i32, -2i32)));
    assert(lives_next(s, (9i32, -1i32), b) == t.contains((9i32, -1i32)));
    assert(lives_next(s, (9i32, 0i32), b) == t.contains((9i32, 0i32)));
    assert(lives_next(s, (9i32, 1i32), b) == t.contains((9i32, 1i32)));
    assert(lives_next(s, (9i32, 2i32), b) == t.contains((9i32, 2i32)));
    assert(lives_next(s, (9i32, 3i32), b) == t.contains((9i32, 3i32)));
    assert(lives_next(s, (9i32, 4i32), b) == t.contains((9i32, 4i32)));
    assert(lives_next(s, (9i32, 5i32), b) == t.contains((9i32, 5i32)));
    assert(lives_next(s, (9i32, 6i32), b) == t.contains((9i32, 6i32)));
    assert(lives_next(s, (9i32, 7i32), b) == t.contains((9i32, 7i32)));
    assert(lives_next(s, (9i32, 8i32), b) == t.contains((9i32, 8i32)));
    assert(lives_next(s, (9i32, 9i32), b) == t.contains((9i32, 9i32)));
    assert(lives_next(s, (9i32, 10i32), b) == t.contains((9i32, 10i32)));
    assert(lives_next(s, (9i32, 11i32), b) == t.contains((9i32, 11i32)));
    assert(lives_next(s, (9i32, 12i32), b) == t.contains((9i32, 12i32)));
    assert(lives_next(s, (9i32, 13i32), b) == t.contains((9i32, 13i32)));
    assert(lives_next(s, (9i32, 14i32), b) == t.contains((9i32, 14i32)));
    assert(lives_next(s, (10i32, -2i32), b) == t.contains((10i32, -2i32)));
    assert(lives_next(s, (10i32, -1i32), b) == t.contains((10i32, -1i32)));
    assert(lives_next(s, (10i32, 0i32), b) == t.contains((10i32, 0i32)));
    assert(lives_next(s, (10i32, 1i32), b) == t.contains((10i32, 1i32)));
    assert(lives_next(s, (10i32, 2i32), b) == t.contains((10i32, 2i32)));
    assert(lives_next(s, (10i32, 3i32), b) == t.contains((10i32, 3i32)));
    assert(lives_next(s, (10i32, 4i32), b) == t.contains((10i32, 4i32)));
    assert(lives_next(s, (10i32, 5i32), b) == t.contains((10i32, 5i32)));
    assert(lives_next(s, (10i32, 6i32), b) == t.contains((10i32, 6i32)));
    assert(lives_next(s, (10i32, 7i32), b) == t.contains((10i32, 7i32)));
    assert(lives_next(s, (10i32, 8i32), b) == t.contains((10i32, 8i32)));
    assert(lives_next(s, (10i32, 9i32), b) == t.contains((10i32, 9i32)));
    assert(lives_next(s, (10i32, 10i32), b) == t.contains((10i32, 10i32)));
    assert(lives_next(s, (10i32, 11i32), b) == t.contains((10i32, 11i32)));
    assert(lives_next(s, (10i32, 12i32), b) == t.contains((10i32, 12i32)));
    assert(lives_next(s, (10i32, 13i32), b) == t.contains((10i32, 13i32)));
    assert(lives_next(s, (10i32, 14i32), b) == t.contains((10i32, 14i32)));
    assert(lives_next(s, (11i32, -2i32), b) == t.contains((11i32, -2i32)));
    assert(lives_next(s, (11i32, -1i32), b) == t.contains((11i32, -1i32)));
    assert(lives_next(s, (11i32, 0i32), b) == t.contains((11i32, 0i32)));
    assert(lives_next(s, (11i32, 1i32), b) == t.contains((11i32, 1i32)));
    assert(lives_next(s, (11i32, 2i32), b) == t.contains((11i32, 2i32)));
    assert(lives_next(s, (11i32, 3i32), b) == t.contains((11i32, 3i32)));
    assert(lives_next(s, (11i32, 4i32), b) == t.contains((11i32, 4i32)));
    assert(lives_next(s, (11i32, 5i32), b) == t.contains((11i32, 5i32)));
    assert(lives_next(s, (11i32, 6i32), b) == t.contains((11i32, 6i32)));
    assert(lives_next(s, (11i32, 7i32), b) == t.contains((11i32, 7i32)));
    assert(lives_next(s, (11i32, 8i32), b) == t.contains((11i32, 8i32)));
    assert(lives_next(s, (11i32, 9i32), b) == t.contains((11i32, 9i32)));
    assert(lives_next(s, (11i32, 10i32), b) == t.contains((11i32, 10i32)));
    assert(lives_next(s, (11i32, 11i32), b) == t.contains((11i32, 11i32)));
    assert(lives_next(s, (11i32, 12i32), b) == t.contains((11i32, 12i32)));
    assert(lives_next(s, (11i32, 13i32), b) == t.contains((11i32, 13i32)));
    assert(lives_next(s, (11i32, 14i32), b) == t.contains((11i32, 14i32)));
    assert(lives_next(s, (12i32, -2i32), b) == t.contains((12i32, -2i32)));
    assert(lives_next(s, (12i32, -1i32), b) == t.contains((12i32, -1i32)));
    assert(lives_next(s, (12i32, 0i32), b) == t.contains((12i32, 0i32)));
    assert(lives_next(s, (12i32, 1i32), b) == t.contains((12i32, 1i32)));
    assert(lives_next(s, (12i32, 2i32), b) == t.contains((12i32, 2i32)));
    assert(lives_next(s, (12i32, 3i32), b) == t.contains((12i32, 3i32)));
    assert(lives_next(s, (12i32, 4i32), b) == t.contains((12i32, 4i32)));
    assert(lives_next(s, (12i32, 5i32), b) == t.contains((12i32, 5i32)));
    assert(lives_next(s, (12i32, 6i32), b) == t.contains((12i32, 6i32)));
    assert(lives_next(s, (12i32, 7i32), b) == t.contains((12i32, 7i32)));
    assert(lives_next(s, (12i32, 8i32), b) == t.contains((12i32, 8i32)));
    assert(lives_next(s, (12i32, 9i32), b) == t.contains((12i32, 9i32)));
    assert(lives_next(s, (12i32, 10i32), b) == t.contains((12i32, 10i32)));
    assert(lives_next(s, (12i32, 11i32), b) == t.contains((12i32, 11i32)));
    assert(lives_next(s, (12i32, 12i32), b) == t.contains((12i32, 12i32)));
    assert(lives_next(s, (12i32, 13i32), b) == t.contains((12i32, 13i32)));
    assert(lives_next(s, (12i32, 14i32), b) == t.contains((12i32, 14i32)));
    assert(lives_next(s, (13i32, -2i32), b) == t.contains((13i32, -2i32)));
    assert(lives_next(s, (13i32, -1i32), b) == t.contains((13i32, -1i32)));
    assert(lives_next(s, (13i32, 0i32), b) == t.contains((13i32, 0i32)));
    assert(lives_next(s, (13i32, 1i32), b) == t.contains((13i32, 1i32)));
    assert(lives_next(s, (13i32, 2i32), b) == t.contains((13i32, 2i32)));
    assert(lives_next(s, (13i32, 3i32), b) == t.contains((13i32, 3i32)));
    assert(lives_next(s, (13i32, 4i32), b) == t.contains((13i32, 4i32)));
    assert(lives_next(s, (13i32, 5i32), b) == t.contains((13i32, 5i32)));
    assert(lives_next(s, (13i32, 6i32), b) == t.contains((13i32, 6i32)));
    assert(lives_next(s, (13i32, 7i32), b) == t.contains((13i32, 7i32)));
    assert(lives_next(s, (13i32, 8i32), b) == t.contains((13i32, 8i32)));
    assert(lives_next(s, (13i32, 9i32), b) == t.contains((13i32, 9i32)));
    assert(lives_next(s, (13i32, 10i32), b) == t.contains((13i32, 10i32)));
    assert(lives_next(s, (13i32, 11i32), b) == t.contains((13i32, 11i32)));
    assert(lives_next(s, (13i32, 12i32), b) == t.contains((13i32, 12i32)));
    assert(lives_next(s, (13i32, 13i32), b) == t.contains((13i32, 13i32)));
    assert(lives_next(s, (13i32, 14i32), b) == t.contains((13i32, 14i32)));
    assert(lives_next(s, (14i32, -2i32), b) == t.contains((14i32, -2i32)));
    assert(lives_next(s, (14i32, -1i32), b) == t.contains((14i32, -1i32)));
    assert(lives_next(s, (14i32, 0i32), b) == t.contains((14i32, 0i32)));
    assert(lives_next(s, (14i32, 1i32), b) == t.contains((14i32, 1i32)));
    assert(lives_next(s, (14i32, 2i32), b) == t.contains((14i32, 2i32)));
    assert(lives_next(s, (14i32, 3i32), b) == t.contains((14i32, 3i32)));
    assert(lives_next(s, (14i32, 4i32), b) == t.contains((14i32, 4i32)));
    assert(lives_next(s, (14i32, 5i32), b) == t.contains((14i32, 5i32)));
    assert(lives_next(s, (14i32, 6i32), b) == t.contains((14i32, 6i32)));
    assert(lives_next(s, (14i32, 7i32), b) == t.contains((14i32, 7i32)));
    assert(lives_next(s, (14i32, 8i32), b) == t.contains((14i32, 8i32)));
    assert(lives_next(s, (14i32, 9i32), b) == t.contains((14i32, 9i32)));
    assert(lives_next(s, (14i32, 10i32), b) == t.contains((14i32, 10i32)));
    assert(lives_next(s, (14i32, 11i32), b) == t.contains((14i32, 11i32)));
    assert(lives_next(s, (14i32, 12i32), b) == t.contains((14i32, 12i32)));
    assert(lives_next(s, (14i32, 13i32), b) == t.contains((14i32, 13i32)));
    assert(lives_next(s, (14i32, 14i32), b) == t.contains((14i32, 14i32)));
    assert forall|c: Cell| lives_next(s, c, b) <==> #[trigger] t.contains(c) by {
        if !(-2 <= c.0 <= 14 && -2 <= c.1 <= 14) {
            assert(!t.contains(c));
        }
    }
    assert(next_generation(s, b) =~= t);
}

/// The pulsar as a set of cells.
proof fn lemma_pulsar_cells()
    ensures
        spec_pulsar().to_set() == pulsar_phase(0),
{
    let q = spec_pulsar();
    assert forall|c: Cell| q.to_set().contains(c) <==> #[trigger] pulsar_phase(0).contains(c) by {
        if pulsar_phase(0).contains(c) {
            if c == q[0] {
                assert(q.contains(q[0]));
            }
            if c == q[1] {
                assert(q.contains(q[1]));
            }
            if c == q[2] {
                assert(q.contains(q[2]));
            }
            if c == q[3] {
                assert(q.contains(q[3]));
            }
            if c == q[4] {
                assert(q.contains(q[4]));
            }
            if c == q[5] {
                assert(q.contains(q[5]));
            }
            if c == q[6] {
                assert(q.contains(q[6]));
            }
            if c == q[7] {
                assert(q.contains(q[7]));
            }
            if c == q[8] {
                assert(q.contains(q[8]));
            }
            if c == q[9] {
                assert(q.contains(q[9]));
            }
            if c == q[10] {
                assert(q.contains(q[10]));
            }
            if c == q[11] {
                assert(q.contains(q[11]));
            }
            if c == q[12] {
                assert(q.contains(q[12]));
            }
            if c == q[13] {
                assert(q.contains(q[13]));
            }
            if c == q[14] {
                assert(q.contains(q[14]));
            }
            if c == q[15] {
                assert(q.contains(q[15]));
            }
            if c == q[16] {
                assert(q.contains(q[16]));
            }
            if c == q[17] {
                assert(q.contains(q[17]));
            }
            if c == q[18] {
                assert(q.contains(q[18]));
            }
            if c == q[19] {
                assert(q.contains(q[19]));
            }
            if c == q[20] {
                assert(q.contains(q[20]));
            }
            if c == q[21] {
                assert(q.contains(q[21]));
            }
            if c == q[22] {
                assert(q.contains(q[22]));
            }
            if c == q[23] {
                assert(q.contains(q[23]));
            }
            if c == q[24] {
                assert(q.contains(q[24]));
            }
            if c == q[25] {
                assert(q.contains(q[25]));
            }
            if c == q[26] {
                assert(q.contains(q[26]));
            }
            if c == q[27] {
                assert(q.contains(q[27]));
            }
            if c == q[28] {
                assert(q.contains(q[28]));
            }
            if c == q[29] {
                assert(q.contains(q[29]));
            }
            if c == q[30] {
                assert(q.contains(q[30]));
            }
            if c == q[31] {
                assert(q.contains(q[31]));
            }
            if c == q[32] {
                assert(q.contains(q[32]));
            }
            if c == q[33] {
                assert(q.contains(q[33]));
            }
            if c == q[34] {
                assert(q.contains(q[34]));
            }
            if c == q[35] {
                assert(q.contains(q[35]));
            }
            if c == q[36] {
                assert(q.contains(q[36]));
            }
            if c == q[37] {
                assert(q.contains(q[37]));
            }
            if c == q[38] {
                assert(q.contains(q[38]));
            }
            if c == q[39] {
                assert(q.contains(q[39]));
            }
            if c == q[40] {
                assert(q.contains(q[40]));
            }
            if c == q[41] {
                assert(q.contains(q[41]));
            }
            if c == q[42] {
                assert(q.contains(q[42]));
            }
            if c == q[43] {
                assert(q.contains(q[43]));
            }
            if c == q[44] {
                assert(q.contains(q[44]));
            }
            if c == q[45] {
                assert(q.contains(q[45]));
            }
            if c == q[46] {
                assert(q.contains(q[46]));
            }
            if c == q[47] {
                assert(q.contains(q[47]));
            }
        }
    }
    assert(q.to_set() =~= pulsar_phase(0));
}

/// The glider is a spaceship: four generations in an open arena give back the
/// same cells, one step further along `x` and one step back along `y`.
pub proof fn lemma_glider_travels(b: (i32, i32))
    requires
        b.0 >= 4,
        b.1 >= 3,
    ensures
        forall|c: Cell| #[trigger] spec_glider().to_set().contains(c) ==> generations(spec_glider().to_set(), 4, b).contains(((c.0 + 1) as i32, (c.1 - 1) as i32)),
        forall|c: Cell| #[trigger] generations(spec_glider().to_set(), 4, b).contains(c) ==> spec_glider().to_set().contains(((c.0 - 1) as i32, (c.1 + 1) as i32)),
{
    reveal_with_fuel(generations, 5);
    lemma_glider_cells();
    lemma_glider_step_0(b);
    lemma_glider_step_1(b);
    lemma_glider_step_2(b);
    lemma_glider_step_3(b);
}

/// The lightweight spaceship is a spaceship: four generations in an open arena
/// give back the same cells, two steps further along `x`.
pub proof fn lemma_lwss_travels(b: (i32, i32))
    requires
        b.0 >= 7,
        b.1 >= 5,
    ensures
        forall|c: Cell| #[trigger] spec_lwss().to_set().contains(c) ==> generations(spec_lwss().to_set(), 4, b).contains(((c.0 + 2) as i32, c.1)),
        forall|c: Cell| #[trigger] generations(spec_lwss().to_set(), 4, b).contains(c) ==> spec_lwss().to_set().contains(((c.0 - 2) as i32, c.1)),
{
    reveal_with_fuel(generations, 5);
    lemma_lwss_cells();
    lemma_lwss_step_0(b);
    lemma_lwss_step_1(b);
    lemma_lwss_step_2(b);
    lemma_lwss_step_3(b);
}

/// The blinker oscillates with period two: it changes, and two generations
/// give it back.
pub proof fn lemma_blinker_oscillates(b: (i32, i32))
    requires
        b.0 >= 3,
        b.1 >= 2,
    ensures
        generations(spec_blinker().to_set(), 2, b) == spec_blinker().to_set(),
        generations(spec_blinker().to_set(), 1, b) != spec_blinker().to_set(),
{
    reveal_with_fuel(generations, 3);
    lemma_blinker_cells();
    lemma_blinker_step_0(b);
    lemma_blinker_step_1(b);
    assert(blinker_phase(1).contains((1i32, 1i32)) && !blinker_phase(0).contains((1i32, 1i32)));
}

/// The toad oscillates with period two: it changes, and two generations give
/// it back.
pub proof fn lemma_toad_oscillates(b: (i32, i32))
    requires
        b.0 >= 4,
        b.1 >= 3,
    ensures
        generations(spec_toad().to_set(), 2, b) == spec_toad().to_set(),
        generations(spec_toad().to_set(), 1, b) != spec_toad().to_set(),
{
    reveal_with_fuel(generations, 3);
    lemma_toad_cells();
    lemma_toad_step_0(b);
    lemma_toad_step_1(b);
    assert(toad_phase(1).contains((2i32, -1i32)) && !toad_phase(0).contains((2i32, -1i32)));
}

/// The beacon oscillates with period two: it changes, and two generations give
/// it back.
pub proof fn lemma_beacon_oscillates(b: (i32, i32))
    requires
        b.0 >= 4,
        b.1 >= 4,
    ensures
        generations(spec_beacon().to_set(), 2, b) == spec_beacon().to_set(),
        generations(spec_beacon().to_set(), 1, b) != spec_beacon().to_set(),
{
    reveal_with_fuel(generations, 3);
    lemma_beacon_cells();
    lemma_beacon_step_0(b);
    lemma_beacon_step_1(b);
    assert(beacon_phase(1).contains((1i32, 1i32)) && !beacon_phase(0).contains((1i32, 1i32)));
}

/// The pulsar oscillates with period three: its next two generations differ
/// from it, and the third gives it back.
pub proof fn lemma_pulsar_oscillates(b: (i32, i32))
    requires
        b.0 >= 14,
        b.1 >= 14,
    ensures
        generations(spec_pulsar().to_set(), 3, b) == spec_pulsar().to_set(),
        generations(spec_pulsar().to_set(), 1, b) != spec_pulsar().to_set(),
        generations(spec_pulsar().to_set(), 2, b) != spec_pulsar().to_set(),
{
    reveal_with_fuel(generations, 4);
    lemma_pulsar_cells();
    lemma_pulsar_step_0(b);
    lemma_pulsar_step_1(b);
    lemma_pulsar_step_2(b);
    assert(pulsar_phase(1).contains((3i32, -1i32)) && !pulsar_phase(0).contains((3i32, -1i32)));
    assert(pulsar_phase(2).contains((3i32, 4i32)) && !pulsar_phase(0).contains((3i32, 4i32)));
}

/// The R-pentomino keeps changing: none of its first four generations gives it
/// back, and by the fourth it has spread left of the columns it started in.
pub proof fn lemma_r_pentomino_changes(b: (i32, i32))
    requires
        b.0 >= 3,
        b.1 >= 3,
    ensures
        generations(spec_r_pentomino().to_set(), 1, b) != spec_r_pentomino().to_set(),
        generations(spec_r_pentomino().to_set(), 2, b) != spec_r_pentomino().to_set(),
        generations(spec_r_pentomino().to_set(), 3, b) != spec_r_pentomino().to_set(),
        generations(spec_r_pentomino().to_set(), 4, b) != spec_r_pentomino().to_set(),
        exists|c: Cell| #[trigger] generations(spec_r_pentomino().to_set(), 4, b).contains(c) && c.0 < 0,
{
    reveal_with_fuel(generations, 5);
    lemma_r_pentomino_cells();
    lemma_r_pentomino_step_0(b);
    lemma_r_pentomino_step_1(b);
    lemma_r_pentomino_step_2(b);
    lemma_r_pentomino_step_3(b);
    assert(r_pentomino_phase(1).contains((0i32, 0i32)) && !r_pentomino_phase(0).contains((0i32, 0i32)));
    assert(r_pentomino_phase(2).contains((2i32, 1i32)) && !r_pentomino_phase(0).contains((2i32, 1i32)));
    assert(r_pentomino_phase(3).contains((2i32, 1i32)) && !r_pentomino_phase(0).contains((2i32, 1i32)));
    assert(r_pentomino_phase(4).contains((2i32, -1i32)) && !r_pentomino_phase(0).contains((2i32, -1i32)));
    assert(r_pentomino_phase(4).contains((-1i32, 0i32)));
}

} // verus!
