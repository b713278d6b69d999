//! Levels: the classic patterns the colony is seeded with, how they are picked
//! and mutated, and the reinforcement waves.
use crate::cells::{edge_adjacent, lemma_is_sorted_of, sorted_cells, sorted_of, strictly_sorted, Cell, CellSet};
use crate::gol_grid::{dist2, placed, LifeGrid};
use crate::random::{lemma_log_extend, Draw, GameRng};
use vstd::prelude::*;

verus! {

/// The glider.
pub open spec fn spec_glider() -> Seq<Cell> {
    seq![(0i32, 0i32), (1, 0), (2, 0), (2, 1), (1, 2)]
}

/// The blinker.
pub open spec fn spec_blinker() -> Seq<Cell> {
    seq![(0i32, 0i32), (1, 0), (2, 0)]
}

/// The toad.
pub open spec fn spec_toad() -> Seq<Cell> {
    seq![(1i32, 0i32), (2, 0), (3, 0), (0, 1), (1, 1), (2, 1)]
}

/// The beacon.
pub open spec fn spec_beacon() -> Seq<Cell> {
    seq![(0i32, 0i32), (1, 0), (0, 1), (3, 2), (2, 3), (3, 3)]
}

/// The R-pentomino.
pub open spec fn spec_r_pentomino() -> Seq<Cell> {
    seq![(1i32, 0i32), (2, 0), (0, 1), (1, 1), (1, 2)]
}

/// The lightweight spaceship.
pub open spec fn spec_lwss() -> Seq<Cell> {
    seq![(0i32, 0i32), (3, 0), (4, 1), (0, 2), (4, 2), (1, 3), (2, 3), (3, 3), (4, 3)]
}

/// The pulsar.
pub open spec fn spec_pulsar() -> Seq<Cell> {
    seq![
        (2i32, 0i32), (3, 0), (4, 0), (8, 0), (9, 0), (10, 0),
        (0, 2), (5, 2), (7, 2), (12, 2),
        (0, 3), (5, 3), (7, 3), (12, 3),
        (0, 4), (5, 4), (7, 4), (12, 4),
        (2, 5), (3, 5), (4, 5), (8, 5), (9, 5), (10, 5),
        (2, 7), (3, 7), (4, 7), (8, 7), (9, 7), (10, 7),
        (0, 8), (5, 8), (7, 8), (12, 8),
        (0, 9), (5, 9), (7, 9), (12, 9),
        (0, 10), (5, 10), (7, 10), (12, 10),
        (2, 12), (3, 12), (4, 12), (8, 12), (9, 12), (10, 12),
    ]
}

/// The glider.
pub fn glider() -> (r: Vec<Cell>)
    ensures
        r@ == spec_glider(),
{
    let r = vec![(0, 0), (1, 0), (2, 0), (2, 1), (1, 2)];
    assert(r@ =~= spec_glider());
    r
}

/// The blinker.
pub fn blinker() -> (r: Vec<Cell>)
    ensures
        r@ == spec_blinker(),
{
    let r = vec![(0, 0), (1, 0), (2, 0)];
    assert(r@ =~= spec_blinker());
    r
}

/// The toad.
pub fn toad() -> (r: Vec<Cell>)
    ensures
        r@ == spec_toad(),
{
    let r = vec![(1, 0), (2, 0), (3, 0), (0, 1), (1, 1), (2, 1)];
    assert(r@ =~= spec_toad());
    r
}

/// The beacon.
pub fn beacon() -> (r: Vec<Cell>)
    ensures
        r@ == spec_beacon(),
{
    let r = vec![(0, 0), (1, 0), (0, 1), (3, 2), (2, 3), (3, 3)];
    assert(r@ =~= spec_beacon());
    r
}

/// The R-pentomino.
pub fn r_pentomino() -> (r: Vec<Cell>)
    ensures
        r@ == spec_r_pentomino(),
{
    let r = vec![(1, 0), (2, 0), (0, 1), (1, 1), (1, 2)];
    assert(r@ =~= spec_r_pentomino());
    r
}

/// The lightweight spaceship.
pub fn lwss() -> (r: Vec<Cell>)
    ensures
        r@ == spec_lwss(),
{
    let r = vec![(0, 0), (3, 0), (4, 1), (0, 2), (4, 2), (1, 3), (2, 3), (3, 3), (4, 3)];
    assert(r@ =~= spec_lwss());
    r
}

/// The pulsar.
pub fn pulsar() -> (r: Vec<Cell>)
    ensures
        r@ == spec_pulsar(),
{
    let r = vec![
        (2, 0), (3, 0), (4, 0), (8, 0), (9, 0), (10, 0),
        (0, 2), (5, 2), (7, 2), (12, 2),
        (0, 3), (5, 3), (7, 3), (12, 3),
        (0, 4), (5, 4), (7, 4), (12, 4),
        (2, 5), (3, 5), (4, 5), (8, 5), (9, 5), (10, 5),
        (2, 7), (3, 7), (4, 7), (8, 7), (9, 7), (10, 7),
        (0, 8), (5, 8), (7, 8), (12, 8),
        (0, 9), (5, 9), (7, 9), (12, 9),
        (0, 10), (5, 10), (7, 10), (12, 10),
        (2, 12), (3, 12), (4, 12), (8, 12), (9, 12), (10, 12),
    ];
    assert(r@ =~= spec_pulsar());
    r
}

/// `cells` is `base` followed by new cells, each absent from the cells before it
/// and sharing an edge with one of them.
pub open spec fn grown_from(base: Seq<Cell>, cells: Seq<Cell>) -> bool {
    &&& cells.len() >= base.len()
    &&& cells.subrange(0, base.len() as int) == base
    &&& forall|t: int| base.len() <= t < cells.len() ==> !cells.subrange(0, t).contains(#[trigger] cells[t])
        && exists|j: int| 0 <= j < t && edge_adjacent(cells[j], cells[t])
}

/// Every coordinate of `cells` stays at least `margin` away from the ends of `i32`.
pub open spec fn within_margin(cells: Seq<Cell>, margin: int) -> bool {
    forall|i: int| 0 <= i < cells.len() ==> i32::MIN + margin <= #[trigger] cells[i].0 <= i32::MAX - margin
        && i32::MIN + margin <= cells[i].1 <= i32::MAX - margin
}

/// The index of a cell of `s` with the largest `x`.
spec fn max_x_index(s: Seq<Cell>) -> int
    decreases s.len(),
{
    if s.len() <= 1 {
        0
    } else {
        let j = max_x_index(s.drop_last());
        if s.last().0 > s[j].0 { s.len() - 1 } else { j }
    }
}

proof fn lemma_max_x(s: Seq<Cell>)
    requires
        s.len() > 0,
    ensures
        0 <= max_x_index(s) < s.len(),
        forall|i: int| 0 <= i < s.len() ==> #[trigger] s[i].0 <= s[max_x_index(s)].0,
    decreases s.len(),
{
    if s.len() > 1 {
        lemma_max_x(s.drop_last());
        let j = max_x_index(s.drop_last());
        assert forall|i: int| 0 <= i < s.len() implies #[trigger] s[i].0 <= s[max_x_index(s)].0 by {
            if i < s.len() - 1 {
                assert(s.drop_last()[i] == s[i]);
            }
        }
    }
}

/// A pattern that keeps at least one cell away from the ends of `i32` has a free
/// cell next to it: right of a cell with the largest `x`.
proof fn lemma_free_cell_exists(cells: Seq<Cell>) -> (probe: Cell)
    requires
        cells.len() > 0,
        within_margin(cells, 1),
    ensures
        !cells.to_set().contains(probe),
        exists|e: Cell| cells.to_set().contains(e) && edge_adjacent(e, probe),
{
    lemma_max_x(cells);
    let m = cells[max_x_index(cells)];
    let probe: Cell = ((m.0 + 1) as i32, m.1);
    assert(cells.to_set().contains(m));
    assert(edge_adjacent(m, probe));
    if cells.to_set().contains(probe) {
        let j = choose|j: int| 0 <= j < cells.len() && cells[j] == probe;
        assert(cells[j].0 <= m.0);
    }
    probe
}

/// Appending a fresh cell adjacent to an earlier one keeps a pattern grown from `base`.
proof fn lemma_grown_push(base: Seq<Cell>, before: Seq<Cell>, pick: Cell, je: int)
    requires
        grown_from(base, before),
        0 <= je < before.len(),
        edge_adjacent(before[je], pick),
        !before.contains(pick),
    ensures
        grown_from(base, before.push(pick)),
{
    let cells = before.push(pick);
    assert(cells.subrange(0, base.len() as int) =~= before.subrange(0, base.len() as int));
    assert forall|t: int| base.len() <= t < cells.len() implies !cells.subrange(0, t).contains(#[trigger] cells[t])
        && exists|j: int| 0 <= j < t && edge_adjacent(cells[j], cells[t]) by {
        if t < before.len() {
            assert(cells.subrange(0, t) =~= before.subrange(0, t));
            assert(cells[t] == before[t]);
            let j = choose|j: int| 0 <= j < t && edge_adjacent(before[j], before[t]);
            assert(cells[j] == before[j]);
        } else {
            assert(cells.subrange(0, t) =~= before);
            assert(cells[je] == before[je]);
        }
    }
}

/// Appending a cell adjacent to one that keeps `m` away from the ends of `i32`
/// keeps the pattern `m - 1` away.
proof fn lemma_margin_push(before: Seq<Cell>, pick: Cell, je: int, m: int)
    requires
        within_margin(before, m),
        0 <= je < before.len(),
        edge_adjacent(before[je], pick),
        m >= 1,
    ensures
        within_margin(before.push(pick), m - 1),
{
    let cells = before.push(pick);
    assert forall|k: int| 0 <= k < cells.len() implies i32::MIN + (m - 1) <= #[trigger] cells[k].0 <= i32::MAX - (m
        - 1) && i32::MIN + (m - 1) <= cells[k].1 <= i32::MAX - (m - 1) by {
        if k < before.len() {
            assert(cells[k] == before[k]);
        } else {
            assert(before[je].0 <= i32::MAX - m);
        }
    }
}

/// Adds `n` to `free` unless `existing` holds it.
fn note_free(existing: &CellSet, free: &mut CellSet, n: Cell)
    ensures
        final(free)@ == (if existing@.contains(n) { old(free)@ } else { old(free)@.insert(n) }),
{
    if !existing.contains(n) {
        free.insert(n);
    }
}

/// The cells outside `existing` that share an edge with a cell of it.
pub open spec fn growth_options(existing: Set<Cell>) -> Set<Cell> {
    Set::new(|n: Cell| !existing.contains(n) && exists|e: Cell| existing.contains(e) && edge_adjacent(e, n))
}

/// Every cell outside `existing` that shares an edge with a cell of it.
fn free_neighbors(existing: &CellSet) -> (free: CellSet)
    requires
        forall|c: Cell| #[trigger] existing@.contains(c) ==> i32::MIN < c.0 < i32::MAX && i32::MIN < c.1 < i32::MAX,
    ensures
        free@ == growth_options(existing@),
{
    let cells = existing.as_vec();
    let mut free = CellSet::new();
    let mut i: usize = 0;
    while i < cells.len()
        invariant
            0 <= i <= cells@.len(),
            cells@.to_set() == existing@,
            forall|c: Cell| #[trigger] existing@.contains(c) ==> i32::MIN < c.0 < i32::MAX && i32::MIN < c.1 < i32::MAX,
            forall|n: Cell| #[trigger] free@.contains(n) ==> !existing@.contains(n) && exists|e: Cell|
                existing@.contains(e) && edge_adjacent(e, n),
            forall|j: int, n: Cell| #![trigger cells@[j], free@.contains(n)]
                0 <= j < i && edge_adjacent(cells@[j], n) && !existing@.contains(n) ==> free@.contains(n),
        decreases cells@.len() - i,
    {
        let (x, y) = cells[i];
        let ghost e = cells@[i as int];
        let ghost f0 = free@;
        assert(existing@.contains(e));
        note_free(existing, &mut free, (x - 1, y));
        note_free(existing, &mut free, (x, y - 1));
        note_free(existing, &mut free, (x, y + 1));
        note_free(existing, &mut free, (x + 1, y));
        proof {
            assert forall|n: Cell| #[trigger] free@.contains(n) implies !existing@.contains(n) && exists|e: Cell|
                existing@.contains(e) && edge_adjacent(e, n) by {
                if !f0.contains(n) {
                    assert(edge_adjacent(e, n));
                }
            }
        }
        i = i + 1;
    }
    proof {
        assert forall|n: Cell| #[trigger] free@.contains(n) <==> growth_options(existing@).contains(n) by {
            if !existing@.contains(n) && exists|e: Cell| existing@.contains(e) && edge_adjacent(e, n) {
                let e = choose|e: Cell| existing@.contains(e) && edge_adjacent(e, n);
                let j = choose|j: int| 0 <= j < cells@.len() && cells@[j] == e;
            }
        }
        assert(free@ =~= growth_options(existing@));
    }
    free
}

/// The cells that may be added to the pattern `cells`: those outside it that
/// share an edge with one of its cells, in lexicographic order.
pub fn growth_choices(cells: &Vec<Cell>) -> (r: Vec<Cell>)
    requires
        within_margin(cells@, 1),
    ensures
        r@ == sorted_of(growth_options(cells@.to_set())),
        strictly_sorted(r@),
        r@.to_set() == growth_options(cells@.to_set()),
{
    let mut existing = CellSet::new();
    let mut i: usize = 0;
    while i < cells.len()
        invariant
            0 <= i <= cells@.len(),
            existing@ == cells@.take(i as int).to_set(),
        decreases cells@.len() - i,
    {
        existing.insert(cells[i]);
        proof {
            assert(cells@.take(i + 1) =~= cells@.take(i as int).push(cells@[i as int]));
            cells@.take(i as int).lemma_push_to_set_commute(cells@[i as int]);
        }
        i = i + 1;
    }
    assert(cells@.take(cells@.len() as int) =~= cells@);
    proof {
        assert forall|c: Cell| #[trigger] existing@.contains(c) implies i32::MIN < c.0 < i32::MAX && i32::MIN < c.1
            < i32::MAX by {
            let j = choose|j: int| 0 <= j < cells@.len() && cells@[j] == c;
        }
    }
    let free = free_neighbors(&existing);
    let listed = free.as_vec();
    let options = sorted_cells(listed);
    proof {
        lemma_is_sorted_of(options@);
    }
    options
}

/// The pattern `cells` grown by entry `k` of its `growth_choices`.
pub fn grow_with(cells: &mut Vec<Cell>, k: usize)
    requires
        within_margin(old(cells)@, 1),
        k < sorted_of(growth_options(old(cells)@.to_set())).len(),
    ensures
        final(cells)@ == old(cells)@.push(sorted_of(growth_options(old(cells)@.to_set()))[k as int]),
{
    let options = growth_choices(cells);
    let pick = options[k];
    cells.push(pick);
}

/// `base` grown by one cell per draw: the value of each draw indexes the
/// lexicographically ordered growth options of the pattern grown so far.
pub open spec fn grow_run(base: Seq<Cell>, draws: Seq<Draw>) -> Seq<Cell>
    decreases draws.len(),
{
    if draws.len() == 0 {
        base
    } else {
        let prev = grow_run(base, draws.drop_last());
        prev.push(sorted_of(growth_options(prev.to_set()))[draws.last().2])
    }
}

/// Each draw ranges over all indices of the growth options at its turn.
pub open spec fn growth_draws_fit(base: Seq<Cell>, draws: Seq<Draw>) -> bool {
    forall|i: int| #![trigger draws[i]] 0 <= i < draws.len() ==> {
        let n = sorted_of(growth_options(grow_run(base, draws.take(i)).to_set())).len();
        &&& draws[i].0 == 0
        &&& draws[i].1 == n - 1
        &&& 0 <= draws[i].2 < n
    }
}

/// Grows `cells` by `count` cells, one at a time: each is picked by one draw
/// over all the cells outside the pattern so far that share an edge with it,
/// listed in lexicographic order. An empty pattern has no such cell; it stays
/// empty and nothing is drawn.
pub fn mutate_pattern(cells: &mut Vec<Cell>, count: usize, rng: &mut GameRng)
    requires
        within_margin(old(cells)@, count as int),
    ensures
        ({
            let l = old(rng).draws().len() as int;
            let d = final(rng).draws().skip(l);
            &&& final(rng).draws().len() >= l
            &&& final(rng).draws().take(l) == old(rng).draws()
            &&& d.len() == (if old(cells)@.len() > 0 { count as int } else { 0 })
            &&& growth_draws_fit(old(cells)@, d)
            &&& final(cells)@ == grow_run(old(cells)@, d)
        }),
        grown_from(old(cells)@, final(cells)@),
        final(cells)@.len() <= old(cells)@.len() + count,
        old(cells)@.len() > 0 ==> final(cells)@.len() == old(cells)@.len() + count,
{
    let ghost base = cells@;
    let ghost r0 = rng.draws();
    let ghost l0 = r0.len() as int;
    proof {
        assert(rng.draws().skip(l0) =~= Seq::<Draw>::empty());
        assert(rng.draws().take(l0) =~= r0);
        assert(base.subrange(0, base.len() as int) =~= base);
    }
    let mut n: usize = 0;
    while n < count
        invariant
            0 <= n <= count,
            cells@.len() == base.len() + n,
            grown_from(base, cells@),
            within_margin(cells@, count - n),
            l0 == r0.len(),
            rng.draws().len() == l0 + n,
            rng.draws().take(l0) == r0,
            cells@ == grow_run(base, rng.draws().skip(l0)),
            growth_draws_fit(base, rng.draws().skip(l0)),
            base.len() == 0 ==> n == 0,
        ensures
            base.len() == 0 ==> cells@.len() == 0,
            cells@.len() <= base.len() + count,
            grown_from(base, cells@),
            base.len() > 0 ==> cells@.len() == base.len() + count,
            rng.draws().len() == l0 + (cells@.len() - base.len()),
            rng.draws().take(l0) == r0,
            cells@ == grow_run(base, rng.draws().skip(l0)),
            growth_draws_fit(base, rng.draws().skip(l0)),
        decreases count - n,
    {
        let options = growth_choices(cells);
        if options.len() == 0 {
            proof {
                if base.len() > 0 {
                    let probe = lemma_free_cell_exists(cells@);
                    assert(growth_options(cells@.to_set()).contains(probe));
                    assert(options@.to_set().contains(probe));
                }
            }
            break;
        }
        proof {
            if base.len() == 0 {
                assert(cells@.to_set() =~= Set::<Cell>::empty());
                assert(growth_options(cells@.to_set()) =~= Set::<Cell>::empty());
                assert(options@.to_set().contains(options@[0]));
            }
        }
        let ghost dp = rng.draws();
        let k = rng.index_below(options.len());
        let ghost before = cells@;
        grow_with(cells, k);
        proof {
            let pick = options@[k as int];
            let opts = growth_options(before.to_set());
            assert(options@.to_set().contains(pick));
            assert(opts.contains(pick));
            let e = choose|e: Cell| before.to_set().contains(e) && edge_adjacent(e, pick);
            let je = choose|j: int| 0 <= j < before.len() && before[j] == e;
            assert(!before.contains(pick)) by {
                if before.contains(pick) {
                    assert(before.to_set().contains(pick));
                }
            }
            lemma_grown_push(base, before, pick, je);
            lemma_margin_push(before, pick, je, count - n);
            let d: Draw = (0, options.len() - 1, k as int);
            let dd = dp.skip(l0);
            assert(rng.draws() == dp.push(d));
            assert(dp.push(d).skip(l0) =~= dd.push(d)) by {
                assert forall|i: int| 0 <= i < dd.len() + 1 implies dp.push(d).skip(l0)[i] == dd.push(d)[i] by {
                    if i < dd.len() {
                        assert(dp.push(d)[l0 + i] == dp[l0 + i]);
                    }
                }
            }
            assert(dp.push(d).take(l0) =~= dp.take(l0)) by {
                assert forall|i: int| 0 <= i < l0 implies dp.push(d).take(l0)[i] == dp.take(l0)[i] by {
                    assert(dp.push(d)[i] == dp[i]);
                }
            }
            assert(dd.push(d).drop_last() =~= dd);
            assert(cells@ == grow_run(base, dd.push(d)));
            assert forall|i: int| #![trigger dd.push(d)[i]] 0 <= i < dd.push(d).len() implies {
                let m = sorted_of(growth_options(grow_run(base, dd.push(d).take(i)).to_set())).len();
                &&& dd.push(d)[i].0 == 0
                &&& dd.push(d)[i].1 == m - 1
                &&& 0 <= dd.push(d)[i].2 < m
            } by {
                if i < dd.len() {
                    assert(dd.push(d).take(i) =~= dd.take(i));
                    assert(dd.push(d)[i] == dd[i]);
                } else {
                    assert(dd.push(d).take(i) =~= dd);
                }
            }
        }
        n = n + 1;
    }
}

/// Every coordinate of `p` lies in `0..=12`.
pub open spec fn small_pattern(p: Seq<Cell>) -> bool {
    forall|i: int| 0 <= i < p.len() ==> 0 <= #[trigger] p[i].0 <= 12 && 0 <= p[i].1 <= 12
}

/// The base patterns the colony may be seeded with at `level`: no blocks, and
/// larger patterns as the level rises.
pub open spec fn tier_patterns(level: usize) -> Seq<Seq<Cell>> {
    if level <= 3 {
        seq![spec_blinker(), spec_toad(), spec_glider()]
    } else if level <= 6 {
        seq![spec_blinker(), spec_toad(), spec_beacon(), spec_glider()]
    } else if level <= 10 {
        seq![spec_toad(), spec_glider(), spec_beacon(), spec_r_pentomino(), spec_lwss()]
    } else {
        seq![spec_glider(), spec_toad(), spec_beacon(), spec_r_pentomino(), spec_lwss(), spec_pulsar()]
    }
}

/// Every base pattern is nonempty and small.
proof fn lemma_patterns_small()
    ensures
        small_pattern(spec_glider()) && spec_glider().len() > 0,
        small_pattern(spec_blinker()) && spec_blinker().len() > 0,
        small_pattern(spec_toad()) && spec_toad().len() > 0,
        small_pattern(spec_beacon()) && spec_beacon().len() > 0,
        small_pattern(spec_r_pentomino()) && spec_r_pentomino().len() > 0,
        small_pattern(spec_lwss()) && spec_lwss().len() > 0,
        small_pattern(spec_pulsar()) && spec_pulsar().len() > 0,
{
}

/// Every pattern of every tier is nonempty and small.
proof fn lemma_tier_small(level: usize)
    ensures
        forall|k: int| 0 <= k < tier_patterns(level).len() ==> small_pattern(#[trigger] tier_patterns(level)[k])
            && tier_patterns(level)[k].len() > 0,
{
    lemma_patterns_small();
}

/// How many base patterns `level`'s tier holds.
pub fn tier_size(level: usize) -> (n: usize)
    ensures
        n == tier_patterns(level).len(),
{
    if level <= 3 {
        3
    } else if level <= 6 {
        4
    } else if level <= 10 {
        5
    } else {
        6
    }
}

/// Entry `k` of `level`'s tier, in the order `tier_patterns` lists them.
pub fn pattern_at(level: usize, k: usize) -> (r: Vec<Cell>)
    requires
        k < tier_patterns(level).len(),
    ensures
        r@ == tier_patterns(level)[k as int],
{
    if level <= 3 {
        if k == 0 { blinker() } else if k == 1 { toad() } else { glider() }
    } else if level <= 6 {
        if k == 0 { blinker() } else if k == 1 { toad() } else if k == 2 { beacon() } else { glider() }
    } else if level <= 10 {
        if k == 0 {
            toad()
        } else if k == 1 {
            glider()
        } else if k == 2 {
            beacon()
        } else if k == 3 {
            r_pentomino()
        } else {
            lwss()
        }
    } else {
        if k == 0 {
            glider()
        } else if k == 1 {
            toad()
        } else if k == 2 {
            beacon()
        } else if k == 3 {
            r_pentomino()
        } else if k == 4 {
            lwss()
        } else {
            pulsar()
        }
    }
}

/// The block: the 2x2 still life that no tier offers.
pub open spec fn spec_block() -> Seq<Cell> {
    seq![(0i32, 0i32), (1, 0), (0, 1), (1, 1)]
}

/// The seed patterns are seven different patterns.
proof fn lemma_patterns_distinct()
    ensures
        spec_glider() != spec_blinker(),
        spec_glider() != spec_toad(),
        spec_glider() != spec_beacon(),
        spec_glider() != spec_r_pentomino(),
        spec_glider() != spec_lwss(),
        spec_glider() != spec_pulsar(),
        spec_blinker() != spec_toad(),
        spec_blinker() != spec_beacon(),
        spec_blinker() != spec_r_pentomino(),
        spec_blinker() != spec_lwss(),
        spec_blinker() != spec_pulsar(),
        spec_toad() != spec_beacon(),
        spec_toad() != spec_r_pentomino(),
        spec_toad() != spec_lwss(),
        spec_toad() != spec_pulsar(),
        spec_beacon() != spec_r_pentomino(),
        spec_beacon() != spec_lwss(),
        spec_beacon() != spec_pulsar(),
        spec_r_pentomino() != spec_lwss(),
        spec_r_pentomino() != spec_pulsar(),
        spec_lwss() != spec_pulsar(),
        spec_block() != spec_glider(),
        spec_block() != spec_blinker(),
        spec_block() != spec_toad(),
        spec_block() != spec_beacon(),
        spec_block() != spec_r_pentomino(),
        spec_block() != spec_lwss(),
        spec_block() != spec_pulsar(),
{
    assert(spec_glider()[0] != spec_r_pentomino()[0]);
    assert(spec_toad()[0] != spec_beacon()[0]);
    assert(spec_block()[1] != spec_glider()[1] || spec_block().len() != spec_glider().len());
    assert(spec_block()[2] != spec_toad()[2] || spec_block().len() != spec_toad().len());
    assert(spec_block().len() != spec_beacon().len());
    assert(spec_block().len() != spec_r_pentomino().len());
    assert(spec_block().len() != spec_blinker().len());
}

/// What each tier offers, each pattern reachable by exactly one index: levels
/// up to 3 pick among the blinker, the toad and the glider; levels 4 to 6 add
/// the beacon; levels 7 to 10 drop the blinker and add the R-pentomino and the
/// lightweight spaceship; later levels also add the pulsar. No tier offers a
/// block, and every tier offers the glider.
pub proof fn lemma_tier_contents(level: usize)
    ensures
        tier_patterns(level).no_duplicates(),
        tier_patterns(level).contains(spec_glider()),
        !tier_patterns(level).contains(spec_block()),
        level <= 3 ==> tier_patterns(level).to_set() == set![spec_blinker(), spec_toad(), spec_glider()],
        4 <= level <= 6 ==> tier_patterns(level).to_set() == set![spec_blinker(), spec_toad(), spec_beacon(), spec_glider()],
        7 <= level <= 10 ==> tier_patterns(level).to_set() == set![spec_toad(), spec_glider(), spec_beacon(), spec_r_pentomino(), spec_lwss()],
        level > 10 ==> tier_patterns(level).to_set() == set![
            spec_glider(),
            spec_toad(),
            spec_beacon(),
            spec_r_pentomino(),
            spec_lwss(),
            spec_pulsar(),
        ],
{
    lemma_patterns_distinct();
    let t = tier_patterns(level);
    assert forall|p: Seq<Cell>| t.to_set().contains(p) <==> t.contains(p) by {}
    if level <= 3 {
        assert(t.contains(t[2]));
        assert(t.to_set() =~= set![spec_blinker(), spec_toad(), spec_glider()]) by {
            assert(t.contains(t[0]) && t.contains(t[1]));
        }
    } else if level <= 6 {
        assert(t.contains(t[3]));
        assert(t.to_set() =~= set![spec_blinker(), spec_toad(), spec_beacon(), spec_glider()]) by {
            assert(t.contains(t[0]) && t.contains(t[1]) && t.contains(t[2]));
        }
    } else if level <= 10 {
        assert(t.contains(t[1]));
        assert(t.to_set() =~= set![spec_toad(), spec_glider(), spec_beacon(), spec_r_pentomino(), spec_lwss()]) by {
            assert(t.contains(t[0]) && t.contains(t[2]) && t.contains(t[3]) && t.contains(t[4]));
        }
    } else {
        assert(t.contains(t[0]));
        assert(t.to_set() =~= set![
            spec_glider(),
            spec_toad(),
            spec_beacon(),
            spec_r_pentomino(),
            spec_lwss(),
            spec_pulsar(),
        ]) by {
            assert(t.contains(t[1]) && t.contains(t[2]) && t.contains(t[3]) && t.contains(t[4]) && t.contains(t[5]));
        }
    }
}

/// Each level has one more starting enemy than the one before, and the first
/// level has four.
pub proof fn lemma_enemy_count_steps(level: usize)
    requires
        level < usize::MAX,
    ensures
        spec_enemy_count((level + 1) as usize) == spec_enemy_count(level) + 1,
        spec_enemy_count(1) == 4,
{
}

/// A level's mutated enemies, and how far each is mutated, are half the level
/// number rounded up: one more every second level, one on the first.
pub proof fn lemma_mutation_count_halves(level: usize)
    ensures
        level <= 2 * spec_mutation_count(level) <= level + 1,
{
}

/// Reinforcement waves come on every third level from the third on: exactly
/// one of any three consecutive levels has a wave, the pattern repeats every
/// three levels, and the first two levels have none.
pub proof fn lemma_wave_levels(level: usize)
    requires
        1 <= level,
        level <= usize::MAX - 3,
    ensures
        spec_has_wave((level + 3) as usize) == spec_has_wave(level),
        (spec_has_wave(level) as int) + (spec_has_wave((level + 1) as usize) as int) + (spec_has_wave((level + 2) as usize) as int) == 1,
        spec_has_wave(level) ==> level >= 3,
{
}

/// A wave brings one more enemy every fourth level, and at least one.
pub proof fn lemma_wave_size_steps(level: usize)
    requires
        level <= usize::MAX - 4,
    ensures
        spec_wave_enemy_count((level + 4) as usize) == spec_wave_enemy_count(level) + 1,
        spec_wave_enemy_count(level) >= 1,
        level < 4 ==> spec_wave_enemy_count(level) == 1,
{
}

/// A base pattern picked at random among those of `level`'s tier: one draw of
/// an index over the whole tier, and the pattern at that index.
pub fn pick_pattern(rng: &mut GameRng, level: usize) -> (r: Vec<Cell>)
    ensures
        final(rng).draws().len() == old(rng).draws().len() + 1,
        final(rng).draws().drop_last() == old(rng).draws(),
        ({
            let d = final(rng).draws().last();
            &&& d.0 == 0 && d.1 == tier_patterns(level).len() - 1
            &&& 0 <= d.2 < tier_patterns(level).len()
            &&& r@ == tier_patterns(level)[d.2]
        }),
        tier_patterns(level).contains(r@),
{
    let k = rng.index_below(tier_size(level));
    let r = pattern_at(level, k);
    proof {
        assert(rng.draws().drop_last() =~= old(rng).draws());
        assert(tier_patterns(level)[k as int] == r@);
    }
    r
}

/// A pattern placed in the arena: its cells, shifted by `offset`.
pub struct PatternPlacement {
    pub cells: Vec<Cell>,
    pub offset: Cell,
}

/// What makes a reinforcement wave arrive.
pub enum WaveTrigger {
    /// Fewer live cells than this.
    CellCountBelow(usize),
}

/// A reinforcement wave: its trigger and the patterns it brings.
pub struct WaveConfig {
    pub trigger: WaveTrigger,
    pub patterns: Vec<PatternPlacement>,
}

/// The level being played and the waves still to come.
pub struct CurrentLevel {
    pub level_number: usize,
    pub waves_remaining: Vec<WaveConfig>,
}

/// `cells` is a base pattern of `level`'s tier grown by the level's mutation count.
pub open spec fn mutated_from_tier(level: usize, cells: Seq<Cell>) -> bool {
    exists|base: Seq<Cell>|
        tier_patterns(level).contains(base) && grown_from(base, cells) && cells.len() == base.len()
            + spec_mutation_count(level)
}

/// How many enemy patterns `level` starts with.
pub open spec fn spec_enemy_count(level: usize) -> int {
    3 + level
}

/// How many of the first enemy patterns of `level` are mutated, and by how many cells each.
pub open spec fn spec_mutation_count(level: usize) -> int {
    (level + 1) / 2
}

/// Whether `level` has a reinforcement wave: one every third level.
pub open spec fn spec_has_wave(level: usize) -> bool {
    level >= 3 && level % 3 == 0
}

/// How many patterns the reinforcement wave of `level` brings.
pub open spec fn spec_wave_enemy_count(level: usize) -> int {
    1 + level / 4
}

/// How many enemy patterns `level` starts with: four at level 1, one more per level.
pub fn enemy_count(level: usize) -> (n: usize)
    requires
        level <= usize::MAX - 3,
    ensures
        n == spec_enemy_count(level),
{
    3 + level
}

/// How many of the first enemy patterns are mutated at `level`, and by how many
/// cells each: half the level, rounded up.
pub fn mutation_count(level: usize) -> (n: usize)
    requires
        level < usize::MAX,
    ensures
        n == spec_mutation_count(level),
{
    (level + 1) / 2
}

/// Whether `level` has a reinforcement wave.
pub fn has_wave(level: usize) -> (b: bool)
    ensures
        b == spec_has_wave(level),
{
    level >= 3 && level % 3 == 0
}

/// How many patterns the reinforcement wave of `level` brings.
pub fn wave_enemy_count(level: usize) -> (n: usize)
    ensures
        n == spec_wave_enemy_count(level),
{
    1 + level / 4
}

/// Whether `d` is a draw of one index over `level`'s whole tier.
pub open spec fn tier_pick(level: usize, d: Draw) -> bool {
    &&& d.0 == 0
    &&& d.1 == tier_patterns(level).len() - 1
    &&& 0 <= d.2 < tier_patterns(level).len()
}

/// How many draws `get_level` makes for its first `i` enemies: one pick each,
/// and the mutations of those among the first `spec_mutation_count`.
pub open spec fn enemy_draws(level: usize, i: nat) -> int
    decreases i,
{
    if i == 0 {
        0
    } else {
        enemy_draws(level, (i - 1) as nat) + 1 + (if i - 1 < spec_mutation_count(level) {
            spec_mutation_count(level)
        } else {
            0
        })
    }
}

/// Enemy `i`'s pattern as the draws `d` make it: the tier pattern that the
/// draw at `enemy_draws(level, i)` picks, grown by the next
/// `spec_mutation_count` draws when `i` is among the first that many.
pub open spec fn enemy_from_draws(level: usize, i: int, d: Seq<Draw>, cells: Seq<Cell>) -> bool {
    let s = enemy_draws(level, i as nat);
    let m = spec_mutation_count(level);
    let base = tier_patterns(level)[d[s].2];
    &&& tier_pick(level, d[s])
    &&& i < m ==> growth_draws_fit(base, d.subrange(s + 1, s + 1 + m)) && cells == grow_run(
        base,
        d.subrange(s + 1, s + 1 + m),
    )
    &&& i >= m ==> cells == base
}

/// No enemy count needs a negative number of draws.
proof fn lemma_enemy_draws_nonneg(level: usize, i: nat)
    ensures
        0 <= enemy_draws(level, i),
    decreases i,
{
    if i > 0 {
        lemma_enemy_draws_nonneg(level, (i - 1) as nat);
    }
}

/// The draws for enemy `k` all come before those for any later enemy.
proof fn lemma_enemy_draws_grow(level: usize, k: nat, i: nat)
    requires
        k < i,
    ensures
        enemy_draws(level, k) + 1 <= enemy_draws(level, k + 1) <= enemy_draws(level, i),
    decreases i,
{
    if i > k + 1 {
        lemma_enemy_draws_grow(level, k, (i - 1) as nat);
    }
}

/// Draws appended after those of enemy `k` leave its pattern's account unchanged.
proof fn lemma_enemy_prefix(level: usize, k: int, a: Seq<Draw>, b: Seq<Draw>, cells: Seq<Cell>)
    requires
        0 <= k,
        enemy_draws(level, (k + 1) as nat) <= a.len(),
        enemy_from_draws(level, k, a, cells),
    ensures
        enemy_from_draws(level, k, a + b, cells),
{
    let s = enemy_draws(level, k as nat);
    let m = spec_mutation_count(level);
    lemma_enemy_draws_nonneg(level, k as nat);
    assert(enemy_draws(level, (k + 1) as nat) == s + 1 + (if k < m { m } else { 0 }));
    assert((a + b)[s] == a[s]);
    if k < m {
        assert((a + b).subrange(s + 1, s + 1 + m) =~= a.subrange(s + 1, s + 1 + m));
    }
}

/// The draws of enemy `i`: its pick, the last draw of `dq`, then (when it is
/// mutated) the rest of `dr`; before them, the `dp` of earlier enemies.
proof fn lemma_enemy_step(
    level: usize,
    i: int,
    l0: int,
    dp: Seq<Draw>,
    dq: Seq<Draw>,
    dr: Seq<Draw>,
    base: Seq<Cell>,
    cells: Seq<Cell>,
)
    requires
        0 <= i,
        0 <= l0,
        dp.len() == l0 + enemy_draws(level, i as nat),
        dq.len() == dp.len() + 1,
        dq.drop_last() == dp,
        tier_pick(level, dq.last()),
        base == tier_patterns(level)[dq.last().2],
        dr.len() >= dq.len(),
        dr.take(dq.len() as int) == dq,
        i < spec_mutation_count(level) ==> dr.skip(dq.len() as int).len() == spec_mutation_count(level)
            && growth_draws_fit(base, dr.skip(dq.len() as int)) && cells == grow_run(base, dr.skip(dq.len() as int)),
        i >= spec_mutation_count(level) ==> dr.len() == dq.len() && cells == base,
    ensures
        dr.len() == l0 + enemy_draws(level, (i + 1) as nat),
        dr.take(dp.len() as int) == dp,
        dr.skip(l0) == dp.skip(l0) + dr.skip(dp.len() as int),
        dr.take(l0) == dp.take(l0),
        enemy_from_draws(level, i, dr.skip(l0), cells),
{
    let st = enemy_draws(level, i as nat);
    let m = spec_mutation_count(level);
    lemma_enemy_draws_nonneg(level, i as nat);
    assert(enemy_draws(level, (i + 1) as nat) == st + 1 + (if i < m { m } else { 0 }));
    assert forall|q: int| 0 <= q < dq.len() implies dr[q] == dq[q] by {
        assert(dr.take(dq.len() as int)[q] == dr[q]);
    }
    assert forall|q: int| 0 <= q < dp.len() implies dq[q] == dp[q] by {
        assert(dq.drop_last()[q] == dq[q]);
    }
    assert(dr.take(dp.len() as int) =~= dp);
    lemma_log_extend(dp, dr, l0);
    let d = dr.skip(l0);
    assert(d[st] == dq.last());
    if i < m {
        assert(d.subrange(st + 1, st + 1 + m) =~= dr.skip(dq.len() as int));
    }
}


/// The starting patterns and the reinforcement waves of `level`.
///
/// `enemy_offsets` places the starting patterns and `wave_offsets` the patterns
/// of the wave, one offset per pattern. Each starting pattern is a base pattern of
/// the level's tier picked at random; the first `(level + 1) / 2` of them are
/// mutated by `(level + 1) / 2` cells each. Every third level brings one wave of
/// `1 + level / 4` base patterns, which arrives when fewer than `3 + level` cells live.
pub fn get_level(
    level_number: usize,
    rng: &mut GameRng,
    enemy_offsets: &Vec<Cell>,
    wave_offsets: &Vec<Cell>,
) -> (r: (Vec<PatternPlacement>, Vec<WaveConfig>))
    requires
        spec_mutation_count(level_number) <= i32::MAX - 12,
        enemy_offsets@.len() == spec_enemy_count(level_number),
        wave_offsets@.len() == (if spec_has_wave(level_number) { spec_wave_enemy_count(level_number) } else { 0 }),
    ensures
        r.0@.len() == spec_enemy_count(level_number),
        forall|i: int| 0 <= i < r.0@.len() ==> (#[trigger] r.0@[i]).offset == enemy_offsets@[i],
        forall|i: int| 0 <= i < r.0@.len() && i < spec_mutation_count(level_number) ==> mutated_from_tier(
            level_number,
            (#[trigger] r.0@[i]).cells@,
        ),
        forall|i: int| 0 <= i < r.0@.len() && i >= spec_mutation_count(level_number) ==> tier_patterns(
            level_number,
        ).contains((#[trigger] r.0@[i]).cells@),
        spec_has_wave(level_number) ==> r.1@.len() == 1 && r.1@[0].trigger == WaveTrigger::CellCountBelow(
            (3 + level_number) as usize,
        ) && r.1@[0].patterns@.len() == spec_wave_enemy_count(level_number) && forall|j: int|
            0 <= j < r.1@[0].patterns@.len() ==> (#[trigger] r.1@[0].patterns@[j]).offset == wave_offsets@[j]
                && tier_patterns(level_number).contains(r.1@[0].patterns@[j].cells@),
        !spec_has_wave(level_number) ==> r.1@.len() == 0,
        ({
            let l = old(rng).draws().len() as int;
            let d = final(rng).draws().skip(l);
            let n = spec_enemy_count(level_number);
            let e = enemy_draws(level_number, n as nat);
            &&& final(rng).draws().len() >= l
            &&& final(rng).draws().take(l) == old(rng).draws()
            &&& d.len() == e + (if spec_has_wave(level_number) { spec_wave_enemy_count(level_number) } else { 0 })
            &&& forall|i: int| 0 <= i < n ==> enemy_from_draws(level_number, i, d, (#[trigger] r.0@[i]).cells@)
            &&& spec_has_wave(level_number) ==> forall|j: int| 0 <= j < spec_wave_enemy_count(level_number) ==> tier_pick(
                level_number,
                d[e + j],
            ) && (#[trigger] r.1@[0].patterns@[j]).cells@ == tier_patterns(level_number)[d[e + j].2]
        }),
{
    let ghost r0 = rng.draws();
    let ghost l0 = r0.len() as int;
    proof {
        assert(rng.draws().take(l0) =~= r0);
    }
    let count = enemy_count(level_number);
    let mutated = mutation_count(level_number);
    let mut patterns: Vec<PatternPlacement> = Vec::new();
    let ghost mut bases: Seq<Seq<Cell>> = Seq::empty();
    let mut i: usize = 0;
    while i < count
        invariant
            0 <= i <= count,
            count == spec_enemy_count(level_number),
            mutated == spec_mutation_count(level_number),
            mutated <= i32::MAX - 12,
            enemy_offsets@.len() == count,
            patterns@.len() == i,
            forall|k: int| 0 <= k < i ==> (#[trigger] patterns@[k]).offset == enemy_offsets@[k],
            bases.len() == i,
            forall|k: int| 0 <= k < i ==> tier_patterns(level_number).contains(#[trigger] bases[k]),
            forall|k: int| 0 <= k < i && k < mutated ==> grown_from(bases[k], (#[trigger] patterns@[k]).cells@)
                && patterns@[k].cells@.len() == bases[k].len() + mutated,
            forall|k: int| 0 <= k < i && k >= mutated ==> (#[trigger] patterns@[k]).cells@ == bases[k],
            l0 == r0.len(),
            rng.draws().len() == l0 + enemy_draws(level_number, i as nat),
            rng.draws().take(l0) == r0,
            forall|k: int| 0 <= k < i ==> enemy_from_draws(level_number, k, rng.draws().skip(l0), (#[trigger] patterns@[k]).cells@),
        decreases count - i,
    {
        let ghost dp = rng.draws();
        let mut cells = pick_pattern(rng, level_number);
        let ghost dq = rng.draws();
        let ghost base = cells@;
        if i < mutated {
            proof {
                lemma_tier_small(level_number);
                let k = choose|k: int| 0 <= k < tier_patterns(level_number).len() && tier_patterns(level_number)[k] == base;
                assert(small_pattern(base));
            }
            mutate_pattern(&mut cells, mutated, rng);
        }
        let ghost pushed = cells@;
        let ghost old_patterns = patterns@;
        patterns.push(PatternPlacement { cells, offset: enemy_offsets[i] });
        proof {
            let dr = rng.draws();
            if i >= mutated {
                assert(dr.take(dq.len() as int) =~= dq);
            }
            lemma_enemy_step(level_number, i as int, l0, dp, dq, dr, base, pushed);
            let a = dp.skip(l0);
            let x = dr.skip(dp.len() as int);
            assert forall|k: int| 0 <= k < i + 1 implies enemy_from_draws(level_number, k, rng.draws().skip(l0), (#[trigger] patterns@[k]).cells@) by {
                if k < i {
                    assert(patterns@[k] == old_patterns[k]);
                    lemma_enemy_draws_grow(level_number, k as nat, i as nat);
                    lemma_enemy_prefix(level_number, k, a, x, patterns@[k].cells@);
                } else {
                    assert(patterns@[k].cells@ == pushed);
                }
            }
            assert(rng.draws().take(l0) =~= r0) by {
                assert(dp.take(l0) == r0);
            }
            bases = bases.push(base);
            if i < mutated {
                lemma_tier_small(level_number);
                let kk = choose|kk: int| 0 <= kk < tier_patterns(level_number).len() && tier_patterns(level_number)[kk] == base;
                assert(tier_patterns(level_number)[kk].len() > 0);
            }
        }
        i = i + 1;
    }
    let ghost pre = rng.draws();
    proof {
        assert(pre.take(pre.len() as int) =~= pre);
    }
    let ghost mut wave_draws: Seq<Draw> = Seq::empty();
    let mut waves: Vec<WaveConfig> = Vec::new();
    if has_wave(level_number) {
        let wave_count = wave_enemy_count(level_number);
        let mut wave_patterns: Vec<PatternPlacement> = Vec::new();
        let ghost mut wd: Seq<Draw> = Seq::empty();
        proof {
            assert(rng.draws() =~= pre + wd);
        }
        let mut j: usize = 0;
        while j < wave_count
            invariant
                0 <= j <= wave_count,
                wave_count == spec_wave_enemy_count(level_number),
                wave_offsets@.len() == wave_count,
                wave_patterns@.len() == j,
                forall|k: int| 0 <= k < j ==> (#[trigger] wave_patterns@[k]).offset == wave_offsets@[k]
                    && tier_patterns(level_number).contains(wave_patterns@[k].cells@),
                wd.len() == j,
                rng.draws() == pre + wd,
                forall|k: int| #![trigger wd[k]] 0 <= k < j ==> tier_pick(level_number, wd[k])
                    && wave_patterns@[k].cells@ == tier_patterns(level_number)[wd[k].2],
            decreases wave_count - j,
        {
            let ghost old_wp = wave_patterns@;
            let ghost old_wd = wd;
            let cells = pick_pattern(rng, level_number);
            let ghost picked = cells@;
            wave_patterns.push(PatternPlacement { cells, offset: wave_offsets[j] });
            proof {
                let dr = rng.draws();
                wd = wd.push(dr.last());
                assert(dr =~= pre + wd) by {
                    assert(dr.drop_last() == pre + old_wd);
                    assert forall|q: int| 0 <= q < dr.len() implies dr[q] == (pre + wd)[q] by {
                        if q < dr.len() - 1 {
                            assert(dr.drop_last()[q] == dr[q]);
                        }
                    }
                }
                assert forall|k: int| #![trigger wd[k]] 0 <= k < j + 1 implies tier_pick(level_number, wd[k])
                    && wave_patterns@[k].cells@ == tier_patterns(level_number)[wd[k].2] by {
                    if k < j {
                        assert(wave_patterns@[k] == old_wp[k]);
                        assert(wd[k] == old_wd[k]);
                    } else {
                        assert(wave_patterns@[k].cells@ == picked);
                    }
                }
            }
            j = j + 1;
        }
        proof {
            assert forall|k: int| 0 <= k < j implies (#[trigger] wave_patterns@[k]).cells@ == tier_patterns(level_number)[rng.draws()[pre.len() + k].2]
                && tier_pick(level_number, rng.draws()[pre.len() + k]) by {
                assert(wd[k] == rng.draws()[pre.len() + k]);
            }
            wave_draws = wd;
        }
        waves.push(WaveConfig { trigger: WaveTrigger::CellCountBelow(3 + level_number), patterns: wave_patterns });
    }
    proof {
        let dr = rng.draws();
        let e = enemy_draws(level_number, count as nat);
        let denemy = pre.skip(l0);
        if !spec_has_wave(level_number) {
            assert(dr =~= pre + wave_draws);
        }
        assert(dr == pre + wave_draws);
        assert(pre.len() == l0 + e);
        lemma_enemy_draws_nonneg(level_number, count as nat);
        assert(dr.skip(l0) =~= denemy + wave_draws) by {
            assert forall|q: int| 0 <= q < dr.len() - l0 implies dr.skip(l0)[q] == (denemy + wave_draws)[q] by {
                assert(dr[l0 + q] == (pre + wave_draws)[l0 + q]);
                if q < denemy.len() {
                    assert(denemy[q] == pre[l0 + q]);
                }
            }
        }
        assert(dr.take(l0) =~= r0) by {
            assert forall|q: int| 0 <= q < l0 implies dr.take(l0)[q] == r0[q] by {
                assert(pre.take(l0)[q] == pre[q]);
            }
        }
        assert forall|i: int| 0 <= i < count implies enemy_from_draws(level_number, i, dr.skip(l0), (#[trigger] patterns@[i]).cells@) by {
            lemma_enemy_draws_grow(level_number, i as nat, count as nat);
            lemma_enemy_prefix(level_number, i, denemy, wave_draws, patterns@[i].cells@);
        }
        if spec_has_wave(level_number) {
            assert forall|j: int| 0 <= j < spec_wave_enemy_count(level_number) implies tier_pick(level_number, dr.skip(l0)[e + j])
                && (#[trigger] waves@[0].patterns@[j]).cells@ == tier_patterns(level_number)[dr.skip(l0)[e + j].2] by {
                assert(dr.skip(l0)[e + j] == dr[pre.len() + j]);
            }
        }
    }
    proof {
        assert forall|i: int| 0 <= i < patterns@.len() && i < spec_mutation_count(level_number) implies mutated_from_tier(
            level_number,
            (#[trigger] patterns@[i]).cells@,
        ) by {
            let base = bases[i];
            assert(tier_patterns(level_number).contains(base));
            assert(grown_from(base, patterns@[i].cells@));
            assert(patterns@[i].cells@.len() == base.len() + spec_mutation_count(level_number));
        }
        assert forall|i: int| 0 <= i < patterns@.len() && i >= spec_mutation_count(level_number) implies tier_patterns(
            level_number,
        ).contains((#[trigger] patterns@[i]).cells@) by {
            assert(tier_patterns(level_number).contains(bases[i]));
        }
    }
    (patterns, waves)
}

/// The cells that the placed patterns `ps` bring to life.
pub open spec fn patterns_cells(ps: Seq<PatternPlacement>) -> Set<Cell>
    decreases ps.len(),
{
    if ps.len() == 0 {
        Set::empty()
    } else {
        patterns_cells(ps.drop_last()).union(placed(ps.last().cells@, ps.last().offset))
    }
}

/// Every shifted cell of the placed patterns `ps` is representable.
pub open spec fn patterns_fit(ps: Seq<PatternPlacement>) -> bool {
    forall|k: int, i: int|
        0 <= k < ps.len() && 0 <= i < ps[k].cells@.len() ==> i32::MIN <= #[trigger] ps[k].cells@[i].0
            + ps[k].offset.0 <= i32::MAX && i32::MIN <= ps[k].cells@[i].1 + ps[k].offset.1 <= i32::MAX
}

/// Whether the wave `w` arrives when `count` cells live.
pub open spec fn arrives(w: WaveConfig, count: int) -> bool {
    match w.trigger {
        WaveTrigger::CellCountBelow(n) => count < n,
    }
}

/// The cells that the waves of `ws` arriving at `count` live cells bring to life.
pub open spec fn arriving_cells(ws: Seq<WaveConfig>, count: int) -> Set<Cell>
    decreases ws.len(),
{
    if ws.len() == 0 {
        Set::empty()
    } else {
        arriving_cells(ws.drop_last(), count).union(
            if arrives(ws.last(), count) { patterns_cells(ws.last().patterns@) } else { Set::empty() },
        )
    }
}

/// Brings every placed pattern of `ps` to life in `grid`.
fn add_patterns(grid: &mut LifeGrid, ps: &Vec<PatternPlacement>)
    requires
        patterns_fit(ps@),
    ensures
        final(grid).alive() == old(grid).alive().union(patterns_cells(ps@)),
        final(grid).ages() == old(grid).ages(),
        final(grid).spec_bounds() == old(grid).spec_bounds(),
{
    let mut k: usize = 0;
    while k < ps.len()
        invariant
            0 <= k <= ps@.len(),
            patterns_fit(ps@),
            grid.alive() == old(grid).alive().union(patterns_cells(ps@.take(k as int))),
            grid.ages() == old(grid).ages(),
            grid.spec_bounds() == old(grid).spec_bounds(),
        decreases ps@.len() - k,
    {
        let p = &ps[k];
        proof {
            assert forall|i: int| 0 <= i < p.cells@.len() implies i32::MIN <= #[trigger] p.cells@[i].0 + p.offset.0
                <= i32::MAX && i32::MIN <= p.cells@[i].1 + p.offset.1 <= i32::MAX by {
                assert(ps@[k as int].cells@[i] == p.cells@[i]);
            }
        }
        grid.add_pattern(&p.cells, p.offset);
        proof {
            assert(ps@.take(k + 1).drop_last() =~= ps@.take(k as int));
            assert(old(grid).alive().union(patterns_cells(ps@.take(k + 1))) =~= old(grid).alive().union(
                patterns_cells(ps@.take(k as int)),
            ).union(placed(p.cells@, p.offset)));
        }
        k = k + 1;
    }
    assert(ps@.take(ps@.len() as int) =~= ps@);
}

/// The colony a level starts with, in the arena `bounds`: every starting pattern
/// placed, then every cell within `safe_radius` of the origin, where the player
/// appears, cleared.
pub fn build_level_grid(bounds: (i32, i32), patterns: &Vec<PatternPlacement>, safe_radius: i32) -> (g: LifeGrid)
    requires
        patterns_fit(patterns@),
        forall|c: Cell| #[trigger] patterns_cells(patterns@).contains(c) ==> dist2(c, (0i32, 0i32)) <= i32::MAX
            && safe_radius * safe_radius <= i32::MAX,
    ensures
        g.alive() == patterns_cells(patterns@).filter(|c: Cell| dist2(c, (0i32, 0i32)) > safe_radius * safe_radius),
        forall|c: Cell| #[trigger] g.alive().contains(c) ==> dist2(c, (0i32, 0i32)) > safe_radius * safe_radius,
        g.ages() == Map::<Cell, u16>::empty(),
        g.spec_bounds() == bounds,
{
    let mut grid = LifeGrid::new(bounds);
    add_patterns(&mut grid, patterns);
    assert(grid.alive() =~= patterns_cells(patterns@));
    grid.clear_radius((0, 0), safe_radius);
    grid
}

impl CurrentLevel {
    /// The first level, with no waves pending.
    pub fn first() -> (l: CurrentLevel)
        ensures
            l.level_number == 1,
            l.waves_remaining@.len() == 0,
    {
        CurrentLevel { level_number: 1, waves_remaining: Vec::new() }
    }

    /// The level after `previous`, with no waves pending; the first level when
    /// there was none.
    pub fn after(previous: Option<&CurrentLevel>) -> (l: CurrentLevel)
        requires
            previous matches Some(p) ==> p.level_number < usize::MAX,
        ensures
            l.level_number == (match previous {
                Some(p) => p.level_number + 1,
                None => 1,
            }),
            l.waves_remaining@.len() == 0,
    {
        let level_number = match previous {
            Some(p) => p.level_number + 1,
            None => 1,
        };
        CurrentLevel { level_number, waves_remaining: Vec::new() }
    }

    /// The number of the level to set up: the current one, or the first when
    /// none is under way.
    pub fn number_or_first(current: Option<&CurrentLevel>) -> (n: usize)
        ensures
            n == (match current {
                Some(c) => c.level_number,
                None => 1,
            }),
    {
        match current {
            Some(c) => c.level_number,
            None => 1,
        }
    }

    /// The level is won: no live cells, no cell entities on screen, no waves pending.
    pub fn is_cleared(&self, grid: &LifeGrid, cell_entities: usize) -> (b: bool)
        ensures
            b == (grid.alive() == Set::<Cell>::empty() && cell_entities == 0 && self.waves_remaining@.len() == 0),
    {
        grid.alive_cells().is_empty() && cell_entities == 0 && self.waves_remaining.len() == 0
    }

    /// Releases every pending wave whose trigger holds for the current number of
    /// live cells: its patterns come to life in `grid`, and it is no longer pending.
    pub fn trigger_waves(&mut self, grid: &mut LifeGrid)
        requires
            forall|k: int| 0 <= k < old(self).waves_remaining@.len() ==> patterns_fit(
                (#[trigger] old(self).waves_remaining@[k]).patterns@,
            ),
        ensures
            final(self).level_number == old(self).level_number,
            final(self).waves_remaining@ == old(self).waves_remaining@.filter(
                |w: WaveConfig| !arrives(w, old(grid).alive().len() as int),
            ),
            forall|k: int| 0 <= k < final(self).waves_remaining@.len() ==> !arrives(
                #[trigger] final(self).waves_remaining@[k],
                old(grid).alive().len() as int,
            ),
            final(grid).alive() == old(grid).alive().union(
                arriving_cells(old(self).waves_remaining@, old(grid).alive().len() as int),
            ),
            final(grid).ages() == old(grid).ages(),
            final(grid).spec_bounds() == old(grid).spec_bounds(),
    {
        let cell_count = grid.cell_count();
        let ghost count = cell_count as int;
        let ghost orig = self.waves_remaining@;
        let ghost keep = |w: WaveConfig| !arrives(w, count);
        let mut pending: Vec<WaveConfig> = Vec::new();
        std::mem::swap(&mut pending, &mut self.waves_remaining);
        let mut kept: Vec<WaveConfig> = Vec::new();
        let total = pending.len();
        let mut k: usize = 0;
        while pending.len() > 0
            invariant
                orig.len() == k + pending@.len(),
                orig.len() == total,
                count == cell_count as int,
                pending@ == orig.skip(k as int),
                forall|j: int| 0 <= j < orig.len() ==> patterns_fit((#[trigger] orig[j]).patterns@),
                kept@ == orig.take(k as int).filter(keep),
                keep == (|w: WaveConfig| !arrives(w, count)),
                grid.alive() == old(grid).alive().union(arriving_cells(orig.take(k as int), count)),
                grid.ages() == old(grid).ages(),
                grid.spec_bounds() == old(grid).spec_bounds(),
            decreases pending@.len(),
        {
            let w = pending.remove(0);
            proof {
                assert(w == orig[k as int]);
                assert(pending@ =~= orig.skip(k + 1));
                assert(orig.take(k + 1) =~= orig.take(k as int).push(w));
                assert(orig.take(k + 1).drop_last() =~= orig.take(k as int));
                orig.take(k as int).lemma_filter_push(w, keep);
            }
            let arrived = match w.trigger {
                WaveTrigger::CellCountBelow(n) => cell_count < n,
            };
            proof {
                assert(arrives(w, count) == arrived);
                assert(orig.take(k + 1).last() == w);
                assert(arriving_cells(orig.take(k + 1), count) == arriving_cells(orig.take(k as int), count).union(
                    if arrived { patterns_cells(w.patterns@) } else { Set::empty() },
                ));
            }
            if arrived {
                add_patterns(grid, &w.patterns);
                proof {
                    assert(grid.alive() =~= old(grid).alive().union(arriving_cells(orig.take(k + 1), count)));
                }
            } else {
                kept.push(w);
                proof {
                    assert(grid.alive() =~= old(grid).alive().union(arriving_cells(orig.take(k + 1), count)));
                }
            }
            k = k + 1;
        }
        proof {
            assert(orig.take(k as int) =~= orig);
            assert forall|j: int| 0 <= j < kept@.len() implies !arrives(#[trigger] kept@[j], count) by {
                orig.lemma_filter_pred(keep, j);
            }
        }
        self.waves_remaining = kept;
    }
}

} // verus!
