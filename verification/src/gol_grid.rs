//! The Game of Life colony: its live cells, their ages, and the arena bounds.
use crate::cells::{
    adjacent, neighbors_representable, all_interior, cell_in_bounds, in_bounds, interior, neighbor_count,
    Cell, CellAges, CellSet,
};
use crate::random::{lemma_log_push, lemma_log_extend, Draw, GameRng};
use vstd::prelude::*;

verus! {

/// A live cell that reaches this many consecutive generations mutates.
pub const STAGNATION_AGE: u16 = 16;

/// How many live cells, among those listed, a nuke deletes from each group.
pub const NUKE_DELETIONS: usize = 3;

/// How many cells a nuke grows around each surviving group, where there is room.
pub const NUKE_GROWTH: usize = 5;

/// The squared distance between `c` and `center`.
pub open spec fn dist2(c: Cell, center: Cell) -> int {
    (c.0 - center.0) * (c.0 - center.0) + (c.1 - center.1) * (c.1 - center.1)
}

/// `p` shifted by `offset`.
pub open spec fn shift(p: Cell, offset: Cell) -> Cell {
    ((p.0 + offset.0) as i32, (p.1 + offset.1) as i32)
}

/// The cells of a pattern shifted by `offset`.
pub open spec fn placed(cells: Seq<Cell>, offset: Cell) -> Set<Cell> {
    cells.map_values(|p: Cell| shift(p, offset)).to_set()
}

/// Whether `c` is alive in the generation after `s`, by rule B3/S23 restricted
/// to the arena: born with exactly three live neighbours, surviving with two or three.
pub open spec fn lives_next(s: Set<Cell>, c: Cell, bounds: (i32, i32)) -> bool {
    &&& in_bounds(c, bounds)
    &&& (neighbor_count(s, c) == 3 || (neighbor_count(s, c) == 2 && s.contains(c)))
}

/// The generation after `s` in the arena.
pub open spec fn next_generation(s: Set<Cell>, bounds: (i32, i32)) -> Set<Cell> {
    Set::new(|c: Cell| lives_next(s, c, bounds))
}

/// The age of `c` after living one more generation.
pub open spec fn next_age(ages: Map<Cell, u16>, c: Cell) -> int {
    (if ages.contains_key(c) { ages[c] as int } else { 0 }) + 1
}

/// The cells of the next generation that reach the stagnation age.
pub open spec fn stagnant(s: Set<Cell>, ages: Map<Cell, u16>, bounds: (i32, i32)) -> Set<Cell> {
    next_generation(s, bounds).filter(|c: Cell| next_age(ages, c) >= STAGNATION_AGE)
}

/// The eight neighbours of `c`, column by column from the lower left.
pub open spec fn neighbours8(c: Cell) -> Seq<Cell> {
    seq![
        ((c.0 - 1) as i32, (c.1 - 1) as i32), ((c.0 - 1) as i32, c.1), ((c.0 - 1) as i32, (c.1 + 1) as i32),
        (c.0, (c.1 - 1) as i32), (c.0, (c.1 + 1) as i32),
        ((c.0 + 1) as i32, (c.1 - 1) as i32), ((c.0 + 1) as i32, c.1), ((c.0 + 1) as i32, (c.1 + 1) as i32),
    ]
}

/// Whether a cell lies in the arena and `next` does not hold it.
pub open spec fn free_in(next: Set<Cell>, bounds: (i32, i32)) -> spec_fn(Cell) -> bool {
    |n: Cell| in_bounds(n, bounds) && !next.contains(n)
}

/// The cells a stagnating `pos` may spawn into, in the order `neighbours8` lists them.
pub open spec fn spawn_options(next: Set<Cell>, pos: Cell, bounds: (i32, i32)) -> Seq<Cell> {
    neighbours8(pos).filter(free_in(next, bounds))
}

/// The colony `next` after the stagnating cells of `order` mutate in turn,
/// consuming `draws`: a cell with spawn options takes one draw over all of
/// them and spawns the option it names; a cell without takes none. `None`
/// when the draws do not fit, or are not all used.
pub open spec fn mutation_run(next: Set<Cell>, order: Seq<Cell>, draws: Seq<Draw>, bounds: (i32, i32)) -> Option<Set<Cell>>
    decreases order.len(),
{
    if order.len() == 0 {
        if draws.len() == 0 { Some(next) } else { None }
    } else {
        let opts = spawn_options(next, order[0], bounds);
        if opts.len() == 0 {
            mutation_run(next, order.drop_first(), draws, bounds)
        } else if draws.len() > 0 && draws[0].0 == 0 && draws[0].1 == opts.len() - 1 && 0 <= draws[0].2 < opts.len() {
            mutation_run(next.insert(opts[draws[0].2]), order.drop_first(), draws.drop_first(), bounds)
        } else {
            None
        }
    }
}

/// `g` with entry `i` replaced by its last entry, and the last entry dropped.
pub open spec fn swap_removed(g: Seq<Cell>, i: int) -> Seq<Cell> {
    g.update(i, g.last()).drop_last()
}

/// What is left of `g` after each draw in turn swap-removes the entry its value indexes.
pub open spec fn delete_run(g: Seq<Cell>, draws: Seq<Draw>) -> Seq<Cell>
    decreases draws.len(),
{
    if draws.len() == 0 {
        g
    } else {
        swap_removed(delete_run(g, draws.drop_last()), draws.last().2)
    }
}

/// Each deletion draw ranges over all the entries left at its turn.
pub open spec fn delete_fit(g: Seq<Cell>, draws: Seq<Draw>) -> bool {
    forall|i: int| #![trigger draws[i]] 0 <= i < draws.len() ==> {
        let n = delete_run(g, draws.take(i)).len();
        &&& draws[i].0 == 0
        &&& draws[i].1 == n - 1
        &&& 0 <= draws[i].2 < n
    }
}

/// How many cells a nuke deletes from a group of `n` cells.
pub open spec fn deletion_count(n: int) -> int {
    if n < NUKE_DELETIONS { n } else { NUKE_DELETIONS as int }
}

/// Whether a nuked group may grow into a cell: it lies in the arena, and
/// neither the colony `alive` nor the group as it was, `orig`, holds it.
pub open spec fn regrow_free(alive: Set<Cell>, orig: Set<Cell>, bounds: (i32, i32)) -> spec_fn(Cell) -> bool {
    |n: Cell| in_bounds(n, bounds) && !alive.contains(n) && !orig.contains(n)
}

/// Every way a nuked group may grow one cell: for each remaining member of
/// `rest` in turn, each direction (in `neighbours8` order) that leads to a cell
/// it may grow into. A cell next to several members is listed once per member.
pub open spec fn regrowth_list(alive: Set<Cell>, orig: Set<Cell>, rest: Seq<Cell>, bounds: (i32, i32)) -> Seq<Cell>
    decreases rest.len(),
{
    if rest.len() == 0 {
        Seq::empty()
    } else {
        regrowth_list(alive, orig, rest.drop_last(), bounds) + neighbours8(rest.last()).filter(
            regrow_free(alive, orig, bounds),
        )
    }
}

/// The colony `alive` after each draw in turn brings to life the cell of the
/// regrowth way its value indexes.
pub open spec fn regrow_run(alive: Set<Cell>, orig: Set<Cell>, rest: Seq<Cell>, draws: Seq<Draw>, bounds: (i32, i32)) -> Set<Cell>
    decreases draws.len(),
{
    if draws.len() == 0 {
        alive
    } else {
        let prev = regrow_run(alive, orig, rest, draws.drop_last(), bounds);
        prev.insert(regrowth_list(prev, orig, rest, bounds)[draws.last().2])
    }
}

/// The regrowth draws: one over all the ways to grow at each turn, five of
/// them unless the ways run out first, and none for a group with no member left.
pub open spec fn regrow_fit(alive: Set<Cell>, orig: Set<Cell>, rest: Seq<Cell>, draws: Seq<Draw>, bounds: (i32, i32)) -> bool {
    &&& draws.len() <= NUKE_GROWTH
    &&& rest.len() == 0 ==> draws.len() == 0
    &&& rest.len() > 0 && draws.len() < NUKE_GROWTH ==> regrowth_list(
        regrow_run(alive, orig, rest, draws, bounds),
        orig,
        rest,
        bounds,
    ).len() == 0
    &&& forall|i: int| #![trigger draws[i]] 0 <= i < draws.len() ==> {
        let n = regrowth_list(regrow_run(alive, orig, rest, draws.take(i), bounds), orig, rest, bounds).len();
        &&& draws[i].0 == 0
        &&& draws[i].1 == n - 1
        &&& 0 <= draws[i].2 < n
    }
}

/// Every cell of `neighbours8(c)` is adjacent to `c`.
pub proof fn lemma_neighbours8_adjacent(c: Cell)
    requires
        neighbors_representable(c),
    ensures
        forall|n: Cell| #[trigger] neighbours8(c).contains(n) ==> adjacent(c, n),
{
    let ns = neighbours8(c);
    assert forall|n: Cell| #[trigger] ns.contains(n) implies adjacent(c, n) by {
        let i = choose|i: int| 0 <= i < ns.len() && ns[i] == n;
        assert(0 <= i < 8);
    }
}

/// A cell that a nuked group may grow into lies in the arena, is alive in
/// neither `alive` nor `orig`, and is next to a member of `rest`.
pub proof fn lemma_regrowth_list_contains(alive: Set<Cell>, orig: Set<Cell>, rest: Seq<Cell>, bounds: (i32, i32), c: Cell)
    requires
        forall|i: int| 0 <= i < rest.len() ==> neighbors_representable(#[trigger] rest[i]),
        regrowth_list(alive, orig, rest, bounds).contains(c),
    ensures
        in_bounds(c, bounds),
        !alive.contains(c),
        !orig.contains(c),
        exists|a: Cell| rest.contains(a) && adjacent(a, c),
    decreases rest.len(),
{
    if rest.len() == 0 {
        assert(regrowth_list(alive, orig, rest, bounds) =~= Seq::<Cell>::empty());
        return;
    }
    let f = regrow_free(alive, orig, bounds);
    let front = regrowth_list(alive, orig, rest.drop_last(), bounds);
    let back = neighbours8(rest.last()).filter(f);
    let q = choose|q: int| 0 <= q < (front + back).len() && (front + back)[q] == c;
    if q < front.len() {
        assert(front[q] == c);
        assert forall|i: int| 0 <= i < rest.drop_last().len() implies neighbors_representable(#[trigger] rest.drop_last()[i]) by {
            assert(rest.drop_last()[i] == rest[i]);
        }
        lemma_regrowth_list_contains(alive, orig, rest.drop_last(), bounds, c);
        let a = choose|a: Cell| rest.drop_last().contains(a) && adjacent(a, c);
        let j = choose|j: int| 0 <= j < rest.drop_last().len() && rest.drop_last()[j] == a;
        assert(rest[j] == a);
    } else {
        assert(back[q - front.len()] == c);
        assert(back.contains(c));
        neighbours8(rest.last()).lemma_filter_contains_rev(f, c);
        assert(rest[rest.len() - 1] == rest.last());
        lemma_neighbours8_adjacent(rest.last());
        assert(rest.contains(rest.last()));
    }
}

/// The colony goes from `before` to `after` as the group `g` is nuked with
/// `draws`: the first `deletion_count` draws delete cells of `g`, the rest
/// grow new cells next to its remaining members.
pub open spec fn group_nuked(before: Set<Cell>, g: Seq<Cell>, draws: Seq<Draw>, after: Set<Cell>, bounds: (i32, i32)) -> bool {
    let m = deletion_count(g.len() as int);
    let rest = delete_run(g, draws.take(m));
    let mid = before.difference(g.to_set().difference(rest.to_set()));
    &&& draws.len() >= m
    &&& delete_fit(g, draws.take(m))
    &&& regrow_fit(mid, g.to_set(), rest, draws.skip(m), bounds)
    &&& after == regrow_run(mid, g.to_set(), rest, draws.skip(m), bounds)
}

/// Whether the integer position `(x, y)` holds a cell of `s`.
pub open spec fn alive_at_witness(s: Set<Cell>, x: int, y: int) -> bool {
    i32::MIN <= x <= i32::MAX && i32::MIN <= y <= i32::MAX && s.contains((x as i32, y as i32))
}

/// `g` is a group of the live cells `s`: distinct live cells, each after the first
/// adjacent to an earlier one (so the group is connected), holding every live
/// cell adjacent to one of its cells (so it is a whole connected component).
pub open spec fn is_group(s: Set<Cell>, g: Seq<Cell>) -> bool {
    &&& g.len() > 0
    &&& g.no_duplicates()
    &&& forall|i: int| 0 <= i < g.len() ==> s.contains(#[trigger] g[i])
    &&& forall|i: int| 0 < i < g.len() ==> exists|j: int| 0 <= j < i && adjacent(g[j], #[trigger] g[i])
    &&& forall|i: int, n: Cell| #![trigger g[i], s.contains(n)] 0 <= i < g.len() && adjacent(g[i], n) && s.contains(n) ==> g.contains(n)
}

/// `gs` splits the live cells `s` into groups: each is a group, no two share a
/// cell, and every live cell lies in one.
pub open spec fn splits_into_groups(s: Set<Cell>, gs: Seq<Seq<Cell>>) -> bool {
    &&& forall|k: int| 0 <= k < gs.len() ==> is_group(s, #[trigger] gs[k])
    &&& forall|k: int, l: int, c: Cell| 0 <= k < gs.len() && 0 <= l < gs.len() && k != l
        && #[trigger] gs[k].contains(c) ==> !#[trigger] gs[l].contains(c)
    &&& forall|c: Cell| s.contains(c) ==> exists|k: int| 0 <= k < gs.len() && #[trigger] gs[k].contains(c)
}

/// Walking back along the parents of a group `g1` from a cell that lies in the
/// group `g2` stays in `g2`, down to the first cell of `g1`.
proof fn lemma_group_root_in(s: Set<Cell>, g1: Seq<Cell>, g2: Seq<Cell>, t: int)
    requires
        is_group(s, g1),
        is_group(s, g2),
        0 <= t < g1.len(),
        g2.contains(g1[t]),
    ensures
        g2.contains(g1[0]),
    decreases t,
{
    if t > 0 {
        let j = choose|j: int| 0 <= j < t && adjacent(g1[j], #[trigger] g1[t]);
        let k = choose|k: int| 0 <= k < g2.len() && g2[k] == g1[t];
        assert(adjacent(g2[k], g1[j]));
        assert(s.contains(g1[j]));
        lemma_group_root_in(s, g1, g2, j);
    }
}

/// When the first cell of the group `g1` lies in the group `g2`, so does every cell of `g1`.
proof fn lemma_group_within(s: Set<Cell>, g1: Seq<Cell>, g2: Seq<Cell>, t: int)
    requires
        is_group(s, g1),
        is_group(s, g2),
        0 <= t < g1.len(),
        g2.contains(g1[0]),
    ensures
        g2.contains(g1[t]),
    decreases t,
{
    if t > 0 {
        let j = choose|j: int| 0 <= j < t && adjacent(g1[j], #[trigger] g1[t]);
        lemma_group_within(s, g1, g2, j);
        let k = choose|k: int| 0 <= k < g2.len() && g2[k] == g1[j];
        assert(s.contains(g1[t]));
    }
}

/// Two groups of the same live cells that share a cell hold the same cells.
pub proof fn lemma_groups_share_all(s: Set<Cell>, g1: Seq<Cell>, g2: Seq<Cell>, c: Cell)
    requires
        is_group(s, g1),
        is_group(s, g2),
        g1.contains(c),
        g2.contains(c),
    ensures
        g1.to_set() == g2.to_set(),
{
    let t1 = choose|t: int| 0 <= t < g1.len() && g1[t] == c;
    let t2 = choose|t: int| 0 <= t < g2.len() && g2[t] == c;
    lemma_group_root_in(s, g1, g2, t1);
    lemma_group_root_in(s, g2, g1, t2);
    assert forall|x: Cell| g1.contains(x) <==> g2.contains(x) by {
        if g1.contains(x) {
            let t = choose|t: int| 0 <= t < g1.len() && g1[t] == x;
            lemma_group_within(s, g1, g2, t);
        }
        if g2.contains(x) {
            let t = choose|t: int| 0 <= t < g2.len() && g2[t] == x;
            lemma_group_within(s, g2, g1, t);
        }
    }
    assert(g1.to_set() =~= g2.to_set());
}

/// A copy of a list of cells.
fn copy_cells(v: &Vec<Cell>) -> (r: Vec<Cell>)
    ensures
        r@ == v@,
{
    let mut r: Vec<Cell> = Vec::new();
    let mut i: usize = 0;
    while i < v.len()
        invariant
            0 <= i <= v@.len(),
            r@ == v@.take(i as int),
        decreases v@.len() - i,
    {
        r.push(v[i]);
        assert(v@.take(i + 1) =~= v@.take(i as int).push(v@[i as int]));
        i = i + 1;
    }
    assert(v@.take(v@.len() as int) =~= v@);
    r
}

/// The views of a list of cell lists.
pub open spec fn seqs_of(gs: Seq<Vec<Cell>>) -> Seq<Seq<Cell>> {
    gs.map_values(|g: Vec<Cell>| g@)
}

/// While the neighbours of `pos` are visited, starting from the visited set `v0`
/// and the group `g0`: the group extends `g0` with distinct live neighbours of
/// `pos` that were not visited, and the visited set is `v0` plus the group.
#[verifier::opaque]
pub open spec fn expansion(alive: Set<Cell>, v0: Set<Cell>, g0: Seq<Cell>, pos: Cell, visited: Set<Cell>, group: Seq<Cell>) -> bool {
    &&& group.len() >= g0.len()
    &&& group.subrange(0, g0.len() as int) == g0
    &&& forall|t: int| g0.len() <= t < group.len() ==> adjacent(pos, #[trigger] group[t]) && alive.contains(group[t])
        && !v0.contains(group[t])
    &&& forall|t: int, u: int| 0 <= t < group.len() && 0 <= u < group.len() && t != u && g0.len() <= u
        ==> group[t] != group[u]
    &&& forall|c: Cell| #[trigger] visited.contains(c) <==> (v0.contains(c) || group.contains(c))
}

/// The live cells of a colony.
pub struct LifeGrid {
    alive_cells: CellSet,
    bounds: (i32, i32),
    cell_age: CellAges,
}

impl LifeGrid {
    #[verifier::type_invariant]
    spec fn ages_below_stagnation(&self) -> bool {
        forall|c: Cell| #[trigger] self.cell_age@.contains_key(c) ==> self.cell_age@[c] < STAGNATION_AGE
    }

    /// The set of live cells.
    pub closed spec fn alive(&self) -> Set<Cell> {
        self.alive_cells@
    }

    /// How many consecutive generations each tracked cell has lived.
    pub closed spec fn ages(&self) -> Map<Cell, u16> {
        self.cell_age@
    }

    /// Half-width and half-height of the arena, in cells.
    pub closed spec fn spec_bounds(&self) -> (i32, i32) {
        self.bounds
    }

    /// An empty colony in the arena `|x| <= bounds.0`, `|y| <= bounds.1`.
    pub fn new(bounds: (i32, i32)) -> (g: LifeGrid)
        ensures
            g.alive() == Set::<Cell>::empty(),
            g.ages() == Map::<Cell, u16>::empty(),
            g.spec_bounds() == bounds,
    {
        LifeGrid { alive_cells: CellSet::new(), bounds, cell_age: CellAges::new() }
    }

    /// The live cells.
    pub fn alive_cells(&self) -> (s: &CellSet)
        ensures
            s@ == self.alive(),
    {
        &self.alive_cells
    }

    /// The arena bounds.
    pub fn bounds(&self) -> (b: (i32, i32))
        ensures
            b == self.spec_bounds(),
    {
        self.bounds
    }

    /// Whether `c` is alive.
    pub fn is_alive(&self, c: Cell) -> (b: bool)
        ensures
            b == self.alive().contains(c),
    {
        self.alive_cells.contains(c)
    }

    /// The number of live cells.
    pub fn cell_count(&self) -> (n: usize)
        ensures
            n == self.alive().len(),
            self.alive().finite(),
    {
        self.alive_cells.len()
    }

    /// Kills the cell at `c`, if it is alive; its age is kept.
    pub fn remove_cell(&mut self, c: Cell) -> (removed: bool)
        ensures
            final(self).alive() == old(self).alive().remove(c),
            final(self).ages() == old(self).ages(),
            final(self).spec_bounds() == old(self).spec_bounds(),
            removed == old(self).alive().contains(c),
    {
        proof {
            use_type_invariant(&*self);
        }
        let mut cells = CellSet::new();
        std::mem::swap(&mut cells, &mut self.alive_cells);
        let removed = cells.remove(c);
        self.alive_cells = cells;
        removed
    }

    /// Brings `c` to life, if it is dead; its age is kept.
    fn insert_cell(&mut self, c: Cell) -> (added: bool)
        ensures
            final(self).alive() == old(self).alive().insert(c),
            final(self).ages() == old(self).ages(),
            final(self).spec_bounds() == old(self).spec_bounds(),
            added == !old(self).alive().contains(c),
    {
        proof {
            use_type_invariant(&*self);
        }
        let mut cells = CellSet::new();
        std::mem::swap(&mut cells, &mut self.alive_cells);
        let added = cells.insert(c);
        self.alive_cells = cells;
        added
    }

    /// Brings to life every cell of the pattern `cells` shifted by `offset`.
    pub fn add_pattern(&mut self, cells: &Vec<Cell>, offset: Cell)
        requires
            forall|i: int|
                0 <= i < cells@.len() ==> i32::MIN <= #[trigger] cells@[i].0 + offset.0 <= i32::MAX
                    && i32::MIN <= cells@[i].1 + offset.1 <= i32::MAX,
        ensures
            final(self).alive() == old(self).alive().union(placed(cells@, offset)),
            final(self).ages() == old(self).ages(),
            final(self).spec_bounds() == old(self).spec_bounds(),
    {
        let mut i: usize = 0;
        while i < cells.len()
            invariant
                0 <= i <= cells@.len(),
                forall|j: int|
                    0 <= j < cells@.len() ==> i32::MIN <= #[trigger] cells@[j].0 + offset.0 <= i32::MAX
                        && i32::MIN <= cells@[j].1 + offset.1 <= i32::MAX,
                self.alive() == old(self).alive().union(placed(cells@.take(i as int), offset)),
                self.ages() == old(self).ages(),
                self.spec_bounds() == old(self).spec_bounds(),
            decreases cells@.len() - i,
        {
            let (x, y) = cells[i];
            let c: Cell = (x + offset.0, y + offset.1);
            self.insert_cell(c);
            proof {
                let f = |p: Cell| shift(p, offset);
                assert(c == shift(cells@[i as int], offset));
                assert(cells@.take(i + 1).map_values(f) =~= cells@.take(i as int).map_values(f).push(c));
                let before = cells@.take(i as int).map_values(f);
                before.lemma_push_to_set_commute(c);
                assert(old(self).alive().union(placed(cells@.take(i + 1), offset)) =~= old(self).alive().union(
                    placed(cells@.take(i as int), offset),
                ).insert(c));
            }
            i = i + 1;
        }
        assert(cells@.take(cells@.len() as int) =~= cells@);
    }

    /// Kills every live cell whose squared distance to `center` is at most
    /// `radius * radius`.
    pub fn clear_radius(&mut self, center: Cell, radius: i32)
        requires
            forall|c: Cell| #[trigger]
                old(self).alive().contains(c) ==> dist2(c, center) <= i32::MAX && radius * radius
                    <= i32::MAX,
        ensures
            final(self).alive() == old(self).alive().filter(|c: Cell| dist2(c, center) > radius * radius),
            forall|c: Cell| #[trigger] final(self).alive().contains(c) ==> dist2(c, center) > radius * radius,
            final(self).ages() == old(self).ages(),
            final(self).spec_bounds() == old(self).spec_bounds(),
    {
        proof {
            use_type_invariant(&*self);
        }
        let ghost keep = |c: Cell| dist2(c, center) > radius * radius;
        let cells = self.alive_cells.as_vec();
        let mut kept = CellSet::new();
        let mut i: usize = 0;
        while i < cells.len()
            invariant
                0 <= i <= cells@.len(),
                cells@.to_set() == self.alive(),
                forall|c: Cell| #[trigger]
                    self.alive().contains(c) ==> dist2(c, center) <= i32::MAX && radius * radius
                        <= i32::MAX,
                kept@ == cells@.take(i as int).to_set().filter(keep),
                keep == (|c: Cell| dist2(c, center) > radius * radius),
            decreases cells@.len() - i,
        {
            let c = cells[i];
            assert(self.alive().contains(c));
            let dx: i64 = c.0 as i64 - center.0 as i64;
            let dy: i64 = c.1 as i64 - center.1 as i64;
            assert(dx * dx >= 0 && dy * dy >= 0) by (nonlinear_arith);
            assert(dx * dx + dy * dy <= i32::MAX);
            assert(radius * radius >= 0) by (nonlinear_arith);
            let r: i64 = radius as i64;
            let d2: i64 = dx * dx + dy * dy;
            let r2: i64 = r * r;
            assert(d2 == dist2(c, center));
            assert(r2 == radius * radius);
            let ghost prev = kept@;
            if d2 > r2 {
                kept.insert(c);
            }
            assert(kept@ == (if keep(c) { prev.insert(c) } else { prev }));
            proof {
                assert(cells@.take(i + 1) =~= cells@.take(i as int).push(c));
                cells@.take(i as int).lemma_push_to_set_commute(c);
                assert(kept@ =~= cells@.take(i + 1).to_set().filter(keep));
            }
            i = i + 1;
        }
        assert(cells@.take(cells@.len() as int) =~= cells@);
        assert(kept@ =~= self.alive().filter(keep));
        self.alive_cells = kept;
    }

    /// Every cell adjacent to a live cell.
    fn neighborhood(&self) -> (cands: CellSet)
        requires
            all_interior(self.alive()),
        ensures
            forall|a: Cell, n: Cell| #![trigger self.alive().contains(a), cands@.contains(n)] self.alive().contains(a) && adjacent(a, n) ==> cands@.contains(n),
    {
        let cells = self.alive_cells.as_vec();
        let mut cands = CellSet::new();
        let mut i: usize = 0;
        while i < cells.len()
            invariant
                0 <= i <= cells@.len(),
                cells@.to_set() == self.alive(),
                all_interior(self.alive()),
                forall|j: int, n: Cell| #![trigger cells@[j], cands@.contains(n)] 0 <= j < i && adjacent(cells@[j], n) ==> cands@.contains(n),
            decreases cells@.len() - i,
        {
            let (x, y) = cells[i];
            assert(self.alive().contains(cells@[i as int]));
            cands.insert((x - 1, y - 1));
            cands.insert((x - 1, y));
            cands.insert((x - 1, y + 1));
            cands.insert((x, y - 1));
            cands.insert((x, y + 1));
            cands.insert((x + 1, y - 1));
            cands.insert((x + 1, y));
            cands.insert((x + 1, y + 1));
            i = i + 1;
        }
        proof {
            assert forall|a: Cell, n: Cell| #![trigger self.alive().contains(a), cands@.contains(n)] self.alive().contains(a) && adjacent(a, n) implies cands@.contains(n) by {
                let j = choose|j: int| 0 <= j < cells@.len() && cells@[j] == a;
            }
        }
        cands
    }

    /// The next generation by rule B3/S23 within the arena, without aging or
    /// mutation.
    pub fn life_step(&self) -> (next: CellSet)
        requires
            all_interior(self.alive()),
        ensures
            next@ == next_generation(self.alive(), self.spec_bounds()),
    {
        let cands = self.neighborhood();
        let cv = cands.as_vec();
        let mut next = CellSet::new();
        let mut i: usize = 0;
        while i < cv.len()
            invariant
                0 <= i <= cv@.len(),
                next@ == cv@.take(i as int).to_set().filter(|c: Cell| lives_next(self.alive(), c, self.spec_bounds())),
            decreases cv@.len() - i,
        {
            let c = cv[i];
            let ghost prev = next@;
            if cell_in_bounds(c, self.bounds) {
                let k = self.alive_cells.count_neighbors(c);
                if k == 3 || (k == 2 && self.alive_cells.contains(c)) {
                    next.insert(c);
                }
            }
            proof {
                assert(cv@.take(i + 1) =~= cv@.take(i as int).push(c));
                cv@.take(i as int).lemma_push_to_set_commute(c);
                assert(next@ =~= cv@.take(i + 1).to_set().filter(|c: Cell| lives_next(self.alive(), c, self.spec_bounds())));
            }
            i = i + 1;
        }
        proof {
            assert(cv@.take(cv@.len() as int) =~= cv@);
            let s = self.alive();
            assert forall|c: Cell| lives_next(s, c, self.spec_bounds()) implies cands@.contains(c) by {
                let x = c.0 as int;
                let y = c.1 as int;
                if alive_at_witness(s, x - 1, y - 1) {} else if alive_at_witness(s, x - 1, y) {}
                else if alive_at_witness(s, x - 1, y + 1) {} else if alive_at_witness(s, x, y - 1) {}
                else if alive_at_witness(s, x, y + 1) {} else if alive_at_witness(s, x + 1, y - 1) {}
                else if alive_at_witness(s, x + 1, y) {} else if alive_at_witness(s, x + 1, y + 1) {}
            }
            assert(next@ =~= next_generation(s, self.spec_bounds()));
        }
        next
    }

    /// Appends `n` to `v` when it lies in the arena and `next` does not hold it.
    fn push_if_free(next: &CellSet, n: Cell, bounds: (i32, i32), v: &mut Vec<Cell>)
        ensures
            final(v)@ == (if in_bounds(n, bounds) && !next@.contains(n) { old(v)@.push(n) } else { old(v)@ }),
    {
        if cell_in_bounds(n, bounds) && !next.contains(n) {
            v.push(n);
        }
    }

    /// The neighbours of `pos` that lie in the arena and that `next` does not hold,
    /// in visiting order.
    pub fn mutation_candidates(next: &CellSet, pos: Cell, bounds: (i32, i32)) -> (v: Vec<Cell>)
        requires
            interior(pos),
        ensures
            v@ == spawn_options(next@, pos, bounds),
            forall|i: int| 0 <= i < v@.len() ==> in_bounds(#[trigger] v@[i], bounds) && adjacent(pos, v@[i])
                && !next@.contains(v@[i]),
            forall|n: Cell| adjacent(pos, n) && in_bounds(n, bounds) && !next@.contains(n) ==> #[trigger] v@.contains(n),
    {
        let (x, y) = pos;
        let mut v: Vec<Cell> = Vec::new();
        let ghost free = free_in(next@, bounds);
        let n0: Cell = (x - 1, y - 1);
        let n1: Cell = (x - 1, y);
        let n2: Cell = (x - 1, y + 1);
        let n3: Cell = (x, y - 1);
        let n4: Cell = (x, y + 1);
        let n5: Cell = (x + 1, y - 1);
        let n6: Cell = (x + 1, y);
        let n7: Cell = (x + 1, y + 1);
        let ghost ns: Seq<Cell> = seq![n0, n1, n2, n3, n4, n5, n6, n7];
        Self::push_if_free(next, n0, bounds, &mut v);
        assert(v@ =~= ns.take(1).filter(free)) by { assert(ns.take(1) == Seq::<Cell>::empty().push(ns[0])); Seq::<Cell>::empty().lemma_filter_push(ns[0], free); assert(Seq::<Cell>::empty().filter(free) =~= Seq::<Cell>::empty()) by { reveal(Seq::filter); } }
        Self::push_if_free(next, n1, bounds, &mut v);
        assert(v@ =~= ns.take(2).filter(free)) by { assert(ns.take(2) == ns.take(1).push(ns[1])); ns.take(1).lemma_filter_push(ns[1], free); }
        Self::push_if_free(next, n2, bounds, &mut v);
        assert(v@ =~= ns.take(3).filter(free)) by { assert(ns.take(3) == ns.take(2).push(ns[2])); ns.take(2).lemma_filter_push(ns[2], free); }
        Self::push_if_free(next, n3, bounds, &mut v);
        assert(v@ =~= ns.take(4).filter(free)) by { assert(ns.take(4) == ns.take(3).push(ns[3])); ns.take(3).lemma_filter_push(ns[3], free); }
        Self::push_if_free(next, n4, bounds, &mut v);
        assert(v@ =~= ns.take(5).filter(free)) by { assert(ns.take(5) == ns.take(4).push(ns[4])); ns.take(4).lemma_filter_push(ns[4], free); }
        Self::push_if_free(next, n5, bounds, &mut v);
        assert(v@ =~= ns.take(6).filter(free)) by { assert(ns.take(6) == ns.take(5).push(ns[5])); ns.take(5).lemma_filter_push(ns[5], free); }
        Self::push_if_free(next, n6, bounds, &mut v);
        assert(v@ =~= ns.take(7).filter(free)) by { assert(ns.take(7) == ns.take(6).push(ns[6])); ns.take(6).lemma_filter_push(ns[6], free); }
        Self::push_if_free(next, n7, bounds, &mut v);
        assert(v@ =~= ns.take(8).filter(free)) by { assert(ns.take(8) == ns.take(7).push(ns[7])); ns.take(7).lemma_filter_push(ns[7], free); }
        assert(ns.take(8) =~= ns);
        assert(ns =~= neighbours8(pos));
        proof {
            assert forall|i: int| 0 <= i < v@.len() implies in_bounds(#[trigger] v@[i], bounds) && adjacent(pos, v@[i])
                && !next@.contains(v@[i]) by {
                ns.lemma_filter_pred(free, i);
                assert(ns.filter(free).contains(v@[i]));
                ns.lemma_filter_contains_rev(free, v@[i]);
            }
            assert forall|n: Cell| adjacent(pos, n) && in_bounds(n, bounds) && !next@.contains(n) implies #[trigger] v@.contains(n) by {
                let k: int = if n.0 == x - 1 {
                    if n.1 == y - 1 { 0 } else if n.1 == y { 1 } else { 2 }
                } else if n.0 == x {
                    if n.1 == y - 1 { 3 } else { 4 }
                } else {
                    if n.1 == y - 1 { 5 } else if n.1 == y { 6 } else { 7 }
                };
                assert(ns[k] == n);
                ns.lemma_filter_contains(free, k);
            }
        }
        v
    }

    /// The cell that a stagnating `pos` spawns into when the draw names option `k`.
    pub fn spawn_pick(next: &CellSet, pos: Cell, bounds: (i32, i32), k: usize) -> (c: Cell)
        requires
            interior(pos),
            k < spawn_options(next@, pos, bounds).len(),
        ensures
            c == spawn_options(next@, pos, bounds)[k as int],
    {
        let v = Self::mutation_candidates(next, pos, bounds);
        v[k]
    }

    /// One generation of the colony.
    ///
    /// The live cells become the next generation by rule B3/S23 within the arena,
    /// and each cell of it ages by one. Every cell that thereby reaches the
    /// stagnation age mutates in turn: when a free arena cell is next to it, one
    /// draw over all such cells picks the one that comes to life with age 0
    /// (`mutation_run` gives the exact outcome); its own age restarts at 0.
    /// Nothing is drawn when no cell stagnates.
    pub fn tick(&mut self, rng: &mut GameRng)
        requires
            all_interior(old(self).alive()),
            forall|c: Cell| #[trigger]
                stagnant(old(self).alive(), old(self).ages(), old(self).spec_bounds()).contains(c)
                    ==> interior(c),
        ensures
            final(self).spec_bounds() == old(self).spec_bounds(),
            ({
                let b = old(self).spec_bounds();
                let life = next_generation(old(self).alive(), b);
                let stale = stagnant(old(self).alive(), old(self).ages(), b);
                let alive = final(self).alive();
                &&& forall|c: Cell| life.contains(c) ==> #[trigger] alive.contains(c)
                &&& forall|c: Cell| #[trigger] alive.contains(c) && !life.contains(c) ==> in_bounds(c, b)
                    && exists|s: Cell| stale.contains(s) && adjacent(s, c)
                &&& forall|s: Cell| #[trigger] stale.contains(s) ==> (exists|c: Cell|
                    alive.contains(c) && !life.contains(c) && adjacent(s, c)) || (forall|n: Cell|
                    adjacent(s, n) && in_bounds(n, b) ==> alive.contains(n))
                &&& alive.finite() && stale.finite()
                &&& alive.difference(life).len() <= stale.len()
                &&& final(rng).draws().len() >= old(rng).draws().len()
                &&& final(rng).draws().take(old(rng).draws().len() as int) == old(rng).draws()
                &&& stale == Set::<Cell>::empty() ==> final(rng).draws() == old(rng).draws()
                &&& exists|order: Seq<Cell>| #![trigger order.to_set()] order.no_duplicates() && order.to_set() == stale
                    && mutation_run(life, order, final(rng).draws().skip(old(rng).draws().len() as int), b) == Some(alive)
                &&& forall|c: Cell| #[trigger] final(self).ages().contains_key(c) <==> alive.contains(c)
                &&& forall|c: Cell| #[trigger] final(self).ages().contains_key(c) ==> final(self).ages()[c] as int == (
                    if life.contains(c) && !stale.contains(c) {
                        next_age(old(self).ages(), c)
                    } else {
                        0
                    })
            }),
    {
        proof {
            use_type_invariant(&*self);
        }
        let ghost old_ages = self.cell_age@;
        let ghost b = self.bounds;
        let ghost life = next_generation(self.alive(), b);
        let ghost stale_set = stagnant(self.alive(), old_ages, b);
        let ghost is_stale = |c: Cell| next_age(old_ages, c) >= STAGNATION_AGE;
        let mut next = self.life_step();
        let mut ages = CellAges::new();
        let mut stale: Vec<Cell> = Vec::new();
        {
            let nv = next.as_vec();
            let mut i: usize = 0;
            while i < nv.len()
                invariant
                    0 <= i <= nv@.len(),
                    nv@.no_duplicates(),
                    nv@.to_set() == life,
                    old_ages == self.cell_age@,
                    is_stale == (|c: Cell| next_age(old_ages, c) >= STAGNATION_AGE),
                    forall|c: Cell| #[trigger] old_ages.contains_key(c) ==> old_ages[c] < STAGNATION_AGE,
                    forall|c: Cell| #[trigger] ages@.contains_key(c) <==> nv@.take(i as int).contains(c),
                    forall|c: Cell| #[trigger] ages@.contains_key(c) ==> ages@[c] as int == next_age(old_ages, c),
                    stale@.no_duplicates(),
                    stale@.to_set() == nv@.take(i as int).to_set().filter(is_stale),
                decreases nv@.len() - i,
            {
                let c = nv[i];
                let prior: u16 = match self.cell_age.get(c) {
                    Some(a) => a,
                    None => 0,
                };
                let age: u16 = prior + 1;
                let ghost ages_before = ages@;
                ages.insert(c, age);
                proof {
                    assert forall|x: Cell| nv@.take(i + 1).contains(x) <==> (nv@.take(i as int).contains(x) || x == c) by {
                        assert(nv@.take(i + 1) =~= nv@.take(i as int).push(c));
                        if nv@.take(i as int).contains(x) {
                            let j = choose|j: int| 0 <= j < i && #[trigger] nv@.take(i as int)[j] == x;
                            assert(nv@.take(i + 1)[j] == x);
                        }
                        if x == c {
                            assert(nv@.take(i + 1)[i as int] == x);
                        }
                    }
                    assert(nv@.take(i + 1) =~= nv@.take(i as int).push(c));
                    nv@.take(i as int).lemma_push_to_set_commute(c);
                    assert(!nv@.take(i as int).contains(c)) by {
                        if nv@.take(i as int).contains(c) {
                            let j = choose|j: int| 0 <= j < i && nv@.take(i as int)[j] == c;
                            assert(nv@[j] == nv@[i as int]);
                        }
                    }
                }
                if age >= STAGNATION_AGE {
                    let ghost before = stale@;
                    stale.push(c);
                    proof {
                        before.lemma_push_to_set_commute(c);
                        assert(!before.contains(c)) by {
                            if before.contains(c) {
                                assert(before.to_set().contains(c));
                            }
                        }
                        assert forall|p: int, q: int| 0 <= p < stale@.len() && 0 <= q < stale@.len() && p != q
                            implies stale@[p] != stale@[q] by {
                            if p == before.len() {
                                assert(before.contains(stale@[q]));
                            } else if q == before.len() {
                                assert(before.contains(stale@[p]));
                            }
                        }
                    }
                }
                proof {
                    assert(stale@.to_set() =~= nv@.take(i + 1).to_set().filter(is_stale));
                }
                i = i + 1;
            }
            proof {
                assert(nv@.take(nv@.len() as int) =~= nv@);
                assert(stale@.to_set() =~= stale_set);
            }
        }
        proof {
            assert forall|c: Cell| #[trigger] stale_set.contains(c) implies interior(c) && life.contains(c) by {
                assert(stagnant(old(self).alive(), old(self).ages(), old(self).spec_bounds()).contains(c));
            }
        }
        let ghost mut spawned: Set<Cell> = Set::empty();
        let ghost r0 = rng.draws();
        let ghost l0 = r0.len() as int;
        proof {
            assert(rng.draws().take(l0) =~= r0);
            assert(rng.draws().skip(l0) =~= Seq::<Draw>::empty());
            assert(stale@.skip(0) =~= stale@);
            assert forall|e: Seq<Draw>| #[trigger] mutation_run(life, stale@, rng.draws().skip(l0) + e, b)
                == mutation_run(next@, stale@.skip(0), e, b) by {
                assert(rng.draws().skip(l0) + e =~= e);
            }
        }
        let mut k: usize = 0;
        while k < stale.len()
            invariant
                0 <= k <= stale@.len(),
                stale@.no_duplicates(),
                stale@.to_set() == stale_set,
                stale_set == stagnant(old(self).alive(), old_ages, b),
                life == next_generation(old(self).alive(), b),
                b == self.bounds,
                forall|c: Cell| #[trigger] stale_set.contains(c) ==> interior(c) && life.contains(c),
                next@ == life.union(spawned),
                spawned.finite(),
                spawned.len() <= k,
                forall|c: Cell| #[trigger] spawned.contains(c) ==> !life.contains(c) && in_bounds(c, b)
                    && exists|s: Cell| stale_set.contains(s) && adjacent(s, c),
                forall|j: int| 0 <= j < k ==> (exists|c: Cell| spawned.contains(c) && adjacent(#[trigger] stale@[j], c))
                    || (forall|n: Cell| adjacent(stale@[j], n) && in_bounds(n, b) ==> next@.contains(n)),
                forall|c: Cell| #[trigger] ages@.contains_key(c) <==> next@.contains(c),
                forall|c: Cell| #[trigger] ages@.contains_key(c) ==> ages@[c] as int == (
                    if life.contains(c) && !stale@.take(k as int).contains(c) {
                        next_age(old_ages, c)
                    } else {
                        0
                    }),
                l0 == r0.len(),
                rng.draws().len() >= l0,
                rng.draws().take(l0) == r0,
                forall|e: Seq<Draw>| #[trigger] mutation_run(life, stale@, rng.draws().skip(l0) + e, b)
                    == mutation_run(next@, stale@.skip(k as int), e, b),
            decreases stale@.len() - k,
        {
            let ghost dprev = rng.draws();
            let ghost dd = dprev.skip(l0);
            let pos = stale[k];
            assert(stale_set.contains(pos));
            let cands = Self::mutation_candidates(&next, pos, self.bounds);
            let ghost before = next@;
            let ghost ages_before = ages@;
            let ghost spawned_before = spawned;
            if cands.len() > 0 {
                let idx = rng.index_below(cands.len());
                let pick = Self::spawn_pick(&next, pos, self.bounds, idx);
                next.insert(pick);
                ages.insert(pick, 0);
                proof {
                    let d: Draw = (0, cands.len() - 1, idx as int);
                    assert(rng.draws() == dprev.push(d));
                    assert(dprev.push(d).skip(l0) =~= dd.push(d)) by {
                        assert forall|i: int| 0 <= i < dd.len() + 1 implies dprev.push(d).skip(l0)[i] == dd.push(d)[i] by {
                            if i < dd.len() {
                                assert(dprev.push(d)[l0 + i] == dprev[l0 + i]);
                            }
                        }
                    }
                    assert(dprev.push(d).take(l0) =~= dprev.take(l0)) by {
                        assert forall|i: int| 0 <= i < l0 implies dprev.push(d).take(l0)[i] == dprev.take(l0)[i] by {
                            assert(dprev.push(d)[i] == dprev[i]);
                        }
                    }
                    assert(stale@.skip(k as int).drop_first() =~= stale@.skip(k + 1));
                    assert(stale@.skip(k as int)[0] == pos);
                    assert forall|e: Seq<Draw>| #[trigger] mutation_run(life, stale@, rng.draws().skip(l0) + e, b)
                        == mutation_run(next@, stale@.skip(k + 1), e, b) by {
                        let e2 = seq![d] + e;
                        assert(dd.push(d) + e =~= dd + e2);
                        assert(e2.drop_first() =~= e);
                        assert(e2[0] == d);
                        assert(mutation_run(life, stale@, dd + e2, b) == mutation_run(before, stale@.skip(k as int), e2, b));
                    }
                    assert(!before.contains(pick));
                    assert(!spawned.contains(pick));
                    spawned = spawned.insert(pick);
                    assert(adjacent(stale@[k as int], pick));
                    assert(next@ =~= life.union(spawned));
                    assert(spawned.contains(pick) && adjacent(pos, pick));
                    assert(exists|c: Cell| spawned.contains(c) && adjacent(pos, c));
                }
            } else {
                proof {
                    assert forall|n: Cell| adjacent(pos, n) && in_bounds(n, b) implies next@.contains(n) by {
                        if !next@.contains(n) {
                            assert(cands@.contains(n));
                        }
                    }
                    assert(stale@.skip(k as int).drop_first() =~= stale@.skip(k + 1));
                    assert(stale@.skip(k as int)[0] == pos);
                    assert forall|e: Seq<Draw>| #[trigger] mutation_run(life, stale@, rng.draws().skip(l0) + e, b)
                        == mutation_run(next@, stale@.skip(k + 1), e, b) by {
                        assert(mutation_run(life, stale@, dd + e, b) == mutation_run(next@, stale@.skip(k as int), e, b));
                    }
                }
            }
            ages.insert(pos, 0);
            proof {
                assert(stale@.take(k + 1) =~= stale@.take(k as int).push(pos));
                assert forall|j: int| 0 <= j < k + 1 implies (exists|c: Cell| spawned.contains(c) && adjacent(#[trigger] stale@[j], c))
                    || (forall|n: Cell| adjacent(stale@[j], n) && in_bounds(n, b) ==> next@.contains(n)) by {
                    if j == k {
                        assert(stale@[j] == pos);
                    }
                    if j < k {
                        if exists|c: Cell| spawned_before.contains(c) && adjacent(stale@[j], c) {
                            let c = choose|c: Cell| spawned_before.contains(c) && adjacent(stale@[j], c);
                            assert(spawned.contains(c));
                        } else {
                            assert forall|n: Cell| adjacent(stale@[j], n) && in_bounds(n, b) implies next@.contains(n) by {
                                assert(before.contains(n));
                            }
                        }
                    }
                }
                assert forall|c: Cell| #[trigger] ages@.contains_key(c) implies ages@[c] as int == (
                    if life.contains(c) && !stale@.take(k + 1).contains(c) {
                        next_age(old_ages, c)
                    } else {
                        0
                    }) by {
                    if c != pos && !spawned.contains(c) || (c != pos && spawned_before.contains(c)) {
                        assert(ages_before.contains_key(c));
                    }
                    if c == pos {
                        assert(stale@.take(k + 1)[k as int] == pos);
                    }
                    if c != pos && stale@.take(k + 1).contains(c) {
                        let j = choose|j: int| 0 <= j < k + 1 && #[trigger] stale@.take(k + 1)[j] == c;
                        assert(stale@.take(k as int)[j] == c);
                    }
                    if c != pos && stale@.take(k as int).contains(c) {
                        let j = choose|j: int| 0 <= j < k && #[trigger] stale@.take(k as int)[j] == c;
                        assert(stale@.take(k + 1)[j] == c);
                    }
                }
            }
            k = k + 1;
        }
        proof {
            assert(stale@.skip(stale@.len() as int) =~= Seq::<Cell>::empty());
            let dd = rng.draws().skip(l0);
            assert(dd + Seq::<Draw>::empty() =~= dd);
            assert(mutation_run(life, stale@, dd + Seq::<Draw>::empty(), b) == mutation_run(next@, stale@.skip(stale@.len() as int), Seq::<Draw>::empty(), b));
            assert(mutation_run(life, stale@, dd, b) == Some(next@));
            assert(stale@.to_set() == stale_set);
            if stale_set == Set::<Cell>::empty() {
                if stale@.len() > 0 {
                    assert(stale@.to_set().contains(stale@[0]));
                }
                assert(dd.len() == 0);
                assert(rng.draws() =~= rng.draws().take(l0));
            }
        }
        proof {
            assert(stale@.take(stale@.len() as int) =~= stale@);
            stale@.unique_seq_to_set();
            assert(next@.difference(life) =~= spawned);
            next.lemma_finite();
            vstd::seq_lib::seq_to_set_is_finite(stale@);
            assert forall|s: Cell| #[trigger] stale_set.contains(s) implies (exists|c: Cell|
                next@.contains(c) && !life.contains(c) && adjacent(s, c)) || (forall|n: Cell|
                adjacent(s, n) && in_bounds(n, b) ==> next@.contains(n)) by {
                let j = choose|j: int| 0 <= j < stale@.len() && stale@[j] == s;
            }
        }
        proof {
            assert forall|c: Cell| #[trigger] ages@.contains_key(c) implies ages@[c] < STAGNATION_AGE by {
                if life.contains(c) && !stale@.contains(c) {
                    assert(!stale_set.contains(c));
                }
            }
        }
        self.alive_cells = next;
        self.cell_age = ages;
    }

    /// Appends `n` to the group under construction when it is alive and not yet visited.
    fn visit(
        alive: &CellSet,
        visited: &mut CellSet,
        group: &mut Vec<Cell>,
        n: Cell,
        Ghost(pos): Ghost<Cell>,
        Ghost(v0): Ghost<Set<Cell>>,
        Ghost(g0): Ghost<Seq<Cell>>,
    )
        requires
            adjacent(pos, n),
            expansion(alive@, v0, g0, pos, old(visited)@, old(group)@),
        ensures
            expansion(alive@, v0, g0, pos, final(visited)@, final(group)@),
            old(visited)@.subset_of(final(visited)@),
            alive@.contains(n) ==> final(visited)@.contains(n),
    {
        reveal(expansion);
        let ghost g1 = group@;
        if alive.contains(n) && !visited.contains(n) {
            visited.insert(n);
            group.push(n);
            proof {
                assert(group@.subrange(0, g0.len() as int) =~= g1.subrange(0, g0.len() as int));
                assert forall|c: Cell| #[trigger] visited@.contains(c) <==> (v0.contains(c) || group@.contains(c)) by {
                    if g1.contains(c) {
                        let t = choose|t: int| 0 <= t < g1.len() && g1[t] == c;
                        assert(group@[t] == c);
                    }
                    if group@.contains(c) && c != n {
                        let t = choose|t: int| 0 <= t < group@.len() && group@[t] == c;
                        assert(g1[t] == c);
                    }
                    if c == n {
                        assert(group@[g1.len() as int] == n);
                    }
                }
                assert forall|t: int, u: int| 0 <= t < group@.len() && 0 <= u < group@.len() && t != u
                    && g0.len() <= u implies group@[t] != group@[u] by {
                    if u == g1.len() {
                        assert(g1.contains(group@[t]) || t == g1.len());
                    } else if t == g1.len() {
                        assert(g1.contains(group@[u]));
                    }
                }
            }
        }
    }

    /// Visits every live neighbour of `pos`, appending the unvisited ones to the group.
    fn expand(alive: &CellSet, visited: &mut CellSet, group: &mut Vec<Cell>, pos: Cell)
        requires
            neighbors_representable(pos),
            forall|t: int| 0 <= t < old(group)@.len() ==> old(visited)@.contains(#[trigger] old(group)@[t]),
        ensures
            expansion(alive@, old(visited)@, old(group)@, pos, final(visited)@, final(group)@),
            forall|n: Cell| adjacent(pos, n) && alive@.contains(n) ==> #[trigger] final(visited)@.contains(n),
    {
        let ghost g0 = group@;
        let ghost v0 = visited@;
        proof {
            reveal(expansion);
            assert(group@.subrange(0, g0.len() as int) =~= g0);
            assert forall|c: Cell| #[trigger] visited@.contains(c) <==> (v0.contains(c) || group@.contains(c)) by {
                if group@.contains(c) {
                    let t = choose|t: int| 0 <= t < group@.len() && group@[t] == c;
                }
            }
        }
        let (x, y) = pos;
        let ghost v_start = visited@;
        Self::visit(alive, visited, group, (x - 1, y - 1), Ghost(pos), Ghost(v0), Ghost(g0));
        let ghost v1 = visited@;
        Self::visit(alive, visited, group, (x - 1, y), Ghost(pos), Ghost(v0), Ghost(g0));
        let ghost v2 = visited@;
        Self::visit(alive, visited, group, (x - 1, y + 1), Ghost(pos), Ghost(v0), Ghost(g0));
        let ghost v3 = visited@;
        Self::visit(alive, visited, group, (x, y - 1), Ghost(pos), Ghost(v0), Ghost(g0));
        let ghost v4 = visited@;
        Self::visit(alive, visited, group, (x, y + 1), Ghost(pos), Ghost(v0), Ghost(g0));
        let ghost v5 = visited@;
        Self::visit(alive, visited, group, (x + 1, y - 1), Ghost(pos), Ghost(v0), Ghost(g0));
        let ghost v6 = visited@;
        Self::visit(alive, visited, group, (x + 1, y), Ghost(pos), Ghost(v0), Ghost(g0));
        let ghost v7 = visited@;
        Self::visit(alive, visited, group, (x + 1, y + 1), Ghost(pos), Ghost(v0), Ghost(g0));
        proof {
            assert(v1.subset_of(visited@) && v2.subset_of(visited@) && v3.subset_of(visited@) && v4.subset_of(
                visited@,
            ) && v5.subset_of(visited@) && v6.subset_of(visited@) && v7.subset_of(visited@)) by {
                assert(v1.subset_of(v2));
                assert(v2.subset_of(v3));
                assert(v3.subset_of(v4));
                assert(v4.subset_of(v5));
                assert(v5.subset_of(v6));
                assert(v6.subset_of(v7));
            }
        }
    }

    /// The live cells split into their 8-connected groups.
    pub fn find_groups(&self) -> (groups: Vec<Vec<Cell>>)
        requires
            forall|c: Cell| #[trigger] self.alive().contains(c) ==> neighbors_representable(c),
        ensures
            splits_into_groups(self.alive(), seqs_of(groups@)),
    {
        let ghost alive = self.alive();
        proof {
            self.alive_cells.lemma_finite();
        }
        let cells = self.alive_cells.as_vec();
        let mut visited = CellSet::new();
        let mut groups: Vec<Vec<Cell>> = Vec::new();
        let mut i: usize = 0;
        while i < cells.len()
            invariant
                0 <= i <= cells@.len(),
                alive == self.alive(),
                alive.finite(),
                cells@.to_set() == alive,
                forall|c: Cell| #[trigger] alive.contains(c) ==> neighbors_representable(c),
                forall|c: Cell| #[trigger] visited@.contains(c) ==> alive.contains(c),
                forall|c: Cell| #[trigger] visited@.contains(c) <==> exists|k: int|
                    0 <= k < groups@.len() && #[trigger] groups@[k]@.contains(c),
                forall|c: Cell, n: Cell| #![trigger visited@.contains(c), visited@.contains(n)]
                    visited@.contains(c) && adjacent(c, n) && alive.contains(n) ==> visited@.contains(n),
                forall|j: int| 0 <= j < i ==> visited@.contains(#[trigger] cells@[j]),
                forall|k: int| 0 <= k < groups@.len() ==> is_group(alive, #[trigger] groups@[k]@),
                forall|k: int, l: int, c: Cell| 0 <= k < groups@.len() && 0 <= l < groups@.len() && k != l
                    && #[trigger] groups@[k]@.contains(c) ==> !#[trigger] groups@[l]@.contains(c),
            decreases cells@.len() - i,
        {
            let cell = cells[i];
            assert(alive.contains(cell));
            if !visited.contains(cell) {
                let ghost prev = visited@;
                let mut group: Vec<Cell> = Vec::new();
                group.push(cell);
                visited.insert(cell);
                proof {
                    assert forall|c: Cell| #[trigger] visited@.contains(c) <==> (prev.contains(c) || group@.contains(c)) by {
                        if group@.contains(c) {
                            assert(group@[0] == c);
                        }
                        if c == cell {
                            assert(group@[0] == cell);
                        }
                    }
                    assert(group@.len() == 1);
                    assert(set![cell].len() == 1);
                    assert(alive.len() >= 1) by {
                        vstd::set_lib::lemma_len_subset(set![cell], alive);
                    }
                }
                let mut head: usize = 0;
                while head < group.len()
                    invariant
                        alive == self.alive(),
                        alive.finite(),
                        forall|c: Cell| #[trigger] alive.contains(c) ==> neighbors_representable(c),
                        forall|c: Cell| #[trigger] prev.contains(c) ==> alive.contains(c),
                        forall|c: Cell, n: Cell| #![trigger prev.contains(c), prev.contains(n)]
                            prev.contains(c) && adjacent(c, n) && alive.contains(n) ==> prev.contains(n),
                        forall|c: Cell| #[trigger] visited@.contains(c) <==> (prev.contains(c) || group@.contains(c)),
                        group@.len() >= 1,
                        group@[0] == cell,
                        group@.no_duplicates(),
                        forall|t: int| 0 <= t < group@.len() ==> alive.contains(#[trigger] group@[t])
                            && !prev.contains(group@[t]),
                        forall|t: int| 0 < t < group@.len() ==> exists|j: int| 0 <= j < t && adjacent(group@[j], #[trigger] group@[t]),
                        0 <= head <= group@.len(),
                        group@.len() <= alive.len(),
                        forall|t: int, n: Cell| #![trigger group@[t], visited@.contains(n)]
                            0 <= t < head && adjacent(group@[t], n) && alive.contains(n) ==> visited@.contains(n),
                    decreases alive.len() - head,
                {
                    let pos = group[head];
                    let ghost g0 = group@;
                    let ghost v0 = visited@;
                    proof {
                        assert(alive.contains(pos));
                        assert forall|t: int| 0 <= t < group@.len() implies visited@.contains(#[trigger] group@[t]) by {}
                    }
                    Self::expand(&self.alive_cells, &mut visited, &mut group, pos);
                    proof {
                        reveal(expansion);
                        assert forall|t: int| 0 <= t < g0.len() implies group@[t] == g0[t] by {
                            assert(group@.subrange(0, g0.len() as int)[t] == group@[t]);
                        }
                        assert forall|c: Cell| #[trigger] visited@.contains(c) <==> (prev.contains(c) || group@.contains(c)) by {
                            if g0.contains(c) {
                                let t = choose|t: int| 0 <= t < g0.len() && g0[t] == c;
                                assert(group@[t] == c);
                            }
                            if group@.contains(c) {
                                let t = choose|t: int| 0 <= t < group@.len() && group@[t] == c;
                                if t < g0.len() {
                                    assert(g0[t] == c);
                                }
                            }
                        }
                        assert forall|t: int| 0 < t < group@.len() implies exists|j: int| 0 <= j < t && adjacent(group@[j], #[trigger] group@[t]) by {
                            if t < g0.len() {
                                let j = choose|j: int| 0 <= j < t && adjacent(g0[j], #[trigger] g0[t]);
                                assert(group@[j] == g0[j]);
                            } else {
                                assert(group@[head as int] == pos);
                            }
                        }
                        assert forall|t: int| 0 <= t < group@.len() implies alive.contains(#[trigger] group@[t])
                            && !prev.contains(group@[t]) by {
                            if t < g0.len() {
                                assert(group@[t] == g0[t]);
                            } else {
                                assert(!v0.contains(group@[t]));
                            }
                        }
                        assert forall|t: int, u: int| 0 <= t < group@.len() && 0 <= u < group@.len() && t != u
                            implies group@[t] != group@[u] by {
                            if t >= g0.len() || u >= g0.len() {
                            } else {
                                assert(group@[t] == g0[t] && group@[u] == g0[u]);
                            }
                        }
                        assert forall|t: int, n: Cell| #![trigger group@[t], visited@.contains(n)]
                            0 <= t < head + 1 && adjacent(group@[t], n) && alive.contains(n) implies visited@.contains(n) by {
                            if t < head {
                                assert(group@[t] == g0[t]);
                                assert(v0.contains(n));
                            } else {
                                assert(group@[t] == pos);
                            }
                        }
                        group@.unique_seq_to_set();
                        assert(group@.to_set().subset_of(alive));
                        vstd::set_lib::lemma_len_subset(group@.to_set(), alive);
                    }
                    head = head + 1;
                }
                proof {
                    assert forall|t: int, n: Cell| #![trigger group@[t], alive.contains(n)]
                        0 <= t < group@.len() && adjacent(group@[t], n) && alive.contains(n) implies group@.contains(n) by {
                        assert(visited@.contains(n));
                        if prev.contains(n) {
                            assert(adjacent(n, group@[t]));
                            assert(prev.contains(group@[t]));
                        }
                    }
                    assert(is_group(alive, group@));
                }
                let ghost old_groups = groups@;
                groups.push(group);
                proof {
                    let last = old_groups.len() as int;
                    assert(groups@[last]@ == group@);
                    assert forall|k: int| 0 <= k < groups@.len() implies is_group(alive, #[trigger] groups@[k]@) by {
                        if k < last {
                            assert(groups@[k] == old_groups[k]);
                        }
                    }
                    assert forall|c: Cell| #[trigger] visited@.contains(c) <==> exists|k: int|
                        0 <= k < groups@.len() && #[trigger] groups@[k]@.contains(c) by {
                        if prev.contains(c) {
                            let k = choose|k: int| 0 <= k < old_groups.len() && #[trigger] old_groups[k]@.contains(c);
                            assert(groups@[k] == old_groups[k]);
                        }
                        if group@.contains(c) {
                            assert(groups@[last]@.contains(c));
                        }
                        if exists|k: int| 0 <= k < groups@.len() && #[trigger] groups@[k]@.contains(c) {
                            let k = choose|k: int| 0 <= k < groups@.len() && #[trigger] groups@[k]@.contains(c);
                            if k < last {
                                assert(groups@[k] == old_groups[k]);
                                assert(prev.contains(c));
                            }
                        }
                    }
                    assert forall|k: int, l: int, c: Cell| 0 <= k < groups@.len() && 0 <= l < groups@.len() && k != l
                        && #[trigger] groups@[k]@.contains(c) implies !#[trigger] groups@[l]@.contains(c) by {
                        if k < last && l < last {
                            assert(groups@[k] == old_groups[k]);
                            assert(groups@[l] == old_groups[l]);
                        } else if k == last {
                            assert(groups@[l] == old_groups[l]);
                            if groups@[l]@.contains(c) {
                                assert(prev.contains(c));
                                let t = choose|t: int| 0 <= t < group@.len() && group@[t] == c;
                            }
                        } else {
                            assert(groups@[k] == old_groups[k]);
                            assert(prev.contains(c));
                            if group@.contains(c) {
                                let t = choose|t: int| 0 <= t < group@.len() && group@[t] == c;
                            }
                        }
                    }
                    assert forall|c: Cell, n: Cell| #![trigger visited@.contains(c), visited@.contains(n)]
                        visited@.contains(c) && adjacent(c, n) && alive.contains(n) implies visited@.contains(n) by {
                        if prev.contains(c) {
                            assert(prev.contains(n));
                        } else {
                            let t = choose|t: int| 0 <= t < group@.len() && group@[t] == c;
                            assert(group@.contains(n));
                        }
                    }
                }
            }
            i = i + 1;
        }
        proof {
            let gs = seqs_of(groups@);
            assert forall|k: int| 0 <= k < gs.len() implies #[trigger] gs[k] == groups@[k]@ by {}
            assert forall|c: Cell| alive.contains(c) implies exists|k: int| 0 <= k < gs.len() && #[trigger] gs[k].contains(c) by {
                let j = choose|j: int| 0 <= j < cells@.len() && cells@[j] == c;
                assert(visited@.contains(cells@[j]));
                let k = choose|k: int| 0 <= k < groups@.len() && #[trigger] groups@[k]@.contains(c);
                assert(gs[k] == groups@[k]@);
            }
            assert forall|k: int| 0 <= k < gs.len() implies is_group(alive, #[trigger] gs[k]) by {
                assert(gs[k] == groups@[k]@);
            }
            assert forall|k: int, l: int, c: Cell| 0 <= k < gs.len() && 0 <= l < gs.len() && k != l
                && #[trigger] gs[k].contains(c) implies !#[trigger] gs[l].contains(c) by {
                assert(gs[k] == groups@[k]@);
                assert(gs[l] == groups@[l]@);
            }
        }
        groups
    }

    /// Kills `c` and forgets its age.
    fn kill(&mut self, c: Cell)
        ensures
            final(self).alive() == old(self).alive().remove(c),
            final(self).ages() == old(self).ages().remove(c),
            final(self).spec_bounds() == old(self).spec_bounds(),
    {
        proof {
            use_type_invariant(&*self);
        }
        self.remove_cell(c);
        let mut ages = CellAges::new();
        std::mem::swap(&mut ages, &mut self.cell_age);
        ages.remove(c);
        self.cell_age = ages;
    }

    /// Brings `c` to life with age 0.
    fn spawn(&mut self, c: Cell)
        ensures
            final(self).alive() == old(self).alive().insert(c),
            final(self).ages() == old(self).ages().insert(c, 0),
            final(self).spec_bounds() == old(self).spec_bounds(),
    {
        proof {
            use_type_invariant(&*self);
        }
        self.insert_cell(c);
        let mut ages = CellAges::new();
        std::mem::swap(&mut ages, &mut self.cell_age);
        ages.insert(c, 0);
        self.cell_age = ages;
    }

    /// Appends `n` to `v` when a nuked group may grow into it.
    fn push_if_regrow(alive: &CellSet, orig: &CellSet, n: Cell, bounds: (i32, i32), v: &mut Vec<Cell>)
        ensures
            final(v)@ == (if regrow_free(alive@, orig@, bounds)(n) { old(v)@.push(n) } else { old(v)@ }),
    {
        if cell_in_bounds(n, bounds) && !alive.contains(n) && !orig.contains(n) {
            v.push(n);
        }
    }

    /// The neighbours of `pos`, in `neighbours8` order, that a nuked group with
    /// original cells `orig` may grow into.
    fn regrowth_candidates(alive: &CellSet, orig: &CellSet, pos: Cell, bounds: (i32, i32)) -> (v: Vec<Cell>)
        requires
            neighbors_representable(pos),
        ensures
            v@ == neighbours8(pos).filter(regrow_free(alive@, orig@, bounds)),
    {
        let (x, y) = pos;
        let mut v: Vec<Cell> = Vec::new();
        let ghost f = regrow_free(alive@, orig@, bounds);
        let ghost ns: Seq<Cell> = neighbours8(pos);
        Self::push_if_regrow(alive, orig, (x - 1, y - 1), bounds, &mut v);
        assert(v@ =~= ns.take(1).filter(f)) by { assert(ns.take(1) == Seq::<Cell>::empty().push(ns[0])); Seq::<Cell>::empty().lemma_filter_push(ns[0], f); assert(Seq::<Cell>::empty().filter(f) =~= Seq::<Cell>::empty()) by { reveal(Seq::filter); } }
        Self::push_if_regrow(alive, orig, (x - 1, y), bounds, &mut v);
        assert(v@ =~= ns.take(2).filter(f)) by { assert(ns.take(2) == ns.take(1).push(ns[1])); ns.take(1).lemma_filter_push(ns[1], f); }
        Self::push_if_regrow(alive, orig, (x - 1, y + 1), bounds, &mut v);
        assert(v@ =~= ns.take(3).filter(f)) by { assert(ns.take(3) == ns.take(2).push(ns[2])); ns.take(2).lemma_filter_push(ns[2], f); }
        Self::push_if_regrow(alive, orig, (x, y - 1), bounds, &mut v);
        assert(v@ =~= ns.take(4).filter(f)) by { assert(ns.take(4) == ns.take(3).push(ns[3])); ns.take(3).lemma_filter_push(ns[3], f); }
        Self::push_if_regrow(alive, orig, (x, y + 1), bounds, &mut v);
        assert(v@ =~= ns.take(5).filter(f)) by { assert(ns.take(5) == ns.take(4).push(ns[4])); ns.take(4).lemma_filter_push(ns[4], f); }
        Self::push_if_regrow(alive, orig, (x + 1, y - 1), bounds, &mut v);
        assert(v@ =~= ns.take(6).filter(f)) by { assert(ns.take(6) == ns.take(5).push(ns[5])); ns.take(5).lemma_filter_push(ns[5], f); }
        Self::push_if_regrow(alive, orig, (x + 1, y), bounds, &mut v);
        assert(v@ =~= ns.take(7).filter(f)) by { assert(ns.take(7) == ns.take(6).push(ns[6])); ns.take(6).lemma_filter_push(ns[6], f); }
        Self::push_if_regrow(alive, orig, (x + 1, y + 1), bounds, &mut v);
        assert(v@ =~= ns.take(8).filter(f)) by { assert(ns.take(8) == ns.take(7).push(ns[7])); ns.take(7).lemma_filter_push(ns[7], f); }
        assert(ns.take(8) =~= ns);
        v
    }

    /// Every way a nuked group may grow one cell (`regrowth_list`): for each
    /// cell of `rest` in turn, its neighbours that lie in the arena and that
    /// neither the colony nor `orig` holds.
    pub fn regrowth_choices(&self, orig: &CellSet, rest: &Vec<Cell>) -> (r: Vec<Cell>)
        requires
            forall|i: int| 0 <= i < rest@.len() ==> neighbors_representable(#[trigger] rest@[i]),
        ensures
            r@ == regrowth_list(self.alive(), orig@, rest@, self.spec_bounds()),
    {
        let ghost alive = self.alive();
        let ghost b = self.bounds;
        let mut acc: Vec<Cell> = Vec::new();
        let mut i: usize = 0;
        proof {
            assert(rest@.take(0) =~= Seq::<Cell>::empty());
        }
        while i < rest.len()
            invariant
                0 <= i <= rest@.len(),
                alive == self.alive(),
                b == self.bounds,
                forall|j: int| 0 <= j < rest@.len() ==> neighbors_representable(#[trigger] rest@[j]),
                acc@ == regrowth_list(alive, orig@, rest@.take(i as int), b),
            decreases rest@.len() - i,
        {
            let mut more = Self::regrowth_candidates(&self.alive_cells, orig, rest[i], self.bounds);
            acc.append(&mut more);
            proof {
                let t = rest@.take(i + 1);
                assert(t.drop_last() =~= rest@.take(i as int));
                assert(t.last() == rest@[i as int]);
            }
            i = i + 1;
        }
        assert(rest@.take(rest@.len() as int) =~= rest@);
        acc
    }

    /// Nukes one group: deletes `deletion_count` of its cells, each picked by
    /// one draw over the cells left, then grows up to five new cells next to
    /// its remaining ones. Each grown cell is one draw over every pairing of a
    /// remaining member with a direction that leads to a cell the group may grow
    /// into (`regrowth_list`), so every such pairing is equally likely, as when
    /// a random member and a random direction are tried until one fits; growth
    /// stops early only when no pairing is left. The result names the deleted
    /// cells and the grown cells.
    fn nuke_group(&mut self, group: Vec<Cell>, rng: &mut GameRng) -> (r: Ghost<(Set<Cell>, Set<Cell>)>)
        requires
            group@.len() > 0,
            group@.no_duplicates(),
            forall|i: int| 0 <= i < group@.len() ==> old(self).alive().contains(#[trigger] group@[i])
                && neighbors_representable(group@[i]),
        ensures
            ({
                let del = r@.0;
                let add = r@.1;
                let b = old(self).spec_bounds();
                let l = old(rng).draws().len() as int;
                &&& del.subset_of(group@.to_set())
                &&& del.finite()
                &&& del.len() == deletion_count(group@.len() as int)
                &&& add.finite()
                &&& add.len() <= NUKE_GROWTH
                &&& forall|c: Cell| #[trigger] add.contains(c) ==> in_bounds(c, b) && !old(self).alive().contains(c)
                    && !group@.contains(c) && exists|a: Cell| group@.contains(a) && !del.contains(a) && adjacent(a, c)
                &&& final(self).alive() == old(self).alive().difference(del).union(add)
                &&& forall|c: Cell| #[trigger] final(self).ages().contains_key(c) <==> (add.contains(c) || (
                    old(self).ages().contains_key(c) && !del.contains(c)))
                &&& forall|c: Cell| #[trigger] final(self).ages().contains_key(c) ==> final(self).ages()[c] == (if add.contains(c) {
                    0
                } else {
                    old(self).ages()[c]
                })
                &&& final(self).spec_bounds() == b
                &&& final(rng).draws().len() >= l
                &&& final(rng).draws().take(l) == old(rng).draws()
                &&& group_nuked(old(self).alive(), group@, final(rng).draws().skip(l), final(self).alive(), b)
            }),
    {
        let ghost orig = group@;
        let ghost s0 = self.alive();
        let ghost a0 = self.ages();
        let ghost b = self.bounds;
        let ghost r0 = rng.draws();
        let ghost l0 = r0.len() as int;
        let mut orig_set = CellSet::new();
        let mut i: usize = 0;
        while i < group.len()
            invariant
                0 <= i <= group@.len(),
                orig_set@ == group@.take(i as int).to_set(),
            decreases group@.len() - i,
        {
            orig_set.insert(group[i]);
            proof {
                assert(group@.take(i + 1) =~= group@.take(i as int).push(group@[i as int]));
                group@.take(i as int).lemma_push_to_set_commute(group@[i as int]);
            }
            i = i + 1;
        }
        assert(group@.take(group@.len() as int) =~= group@);
        let mut group = group;
        let ghost mut del: Set<Cell> = Set::empty();
        let delete_count: usize = if group.len() < NUKE_DELETIONS { group.len() } else { NUKE_DELETIONS };
        proof {
            assert(rng.draws().skip(l0) =~= Seq::<Draw>::empty());
            assert(rng.draws().take(l0) =~= r0);
        }
        let mut t: usize = 0;
        while t < delete_count
            invariant
                0 <= t <= delete_count,
                delete_count <= orig.len(),
                delete_count <= NUKE_DELETIONS,
                group@.len() + t == orig.len(),
                group@.no_duplicates(),
                forall|c: Cell| #[trigger] orig.contains(c) <==> (group@.contains(c) || del.contains(c)),
                forall|c: Cell| #[trigger] group@.contains(c) ==> !del.contains(c),
                del.finite(),
                del.len() == t,
                self.alive() == s0.difference(del),
                forall|c: Cell| #[trigger] self.ages().contains_key(c) <==> (a0.contains_key(c) && !del.contains(c)),
                forall|c: Cell| #[trigger] self.ages().contains_key(c) ==> self.ages()[c] == a0[c],
                self.spec_bounds() == b,
                l0 == r0.len(),
                rng.draws().len() == l0 + t,
                rng.draws().take(l0) == r0,
                group@ == delete_run(orig, rng.draws().skip(l0)),
                delete_fit(orig, rng.draws().skip(l0)),
            decreases delete_count - t,
        {
            let ghost dp = rng.draws();
            let idx = rng.index_below(group.len());
            let ghost before = group@;
            let removed = group.swap_remove(idx);
            self.kill(removed);
            proof {
                let d: Draw = (0, before.len() - 1, idx as int);
                lemma_log_push(dp, l0, d);
                let dd = dp.skip(l0);
                assert(dd.push(d).drop_last() =~= dd);
                assert(group@ == delete_run(orig, dd.push(d)));
                assert forall|q: int| #![trigger dd.push(d)[q]] 0 <= q < dd.push(d).len() implies {
                    let n = delete_run(orig, dd.push(d).take(q)).len();
                    &&& dd.push(d)[q].0 == 0
                    &&& dd.push(d)[q].1 == n - 1
                    &&& 0 <= dd.push(d)[q].2 < n
                } by {
                    if q < dd.len() {
                        assert(dd.push(d).take(q) =~= dd.take(q));
                        assert(dd.push(d)[q] == dd[q]);
                    } else {
                        assert(dd.push(d).take(q) =~= dd);
                    }
                }
                let last = before.len() - 1;
                assert(before.contains(removed));
                assert forall|c: Cell| before.contains(c) <==> (group@.contains(c) || c == removed) by {
                    if before.contains(c) {
                        let j = choose|j: int| 0 <= j < before.len() && before[j] == c;
                        if j == last && j != idx {
                            assert(group@[idx as int] == c);
                        } else if j != idx {
                            assert(group@[j] == c);
                        }
                    }
                    if group@.contains(c) {
                        let j = choose|j: int| 0 <= j < group@.len() && group@[j] == c;
                        if j == idx {
                            assert(before[last] == c);
                        } else {
                            assert(before[j] == c);
                        }
                    }
                }
                assert forall|p: int, q: int| 0 <= p < group@.len() && 0 <= q < group@.len() && p != q
                    implies group@[p] != group@[q] by {
                    let pp = if p == idx { last } else { p };
                    let qq = if q == idx { last } else { q };
                    assert(group@[p] == before[pp]);
                    assert(group@[q] == before[qq]);
                }
                assert(!group@.contains(removed)) by {
                    if group@.contains(removed) {
                        let j = choose|j: int| 0 <= j < group@.len() && group@[j] == removed;
                        let jj = if j == idx { last } else { j };
                        assert(before[jj] == removed);
                        assert(before[idx as int] == removed);
                    }
                }
                assert(!del.contains(removed));
                let old_del = del;
                del = del.insert(removed);
                assert forall|c: Cell| #[trigger] group@.contains(c) implies !del.contains(c) by {
                    assert(before.contains(c));
                    assert(!old_del.contains(c));
                }
                assert(self.alive() =~= s0.difference(del));
            }
            t = t + 1;
        }
        let ghost m = delete_count as int;
        let ghost d1 = rng.draws().skip(l0);
        let ghost rest = group@;
        let ghost mid = s0.difference(del);
        proof {
            assert(m == deletion_count(orig.len() as int));
            assert forall|c: Cell| del.contains(c) implies orig.to_set().contains(c) by {}
            assert(del =~= orig.to_set().difference(rest.to_set())) by {
                assert forall|c: Cell| del.contains(c) <==> orig.to_set().difference(rest.to_set()).contains(c) by {
                    if rest.to_set().contains(c) {
                        assert(rest.contains(c));
                    }
                    if orig.to_set().contains(c) && !rest.to_set().contains(c) {
                        assert(orig.contains(c));
                        if rest.contains(c) {
                            let q = choose|q: int| 0 <= q < rest.len() && rest[q] == c;
                            assert(rest.to_set().contains(rest[q]));
                        }
                    }
                }
            }
            assert(orig_set@ == orig.to_set());
            assert(rng.draws().skip(l0).take(m) =~= d1);
            assert(rng.draws().skip(l0).skip(m) =~= Seq::<Draw>::empty());
            assert(mid == regrow_run(mid, orig.to_set(), rest, Seq::<Draw>::empty(), b));
        }
        if group.len() == 0 {
            proof {
                assert(self.alive() =~= s0.difference(del).union(Set::empty()));
            }
            return Ghost((del, Set::empty()));
        }
        let ghost mut add: Set<Cell> = Set::empty();
        let mut added: usize = 0;
        while added < NUKE_GROWTH
            invariant
                group@.len() > 0,
                group@ == rest,
                rest.len() > 0,
                orig_set@ == orig.to_set(),
                m == deletion_count(orig.len() as int),
                add.finite(),
                add.len() == added,
                added <= NUKE_GROWTH,
                forall|c: Cell| #[trigger] group@.contains(c) ==> !del.contains(c) && orig.contains(c),
                forall|c: Cell| #[trigger] del.contains(c) ==> orig.contains(c),
                forall|i: int| 0 <= i < orig.len() ==> s0.contains(#[trigger] orig[i]) && neighbors_representable(orig[i]),
                mid == s0.difference(del),
                self.alive() == mid.union(add),
                forall|c: Cell| #[trigger] add.contains(c) ==> in_bounds(c, b) && !s0.contains(c)
                    && !orig.contains(c) && exists|a: Cell| group@.contains(a) && !del.contains(a) && adjacent(a, c),
                forall|c: Cell| #[trigger] self.ages().contains_key(c) <==> (add.contains(c) || (a0.contains_key(c)
                    && !del.contains(c))),
                forall|c: Cell| #[trigger] self.ages().contains_key(c) ==> self.ages()[c] == (if add.contains(c) {
                    0
                } else {
                    a0[c]
                }),
                self.spec_bounds() == b,
                l0 == r0.len(),
                rng.draws().len() == l0 + m + added,
                rng.draws().take(l0) == r0,
                rng.draws().skip(l0).take(m) == d1,
                self.alive() == regrow_run(mid, orig.to_set(), rest, rng.draws().skip(l0).skip(m), b),
                forall|q: int| #![trigger rng.draws().skip(l0).skip(m)[q]] 0 <= q < rng.draws().skip(l0).skip(m).len() ==> {
                    let e = rng.draws().skip(l0).skip(m);
                    let n = regrowth_list(regrow_run(mid, orig.to_set(), rest, e.take(q), b), orig.to_set(), rest, b).len();
                    &&& e[q].0 == 0
                    &&& e[q].1 == n - 1
                    &&& 0 <= e[q].2 < n
                },
            ensures
                added < NUKE_GROWTH ==> regrowth_list(self.alive(), orig.to_set(), rest, b).len() == 0,
            decreases NUKE_GROWTH - added,
        {
            proof {
                assert forall|i: int| 0 <= i < group@.len() implies neighbors_representable(#[trigger] group@[i]) by {
                    assert(group@.contains(group@[i]));
                    assert(orig.contains(group@[i]));
                    let j = choose|j: int| 0 <= j < orig.len() && orig[j] == group@[i];
                    assert(neighbors_representable(orig[j]));
                }
            }
            let options = self.regrowth_choices(&orig_set, &group);
            if options.len() == 0 {
                break;
            }
            let ghost dp = rng.draws();
            let ghost prev = self.alive();
            let k = rng.index_below(options.len());
            let c = options[k];
            proof {
                assert(options@.contains(c));
                lemma_regrowth_list_contains(prev, orig.to_set(), rest, b, c);
                assert(!orig.contains(c)) by {
                    if orig.contains(c) {
                        assert(orig.to_set().contains(c));
                    }
                }
                assert(!add.contains(c));
                assert(!s0.contains(c)) by {
                    if s0.contains(c) {
                        assert(!mid.contains(c));
                        assert(del.contains(c));
                        assert(orig.contains(c));
                    }
                }
            }
            self.spawn(c);
            proof {
                let d: Draw = (0, options.len() - 1, k as int);
                lemma_log_push(dp, l0, d);
                let e0 = dp.skip(l0);
                assert(e0.len() >= m);
                lemma_log_push(e0, m, d);
                let e = e0.skip(m);
                assert(rng.draws().skip(l0).skip(m) == e.push(d));
                assert(e.push(d).drop_last() =~= e);
                add = add.insert(c);
                assert(self.alive() =~= mid.union(add));
                assert(self.alive() == regrow_run(mid, orig.to_set(), rest, e.push(d), b));
                assert forall|q: int| #![trigger e.push(d)[q]] 0 <= q < e.push(d).len() implies {
                    let n = regrowth_list(regrow_run(mid, orig.to_set(), rest, e.push(d).take(q), b), orig.to_set(), rest, b).len();
                    &&& e.push(d)[q].0 == 0
                    &&& e.push(d)[q].1 == n - 1
                    &&& 0 <= e.push(d)[q].2 < n
                } by {
                    if q < e.len() {
                        assert(e.push(d).take(q) =~= e.take(q));
                        assert(e.push(d)[q] == e[q]);
                    } else {
                        assert(e.push(d).take(q) =~= e);
                    }
                }
                let a = choose|a: Cell| rest.contains(a) && adjacent(a, c);
                assert(group@.contains(a));
            }
            added = added + 1;
        }
        proof {
            let all = rng.draws().skip(l0);
            assert(all.take(m) == d1);
            assert(delete_fit(orig, all.take(m)));
            assert(delete_run(orig, all.take(m)) == rest);
        }
        Ghost((del, add))
    }

    /// Nukes the colony: group by group, each group of live cells loses three
    /// cells picked at random (all of them, when it has fewer), then grows five
    /// random new cells next to its remaining ones (fewer only when there is no
    /// more room), each from an equally likely pairing of a remaining member and
    /// a direction; `group_nuked` gives the exact outcome of the draws.
    pub fn nuke(&mut self, rng: &mut GameRng)
        requires
            forall|c: Cell| #[trigger] old(self).alive().contains(c) ==> neighbors_representable(c),
        ensures
            final(self).spec_bounds() == old(self).spec_bounds(),
            ({
                let s = old(self).alive();
                let s2 = final(self).alive();
                let b = old(self).spec_bounds();
                &&& forall|c: Cell| #[trigger] s2.contains(c) && !s.contains(c) ==> in_bounds(c, b)
                    && final(self).ages().contains_key(c) && final(self).ages()[c] == 0
                    && exists|a: Cell| s.contains(a) && s2.contains(a) && adjacent(a, c)
                &&& forall|c: Cell| #[trigger] s.contains(c) && !s2.contains(c) ==> !final(self).ages().contains_key(c)
                &&& forall|c: Cell| #[trigger] final(self).ages().contains_key(c) ==> final(self).ages()[c] == 0 || (
                    old(self).ages().contains_key(c) && final(self).ages()[c] == old(self).ages()[c])
                &&& forall|c: Cell| #[trigger] old(self).ages().contains_key(c) && !(s.contains(c) && !s2.contains(c))
                    ==> final(self).ages().contains_key(c)
                &&& forall|g: Seq<Cell>| #[trigger] is_group(s, g) ==> g.to_set().difference(s2).len() == deletion_count(
                    g.len() as int,
                )
                &&& exists|gs: Seq<Seq<Cell>>| #[trigger] splits_into_groups(s, gs) && s2.difference(s).finite()
                    && s2.difference(s).len() <= NUKE_GROWTH * gs.len()
                &&& final(rng).draws().len() >= old(rng).draws().len()
                &&& final(rng).draws().take(old(rng).draws().len() as int) == old(rng).draws()
                &&& exists|gs: Seq<Seq<Cell>>, chunks: Seq<Seq<Draw>>, states: Seq<Set<Cell>>|
                    #![trigger splits_into_groups(s, gs), chunks.flatten_alt(), states.len()]
                    splits_into_groups(s, gs) && chunks.len() == gs.len() && states.len() == gs.len() + 1
                    && states[0] == s && states[gs.len() as int] == s2
                    && chunks.flatten_alt() == final(rng).draws().skip(old(rng).draws().len() as int)
                    && forall|j: int| 0 <= j < gs.len() ==> group_nuked(states[j], #[trigger] gs[j], chunks[j], states[j + 1], b)
            }),
    {
        let ghost s0 = self.alive();
        let ghost a0 = self.ages();
        let ghost b = self.bounds;
        proof {
            assert forall|c: Cell| #[trigger] s0.contains(c) implies neighbors_representable(c) by {
                
            }
        }
        let groups = self.find_groups();
        let ghost gs = seqs_of(groups@);
        let ghost mut dd: Set<Cell> = Set::empty();
        let ghost mut aa: Set<Cell> = Set::empty();
        let ghost mut dels: Seq<Set<Cell>> = Seq::empty();
        let ghost r0 = rng.draws();
        let ghost l0 = r0.len() as int;
        let ghost mut chunks: Seq<Seq<Draw>> = Seq::empty();
        let ghost mut states: Seq<Set<Cell>> = seq![s0];
        proof {
            assert(rng.draws().skip(l0) =~= Seq::<Draw>::empty());
            assert(rng.draws().take(l0) =~= r0);
            assert(chunks.flatten_alt() =~= Seq::<Draw>::empty());
        }
        let mut k: usize = 0;
        while k < groups.len()
            invariant
                l0 == r0.len(),
                rng.draws().len() >= l0,
                rng.draws().take(l0) == r0,
                chunks.len() == k,
                states.len() == k + 1,
                states[0] == s0,
                states[k as int] == self.alive(),
                chunks.flatten_alt() == rng.draws().skip(l0),
                forall|j: int| 0 <= j < k ==> group_nuked(states[j], #[trigger] gs[j], chunks[j], states[j + 1], b),
                0 <= k <= groups@.len(),
                gs == seqs_of(groups@),
                gs.len() == groups@.len(),
                splits_into_groups(s0, gs),
                forall|c: Cell| #[trigger] s0.contains(c) ==> neighbors_representable(c),
                self.alive() == s0.difference(dd).union(aa),
                aa.finite(),
                aa.len() <= NUKE_GROWTH * k,
                forall|j: int, c: Cell| k <= j < gs.len() && #[trigger] gs[j].contains(c) ==> !dd.contains(c)
                    && !aa.contains(c),
                dels.len() == k,
                forall|j: int| 0 <= j < k ==> (#[trigger] dels[j]).subset_of(gs[j].to_set()) && dels[j].finite()
                    && dels[j].len() == deletion_count(gs[j].len() as int),
                forall|c: Cell| #[trigger] aa.contains(c) ==> !s0.contains(c),
                forall|c: Cell| #[trigger] dd.contains(c) <==> exists|j: int| 0 <= j < k && #[trigger] dels[j].contains(c),
                forall|c: Cell| #[trigger] aa.contains(c) ==> in_bounds(c, b) && exists|a: Cell|
                    adjacent(a, c) && !dd.contains(a) && exists|j: int| 0 <= j < k && #[trigger] gs[j].contains(a),
                forall|c: Cell| #[trigger] self.ages().contains_key(c) <==> (aa.contains(c) || (a0.contains_key(c)
                    && !dd.contains(c))),
                forall|c: Cell| #[trigger] self.ages().contains_key(c) ==> self.ages()[c] == (if aa.contains(c) {
                    0
                } else {
                    a0[c]
                }),
                self.spec_bounds() == b,
            decreases groups@.len() - k,
        {
            let group = copy_cells(&groups[k]);
            let ghost g = gs[k as int];
            proof {
                assert(g == groups@[k as int]@);
                assert(is_group(s0, g));
                assert forall|i: int| 0 <= i < group@.len() implies self.alive().contains(#[trigger] group@[i])
                    && neighbors_representable(group@[i]) by {
                    assert(g.contains(g[i]));
                }
            }
            let ghost dp = rng.draws();
            let ghost st = self.alive();
            let r = self.nuke_group(group, rng);
            proof {
                let c = rng.draws().skip(dp.len() as int);
                lemma_log_extend(dp, rng.draws(), l0);
                let old_chunks = chunks;
                let old_states = states;
                chunks = chunks.push(c);
                states = states.push(self.alive());
                assert(chunks.drop_last() =~= old_chunks);
                assert(chunks.flatten_alt() == old_chunks.flatten_alt() + c);
                assert forall|j: int| 0 <= j < k + 1 implies group_nuked(states[j], #[trigger] gs[j], chunks[j], states[j + 1], b) by {
                    if j < k {
                        assert(states[j] == old_states[j] && states[j + 1] == old_states[j + 1] && chunks[j] == old_chunks[j]);
                    } else {
                        assert(states[j] == st);
                        assert(chunks[j] == c);
                        assert(gs[j] == group@);
                    }
                }
                let del = r@.0;
                let add = r@.1;
                assert forall|c: Cell| del.contains(c) implies g.contains(c) by {
                    assert(g.to_set().contains(c));
                }
                assert forall|c: Cell| #[trigger] aa.contains(c) implies !del.contains(c) by {
                    if del.contains(c) {
                        assert(g.contains(c));
                    }
                }
                let old_dd = dd;
                let old_aa = aa;
                let old_dels = dels;
                dd = dd.union(del);
                vstd::set_lib::lemma_len_union(aa, add);
                aa = aa.union(add);
                dels = dels.push(del);
                assert(self.alive() =~= s0.difference(dd).union(aa));
                assert forall|j: int, c: Cell| k + 1 <= j < gs.len() && #[trigger] gs[j].contains(c) implies !dd.contains(c)
                    && !aa.contains(c) by {
                    assert(!old_dd.contains(c) && !old_aa.contains(c));
                    if del.contains(c) {
                        assert(g.contains(c));
                        assert(gs[k as int].contains(c));
                    }
                    if add.contains(c) {
                        assert(!(s0.difference(old_dd).union(old_aa).contains(c) && !del.contains(c)));
                        let t = choose|t: int| 0 <= t < gs[j].len() && gs[j][t] == c;
                        assert(s0.contains(c));
                        if del.contains(c) {
                            assert(gs[k as int].contains(c));
                        }
                    }
                }
                assert forall|x: Cell| #[trigger] aa.contains(x) implies !s0.contains(x) by {
                    if add.contains(x) && s0.contains(x) {
                        assert(!st.contains(x));
                        assert(old_dd.contains(x));
                        let j2 = choose|j2: int| 0 <= j2 < k && #[trigger] old_dels[j2].contains(x);
                        assert(gs[j2].to_set().contains(x));
                        let a = choose|a: Cell| group@.contains(a) && !del.contains(a) && adjacent(a, x);
                        let i = choose|i: int| 0 <= i < g.len() && g[i] == a;
                        assert(is_group(s0, gs[k as int]));
                        assert(adjacent(gs[k as int][i], x) && s0.contains(x));
                        assert(gs[k as int].contains(x));
                        assert(gs[j2].contains(x));
                    }
                }
                assert forall|j: int| 0 <= j < k + 1 implies (#[trigger] dels[j]).subset_of(gs[j].to_set())
                    && dels[j].finite() && dels[j].len() == deletion_count(gs[j].len() as int) by {
                    if j < k {
                        assert(dels[j] == old_dels[j]);
                    } else {
                        assert(dels[j] == del);
                        assert forall|c: Cell| del.contains(c) implies gs[j].to_set().contains(c) by {
                            assert(g.contains(c));
                        }
                    }
                }
                assert forall|c: Cell| #[trigger] dd.contains(c) <==> exists|j: int| 0 <= j < k + 1 && #[trigger] dels[j].contains(c) by {
                    if old_dd.contains(c) {
                        let j = choose|j: int| 0 <= j < k && #[trigger] old_dels[j].contains(c);
                        assert(dels[j] == old_dels[j]);
                    }
                    if del.contains(c) {
                        assert(dels[k as int] == del);
                    }
                    if exists|j: int| 0 <= j < k + 1 && #[trigger] dels[j].contains(c) {
                        let j = choose|j: int| 0 <= j < k + 1 && #[trigger] dels[j].contains(c);
                        if j < k {
                            assert(dels[j] == old_dels[j]);
                        }
                    }
                }
                assert forall|c: Cell| #[trigger] aa.contains(c) implies in_bounds(c, b) && exists|a: Cell|
                    adjacent(a, c) && !dd.contains(a) && exists|j: int| 0 <= j < k + 1 && #[trigger] gs[j].contains(a) by {
                    if old_aa.contains(c) {
                        let a = choose|a: Cell| adjacent(a, c) && !old_dd.contains(a) && exists|j: int| 0 <= j < k && #[trigger] gs[j].contains(a);
                        let j = choose|j: int| 0 <= j < k && #[trigger] gs[j].contains(a);
                        if del.contains(a) {
                            assert(gs[k as int].contains(a));
                        }
                        assert(gs[j].contains(a));
                    } else {
                        let a = choose|a: Cell| group@.contains(a) && !del.contains(a) && adjacent(a, c);
                        assert(gs[k as int].contains(a));
                        assert(!old_dd.contains(a));
                    }
                }
            }
            k = k + 1;
        }
        proof {
            assert(splits_into_groups(s0, gs) && chunks.len() == gs.len() && states.len() == gs.len() + 1
                && states[0] == s0 && states[gs.len() as int] == self.alive()
                && chunks.flatten_alt() == rng.draws().skip(l0)
                && forall|j: int| 0 <= j < gs.len() ==> group_nuked(states[j], #[trigger] gs[j], chunks[j], states[j + 1], b));
        }
        proof {
            let s2 = self.alive();
            assert forall|c: Cell| #[trigger] s2.contains(c) && !s0.contains(c) implies in_bounds(c, b)
                && self.ages().contains_key(c) && self.ages()[c] == 0
                && exists|a: Cell| s0.contains(a) && s2.contains(a) && adjacent(a, c) by {
                assert(aa.contains(c));
                let a = choose|a: Cell| adjacent(a, c) && !dd.contains(a) && exists|j: int| 0 <= j < k && #[trigger] gs[j].contains(a);
                let j = choose|j: int| 0 <= j < k && #[trigger] gs[j].contains(a);
                assert(is_group(s0, gs[j]));
                assert(s0.contains(a));
                assert(s2.contains(a));
            }
            assert(s2.difference(s0).subset_of(aa));
            vstd::set_lib::lemma_len_subset(s2.difference(s0), aa);
            assert(splits_into_groups(s0, gs));
            assert forall|g: Seq<Cell>| #[trigger] is_group(s0, g) implies g.to_set().difference(s2).len() == deletion_count(
                g.len() as int,
            ) by {
                let c = g[0];
                assert(g.contains(c));
                assert(s0.contains(c));
                let j = choose|j: int| 0 <= j < gs.len() && #[trigger] gs[j].contains(c);
                assert(is_group(s0, gs[j]));
                lemma_groups_share_all(s0, g, gs[j], c);
                let lost = g.to_set().difference(s2);
                assert forall|x: Cell| lost.contains(x) <==> dels[j].contains(x) by {
                    if lost.contains(x) {
                        assert(gs[j].to_set().contains(x));
                        let t = choose|t: int| 0 <= t < gs[j].len() && gs[j][t] == x;
                        assert(s0.contains(gs[j][t]));
                        assert(dd.contains(x));
                        let j2 = choose|j2: int| 0 <= j2 < k && #[trigger] dels[j2].contains(x);
                        assert(gs[j2].to_set().contains(x));
                        assert(gs[j2].contains(x));
                        assert(gs[j].contains(x));
                    }
                    if dels[j].contains(x) {
                        assert(gs[j].to_set().contains(x));
                        let t = choose|t: int| 0 <= t < gs[j].len() && gs[j][t] == x;
                        assert(s0.contains(gs[j][t]));
                        assert(dd.contains(x));
                        assert(!aa.contains(x));
                    }
                }
                assert(lost =~= dels[j]);
                g.unique_seq_to_set();
                gs[j].unique_seq_to_set();
            }
        }
    }

    /// Whether the colony has reached the swarm limit: at least `limit` live cells.
    pub fn swarm_limit_reached(&self, limit: usize) -> (b: bool)
        ensures
            b == (self.alive().len() >= limit),
    {
        self.cell_count() >= limit
    }

    /// How to bring the cells on display in line with the colony, given the
    /// positions `existing` of the displayed cells: the indices, in increasing
    /// order, of the displayed cells that are no longer alive, and the live cells
    /// that are not displayed, each once.
    pub fn sync_plan(&self, existing: &Vec<Cell>) -> (r: (Vec<usize>, Vec<Cell>))
        ensures
            forall|t: int| 0 <= t < r.0@.len() ==> (#[trigger] r.0@[t]) < existing@.len() && !self.alive().contains(
                existing@[r.0@[t] as int],
            ),
            forall|t: int, u: int| 0 <= t < u < r.0@.len() ==> r.0@[t] < r.0@[u],
            forall|i: int| 0 <= i < existing@.len() && !self.alive().contains(#[trigger] existing@[i]) ==> r.0@.contains(
                i as usize,
            ),
            r.1@.no_duplicates(),
            forall|c: Cell| #[trigger] r.1@.contains(c) <==> self.alive().contains(c) && !existing@.contains(c),
    {
        let mut stale: Vec<usize> = Vec::new();
        let mut shown = CellSet::new();
        let mut i: usize = 0;
        while i < existing.len()
            invariant
                0 <= i <= existing@.len(),
                forall|t: int| 0 <= t < stale@.len() ==> (#[trigger] stale@[t]) < i && !self.alive().contains(
                    existing@[stale@[t] as int],
                ),
                forall|t: int, u: int| 0 <= t < u < stale@.len() ==> stale@[t] < stale@[u],
                forall|j: int| 0 <= j < i && !self.alive().contains(#[trigger] existing@[j]) ==> stale@.contains(j as usize),
                shown@ == existing@.take(i as int).to_set(),
            decreases existing@.len() - i,
        {
            let c = existing[i];
            let ghost before = stale@;
            if !self.is_alive(c) {
                stale.push(i);
                proof {
                    assert(stale@[before.len() as int] == i);
                }
            }
            shown.insert(c);
            proof {
                assert(existing@.take(i + 1) =~= existing@.take(i as int).push(c));
                existing@.take(i as int).lemma_push_to_set_commute(c);
                assert forall|j: int| 0 <= j < i + 1 && !self.alive().contains(#[trigger] existing@[j]) implies stale@.contains(
                    j as usize,
                ) by {
                    if j < i {
                        let t = choose|t: int| 0 <= t < before.len() && before[t] == j as usize;
                        assert(stale@[t] == j as usize);
                    }
                }
            }
            i = i + 1;
        }
        assert(existing@.take(existing@.len() as int) =~= existing@);
        let cells = self.alive_cells.as_vec();
        let mut missing: Vec<Cell> = Vec::new();
        let mut k: usize = 0;
        while k < cells.len()
            invariant
                0 <= k <= cells@.len(),
                cells@.no_duplicates(),
                cells@.to_set() == self.alive(),
                shown@ == existing@.to_set(),
                missing@.no_duplicates(),
                forall|c: Cell| #[trigger] missing@.contains(c) <==> cells@.take(k as int).contains(c)
                    && !existing@.contains(c),
            decreases cells@.len() - k,
        {
            let c = cells[k];
            let ghost before = missing@;
            proof {
                assert(!cells@.take(k as int).contains(c)) by {
                    if cells@.take(k as int).contains(c) {
                        let j = choose|j: int| 0 <= j < k && #[trigger] cells@.take(k as int)[j] == c;
                        assert(cells@[j] == cells@[k as int]);
                    }
                }
            }
            assert(shown@.contains(c) == existing@.contains(c));
            if !shown.contains(c) {
                missing.push(c);
                proof {
                    assert forall|p: int, q: int| 0 <= p < missing@.len() && 0 <= q < missing@.len() && p != q
                        implies missing@[p] != missing@[q] by {
                        if p == before.len() {
                            assert(before.contains(missing@[q]));
                        } else if q == before.len() {
                            assert(before.contains(missing@[p]));
                        }
                    }
                }
            }
            proof {
                assert(missing@ == (if !existing@.contains(c) { before.push(c) } else { before }));
                assert(cells@.take(k + 1) =~= cells@.take(k as int).push(c));
                cells@.take(k as int).lemma_push_to_set_commute(c);
                before.lemma_push_to_set_commute(c);
                assert forall|x: Cell| #[trigger] missing@.contains(x) <==> cells@.take(k + 1).contains(x)
                    && !existing@.contains(x) by {
                    assert(cells@.take(k + 1).to_set().contains(x) == cells@.take(k + 1).contains(x));
                    assert(before.push(c).to_set().contains(x) == before.push(c).contains(x));
                }
            }
            k = k + 1;
        }
        assert(cells@.take(cells@.len() as int) =~= cells@);
        (stale, missing)
    }
}

} // verus!
