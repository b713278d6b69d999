//! Grid cells, finite sets of cells, and per-cell ages.
use vstd::prelude::*;

verus! {

/// A grid position `(x, y)`.
pub type Cell = (i32, i32);

/// `b` is 8-adjacent to `a`: a different cell at most one step away on each axis.
pub open spec fn adjacent(a: Cell, b: Cell) -> bool {
    &&& a != b
    &&& -1 <= a.0 - b.0 <= 1
    &&& -1 <= a.1 - b.1 <= 1
}

/// `b` shares an edge with `a`: one step away along exactly one axis.
pub open spec fn edge_adjacent(a: Cell, b: Cell) -> bool {
    ||| a.0 == b.0 && (a.1 - b.1 == 1 || b.1 - a.1 == 1)
    ||| a.1 == b.1 && (a.0 - b.0 == 1 || b.0 - a.0 == 1)
}

/// `c` lies in the rectangle `|x| <= bounds.0`, `|y| <= bounds.1`.
pub open spec fn in_bounds(c: Cell, bounds: (i32, i32)) -> bool {
    &&& -bounds.0 <= c.0 <= bounds.0
    &&& -bounds.1 <= c.1 <= bounds.1
}

/// `c` and its eight neighbours are representable, and no neighbour coordinate
/// is `i32::MIN`, so its absolute value exists.
pub open spec fn interior(c: Cell) -> bool {
    &&& i32::MIN + 1 < c.0 < i32::MAX
    &&& i32::MIN + 1 < c.1 < i32::MAX
}

/// 1 if the integer position `(x, y)` is representable as a cell and lies in `s`, else 0.
pub open spec fn alive_at(s: Set<Cell>, x: int, y: int) -> int {
    if i32::MIN <= x <= i32::MAX && i32::MIN <= y <= i32::MAX && s.contains((x as i32, y as i32)) {
        1
    } else {
        0
    }
}

/// How many of the eight neighbours of `c` lie in `s`.
pub open spec fn neighbor_count(s: Set<Cell>, c: Cell) -> int {
    alive_at(s, c.0 - 1, c.1 - 1) + alive_at(s, c.0 - 1, c.1 + 0) + alive_at(s, c.0 - 1, c.1 + 1)
        + alive_at(s, c.0 + 0, c.1 - 1) + alive_at(s, c.0 + 0, c.1 + 1)
        + alive_at(s, c.0 + 1, c.1 - 1) + alive_at(s, c.0 + 1, c.1 + 0)
        + alive_at(s, c.0 + 1, c.1 + 1)
}

/// The eight neighbours of `c` are representable.
pub open spec fn neighbors_representable(c: Cell) -> bool {
    &&& i32::MIN < c.0 < i32::MAX
    &&& i32::MIN < c.1 < i32::MAX
}

/// Every cell of `s` is interior.
pub open spec fn all_interior(s: Set<Cell>) -> bool {
    forall|c: Cell| #[trigger] s.contains(c) ==> interior(c)
}

/// Whether `c` lies in the rectangle `|x| <= bounds.0`, `|y| <= bounds.1`.
pub fn cell_in_bounds(c: Cell, bounds: (i32, i32)) -> (r: bool)
    ensures
        r == in_bounds(c, bounds),
{
    let x = c.0 as i64;
    let y = c.1 as i64;
    let bw = bounds.0 as i64;
    let bh = bounds.1 as i64;
    -bw <= x && x <= bw && -bh <= y && y <= bh
}

/// Whether two cells are the same position.
pub fn same_cell(a: Cell, b: Cell) -> (r: bool)
    ensures
        r == (a == b),
{
    a.0 == b.0 && a.1 == b.1
}

/// `a` comes before `b` in lexicographic order: by `x`, then by `y`.
pub open spec fn cell_lt(a: Cell, b: Cell) -> bool {
    a.0 < b.0 || (a.0 == b.0 && a.1 < b.1)
}

/// The cells of `s` are in strictly increasing lexicographic order.
pub open spec fn strictly_sorted(s: Seq<Cell>) -> bool {
    forall|p: int, q: int| 0 <= p < q < s.len() ==> cell_lt(#[trigger] s[p], #[trigger] s[q])
}

/// The cells of the finite set `s` in increasing lexicographic order.
pub open spec fn sorted_of(s: Set<Cell>) -> Seq<Cell> {
    choose|q: Seq<Cell>| strictly_sorted(q) && q.to_set() == s
}

/// Two strictly sorted sequences holding the same cells are equal.
pub proof fn lemma_sorted_unique(a: Seq<Cell>, b: Seq<Cell>)
    requires
        strictly_sorted(a),
        strictly_sorted(b),
        a.to_set() == b.to_set(),
    ensures
        a == b,
    decreases a.len(),
{
    if a.len() == 0 {
        if b.len() > 0 {
            assert(b.to_set().contains(b[0]));
        }
        assert(a =~= b);
    } else {
        assert(a.to_set().contains(a[0]));
        if b.len() == 0 {
            assert(b.to_set().contains(a[0]));
        }
        assert(b.to_set().contains(b[0]));
        let j = choose|j: int| 0 <= j < b.len() && b[j] == a[0];
        let i = choose|i: int| 0 <= i < a.len() && a[i] == b[0];
        if j > 0 {
            assert(cell_lt(b[0], b[j]));
            if i > 0 {
                assert(cell_lt(a[0], a[i]));
            }
        }
        assert(a[0] == b[0]);
        let a1 = a.drop_first();
        let b1 = b.drop_first();
        assert forall|p: int, q: int| 0 <= p < q < a1.len() implies cell_lt(#[trigger] a1[p], #[trigger] a1[q]) by {
            assert(a1[p] == a[p + 1] && a1[q] == a[q + 1]);
        }
        assert forall|p: int, q: int| 0 <= p < q < b1.len() implies cell_lt(#[trigger] b1[p], #[trigger] b1[q]) by {
            assert(b1[p] == b[p + 1] && b1[q] == b[q + 1]);
        }
        assert forall|x: Cell| a1.to_set().contains(x) <==> b1.to_set().contains(x) by {
            if a1.to_set().contains(x) {
                let p = choose|p: int| 0 <= p < a1.len() && a1[p] == x;
                assert(cell_lt(a[0], a[p + 1]));
                assert(a.to_set().contains(x));
                let q = choose|q: int| 0 <= q < b.len() && b[q] == x;
                assert(q != 0);
                assert(b1[q - 1] == x);
            }
            if b1.to_set().contains(x) {
                let p = choose|p: int| 0 <= p < b1.len() && b1[p] == x;
                assert(cell_lt(b[0], b[p + 1]));
                assert(b.to_set().contains(x));
                let q = choose|q: int| 0 <= q < a.len() && a[q] == x;
                assert(q != 0);
                assert(a1[q - 1] == x);
            }
        }
        assert(a1.to_set() =~= b1.to_set());
        lemma_sorted_unique(a1, b1);
        assert(a =~= b) by {
            assert forall|k: int| 0 <= k < a.len() implies a[k] == b[k] by {
                if k > 0 {
                    assert(a[k] == a1[k - 1]);
                    assert(b[k] == b1[k - 1]);
                }
            }
        }
    }
}

/// A strictly sorted sequence is the sorted listing of its cells.
pub proof fn lemma_is_sorted_of(q: Seq<Cell>)
    requires
        strictly_sorted(q),
    ensures
        sorted_of(q.to_set()) == q,
{
    let r = sorted_of(q.to_set());
    assert(strictly_sorted(r) && r.to_set() == q.to_set());
    lemma_sorted_unique(r, q);
}

/// Whether `a` comes before `b` in lexicographic order.
fn cell_less(a: Cell, b: Cell) -> (r: bool)
    ensures
        r == cell_lt(a, b),
{
    a.0 < b.0 || (a.0 == b.0 && a.1 < b.1)
}

/// The distinct cells of `v` in increasing lexicographic order.
pub fn sorted_cells(v: &Vec<Cell>) -> (r: Vec<Cell>)
    requires
        v@.no_duplicates(),
    ensures
        r@.len() == v@.len(),
        r@.no_duplicates(),
        r@.to_set() == v@.to_set(),
        strictly_sorted(r@),
{
    let mut r: Vec<Cell> = Vec::new();
    let mut k: usize = 0;
    while k < v.len()
        invariant
            0 <= k <= v@.len(),
            r@ == v@.take(k as int),
        decreases v@.len() - k,
    {
        r.push(v[k]);
        assert(v@.take(k + 1) =~= v@.take(k as int).push(v@[k as int]));
        k = k + 1;
    }
    assert(v@.take(v@.len() as int) =~= v@);
    let n = r.len();
    if n == 0 {
        return r;
    }
    let mut i: usize = 1;
    while i < n
        invariant
            1 <= i <= n,
            n == r@.len(),
            n == v@.len(),
            r@.no_duplicates(),
            r@.to_set() == v@.to_set(),
            forall|p: int, q: int| 0 <= p < q < i ==> cell_lt(#[trigger] r@[p], #[trigger] r@[q]),
        decreases n - i,
    {
        let mut j: usize = i;
        while j > 0 && cell_less(r[j], r[j - 1])
            invariant
                0 <= j <= i < n,
                n == r@.len(),
                r@.no_duplicates(),
                r@.to_set() == v@.to_set(),
                forall|p: int, q: int| 0 <= p < q <= i && p != j && q != j ==> cell_lt(#[trigger] r@[p], #[trigger] r@[q]),
                forall|q: int| j < q <= i ==> cell_lt(r@[j as int], #[trigger] r@[q]),
            decreases j,
        {
            let ghost before = r@;
            let a = r[j - 1];
            let b = r[j];
            r.set(j - 1, b);
            r.set(j, a);
            proof {
                assert(r@ =~= before.update(j - 1, b).update(j as int, a));
                assert forall|p: int, q: int| 0 <= p < r@.len() && 0 <= q < r@.len() && p != q implies r@[p] != r@[q] by {
                    let pp = if p == j - 1 { j as int } else if p == j { j - 1 } else { p };
                    let qq = if q == j - 1 { j as int } else if q == j { j - 1 } else { q };
                    assert(r@[p] == before[pp]);
                    assert(r@[q] == before[qq]);
                }
                assert forall|x: Cell| r@.contains(x) <==> before.contains(x) by {
                    if r@.contains(x) {
                        let p = choose|p: int| 0 <= p < r@.len() && r@[p] == x;
                        let pp = if p == j - 1 { j as int } else if p == j { j - 1 } else { p };
                        assert(before[pp] == x);
                    }
                    if before.contains(x) {
                        let p = choose|p: int| 0 <= p < before.len() && before[p] == x;
                        let pp = if p == j - 1 { j as int } else if p == j { j - 1 } else { p };
                        assert(r@[pp] == x);
                    }
                }
                assert(r@.to_set() =~= before.to_set());
                assert forall|p: int, q: int| 0 <= p < q <= i && p != j - 1 && q != j - 1 implies cell_lt(
                    #[trigger] r@[p],
                    #[trigger] r@[q],
                ) by {
                    let pp = if p == j { j - 1 } else { p };
                    let qq = if q == j { j - 1 } else { q };
                    assert(r@[p] == before[pp]);
                    assert(r@[q] == before[qq]);
                }
                assert forall|q: int| j - 1 < q <= i implies cell_lt(r@[j - 1], #[trigger] r@[q]) by {
                    if q == j {
                        assert(r@[q] == before[j - 1]);
                    } else {
                        assert(r@[q] == before[q]);
                    }
                }
            }
            j = j - 1;
        }
        proof {
            assert forall|p: int, q: int| 0 <= p < q < i + 1 implies cell_lt(#[trigger] r@[p], #[trigger] r@[q]) by {
                if q == j {
                    if p < j - 1 {
                        assert(cell_lt(r@[p], r@[j - 1]));
                    }
                    assert(r@[j - 1] != r@[j as int]);
                } else if p == j {
                } else {
                }
            }
        }
        i = i + 1;
    }
    r
}

/// A finite set of cells, kept as a list without repetitions.
pub struct CellSet {
    cells: Vec<Cell>,
}

impl View for CellSet {
    type V = Set<Cell>;

    closed spec fn view(&self) -> Set<Cell> {
        self.cells@.to_set()
    }
}

impl CellSet {
    #[verifier::type_invariant]
    spec fn unique(&self) -> bool {
        self.cells@.no_duplicates()
    }

    /// The set is finite.
    pub proof fn lemma_finite(&self)
        ensures
            self@.finite(),
    {
        vstd::seq_lib::seq_to_set_is_finite(self.cells@);
    }

    /// The empty set.
    pub fn new() -> (s: CellSet)
        ensures
            s@ == Set::<Cell>::empty(),
    {
        let s = CellSet { cells: Vec::new() };
        assert(s@ =~= Set::<Cell>::empty());
        s
    }

    /// The cells in the order they are kept, each once.
    pub fn as_vec(&self) -> (v: &Vec<Cell>)
        ensures
            v@.no_duplicates(),
            v@.to_set() == self@,
    {
        proof {
            use_type_invariant(self);
        }
        &self.cells
    }

    /// Where `c` is kept, if anywhere.
    fn position(&self, c: Cell) -> (r: Option<usize>)
        ensures
            match r {
                Some(i) => i < self.cells@.len() && self.cells@[i as int] == c,
                None => !self@.contains(c),
            },
    {
        let mut i: usize = 0;
        while i < self.cells.len()
            invariant
                0 <= i <= self.cells@.len(),
                forall|j: int| 0 <= j < i ==> self.cells@[j] != c,
            decreases self.cells@.len() - i,
        {
            if same_cell(self.cells[i], c) {
                return Some(i);
            }
            i = i + 1;
        }
        None
    }

    /// Whether `c` is in the set.
    pub fn contains(&self, c: Cell) -> (b: bool)
        ensures
            b == self@.contains(c),
    {
        match self.position(c) {
            Some(i) => {
                assert(self.cells@.contains(self.cells@[i as int]));
                true
            },
            None => false,
        }
    }

    /// 1 if the integer position `(x, y)` is a cell of the set, else 0.
    pub fn count_at(&self, x: i64, y: i64) -> (r: u8)
        ensures
            r == alive_at(self@, x as int, y as int),
    {
        if i32::MIN as i64 <= x && x <= i32::MAX as i64 && i32::MIN as i64 <= y && y <= i32::MAX as i64 {
            if self.contains((x as i32, y as i32)) {
                1
            } else {
                0
            }
        } else {
            0
        }
    }

    /// How many of the eight neighbours of `c` are in the set.
    pub fn count_neighbors(&self, c: Cell) -> (n: u8)
        ensures
            n == neighbor_count(self@, c),
    {
        let x = c.0 as i64;
        let y = c.1 as i64;
        self.count_at(x - 1, y - 1) + self.count_at(x - 1, y) + self.count_at(x - 1, y + 1)
            + self.count_at(x, y - 1) + self.count_at(x, y + 1) + self.count_at(x + 1, y - 1)
            + self.count_at(x + 1, y) + self.count_at(x + 1, y + 1)
    }

    /// The number of cells.
    pub fn len(&self) -> (n: usize)
        ensures
            n == self@.len(),
            self@.finite(),
    {
        proof {
            use_type_invariant(self);
            self.cells@.unique_seq_to_set();
            self.lemma_finite();
        }
        self.cells.len()
    }

    /// Whether the set is empty.
    pub fn is_empty(&self) -> (b: bool)
        ensures
            b == (self@ == Set::<Cell>::empty()),
    {
        proof {
            self.cells@.lemma_cardinality_of_empty_set_is_0();
            self.lemma_finite();
            if self.cells@.len() > 0 {
                assert(self@.contains(self.cells@[0]));
            } else {
                assert(self@ =~= Set::<Cell>::empty());
            }
        }
        self.cells.len() == 0
    }

    /// Adds `c`; the result tells whether it was absent.
    pub fn insert(&mut self, c: Cell) -> (added: bool)
        ensures
            final(self)@ == old(self)@.insert(c),
            added == !old(self)@.contains(c),
    {
        proof {
            use_type_invariant(&*self);
        }
        if self.contains(c) {
            assert(self@.insert(c) =~= self@);
            false
        } else {
            let ghost before = self.cells@;
            let mut cells = Vec::new();
            std::mem::swap(&mut cells, &mut self.cells);
            cells.push(c);
            self.cells = cells;
            assert(self.cells@.to_set() =~= before.to_set().insert(c)) by {
                assert forall|x: Cell| self.cells@.contains(x) implies before.to_set().insert(c).contains(x) by {
                    let j = choose|j: int| 0 <= j < self.cells@.len() && self.cells@[j] == x;
                    if j < before.len() {
                        assert(before[j] == x);
                    }
                }
                assert forall|x: Cell| before.to_set().insert(c).contains(x) implies self.cells@.contains(x) by {
                    if x == c {
                        assert(self.cells@[before.len() as int] == c);
                    } else {
                        let j = choose|j: int| 0 <= j < before.len() && before[j] == x;
                        assert(self.cells@[j] == x);
                    }
                }
            }
            true
        }
    }

    /// Removes `c`; the result tells whether it was present.
    pub fn remove(&mut self, c: Cell) -> (removed: bool)
        ensures
            final(self)@ == old(self)@.remove(c),
            removed == old(self)@.contains(c),
    {
        proof {
            use_type_invariant(&*self);
        }
        match self.position(c) {
            Some(i) => {
                let ghost before = self.cells@;
                let mut cells = Vec::new();
                std::mem::swap(&mut cells, &mut self.cells);
                cells.swap_remove(i);
                proof {
                    let after = cells@;
                    let last = before.len() - 1;
                    assert(before.contains(c));
                    assert forall|p: int, q: int| 0 <= p < after.len() && 0 <= q < after.len() && p != q
                        implies after[p] != after[q] by {
                        let pp = if p == i { last } else { p };
                        let qq = if q == i { last } else { q };
                        assert(after[p] == before[pp]);
                        assert(after[q] == before[qq]);
                    }
                    assert forall|x: Cell| after.contains(x) <==> before.to_set().remove(c).contains(x) by {
                        if after.contains(x) {
                            let j = choose|j: int| 0 <= j < after.len() && after[j] == x;
                            if j == i {
                                assert(before[last] == x);
                            } else {
                                assert(before[j] == x);
                            }
                        }
                        if before.to_set().remove(c).contains(x) {
                            let j = choose|j: int| 0 <= j < before.len() && before[j] == x;
                            if j == last {
                                assert(after[i as int] == x);
                            } else {
                                assert(j != i);
                                assert(after[j] == x);
                            }
                        }
                    }
                    assert(after.to_set() =~= before.to_set().remove(c));
                }
                self.cells = cells;
                true
            },
            None => {
                assert(self@.remove(c) =~= self@);
                false
            },
        }
    }
}

/// A finite map from cells to ages, kept as a list of pairs with distinct cells.
pub struct CellAges {
    entries: Vec<(Cell, u16)>,
}

impl View for CellAges {
    type V = Map<Cell, u16>;

    closed spec fn view(&self) -> Map<Cell, u16> {
        Map::new(
            |c: Cell| exists|i: int| 0 <= i < self.entries@.len() && self.entries@[i].0 == c,
            |c: Cell|
                self.entries@[choose|i: int| 0 <= i < self.entries@.len() && self.entries@[i].0 == c].1,
        )
    }
}

impl CellAges {
    #[verifier::type_invariant]
    spec fn unique_keys(&self) -> bool {
        forall|i: int, j: int|
            0 <= i < self.entries@.len() && 0 <= j < self.entries@.len() && i != j
                ==> self.entries@[i].0 != self.entries@[j].0
    }

    /// The empty map.
    pub fn new() -> (m: CellAges)
        ensures
            m@ == Map::<Cell, u16>::empty(),
    {
        let m = CellAges { entries: Vec::new() };
        assert(m@ =~= Map::<Cell, u16>::empty());
        m
    }

    /// Where `c` is kept, if anywhere.
    fn find(&self, c: Cell) -> (r: Option<usize>)
        ensures
            match r {
                Some(i) => i < self.entries@.len() && self.entries@[i as int].0 == c && self@.contains_key(c)
                    && self@[c] == self.entries@[i as int].1,
                None => !self@.contains_key(c),
            },
    {
        proof {
            use_type_invariant(self);
        }
        let mut i: usize = 0;
        while i < self.entries.len()
            invariant
                0 <= i <= self.entries@.len(),
                forall|j: int| 0 <= j < i ==> self.entries@[j].0 != c,
                forall|p: int, q: int|
                    0 <= p < self.entries@.len() && 0 <= q < self.entries@.len() && p != q
                        ==> self.entries@[p].0 != self.entries@[q].0,
            decreases self.entries@.len() - i,
        {
            if same_cell(self.entries[i].0, c) {
                proof {
                    let k = choose|k: int| 0 <= k < self.entries@.len() && self.entries@[k].0 == c;
                    assert(k == i);
                }
                return Some(i);
            }
            i = i + 1;
        }
        None
    }

    /// The age recorded for `c`, if any.
    pub fn get(&self, c: Cell) -> (r: Option<u16>)
        ensures
            r == (if self@.contains_key(c) { Some(self@[c]) } else { None }),
    {
        match self.find(c) {
            Some(i) => Some(self.entries[i].1),
            None => None,
        }
    }

    /// Records age `age` for `c`, replacing any earlier one.
    pub fn insert(&mut self, c: Cell, age: u16)
        ensures
            final(self)@ == old(self)@.insert(c, age),
    {
        proof {
            use_type_invariant(&*self);
        }
        let ghost before = self.entries@;
        let ghost old_view = self@;
        match self.find(c) {
            Some(i) => {
                let mut entries = Vec::new();
                std::mem::swap(&mut entries, &mut self.entries);
                entries.set(i, (c, age));
                self.entries = entries;
                proof {
                    let after = self.entries@;
                    assert forall|x: Cell| #[trigger] self@.contains_key(x) <==> old_view.insert(c, age).contains_key(x) by {
                        if old_view.contains_key(x) {
                            let j = choose|j: int| 0 <= j < before.len() && before[j].0 == x;
                            assert(after[j].0 == x);
                        }
                        if self@.contains_key(x) {
                            let j = choose|j: int| 0 <= j < after.len() && after[j].0 == x;
                            assert(before[j].0 == x);
                        }
                    }
                    assert forall|x: Cell| #[trigger] self@.contains_key(x) implies self@[x] == old_view.insert(c, age)[x] by {
                        let j = choose|j: int| 0 <= j < after.len() && after[j].0 == x;
                        let k = choose|k: int| 0 <= k < before.len() && before[k].0 == x;
                        assert(before[j].0 == x);
                        assert(j == k);
                    }
                    assert(self@ =~= old_view.insert(c, age));
                }
            },
            None => {
                let mut entries = Vec::new();
                std::mem::swap(&mut entries, &mut self.entries);
                entries.push((c, age));
                self.entries = entries;
                proof {
                    let after = self.entries@;
                    let n = before.len() as int;
                    assert forall|x: Cell| #[trigger] self@.contains_key(x) <==> old_view.insert(c, age).contains_key(x) by {
                        if old_view.contains_key(x) {
                            let j = choose|j: int| 0 <= j < before.len() && before[j].0 == x;
                            assert(after[j].0 == x);
                        }
                        if x == c {
                            assert(after[n].0 == c);
                        }
                        if self@.contains_key(x) {
                            let j = choose|j: int| 0 <= j < after.len() && after[j].0 == x;
                            if j < n {
                                assert(before[j].0 == x);
                            }
                        }
                    }
                    assert forall|x: Cell| #[trigger] self@.contains_key(x) implies self@[x] == old_view.insert(c, age)[x] by {
                        let j = choose|j: int| 0 <= j < after.len() && after[j].0 == x;
                        if x == c {
                            assert(after[n].0 == c);
                            assert(j == n);
                        } else {
                            let k = choose|k: int| 0 <= k < before.len() && before[k].0 == x;
                            assert(after[k].0 == x);
                            assert(j == k);
                        }
                    }
                    assert(self@ =~= old_view.insert(c, age));
                }
            },
        }
    }

    /// Forgets the age of `c`.
    pub fn remove(&mut self, c: Cell)
        ensures
            final(self)@ == old(self)@.remove(c),
    {
        proof {
            use_type_invariant(&*self);
        }
        let ghost before = self.entries@;
        let ghost old_view = self@;
        match self.find(c) {
            Some(i) => {
                let mut entries = Vec::new();
                std::mem::swap(&mut entries, &mut self.entries);
                entries.swap_remove(i);
                self.entries = entries;
                proof {
                    let after = self.entries@;
                    let last = before.len() - 1;
                    assert forall|x: Cell| #[trigger] self@.contains_key(x) <==> old_view.remove(c).contains_key(x) by {
                        if old_view.remove(c).contains_key(x) {
                            let j = choose|j: int| 0 <= j < before.len() && before[j].0 == x;
                            if j == last {
                                assert(after[i as int].0 == x);
                            } else {
                                assert(after[j].0 == x);
                            }
                        }
                        if self@.contains_key(x) {
                            let j = choose|j: int| 0 <= j < after.len() && after[j].0 == x;
                            if j == i {
                                assert(before[last].0 == x);
                            } else {
                                assert(before[j].0 == x);
                            }
                        }
                    }
                    assert forall|x: Cell| #[trigger] self@.contains_key(x) implies self@[x] == old_view.remove(c)[x] by {
                        let j = choose|j: int| 0 <= j < after.len() && after[j].0 == x;
                        let k = choose|k: int| 0 <= k < before.len() && before[k].0 == x;
                        if j == i {
                            assert(before[last].0 == x);
                            assert(k == last);
                        } else {
                            assert(before[j].0 == x);
                            assert(k == j);
                        }
                    }
                    assert(self@ =~= old_view.remove(c));
                }
            },
            None => {
                assert(self@ =~= old_view.remove(c));
            },
        }
    }
}

} // verus!
