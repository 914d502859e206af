//! The flow field: a came-from routing table over the grid, built by one
//! breadth-first traversal of the open cells seeded at the base cell.
//!
//! Every cell reachable from the base through open cells gets exactly one
//! entry, the neighbor one hop closer to the base; following entries from
//! any reachable cell arrives at the base in at most as many steps as the
//! table has entries. Cells with no path to the base have no entry, and
//! callers must treat that as a distinct case.

use vstd::prelude::*;

use std::collections::HashMap;

use crate::map::{cell_key, lemma_cell_key_injective, spec_cell_key, CellCoordinate, GridMap};
use vstd::set_lib::lemma_len_subset;

verus! {

/// A first-in first-out queue over a growable vector.
pub struct Queue<T> {
    pub queue: Vec<T>,
}

impl<T> View for Queue<T> {
    type V = Seq<T>;

    open spec fn view(&self) -> Seq<T> {
        self.queue@
    }
}

impl<T> Queue<T> {
    pub fn new() -> (q: Self)
        ensures
            q@ == Seq::<T>::empty(),
    {
        Queue { queue: Vec::new() }
    }

    pub fn length(&self) -> (n: usize)
        ensures
            n == self@.len(),
    {
        self.queue.len()
    }

    pub fn enqueue(&mut self, item: T)
        ensures
            final(self)@ == old(self)@.push(item),
    {
        self.queue.push(item)
    }

    pub fn dequeue(&mut self) -> (item: T)
        requires
            old(self)@.len() > 0,
        ensures
            item == old(self)@[0],
            final(self)@ == old(self)@.remove(0),
    {
        self.queue.remove(0)
    }

    pub fn is_empty(&self) -> (r: bool)
        ensures
            r == (self@.len() == 0),
    {
        self.queue.is_empty()
    }

    pub fn peek(&self) -> (r: Option<&T>)
        ensures
            match r {
                Some(item) => self@.len() > 0 && *item == self@[0],
                None => self@.len() == 0,
            },
    {
        if self.queue.len() > 0 {
            Some(&self.queue[0])
        } else {
            None
        }
    }
}

/// Whether `path` walks from `base` to `c` along the neighbor relation:
/// it starts at the base, ends at `c`, and each following cell is a
/// neighbor (open and in the map) of the cell before it.
pub open spec fn is_path(
    m: GridMap,
    base: CellCoordinate,
    path: Seq<CellCoordinate>,
    c: CellCoordinate,
) -> bool {
    &&& path.len() > 0
    &&& path[0] == base
    &&& path[path.len() - 1] == c
    &&& forall|i: int|
        0 <= i < path.len() - 1 ==> m.spec_neighbors(#[trigger] path[i]).contains(path[i + 1])
}

/// Whether `c` is reachable from `base` through open cells. The base
/// itself always counts as reachable.
pub open spec fn reachable(m: GridMap, base: CellCoordinate, c: CellCoordinate) -> bool {
    exists|path: Seq<CellCoordinate>| is_path(m, base, path, c)
}

/// The base is reachable from itself.
pub proof fn lemma_reachable_base(m: GridMap, base: CellCoordinate)
    ensures
        reachable(m, base, base),
{
    let path: Seq<CellCoordinate> = seq![base];
    assert(is_path(m, base, path, base));
}

/// A neighbor of a reachable cell is reachable.
pub proof fn lemma_reachable_step(
    m: GridMap,
    base: CellCoordinate,
    p: CellCoordinate,
    c: CellCoordinate,
)
    requires
        reachable(m, base, p),
        m.spec_neighbors(p).contains(c),
    ensures
        reachable(m, base, c),
{
    let path = choose|path: Seq<CellCoordinate>| is_path(m, base, path, p);
    let longer = path.push(c);
    assert(is_path(m, base, longer, c)) by {
        assert(longer[0] == path[0]);
        assert(longer[longer.len() - 1] == c);
        assert forall|i: int|
            0 <= i < longer.len() - 1 implies m.spec_neighbors(#[trigger] longer[i]).contains(
            longer[i + 1],
        ) by {
            if i < path.len() - 1 {
                assert(longer[i] == path[i] && longer[i + 1] == path[i + 1]);
            } else {
                assert(longer[i] == p && longer[i + 1] == c);
            }
        }
    }
}

/// The came-from table: for each reachable cell, the adjacent cell one
/// step closer to the base (the base maps to itself). The ghost fields
/// hold the grid the field was built from and each entry's hop distance
/// from the base, which witness the routing guarantees.
pub struct FlowField {
    pub table: HashMap<u64, CellCoordinate>,
    pub base: CellCoordinate,
    pub grid: Ghost<GridMap>,
    pub depth: Ghost<Map<CellCoordinate, nat>>,
}

impl FlowField {
    /// Whether the cell has an entry.
    pub open spec fn contains_cell(self, c: CellCoordinate) -> bool {
        self.table@.contains_key(spec_cell_key(c))
    }

    /// The cell's recorded predecessor: one hop closer to the base.
    pub open spec fn next_hop(self, c: CellCoordinate) -> CellCoordinate {
        self.table@[spec_cell_key(c)]
    }

    /// How many cells have an entry.
    pub open spec fn num_entries(self) -> nat {
        self.table@.dom().len()
    }

    /// Well-formedness: the base maps to itself at depth zero; every other
    /// entry points at an entry one depth lower whose neighbor it is; all
    /// entries are reachable from the base; and the table is closed under
    /// the neighbor relation, so it misses no reachable cell.
    pub open spec fn wf(self) -> bool {
        &&& self.table@.dom().finite()
        &&& self.contains_cell(self.base)
        &&& self.next_hop(self.base) == self.base
        &&& self.depth@[self.base] == 0
        &&& forall|c: CellCoordinate|
            #[trigger] self.contains_cell(c) && c != self.base ==> {
                &&& self.contains_cell(self.next_hop(c))
                &&& self.depth@[self.next_hop(c)] + 1 == self.depth@[c]
                &&& self.grid@.spec_neighbors(self.next_hop(c)).contains(c)
            }
        &&& forall|c: CellCoordinate| #[trigger] self.contains_cell(c) ==> self.depth@[c]
            < self.num_entries()
        &&& forall|c: CellCoordinate| #[trigger] self.contains_cell(c) ==> reachable(
            self.grid@,
            self.base,
            c,
        )
        &&& forall|c: CellCoordinate, n: CellCoordinate|
            self.contains_cell(c) && #[trigger] self.grid@.spec_neighbors(c).contains(n)
                ==> self.contains_cell(n)
    }

    /// Well-formed, on a map whose half-size and base cell both fit the
    /// coordinate bound that keeps cell centers inside the world.
    pub open spec fn world_bounded(self) -> bool {
        &&& self.wf()
        &&& self.grid@.half_width() <= 33_333
        &&& self.grid@.half_height() <= 33_333
        &&& -33_333 <= self.base.x <= 33_333
        &&& -33_333 <= self.base.y <= 33_333
    }

    /// Whether following entries from `c` arrives at the base within `k`
    /// lookups.
    pub open spec fn chain_reaches(self, c: CellCoordinate, k: nat) -> bool
        decreases k,
    {
        if c == self.base {
            true
        } else if k == 0 {
            false
        } else {
            self.contains_cell(c) && self.chain_reaches(self.next_hop(c), (k - 1) as nat)
        }
    }

    /// Looks up the cell's next hop toward the base, or `None` where the
    /// cell has no path to the base.
    pub fn lookup(&self, c: CellCoordinate) -> (r: Option<CellCoordinate>)
        ensures
            match r {
                Some(n) => self.contains_cell(c) && n == self.next_hop(c),
                None => !self.contains_cell(c),
            },
    {
        let k = cell_key(c);
        match self.table.get(&k) {
            Some(n) => Some(*n),
            None => None,
        }
    }

    /// Whether the cell has an entry, that is, a path to the base.
    pub fn has_entry(&self, c: CellCoordinate) -> (r: bool)
        ensures
            r == self.contains_cell(c),
    {
        let k = cell_key(c);
        self.table.contains_key(&k)
    }

    /// How many cells have an entry.
    pub fn entry_count(&self) -> (n: usize)
        ensures
            n == self.num_entries(),
    {
        self.table.len()
    }
}

/// Every entry other than the base itself lies in the map and is
/// unwalled: it was recorded as somebody's neighbor.
pub proof fn lemma_entry_in_map(f: FlowField, c: CellCoordinate)
    requires
        f.wf(),
        f.contains_cell(c),
        c != f.base,
    ensures
        f.grid@.spec_in_map(c),
        !f.grid@.wall_at(c),
{
    crate::map::lemma_neighbor_open(f.grid@, f.next_hop(c), c);
}

/// On a map whose half-size fits the world bound and whose base does
/// too, every entry's coordinates fit that bound.
pub proof fn lemma_entry_bounded(f: FlowField, c: CellCoordinate)
    requires
        f.wf(),
        f.contains_cell(c),
        f.grid@.half_width() <= 33_333,
        f.grid@.half_height() <= 33_333,
        -33_333 <= f.base.x <= 33_333,
        -33_333 <= f.base.y <= 33_333,
    ensures
        -33_333 <= c.x <= 33_333,
        -33_333 <= c.y <= 33_333,
{
    if c != f.base {
        lemma_entry_in_map(f, c);
    }
}

/// Every cell reachable from the base has an entry in a well-formed flow
/// field: the table is complete.
pub proof fn lemma_flow_field_complete(f: FlowField, path: Seq<CellCoordinate>, c: CellCoordinate)
    requires
        f.wf(),
        is_path(f.grid@, f.base, path, c),
    ensures
        f.contains_cell(c),
    decreases path.len(),
{
    if path.len() == 1 {
        assert(c == f.base);
    } else {
        let prefix = path.subrange(0, path.len() - 1);
        let p = path[path.len() - 2];
        assert(is_path(f.grid@, f.base, prefix, p)) by {
            assert(prefix[0] == path[0]);
            assert(prefix[prefix.len() - 1] == p);
            assert forall|i: int|
                0 <= i < prefix.len() - 1 implies f.grid@.spec_neighbors(
                #[trigger] prefix[i],
            ).contains(prefix[i + 1]) by {
                assert(prefix[i] == path[i] && prefix[i + 1] == path[i + 1]);
                assert(f.grid@.spec_neighbors(path[i]).contains(path[i + 1]));
            }
        }
        lemma_flow_field_complete(f, prefix, p);
        assert(f.grid@.spec_neighbors(path[path.len() - 2]).contains(path[path.len() - 1]));
    }
}

/// A well-formed flow field holds an entry for a cell exactly when the
/// cell is reachable from the base through open cells.
pub proof fn lemma_flow_field_exact(f: FlowField, c: CellCoordinate)
    requires
        f.wf(),
    ensures
        f.contains_cell(c) <==> reachable(f.grid@, f.base, c),
{
    if reachable(f.grid@, f.base, c) {
        let path = choose|path: Seq<CellCoordinate>| is_path(f.grid@, f.base, path, c);
        lemma_flow_field_complete(f, path, c);
    }
}

/// A chain that arrives within `k1` lookups also arrives within any
/// larger budget.
proof fn lemma_chain_monotone(f: FlowField, c: CellCoordinate, k1: nat, k2: nat)
    requires
        f.chain_reaches(c, k1),
        k1 <= k2,
    ensures
        f.chain_reaches(c, k2),
    decreases k1,
{
    if c != f.base {
        lemma_chain_monotone(f, f.next_hop(c), (k1 - 1) as nat, (k2 - 1) as nat);
    }
}

/// Following entries from an entry of depth `d` arrives at the base in at
/// most `d` lookups.
proof fn lemma_chain_by_depth(f: FlowField, c: CellCoordinate)
    requires
        f.wf(),
        f.contains_cell(c),
    ensures
        f.chain_reaches(c, f.depth@[c]),
    decreases f.depth@[c],
{
    if c != f.base {
        lemma_chain_by_depth(f, f.next_hop(c));
    }
}

/// Following successive entries from any cell that has one arrives at the
/// base in a finite number of steps, no greater than the number of
/// entries in the table.
pub proof fn lemma_flow_chain_reaches_base(f: FlowField, c: CellCoordinate)
    requires
        f.wf(),
        f.contains_cell(c),
    ensures
        f.chain_reaches(c, f.num_entries()),
{
    lemma_chain_by_depth(f, c);
    lemma_chain_monotone(f, c, f.depth@[c], f.num_entries());
}

/// The cell whose packed key is `k`: the inverse of [`spec_cell_key`].
spec fn spec_cell_of_key(k: u64) -> CellCoordinate {
    CellCoordinate {
        x: (k as int / 0x1_0000_0000 - 0x8000_0000) as i32,
        y: (k as int % 0x1_0000_0000 - 0x8000_0000) as i32,
    }
}

/// Every key is the packed key of exactly the cell it decodes to.
proof fn lemma_cell_key_surjective(k: u64)
    ensures
        spec_cell_key(spec_cell_of_key(k)) == k,
{
    let q = k as int / 0x1_0000_0000;
    let r = k as int % 0x1_0000_0000;
    vstd::arithmetic::div_mod::lemma_fundamental_div_mod(k as int, 0x1_0000_0000);
    vstd::arithmetic::div_mod::lemma_mod_bound(k as int, 0x1_0000_0000);
    assert(0 <= q < 0x1_0000_0000) by (nonlinear_arith)
        requires
            k as int == 0x1_0000_0000 * q + r,
            0 <= r < 0x1_0000_0000,
            0 <= k as int,
            (k as int) < 0x1_0000_0000_0000_0000,
    ;
}

/// A well-formed flow field whose base lies in the map has no more
/// entries than the grid has cells: every entry is an in-map cell, and
/// distinct entries pack to distinct keys.
pub proof fn lemma_flow_field_size(f: FlowField)
    requires
        f.wf(),
        f.grid@.spec_in_map(f.base),
    ensures
        f.num_entries() <= (2 * f.grid@.half_width() + 1) * (2 * f.grid@.half_height() + 1),
{
    let hw = f.grid@.half_width();
    let hh = f.grid@.half_height();
    let rect = crate::map::rect_cells(hw, hh);
    crate::map::lemma_rect_finite(hw, hh);
    let key_fn = |c: CellCoordinate| spec_cell_key(c);
    let keys = rect.map(key_fn);
    vstd::set_lib::lemma_map_size_bound(rect, keys, key_fn);
    assert forall|k: u64| f.table@.dom().contains(k) implies keys.contains(k) by {
        let c = spec_cell_of_key(k);
        lemma_cell_key_surjective(k);
        assert(f.contains_cell(c));
        if c != f.base {
            lemma_entry_in_map(f, c);
        }
        assert(rect.contains(c));
        assert(keys.contains(key_fn(c)));
    }
    vstd::set_lib::lemma_len_subset(f.table@.dom(), keys);
}

/// Following successive entries from any routed cell reaches the base
/// in a finite number of steps no greater than the grid's cell count.
pub proof fn lemma_flow_chain_within_cell_count(f: FlowField, c: CellCoordinate)
    requires
        f.wf(),
        f.grid@.spec_in_map(f.base),
        f.contains_cell(c),
    ensures
        f.chain_reaches(
            c,
            ((2 * f.grid@.half_width() + 1) * (2 * f.grid@.half_height() + 1)) as nat,
        ),
{
    lemma_flow_chain_reaches_base(f, c);
    lemma_flow_field_size(f);
    lemma_chain_monotone(
        f,
        c,
        f.num_entries(),
        ((2 * f.grid@.half_width() + 1) * (2 * f.grid@.half_height() + 1)) as nat,
    );
}

/// One frontier cell's neighbors handled in order, from index `i` on:
/// each neighbor not yet in the table is recorded as discovered from
/// `current` and appended to the queue. This makes the recorded
/// predecessor the first-discovered one, under the fixed +x, -x, +y, -y
/// neighbor order.
pub open spec fn spec_bfs_neighbors(
    m: GridMap,
    t: Map<u64, CellCoordinate>,
    q: Seq<CellCoordinate>,
    current: CellCoordinate,
    i: int,
) -> (Map<u64, CellCoordinate>, Seq<CellCoordinate>)
    decreases m.spec_neighbors(current).len() - i,
{
    let nbrs = m.spec_neighbors(current);
    if i < 0 || i >= nbrs.len() {
        (t, q)
    } else {
        let c = nbrs[i];
        if t.contains_key(spec_cell_key(c)) {
            spec_bfs_neighbors(m, t, q, current, i + 1)
        } else {
            spec_bfs_neighbors(m, t.insert(spec_cell_key(c), current), q.push(c), current, i + 1)
        }
    }
}

/// The breadth-first traversal run for `fuel` steps, one dequeue per
/// step: the table and the queue it leaves.
pub open spec fn spec_bfs_run(
    m: GridMap,
    t: Map<u64, CellCoordinate>,
    q: Seq<CellCoordinate>,
    fuel: nat,
) -> (Map<u64, CellCoordinate>, Seq<CellCoordinate>)
    decreases fuel,
{
    if fuel == 0 || q.len() == 0 {
        (t, q)
    } else {
        let stepped = spec_bfs_neighbors(m, t, q.drop_first(), q[0], 0);
        spec_bfs_run(m, stepped.0, stepped.1, (fuel - 1) as nat)
    }
}

/// The traversal from the base's seed state.
pub open spec fn spec_bfs_from(m: GridMap, base: CellCoordinate, fuel: nat) -> (
    Map<u64, CellCoordinate>,
    Seq<CellCoordinate>,
) {
    spec_bfs_run(
        m,
        Map::empty().insert(spec_cell_key(base), base),
        Seq::empty().push(base),
        fuel,
    )
}

/// Whether the traversal has drained its queue within `fuel` steps.
pub open spec fn spec_bfs_terminates_at(m: GridMap, base: CellCoordinate, fuel: nat) -> bool {
    spec_bfs_from(m, base, fuel).1.len() == 0
}

/// The came-from table of a map and base: what the traversal leaves once
/// its queue drains. A function of the map and the base alone, so two
/// builds of the same map produce identical tables.
pub open spec fn spec_flow_table(m: GridMap, base: CellCoordinate) -> Map<u64, CellCoordinate> {
    spec_bfs_from(m, base, choose|fuel: nat| spec_bfs_terminates_at(m, base, fuel)).0
}

/// A drained traversal stays put: extra fuel changes nothing.
proof fn lemma_bfs_run_stable(
    m: GridMap,
    t: Map<u64, CellCoordinate>,
    q: Seq<CellCoordinate>,
    fuel1: nat,
    fuel2: nat,
)
    requires
        spec_bfs_run(m, t, q, fuel1).1.len() == 0,
        fuel1 <= fuel2,
    ensures
        spec_bfs_run(m, t, q, fuel2) == spec_bfs_run(m, t, q, fuel1),
    decreases fuel1,
{
    if fuel1 == 0 || q.len() == 0 {
        if q.len() == 0 {
        } else {
            assert(spec_bfs_run(m, t, q, fuel1).1 == q);
        }
    } else {
        let stepped = spec_bfs_neighbors(m, t, q.drop_first(), q[0], 0);
        lemma_bfs_run_stable(m, stepped.0, stepped.1, (fuel1 - 1) as nat, (fuel2 - 1) as nat);
    }
}

/// Unrolling one more step from the back: running for `fuel + 1` steps
/// is running for `fuel` steps and then, if the queue still holds a
/// cell, handling that one cell's neighbors.
proof fn lemma_bfs_run_snoc(
    m: GridMap,
    t: Map<u64, CellCoordinate>,
    q: Seq<CellCoordinate>,
    fuel: nat,
)
    ensures
        spec_bfs_run(m, t, q, fuel + 1) == ({
            let r = spec_bfs_run(m, t, q, fuel);
            if r.1.len() == 0 {
                r
            } else {
                spec_bfs_neighbors(m, r.0, r.1.drop_first(), r.1[0], 0)
            }
        }),
    decreases fuel,
{
    if q.len() == 0 {
        assert(spec_bfs_run(m, t, q, fuel + 1) == (t, q));
        assert(spec_bfs_run(m, t, q, fuel) == (t, q));
    } else {
        let stepped = spec_bfs_neighbors(m, t, q.drop_first(), q[0], 0);
        assert(spec_bfs_run(m, t, q, fuel + 1) == spec_bfs_run(
            m,
            stepped.0,
            stepped.1,
            ((fuel + 1) - 1) as nat,
        ));
        if fuel == 0 {
            assert(spec_bfs_run(m, stepped.0, stepped.1, 0) == stepped);
            assert(spec_bfs_run(m, t, q, fuel) == (t, q));
        } else {
            assert(spec_bfs_run(m, t, q, fuel) == spec_bfs_run(
                m,
                stepped.0,
                stepped.1,
                (fuel - 1) as nat,
            ));
            lemma_bfs_run_snoc(m, stepped.0, stepped.1, (fuel - 1) as nat);
        }
    }
}

/// Any fuel that drains the queue yields the canonical table.
proof fn lemma_bfs_fuel_irrelevant(m: GridMap, base: CellCoordinate, fuel: nat)
    requires
        spec_bfs_terminates_at(m, base, fuel),
    ensures
        spec_bfs_from(m, base, fuel).0 == spec_flow_table(m, base),
{
    let chosen = choose|f: nat| spec_bfs_terminates_at(m, base, f);
    assert(spec_bfs_terminates_at(m, base, chosen));
    let t0 = Map::empty().insert(spec_cell_key(base), base);
    let q0 = Seq::empty().push(base);
    if fuel <= chosen {
        lemma_bfs_run_stable(m, t0, q0, fuel, chosen);
    } else {
        lemma_bfs_run_stable(m, t0, q0, chosen, fuel);
    }
}

/// The breadth-first invariant over the partial table `t`, the frontier
/// `q` and the ghost depths, while the traversal runs.
spec fn bfs_inv(
    m: GridMap,
    base: CellCoordinate,
    t: Map<u64, CellCoordinate>,
    q: Seq<CellCoordinate>,
    depth: Map<CellCoordinate, nat>,
) -> bool {
    &&& t.dom().finite()
    &&& t.dom().len() <= Set::<u64>::full().len()
    &&& t.contains_key(spec_cell_key(base))
    &&& t[spec_cell_key(base)] == base
    &&& depth[base] == 0
    &&& forall|i: int| 0 <= i < q.len() ==> t.contains_key(spec_cell_key(#[trigger] q[i]))
    &&& forall|c: CellCoordinate|
        #[trigger] t.contains_key(spec_cell_key(c)) && c != base ==> {
            &&& t.contains_key(spec_cell_key(t[spec_cell_key(c)]))
            &&& depth[t[spec_cell_key(c)]] + 1 == depth[c]
            &&& m.spec_neighbors(t[spec_cell_key(c)]).contains(c)
        }
    &&& forall|c: CellCoordinate| #[trigger] t.contains_key(spec_cell_key(c)) ==> depth[c]
        < t.dom().len()
    &&& forall|c: CellCoordinate| #[trigger] t.contains_key(spec_cell_key(c)) ==> reachable(
        m,
        base,
        c,
    )
}

/// Every entry outside the exemption sequence has all its neighbors in
/// the table already.
spec fn bfs_closed_except(
    m: GridMap,
    t: Map<u64, CellCoordinate>,
    exempt: Seq<CellCoordinate>,
) -> bool {
    forall|c: CellCoordinate, n: CellCoordinate|
        t.contains_key(spec_cell_key(c)) && !exempt.contains(c) && #[trigger] m.spec_neighbors(
            c,
        ).contains(n) ==> t.contains_key(spec_cell_key(n))
}

/// Membership in a sequence extended by one element.
proof fn lemma_push_contains<T>(s: Seq<T>, x: T, y: T)
    ensures
        s.push(x).contains(y) <==> (s.contains(y) || x == y),
{
    if s.contains(y) {
        let j = choose|j: int| 0 <= j < s.len() && s[j] == y;
        assert(s.push(x)[j] == y);
    }
    if x == y {
        assert(s.push(x)[s.len() as int] == y);
    }
    if s.push(x).contains(y) && x != y {
        let j = choose|j: int| 0 <= j < s.push(x).len() && s.push(x)[j] == y;
        if j < s.len() {
            assert(s[j] == y);
        }
    }
}

/// Membership in a sequence with its first element removed.
proof fn lemma_remove_first_contains<T>(s: Seq<T>, y: T)
    requires
        s.len() > 0,
    ensures
        s.contains(y) <==> (s[0] == y || s.remove(0).contains(y)),
{
    if s.remove(0).contains(y) {
        let j = choose|j: int| 0 <= j < s.remove(0).len() && s.remove(0)[j] == y;
        assert(s[j + 1] == y);
    }
    if s.contains(y) && s[0] != y {
        let j = choose|j: int| 0 <= j < s.len() && s[j] == y;
        assert(s.remove(0)[j - 1] == y);
    }
}

impl FlowField {
    /// Builds the flow field for `map` by breadth-first search from the
    /// base cell: the base maps to itself, and each newly discovered open
    /// neighbor records the cell it was discovered from.
    pub fn build(map: &GridMap, base: CellCoordinate) -> (f: FlowField)
        ensures
            f.wf(),
            f.base == base,
            f.grid@ == *map,
            f.table@ == spec_flow_table(*map, base),
    {
        broadcast use vstd::set_lib::full_set_properties;

        let mut table: HashMap<u64, CellCoordinate> = HashMap::new();
        let mut frontier: Queue<CellCoordinate> = Queue::new();
        let ghost mut depth: Map<CellCoordinate, nat> = Map::empty().insert(base, 0nat);
        let base_key = cell_key(base);
        table.insert(base_key, base);
        frontier.enqueue(base);
        let ghost seed_t = Map::empty().insert(spec_cell_key(base), base);
        let ghost seed_q = Seq::<CellCoordinate>::empty().push(base);
        let ghost mut steps: nat = 0;
        proof {
            assert(table@.dom() =~= Set::empty().insert(base_key));
            lemma_len_subset(table@.dom(), Set::<u64>::full());
            lemma_reachable_base(*map, base);
            assert forall|c: CellCoordinate| #[trigger]
                table@.contains_key(spec_cell_key(c)) implies c == base by {
                lemma_cell_key_injective(c, base);
            }
            assert(frontier@[0] == base);
            assert(frontier@.contains(base));
            assert(table@ =~= seed_t);
            assert(frontier@ =~= seed_q);
        }
        while !frontier.is_empty()
            invariant
                bfs_inv(*map, base, table@, frontier@, depth),
                bfs_closed_except(*map, table@, frontier@),
                table@ == spec_bfs_run(*map, seed_t, seed_q, steps).0,
                frontier@ == spec_bfs_run(*map, seed_t, seed_q, steps).1,
                seed_t == Map::empty().insert(spec_cell_key(base), base),
                seed_q == Seq::<CellCoordinate>::empty().push(base),
            decreases Set::<u64>::full().len() + 1 - table@.dom().len(), frontier@.len(),
        {
            let ghost pre_frontier = frontier@;
            let ghost t0 = table@;
            let current = frontier.dequeue();
            let ghost q0 = frontier@;
            proof {
                assert(t0.contains_key(spec_cell_key(pre_frontier[0])));
                assert forall|c: CellCoordinate, n: CellCoordinate|
                    table@.contains_key(spec_cell_key(c)) && !frontier@.push(current).contains(c)
                        && #[trigger] map.spec_neighbors(c).contains(n) implies table@.contains_key(
                    spec_cell_key(n),
                ) by {
                    lemma_push_contains(frontier@, current, c);
                    lemma_remove_first_contains(pre_frontier, c);
                }
            }
            let neighbors = map.get_neighbors(current);
            let mut i: usize = 0;
            while i < neighbors.len()
                invariant
                    bfs_inv(*map, base, table@, frontier@, depth),
                    bfs_closed_except(*map, table@, frontier@.push(current)),
                    neighbors@ == map.spec_neighbors(current),
                    i <= neighbors@.len(),
                    forall|j: int|
                        0 <= j < i ==> table@.contains_key(
                            spec_cell_key(#[trigger] neighbors@[j]),
                        ),
                    table@.contains_key(spec_cell_key(current)),
                    t0.dom().len() <= table@.dom().len(),
                    frontier@.len() + t0.dom().len() == q0.len() + table@.dom().len(),
                    spec_bfs_neighbors(*map, table@, frontier@, current, i as int)
                        == spec_bfs_neighbors(*map, t0, q0, current, 0),
                decreases neighbors@.len() - i,
            {
                let next = neighbors[i];
                let k = cell_key(next);
                proof {
                    assert(map.spec_neighbors(current)[i as int] == next);
                    assert(map.spec_neighbors(current).contains(next));
                }
                if !table.contains_key(&k) {
                    let ghost t_before = table@;
                    let ghost q_before = frontier@;
                    table.insert(k, current);
                    proof {
                        depth = depth.insert(next, (depth[current] + 1) as nat);
                        assert forall|c: CellCoordinate|
                            spec_cell_key(c) == spec_cell_key(next) implies c == next by {
                            lemma_cell_key_injective(c, next);
                        }
                        assert(table@.dom() =~= t_before.dom().insert(k));
                        lemma_len_subset(table@.dom(), Set::<u64>::full());
                        lemma_reachable_step(*map, base, current, next);
                        assert forall|c: CellCoordinate, n: CellCoordinate|
                            table@.contains_key(spec_cell_key(c)) && !q_before.push(next).push(
                                current,
                            ).contains(c) && #[trigger] map.spec_neighbors(c).contains(
                            n,
                        ) implies table@.contains_key(spec_cell_key(n)) by {
                            lemma_push_contains(q_before.push(next), current, c);
                            lemma_push_contains(q_before, next, c);
                            lemma_push_contains(q_before, current, c);
                            if c != next {
                                assert(t_before.contains_key(spec_cell_key(c)));
                            }
                        }
                    }
                    frontier.enqueue(next);
                } else {
                    proof {
                        // `next` packs to a key already present, so `next`
                        // itself is already in the table.
                        assert(table@.contains_key(spec_cell_key(next)));
                    }
                }
                i = i + 1;
            }
            proof {
                // `current` is now closed: all its neighbors are in the
                // table, so closure holds without exempting it.
                assert forall|c: CellCoordinate, n: CellCoordinate|
                    table@.contains_key(spec_cell_key(c)) && !frontier@.contains(c)
                        && #[trigger] map.spec_neighbors(c).contains(n) implies table@.contains_key(
                    spec_cell_key(n),
                ) by {
                    lemma_push_contains(frontier@, current, c);
                    if c == current {
                        let j = choose|j: int|
                            0 <= j < neighbors@.len() && neighbors@[j] == n;
                        assert(table@.contains_key(spec_cell_key(neighbors@[j])));
                    }
                }
                // one more dequeue handled: the state is the spec run one
                // step further on
                lemma_bfs_run_snoc(*map, seed_t, seed_q, steps);
                assert(q0 =~= pre_frontier.drop_first());
                assert(spec_bfs_neighbors(*map, table@, frontier@, current, neighbors@.len() as int)
                    == (table@, frontier@));
                steps = steps + 1;
            }
        }
        proof {
            lemma_bfs_fuel_irrelevant(*map, base, steps);
        }
        let f = FlowField { table, base, grid: Ghost(*map), depth: Ghost(depth) };
        proof {
            assert forall|c: CellCoordinate, n: CellCoordinate|
                f.contains_cell(c) && #[trigger] f.grid@.spec_neighbors(c).contains(
                n,
            ) implies f.contains_cell(n) by {
                assert(!frontier@.contains(c));
            }
        }
        f
    }
}

} // verus!
