//! A uniform-grid spatial index over entries that have a position.
//!
//! Entries live in an arena in insertion order; the bucket table maps each
//! cell to the arena indices filed there. A neighbour query looks at the
//! 3×3 block of cells around a point and keeps the entries within the radius.

use vstd::prelude::*;
use crate::vector::Vec2;
use crate::cell_map::{CellKey, CellMap, cell_contents, bucket};

verus! {

/// Something with a position in the plane.
pub trait Position {
    spec fn pos(&self) -> Vec2;

    fn position(&self) -> (p: Vec2)
        ensures
            p == self.pos(),
    ;
}

/// The cell of point `p` for cell size `radius`: each coordinate divided by
/// the size and rounded down.
pub open spec fn cell_of(p: Vec2, radius: int) -> CellKey {
    ((p.x as int / radius) as i64, (p.y as int / radius) as i64)
}

/// Whether `a` lies within Euclidean distance `radius` of `b`.
pub open spec fn near(a: Vec2, b: Vec2, radius: int) -> bool {
    (a.x - b.x) * (a.x - b.x) + (a.y - b.y) * (a.y - b.y) <= radius * radius
}

/// The indices `i` with `keys[i] == k`, ascending.
pub open spec fn filed_under(keys: Seq<CellKey>, k: CellKey) -> Seq<usize>
    decreases keys.len(),
{
    if keys.len() == 0 {
        Seq::empty()
    } else {
        let prev = filed_under(keys.drop_last(), k);
        if keys.last() == k {
            prev.push((keys.len() - 1) as usize)
        } else {
            prev
        }
    }
}

/// The `o`-th cell of the 3×3 block around `c`, row by row from `(-1, -1)`.
pub open spec fn neighbour_key(c: CellKey, o: int) -> CellKey {
    ((c.0 + (o / 3 - 1)) as i64, (c.1 + (o % 3 - 1)) as i64)
}

/// The spatial index as a mathematical value.
pub struct GridModel<T> {
    /// Cell size and query radius.
    pub radius: int,
    /// The stored entries, by index.
    pub entries: Seq<T>,
    /// The bucket table.
    pub cells: Map<CellKey, Seq<usize>>,
    /// The cell each entry was filed under.
    pub keys: Seq<CellKey>,
}

impl<T: Position> GridModel<T> {
    /// The buckets hold exactly the filed cells of the entries.
    pub open spec fn wf(self) -> bool {
        &&& 1 < self.radius <= i64::MAX
        &&& self.keys.len() == self.entries.len()
        &&& self.entries.len() < usize::MAX
        &&& forall|k: CellKey| #[trigger] bucket(self.cells, k) == filed_under(self.keys, k)
    }

    /// The cell of every entry's current position.
    pub open spec fn current_keys(self) -> Seq<CellKey> {
        Seq::new(self.entries.len(), |i: int| cell_of(self.entries[i].pos(), self.radius))
    }

    /// Every entry is filed under the cell of its current position.
    pub open spec fn fresh(self) -> bool {
        self.keys == self.current_keys()
    }

    /// The indices among `idx` whose entry lies within the radius of `p`.
    pub open spec fn keep_near(self, idx: Seq<usize>, p: Vec2) -> Seq<usize>
        decreases idx.len(),
    {
        if idx.len() == 0 {
            Seq::empty()
        } else {
            let prev = self.keep_near(idx.drop_last(), p);
            if near(self.entries[idx.last() as int].pos(), p, self.radius) {
                prev.push(idx.last())
            } else {
                prev
            }
        }
    }

    /// The near indices in the first `n` cells of the block around `p`.
    pub open spec fn gather(self, p: Vec2, n: int) -> Seq<usize>
        decreases n,
    {
        if n <= 0 {
            Seq::empty()
        } else {
            self.gather(p, n - 1) + self.keep_near(
                bucket(self.cells, neighbour_key(cell_of(p, self.radius), n - 1)),
                p,
            )
        }
    }

    /// The indices a neighbour query at `p` returns.
    pub open spec fn query_spec(self, p: Vec2) -> Seq<usize> {
        self.gather(p, 9)
    }

    /// The model after inserting `e`.
    pub open spec fn insert_spec(self, e: T) -> GridModel<T> {
        let k = cell_of(e.pos(), self.radius);
        GridModel {
            radius: self.radius,
            entries: self.entries.push(e),
            cells: self.cells.insert(k, bucket(self.cells, k).push(self.entries.len() as usize)),
            keys: self.keys.push(k),
        }
    }
}

/// `filed_under` of a sequence grown by one key.
pub proof fn lemma_filed_under_push(keys: Seq<CellKey>, x: CellKey, k: CellKey)
    ensures
        filed_under(keys.push(x), k) == (if x == k {
            filed_under(keys, k).push(keys.len() as usize)
        } else {
            filed_under(keys, k)
        }),
{
    assert(keys.push(x).drop_last() =~= keys);
}

/// An index is filed under `k` exactly when its key is `k`.
pub proof fn lemma_filed_under_contains(keys: Seq<CellKey>, k: CellKey, j: int)
    requires
        keys.len() < usize::MAX,
    ensures
        filed_under(keys, k).contains(j as usize) && 0 <= j <= usize::MAX <==> 0 <= j < keys.len() && keys[j] == k,
        forall|t: int| 0 <= t < filed_under(keys, k).len() ==> filed_under(keys, k)[t] < keys.len(),
    decreases keys.len(),
{
    if keys.len() > 0 {
        let prev = keys.drop_last();
        lemma_filed_under_contains(prev, k, j);
        assert(keys =~= prev.push(keys.last()));
        lemma_filed_under_push(prev, keys.last(), k);
        if keys.last() == k {
            let s = filed_under(prev, k);
            if j == keys.len() - 1 {
                assert(filed_under(keys, k)[s.len() as int] == j as usize);
            }
            if filed_under(keys, k).contains(j as usize) && 0 <= j <= usize::MAX && j != keys.len() - 1 {
                let t = choose|t: int| 0 <= t < filed_under(keys, k).len() && filed_under(keys, k)[t] == j as usize;
                assert(t < s.len());
                assert(s.contains(j as usize));
            }
            if 0 <= j < prev.len() && keys[j] == k {
                assert(prev[j] == k);
                let t = choose|t: int| 0 <= t < s.len() && s[t] == j as usize;
                assert(filed_under(keys, k)[t] == j as usize);
            }
        } else {
            if 0 <= j < prev.len() && keys[j] == k {
                assert(prev[j] == k);
            }
        }
    }
}

/// `gather(p, a)` is a prefix of `gather(p, b)` for `a <= b`.
proof fn lemma_gather_prefix<T: Position>(m: GridModel<T>, p: Vec2, a: int, b: int)
    requires
        0 <= a <= b,
    ensures
        m.gather(p, a).len() <= m.gather(p, b).len(),
        forall|t: int| 0 <= t < m.gather(p, a).len() ==> m.gather(p, b)[t] == m.gather(p, a)[t],
    decreases b - a,
{
    if a < b {
        lemma_gather_prefix(m, p, a, b - 1);
    }
}

/// Round trip: an entry just inserted at position `p` is among what a query
/// at `p` returns.
pub proof fn lemma_insert_then_query<T: Position>(m: GridModel<T>, e: T)
    requires
        m.wf(),
    ensures
        m.insert_spec(e).query_spec(e.pos()).contains(m.entries.len() as usize),
        m.insert_spec(e).entries[m.entries.len() as int] == e,
{
    let m2 = m.insert_spec(e);
    let p = e.pos();
    let n = m.entries.len() as usize;
    let c = cell_of(p, m.radius);
    lemma_cell_coordinate(p.x as int, m.radius);
    lemma_cell_coordinate(p.y as int, m.radius);
    assert(neighbour_key(c, 4) == c);
    let b = bucket(m2.cells, c);
    assert(b == bucket(m.cells, c).push(n));
    assert(b.drop_last() =~= bucket(m.cells, c));
    assert(near(p, p, m.radius)) by {
        assert((p.x - p.x) * (p.x - p.x) + (p.y - p.y) * (p.y - p.y) == 0) by (nonlinear_arith);
        assert(m.radius * m.radius >= 0) by (nonlinear_arith);
    }
    let kept = m2.keep_near(b, p);
    assert(kept == m2.keep_near(b.drop_last(), p).push(n));
    assert(kept[kept.len() - 1] == n);
    let g5 = m2.gather(p, 5);
    assert(g5 == m2.gather(p, 4) + kept);
    let at = m2.gather(p, 4).len() + kept.len() - 1;
    assert(g5[at] == n);
    lemma_gather_prefix(m2, p, 5, 9);
    assert(m2.query_spec(p)[at] == n);
}

/// With fresh buckets, as `recompute` leaves them, every entry is in the
/// bucket of its current position, and a bucket holds only entries whose
/// position lies in its cell: no entry is stale or filed twice.
pub proof fn lemma_fresh_placement<T: Position>(m: GridModel<T>)
    requires
        m.wf(),
        m.fresh(),
    ensures
        forall|i: int|
            0 <= i < m.entries.len() ==> #[trigger] bucket(m.cells, cell_of(m.entries[i].pos(), m.radius)).contains(
                i as usize,
            ),
        forall|k: CellKey, j: usize|
            #[trigger] bucket(m.cells, k).contains(j) ==> j < m.entries.len() && cell_of(
                m.entries[j as int].pos(),
                m.radius,
            ) == k,
{
    assert forall|i: int| 0 <= i < m.entries.len() implies #[trigger] bucket(
        m.cells,
        cell_of(m.entries[i].pos(), m.radius),
    ).contains(i as usize) by {
        let k = cell_of(m.entries[i].pos(), m.radius);
        assert(m.keys[i] == k);
        lemma_filed_under_contains(m.keys, k, i);
        assert(bucket(m.cells, k) == filed_under(m.keys, k));
    }
    assert forall|k: CellKey, j: usize| #[trigger] bucket(m.cells, k).contains(j) implies j < m.entries.len()
        && cell_of(m.entries[j as int].pos(), m.radius) == k by {
        assert(bucket(m.cells, k) == filed_under(m.keys, k));
        lemma_filed_under_contains(m.keys, k, j as int);
        assert(m.keys[j as int] == m.current_keys()[j as int]);
    }
}

/// A cell coordinate is at most half a coordinate, so a neighbouring cell's
/// coordinate is representable.
proof fn lemma_cell_coordinate(x: int, r: int)
    requires
        i64::MIN <= x <= i64::MAX,
        2 <= r,
    ensures
        -0x4000_0000_0000_0000 <= x / r <= 0x4000_0000_0000_0000,
{
    vstd::arithmetic::div_mod::lemma_fundamental_div_mod(x, r);
    let q = x / r;
    let m = x % r;
    assert(-0x4000_0000_0000_0000 <= q <= 0x4000_0000_0000_0000) by (nonlinear_arith)
        requires
            x == r * q + m,
            0 <= m < r,
            2 <= r,
            -0x8000_0000_0000_0000 <= x <= 0x7fff_ffff_ffff_ffff,
    ;
}

/// The cell of point `p` for cell size `radius`.
fn cell_key_of(p: Vec2, radius: i64) -> (k: CellKey)
    requires
        radius > 1,
    ensures
        k == cell_of(p, radius as int),
        -0x4000_0000_0000_0000 <= k.0 <= 0x4000_0000_0000_0000,
        -0x4000_0000_0000_0000 <= k.1 <= 0x4000_0000_0000_0000,
{
    proof {
        lemma_cell_coordinate(p.x as int, radius as int);
        lemma_cell_coordinate(p.y as int, radius as int);
    }
    let kx = match p.x.checked_div_euclid(radius) {
        Some(q) => q,
        None => 0,
    };
    let ky = match p.y.checked_div_euclid(radius) {
        Some(q) => q,
        None => 0,
    };
    (kx, ky)
}

/// Whether `a` lies within distance `radius` of `b`.
fn is_near(a: Vec2, b: Vec2, radius: i64) -> (r: bool)
    requires
        radius > 1,
    ensures
        r == near(a, b, radius as int),
{
    let dx: i128 = a.x as i128 - b.x as i128;
    let dy: i128 = a.y as i128 - b.y as i128;
    let rr: i128 = radius as i128;
    if dx > rr || -dx > rr || dy > rr || -dy > rr {
        proof {
            assert(dx * dx + dy * dy > rr * rr) by (nonlinear_arith)
                requires
                    dx > rr || -dx > rr || dy > rr || -dy > rr,
                    rr > 1,
            ;
        }
        return false;
    }
    proof {
        assert(0 <= dx * dx <= rr * rr && 0 <= dy * dy <= rr * rr) by (nonlinear_arith)
            requires
                -rr <= dx <= rr,
                -rr <= dy <= rr,
        ;
        assert(rr * rr <= 0x4000_0000_0000_0000_0000_0000_0000_0000) by (nonlinear_arith)
            requires
                0 < rr <= 0x8000_0000_0000_0000,
        ;
    }
    let dx2: u128 = (dx * dx) as u128;
    let dy2: u128 = (dy * dy) as u128;
    dx2 + dy2 <= (rr * rr) as u128
}

/// A uniform grid of buckets over entries with a position. The cell size is
/// also the query radius.
pub struct SpatialGrid2D<T: Position> {
    radius: i64,
    entries: Vec<T>,
    cells: CellMap,
    keys: Ghost<Seq<CellKey>>,
}

impl<T: Position> View for SpatialGrid2D<T> {
    type V = GridModel<T>;

    closed spec fn view(&self) -> GridModel<T> {
        GridModel {
            radius: self.radius as int,
            entries: self.entries@,
            cells: cell_contents(self.cells),
            keys: self.keys@,
        }
    }
}

impl<T: Position> SpatialGrid2D<T> {
    /// An empty grid whose cells and query radius are `radius` (raw units).
    pub fn new(radius: i64) -> (g: Self)
        requires
            radius > 1,
        ensures
            g@.wf(),
            g@.fresh(),
            g@.radius == radius,
            g@.entries.len() == 0,
    {
        let g = SpatialGrid2D { radius, entries: Vec::new(), cells: CellMap::new(), keys: Ghost(Seq::empty()) };
        proof {
            assert(g@.keys =~= g@.current_keys());
        }
        g
    }

    pub fn radius(&self) -> (r: i64)
        ensures
            r == self@.radius,
    {
        self.radius
    }

    /// The number of stored entries.
    pub fn len(&self) -> (n: usize)
        ensures
            n == self@.entries.len(),
    {
        self.entries.len()
    }

    /// All stored entries, by index.
    pub fn iter(&self) -> (r: &Vec<T>)
        ensures
            r@ == self@.entries,
    {
        &self.entries
    }

    /// The cell of point `p`.
    pub fn cell_key(&self, p: Vec2) -> (k: CellKey)
        requires
            self@.wf(),
        ensures
            k == cell_of(p, self@.radius),
            -0x4000_0000_0000_0000 <= k.0 <= 0x4000_0000_0000_0000,
            -0x4000_0000_0000_0000 <= k.1 <= 0x4000_0000_0000_0000,
    {
        cell_key_of(p, self.radius)
    }

    /// Files `e` under the cell of its position.
    pub fn insert(&mut self, e: T)
        requires
            old(self)@.wf(),
            old(self)@.entries.len() < usize::MAX - 1,
        ensures
            final(self)@ == old(self)@.insert_spec(e),
            final(self)@.wf(),
            old(self)@.fresh() ==> final(self)@.fresh(),
    {
        let p = e.position();
        let k = self.cell_key(p);
        let i = self.entries.len();
        self.entries.push(e);
        self.cells.push(k, i);
        self.keys = Ghost(self.keys@.push(k));
        proof {
            let m0 = old(self)@;
            assert forall|kk: CellKey| #[trigger] bucket(self@.cells, kk) == filed_under(self@.keys, kk) by {
                lemma_filed_under_push(m0.keys, k, kk);
                assert(bucket(m0.cells, kk) == filed_under(m0.keys, kk));
                assert(i == m0.keys.len());
            }
            if m0.fresh() {
                assert(self@.keys =~= self@.current_keys());
            }
        }
    }

    /// Removes every entry.
    pub fn clear(&mut self)
        requires
            old(self)@.wf(),
        ensures
            final(self)@.wf(),
            final(self)@.fresh(),
            final(self)@.radius == old(self)@.radius,
            final(self)@.entries.len() == 0,
    {
        self.entries.clear();
        self.cells.clear();
        self.keys = Ghost(Seq::empty());
        proof {
            assert(self@.keys =~= self@.current_keys());
        }
    }
}

impl<T: Position> SpatialGrid2D<T> {
    /// The indices of the entries in the 3×3 block of cells around `p`'s cell
    /// that lie within the radius of `p`, cell by cell in bucket order.
    pub fn query_indices(&self, p: Vec2) -> (r: Vec<usize>)
        requires
            self@.wf(),
        ensures
            r@ == self@.query_spec(p),
            forall|t: int| 0 <= t < r@.len() ==> r@[t] < self@.entries.len(),
    {
        let c = self.cell_key(p);
        let mut out: Vec<usize> = Vec::new();
        let mut o: usize = 0;
        while o < 9
            invariant
                self@.wf(),
                0 <= o <= 9,
                c == cell_of(p, self@.radius),
                -0x4000_0000_0000_0000 <= c.0 <= 0x4000_0000_0000_0000,
                -0x4000_0000_0000_0000 <= c.1 <= 0x4000_0000_0000_0000,
                out@ == self@.gather(p, o as int),
                forall|t: int| 0 <= t < out@.len() ==> out@[t] < self@.entries.len(),
            decreases 9 - o,
        {
            let dx: i64 = (o / 3) as i64 - 1;
            let dy: i64 = (o % 3) as i64 - 1;
            let k: CellKey = (c.0 + dx, c.1 + dy);
            assert(k == neighbour_key(c, o as int));
            let ghost base = out@;
            match self.cells.get(k) {
                Some(b) => {
                    proof {
                        assert(bucket(self@.cells, k) == filed_under(self@.keys, k));
                        lemma_filed_under_contains(self@.keys, k, 0);
                    }
                    let mut t: usize = 0;
                    while t < b.len()
                        invariant
                            self@.wf(),
                            b@ == bucket(self@.cells, k),
                            forall|u: int| 0 <= u < b@.len() ==> b@[u] < self@.entries.len(),
                            0 <= t <= b@.len(),
                            out@ == base + self@.keep_near(b@.take(t as int), p),
                            forall|u: int| 0 <= u < out@.len() ==> out@[u] < self@.entries.len(),
                        decreases b@.len() - t,
                    {
                        let j = b[t];
                        let q = self.entries[j].position();
                        proof {
                            assert(b@.take(t + 1).drop_last() =~= b@.take(t as int));
                        }
                        if is_near(q, p, self.radius) {
                            out.push(j);
                        }
                        proof {
                            assert(out@ =~= base + self@.keep_near(b@.take(t + 1), p));
                        }
                        t += 1;
                    }
                    proof {
                        assert(b@.take(b@.len() as int) =~= b@);
                    }
                },
                None => {
                    proof {
                        assert(out@ =~= base + self@.keep_near(bucket(self@.cells, k), p));
                    }
                },
            }
            o += 1;
        }
        out
    }

    /// Re-files every entry under the cell of its current position.
    pub fn recompute(&mut self)
        requires
            old(self)@.wf(),
        ensures
            final(self)@.wf(),
            final(self)@.fresh(),
            final(self)@.entries == old(self)@.entries,
            final(self)@.radius == old(self)@.radius,
    {
        let ghost target = self@.current_keys();
        self.cells.clear();
        self.keys = Ghost(Seq::empty());
        let n = self.entries.len();
        let mut i: usize = 0;
        while i < n
            invariant
                0 <= i <= n == self@.entries.len(),
                self@.entries == old(self)@.entries,
                self@.radius == old(self)@.radius,
                1 < self@.radius,
                n < usize::MAX,
                target == self@.current_keys(),
                self@.keys == target.take(i as int),
                forall|kk: CellKey| #[trigger] bucket(self@.cells, kk) == filed_under(self@.keys, kk),
            decreases n - i,
        {
            let k = cell_key_of(self.entries[i].position(), self.radius);
            let ghost before = self@;
            self.cells.push(k, i);
            self.keys = Ghost(self.keys@.push(k));
            proof {
                assert(target.take(i + 1) =~= target.take(i as int).push(k));
                assert forall|kk: CellKey| #[trigger] bucket(self@.cells, kk) == filed_under(self@.keys, kk) by {
                    lemma_filed_under_push(before.keys, k, kk);
                    assert(bucket(before.cells, kk) == filed_under(before.keys, kk));
                }
            }
            i += 1;
        }
        proof {
            assert(target.take(n as int) =~= target);
        }
    }

    /// Replaces the entries wholesale, keeping the buckets: the buckets stay
    /// fresh exactly where no position moved to another cell.
    pub fn set_entries(&mut self, v: Vec<T>)
        requires
            old(self)@.wf(),
            v@.len() == old(self)@.entries.len(),
        ensures
            final(self)@ == (GridModel { entries: v@, ..old(self)@ }),
            final(self)@.wf(),
    {
        self.entries = v;
    }
}

impl<T: Position + Copy> SpatialGrid2D<T> {
    /// The entries that a neighbour query at `p` finds.
    pub fn query(&self, p: Vec2) -> (r: Vec<T>)
        requires
            self@.wf(),
        ensures
            r@ == self@.query_spec(p).map_values(|j: usize| self@.entries[j as int]),
    {
        let idx = self.query_indices(p);
        let mut out: Vec<T> = Vec::new();
        let mut t: usize = 0;
        while t < idx.len()
            invariant
                0 <= t <= idx@.len(),
                idx@ == self@.query_spec(p),
                forall|u: int| 0 <= u < idx@.len() ==> idx@[u] < self@.entries.len(),
                out@ == idx@.take(t as int).map_values(|j: usize| self@.entries[j as int]),
            decreases idx@.len() - t,
        {
            out.push(self.entries[idx[t]]);
            proof {
                assert(idx@.take(t + 1).map_values(|j: usize| self@.entries[j as int]) =~= out@);
            }
            t += 1;
        }
        proof {
            assert(idx@.take(idx@.len() as int) =~= idx@);
        }
        out
    }
}

} // verus!
