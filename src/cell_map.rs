//! The bucket table of the spatial index: bevy's `HashMap` (hashbrown with
//! a fixed-key aHash hasher) from cell coordinates to lists of entry indices.
//!
//! The map itself is opaque to the verifier; `cell_contents` names what it
//! holds, and each method below states its effect on that.

use vstd::prelude::*;
use bevy::utils::HashMap;

verus! {

/// Integer coordinates of a grid cell.
pub type CellKey = (i64, i64);

/// A map from cell coordinates to the indices filed in that cell.
#[verifier::external_body]
pub struct CellMap {
    inner: HashMap<CellKey, Vec<usize>>,
}

/// What a [`CellMap`] holds.
pub uninterp spec fn cell_contents(m: CellMap) -> Map<CellKey, Seq<usize>>;

/// The map with no keys.
pub open spec fn no_cells() -> Map<CellKey, Seq<usize>> {
    Map::empty()
}

/// The list filed under `k`, empty where there is none.
pub open spec fn bucket(m: Map<CellKey, Seq<usize>>, k: CellKey) -> Seq<usize> {
    if m.contains_key(k) {
        m[k]
    } else {
        Seq::empty()
    }
}

impl CellMap {
    /// Relies on hashbrown's `Default` for `HashMap`: a map with no entries.
    #[verifier::external_body]
    pub(crate) fn new() -> (m: CellMap)
        ensures
            cell_contents(m) == no_cells(),
    {
        CellMap { inner: HashMap::default() }
    }

    /// Relies on hashbrown's `HashMap::get`: the value under `k`, if any.
    #[verifier::external_body]
    pub(crate) fn get(&self, k: CellKey) -> (r: Option<&Vec<usize>>)
        ensures
            match r {
                Some(v) => cell_contents(*self).contains_key(k) && v@ == cell_contents(*self)[k],
                None => !cell_contents(*self).contains_key(k),
            },
    {
        self.inner.get(&k)
    }

    /// Relies on hashbrown's `HashMap::remove`: takes the value under `k` out
    /// of the map.
    #[verifier::external_body]
    pub(crate) fn remove(&mut self, k: CellKey) -> (r: Option<Vec<usize>>)
        ensures
            cell_contents(*final(self)) == cell_contents(*old(self)).remove(k),
            match r {
                Some(v) => cell_contents(*old(self)).contains_key(k) && v@ == cell_contents(*old(self))[k],
                None => !cell_contents(*old(self)).contains_key(k),
            },
    {
        self.inner.remove(&k)
    }

    /// Relies on hashbrown's `HashMap::insert`: stores `v` under `k`,
    /// replacing what was there.
    #[verifier::external_body]
    pub(crate) fn insert(&mut self, k: CellKey, v: Vec<usize>)
        ensures
            cell_contents(*final(self)) == cell_contents(*old(self)).insert(k, v@),
    {
        self.inner.insert(k, v);
    }

    /// Relies on hashbrown's `HashMap::clear`: removes every key.
    #[verifier::external_body]
    pub(crate) fn clear(&mut self)
        ensures
            cell_contents(*final(self)) == no_cells(),
    {
        self.inner.clear();
    }

    /// Appends `i` to the list under `k`, starting an empty list where there
    /// is none.
    pub(crate) fn push(&mut self, k: CellKey, i: usize)
        ensures
            cell_contents(*final(self)) == cell_contents(*old(self)).insert(
                k,
                bucket(cell_contents(*old(self)), k).push(i),
            ),
    {
        let mut v = match self.remove(k) {
            Some(v) => v,
            None => Vec::new(),
        };
        v.push(i);
        self.insert(k, v);
        proof {
            assert(cell_contents(*self) =~= cell_contents(*old(self)).insert(
                k,
                bucket(cell_contents(*old(self)), k).push(i),
            ));
        }
    }
}

} // verus!
