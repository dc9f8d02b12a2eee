//! A sparse map from grid cells to values, kept as a list of entries in
//! ascending order of their cells.
//!
//! The order makes the list a function of the map: two maps with the same
//! contents have the same entries, whatever edits led to them. Contracts
//! speak of the map; what is computed from the entries (a saved level) is
//! thereby stated too.

use crate::types::HashableVec2;
use crate::types::SpriteUV;
use vstd::prelude::*;

verus! {

impl View for SpriteUV {
    type V = SpriteUV;

    open spec fn view(&self) -> SpriteUV {
        *self
    }
}

/// The order of cells: by `x`, and by `y` among cells of one `x`.
pub open spec fn cell_lt(a: HashableVec2, b: HashableVec2) -> bool {
    a.x < b.x || (a.x == b.x && a.y < b.y)
}

/// Whether `a` comes before `b` in the order of cells.
pub fn cell_less(a: HashableVec2, b: HashableVec2) -> (less: bool)
    ensures
        less == cell_lt(a, b),
{
    a.x < b.x || (a.x == b.x && a.y < b.y)
}

/// Whether some entry of `s` is filed under `cell`.
pub open spec fn has_cell<T>(s: Seq<(HashableVec2, T)>, cell: HashableVec2) -> bool {
    exists|i: int| 0 <= i < s.len() && (#[trigger] s[i]).0 == cell
}

/// The position of an entry of `s` filed under `cell`, where there is one.
pub open spec fn cell_index<T>(s: Seq<(HashableVec2, T)>, cell: HashableVec2) -> int {
    choose|i: int| 0 <= i < s.len() && (#[trigger] s[i]).0 == cell
}

/// No cell has two entries in `s`.
pub open spec fn distinct_cells<T>(s: Seq<(HashableVec2, T)>) -> bool {
    forall|i: int, j: int|
        0 <= i < s.len() && 0 <= j < s.len() && i != j ==> (#[trigger] s[i]).0 != (
        #[trigger] s[j]).0
}

/// The entries of `s` stand in ascending order of their cells.
pub open spec fn ascending<T>(s: Seq<(HashableVec2, T)>) -> bool {
    forall|i: int, j: int|
        0 <= i < j < s.len() ==> cell_lt((#[trigger] s[i]).0, (#[trigger] s[j]).0)
}

/// The map that the entries of `s` form.
pub open spec fn as_map<T>(s: Seq<(HashableVec2, T)>) -> Map<HashableVec2, T> {
    Map::new(|c: HashableVec2| has_cell(s, c), |c: HashableVec2| s[cell_index(s, c)].1)
}

/// The entries of a map in ascending order of their cells.
pub open spec fn entries_of<T>(m: Map<HashableVec2, T>) -> Seq<(HashableVec2, T)> {
    choose|s: Seq<(HashableVec2, T)>| ascending(s) && as_map(s) == m
}

/// Entries in ascending order file no cell twice.
pub proof fn lemma_ascending_distinct<T>(s: Seq<(HashableVec2, T)>)
    requires
        ascending(s),
    ensures
        distinct_cells(s),
{
    assert forall|i: int, j: int|
        0 <= i < s.len() && 0 <= j < s.len() && i != j implies (#[trigger] s[i]).0 != (
    #[trigger] s[j]).0 by {
        if i < j {
            assert(cell_lt(s[i].0, s[j].0));
        } else {
            assert(cell_lt(s[j].0, s[i].0));
        }
    }
}

/// In a list without repeated cells, an entry's position is the position
/// that `cell_index` names, and the map holds the entry.
pub proof fn lemma_cell_index_unique<T>(s: Seq<(HashableVec2, T)>, i: int)
    requires
        distinct_cells(s),
        0 <= i < s.len(),
    ensures
        has_cell(s, s[i].0),
        cell_index(s, s[i].0) == i,
        as_map(s).contains_key(s[i].0),
        as_map(s)[s[i].0] == s[i].1,
{
    let j = cell_index(s, s[i].0);
    assert(0 <= j < s.len() && s[j].0 == s[i].0);
}

/// An entry put in at its place in the order keeps the order, and inserts
/// into the map.
pub proof fn lemma_insert_at<T>(s: Seq<(HashableVec2, T)>, k: int, cell: HashableVec2, value: T)
    requires
        ascending(s),
        0 <= k <= s.len(),
        forall|i: int| 0 <= i < k ==> cell_lt((#[trigger] s[i]).0, cell),
        forall|i: int| k <= i < s.len() ==> cell_lt(cell, (#[trigger] s[i]).0),
    ensures
        ascending(s.insert(k, (cell, value))),
        as_map(s.insert(k, (cell, value))) == as_map(s).insert(cell, value),
{
    let t = s.insert(k, (cell, value));
    assert forall|i: int| 0 <= i < t.len() implies #[trigger] t[i] == (if i < k {
        s[i]
    } else if i == k {
        (cell, value)
    } else {
        s[i - 1]
    }) by {}
    assert forall|i: int, j: int| 0 <= i < j < t.len() implies cell_lt(
        (#[trigger] t[i]).0,
        (#[trigger] t[j]).0,
    ) by {
        let si = if i < k {
            i
        } else {
            i - 1
        };
        let sj = if j < k {
            j
        } else {
            j - 1
        };
        if i != k && j != k {
            assert(t[i] == s[si] && t[j] == s[sj]);
            assert(cell_lt(s[si].0, s[sj].0));
        } else if i == k {
            assert(t[j] == s[sj]);
        } else {
            assert(t[i] == s[si]);
        }
    }
    lemma_ascending_distinct(s);
    lemma_ascending_distinct(t);
    assert forall|c: HashableVec2| has_cell(t, c) == (has_cell(s, c) || c == cell) by {
        if has_cell(t, c) {
            let i = cell_index(t, c);
            if i < k {
                assert(s[i].0 == c);
            } else if i > k {
                assert(s[i - 1].0 == c);
            }
        }
        if has_cell(s, c) {
            let i = cell_index(s, c);
            let ti = if i < k {
                i
            } else {
                i + 1
            };
            assert(t[ti] == s[i]);
            assert(t[ti].0 == c);
        }
        if c == cell {
            assert(t[k].0 == c);
        }
    }
    assert forall|c: HashableVec2| has_cell(t, c) implies #[trigger] as_map(t)[c] == as_map(
        s,
    ).insert(cell, value)[c] by {
        let i = cell_index(t, c);
        lemma_cell_index_unique(t, i);
        if i < k {
            assert(t[i] == s[i]);
            lemma_cell_index_unique(s, i);
        } else if i > k {
            assert(t[i] == s[i - 1]);
            lemma_cell_index_unique(s, i - 1);
        }
    }
    assert(as_map(t) =~= as_map(s).insert(cell, value));
}

/// A new value for an entry keeps the order, and inserts into the map.
pub proof fn lemma_update_at<T>(s: Seq<(HashableVec2, T)>, k: int, value: T)
    requires
        ascending(s),
        0 <= k < s.len(),
    ensures
        ascending(s.update(k, (s[k].0, value))),
        as_map(s.update(k, (s[k].0, value))) == as_map(s).insert(s[k].0, value),
{
    let cell = s[k].0;
    let t = s.update(k, (cell, value));
    assert forall|i: int| 0 <= i < t.len() implies (#[trigger] t[i]).0 == s[i].0 by {}
    assert forall|i: int, j: int| 0 <= i < j < t.len() implies cell_lt(
        (#[trigger] t[i]).0,
        (#[trigger] t[j]).0,
    ) by {
        assert(cell_lt(s[i].0, s[j].0));
    }
    lemma_ascending_distinct(s);
    lemma_ascending_distinct(t);
    assert forall|c: HashableVec2| has_cell(t, c) == has_cell(s, c) by {
        if has_cell(t, c) {
            let i = cell_index(t, c);
            assert(s[i].0 == c);
        }
        if has_cell(s, c) {
            let i = cell_index(s, c);
            assert(t[i].0 == c);
        }
    }
    assert(has_cell(s, cell));
    assert forall|c: HashableVec2| has_cell(t, c) implies #[trigger] as_map(t)[c] == as_map(
        s,
    ).insert(cell, value)[c] by {
        let i = cell_index(t, c);
        assert(t[i].0 == c && s[i].0 == c);
        lemma_cell_index_unique(t, i);
        lemma_cell_index_unique(s, i);
    }
    assert(as_map(t) =~= as_map(s).insert(cell, value));
}

/// Taking an entry out keeps the order, and removes from the map.
pub proof fn lemma_remove_at<T>(s: Seq<(HashableVec2, T)>, k: int)
    requires
        ascending(s),
        0 <= k < s.len(),
    ensures
        ascending(s.remove(k)),
        as_map(s.remove(k)) == as_map(s).remove(s[k].0),
{
    let cell = s[k].0;
    let t = s.remove(k);
    assert forall|i: int| 0 <= i < t.len() implies (#[trigger] t[i]) == s[if i < k {
        i
    } else {
        i + 1
    }] by {}
    assert forall|i: int, j: int| 0 <= i < j < t.len() implies cell_lt(
        (#[trigger] t[i]).0,
        (#[trigger] t[j]).0,
    ) by {
        let si = if i < k {
            i
        } else {
            i + 1
        };
        let sj = if j < k {
            j
        } else {
            j + 1
        };
        assert(t[i] == s[si] && t[j] == s[sj]);
        assert(cell_lt(s[si].0, s[sj].0));
    }
    lemma_ascending_distinct(s);
    lemma_ascending_distinct(t);
    assert forall|c: HashableVec2| has_cell(t, c) == (has_cell(s, c) && c != cell) by {
        if has_cell(t, c) {
            let i = cell_index(t, c);
            let si = if i < k {
                i
            } else {
                i + 1
            };
            assert(t[i] == s[si]);
            assert(s[si].0 == c);
        }
        if has_cell(s, c) && c != cell {
            let i = cell_index(s, c);
            let ti = if i < k {
                i
            } else {
                i - 1
            };
            assert(t[ti] == s[i]);
            assert(t[ti].0 == c);
        }
    }
    assert forall|c: HashableVec2| has_cell(t, c) implies #[trigger] as_map(t)[c] == as_map(
        s,
    ).remove(cell)[c] by {
        let i = cell_index(t, c);
        let si = if i < k {
            i
        } else {
            i + 1
        };
        assert(t[i] == s[si]);
        lemma_cell_index_unique(t, i);
        lemma_cell_index_unique(s, si);
    }
    assert(as_map(t) =~= as_map(s).remove(cell));
}

/// The empty list forms the empty map.
pub proof fn lemma_as_map_empty<T>()
    ensures
        ascending(Seq::<(HashableVec2, T)>::empty()),
        as_map(Seq::<(HashableVec2, T)>::empty()) == Map::<HashableVec2, T>::empty(),
{
    assert(as_map(Seq::<(HashableVec2, T)>::empty()) =~= Map::<HashableVec2, T>::empty());
}

/// Two lists in ascending order that form the same map are the same list.
pub proof fn lemma_ascending_unique<T>(a: Seq<(HashableVec2, T)>, b: Seq<(HashableVec2, T)>)
    requires
        ascending(a),
        ascending(b),
        as_map(a) == as_map(b),
    ensures
        a == b,
    decreases a.len(),
{
    lemma_ascending_distinct(a);
    lemma_ascending_distinct(b);
    if a.len() == 0 {
        if b.len() > 0 {
            lemma_cell_index_unique(b, 0);
            assert(as_map(a).contains_key(b[0].0));
            let i = cell_index(a, b[0].0);
            assert(0 <= i < a.len());
        }
        assert(a =~= b);
    } else {
        lemma_cell_index_unique(a, 0);
        assert(as_map(b).contains_key(a[0].0));
        let j = cell_index(b, a[0].0);
        assert(0 <= j < b.len() && b[j].0 == a[0].0);
        lemma_cell_index_unique(b, 0);
        assert(as_map(a).contains_key(b[0].0));
        let i = cell_index(a, b[0].0);
        assert(0 <= i < a.len() && a[i].0 == b[0].0);
        if j > 0 {
            assert(cell_lt(b[0].0, b[j].0));
            if i > 0 {
                assert(cell_lt(a[0].0, a[i].0));
            }
        }
        assert(j == 0);
        lemma_cell_index_unique(b, 0);
        assert(a[0] == b[0]);
        lemma_remove_at(a, 0);
        lemma_remove_at(b, 0);
        lemma_ascending_unique(a.remove(0), b.remove(0));
        assert(a =~= seq![a[0]] + a.remove(0));
        assert(b =~= seq![b[0]] + b.remove(0));
    }
}

/// A list in ascending order is the list of the entries of its map.
pub proof fn lemma_entries_of<T>(s: Seq<(HashableVec2, T)>)
    requires
        ascending(s),
    ensures
        entries_of(as_map(s)) == s,
{
    let t = entries_of(as_map(s));
    assert(ascending(t) && as_map(t) == as_map(s));
    lemma_ascending_unique(t, s);
}

/// A sparse map from grid cells to values.
pub struct CellMap<V> {
    entries: Vec<(HashableVec2, V)>,
}

impl<V: View> View for CellMap<V> {
    type V = Map<HashableVec2, V::V>;

    open spec fn view(&self) -> Map<HashableVec2, V::V> {
        as_map(self.entries())
    }
}

impl<V: View> CellMap<V> {
    /// The entries, each value given by its view.
    pub closed spec fn entries(&self) -> Seq<(HashableVec2, V::V)> {
        self.entries@.map_values(|e: (HashableVec2, V)| (e.0, e.1@))
    }

    /// The entries stand in ascending order of their cells.
    pub open spec fn wf(&self) -> bool {
        ascending(self.entries())
    }

    /// The entries of a well-formed map are the entries of the map it
    /// forms, in ascending order of their cells.
    pub proof fn lemma_entries(&self)
        requires
            self.wf(),
        ensures
            self.entries() == entries_of(self@),
            distinct_cells(self.entries()),
    {
        lemma_entries_of(self.entries());
        lemma_ascending_distinct(self.entries());
    }

    /// An empty map.
    pub fn new() -> (m: Self)
        ensures
            m.wf(),
            m.entries() == Seq::<(HashableVec2, V::V)>::empty(),
            m@ == Map::<HashableVec2, V::V>::empty(),
    {
        let m = CellMap { entries: Vec::new() };
        proof {
            assert(m.entries() =~= Seq::<(HashableVec2, V::V)>::empty());
            lemma_as_map_empty::<V::V>();
        }
        m
    }

    /// The number of entries.
    pub fn len(&self) -> (n: usize)
        ensures
            n == self.entries().len(),
    {
        self.entries.len()
    }

    /// Whether the map has no entry.
    pub fn is_empty(&self) -> (b: bool)
        ensures
            b == (self.entries().len() == 0),
    {
        self.entries.len() == 0
    }

    /// The cell of the entry at position `i`.
    pub fn cell_at(&self, i: usize) -> (cell: HashableVec2)
        requires
            i < self.entries().len(),
        ensures
            cell == self.entries()[i as int].0,
    {
        self.entries[i].0
    }

    /// The value of the entry at position `i`.
    pub fn value_at(&self, i: usize) -> (value: &V)
        requires
            i < self.entries().len(),
        ensures
            value@ == self.entries()[i as int].1,
    {
        &self.entries[i].1
    }

    /// Finds `cell`: whether it has an entry, and the position of the
    /// entry, or else the position at which an entry of `cell` would stand.
    fn locate(&self, cell: HashableVec2) -> (r: (bool, usize))
        requires
            self.wf(),
        ensures
            r.1 <= self.entries().len(),
            r.0 ==> r.1 < self.entries().len() && self.entries()[r.1 as int].0 == cell,
            !r.0 ==> !has_cell(self.entries(), cell),
            !r.0 ==> forall|i: int| 0 <= i < r.1 ==> cell_lt((#[trigger] self.entries()[i]).0, cell),
            !r.0 ==> forall|i: int|
                r.1 <= i < self.entries().len() ==> cell_lt(cell, (#[trigger] self.entries()[i]).0),
    {
        let n = self.entries.len();
        let mut lo: usize = 0;
        let mut hi: usize = n;
        while lo < hi
            invariant
                self.wf(),
                n == self.entries().len(),
                0 <= lo <= hi <= n,
                forall|i: int| 0 <= i < lo ==> cell_lt((#[trigger] self.entries()[i]).0, cell),
                forall|i: int| hi <= i < n ==> !cell_lt((#[trigger] self.entries()[i]).0, cell),
            decreases hi - lo,
        {
            let mid = lo + (hi - lo) / 2;
            if cell_less(self.entries[mid].0, cell) {
                proof {
                    assert forall|i: int| 0 <= i < mid + 1 implies cell_lt(
                        (#[trigger] self.entries()[i]).0,
                        cell,
                    ) by {
                        if i < mid {
                            assert(cell_lt(self.entries()[i].0, self.entries()[mid as int].0));
                        }
                    }
                }
                lo = mid + 1;
            } else {
                proof {
                    assert forall|i: int| mid <= i < n implies !cell_lt(
                        (#[trigger] self.entries()[i]).0,
                        cell,
                    ) by {
                        if mid < i {
                            assert(cell_lt(self.entries()[mid as int].0, self.entries()[i].0));
                        }
                    }
                }
                hi = mid;
            }
        }
        if lo < n && self.entries[lo].0 == cell {
            (true, lo)
        } else {
            proof {
                assert forall|i: int| lo <= i < n implies cell_lt(
                    cell,
                    (#[trigger] self.entries()[i]).0,
                ) by {
                    if lo < i {
                        assert(cell_lt(self.entries()[lo as int].0, self.entries()[i].0));
                    }
                }
                if has_cell(self.entries(), cell) {
                    let i = cell_index(self.entries(), cell);
                    assert(self.entries()[i].0 == cell);
                }
            }
            (false, lo)
        }
    }

    /// The position of the entry of `cell`, if it has one.
    pub fn position(&self, cell: HashableVec2) -> (r: Option<usize>)
        requires
            self.wf(),
        ensures
            match r {
                Some(i) => i < self.entries().len() && self.entries()[i as int].0 == cell,
                None => !has_cell(self.entries(), cell),
            },
    {
        let (found, i) = self.locate(cell);
        if found {
            Some(i)
        } else {
            None
        }
    }

    /// Whether `cell` has an entry.
    pub fn contains(&self, cell: HashableVec2) -> (b: bool)
        requires
            self.wf(),
        ensures
            b == self@.contains_key(cell),
    {
        self.locate(cell).0
    }

    /// The value filed under `cell`, if there is one.
    pub fn get(&self, cell: HashableVec2) -> (r: Option<&V>)
        requires
            self.wf(),
        ensures
            match r {
                Some(v) => self@.contains_key(cell) && v@ == self@[cell],
                None => !self@.contains_key(cell),
            },
    {
        let (found, i) = self.locate(cell);
        if found {
            proof {
                lemma_ascending_distinct(self.entries());
                lemma_cell_index_unique(self.entries(), i as int);
            }
            Some(&self.entries[i].1)
        } else {
            None
        }
    }

    /// Files `value` under `cell` and hands back the value that `cell` had.
    pub fn insert(&mut self, cell: HashableVec2, value: V) -> (prev: Option<V>)
        requires
            old(self).wf(),
        ensures
            final(self).wf(),
            final(self)@ == old(self)@.insert(cell, value@),
            match prev {
                Some(p) => old(self)@.contains_key(cell) && p@ == old(self)@[cell],
                None => !old(self)@.contains_key(cell),
            },
    {
        let (found, i) = self.locate(cell);
        proof {
            lemma_ascending_distinct(self.entries());
        }
        if found {
            proof {
                lemma_cell_index_unique(self.entries(), i as int);
                lemma_update_at(self.entries(), i as int, value@);
            }
            let held = self.entries.remove(i);
            self.entries.insert(i, (cell, value));
            proof {
                assert(self.entries() =~= old(self).entries().update(i as int, (cell, value@)));
            }
            Some(held.1)
        } else {
            proof {
                lemma_insert_at(self.entries(), i as int, cell, value@);
            }
            self.entries.insert(i, (cell, value));
            proof {
                assert(self.entries() =~= old(self).entries().insert(i as int, (cell, value@)));
            }
            None
        }
    }

    /// Takes the entry of `cell` out and hands back its value.
    pub fn remove(&mut self, cell: HashableVec2) -> (prev: Option<V>)
        requires
            old(self).wf(),
        ensures
            final(self).wf(),
            final(self)@ == old(self)@.remove(cell),
            match prev {
                Some(p) => old(self)@.contains_key(cell) && p@ == old(self)@[cell],
                None => !old(self)@.contains_key(cell),
            },
    {
        let (found, i) = self.locate(cell);
        proof {
            lemma_ascending_distinct(self.entries());
        }
        if found {
            proof {
                lemma_cell_index_unique(self.entries(), i as int);
                lemma_remove_at(self.entries(), i as int);
            }
            let held = self.entries.remove(i);
            proof {
                assert(self.entries() =~= old(self).entries().remove(i as int));
            }
            Some(held.1)
        } else {
            proof {
                assert(self@ =~= old(self)@.remove(cell));
            }
            None
        }
    }

    /// Takes every entry out.
    pub fn clear(&mut self)
        ensures
            final(self).wf(),
            final(self).entries() == Seq::<(HashableVec2, V::V)>::empty(),
            final(self)@ == Map::<HashableVec2, V::V>::empty(),
    {
        self.entries.clear();
        proof {
            assert(self.entries() =~= Seq::<(HashableVec2, V::V)>::empty());
            lemma_as_map_empty::<V::V>();
        }
    }
}

} // verus!
