//! Two small sets, each kept in ascending order: the cells of the collision
//! layer, and the labels that entities use.

use crate::cell_map::as_map;
use crate::cell_map::ascending;
use crate::cell_map::cell_lt;
use crate::cell_map::has_cell;
use crate::cell_map::lemma_ascending_unique;
use crate::cell_map::CellMap;
use crate::label_order::label_less;
use crate::label_order::label_lt;
use crate::label_order::lemma_label_lt_connected;
use crate::label_order::lemma_label_lt_irreflexive;
use crate::label_order::lemma_label_lt_transitive;
use crate::types::HashableVec2;
use vstd::prelude::*;

verus! {

/// The cells of `s` stand in ascending order.
pub open spec fn ascending_cells(s: Seq<HashableVec2>) -> bool {
    forall|i: int, j: int| 0 <= i < j < s.len() ==> cell_lt(#[trigger] s[i], #[trigger] s[j])
}

/// The cells of a set in ascending order.
pub open spec fn cells_of(set: Set<HashableVec2>) -> Seq<HashableVec2> {
    choose|s: Seq<HashableVec2>| ascending_cells(s) && s.to_set() == set
}

/// The cells as entries without a value.
pub open spec fn unit_entries(s: Seq<HashableVec2>) -> Seq<(HashableVec2, ())> {
    s.map_values(|c: HashableVec2| (c, ()))
}

/// Cells in ascending order are entries in ascending order, and the set of
/// the cells is the domain of the map of the entries.
pub proof fn lemma_unit_entries(s: Seq<HashableVec2>)
    ensures
        ascending_cells(s) == ascending(unit_entries(s)),
        as_map(unit_entries(s)).dom() == s.to_set(),
{
    let p = unit_entries(s);
    if ascending_cells(s) {
        assert forall|i: int, j: int| 0 <= i < j < p.len() implies cell_lt(
            (#[trigger] p[i]).0,
            (#[trigger] p[j]).0,
        ) by {
            assert(cell_lt(s[i], s[j]));
        }
    }
    if ascending(p) {
        assert forall|i: int, j: int| 0 <= i < j < s.len() implies cell_lt(
            #[trigger] s[i],
            #[trigger] s[j],
        ) by {
            assert(cell_lt(p[i].0, p[j].0));
        }
    }
    assert forall|c: HashableVec2| has_cell(p, c) == s.contains(c) by {
        if has_cell(p, c) {
            let i = choose|i: int| 0 <= i < p.len() && (#[trigger] p[i]).0 == c;
            assert(s[i] == c);
        }
        if s.contains(c) {
            let i = choose|i: int| 0 <= i < s.len() && s[i] == c;
            assert(p[i].0 == c);
        }
    }
    assert(as_map(p).dom() =~= s.to_set());
}

/// Two lists of cells in ascending order with the same members are the
/// same list.
pub proof fn lemma_ascending_cells_unique(a: Seq<HashableVec2>, b: Seq<HashableVec2>)
    requires
        ascending_cells(a),
        ascending_cells(b),
        a.to_set() == b.to_set(),
    ensures
        a == b,
{
    lemma_unit_entries(a);
    lemma_unit_entries(b);
    assert(as_map(unit_entries(a)) =~= as_map(unit_entries(b)));
    lemma_ascending_unique(unit_entries(a), unit_entries(b));
    assert forall|i: int| 0 <= i < a.len() implies a[i] == b[i] by {
        assert(unit_entries(a)[i].0 == a[i]);
        assert(unit_entries(b)[i].0 == b[i]);
    }
    assert(a.len() == unit_entries(a).len());
    assert(b.len() == unit_entries(b).len());
    assert(a =~= b);
}

/// A list of cells in ascending order is the list of the cells of its set.
pub proof fn lemma_cells_of(s: Seq<HashableVec2>)
    requires
        ascending_cells(s),
    ensures
        cells_of(s.to_set()) == s,
{
    let t = cells_of(s.to_set());
    assert(ascending_cells(t) && t.to_set() == s.to_set());
    lemma_ascending_cells_unique(t, s);
}

/// A set of grid cells, kept in ascending order.
pub struct CellSet {
    cells: CellMap<()>,
}

impl View for CellSet {
    type V = Set<HashableVec2>;

    open spec fn view(&self) -> Set<HashableVec2> {
        self.entries().to_set()
    }
}

impl CellSet {
    /// The cells.
    pub closed spec fn entries(&self) -> Seq<HashableVec2> {
        self.cells.entries().map_values(|e: (HashableVec2, ())| e.0)
    }

    /// The cells stand in ascending order.
    pub open spec fn wf(&self) -> bool {
        ascending_cells(self.entries())
    }

    /// The cells of a well-formed set are the cells of the set it forms,
    /// in ascending order.
    pub proof fn lemma_entries(&self)
        requires
            self.wf(),
        ensures
            self.entries() == cells_of(self@),
            self.entries().no_duplicates(),
    {
        lemma_cells_of(self.entries());
        assert forall|i: int, j: int|
            0 <= i < self.entries().len() && 0 <= j < self.entries().len() && i
                != j implies self.entries()[i] != self.entries()[j] by {
            if i < j {
                assert(cell_lt(self.entries()[i], self.entries()[j]));
            } else {
                assert(cell_lt(self.entries()[j], self.entries()[i]));
            }
        }
    }

    /// How the set is held: as the domain of a map without values.
    proof fn lemma_held(&self)
        ensures
            self.wf() == self.cells.wf(),
            self@ == self.cells@.dom(),
    {
        assert forall|i: int| 0 <= i < self.cells.entries().len() implies unit_entries(
            self.entries(),
        )[i] == #[trigger] self.cells.entries()[i] by {
            let entry = self.cells.entries()[i];
            assert(entry.1 == ());
            assert(entry == (entry.0, ()));
        }
        assert(unit_entries(self.entries()) =~= self.cells.entries());
        lemma_unit_entries(self.entries());
    }

    /// An empty set.
    pub fn new() -> (s: Self)
        ensures
            s.wf(),
            s.entries() == Seq::<HashableVec2>::empty(),
            s@ == Set::<HashableVec2>::empty(),
    {
        let s = CellSet { cells: CellMap::new() };
        proof {
            assert(s.entries() =~= Seq::<HashableVec2>::empty());
            assert(s@ =~= Set::<HashableVec2>::empty());
        }
        s
    }

    /// The number of cells.
    pub fn len(&self) -> (n: usize)
        ensures
            n == self.entries().len(),
    {
        self.cells.len()
    }

    /// Whether the set has no cell.
    pub fn is_empty(&self) -> (b: bool)
        ensures
            b == (self.entries().len() == 0),
    {
        self.cells.is_empty()
    }

    /// The cell at position `i`.
    pub fn cell_at(&self, i: usize) -> (cell: HashableVec2)
        requires
            i < self.entries().len(),
        ensures
            cell == self.entries()[i as int],
    {
        self.cells.cell_at(i)
    }

    /// The position of `cell`, if it is a member.
    pub fn position(&self, cell: HashableVec2) -> (r: Option<usize>)
        requires
            self.wf(),
        ensures
            match r {
                Some(i) => i < self.entries().len() && self.entries()[i as int] == cell,
                None => !self.entries().contains(cell),
            },
    {
        proof {
            self.lemma_held();
        }
        let r = self.cells.position(cell);
        proof {
            if r is None && self.entries().contains(cell) {
                let i = choose|i: int| 0 <= i < self.entries().len() && self.entries()[i] == cell;
                assert(self.cells.entries()[i].0 == cell);
            }
        }
        r
    }

    /// Whether `cell` is a member.
    pub fn contains(&self, cell: HashableVec2) -> (b: bool)
        requires
            self.wf(),
        ensures
            b == self@.contains(cell),
    {
        proof {
            self.lemma_held();
        }
        self.cells.contains(cell)
    }

    /// Makes `cell` a member; says whether it was none before.
    pub fn insert(&mut self, cell: HashableVec2) -> (added: bool)
        requires
            old(self).wf(),
        ensures
            final(self).wf(),
            final(self)@ == old(self)@.insert(cell),
            added == !old(self)@.contains(cell),
    {
        proof {
            self.lemma_held();
        }
        let prev = self.cells.insert(cell, ());
        proof {
            self.lemma_held();
            assert(self.cells@.dom() =~= old(self).cells@.dom().insert(cell));
        }
        prev.is_none()
    }

    /// Takes `cell` out; says whether it was a member.
    pub fn remove(&mut self, cell: HashableVec2) -> (removed: bool)
        requires
            old(self).wf(),
        ensures
            final(self).wf(),
            final(self)@ == old(self)@.remove(cell),
            removed == old(self)@.contains(cell),
    {
        proof {
            self.lemma_held();
        }
        let prev = self.cells.remove(cell);
        proof {
            self.lemma_held();
            assert(self.cells@.dom() =~= old(self).cells@.dom().remove(cell));
        }
        prev.is_some()
    }

    /// Takes every cell out.
    pub fn clear(&mut self)
        ensures
            final(self).wf(),
            final(self).entries() == Seq::<HashableVec2>::empty(),
            final(self)@ == Set::<HashableVec2>::empty(),
    {
        self.cells.clear();
        proof {
            assert(self.entries() =~= Seq::<HashableVec2>::empty());
            assert(self@ =~= Set::<HashableVec2>::empty());
        }
    }
}

/// The labels of `s` stand in ascending order.
pub open spec fn ascending_labels(s: Seq<Seq<char>>) -> bool {
    forall|i: int, j: int| 0 <= i < j < s.len() ==> label_lt(#[trigger] s[i], #[trigger] s[j])
}

/// The labels of a set in ascending order.
pub open spec fn labels_of(set: Set<Seq<char>>) -> Seq<Seq<char>> {
    choose|s: Seq<Seq<char>>| ascending_labels(s) && s.to_set() == set
}

/// Labels in ascending order are pairwise different.
pub proof fn lemma_ascending_labels_distinct(s: Seq<Seq<char>>)
    requires
        ascending_labels(s),
    ensures
        s.no_duplicates(),
{
    assert forall|i: int, j: int| 0 <= i < s.len() && 0 <= j < s.len() && i != j implies s[i]
        != s[j] by {
        lemma_label_lt_irreflexive(s[i]);
        if i < j {
            assert(label_lt(s[i], s[j]));
        } else {
            assert(label_lt(s[j], s[i]));
        }
    }
}

/// A label put in at its place in the order keeps the order, and inserts
/// into the set.
pub proof fn lemma_label_insert_at(s: Seq<Seq<char>>, k: int, label: Seq<char>)
    requires
        ascending_labels(s),
        0 <= k <= s.len(),
        forall|i: int| 0 <= i < k ==> label_lt(#[trigger] s[i], label),
        forall|i: int| k <= i < s.len() ==> label_lt(label, #[trigger] s[i]),
    ensures
        ascending_labels(s.insert(k, label)),
        s.insert(k, label).to_set() == s.to_set().insert(label),
{
    let t = s.insert(k, label);
    assert forall|i: int| 0 <= i < t.len() implies #[trigger] t[i] == (if i < k {
        s[i]
    } else if i == k {
        label
    } else {
        s[i - 1]
    }) by {}
    assert forall|i: int, j: int| 0 <= i < j < t.len() implies label_lt(
        #[trigger] t[i],
        #[trigger] t[j],
    ) by {
        let si = if i < k {
            i
        } else {
            i - 1
        };
        let sj = if j < k {
            j
        } else {
            j - 1
        };
        if i != k && j != k {
            assert(t[i] == s[si] && t[j] == s[sj]);
            assert(label_lt(s[si], s[sj]));
        } else if i == k {
            assert(t[j] == s[sj]);
        } else {
            assert(t[i] == s[si]);
        }
    }
    assert forall|x: Seq<char>| t.contains(x) == (s.contains(x) || x == label) by {
        if t.contains(x) {
            let i = choose|i: int| 0 <= i < t.len() && t[i] == x;
            if i < k {
                assert(s[i] == x);
            } else if i > k {
                assert(s[i - 1] == x);
            }
        }
        if s.contains(x) {
            let i = choose|i: int| 0 <= i < s.len() && s[i] == x;
            let ti = if i < k {
                i
            } else {
                i + 1
            };
            assert(t[ti] == x);
        }
        if x == label {
            assert(t[k] == x);
        }
    }
    assert(t.to_set() =~= s.to_set().insert(label));
}

/// Taking a label out keeps the order, and removes from the set.
pub proof fn lemma_label_remove_at(s: Seq<Seq<char>>, k: int)
    requires
        ascending_labels(s),
        0 <= k < s.len(),
    ensures
        ascending_labels(s.remove(k)),
        s.remove(k).to_set() == s.to_set().remove(s[k]),
{
    let t = s.remove(k);
    lemma_ascending_labels_distinct(s);
    assert forall|i: int| 0 <= i < t.len() implies #[trigger] t[i] == s[if i < k {
        i
    } else {
        i + 1
    }] by {}
    assert forall|i: int, j: int| 0 <= i < j < t.len() implies label_lt(
        #[trigger] t[i],
        #[trigger] t[j],
    ) by {
        let si = if i < k {
            i
        } else {
            i + 1
        };
        let sj = if j < k {
            j
        } else {
            j + 1
        };
        assert(t[i] == s[si] && t[j] == s[sj]);
        assert(label_lt(s[si], s[sj]));
    }
    assert forall|x: Seq<char>| t.contains(x) == (s.contains(x) && x != s[k]) by {
        if t.contains(x) {
            let i = choose|i: int| 0 <= i < t.len() && t[i] == x;
            let si = if i < k {
                i
            } else {
                i + 1
            };
            assert(t[i] == s[si]);
            assert(s[si] == x);
        }
        if s.contains(x) && x != s[k] {
            let i = choose|i: int| 0 <= i < s.len() && s[i] == x;
            let ti = if i < k {
                i
            } else {
                i - 1
            };
            assert(t[ti] == s[i]);
        }
    }
    assert(t.to_set() =~= s.to_set().remove(s[k]));
}

/// Two lists of labels in ascending order with the same members are the
/// same list.
pub proof fn lemma_ascending_labels_unique(a: Seq<Seq<char>>, b: Seq<Seq<char>>)
    requires
        ascending_labels(a),
        ascending_labels(b),
        a.to_set() == b.to_set(),
    ensures
        a == b,
    decreases a.len(),
{
    if a.len() == 0 {
        if b.len() > 0 {
            assert(b.to_set().contains(b[0]));
            assert(a.contains(b[0]));
        }
        assert(a =~= b);
    } else {
        assert(a.to_set().contains(a[0]));
        assert(b.contains(a[0]));
        let j = choose|j: int| 0 <= j < b.len() && b[j] == a[0];
        assert(b.to_set().contains(b[0]));
        assert(a.contains(b[0]));
        let i = choose|i: int| 0 <= i < a.len() && a[i] == b[0];
        if j > 0 {
            assert(label_lt(b[0], b[j]));
            if i > 0 {
                assert(label_lt(a[0], a[i]));
                lemma_label_lt_transitive(a[0], a[i], a[0]);
            }
            lemma_label_lt_irreflexive(a[0]);
        }
        assert(j == 0);
        lemma_label_remove_at(a, 0);
        lemma_label_remove_at(b, 0);
        lemma_ascending_labels_unique(a.remove(0), b.remove(0));
        assert(a =~= seq![a[0]] + a.remove(0));
        assert(b =~= seq![b[0]] + b.remove(0));
    }
}

/// A list of labels in ascending order is the list of the labels of its
/// set.
pub proof fn lemma_labels_of(s: Seq<Seq<char>>)
    requires
        ascending_labels(s),
    ensures
        labels_of(s.to_set()) == s,
{
    let t = labels_of(s.to_set());
    assert(ascending_labels(t) && t.to_set() == s.to_set());
    lemma_ascending_labels_unique(t, s);
}

/// The set of labels that entities use, kept in ascending order, each label
/// given by its characters.
pub struct LabelSet {
    labels: Vec<String>,
}

impl View for LabelSet {
    type V = Set<Seq<char>>;

    open spec fn view(&self) -> Set<Seq<char>> {
        self.entries().to_set()
    }
}

impl LabelSet {
    /// The labels.
    pub closed spec fn entries(&self) -> Seq<Seq<char>> {
        self.labels@.map_values(|l: String| l@)
    }

    /// The labels stand in ascending order.
    pub open spec fn wf(&self) -> bool {
        ascending_labels(self.entries())
    }

    /// The labels of a well-formed set are the labels of the set it forms,
    /// in ascending order.
    pub proof fn lemma_entries(&self)
        requires
            self.wf(),
        ensures
            self.entries() == labels_of(self@),
            self.entries().no_duplicates(),
    {
        lemma_labels_of(self.entries());
        lemma_ascending_labels_distinct(self.entries());
    }

    /// An empty set.
    pub fn new() -> (s: Self)
        ensures
            s.wf(),
            s.entries() == Seq::<Seq<char>>::empty(),
            s@ == Set::<Seq<char>>::empty(),
    {
        let s = LabelSet { labels: Vec::new() };
        proof {
            assert(s.entries() =~= Seq::<Seq<char>>::empty());
            assert(s@ =~= Set::<Seq<char>>::empty());
        }
        s
    }

    /// The number of labels.
    pub fn len(&self) -> (n: usize)
        ensures
            n == self.entries().len(),
    {
        self.labels.len()
    }

    /// The label at position `i`.
    pub fn label_at(&self, i: usize) -> (label: &String)
        requires
            i < self.entries().len(),
        ensures
            label@ == self.entries()[i as int],
    {
        &self.labels[i]
    }

    /// Finds `label`: whether it is a member, and its position, or else
    /// the position at which it would stand.
    fn locate(&self, label: &String) -> (r: (bool, usize))
        requires
            self.wf(),
        ensures
            r.1 <= self.entries().len(),
            r.0 ==> r.1 < self.entries().len() && self.entries()[r.1 as int] == label@,
            !r.0 ==> !self.entries().contains(label@),
            !r.0 ==> forall|i: int| 0 <= i < r.1 ==> label_lt(#[trigger] self.entries()[i], label@),
            !r.0 ==> forall|i: int|
                r.1 <= i < self.entries().len() ==> label_lt(label@, #[trigger] self.entries()[i]),
    {
        let n = self.labels.len();
        let mut i: usize = 0;
        while i < n && label_less(&self.labels[i], label)
            invariant
                n == self.labels@.len(),
                i <= n,
                forall|j: int| 0 <= j < i ==> label_lt(#[trigger] self.entries()[j], label@),
            decreases n - i,
        {
            i += 1;
        }
        if i < n && self.labels[i] == *label {
            (true, i)
        } else {
            proof {
                let s = self.entries();
                if i < n {
                    lemma_label_lt_connected(s[i as int], label@);
                }
                assert forall|j: int| i <= j < n implies label_lt(label@, #[trigger] s[j]) by {
                    if i < j {
                        assert(label_lt(s[i as int], s[j]));
                        lemma_label_lt_transitive(label@, s[i as int], s[j]);
                    }
                }
                if s.contains(label@) {
                    let j = choose|j: int| 0 <= j < s.len() && s[j] == label@;
                    lemma_label_lt_irreflexive(label@);
                    if j < i {
                        assert(label_lt(s[j], label@));
                    } else {
                        assert(label_lt(label@, s[j]));
                    }
                }
            }
            (false, i)
        }
    }

    /// The position of `label`, if it is a member.
    pub fn position(&self, label: &String) -> (r: Option<usize>)
        requires
            self.wf(),
        ensures
            match r {
                Some(i) => i < self.entries().len() && self.entries()[i as int] == label@,
                None => !self.entries().contains(label@),
            },
    {
        let (found, i) = self.locate(label);
        if found {
            Some(i)
        } else {
            None
        }
    }

    /// Whether `label` is a member.
    pub fn contains(&self, label: &String) -> (b: bool)
        requires
            self.wf(),
        ensures
            b == self@.contains(label@),
    {
        self.locate(label).0
    }

    /// Makes `label` a member; says whether it was none before.
    pub fn insert(&mut self, label: String) -> (added: bool)
        requires
            old(self).wf(),
        ensures
            final(self).wf(),
            final(self)@ == old(self)@.insert(label@),
            added == !old(self)@.contains(label@),
    {
        let (found, i) = self.locate(&label);
        if found {
            proof {
                assert(self@ =~= old(self)@.insert(label@));
            }
            false
        } else {
            proof {
                lemma_label_insert_at(self.entries(), i as int, label@);
            }
            self.labels.insert(i, label);
            proof {
                assert(self.entries() =~= old(self).entries().insert(i as int, label@));
            }
            true
        }
    }

    /// Takes `label` out; says whether it was a member.
    pub fn remove(&mut self, label: &String) -> (removed: bool)
        requires
            old(self).wf(),
        ensures
            final(self).wf(),
            final(self)@ == old(self)@.remove(label@),
            removed == old(self)@.contains(label@),
    {
        let (found, i) = self.locate(label);
        if found {
            proof {
                lemma_label_remove_at(self.entries(), i as int);
            }
            self.labels.remove(i);
            proof {
                assert(self.entries() =~= old(self).entries().remove(i as int));
            }
            true
        } else {
            proof {
                assert(self@ =~= old(self)@.remove(label@));
            }
            false
        }
    }

    /// Takes every label out.
    pub fn clear(&mut self)
        ensures
            final(self).wf(),
            final(self).entries() == Seq::<Seq<char>>::empty(),
            final(self)@ == Set::<Seq<char>>::empty(),
    {
        self.labels.clear();
        proof {
            assert(self.entries() =~= Seq::<Seq<char>>::empty());
            assert(self@ =~= Set::<Seq<char>>::empty());
        }
    }
}

} // verus!
