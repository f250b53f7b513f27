//! The two trail fields that agents lay down and follow.
//!
//! The field keeps track of which cells carry a trail and of what is stored
//! there. It never computes with intensities itself: how two intensities add
//! up, and how one fades, is handed in by the caller as a function, and the
//! contracts say which function was applied to which stored value.

use std::collections::HashMap;
use vstd::prelude::*;
use vstd::std_specs::hash::*;
use vstd::std_specs::iter::IteratorSpec;
use vstd::set_lib::lemma_map_size;
use crate::cell::{cell_key, key_cell, lemma_key_injective, lemma_key_order, precedes, Cell};
use crate::neighborhood::{first_in_reach, in_reach, next_in_reach, GridPoint};

verus! {

broadcast use vstd::std_specs::hash::group_hash_axioms;

/// The purpose of a trail.
#[derive(Clone, Copy, Debug, PartialEq, Eq, Structural)]
pub enum TrailKind {
    /// Laid by agents that search; leads back to the nest.
    Home,
    /// Laid by agents that carry food; leads to where food was found.
    Food,
}

impl TrailKind {
    /// The other kind.
    pub open spec fn spec_other(self) -> TrailKind {
        match self {
            TrailKind::Home => TrailKind::Food,
            TrailKind::Food => TrailKind::Home,
        }
    }

    /// The other kind.
    #[verifier::when_used_as_spec(spec_other)]
    pub fn other(self) -> (k: TrailKind)
        ensures
            k == self.spec_other(),
    {
        match self {
            TrailKind::Home => TrailKind::Food,
            TrailKind::Food => TrailKind::Home,
        }
    }
}

/// What one cell of a trail field holds.
#[derive(Debug, PartialEq)]
pub struct Mark<V> {
    pub cell: Cell,
    pub intensity: V,
}

impl<V: Copy> Clone for Mark<V> {
    fn clone(&self) -> (copy: Self)
        ensures
            copy == *self,
    {
        *self
    }
}

impl<V: Copy> Copy for Mark<V> {

}

/// A stored map read by cell instead of by key.
spec fn by_cell<V>(m: Map<u64, V>) -> Map<Cell, V> {
    Map::new(|c: Cell| m.contains_key(cell_key(c)), |c: Cell| m[cell_key(c)])
}

/// What a deposit of `amount` at `cell` makes of a field: a cell without a
/// trail now holds `amount`, a cell with a trail holds what `combine` gave
/// for the stored intensity and `amount`, and no other cell changes.
pub open spec fn deposited<V, F: Fn(V, V) -> V>(
    before: Map<Cell, V>,
    after: Map<Cell, V>,
    cell: Cell,
    amount: V,
    combine: F,
) -> bool {
    &&& after.contains_key(cell)
    &&& after == before.insert(cell, after[cell])
    &&& if before.contains_key(cell) {
        combine.ensures((before[cell], amount), after[cell])
    } else {
        after[cell] == amount
    }
}

/// What a decay pass makes of a field: the same cells carry a trail, and
/// each holds what `fade` gave for the intensity stored there before.
pub open spec fn decayed<V, F: Fn(V) -> V>(
    before: Map<Cell, V>,
    after: Map<Cell, V>,
    fade: F,
) -> bool {
    &&& after.dom() == before.dom()
    &&& forall|c: Cell| #[trigger]
        before.contains_key(c) ==> fade.ensures((before[c],), after[c])
}

/// What a scan of the neighborhood of `center` finds in a field: every cell
/// of the neighborhood that carries a trail, once, with the intensity stored
/// there, in scan order.
pub open spec fn is_trail_scan<V>(
    field: Map<Cell, V>,
    center: GridPoint,
    radius: u32,
    marks: Seq<Mark<V>>,
) -> bool {
    &&& forall|i: int|
        0 <= i < marks.len() ==> {
            let m = #[trigger] marks[i];
            &&& in_reach(center, radius, m.cell)
            &&& field.contains_key(m.cell)
            &&& field[m.cell] == m.intensity
        }
    &&& forall|i: int, j: int|
        #![trigger marks[i], marks[j]]
        0 <= i < j < marks.len() ==> precedes(marks[i].cell, marks[j].cell)
    &&& forall|c: Cell|
        #[trigger] in_reach(center, radius, c) && field.contains_key(c) ==> exists|i: int|
            0 <= i < marks.len() && (#[trigger] marks[i]).cell == c
}

/// What an enumeration of a field yields: every cell that carries a trail,
/// once, with the intensity stored there.
pub open spec fn is_field_listing<V>(field: Map<Cell, V>, marks: Seq<Mark<V>>) -> bool {
    &&& forall|i: int|
        0 <= i < marks.len() ==> {
            let m = #[trigger] marks[i];
            field.contains_key(m.cell) && field[m.cell] == m.intensity
        }
    &&& forall|i: int, j: int|
        #![trigger marks[i], marks[j]]
        0 <= i < j < marks.len() ==> marks[i].cell != marks[j].cell
    &&& forall|c: Cell| #[trigger]
        field.contains_key(c) ==> exists|i: int|
            0 <= i < marks.len() && (#[trigger] marks[i]).cell == c
}

proof fn lemma_scan_prefix<V>(
    field: Map<Cell, V>,
    center: GridPoint,
    radius: u32,
    a: Seq<Mark<V>>,
    b: Seq<Mark<V>>,
    n: int,
)
    requires
        is_trail_scan(field, center, radius, a),
        is_trail_scan(field, center, radius, b),
        0 <= n <= a.len(),
    ensures
        n <= b.len(),
        forall|j: int| 0 <= j < n ==> a[j] == b[j],
    decreases n,
{
    if n > 0 {
        lemma_scan_prefix(field, center, radius, a, b, n - 1);
        let i = n - 1;
        let c = a[i].cell;
        let k = choose|k: int| 0 <= k < b.len() && (#[trigger] b[k]).cell == c;
        if k < i {
            assert(precedes(a[k].cell, a[i].cell));
        }
        let d = b[i].cell;
        let l = choose|l: int| 0 <= l < a.len() && (#[trigger] a[l]).cell == d;
        if l < i {
            assert(precedes(b[l].cell, b[i].cell));
        }
        if k > i {
            assert(precedes(b[i].cell, b[k].cell));
            if l > i {
                assert(precedes(a[i].cell, a[l].cell));
            }
        }
        assert(a[i] == b[i]);
    }
}

/// A scan is determined by the field and the neighborhood: two scans of one
/// field around one center are the same sequence.
pub proof fn lemma_trail_scan_unique<V>(
    field: Map<Cell, V>,
    center: GridPoint,
    radius: u32,
    a: Seq<Mark<V>>,
    b: Seq<Mark<V>>,
)
    requires
        is_trail_scan(field, center, radius, a),
        is_trail_scan(field, center, radius, b),
    ensures
        a == b,
{
    lemma_scan_prefix(field, center, radius, a, b, a.len() as int);
    lemma_scan_prefix(field, center, radius, b, a, b.len() as int);
    assert(a =~= b);
}

/// A deposit keeps whatever holds of all intensities: if `good` holds of
/// every stored intensity and of the amount, and `combine` gives a good
/// intensity for two good ones, then `good` holds of every intensity stored
/// after the deposit.
pub proof fn lemma_deposit_keeps<V, F: Fn(V, V) -> V>(
    before: Map<Cell, V>,
    after: Map<Cell, V>,
    cell: Cell,
    amount: V,
    combine: F,
    good: spec_fn(V) -> bool,
)
    requires
        deposited(before, after, cell, amount, combine),
        forall|c: Cell| #[trigger] before.contains_key(c) ==> good(before[c]),
        good(amount),
        forall|a: V, b: V, sum: V|
            good(a) && good(b) && #[trigger] combine.ensures((a, b), sum) ==> good(sum),
    ensures
        forall|c: Cell| #[trigger] after.contains_key(c) ==> good(after[c]),
{
    assert forall|c: Cell| #[trigger] after.contains_key(c) implies good(after[c]) by {
        if c != cell {
            assert(before.contains_key(c));
        }
    }
}

/// A decay pass keeps whatever holds of all intensities: if `good` holds of
/// every stored intensity, and `fade` gives a good intensity for a good one,
/// then `good` holds of every intensity stored after the pass.
pub proof fn lemma_decay_keeps<V, F: Fn(V) -> V>(
    before: Map<Cell, V>,
    after: Map<Cell, V>,
    fade: F,
    good: spec_fn(V) -> bool,
)
    requires
        decayed(before, after, fade),
        forall|c: Cell| #[trigger] before.contains_key(c) ==> good(before[c]),
        forall|a: V, faded: V| good(a) && #[trigger] fade.ensures((a,), faded) ==> good(faded),
    ensures
        forall|c: Cell| #[trigger] after.contains_key(c) ==> good(after[c]),
{
    assert forall|c: Cell| #[trigger] after.contains_key(c) implies good(after[c]) by {
        assert(before.contains_key(c));
    }
}

/// A decay pass carries over to the entries whatever relates an intensity
/// to what `fade` gives for it: if `related(a, faded)` holds whenever `fade`
/// gives `faded` for `a`, then it holds between every entry before the pass
/// and the same entry after it.
pub proof fn lemma_decay_relates<V, F: Fn(V) -> V>(
    before: Map<Cell, V>,
    after: Map<Cell, V>,
    fade: F,
    related: spec_fn(V, V) -> bool,
)
    requires
        decayed(before, after, fade),
        forall|a: V, faded: V| #[trigger] fade.ensures((a,), faded) ==> related(a, faded),
    ensures
        forall|c: Cell| #[trigger]
            before.contains_key(c) ==> after.contains_key(c) && related(before[c], after[c]),
{
}

proof fn lemma_by_cell_len<V>(m: Map<u64, V>)
    requires
        m.dom().finite(),
    ensures
        by_cell(m).dom().finite(),
        by_cell(m).dom().len() == m.dom().len(),
{
    let f = |k: u64| key_cell(k);
    assert forall|c: Cell| by_cell(m).dom().contains(c) implies #[trigger] m.dom().map(f).contains(
        c,
    ) by {
        assert(m.dom().contains(cell_key(c)) && f(cell_key(c)) == c);
    }
    assert(by_cell(m).dom() =~= m.dom().map(f));
    lemma_map_size(m.dom(), by_cell(m).dom(), f);
}

fn lookup_in<V: Copy>(m: &HashMap<u64, V>, cell: Cell) -> (found: Option<V>)
    ensures
        found == (if by_cell(m@).contains_key(cell) {
            Some(by_cell(m@)[cell])
        } else {
            None
        }),
{
    let k = cell.key();
    match m.get(&k) {
        Some(intensity) => Some(*intensity),
        None => None,
    }
}

fn list_map<V: Copy>(m: &HashMap<u64, V>) -> (out: Vec<Mark<V>>)
    ensures
        is_field_listing(by_cell(m@), out@),
{
    let mut out: Vec<Mark<V>> = Vec::new();
    for pair in it: m.iter()
        invariant
            it.seq() == spec_hash_map_iter(m).remaining(),
            it.seq().no_duplicates(),
            out@.len() == it.index(),
            forall|i: int|
                0 <= i < out@.len() ==> cell_key((#[trigger] out@[i]).cell) == *it.seq()[i].0
                    && out@[i].intensity == *it.seq()[i].1,
    {
        let (k, intensity) = pair;
        out.push(Mark { cell: Cell::from_key(*k), intensity: *intensity });
    }
    proof {
        let walked = spec_hash_map_iter(m).remaining();
        let field = by_cell(m@);
        assert forall|i: int| 0 <= i < out@.len() implies ({
            let e = #[trigger] out@[i];
            field.contains_key(e.cell) && field[e.cell] == e.intensity
        }) by {
            assert(m@.contains_key(*walked[i].0) && m@[*walked[i].0] == *walked[i].1);
        }
        assert forall|i: int, j: int| 0 <= i < j < out@.len() implies out@[i].cell
            != out@[j].cell by {
            assert(m@.contains_key(*walked[i].0) && m@[*walked[i].0] == *walked[i].1);
            assert(m@.contains_key(*walked[j].0) && m@[*walked[j].0] == *walked[j].1);
            if out@[i].cell == out@[j].cell {
                assert(walked[i] == walked[j]);
            }
        }
        assert forall|c: Cell| #[trigger] field.contains_key(c) implies exists|i: int|
            0 <= i < out@.len() && (#[trigger] out@[i]).cell == c by {
            let k = cell_key(c);
            assert(walked.contains((&k, &m@[k])));
            let i = choose|i: int| 0 <= i < walked.len() && walked[i] == (&k, &m@[k]);
            lemma_key_injective(out@[i].cell, c);
        }
    }
    out
}

fn scan_map<V: Copy>(m: &HashMap<u64, V>, center: GridPoint, radius: u32) -> (out: Vec<Mark<V>>)
    ensures
        is_trail_scan(by_cell(m@), center, radius, out@),
{
    let ghost field = by_cell(m@);
    let mut out: Vec<Mark<V>> = Vec::new();
    let mut cur = first_in_reach(center, radius);
    while cur.is_some()
        invariant
            field == by_cell(m@),
            cur matches Some(c) ==> in_reach(center, radius, c),
            forall|i: int|
                0 <= i < out@.len() ==> {
                    let e = #[trigger] out@[i];
                    &&& in_reach(center, radius, e.cell)
                    &&& field.contains_key(e.cell)
                    &&& field[e.cell] == e.intensity
                    &&& cur matches Some(c) ==> precedes(e.cell, c)
                },
            forall|i: int, j: int|
                #![trigger out@[i], out@[j]]
                0 <= i < j < out@.len() ==> precedes(out@[i].cell, out@[j].cell),
            forall|d: Cell|
                #[trigger] in_reach(center, radius, d) && field.contains_key(d) && (cur matches Some(
                    c,
                ) ==> precedes(d, c)) ==> exists|i: int|
                    0 <= i < out@.len() && (#[trigger] out@[i]).cell == d,
        decreases
            match cur {
                Some(c) => 0x1_0000_0000_0000_0000 - cell_key(c),
                None => 0,
            },
    {
        let c = cur.unwrap();
        let ghost before = out@;
        match lookup_in(m, c) {
            Some(intensity) => {
                out.push(Mark { cell: c, intensity });
            },
            None => {},
        }
        let next = next_in_reach(center, radius, c);
        proof {
            if let Some(n) = next {
                lemma_key_order(c, n);
            }
            assert forall|d: Cell|
                #[trigger] in_reach(center, radius, d) && field.contains_key(d) && (next matches Some(
                    n,
                ) ==> precedes(d, n)) implies exists|i: int|
                0 <= i < out@.len() && (#[trigger] out@[i]).cell == d by {
                if precedes(d, c) {
                    let i = choose|i: int| 0 <= i < before.len() && (#[trigger] before[i]).cell == d;
                    assert(out@[i].cell == d);
                } else {
                    assert(d == c);
                    assert(out@[out@.len() - 1].cell == d);
                }
            }
        }
        cur = next;
    }
    out
}

fn deposit_into<V: Copy, F: Fn(V, V) -> V>(
    m: &mut HashMap<u64, V>,
    cell: Cell,
    amount: V,
    combine: F,
)
    requires
        old(m)@.contains_key(cell_key(cell)) ==> combine.requires(
            (old(m)@[cell_key(cell)], amount),
        ),
    ensures
        deposited(by_cell(old(m)@), by_cell(final(m)@), cell, amount, combine),
{
    let k = cell.key();
    let stored = match m.get(&k) {
        Some(intensity) => combine(*intensity, amount),
        None => amount,
    };
    m.insert(k, stored);
    proof {
        assert forall|c: Cell| c != cell implies cell_key(c) != k by {
            lemma_key_injective(c, cell);
        }
        assert(by_cell(m@) =~= by_cell(old(m)@).insert(cell, stored));
    }
}

fn decay_map<V: Copy, F: Fn(V) -> V>(m: &mut HashMap<u64, V>, fade: &F)
    requires
        forall|k: u64| #[trigger] old(m)@.contains_key(k) ==> fade.requires((old(m)@[k],)),
    ensures
        final(m)@.dom() == old(m)@.dom(),
        forall|k: u64| #[trigger]
            old(m)@.contains_key(k) ==> fade.ensures((old(m)@[k],), final(m)@[k]),
{
    let mut out: HashMap<u64, V> = HashMap::new();
    for pair in it: m.iter()
        invariant
            forall|k: u64| #[trigger] m@.contains_key(k) ==> fade.requires((m@[k],)),
            forall|i: int|
                0 <= i < it.index() ==> out@.contains_key(*(#[trigger] it.seq()[i]).0),
            forall|k: u64| #[trigger]
                out@.contains_key(k) ==> m@.contains_key(k) && fade.ensures((m@[k],), out@[k]),
    {
        let (k, intensity) = pair;
        proof {
            let walked = spec_hash_map_iter(m).remaining();
            assert(m@.contains_key(*walked[it.index()].0) && m@[*walked[it.index()].0]
                == *walked[it.index()].1);
        }
        let faded = fade(*intensity);
        out.insert(*k, faded);
    }
    proof {
        let walked = spec_hash_map_iter(m).remaining();
        assert forall|k: u64| m@.contains_key(k) implies out@.contains_key(k) by {
            assert(walked.contains((&k, &m@[k])));
            let i = choose|i: int| 0 <= i < walked.len() && walked[i] == (&k, &m@[k]);
            assert(out@.contains_key(*walked[i].0));
        }
        assert(out@.dom() =~= m@.dom());
    }
    *m = out;
}

/// The home trail and the food trail, each a map from cells to intensities
/// of the caller's type `V`. A cell without an entry carries no trail.
/// Entries are never removed.
pub struct TrailField<V> {
    home: HashMap<u64, V>,
    food: HashMap<u64, V>,
}

impl<V: Copy> TrailField<V> {
    /// The intensities of one kind of trail, by cell.
    pub closed spec fn intensities(&self, kind: TrailKind) -> Map<Cell, V> {
        match kind {
            TrailKind::Home => by_cell(self.home@),
            TrailKind::Food => by_cell(self.food@),
        }
    }

    /// The intensity of one kind of trail at `cell`, if the cell carries one.
    pub open spec fn intensity_at(&self, kind: TrailKind, cell: Cell) -> Option<V> {
        if self.intensities(kind).contains_key(cell) {
            Some(self.intensities(kind)[cell])
        } else {
            None
        }
    }

    /// A field always holds finitely many entries.
    pub proof fn lemma_finite(&self, kind: TrailKind)
        ensures
            self.intensities(kind).dom().finite(),
    {
        lemma_by_cell_len(self.home@);
        lemma_by_cell_len(self.food@);
    }

    /// A field without any trail.
    pub fn new() -> (field: TrailField<V>)
        ensures
            field.intensities(TrailKind::Home) == Map::<Cell, V>::empty(),
            field.intensities(TrailKind::Food) == Map::<Cell, V>::empty(),
    {
        let field = TrailField { home: HashMap::new(), food: HashMap::new() };
        assert(field.intensities(TrailKind::Home) =~= Map::<Cell, V>::empty());
        assert(field.intensities(TrailKind::Food) =~= Map::<Cell, V>::empty());
        field
    }

    /// The intensity stored at `cell`, if the cell carries a trail of `kind`.
    pub fn lookup(&self, kind: TrailKind, cell: Cell) -> (found: Option<V>)
        ensures
            found == self.intensity_at(kind, cell),
    {
        match kind {
            TrailKind::Home => lookup_in(&self.home, cell),
            TrailKind::Food => lookup_in(&self.food, cell),
        }
    }

    /// Adds `amount` to the trail of `kind` at `cell`: a cell without an
    /// entry gets one that holds `amount`; in an existing entry the stored
    /// intensity is replaced by `combine(stored, amount)`. The other field
    /// and all other cells stay as they are.
    pub fn deposit<F: Fn(V, V) -> V>(&mut self, kind: TrailKind, cell: Cell, amount: V, combine: F)
        requires
            old(self).intensity_at(kind, cell) matches Some(stored) ==> combine.requires(
                (stored, amount),
            ),
        ensures
            deposited(old(self).intensities(kind), final(self).intensities(kind), cell, amount, combine),
            final(self).intensities(kind.other()) == old(self).intensities(kind.other()),
    {
        match kind {
            TrailKind::Home => deposit_into(&mut self.home, cell, amount, combine),
            TrailKind::Food => deposit_into(&mut self.food, cell, amount, combine),
        }
    }

    /// One decay pass: every stored intensity, in both fields, is replaced
    /// by `fade(stored)`. No entry is removed and none is created.
    pub fn decay_all<F: Fn(V) -> V>(&mut self, fade: F)
        requires
            forall|kind: TrailKind, c: Cell| #[trigger]
                old(self).intensities(kind).contains_key(c) ==> fade.requires(
                    (old(self).intensities(kind)[c],),
                ),
        ensures
            decayed(old(self).intensities(TrailKind::Home), final(self).intensities(TrailKind::Home), fade),
            decayed(old(self).intensities(TrailKind::Food), final(self).intensities(TrailKind::Food), fade),
    {
        proof {
            assert forall|k: u64| #[trigger] self.home@.contains_key(k) implies fade.requires(
                (self.home@[k],),
            ) by {
                crate::cell::lemma_key_round_trip(key_cell(k), k);
                assert(self.intensities(TrailKind::Home).contains_key(key_cell(k)));
            }
            assert forall|k: u64| #[trigger] self.food@.contains_key(k) implies fade.requires(
                (self.food@[k],),
            ) by {
                crate::cell::lemma_key_round_trip(key_cell(k), k);
                assert(self.intensities(TrailKind::Food).contains_key(key_cell(k)));
            }
        }
        decay_map(&mut self.home, &fade);
        decay_map(&mut self.food, &fade);
        proof {
            assert(final(self).intensities(TrailKind::Home).dom() =~= old(self).intensities(
                TrailKind::Home,
            ).dom());
            assert(final(self).intensities(TrailKind::Food).dom() =~= old(self).intensities(
                TrailKind::Food,
            ).dom());
        }
    }

    /// The number of cells that carry a trail of `kind`.
    pub fn len(&self, kind: TrailKind) -> (n: usize)
        ensures
            n == self.intensities(kind).dom().len(),
            self.intensities(kind).dom().finite(),
    {
        proof {
            lemma_by_cell_len(self.home@);
            lemma_by_cell_len(self.food@);
        }
        match kind {
            TrailKind::Home => self.home.len(),
            TrailKind::Food => self.food.len(),
        }
    }

    /// Every entry of one field, once each, in no particular order.
    pub fn entries(&self, kind: TrailKind) -> (marks: Vec<Mark<V>>)
        ensures
            is_field_listing(self.intensities(kind), marks@),
    {
        match kind {
            TrailKind::Home => list_map(&self.home),
            TrailKind::Food => list_map(&self.food),
        }
    }

    /// The entries of one field in the neighborhood of `center`, in scan
    /// order.
    pub fn nearby(&self, kind: TrailKind, center: GridPoint, radius: u32) -> (marks: Vec<Mark<V>>)
        ensures
            is_trail_scan(self.intensities(kind), center, radius, marks@),
    {
        match kind {
            TrailKind::Home => scan_map(&self.home, center, radius),
            TrailKind::Food => scan_map(&self.food, center, radius),
        }
    }
}

} // verus!
