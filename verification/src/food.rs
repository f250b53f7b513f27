//! The set of cells that hold food.

use std::collections::HashSet;
use vstd::prelude::*;
use vstd::seq_lib::seq_to_set_is_finite;
use vstd::set_lib::lemma_map_size;
use vstd::std_specs::hash::*;
use vstd::std_specs::iter::IteratorSpec;
use crate::cell::{cell_key, key_cell, precedes, Cell};
use crate::neighborhood::{first_in_reach, in_reach, next_in_reach, GridPoint};

verus! {

broadcast use vstd::std_specs::hash::group_hash_axioms;

/// The cells that currently hold one unit of food each.
pub struct FoodSet {
    keys: HashSet<u64>,
}

impl View for FoodSet {
    type V = Set<Cell>;

    closed spec fn view(&self) -> Set<Cell> {
        Set::new(|c: Cell| self.keys@.contains(cell_key(c)))
    }
}

/// What a neighborhood query answers on the food cells `food`: the first
/// food cell of the neighborhood in scan order, or nothing when the
/// neighborhood holds no food.
pub open spec fn is_nearest_food(
    food: Set<Cell>,
    center: GridPoint,
    radius: u32,
    found: Option<Cell>,
) -> bool {
    match found {
        Some(c) => {
            &&& food.contains(c)
            &&& in_reach(center, radius, c)
            &&& forall|d: Cell|
                food.contains(d) && #[trigger] in_reach(center, radius, d) ==> !precedes(d, c)
        },
        None => forall|d: Cell| food.contains(d) ==> !#[trigger] in_reach(center, radius, d),
    }
}

/// Whether any food cell lies in the neighborhood of `center`.
pub open spec fn food_in_reach(food: Set<Cell>, center: GridPoint, radius: u32) -> bool {
    exists|d: Cell| food.contains(d) && #[trigger] in_reach(center, radius, d)
}

impl FoodSet {
    /// The cells are as many as the keys that stand for them.
    proof fn lemma_counts(&self)
        ensures
            self@.finite(),
            self@.len() == self.keys@.len(),
    {
        let f = |k: u64| key_cell(k);
        let walked = spec_hash_keys_iter(&self.keys).remaining().unref();
        assert(walked.to_set() == self.keys@);
        seq_to_set_is_finite(walked);
        assert forall|c: Cell| self@.contains(c) implies #[trigger] self.keys@.map(f).contains(
            c,
        ) by {
            assert(self.keys@.contains(cell_key(c)) && f(cell_key(c)) == c);
        }
        assert(self@ =~= self.keys@.map(f));
        lemma_map_size(self.keys@, self@, f);
    }

    /// A food set always holds finitely many cells.
    pub proof fn lemma_finite(&self)
        ensures
            self@.finite(),
    {
        self.lemma_counts();
    }

    /// A set without food.
    pub fn new() -> (s: FoodSet)
        ensures
            s@ == Set::<Cell>::empty(),
    {
        let s = FoodSet { keys: HashSet::new() };
        assert(s@ =~= Set::<Cell>::empty());
        s
    }

    /// Puts one unit of food on `cell`; says whether the cell was free.
    pub fn place(&mut self, cell: Cell) -> (fresh: bool)
        ensures
            final(self)@ == old(self)@.insert(cell),
            fresh == !old(self)@.contains(cell),
    {
        let fresh = self.keys.insert(cell.key());
        assert(self@ =~= old(self)@.insert(cell));
        fresh
    }

    /// Puts one unit of food on each of `cells` that is free.
    pub fn place_all(&mut self, cells: &Vec<Cell>)
        ensures
            final(self)@ == old(self)@.union(cells@.to_set()),
    {
        let mut i: usize = 0;
        while i < cells.len()
            invariant
                i <= cells.len(),
                self@ == old(self)@.union(cells@.subrange(0, i as int).to_set()),
            decreases cells.len() - i,
        {
            let ghost before = self@;
            self.place(cells[i]);
            proof {
                let done = cells@.subrange(0, i as int);
                let more = cells@.subrange(0, i + 1);
                assert(more =~= done.push(cells@[i as int]));
                assert forall|c: Cell| more.to_set().contains(c) <==> (done.to_set().contains(c)
                    || c == cells@[i as int]) by {
                    if more.to_set().contains(c) {
                        let j = choose|j: int| 0 <= j < more.len() && more[j] == c;
                        if j < i {
                            assert(done[j] == c);
                        }
                    }
                    if done.to_set().contains(c) {
                        let j = choose|j: int| 0 <= j < done.len() && done[j] == c;
                        assert(more[j] == c);
                    }
                    if c == cells@[i as int] {
                        assert(more[i as int] == c);
                    }
                }
                assert(self@ =~= old(self)@.union(more.to_set()));
            }
            i = i + 1;
        }
        proof {
            assert(cells@.subrange(0, cells.len() as int) =~= cells@);
        }
    }

    /// Whether `cell` holds food.
    pub fn contains(&self, cell: Cell) -> (held: bool)
        ensures
            held == self@.contains(cell),
    {
        let k = cell.key();
        self.keys.contains(&k)
    }

    /// Takes the food off `cell`; says whether there was any.
    pub fn consume(&mut self, cell: Cell) -> (taken: bool)
        ensures
            final(self)@ == old(self)@.remove(cell),
            taken == old(self)@.contains(cell),
    {
        let k = cell.key();
        let taken = self.keys.remove(&k);
        assert(self@ =~= old(self)@.remove(cell));
        taken
    }

    /// The number of food cells.
    pub fn len(&self) -> (n: usize)
        ensures
            n == self@.len(),
            self@.finite(),
    {
        proof {
            self.lemma_counts();
        }
        self.keys.len()
    }

    /// Whether no cell holds food.
    pub fn is_empty(&self) -> (empty: bool)
        ensures
            empty == (self@ == Set::<Cell>::empty()),
    {
        proof {
            self.lemma_counts();
        }
        let empty = self.keys.len() == 0;
        proof {
            if empty {
                assert(self@ =~= Set::<Cell>::empty());
            } else {
                assert(self@.len() != 0);
            }
        }
        empty
    }

    /// Every food cell, once each, in no particular order.
    pub fn cells(&self) -> (out: Vec<Cell>)
        ensures
            out@.no_duplicates(),
            out@.to_set() == self@,
    {
        let mut out: Vec<Cell> = Vec::new();
        for k in it: self.keys.iter()
            invariant
                out@.len() == it.index(),
                forall|i: int| 0 <= i < out@.len() ==> cell_key(#[trigger] out@[i]) == *it.seq()[i],
        {
            out.push(Cell::from_key(*k));
        }
        proof {
            let walked = spec_hash_keys_iter(&self.keys).remaining();
            assert(walked.unref().to_set() == self.keys@);
            assert forall|i: int, j: int| 0 <= i < out@.len() && 0 <= j < out@.len() && i != j implies out@[i] != out@[j] by {
                assert(walked.unref()[i] == cell_key(out@[i]));
                assert(walked.unref()[j] == cell_key(out@[j]));
            }
            assert forall|c: Cell| out@.to_set().contains(c) <==> self@.contains(c) by {
                if out@.to_set().contains(c) {
                    let i = choose|i: int| 0 <= i < out@.len() && out@[i] == c;
                    assert(walked.unref()[i] == cell_key(c));
                    assert(walked.unref().to_set().contains(cell_key(c)));
                }
                if self@.contains(c) {
                    assert(walked.unref().to_set().contains(cell_key(c)));
                    let i = choose|i: int| 0 <= i < walked.unref().len() && walked.unref()[i] == cell_key(c);
                    crate::cell::lemma_key_injective(out@[i], c);
                    assert(out@[i] == c);
                }
            }
            assert(out@.to_set() =~= self@);
        }
        out
    }

    /// The first food cell, in scan order, in the neighborhood of `center`.
    pub fn query_near(&self, center: GridPoint, radius: u32) -> (found: Option<Cell>)
        ensures
            is_nearest_food(self@, center, radius, found),
            found is Some <==> food_in_reach(self@, center, radius),
    {
        let mut cur = first_in_reach(center, radius);
        while cur.is_some()
            invariant
                cur matches Some(c) ==> in_reach(center, radius, c),
                forall|d: Cell|
                    self@.contains(d) && #[trigger] in_reach(center, radius, d) ==> match cur {
                        Some(c) => !precedes(d, c),
                        None => false,
                    },
            decreases
                match cur {
                    Some(c) => 0x1_0000_0000_0000_0000 - cell_key(c),
                    None => 0,
                },
        {
            let c = cur.unwrap();
            if self.contains(c) {
                return Some(c);
            }
            let next = next_in_reach(center, radius, c);
            proof {
                if let Some(n) = next {
                    crate::cell::lemma_key_order(c, n);
                }
            }
            cur = next;
        }
        None
    }
}

} // verus!
