//! Choosing the cells that get a mine, one candidate at a time.

use std::collections::BTreeSet;
use vstd::prelude::*;

verus! {

/// The cells chosen so far out of `cells` cells, of which one may be
/// excluded from the choice.
pub struct MinePicker {
    cells: usize,
    excluded: Option<usize>,
    taken: BTreeSet<usize>,
    chosen: Vec<usize>,
}

impl MinePicker {
    /// Number of cells to choose from.
    pub closed spec fn cells(&self) -> usize {
        self.cells
    }

    /// The cell that must not be chosen, where there is one.
    pub closed spec fn excluded(&self) -> Option<usize> {
        self.excluded
    }

    /// The cells chosen so far, in the order in which they were chosen.
    pub closed spec fn chosen(&self) -> Seq<usize> {
        self.chosen@
    }

    /// Whether the cell `v` can still be chosen: it is a cell, it is not
    /// excluded and it has not been chosen yet.
    pub open spec fn is_free(&self, v: usize) -> bool {
        v < self.cells() && !self.chosen().contains(v) && self.excluded() != Some(v)
    }

    /// The invariant of a choice: what is remembered as taken is what was
    /// chosen or is excluded, and the chosen cells are different cells,
    /// none of them the excluded one.
    pub closed spec fn wf(&self) -> bool {
        &&& self.chosen@.no_duplicates()
        &&& forall|i: int| 0 <= i < self.chosen@.len() ==> #[trigger] self.chosen@[i] < self.cells
        &&& self.excluded matches Some(e) ==> !self.chosen@.contains(e)
        &&& forall|v: usize|
            self.taken@.contains(v) <==> self.chosen@.contains(v) || self.excluded == Some(v)
    }

    /// What `wf` says of the chosen cells.
    pub proof fn lemma_chosen(&self)
        requires
            self.wf(),
        ensures
            self.chosen().no_duplicates(),
            forall|i: int| 0 <= i < self.chosen().len() ==> #[trigger] self.chosen()[i] < self.cells(),
            self.excluded() matches Some(e) ==> !self.chosen().contains(e),
    {
    }

    /// A choice with nothing chosen yet.
    pub fn new(cells: usize, excluded: Option<usize>) -> (picker: Self)
        ensures
            picker.wf(),
            picker.cells() == cells,
            picker.excluded() == excluded,
            picker.chosen() == Seq::<usize>::empty(),
    {
        let mut taken: BTreeSet<usize> = BTreeSet::new();
        if let Some(e) = excluded {
            taken.insert(e);
        }
        MinePicker { cells, excluded, taken, chosen: Vec::new() }
    }

    /// Number of cells chosen so far.
    pub fn len(&self) -> (n: usize)
        ensures
            n == self.chosen().len(),
    {
        self.chosen.len()
    }

    /// Offers the cell `candidate`: it is chosen if it is free, and turned
    /// down otherwise.
    pub fn offer(&mut self, candidate: usize) -> (accepted: bool)
        requires
            old(self).wf(),
        ensures
            final(self).wf(),
            final(self).cells() == old(self).cells(),
            final(self).excluded() == old(self).excluded(),
            accepted == old(self).is_free(candidate),
            final(self).chosen() == (if accepted {
                old(self).chosen().push(candidate)
            } else {
                old(self).chosen()
            }),
    {
        if candidate >= self.cells {
            return false;
        }
        let ghost before = self.chosen@;
        if self.taken.insert(candidate) {
            self.chosen.push(candidate);
            proof {
                assert(self.chosen@[before.len() as int] == candidate);
                assert forall|v: usize| before.contains(v) implies self.chosen@.contains(v) by {
                    let i = choose|i: int| 0 <= i < before.len() && before[i] == v;
                    assert(self.chosen@[i] == v);
                }
                assert forall|v: usize| self.chosen@.contains(v) implies before.contains(v) || v
                    == candidate by {
                    let i = choose|i: int| 0 <= i < self.chosen@.len() && self.chosen@[i] == v;
                    if i < before.len() {
                        assert(before[i] == v);
                    }
                }
            }
            true
        } else {
            assert(self.taken@ =~= old(self).taken@);
            false
        }
    }

    /// Chooses the free cell with the smallest index, where there is a free
    /// cell at all.
    pub fn take_first_free(&mut self) -> (cell: Option<usize>)
        requires
            old(self).wf(),
        ensures
            final(self).wf(),
            final(self).cells() == old(self).cells(),
            final(self).excluded() == old(self).excluded(),
            match cell {
                Some(v) => old(self).is_free(v) && (forall|u: usize| u < v ==> !old(self).is_free(u))
                    && final(self).chosen() == old(self).chosen().push(v),
                None => (forall|u: usize| !old(self).is_free(u)) && final(self).chosen() == old(
                    self,
                ).chosen(),
            },
    {
        let n = self.cells;
        let mut i: usize = 0;
        while i < n
            invariant
                i <= n,
                n == self.cells,
                self.wf(),
                self.cells() == old(self).cells(),
                self.excluded() == old(self).excluded(),
                self.chosen() == old(self).chosen(),
                forall|u: usize| u < i ==> !old(self).is_free(u),
            decreases n - i,
        {
            if self.offer(i) {
                return Some(i);
            }
            i += 1;
        }
        None
    }

    /// The cells chosen, in the order in which they were chosen.
    pub fn into_list(self) -> (list: Vec<usize>)
        ensures
            list@ == self.chosen(),
    {
        self.chosen
    }
}

} // verus!
