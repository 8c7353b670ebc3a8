//! The rule engine: a pure function from a cell's state and its
//! neighborhood to the cell's state in the next generation.

use vstd::prelude::*;

verus! {

/// Number of live (`true`) entries in a sequence of cell states.
pub open spec fn count_live(s: Seq<bool>) -> nat
    decreases s.len(),
{
    if s.len() == 0 {
        0
    } else {
        count_live(s.drop_last()) + if s.last() {
            1nat
        } else {
            0nat
        }
    }
}

/// The birth/survival rule: a live cell survives exactly when it has
/// 2 or 3 live neighbors; a dead cell is born exactly when it has 3.
pub open spec fn next_state(alive: bool, live_neighbors: nat) -> bool {
    if alive {
        live_neighbors == 2 || live_neighbors == 3
    } else {
        live_neighbors == 3
    }
}

/// An empty neighborhood has a live count of zero.
pub proof fn lemma_count_live_empty()
    ensures
        count_live(Seq::<bool>::empty()) == 0,
{
}

/// A one-cell neighborhood counts its one state.
pub proof fn lemma_count_live_single(v: bool)
    ensures
        count_live(seq![v]) == if v {
            1nat
        } else {
            0nat
        },
{
    assert(seq![v].drop_last() =~= Seq::<bool>::empty());
    lemma_count_live_empty();
}

/// Counting live entries distributes over concatenation.
pub proof fn lemma_count_live_add(a: Seq<bool>, b: Seq<bool>)
    ensures
        count_live(a + b) == count_live(a) + count_live(b),
    decreases b.len(),
{
    if b.len() == 0 {
        assert(a + b =~= a);
    } else {
        assert((a + b).drop_last() =~= a + b.drop_last());
        lemma_count_live_add(a, b.drop_last());
    }
}

pub struct Cell {}

impl Cell {
    /// Computes the next-generation state of one cell from its current
    /// state and the states of its surrounding cells. Total over every
    /// neighborhood, of any length.
    pub fn new_state(old_state: bool, sur_cells: Vec<bool>) -> (r: bool)
        ensures
            r == next_state(old_state, count_live(sur_cells@)),
    {
        let mut truth_count: usize = 0;
        let mut i: usize = 0;
        while i < sur_cells.len()
            invariant
                i <= sur_cells.len(),
                truth_count <= i,
                truth_count == count_live(sur_cells@.take(i as int)),
            decreases sur_cells.len() - i,
        {
            proof {
                assert(sur_cells@.take(i + 1).drop_last() =~= sur_cells@.take(i as int));
            }
            if sur_cells[i] {
                truth_count = truth_count + 1;
            }
            i = i + 1;
        }
        proof {
            assert(sur_cells@.take(sur_cells@.len() as int) =~= sur_cells@);
        }
        if old_state {
            if truth_count < 2 {
                false
            } else if truth_count == 2 || truth_count == 3 {
                true
            } else {
                false
            }
        } else {
            if truth_count == 3 {
                true
            } else {
                false
            }
        }
    }
}

} // verus!
