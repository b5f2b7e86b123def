//! Two-dimensional automata in the manner of Conway's Life: a cell's next
//! state depends on its own state and on how many of its eight neighbors are
//! alive.

use vstd::prelude::*;
use crate::grid::{lemma_live_neighbors_bound, GollyBuff, GridView};

verus! {

impl GridView {
    /// The next state of the cell at `index`: a live cell stays alive where
    /// `survive` holds its neighbor count, a dead cell comes alive where
    /// `born` holds it.
    pub open spec fn classic_cell(self, index: int, survive: Seq<bool>, born: Seq<bool>) -> bool {
        if self.cells[index] {
            survive[self.live_neighbors(index) as int]
        } else {
            born[self.live_neighbors(index) as int]
        }
    }

    /// The next generation: every cell decided from this generation alone.
    pub open spec fn classic_next(self, survive: Seq<bool>, born: Seq<bool>) -> GridView {
        GridView {
            width: self.width,
            height: self.height,
            cells: Seq::new(self.cells.len(), |i: int| self.classic_cell(i, survive, born)),
        }
    }

    /// The grid after `steps` generations.
    pub open spec fn classic_run(self, survive: Seq<bool>, born: Seq<bool>, steps: nat) -> GridView
        decreases steps,
    {
        if steps == 0 {
            self
        } else {
            self.classic_run(survive, born, (steps - 1) as nat).classic_next(survive, born)
        }
    }
}

/// Where nothing is ever born, a grid without live cells stays without them.
pub proof fn lemma_classic_dead_stays_dead(g: GridView, survive: Seq<bool>, born: Seq<bool>)
    requires
        survive.len() == 9,
        born.len() == 9,
        forall|n: int| 0 <= n < 9 ==> !born[n],
        forall|i: int| 0 <= i < g.cells.len() ==> !g.cells[i],
    ensures
        g.classic_next(survive, born).cells.len() == g.cells.len(),
        forall|i: int| 0 <= i < g.cells.len() ==> !g.classic_next(survive, born).cells[i],
{
    assert forall|i: int| 0 <= i < g.cells.len() implies !g.classic_next(survive, born).cells[i] by {
        lemma_live_neighbors_bound(g, i);
    }
}

/// Where every neighbor count lets a live cell survive, a cell that is alive
/// is still alive after any number of generations.
pub proof fn lemma_classic_survivors_stay(
    g: GridView,
    survive: Seq<bool>,
    born: Seq<bool>,
    steps: nat,
)
    requires
        survive.len() == 9,
        born.len() == 9,
        forall|n: int| 0 <= n < 9 ==> survive[n],
    ensures
        g.classic_run(survive, born, steps).cells.len() == g.cells.len(),
        forall|i: int|
            0 <= i < g.cells.len() && g.cells[i] ==> g.classic_run(survive, born, steps).cells[i],
    decreases steps,
{
    if steps > 0 {
        let before = g.classic_run(survive, born, (steps - 1) as nat);
        lemma_classic_survivors_stay(g, survive, born, (steps - 1) as nat);
        assert forall|i: int| 0 <= i < g.cells.len() && g.cells[i] implies before.classic_next(
            survive,
            born,
        ).cells[i] by {
            lemma_live_neighbors_bound(before, i);
        }
    }
}

impl GollyBuff {
    /// Advances the grid by one generation under the given rule tables, each
    /// indexed by a neighbor count from 0 to 8. Every count is taken from the
    /// grid as it was before the call.
    pub fn classic_life(&mut self, survive_rule: &[bool; 9], born_rule: &[bool; 9])
        ensures
            final(self)@ == old(self)@.classic_next(survive_rule@, born_rule@),
            final(self)@.wf(),
    {
        let neighborvec: Vec<u8> = self.all_live_neighbors();
        let total: usize = neighborvec.len();
        let mut i: usize = 0;
        while i < total
            invariant
                i <= total,
                total == old(self)@.cells.len(),
                neighborvec@.len() == total,
                forall|k: int| 0 <= k < total ==> neighborvec@[k] == old(self)@.live_neighbors(k),
                self@.width == old(self)@.width,
                self@.height == old(self)@.height,
                self@.cells.len() == total,
                forall|k: int|
                    0 <= k < i ==> self@.cells[k] == old(self)@.classic_cell(
                        k,
                        survive_rule@,
                        born_rule@,
                    ),
                forall|k: int| i <= k < total ==> self@.cells[k] == old(self)@.cells[k],
            decreases total - i,
        {
            let neighbors: u8 = neighborvec[i];
            proof {
                lemma_live_neighbors_bound(old(self)@, i as int);
            }
            if !self.is_alive(i) {
                if born_rule[neighbors as usize] {
                    self.set_cell(i, true);
                }
            } else {
                if !survive_rule[neighbors as usize] {
                    self.set_cell(i, false);
                }
            }
            i += 1;
        }
        assert(self@.cells =~= old(self)@.classic_next(survive_rule@, born_rule@).cells);
    }
}

} // verus!
