//! One-dimensional elementary automata, drawn down the grid: each row is the
//! generation that follows the row above it.

use vstd::prelude::*;
use crate::grid::{GollyBuff, GridView};

verus! {

/// Whether the rule turns a cell on whose parents show the given pattern:
/// bit `pattern` of the rule.
pub open spec fn rule_selects(rule: u8, pattern: u8) -> bool {
    rule & (1u8 << pattern) != 0
}

impl GridView {
    /// One bit of a cell's parent pattern: 1 if the cell one row up and
    /// `1 - bit` columns across is alive. Bit 0 is the parent to the right,
    /// bit 1 the parent straight above, bit 2 the parent to the left.
    pub open spec fn parent_bit(self, index: int, bit: int) -> int {
        if self.cells[self.move_index(index, 1 - bit, -1)] {
            1
        } else {
            0
        }
    }

    /// The pattern, from 0 to 7, that the three parents of a cell show.
    pub open spec fn parents(self, index: int) -> int {
        self.parent_bit(index, 0) + 2 * self.parent_bit(index, 1) + 4 * self.parent_bit(index, 2)
    }

    /// The next state of the cell at `index`: alive if it is alive already or
    /// if the rule selects its parent pattern.
    pub open spec fn elementary_cell(self, index: int, rule: u8) -> bool {
        self.cells[index] || rule_selects(rule, self.parents(index) as u8)
    }

    /// The grid after one step of the rule, every pattern read from this
    /// grid.
    pub open spec fn elementary_next(self, rule: u8) -> GridView {
        GridView {
            width: self.width,
            height: self.height,
            cells: Seq::new(self.cells.len(), |i: int| self.elementary_cell(i, rule)),
        }
    }
}

/// A step of an elementary rule only ever turns cells on: a cell that is alive
/// stays alive, whatever the rule.
pub proof fn lemma_elementary_keeps_alive(g: GridView, rule: u8)
    ensures
        g.elementary_next(rule).cells.len() == g.cells.len(),
        forall|i: int| 0 <= i < g.cells.len() && g.cells[i] ==> g.elementary_next(rule).cells[i],
{
}

/// Setting bit `i` of a pattern whose bits from `i` up are clear adds the
/// weight of that bit.
proof fn lemma_set_bit(acc: u8, bit: u8, i: u8)
    by (bit_vector)
    requires
        i < 3,
        bit <= 1,
        acc < (1u8 << i),
    ensures
        acc | (bit << i) == acc + bit * (1u8 << i),
        (acc | (bit << i)) < (1u8 << ((i + 1) as u8)),
{
}

/// The weights of the three pattern bits, and the bound on a whole pattern.
proof fn lemma_bit_weights()
    by (bit_vector)
    ensures
        1u8 << 0u8 == 1,
        1u8 << 1u8 == 2,
        1u8 << 2u8 == 4,
        1u8 << 3u8 == 8,
{
}

impl GollyBuff {
    /// The pattern, from 0 to 7, that the three parents of the cell at `index`
    /// show.
    pub fn elementary_parents(&self, index: usize) -> (parents: u8)
        ensures
            parents == self@.parents(index as int),
            parents < 8,
            self@.wf(),
    {
        let mut parents: u8 = 0u8;
        let mut i: u8 = 0;
        proof {
            lemma_bit_weights();
        }
        while i < 3
            invariant
                i <= 3,
                i > 0 ==> self@.wf(),
                parents < (1u8 << i),
                parents == (if i > 0 {
                    self@.parent_bit(index as int, 0)
                } else {
                    0
                }) + (if i > 1 {
                    2 * self@.parent_bit(index as int, 1)
                } else {
                    0
                }) + (if i > 2 {
                    4 * self@.parent_bit(index as int, 2)
                } else {
                    0
                }),
            decreases 3 - i,
        {
            let parent: usize = self.move_index(index, 1 - i as i32, -1);
            let bit: u8 = if self.is_alive(parent) {
                1
            } else {
                0
            };
            proof {
                lemma_set_bit(parents, bit, i);
                lemma_bit_weights();
            }
            parents |= bit << i;
            i += 1;
        }
        proof {
            lemma_bit_weights();
        }
        parents
    }

    /// Advances the grid by one step of the rule: every cell whose parent
    /// pattern the rule selects comes alive, and no cell dies. The patterns
    /// are all read before any cell is written.
    pub fn elementary(&mut self, rule: u8)
        ensures
            final(self)@ == old(self)@.elementary_next(rule),
            final(self)@.wf(),
    {
        let total: usize = self.pixels().len();
        let mut new_cells: Vec<usize> = Vec::new();
        let mut index: usize = 0;
        while index < total
            invariant
                index <= total,
                total == self@.cells.len(),
                self@ == old(self)@,
                forall|j: int|
                    0 <= j < new_cells@.len() ==> new_cells@[j] < index && rule_selects(
                        rule,
                        self@.parents(#[trigger] new_cells@[j] as int) as u8,
                    ),
                forall|k: int|
                    0 <= k < index && rule_selects(rule, #[trigger] self@.parents(k) as u8)
                        ==> new_cells@.contains(k as usize),
            decreases total - index,
        {
            let parents: u8 = self.elementary_parents(index);
            if rule & (1u8 << parents) != 0 {
                let ghost before = new_cells@;
                new_cells.push(index);
                proof {
                    assert(new_cells@[before.len() as int] == index);
                    assert forall|k: int|
                        0 <= k < index + 1 && rule_selects(
                            rule,
                            #[trigger] self@.parents(k) as u8,
                        ) implies new_cells@.contains(k as usize) by {
                        if k < index {
                            let j = choose|j: int| 0 <= j < before.len() && before[j] == k as usize;
                            assert(new_cells@[j] == k as usize);
                        }
                    }
                }
            }
            index += 1;
        }
        let mut done: usize = 0;
        while done < new_cells.len()
            invariant
                done <= new_cells@.len(),
                total == old(self)@.cells.len(),
                self@.width == old(self)@.width,
                self@.height == old(self)@.height,
                self@.cells.len() == total,
                forall|j: int| 0 <= j < new_cells@.len() ==> new_cells@[j] < total,
                forall|k: int|
                    0 <= k < total ==> (#[trigger] self@.cells[k] <==> old(self)@.cells[k]
                        || new_cells@.take(done as int).contains(k as usize)),
            decreases new_cells@.len() - done,
        {
            let cell: usize = new_cells[done];
            self.set_cell(cell, true);
            proof {
                let seen = new_cells@.take(done as int);
                let seen_next = new_cells@.take(done + 1);
                assert(seen_next =~= seen.push(cell));
                assert forall|k: int| 0 <= k < total implies (#[trigger] self@.cells[k]
                    <==> old(self)@.cells[k] || seen_next.contains(k as usize)) by {
                    if seen.contains(k as usize) {
                        let j = choose|j: int| 0 <= j < seen.len() && seen[j] == k as usize;
                        assert(seen_next[j] == k as usize);
                    }
                    if k == cell {
                        assert(seen_next[done as int] == cell);
                    }
                    if seen_next.contains(k as usize) && k != cell {
                        let j = choose|j: int|
                            0 <= j < seen_next.len() && seen_next[j] == k as usize;
                        assert(seen[j] == k as usize);
                    }
                }
            }
            done += 1;
        }
        proof {
            assert(new_cells@.take(new_cells@.len() as int) =~= new_cells@);
            assert forall|k: int| 0 <= k < total implies self@.cells[k] == old(
                self,
            )@.elementary_cell(k, rule) by {
                if new_cells@.contains(k as usize) {
                    let j = choose|j: int| 0 <= j < new_cells@.len() && new_cells@[j] == k as usize;
                    assert(rule_selects(rule, old(self)@.parents(new_cells@[j] as int) as u8));
                }
            }
            assert(self@.cells =~= old(self)@.elementary_next(rule).cells);
        }
    }
}

} // verus!
