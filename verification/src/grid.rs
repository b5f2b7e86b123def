//! The rectangular cell array and its wrap-around index arithmetic.

use vstd::prelude::*;
use vstd::arithmetic::div_mod::{
    lemma_add_mod_noop,
    lemma_fundamental_div_mod,
    lemma_small_mod,
};
use crate::torus::{lemma_wrap_apart, lemma_wrap_range, oflow, wrap};

verus! {

/// The pixel value of a live cell.
pub const ALIVE: u32 = 0x42069;

/// The pixel value of a dead cell.
pub const DEAD: u32 = 0;

/// The mathematical content of a grid: its dimensions and, row after row,
/// whether each cell is alive.
pub struct GridView {
    pub width: nat,
    pub height: nat,
    pub cells: Seq<bool>,
}

/// The column and row offsets of the eight surrounding cells, in the order in
/// which they are enumerated: the row above from left to right, then left and
/// right of the anchor, then the row below from left to right.
pub open spec fn neighbor_offset(k: int) -> (int, int) {
    if k == 0 {
        (-1, -1)
    } else if k == 1 {
        (0, -1)
    } else if k == 2 {
        (1, -1)
    } else if k == 3 {
        (-1, 0)
    } else if k == 4 {
        (1, 0)
    } else if k == 5 {
        (-1, 1)
    } else if k == 6 {
        (0, 1)
    } else {
        (1, 1)
    }
}

/// The pixel that shows a cell of the given state.
pub open spec fn pixel_of(alive: bool) -> u32 {
    if alive {
        ALIVE
    } else {
        DEAD
    }
}

impl GridView {
    /// The grid of the given dimensions in which every cell is dead.
    pub open spec fn blank(width: nat, height: nat) -> GridView {
        GridView { width, height, cells: Seq::new(width * height, |i: int| false) }
    }

    /// Both dimensions are positive and there is one cell per position.
    pub open spec fn wf(self) -> bool {
        &&& self.width > 0
        &&& self.height > 0
        &&& self.cells.len() == self.width * self.height
    }

    /// The flat index of the cell in column `x` of row `y`.
    pub open spec fn index_of(self, x: int, y: int) -> int {
        y * self.width + x
    }

    /// The flat index of the cell `horiz` columns and `vert` rows away from
    /// `anchor`, each axis wrapping on its own.
    pub open spec fn move_index(self, anchor: int, horiz: int, vert: int) -> int {
        self.index_of(
            wrap(anchor % (self.width as int) + horiz, self.width as int),
            wrap(anchor / (self.width as int) + vert, self.height as int),
        )
    }

    /// The flat indices of the eight cells around `anchor`.
    pub open spec fn neighbors(self, anchor: int) -> Seq<int> {
        Seq::new(
            8,
            |k: int| self.move_index(anchor, neighbor_offset(k).0, neighbor_offset(k).1),
        )
    }

    /// How many of the listed cells are alive, a cell counting once for each
    /// time it is listed.
    pub open spec fn count_alive(self, indices: Seq<int>) -> nat
        decreases indices.len(),
    {
        if indices.len() == 0 {
            0
        } else {
            self.count_alive(indices.drop_last()) + if self.cells[indices.last()] {
                1nat
            } else {
                0nat
            }
        }
    }

    /// The number of live cells among the eight around `anchor`.
    pub open spec fn live_neighbors(self, anchor: int) -> nat {
        self.count_alive(self.neighbors(anchor))
    }

    /// The pixel buffer that shows this grid.
    pub open spec fn pixels(self) -> Seq<u32> {
        Seq::new(self.cells.len(), |i: int| pixel_of(self.cells[i]))
    }

    /// This grid with the cell at `index` put into the given state.
    pub open spec fn with_cell(self, index: int, alive: bool) -> GridView {
        GridView { width: self.width, height: self.height, cells: self.cells.update(index, alive) }
    }
}

/// A moved index is the index of a cell of the grid, whatever the anchor and
/// the offsets.
pub proof fn lemma_move_index_in_range(g: GridView, anchor: int, horiz: int, vert: int)
    requires
        g.wf(),
    ensures
        0 <= g.move_index(anchor, horiz, vert) < g.cells.len(),
        g.move_index(anchor, horiz, vert) % (g.width as int) == wrap(
            anchor % (g.width as int) + horiz,
            g.width as int,
        ),
        g.move_index(anchor, horiz, vert) / (g.width as int) == wrap(
            anchor / (g.width as int) + vert,
            g.height as int,
        ),
{
    let w = g.width as int;
    let h = g.height as int;
    let col = wrap(anchor % w + horiz, w);
    let row = wrap(anchor / w + vert, h);
    lemma_wrap_range(anchor % w + horiz, w);
    lemma_wrap_range(anchor / w + vert, h);
    lemma_cell_index(w, h, col, row);
}

/// Row `row` and column `col` of a `w` by `h` grid share one flat index, from
/// which both can be read back.
pub proof fn lemma_cell_index(w: int, h: int, col: int, row: int)
    requires
        0 <= col < w,
        0 <= row < h,
    ensures
        0 <= row * w + col < w * h,
        (row * w + col) % w == col,
        (row * w + col) / w == row,
{
    assert(0 <= row * w && row * w + w <= w * h) by (nonlinear_arith)
        requires
            0 <= row < h,
            0 < w,
    ;
    assert(w * row + col == row * w + col) by (nonlinear_arith);
    vstd::arithmetic::div_mod::lemma_fundamental_div_mod_converse(row * w + col, w, row, col);
}

/// No more cells are counted alive than are listed.
pub proof fn lemma_count_alive_bound(g: GridView, indices: Seq<int>)
    ensures
        g.count_alive(indices) <= indices.len(),
    decreases indices.len(),
{
    if indices.len() > 0 {
        lemma_count_alive_bound(g, indices.drop_last());
    }
}

/// A cell has between zero and eight live neighbors.
pub proof fn lemma_live_neighbors_bound(g: GridView, anchor: int)
    ensures
        0 <= g.live_neighbors(anchor) <= 8,
{
    lemma_count_alive_bound(g, g.neighbors(anchor));
}

/// Eight cells are listed around any anchor, each of them a cell of the grid.
pub proof fn lemma_neighbors_in_range(g: GridView, anchor: int)
    requires
        g.wf(),
    ensures
        g.neighbors(anchor).len() == 8,
        forall|k: int| 0 <= k < 8 ==> 0 <= #[trigger] g.neighbors(anchor)[k] < g.cells.len(),
{
    assert forall|k: int| 0 <= k < 8 implies 0 <= #[trigger] g.neighbors(anchor)[k]
        < g.cells.len() by {
        lemma_move_index_in_range(g, anchor, neighbor_offset(k).0, neighbor_offset(k).1);
    }
}

/// On a grid of at least three columns and three rows, the eight cells around
/// an anchor are eight different cells.
pub proof fn lemma_neighbors_distinct(g: GridView, anchor: int)
    requires
        g.wf(),
        g.width >= 3,
        g.height >= 3,
    ensures
        forall|j: int, k: int|
            0 <= j < 8 && 0 <= k < 8 && j != k ==> g.neighbors(anchor)[j] != g.neighbors(anchor)[k],
{
    let w = g.width as int;
    let h = g.height as int;
    assert forall|j: int, k: int| 0 <= j < 8 && 0 <= k < 8 && j != k implies g.neighbors(
        anchor,
    )[j] != g.neighbors(anchor)[k] by {
        let (jh, jv) = neighbor_offset(j);
        let (kh, kv) = neighbor_offset(k);
        lemma_move_index_in_range(g, anchor, jh, jv);
        lemma_move_index_in_range(g, anchor, kh, kv);
        if jh != kh {
            lemma_wrap_apart(anchor % w, jh, kh, w);
        } else {
            lemma_wrap_apart(anchor / w, jv, kv, h);
        }
    }
}

/// On a grid of at least two columns and two rows, a cell is none of its own
/// eight neighbors.
pub proof fn lemma_anchor_not_neighbor(g: GridView, anchor: int)
    requires
        g.wf(),
        g.width >= 2,
        g.height >= 2,
        0 <= anchor < g.cells.len(),
    ensures
        forall|k: int| 0 <= k < 8 ==> g.neighbors(anchor)[k] != anchor,
{
    let w = g.width as int;
    let h = g.height as int;
    lemma_fundamental_div_mod(anchor, w);
    assert(0 <= anchor / w < h) by (nonlinear_arith)
        requires
            0 <= anchor < w * h,
            w > 0,
            anchor == w * (anchor / w) + anchor % w,
            0 <= anchor % w < w,
    ;
    assert(anchor == (anchor / w) * w + anchor % w) by (nonlinear_arith)
        requires
            anchor == w * (anchor / w) + anchor % w,
    ;
    lemma_small_mod((anchor % w) as nat, w as nat);
    lemma_small_mod((anchor / w) as nat, h as nat);
    assert forall|k: int| 0 <= k < 8 implies g.neighbors(anchor)[k] != anchor by {
        let (kh, kv) = neighbor_offset(k);
        lemma_move_index_in_range(g, anchor, kh, kv);
        lemma_cell_index(w, h, anchor % w, anchor / w);
        if kh != 0 {
            lemma_wrap_apart(anchor % w, kh, 0, w);
        } else {
            lemma_wrap_apart(anchor / w, kv, 0, h);
        }
    }
}

/// Two grids that agree on every listed cell count the same number alive.
pub proof fn lemma_count_alive_agrees(g: GridView, other: GridView, indices: Seq<int>)
    requires
        forall|k: int| 0 <= k < indices.len() ==> g.cells[indices[k]] == other.cells[indices[k]],
    ensures
        g.count_alive(indices) == other.count_alive(indices),
    decreases indices.len(),
{
    if indices.len() > 0 {
        lemma_count_alive_agrees(g, other, indices.drop_last());
    }
}

/// On a grid of at least two columns and two rows, the neighbor count of a
/// cell does not depend on the state of the cell itself.
pub proof fn lemma_live_neighbors_skip_anchor(g: GridView, anchor: int, alive: bool)
    requires
        g.wf(),
        g.width >= 2,
        g.height >= 2,
        0 <= anchor < g.cells.len(),
    ensures
        g.with_cell(anchor, alive).live_neighbors(anchor) == g.live_neighbors(anchor),
{
    let other = g.with_cell(anchor, alive);
    lemma_anchor_not_neighbor(g, anchor);
    lemma_neighbors_in_range(g, anchor);
    assert(other.neighbors(anchor) =~= g.neighbors(anchor));
    lemma_count_alive_agrees(g, other, g.neighbors(anchor));
}

/// A fixed-size toroidal grid of cells, kept as the pixel buffer that shows it.
pub struct GollyBuff {
    pixels: Vec<u32>,
    width: usize,
    height: usize,
}

impl View for GollyBuff {
    type V = GridView;

    closed spec fn view(&self) -> GridView {
        GridView {
            width: self.width as nat,
            height: self.height as nat,
            cells: Seq::new(self.pixels@.len(), |i: int| self.pixels@[i] != DEAD),
        }
    }
}

/// `(pos + by) mod max` for two positions on an axis of length `max`.
fn shift(pos: usize, by: usize, max: usize) -> (moved: usize)
    requires
        pos < max,
        by < max,
    ensures
        moved == (pos + by) % (max as int),
        moved < max,
{
    if pos >= max - by {
        let moved: usize = pos - (max - by);
        proof {
            lemma_small_mod(moved as nat, max as nat);
            vstd::arithmetic::div_mod::lemma_mod_add_multiples_vanish(moved as int, max as int);
        }
        moved
    } else {
        proof {
            lemma_small_mod((pos + by) as nat, max as nat);
        }
        pos + by
    }
}

/// Overwrites one pixel of a buffer.
fn put(pixels: &mut Vec<u32>, index: usize, value: u32)
    requires
        index < old(pixels).len(),
    ensures
        final(pixels)@ == old(pixels)@.update(index as int, value),
    no_unwind
{
    pixels[index] = value;
}

impl GollyBuff {
    #[verifier::type_invariant]
    spec fn inv(self) -> bool {
        &&& self.width > 0
        &&& self.height > 0
        &&& self.pixels.len() == self.width * self.height
        &&& forall|i: int|
            0 <= i < self.pixels@.len() ==> self.pixels@[i] == ALIVE || self.pixels@[i] == DEAD
    }

    /// A grid of the given dimensions in which every cell is dead.
    pub fn new(width: usize, height: usize) -> (grid: GollyBuff)
        requires
            width > 0,
            height > 0,
            width * height <= usize::MAX,
        ensures
            grid@ == GridView::blank(width as nat, height as nat),
            grid@.wf(),
    {
        let pixels: Vec<u32> = vec![DEAD; width * height];
        let grid = GollyBuff { pixels, width, height };
        assert(grid@.cells =~= GridView::blank(width as nat, height as nat).cells);
        grid
    }

    /// The number of columns.
    pub fn width(&self) -> (width: usize)
        ensures
            width == self@.width,
            self@.wf(),
    {
        proof {
            use_type_invariant(self);
        }
        self.width
    }

    /// The number of rows.
    pub fn height(&self) -> (height: usize)
        ensures
            height == self@.height,
            self@.wf(),
    {
        proof {
            use_type_invariant(self);
        }
        self.height
    }

    /// The pixel buffer, one pixel per cell, row after row.
    pub fn pixels(&self) -> (pixels: &Vec<u32>)
        ensures
            pixels@ == self@.pixels(),
            self@.wf(),
    {
        proof {
            use_type_invariant(self);
            assert(self.pixels@ =~= self@.pixels());
        }
        &self.pixels
    }

    /// Whether the cell at `index` is alive.
    pub fn is_alive(&self, index: usize) -> (alive: bool)
        requires
            index < self@.cells.len(),
        ensures
            alive == self@.cells[index as int],
            self@.wf(),
    {
        proof {
            use_type_invariant(self);
        }
        self.pixels[index] != DEAD
    }

    /// Puts the cell at `index` into the given state.
    pub fn set_cell(&mut self, index: usize, alive: bool)
        requires
            index < old(self)@.cells.len(),
        ensures
            final(self)@ == old(self)@.with_cell(index as int, alive),
            final(self)@.wf(),
    {
        proof {
            use_type_invariant(&*self);
        }
        put(&mut self.pixels, index, if alive {
            ALIVE
        } else {
            DEAD
        });
        assert(self@.cells =~= old(self)@.cells.update(index as int, alive));
    }

    /// The flat index of the cell in column `x` of row `y`.
    pub fn xy_to_pos(&self, x: usize, y: usize) -> (pos: usize)
        requires
            x < self@.width,
            y < self@.height,
        ensures
            pos == self@.index_of(x as int, y as int),
            pos < self@.cells.len(),
            self@.wf(),
    {
        proof {
            use_type_invariant(self);
            lemma_cell_index(self.width as int, self.height as int, x as int, y as int);
            assert(self.width * y == y * self.width) by (nonlinear_arith);
        }
        (self.width * y) + x
    }

    /// The flat index of the cell `horiz` columns and `vert` rows away from
    /// `anchor`, each axis wrapping on its own.
    pub fn move_index(&self, anchor: usize, horiz: i32, vert: i32) -> (moved: usize)
        ensures
            moved == self@.move_index(anchor as int, horiz as int, vert as int),
            moved < self@.cells.len(),
            self@.wf(),
    {
        proof {
            use_type_invariant(self);
        }
        let current_row: usize = anchor / self.width;
        let current_column: usize = anchor % self.width;
        let new_row: usize = shift(current_row % self.height, oflow(vert, self.height), self.height);
        let new_column: usize = shift(current_column, oflow(horiz, self.width), self.width);
        proof {
            let w = self.width as int;
            let h = self.height as int;
            lemma_add_mod_noop(current_row as int, vert as int, h);
            lemma_add_mod_noop(current_column as int, horiz as int, w);
            lemma_small_mod(current_column as nat, w as nat);
            lemma_cell_index(w, h, new_column as int, new_row as int);
            assert(self.width * new_row == new_row * self.width) by (nonlinear_arith);
        }
        (self.width * new_row) + new_column
    }

    /// The flat indices of the eight cells around `index`: the row above from
    /// left to right, then left and right, then the row below from left to
    /// right.
    pub fn neighbors(&self, index: usize) -> (around: [usize; 8])
        ensures
            forall|k: int|
                0 <= k < 8 ==> #[trigger] around@[k] == self@.neighbors(index as int)[k],
            forall|k: int| 0 <= k < 8 ==> around@[k] < self@.cells.len(),
            self@.wf(),
    {
        let around: [usize; 8] = [
            self.move_index(index, -1, -1),
            self.move_index(index, 0, -1),
            self.move_index(index, 1, -1),
            self.move_index(index, -1, 0),
            self.move_index(index, 1, 0),
            self.move_index(index, -1, 1),
            self.move_index(index, 0, 1),
            self.move_index(index, 1, 1),
        ];
        around
    }

    /// The number of live cells among the eight around `index`.
    pub fn live_neighbors(&self, index: usize) -> (count: u8)
        ensures
            count == self@.live_neighbors(index as int),
            count <= 8,
            self@.wf(),
    {
        let around: [usize; 8] = self.neighbors(index);
        let ghost listed: Seq<int> = self@.neighbors(index as int);
        let mut ctr: u8 = 0;
        let mut i: usize = 0;
        while i < 8
            invariant
                i <= 8,
                ctr <= i,
                listed == self@.neighbors(index as int),
                forall|k: int| 0 <= k < 8 ==> #[trigger] around@[k] == listed[k],
                forall|k: int| 0 <= k < 8 ==> around@[k] < self@.cells.len(),
                ctr == self@.count_alive(listed.take(i as int)),
            decreases 8 - i,
        {
            proof {
                assert(listed.take(i + 1).drop_last() =~= listed.take(i as int));
                assert(listed.take(i + 1).last() == around@[i as int]);
            }
            if self.is_alive(around[i]) {
                ctr += 1;
            }
            i += 1;
        }
        proof {
            assert(listed.take(8) =~= listed);
        }
        ctr
    }

    /// The live-neighbor count of every cell, in cell order.
    pub fn all_live_neighbors(&self) -> (counts: Vec<u8>)
        ensures
            counts@.len() == self@.cells.len(),
            forall|i: int|
                0 <= i < counts@.len() ==> counts@[i] == self@.live_neighbors(i),
            self@.wf(),
    {
        proof {
            use_type_invariant(self);
        }
        let total: usize = self.pixels.len();
        let mut counts: Vec<u8> = Vec::with_capacity(total);
        let mut i: usize = 0;
        while i < total
            invariant
                i <= total,
                total == self@.cells.len(),
                counts@.len() == i,
                forall|k: int| 0 <= k < i ==> counts@[k] == self@.live_neighbors(k),
            decreases total - i,
        {
            counts.push(self.live_neighbors(i));
            i += 1;
        }
        counts
    }

    /// Sets every cell to dead.
    pub fn clear(&mut self)
        ensures
            final(self)@ == GridView::blank(old(self)@.width, old(self)@.height),
            final(self)@.wf(),
    {
        proof {
            use_type_invariant(&*self);
        }
        let total: usize = self.pixels.len();
        let mut i: usize = 0;
        while i < total
            invariant
                i <= total,
                total == self@.cells.len(),
                self@.width == old(self)@.width,
                self@.height == old(self)@.height,
                self@.cells.len() == old(self)@.cells.len(),
                forall|k: int| 0 <= k < i ==> !self@.cells[k],
            decreases total - i,
        {
            self.set_cell(i, false);
            i += 1;
        }
        assert(self@.cells =~= GridView::blank(self@.width, self@.height).cells);
    }
}

} // verus!
