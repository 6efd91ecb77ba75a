//! The toroidal grid of live/dead cells and its evolution rule.

use vstd::prelude::*;
use vstd::pervasive::VecAdditionalExecFns;

verus! {

/// Relies on rand::random: one independent boolean draw from the thread-local
/// generator. Nothing is promised of the value.
#[verifier::external_body]
fn random_bool() -> bool {
    rand::random()
}

/// Wrapping increment on an axis of length `modulo`: the last index maps to 0.
pub open spec fn spec_mod_inc(value: int, modulo: int) -> int {
    if value == modulo - 1 {
        0
    } else {
        value + 1
    }
}

/// Wrapping decrement on an axis of length `modulo`: index 0 maps to the last index.
pub open spec fn spec_mod_dec(value: int, modulo: int) -> int {
    if value == 0 {
        modulo - 1
    } else {
        value - 1
    }
}

pub fn mod_inc(value: usize, modulo: usize) -> (r: usize)
    requires
        1 <= modulo,
        value < modulo,
    ensures
        r == spec_mod_inc(value as int, modulo as int),
        r < modulo,
{
    if value == modulo - 1 {
        0
    } else {
        value + 1
    }
}

pub fn mod_dec(value: usize, modulo: usize) -> (r: usize)
    requires
        1 <= modulo,
        value < modulo,
    ensures
        r == spec_mod_dec(value as int, modulo as int),
        r < modulo,
{
    if value == 0 {
        modulo - 1
    } else {
        value - 1
    }
}

/// 1 for a live cell, 0 for a dead one.
pub open spec fn live(cell: bool) -> int {
    if cell {
        1
    } else {
        0
    }
}

/// How many of the 8 toroidally-adjacent cells of (i, j) are live.
/// Row and column wrap independently, so on a one-row or one-column grid a
/// cell can be its own neighbor and is then counted more than once.
pub open spec fn spec_neighbors(g: Seq<Seq<bool>>, i: int, j: int) -> int {
    let h = g.len() as int;
    let w = g[0].len() as int;
    let iu = spec_mod_dec(i, h);
    let id = spec_mod_inc(i, h);
    let jl = spec_mod_dec(j, w);
    let jr = spec_mod_inc(j, w);
    live(g[iu][jl]) + live(g[iu][j]) + live(g[iu][jr]) + live(g[i][jl]) + live(g[i][jr]) + live(
        g[id][jl],
    ) + live(g[id][j]) + live(g[id][jr])
}

/// The Game-of-Life transition for one cell: a live cell survives with 2 or 3
/// live neighbors, a dead cell is born with exactly 3; every other cell is
/// dead in the next generation.
pub open spec fn next_cell(alive: bool, neighbors: int) -> bool {
    if alive {
        2 <= neighbors <= 3
    } else {
        neighbors == 3
    }
}

/// The next generation of a whole grid: every cell follows `next_cell` under
/// its neighbor count in `g`.
pub open spec fn next_gen(g: Seq<Seq<bool>>) -> Seq<Seq<bool>> {
    Seq::new(
        g.len(),
        |i: int| Seq::new(g[i].len(), |j: int| next_cell(g[i][j], spec_neighbors(g, i, j))),
    )
}

/// The abstract row `i` of a board is the view of its concrete row `i`.
pub proof fn lemma_row_view(b: &Board, i: int)
    requires
        0 <= i < b@.len(),
    ensures
        b@[i].len() == b.values@[i]@.len(),
        forall|j: int| 0 <= j < b@[i].len() ==> b@[i][j] == b.values@[i]@[j],
{
    assert(b@[i] == b.values@[i].deep_view());
    assert forall|j: int| 0 <= j < b@[i].len() implies b@[i][j] == b.values@[i]@[j] by {
        assert(b.values@[i].deep_view()[j] == b.values@[i]@[j]);
    }
}

/// A rectangular grid of cells, `true` for live, with toroidal adjacency.
#[derive(Debug, PartialEq, Eq)]
pub struct Board {
    pub values: Vec<Vec<bool>>,
}

impl View for Board {
    type V = Seq<Seq<bool>>;

    open spec fn view(&self) -> Seq<Seq<bool>> {
        self.values.deep_view()
    }
}

impl Board {
    /// Number of rows.
    pub open spec fn spec_height(&self) -> nat {
        self@.len()
    }

    /// Length of the first row, or 0 for a grid with no rows.
    pub open spec fn spec_width(&self) -> nat {
        if self@.len() == 0 {
            0
        } else {
            self@[0].len()
        }
    }

    /// The grid is rectangular: every row has the width of the first.
    pub open spec fn wf(&self) -> bool {
        forall|i: int| 0 <= i < self@.len() ==> (#[trigger] self@[i]).len() == self.spec_width()
    }

    /// The empty placeholder grid, used before the first layout is known.
    pub fn new() -> (r: Board)
        ensures
            r.wf(),
            r.spec_height() == 0,
            r.spec_width() == 0,
    {
        let values: Vec<Vec<bool>> = Vec::new();
        Board { values }
    }

    pub fn height(&self) -> (r: usize)
        ensures
            r == self.spec_height(),
    {
        self.values.len()
    }

    pub fn width(&self) -> (r: usize)
        requires
            self.wf(),
        ensures
            r == self.spec_width(),
    {
        if self.values.len() == 0 {
            0
        } else {
            self.values[0].len()
        }
    }

    /// A grid of the given dimensions, every cell drawn independently at
    /// random. A height of 0 gives a grid with no rows, hence width 0.
    pub fn random(width: usize, height: usize) -> (r: Board)
        ensures
            r.wf(),
            r.spec_height() == height,
            r.spec_width() == (if height == 0 { 0nat } else { width as nat }),
    {
        let mut values: Vec<Vec<bool>> = Vec::new();
        let mut i: usize = 0;
        while i < height
            invariant
                i <= height,
                values@.len() == i,
                forall|r: int| 0 <= r < i ==> (#[trigger] values@[r])@.len() == width,
            decreases height - i,
        {
            let mut row: Vec<bool> = Vec::new();
            let mut j: usize = 0;
            while j < width
                invariant
                    j <= width,
                    row@.len() == j,
                decreases width - j,
            {
                row.push(random_bool());
                j = j + 1;
            }
            values.push(row);
            i = i + 1;
        }
        let board = Board { values };
        proof {
            assert forall|r: int| 0 <= r < board@.len() implies (#[trigger] board@[r]).len()
                == board.spec_width() by {
                lemma_row_view(&board, r);
                if board.spec_height() > 0 {
                    lemma_row_view(&board, 0);
                }
            }
        }
        board
    }

    /// A grid of the given dimensions with every cell dead.
    pub fn dead(width: usize, height: usize) -> (r: Board)
        ensures
            r.wf(),
            r.spec_height() == height,
            r.spec_width() == (if height == 0 { 0nat } else { width as nat }),
            forall|i: int, j: int|
                0 <= i < height && 0 <= j < r.spec_width() ==> !(#[trigger] r@[i][j]),
    {
        let mut values: Vec<Vec<bool>> = Vec::new();
        let mut i: usize = 0;
        while i < height
            invariant
                i <= height,
                values@.len() == i,
                forall|r: int| 0 <= r < i ==> (#[trigger] values@[r])@.len() == width,
                forall|r: int, c: int|
                    0 <= r < i && 0 <= c < width ==> !(#[trigger] values@[r]@[c]),
            decreases height - i,
        {
            let mut row: Vec<bool> = Vec::new();
            let mut j: usize = 0;
            while j < width
                invariant
                    j <= width,
                    row@.len() == j,
                    forall|c: int| 0 <= c < j ==> !(#[trigger] row@[c]),
                decreases width - j,
            {
                row.push(false);
                j = j + 1;
            }
            values.push(row);
            i = i + 1;
        }
        let board = Board { values };
        proof {
            assert forall|r: int| 0 <= r < board@.len() implies (#[trigger] board@[r]).len()
                == board.spec_width() by {
                lemma_row_view(&board, r);
                if board.spec_height() > 0 {
                    lemma_row_view(&board, 0);
                }
            }
            assert forall|i: int, j: int|
                0 <= i < height && 0 <= j < board.spec_width() implies !(#[trigger] board@[i][j]) by {
                lemma_row_view(&board, i);
            }
        }
        board
    }

    /// A copy of this grid, cell for cell.
    pub fn duplicate(&self) -> (r: Board)
        ensures
            r@ == self@,
    {
        let mut values: Vec<Vec<bool>> = Vec::new();
        let height = self.values.len();
        let mut i: usize = 0;
        while i < height
            invariant
                i <= height,
                height == self.values@.len(),
                values@.len() == i,
                forall|r: int| 0 <= r < i ==> #[trigger] values@[r]@ == self.values@[r]@,
            decreases height - i,
        {
            let mut row: Vec<bool> = Vec::new();
            let w = self.values[i].len();
            let mut j: usize = 0;
            while j < w
                invariant
                    j <= w,
                    i < self.values@.len(),
                    w == self.values@[i as int]@.len(),
                    row@.len() == j,
                    forall|c: int| 0 <= c < j ==> #[trigger] row@[c] == self.values@[i as int]@[c],
                decreases w - j,
            {
                row.push(self.values[i][j]);
                j = j + 1;
            }
            proof {
                assert(row@ =~= self.values@[i as int]@);
            }
            values.push(row);
            i = i + 1;
        }
        let board = Board { values };
        proof {
            assert forall|r: int| 0 <= r < board@.len() implies #[trigger] board@[r]
                == self@[r] by {
                lemma_row_view(&board, r);
                lemma_row_view(self, r);
                assert(board@[r] =~= self@[r]);
            }
            assert(board@ =~= self@);
        }
        board
    }

    /// Overwrite one cell, leaving every other cell as it was.
    pub fn set_cell(&mut self, i: usize, j: usize, alive: bool)
        requires
            old(self).wf(),
            i < old(self).spec_height(),
            j < old(self).spec_width(),
        ensures
            final(self).wf(),
            final(self)@ == old(self)@.update(
                i as int,
                old(self)@[i as int].update(j as int, alive),
            ),
            final(self).spec_height() == old(self).spec_height(),
            final(self).spec_width() == old(self).spec_width(),
    {
        proof {
            lemma_row_view(old(self), i as int);
        }
        let mut row: Vec<bool> = Vec::new();
        self.values.set_and_swap(i, &mut row);
        row.set(j, alive);
        self.values.set(i, row);
        proof {
            let target = old(self)@.update(i as int, old(self)@[i as int].update(j as int, alive));
            assert forall|r: int| 0 <= r < self@.len() implies #[trigger] self@[r] == target[r] by {
                lemma_row_view(self, r);
                lemma_row_view(old(self), r);
                assert(self@[r] =~= target[r]);
            }
            assert(self@ =~= target);
        }
    }

    /// Count the live cells among the 8 toroidal neighbors of (i, j).
    pub fn neighbors_count(&self, i: usize, j: usize) -> (r: usize)
        requires
            self.wf(),
            1 <= self.spec_height(),
            1 <= self.spec_width(),
            i < self.spec_height(),
            j < self.spec_width(),
        ensures
            r == spec_neighbors(self@, i as int, j as int),
            r <= 8,
    {
        let h = self.height();
        let w = self.width();
        let iu = mod_dec(i, h);
        let id = mod_inc(i, h);
        let jl = mod_dec(j, w);
        let jr = mod_inc(j, w);
        let mut n: usize = 0;
        if self.get(iu, jl) {
            n = n + 1;
        }
        if self.get(iu, j) {
            n = n + 1;
        }
        if self.get(iu, jr) {
            n = n + 1;
        }
        if self.get(i, jl) {
            n = n + 1;
        }
        if self.get(i, jr) {
            n = n + 1;
        }
        if self.get(id, jl) {
            n = n + 1;
        }
        if self.get(id, j) {
            n = n + 1;
        }
        if self.get(id, jr) {
            n = n + 1;
        }
        n
    }

    /// Compute the next generation of `based_on` into `self`, cell by cell.
    /// `based_on` is only read, so the two buffers may keep alternating roles.
    pub fn advance(&mut self, based_on: &Board)
        requires
            old(self).wf(),
            based_on.wf(),
            old(self).spec_height() == based_on.spec_height(),
            old(self).spec_width() == based_on.spec_width(),
        ensures
            final(self).wf(),
            final(self)@ == next_gen(based_on@),
            final(self).spec_height() == based_on.spec_height(),
            final(self).spec_width() == based_on.spec_width(),
    {
        let h = self.height();
        let w = self.width();
        let target = Ghost(next_gen(based_on@));
        let mut i: usize = 0;
        while i < h
            invariant
                i <= h,
                based_on.wf(),
                h == based_on.spec_height(),
                w == based_on.spec_width(),
                self@.len() == h,
                target@ == next_gen(based_on@),
                forall|r: int| 0 <= r < i ==> #[trigger] self@[r] == target@[r],
                forall|r: int| i <= r < h ==> (#[trigger] self@[r]).len() == w,
            decreases h - i,
        {
            let mut row: Vec<bool> = Vec::new();
            let mut j: usize = 0;
            while j < w
                invariant
                    j <= w,
                    i < h,
                    based_on.wf(),
                    h == based_on.spec_height(),
                    w == based_on.spec_width(),
                    target@ == next_gen(based_on@),
                    row@.len() == j,
                    forall|c: int| 0 <= c < j ==> #[trigger] row@[c] == target@[i as int][c],
                decreases w - j,
            {
                let count = based_on.neighbors_count(i, j);
                let alive = based_on.get(i, j);
                let next = if alive {
                    if count <= 1 {
                        false
                    } else if count >= 4 {
                        false
                    } else {
                        true
                    }
                } else {
                    count == 3
                };
                row.push(next);
                j = j + 1;
            }
            proof {
                assert(row@ =~= target@[i as int]);
            }
            let ghost pre = *self;
            self.values.set(i, row);
            proof {
                lemma_row_view(self, i as int);
                assert(self@[i as int] =~= target@[i as int]);
                assert forall|r: int| 0 <= r < h && r != i as int implies #[trigger] self@[r]
                    == pre@[r] by {
                    assert(self@[r] == self.values@[r].deep_view());
                    assert(pre@[r] == pre.values@[r].deep_view());
                    assert(self.values@[r] == pre.values@[r]);
                }
            }
            i = i + 1;
        }
        proof {
            assert(self@ =~= target@);
        }
    }

    /// Whether the cell at (row `i`, column `j`) is live.
    pub fn get(&self, i: usize, j: usize) -> (r: bool)
        requires
            self.wf(),
            i < self.spec_height(),
            j < self.spec_width(),
        ensures
            r == self@[i as int][j as int],
    {
        proof {
            lemma_row_view(self, i as int);
        }
        self.values[i][j]
    }
}

} // verus!
