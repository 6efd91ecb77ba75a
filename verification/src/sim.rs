//! The double-buffered simulation: a current and a previous grid whose roles
//! alternate on every step, plus the pause flag and the reseed logic.

use vstd::prelude::*;

use crate::board::Board;
use crate::board::next_gen;

verus! {

/// The simulation state that one frame of the loop reads and advances.
pub struct Sim {
    /// The grid that is displayed and evolved.
    pub current: Board,
    /// The scratch grid of the last generation, the write target of the next step.
    pub previous: Board,
    /// While set, steps leave the grids untouched.
    pub paused: bool,
}

/// What one unpaused step does, at the level of grid views: the displayed grid
/// becomes its own next generation, and the old displayed grid is kept as
/// scratch. A paused step changes nothing.
pub open spec fn frame_step(cur: Seq<Seq<bool>>, prev: Seq<Seq<bool>>, paused: bool) -> (
    Seq<Seq<bool>>,
    Seq<Seq<bool>>,
) {
    if paused {
        (cur, prev)
    } else {
        (next_gen(cur), cur)
    }
}

/// `n` consecutive steps, all under the same pause flag.
pub open spec fn frame_steps(
    cur: Seq<Seq<bool>>,
    prev: Seq<Seq<bool>>,
    paused: bool,
    n: nat,
) -> (Seq<Seq<bool>>, Seq<Seq<bool>>)
    decreases n,
{
    if n == 0 {
        (cur, prev)
    } else {
        let (c, p) = frame_steps(cur, prev, paused, (n - 1) as nat);
        frame_step(c, p, paused)
    }
}

/// While paused, any number of consecutive steps leaves the displayed grid
/// (and the scratch grid) exactly as it was.
pub proof fn lemma_pause_freezes(cur: Seq<Seq<bool>>, prev: Seq<Seq<bool>>, n: nat)
    ensures
        frame_steps(cur, prev, true, n) == (cur, prev),
    decreases n,
{
    if n > 0 {
        lemma_pause_freezes(cur, prev, (n - 1) as nat);
    }
}

impl Sim {
    /// Whether the current grid already has the logical dimensions that the
    /// given terminal size asks for.
    pub open spec fn fits(&self, term_width: int, term_height: int) -> bool {
        &&& self.current.spec_width() == term_width / 2
        &&& self.current.spec_height() == term_height
    }

    /// Both grids are rectangular and share their dimensions.
    pub open spec fn wf(&self) -> bool {
        &&& self.current.wf()
        &&& self.previous.wf()
        &&& self.current.spec_height() == self.previous.spec_height()
        &&& self.current.spec_width() == self.previous.spec_width()
    }

    /// A fresh simulation: two empty placeholder grids, running.
    pub fn new() -> (r: Sim)
        ensures
            r.wf(),
            !r.paused,
            r.current.spec_height() == 0,
            r.current.spec_width() == 0,
    {
        Sim { current: Board::new(), previous: Board::new(), paused: false }
    }

    /// Replace both grids with one fresh random grid sized to the terminal:
    /// the logical width is half the terminal width (a live cell is drawn two
    /// characters wide), the logical height is the terminal height. Both
    /// buffers start out identical; the pause flag is kept.
    pub fn reseed(&mut self, term_width: usize, term_height: usize)
        ensures
            final(self).wf(),
            final(self).paused == old(self).paused,
            final(self).current.spec_height() == term_height,
            final(self).current.spec_width() == (
            if term_height == 0 {
                0nat
            } else {
                (term_width / 2) as nat
            }),
            final(self).previous@ == final(self).current@,
    {
        let board = Board::random(term_width / 2, term_height);
        self.previous = board.duplicate();
        self.current = board;
    }

    /// At the top of a frame: if the logical dimensions drawn from the
    /// terminal differ from the current grid's (as on the very first frame,
    /// or after the terminal was resized), reseed at the new dimensions;
    /// otherwise leave everything exactly as it is.
    pub fn fit(&mut self, term_width: usize, term_height: usize)
        requires
            old(self).wf(),
        ensures
            final(self).wf(),
            final(self).paused == old(self).paused,
            final(self).current.spec_height() == term_height,
            final(self).current.spec_width() == (
            if term_height == 0 {
                0nat
            } else {
                (term_width / 2) as nat
            }),
            old(self).fits(term_width as int, term_height as int) ==> *final(self) == *old(self),
            !old(self).fits(term_width as int, term_height as int) ==> final(self).previous@
                == final(self).current@,
    {
        let w = self.current.width();
        let h = self.current.height();
        if w != term_width / 2 || h != term_height {
            self.reseed(term_width, term_height);
        }
    }

    /// After the frame was drawn: when running, swap the two buffer roles and
    /// compute the next generation of the old displayed grid into the new
    /// current buffer; when paused, do nothing. The new displayed grid depends
    /// only on the old displayed grid, never on the scratch contents.
    pub fn step(&mut self)
        requires
            old(self).wf(),
        ensures
            final(self).wf(),
            final(self).paused == old(self).paused,
            (final(self).current@, final(self).previous@) == frame_step(
                old(self).current@,
                old(self).previous@,
                old(self).paused,
            ),
            old(self).paused ==> *final(self) == *old(self),
            !old(self).paused ==> final(self).previous == old(self).current,
            !old(self).paused ==> final(self).current@ == next_gen(old(self).current@),
    {
        if !self.paused {
            core::mem::swap(&mut self.current, &mut self.previous);
            let based_on = &self.previous;
            self.current.advance(based_on);
        }
    }

    /// Flip between running and paused; the grids are untouched.
    pub fn toggle_pause(&mut self)
        ensures
            final(self).paused == !old(self).paused,
            final(self).current == old(self).current,
            final(self).previous == old(self).previous,
    {
        self.paused = !self.paused;
    }

    pub fn is_paused(&self) -> (r: bool)
        ensures
            r == self.paused,
    {
        self.paused
    }

    /// The grid a frame displays.
    pub fn current_board(&self) -> (r: &Board)
        ensures
            r == self.current,
    {
        &self.current
    }
}

} // verus!
