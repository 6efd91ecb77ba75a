//! Where on the screen the live cells go: each live cell at (row, col) is
//! drawn as one block two characters wide at screen position (col * 2, row).

use vstd::prelude::*;

use crate::board::Board;

verus! {

/// The screen positions (x, y) of the blocks for the live cells of row `i`,
/// in column order: a live cell at column `c` is drawn at x = 2 * c, y = i.
pub open spec fn row_blocks(row: Seq<bool>, i: int) -> Seq<(int, int)>
    decreases row.len(),
{
    if row.len() == 0 {
        Seq::empty()
    } else {
        row_blocks(row.drop_last(), i) + (
        if row.last() {
            seq![(2 * (row.len() - 1), i)]
        } else {
            Seq::empty()
        })
    }
}

/// The screen positions of the blocks for all live cells of a grid, row-major.
pub open spec fn grid_blocks(g: Seq<Seq<bool>>) -> Seq<(int, int)>
    decreases g.len(),
{
    if g.len() == 0 {
        Seq::empty()
    } else {
        grid_blocks(g.drop_last()) + row_blocks(g.last(), g.len() - 1)
    }
}

/// The same positions, read off a vector of machine integers.
pub open spec fn as_int_pairs(s: Seq<(usize, usize)>) -> Seq<(int, int)> {
    s.map_values(|p: (usize, usize)| (p.0 as int, p.1 as int))
}

/// List, row-major, one screen position for every live cell of the board:
/// the drawing loop then issues one fixed-size block per entry and nothing
/// for dead cells.
pub fn draw_positions(board: &Board) -> (r: Vec<(usize, usize)>)
    requires
        board.wf(),
        2 * board.spec_width() <= usize::MAX,
    ensures
        as_int_pairs(r@) == grid_blocks(board@),
{
    let h = board.height();
    let w = board.width();
    let mut out: Vec<(usize, usize)> = Vec::new();
    let mut i: usize = 0;
    proof {
        assert(as_int_pairs(out@) =~= grid_blocks(board@.take(0)));
    }
    while i < h
        invariant
            i <= h,
            board.wf(),
            h == board.spec_height(),
            w == board.spec_width(),
            2 * w <= usize::MAX,
            as_int_pairs(out@) == grid_blocks(board@.take(i as int)),
        decreases h - i,
    {
        let ghost row = board@[i as int];
        let mut j: usize = 0;
        proof {
            assert(row.take(0) =~= Seq::<bool>::empty());
            assert(as_int_pairs(out@) + Seq::<(int, int)>::empty() =~= as_int_pairs(out@));
            assert(as_int_pairs(out@) =~= grid_blocks(board@.take(i as int)) + row_blocks(
                row.take(0),
                i as int,
            ));
        }
        while j < w
            invariant
                j <= w,
                i < h,
                board.wf(),
                h == board.spec_height(),
                w == board.spec_width(),
                2 * w <= usize::MAX,
                row == board@[i as int],
                w == row.len(),
                as_int_pairs(out@) == grid_blocks(board@.take(i as int)) + row_blocks(
                    row.take(j as int),
                    i as int,
                ),
            decreases w - j,
        {
            let ghost pre = out@;
            if board.get(i, j) {
                out.push((2 * j, i));
            }
            proof {
                let jj = j as int;
                assert(row.take(jj + 1).drop_last() =~= row.take(jj));
                assert(row.take(jj + 1).last() == row[jj]);
                if row[jj] {
                    let p = (((2 * jj) as usize), i);
                    assert(p.0 as int == 2 * jj);
                    assert(as_int_pairs(pre.push(p)) =~= as_int_pairs(pre).push(
                        (2 * jj, i as int),
                    ));
                    assert(row_blocks(row.take(jj + 1), i as int) =~= row_blocks(
                        row.take(jj),
                        i as int,
                    ).push((2 * jj, i as int)));
                    assert(as_int_pairs(out@) =~= grid_blocks(board@.take(i as int)) + row_blocks(
                        row.take(jj + 1),
                        i as int,
                    ));
                } else {
                    assert(row_blocks(row.take(jj + 1), i as int) =~= row_blocks(
                        row.take(jj),
                        i as int,
                    ));
                }
            }
            j = j + 1;
        }
        proof {
            let ii = i as int;
            assert(row.take(w as int) =~= row);
            assert(board@.take(ii + 1).drop_last() =~= board@.take(ii));
            assert(board@.take(ii + 1).last() == board@[ii]);
            assert(grid_blocks(board@.take(ii + 1)) == grid_blocks(board@.take(ii)) + row_blocks(
                row,
                ii,
            ));
        }
        i = i + 1;
    }
    proof {
        assert(board@.take(h as int) =~= board@);
    }
    out
}

} // verus!
