//! Row-level operations on a grid held as a vector of rows.
//!
//! Functions that change a grid in place never allocate, so that a screen
//! can hand them its own grid.
use std::collections::VecDeque;
use vstd::prelude::*;

use crate::attrs::{default_attrs, default_cell, Attrs, Cell};
use crate::model::{grid_of, is_grid, keep_last, resized_grid, row_of};

verus! {

/// The grid seen as rows of cells.
pub open spec fn grid_view(g: Seq<Vec<Cell>>) -> Seq<Seq<Cell>> {
    g.map_values(|r: Vec<Cell>| r@)
}

/// Dropping the oldest of too many lines one push at a time keeps the same
/// lines as dropping them all at the end.
pub proof fn lemma_keep_last_push<T>(s: Seq<T>, x: T, cap: int)
    requires
        cap >= 0,
    ensures
        keep_last(keep_last(s, cap).push(x), cap) =~= keep_last(s.push(x), cap),
        keep_last(s, cap).len() <= cap,
{
}

/// A space in the plain rendition.
pub fn blank_cell() -> (c: Cell)
    ensures
        c == default_cell(),
    no_unwind
{
    Cell {
        ch: ' ',
        attrs: Attrs { fg: None, bg: None, bold: false, italic: false, underline: false, reverse: false },
    }
}

/// A row of `n` copies of `cell`.
pub fn new_row(n: u16, cell: Cell) -> (r: Vec<Cell>)
    ensures
        r@ == row_of(n as int, cell),
{
    let mut r: Vec<Cell> = Vec::new();
    let mut i: u16 = 0;
    while i < n
        invariant
            i <= n,
            r@ =~= row_of(i as int, cell),
        decreases n - i,
    {
        r.push(cell);
        i = i + 1;
    }
    r
}

/// `rows` rows of `cols` copies of `cell`.
pub fn new_grid(cols: u16, rows: u16, cell: Cell) -> (g: Vec<Vec<Cell>>)
    ensures
        grid_view(g@) == grid_of(cols as int, rows as int, cell),
{
    let mut g: Vec<Vec<Cell>> = Vec::new();
    let mut i: u16 = 0;
    while i < rows
        invariant
            i <= rows,
            grid_view(g@) =~= grid_of(cols as int, i as int, cell),
        decreases rows - i,
    {
        let row = new_row(cols, cell);
        let ghost before = g@;
        g.push(row);
        proof {
            assert(grid_view(g@) =~= grid_view(before).push(row_of(cols as int, cell)));
        }
        i = i + 1;
    }
    g
}

/// A copy of a row.
pub fn copy_row(src: &Vec<Cell>) -> (r: Vec<Cell>)
    ensures
        r@ == src@,
{
    let mut r: Vec<Cell> = Vec::new();
    let mut i: usize = 0;
    while i < src.len()
        invariant
            i <= src.len(),
            r@ =~= src@.take(i as int),
        decreases src.len() - i,
    {
        r.push(src[i]);
        i = i + 1;
    }
    r
}

/// Copies of rows `from..to`.
pub fn copy_rows(src: &Vec<Vec<Cell>>, from: usize, to: usize) -> (g: Vec<Vec<Cell>>)
    requires
        from <= to <= src@.len(),
    ensures
        grid_view(g@) == grid_view(src@).subrange(from as int, to as int),
{
    let mut g: Vec<Vec<Cell>> = Vec::new();
    let mut i: usize = from;
    while i < to
        invariant
            from <= i <= to <= src@.len(),
            grid_view(g@) =~= grid_view(src@).subrange(from as int, i as int),
        decreases to - i,
    {
        let row = copy_row(&src[i]);
        let ghost before = g@;
        g.push(row);
        proof {
            assert(grid_view(g@) =~= grid_view(before).push(src@[i as int]@));
        }
        i = i + 1;
    }
    g
}

/// A copy of a grid.
pub fn copy_grid(src: &Vec<Vec<Cell>>) -> (g: Vec<Vec<Cell>>)
    ensures
        grid_view(g@) == grid_view(src@),
{
    let g = copy_rows(src, 0, src.len());
    proof {
        assert(grid_view(src@).subrange(0, src@.len() as int) =~= grid_view(src@));
    }
    g
}

/// A copy of a list of lines.
pub fn copy_lines(src: &VecDeque<Vec<Cell>>) -> (g: VecDeque<Vec<Cell>>)
    ensures
        grid_view(g@) == grid_view(src@),
{
    let mut g: VecDeque<Vec<Cell>> = VecDeque::new();
    let mut i: usize = 0;
    while i < src.len()
        invariant
            i <= src.len(),
            grid_view(g@) =~= grid_view(src@).take(i as int),
        decreases src.len() - i,
    {
        let row = copy_row(&src[i]);
        let ghost before = g@;
        g.push_back(row);
        proof {
            assert(grid_view(g@) =~= grid_view(before).push(src@[i as int]@));
            assert(grid_view(src@).take(i + 1) =~= grid_view(src@).take(i as int).push(
                src@[i as int]@,
            ));
        }
        i = i + 1;
    }
    proof {
        assert(grid_view(src@).take(src@.len() as int) =~= grid_view(src@));
    }
    g
}

/// Overwrite one cell.
pub fn set_cell(grid: &mut Vec<Vec<Cell>>, r: usize, c: usize, cell: Cell)
    requires
        r < old(grid)@.len(),
        c < old(grid)@[r as int]@.len(),
    ensures
        grid_view(final(grid)@) == grid_view(old(grid)@).update(
            r as int,
            grid_view(old(grid)@)[r as int].update(c as int, cell),
        ),
    no_unwind
{
    grid[r][c] = cell;
    proof {
        assert(grid_view(grid@) =~= grid_view(old(grid)@).update(
            r as int,
            grid_view(old(grid)@)[r as int].update(c as int, cell),
        ));
    }
}

/// Replace one row.
pub fn set_row(grid: &mut Vec<Vec<Cell>>, r: usize, row: Vec<Cell>)
    requires
        r < old(grid)@.len(),
    ensures
        grid_view(final(grid)@) == grid_view(old(grid)@).update(r as int, row@),
    no_unwind
{
    let ghost row_view = row@;
    grid[r] = row;
    proof {
        assert(grid_view(grid@) =~= grid_view(old(grid)@).update(r as int, row_view));
    }
}

/// Copy row `from` over row `to`.
fn copy_row_within(grid: &mut Vec<Vec<Cell>>, from: usize, to: usize, cols: usize)
    requires
        from < old(grid)@.len(),
        to < old(grid)@.len(),
        from != to,
        old(grid)@[from as int]@.len() == cols,
        old(grid)@[to as int]@.len() == cols,
    ensures
        grid_view(final(grid)@) =~~= grid_view(old(grid)@).update(
            to as int,
            grid_view(old(grid)@)[from as int],
        ),
    no_unwind
{
    let ghost g = grid_view(grid@);
    let ghost src = g[from as int];
    let mut c: usize = 0;
    while c < cols
        invariant
            c <= cols,
            from < grid@.len(),
            to < grid@.len(),
            from != to,
            g.len() == grid@.len(),
            src.len() == cols,
            src == g[from as int],
            g[to as int].len() == cols,
            grid@[to as int]@.len() == cols,
            forall|i: int| 0 <= i < g.len() && i != to ==> grid@[i]@ == g[i],
            forall|j: int| 0 <= j < c ==> grid@[to as int]@[j] == src[j],
            forall|j: int| c <= j < cols ==> grid@[to as int]@[j] == g[to as int][j],
        decreases cols - c,
    {
        let x = grid[from][c];
        grid[to][c] = x;
        c = c + 1;
    }
    proof {
        assert(grid@[to as int]@ =~= src);
        assert(grid_view(grid@) =~~= g.update(to as int, src));
    }
}

/// Fill row `r` with default cells.
fn clear_row(grid: &mut Vec<Vec<Cell>>, r: usize, cols: usize)
    requires
        r < old(grid)@.len(),
        old(grid)@[r as int]@.len() == cols,
    ensures
        grid_view(final(grid)@) =~~= grid_view(old(grid)@).update(
            r as int,
            row_of(cols as int, default_cell()),
        ),
    no_unwind
{
    let ghost g = grid_view(grid@);
    let mut c: usize = 0;
    while c < cols
        invariant
            c <= cols,
            r < grid@.len(),
            g.len() == grid@.len(),
            grid@[r as int]@.len() == cols,
            forall|i: int| 0 <= i < g.len() && i != r ==> grid@[i]@ == g[i],
            forall|j: int| 0 <= j < c ==> grid@[r as int]@[j] == default_cell(),
        decreases cols - c,
    {
        grid[r][c] = blank_cell();
        c = c + 1;
    }
    proof {
        assert(grid@[r as int]@ =~= row_of(cols as int, default_cell()));
        assert(grid_view(grid@) =~~= g.update(r as int, row_of(cols as int, default_cell())));
    }
}

/// Move rows `top + k..=bottom` up by `k` and fill the last `k` rows of the
/// band with default cells.
pub fn shift_rows_up(grid: &mut Vec<Vec<Cell>>, top: usize, bottom: usize, k: usize, cols: usize)
    requires
        1 <= k,
        top + k <= bottom + 1,
        bottom < old(grid)@.len(),
        is_grid(grid_view(old(grid)@), cols as int, old(grid)@.len() as int),
    ensures
        grid_view(final(grid)@) =~~= grid_view(old(grid)@).take(top as int) + grid_view(
            old(grid)@,
        ).subrange(top + k, bottom + 1) + grid_of(cols as int, k as int, default_cell())
            + grid_view(old(grid)@).skip(bottom + 1),
    no_unwind
{
    let ghost g = grid_view(grid@);
    let n = grid.len();
    let mut r: usize = top;
    while r + k <= bottom
        invariant
            top <= r <= bottom + 1 - k,
            1 <= k,
            top + k <= bottom + 1,
            bottom < n,
            n == grid@.len(),
            is_grid(g, cols as int, n as int),
            is_grid(grid_view(grid@), cols as int, n as int),
            forall|i: int| 0 <= i < n && !(top <= i < r) ==> grid_view(grid@)[i] == g[i],
            forall|i: int| top <= i < r ==> grid_view(grid@)[i] == g[i + k],
        decreases bottom + 1 - r,
    {
        proof {
            assert(grid_view(grid@)[(r + k) as int] == grid@[(r + k) as int]@);
            assert(grid_view(grid@)[r as int] == grid@[r as int]@);
        }
        copy_row_within(grid, r + k, r, cols);
        r = r + 1;
    }
    while r <= bottom
        invariant
            bottom + 1 - k <= r <= bottom + 1,
            1 <= k,
            top + k <= bottom + 1,
            bottom < n,
            n == grid@.len(),
            is_grid(g, cols as int, n as int),
            is_grid(grid_view(grid@), cols as int, n as int),
            forall|i: int| 0 <= i < n && !(top <= i < r) ==> grid_view(grid@)[i] == g[i],
            forall|i: int| top <= i < bottom + 1 - k ==> grid_view(grid@)[i] == g[i + k],
            forall|i: int|
                bottom + 1 - k <= i < r ==> grid_view(grid@)[i] == row_of(
                    cols as int,
                    default_cell(),
                ),
        decreases bottom + 1 - r,
    {
        proof {
            assert(grid_view(grid@)[r as int] == grid@[r as int]@);
        }
        clear_row(grid, r, cols);
        r = r + 1;
    }
    proof {
        let target = g.take(top as int) + g.subrange(top + k, bottom + 1) + grid_of(
            cols as int,
            k as int,
            default_cell(),
        ) + g.skip(bottom + 1);
        assert forall|i: int| 0 <= i < n implies grid_view(grid@)[i] =~= target[i] by {
            if i < top {
            } else if i < bottom + 1 - k {
            } else if i <= bottom {
            } else {
            }
        }
        assert(grid_view(grid@) =~~= target);
    }
}

/// Move rows `top..=bottom - k` down by `k` and fill the first `k` rows of
/// the band with default cells.
pub fn shift_rows_down(grid: &mut Vec<Vec<Cell>>, top: usize, bottom: usize, k: usize, cols: usize)
    requires
        1 <= k,
        top + k <= bottom + 1,
        bottom < old(grid)@.len(),
        is_grid(grid_view(old(grid)@), cols as int, old(grid)@.len() as int),
    ensures
        grid_view(final(grid)@) =~~= grid_view(old(grid)@).take(top as int) + grid_of(
            cols as int,
            k as int,
            default_cell(),
        ) + grid_view(old(grid)@).subrange(top as int, bottom + 1 - k) + grid_view(
            old(grid)@,
        ).skip(bottom + 1),
    no_unwind
{
    let ghost g = grid_view(grid@);
    let n = grid.len();
    let stop = top + k;
    let mut r: usize = bottom;
    while r >= stop
        invariant
            stop - 1 <= r <= bottom,
            stop == top + k,
            1 <= k,
            top + k <= bottom + 1,
            bottom < n,
            n == grid@.len(),
            is_grid(g, cols as int, n as int),
            is_grid(grid_view(grid@), cols as int, n as int),
            forall|i: int| 0 <= i < n && !(r < i <= bottom) ==> grid_view(grid@)[i] == g[i],
            forall|i: int| r < i <= bottom ==> grid_view(grid@)[i] == g[i - k],
        decreases r,
    {
        proof {
            assert(grid_view(grid@)[(r - k) as int] == grid@[(r - k) as int]@);
            assert(grid_view(grid@)[r as int] == grid@[r as int]@);
        }
        copy_row_within(grid, r - k, r, cols);
        r = r - 1;
    }
    let mut i: usize = top;
    while i < stop
        invariant
            top <= i <= stop,
            stop == top + k,
            top + k <= bottom + 1,
            bottom < n,
            n == grid@.len(),
            is_grid(g, cols as int, n as int),
            is_grid(grid_view(grid@), cols as int, n as int),
            forall|j: int| 0 <= j < n && !(top <= j <= bottom) ==> grid_view(grid@)[j] == g[j],
            forall|j: int| stop <= j <= bottom ==> grid_view(grid@)[j] == g[j - k],
            forall|j: int|
                top <= j < i ==> grid_view(grid@)[j] == row_of(cols as int, default_cell()),
        decreases stop - i,
    {
        proof {
            assert(grid_view(grid@)[i as int] == grid@[i as int]@);
        }
        clear_row(grid, i, cols);
        i = i + 1;
    }
    proof {
        let target = g.take(top as int) + grid_of(cols as int, k as int, default_cell())
            + g.subrange(top as int, bottom + 1 - k) + g.skip(bottom + 1);
        assert forall|j: int| 0 <= j < n implies grid_view(grid@)[j] =~= target[j] by {
            if j < top {
            } else if j < stop {
            } else if j <= bottom {
            } else {
            }
        }
        assert(grid_view(grid@) =~~= target);
    }
}

/// Append `line` to `lines`, then keep only the newest `cap`.
pub fn push_bounded(lines: &mut VecDeque<Vec<Cell>>, cap: usize, line: Vec<Cell>)
    requires
        old(lines)@.len() <= cap,
    ensures
        grid_view(final(lines)@) == keep_last(grid_view(old(lines)@).push(line@), cap as int),
        final(lines)@.len() <= cap,
{
    let ghost before = grid_view(lines@);
    let ghost lv = line@;
    lines.push_back(line);
    assert(grid_view(lines@) =~= before.push(lv));
    if lines.len() > cap {
        let _oldest = lines.pop_front();
        assert(grid_view(lines@) =~= before.push(lv).skip(1));
    }
}

/// Append `more` to `lines`, keeping only the newest `cap`.
pub fn push_lines(lines: &mut VecDeque<Vec<Cell>>, cap: usize, more: Vec<Vec<Cell>>)
    requires
        old(lines)@.len() <= cap,
    ensures
        grid_view(final(lines)@) == keep_last(
            grid_view(old(lines)@) + grid_view(more@),
            cap as int,
        ),
        final(lines)@.len() <= cap,
{
    let ghost start = grid_view(lines@);
    let ghost all = grid_view(more@);
    let total = more.len();
    let mut rest = more;
    let mut i: usize = 0;
    while rest.len() > 0
        invariant
            lines@.len() <= cap,
            all.len() == total,
            i + rest@.len() == total,
            grid_view(rest@) =~= all.skip(i as int),
            grid_view(lines@) =~= keep_last(start + all.take(i as int), cap as int),
        decreases rest@.len(),
    {
        let ghost before = rest@;
        let line = rest.remove(0);
        proof {
            assert(grid_view(before)[0] == all.skip(i as int)[0]);
            assert(line@ == all[i as int]);
            lemma_keep_last_push(start + all.take(i as int), line@, cap as int);
            assert(all.take(i + 1) =~= all.take(i as int).push(line@));
            assert((start + all.take(i as int)).push(line@) =~= start + all.take(i + 1));
        }
        push_bounded(lines, cap, line);
        proof {
            assert(grid_view(rest@) =~= grid_view(before).skip(1));
            assert(grid_view(rest@) =~= all.skip(i + 1));
        }
        i = i + 1;
    }
    proof {
        assert(all.take(i as int) =~= all);
        assert(start.len() <= cap);
    }
}

/// The top-left overlap of `src` in a `new_rows` x `new_cols` grid of
/// default cells.
pub fn resize_grid(src: &Vec<Vec<Cell>>, old_cols: u16, old_rows: u16, new_cols: u16, new_rows: u16) -> (g:
    Vec<Vec<Cell>>)
    requires
        is_grid(grid_view(src@), old_cols as int, old_rows as int),
    ensures
        grid_view(g@) == resized_grid(
            grid_view(src@),
            old_cols as int,
            old_rows as int,
            new_cols as int,
            new_rows as int,
        ),
{
    let ghost target = resized_grid(
        grid_view(src@),
        old_cols as int,
        old_rows as int,
        new_cols as int,
        new_rows as int,
    );
    let mut g: Vec<Vec<Cell>> = Vec::new();
    let mut r: u16 = 0;
    while r < new_rows
        invariant
            r <= new_rows,
            is_grid(grid_view(src@), old_cols as int, old_rows as int),
            target == resized_grid(
                grid_view(src@),
                old_cols as int,
                old_rows as int,
                new_cols as int,
                new_rows as int,
            ),
            grid_view(g@) =~= target.take(r as int),
        decreases new_rows - r,
    {
        let mut row: Vec<Cell> = Vec::new();
        let mut c: u16 = 0;
        while c < new_cols
            invariant
                c <= new_cols,
                r < new_rows,
                is_grid(grid_view(src@), old_cols as int, old_rows as int),
                target == resized_grid(
                    grid_view(src@),
                    old_cols as int,
                    old_rows as int,
                    new_cols as int,
                    new_rows as int,
                ),
                row@ =~= target[r as int].take(c as int),
            decreases new_cols - c,
        {
            if r < old_rows && c < old_cols {
                proof {
                    assert(grid_view(src@)[r as int] == src@[r as int]@);
                }
                row.push(src[r as usize][c as usize]);
            } else {
                row.push(blank_cell());
            }
            c = c + 1;
        }
        proof {
            assert(row@ =~= target[r as int]);
        }
        let ghost before = g@;
        g.push(row);
        proof {
            assert(grid_view(g@) =~= grid_view(before).push(target[r as int]));
        }
        r = r + 1;
    }
    proof {
        assert(target.take(new_rows as int) =~= target);
    }
    g
}

} // verus!
