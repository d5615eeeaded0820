//! Screen grid with cursor, rendition, modes, scroll region, alternate
//! buffer and bounded scrollback.
use std::collections::VecDeque;
use vstd::prelude::*;

use crate::attrs::{Attrs, Cell, Color, Modes};
use crate::grid::{
    blank_cell, copy_grid, copy_lines, copy_rows, grid_view, new_grid, new_row, push_lines,
    resize_grid, set_cell, set_row, shift_rows_down, shift_rows_up,
};
use crate::model::{
    clamp_byte, clamp_index, fit_col, grid_text, min, resized_grid, row_chars, set_color, sgr_from,
    sgr_step, valid_size, ScreenView,
};
use crate::text::{
    ascii_chars, decimal, lemma_decimal_ascii, push_ascii, push_decimal, push_str, string_from_chars,
};

verus! {

/// Largest accepted width or height.
pub const MAX_SCREEN_DIMENSION: u16 = 4096;

/// Largest accepted number of cells (four million).
pub const MAX_SCREEN_CELLS: usize = 4194304;

/// A refused terminal size.
#[derive(Debug, Clone, Copy, PartialEq, Eq, Structural)]
pub struct ScreenSizeError {
    pub cols: u16,
    pub rows: u16,
}

/// The text of a size refusal.
pub open spec fn size_error_message(cols: u16, rows: u16) -> Seq<char> {
    "invalid terminal size "@ + ascii_chars(decimal(cols as nat)) + "x"@ + ascii_chars(
        decimal(rows as nat),
    ) + "; dimensions must be 1..=4096 and total cells <= 4194304"@
}

impl ScreenSizeError {
    /// What was refused, and the limits.
    pub fn message(&self) -> (s: String)
        ensures
            s@ == size_error_message(self.cols, self.rows),
    {
        let mut out: Vec<char> = Vec::new();
        push_str(&mut out, "invalid terminal size ");
        let mut digits: Vec<u8> = Vec::new();
        push_decimal(&mut digits, self.cols as u64);
        proof {
            lemma_decimal_ascii(self.cols as nat);
            assert(digits@ =~= decimal(self.cols as nat));
        }
        push_ascii(&mut out, &digits);
        push_str(&mut out, "x");
        let mut digits: Vec<u8> = Vec::new();
        push_decimal(&mut digits, self.rows as u64);
        proof {
            lemma_decimal_ascii(self.rows as nat);
            assert(digits@ =~= decimal(self.rows as nat));
        }
        push_ascii(&mut out, &digits);
        push_str(&mut out, "; dimensions must be 1..=4096 and total cells <= 4194304");
        string_from_chars(&out)
    }
}

/// Checks a size against the hard allocation limits.
pub fn validate_screen_size(cols: u16, rows: u16) -> (r: Result<(), ScreenSizeError>)
    ensures
        r is Ok <==> valid_size(cols as int, rows as int),
        r matches Err(e) ==> e == (ScreenSizeError { cols, rows }),
{
    assert(cols as u64 * rows as u64 <= 0xffff * 0xffff) by (nonlinear_arith);
    let cells: u64 = cols as u64 * rows as u64;
    if cols == 0 || rows == 0 || cols > MAX_SCREEN_DIMENSION || rows > MAX_SCREEN_DIMENSION
        || cells > MAX_SCREEN_CELLS as u64 {
        return Err(ScreenSizeError { cols, rows });
    }
    Ok(())
}

/// `v` clamped to `0..=max - 1`.
fn clamp_idx(v: i64, max: u16) -> (r: u16)
    requires
        max >= 1,
    ensures
        r == clamp_index(v as int, max as int),
{
    if v < 0 {
        0
    } else if v > (max - 1) as i64 {
        max - 1
    } else {
        v as u16
    }
}

/// `v` clamped to `0..=255`.
fn clamp_u8(v: i64) -> (r: u8)
    ensures
        r == clamp_byte(v),
{
    if v < 0 {
        0
    } else if v > 255 {
        255
    } else {
        v as u8
    }
}

/// Where a column lands when the width changes from `old_cols` to `cols`.
fn fit_column(c: u16, old_cols: u16, cols: u16) -> (r: u16)
    requires
        old_cols >= 1,
        cols >= 1,
    ensures
        r == fit_col(c as int, old_cols as int, cols as int),
{
    if c >= old_cols {
        if old_cols - 1 < cols - 1 {
            old_cols - 1
        } else {
            cols - 1
        }
    } else if c < cols - 1 {
        c
    } else {
        cols - 1
    }
}

/// The SGR parameter `off` places after `i`, if any.
fn param_at(flat: &[i64], i: usize, off: usize) -> (r: Option<i64>)
    requires
        i < flat@.len(),
    ensures
        r == (if i + off < flat@.len() {
            Some(flat@[i + off])
        } else {
            None::<i64>
        }),
{
    if off < flat.len() - i {
        Some(flat[i + off])
    } else {
        None
    }
}

/// One SGR step at `i`: the new rendition and the next index, capped at
/// the end of `flat`.
fn sgr_step_exec(a: Attrs, flat: &[i64], i: usize) -> (r: (Attrs, usize))
    requires
        i < flat@.len(),
    ensures
        r.0 == sgr_step(a, flat@, i as int).0,
        r.1 == min(sgr_step(a, flat@, i as int).1, flat@.len() as int),
        r.1 > i,
        sgr_from(r.0, flat@, r.1 as int) == sgr_from(a, flat@, i as int),
{
    let v = flat[i];
    let rest = flat.len() - i;
    let advance = |step: usize| -> (n: usize)
        requires
            step >= 1,
        ensures
            n == min(i + step, flat@.len() as int),
        {
            if step >= rest {
                flat.len()
            } else {
                i + step
            }
        };
    let r = if v == 0 {
        (Attrs::default(), advance(1))
    } else if v == 1 {
        (Attrs { bold: true, ..a }, advance(1))
    } else if v == 3 {
        (Attrs { italic: true, ..a }, advance(1))
    } else if v == 4 {
        (Attrs { underline: true, ..a }, advance(1))
    } else if v == 7 {
        (Attrs { reverse: true, ..a }, advance(1))
    } else if v == 22 {
        (Attrs { bold: false, ..a }, advance(1))
    } else if v == 23 {
        (Attrs { italic: false, ..a }, advance(1))
    } else if v == 24 {
        (Attrs { underline: false, ..a }, advance(1))
    } else if v == 27 {
        (Attrs { reverse: false, ..a }, advance(1))
    } else if 30 <= v && v <= 37 {
        (Attrs { fg: Some(Color::Indexed((v - 30) as u8)), ..a }, advance(1))
    } else if v == 39 {
        (Attrs { fg: None, ..a }, advance(1))
    } else if 40 <= v && v <= 47 {
        (Attrs { bg: Some(Color::Indexed((v - 40) as u8)), ..a }, advance(1))
    } else if v == 49 {
        (Attrs { bg: None, ..a }, advance(1))
    } else if 90 <= v && v <= 97 {
        (Attrs { fg: Some(Color::Indexed((v - 90 + 8) as u8)), ..a }, advance(1))
    } else if 100 <= v && v <= 107 {
        (Attrs { bg: Some(Color::Indexed((v - 100 + 8) as u8)), ..a }, advance(1))
    } else if v == 38 || v == 48 {
        let fg = v == 38;
        let next = param_at(flat, i, 1);
        if next == Some(5i64) {
            match param_at(flat, i, 2) {
                Some(n) => (set_color_exec(a, fg, Color::Indexed(clamp_u8(n))), advance(3)),
                None => (a, advance(3)),
            }
        } else if next == Some(2i64) {
            let r = match param_at(flat, i, 2) {
                Some(x) => clamp_u8(x),
                None => 0,
            };
            let g = match param_at(flat, i, 3) {
                Some(x) => clamp_u8(x),
                None => 0,
            };
            let b = match param_at(flat, i, 4) {
                Some(x) => clamp_u8(x),
                None => 0,
            };
            (set_color_exec(a, fg, Color::Rgb(r, g, b)), advance(5))
        } else {
            (a, advance(2))
        }
    } else {
        (a, advance(1))
    };
    proof {
        let (a2, next) = sgr_step(a, flat@, i as int);
        assert(next > i);
        if next > flat@.len() {
            assert(sgr_from(a2, flat@, flat@.len() as int) == a2);
        }
    }
    r
}

/// `a` with its foreground (`fg`) or background (`!fg`) set to `color`.
fn set_color_exec(a: Attrs, fg: bool, color: Color) -> (r: Attrs)
    ensures
        r == set_color(a, fg, color),
{
    if fg {
        Attrs { fg: Some(color), ..a }
    } else {
        Attrs { bg: Some(color), ..a }
    }
}

/// Screen grid model with scrollback.
pub struct Screen {
    cols: u16,
    rows: u16,
    grid: Vec<Vec<Cell>>,
    scrollback: VecDeque<Vec<Cell>>,
    scrollback_cap: usize,
    cursor_row: u16,
    cursor_col: u16,
    attrs: Attrs,
    modes: Modes,
    scroll_region: Option<(u16, u16)>,
    alt_grid: Option<Vec<Vec<Cell>>>,
    saved_cursor: Option<(u16, u16, Attrs)>,
}

impl View for Screen {
    type V = ScreenView;

    closed spec fn view(&self) -> ScreenView {
        ScreenView {
            cols: self.cols,
            rows: self.rows,
            grid: grid_view(self.grid@),
            scrollback: grid_view(self.scrollback@),
            scrollback_cap: self.scrollback_cap,
            cursor_row: self.cursor_row,
            cursor_col: self.cursor_col,
            attrs: self.attrs,
            modes: self.modes,
            scroll_region: self.scroll_region,
            alt_grid: match self.alt_grid {
                Some(g) => Some(grid_view(g@)),
                None => None,
            },
            saved_cursor: self.saved_cursor,
        }
    }
}

impl Clone for Screen {
    fn clone(&self) -> (s: Self)
        ensures
            s@ == self@,
    {
        proof {
            use_type_invariant(self);
        }
        let alt_grid = match &self.alt_grid {
            Some(g) => Some(copy_grid(g)),
            None => None,
        };
        Screen {
            cols: self.cols,
            rows: self.rows,
            grid: copy_grid(&self.grid),
            scrollback: copy_lines(&self.scrollback),
            scrollback_cap: self.scrollback_cap,
            cursor_row: self.cursor_row,
            cursor_col: self.cursor_col,
            attrs: self.attrs,
            modes: self.modes,
            scroll_region: self.scroll_region,
            alt_grid,
            saved_cursor: self.saved_cursor,
        }
    }
}

impl Screen {
    #[verifier::type_invariant]
    pub open spec fn inv(&self) -> bool {
        self@.wf()
    }

    /// A screen with a 10 000-line scrollback; the size must be valid.
    pub fn new(cols: u16, rows: u16) -> (s: Self)
        requires
            valid_size(cols as int, rows as int),
        ensures
            s@ == ScreenView::initial(cols, rows, 10000),
    {
        Self::with_scrollback_cap(cols, rows, 10000)
    }

    pub fn try_new(cols: u16, rows: u16) -> (r: Result<Self, ScreenSizeError>)
        ensures
            r is Ok <==> valid_size(cols as int, rows as int),
            r matches Ok(s) ==> s@ == ScreenView::initial(cols, rows, 10000),
            r matches Err(e) ==> e == (ScreenSizeError { cols, rows }),
    {
        Self::try_with_scrollback_cap(cols, rows, 10000)
    }

    /// A screen keeping at most `cap` scrolled-off lines; the size must be valid.
    pub fn with_scrollback_cap(cols: u16, rows: u16, cap: usize) -> (s: Self)
        requires
            valid_size(cols as int, rows as int),
        ensures
            s@ == ScreenView::initial(cols, rows, cap),
    {
        let grid = new_grid(cols, rows, Cell::default());

        let s = Screen {
            cols,
            rows,
            grid,
            scrollback: VecDeque::new(),
            scrollback_cap: cap,
            cursor_row: 0,
            cursor_col: 0,
            attrs: Attrs::default(),
            modes: Modes::default(),
            scroll_region: None,
            alt_grid: None,
            saved_cursor: None,
        };
        proof {
            assert(grid_view(s.scrollback@) =~= Seq::empty());
        }
        s
    }

    pub fn try_with_scrollback_cap(cols: u16, rows: u16, cap: usize) -> (r: Result<
        Self,
        ScreenSizeError,
    >)
        ensures
            r is Ok <==> valid_size(cols as int, rows as int),
            r matches Ok(s) ==> s@ == ScreenView::initial(cols, rows, cap),
            r matches Err(e) ==> e == (ScreenSizeError { cols, rows }),
    {
        match validate_screen_size(cols, rows) {
            Ok(()) => Ok(Self::with_scrollback_cap(cols, rows, cap)),
            Err(e) => Err(e),
        }
    }

    pub fn cols(&self) -> (c: u16)
        ensures
            c == self@.cols,
            1 <= c <= 4096,
    {
        proof {
            use_type_invariant(self);
        }
        self.cols
    }

    pub fn rows(&self) -> (r: u16)
        ensures
            r == self@.rows,
            1 <= r <= 4096,
    {
        proof {
            use_type_invariant(self);
        }
        self.rows
    }

    /// The raw cursor as (col, row); col may equal `cols` while a wrap is pending.
    pub fn cursor(&self) -> (c: (u16, u16))
        ensures
            c == (self@.cursor_col, self@.cursor_row),
            c.0 <= self@.cols,
            c.1 < self@.rows,
    {
        proof {
            use_type_invariant(self);
        }
        (self.cursor_col, self.cursor_row)
    }

    /// The cursor clamped to an addressable cell, as (col, row).
    pub fn visible_cursor(&self) -> (c: (u16, u16))
        ensures
            c == self@.visible_cursor(),
            c.0 < self@.cols,
            c.1 < self@.rows,
    {
        proof {
            use_type_invariant(self);
        }
        let col = if self.cursor_col < self.cols - 1 {
            self.cursor_col
        } else {
            self.cols - 1
        };
        let row = if self.cursor_row < self.rows - 1 {
            self.cursor_row
        } else {
            self.rows - 1
        };
        (col, row)
    }

    pub fn attrs(&self) -> (a: &Attrs)
        ensures
            *a == self@.attrs,
    {
        &self.attrs
    }

    pub fn modes(&self) -> (m: &Modes)
        ensures
            *m == self@.modes,
    {
        &self.modes
    }

    pub fn scrollback_len(&self) -> (n: usize)
        ensures
            n == self@.scrollback.len(),
    {
        self.scrollback.len()
    }

    /// A scrolled-off line (0 = oldest retained).
    pub fn scrollback_line(&self, idx: usize) -> (line: Option<&[Cell]>)
        ensures
            idx < self@.scrollback.len() <==> line is Some,
            line matches Some(l) ==> l@ == self@.scrollback[idx as int],
    {
        if idx < self.scrollback.len() {
            Some(self.scrollback[idx].as_slice())
        } else {
            None
        }
    }

    pub fn cell(&self, row: u16, col: u16) -> (c: Option<&Cell>)
        ensures
            (row < self@.rows && col < self@.cols) <==> c is Some,
            c matches Some(x) ==> *x == self@.cell(row as int, col as int),
    {
        proof {
            use_type_invariant(self);
        }
        if row >= self.rows || col >= self.cols {
            return None;
        }
        Some(&self.grid[row as usize][col as usize])
    }

    fn scroll_top(&self) -> (t: u16)
        ensures
            t == self@.top(),
    {
        match self.scroll_region {
            Some((t, _b)) => t,
            None => 0,
        }
    }

    fn scroll_bottom(&self) -> (b: u16)
        ensures
            b == self@.bottom(),
    {
        proof {
            use_type_invariant(self);
        }
        match self.scroll_region {
            Some((_t, b)) => b,
            None => self.rows - 1,
        }
    }

    /// Scroll `n` lines up inside the DECSTBM region. The line leaving the
    /// region enters scrollback only when the region is the full screen.
    pub fn scroll_up(&mut self, n: u16)
        ensures
            final(self)@ == old(self)@.scroll_up(n as int),
    {
        proof {
            use_type_invariant(&*self);
        }
        let top = self.scroll_top();
        let bottom = self.scroll_bottom();
        let span = bottom - top + 1;
        let k = if n < span {
            n
        } else {
            span
        };
        if k == 0 {
            return;
        }
        let full = top == 0 && bottom == self.rows - 1 && !self.modes.alt_screen;
        let cols = self.cols;
        if full {
            let leaving = copy_rows(&self.grid, 0, k as usize);
            let cap = self.scrollback_cap;
            let mut lines: VecDeque<Vec<Cell>> = VecDeque::new();
            std::mem::swap(&mut self.scrollback, &mut lines);
            push_lines(&mut lines, cap, leaving);
            std::mem::swap(&mut self.scrollback, &mut lines);
            proof {
                assert(grid_view(old(self).grid@).subrange(0, k as int) =~= grid_view(
                    old(self).grid@,
                ).take(k as int));
            }
        }
        shift_rows_up(&mut self.grid, top as usize, bottom as usize, k as usize, cols as usize);
        proof {
            assert(self@ =~= old(self)@.scroll_up(n as int));
        }
    }

    /// Scroll `n` lines down inside the DECSTBM region.
    pub fn scroll_down(&mut self, n: u16)
        ensures
            final(self)@ == old(self)@.scroll_down(n as int),
    {
        proof {
            use_type_invariant(&*self);
        }
        let top = self.scroll_top();
        let bottom = self.scroll_bottom();
        let span = bottom - top + 1;
        let k = if n < span {
            n
        } else {
            span
        };
        if k == 0 {
            return;
        }
        let cols = self.cols;
        shift_rows_down(&mut self.grid, top as usize, bottom as usize, k as usize, cols as usize);
        proof {
            assert(self@ =~= old(self)@.scroll_down(n as int));
        }
    }

    /// Line feed; scrolls (pushing into scrollback) at the bottom margin.
    pub fn line_feed(&mut self)
        ensures
            final(self)@ == old(self)@.line_feed(),
    {
        proof {
            use_type_invariant(&*self);
        }
        let bottom = self.scroll_bottom();
        if self.cursor_row == bottom {
            self.scroll_up(1);
        } else if self.cursor_row < self.rows - 1 {
            self.cursor_row = self.cursor_row + 1;
        }
    }

    /// Whether `reverse_index` is defined here: not on row 0 above a region
    /// that starts lower.
    pub fn can_reverse_index(&self) -> (b: bool)
        ensures
            b == self@.can_reverse_index(),
    {
        self.cursor_row == self.scroll_top() || self.cursor_row > 0
    }

    /// Reverse index (ESC M): feed up; scrolls down at the top margin.
    pub fn reverse_index(&mut self)
        requires
            old(self)@.can_reverse_index(),
        ensures
            final(self)@ == old(self)@.reverse_index(),
    {
        proof {
            use_type_invariant(&*self);
        }
        let top = self.scroll_top();
        if self.cursor_row == top {
            self.scroll_down(1);
        } else {
            self.cursor_row = self.cursor_row - 1;
        }
    }

    /// Write a char at the cursor, advancing it. Wraps at the right margin (DECAWM).
    pub fn put(&mut self, ch: char)
        ensures
            final(self)@ == old(self)@.put(ch),
    {
        proof {
            use_type_invariant(&*self);
        }
        if self.cursor_col >= self.cols && self.modes.autowrap {
            self.cursor_col = 0;
            self.line_feed();
        }
        proof {
            use_type_invariant(&*self);
        }
        if self.cursor_col >= self.cols {
            self.cursor_col = self.cols - 1;
        }
        let row = self.cursor_row as usize;
        let col = self.cursor_col as usize;
        let cell = Cell { ch, attrs: self.attrs };
        set_cell(&mut self.grid, row, col, cell);
        self.cursor_col = self.cursor_col + 1;
    }

    pub fn carriage_return(&mut self)
        ensures
            final(self)@ == old(self)@.carriage_return(),
    {
        proof {
            use_type_invariant(&*self);
        }
        self.cursor_col = 0;
    }

    pub fn backspace(&mut self)
        ensures
            final(self)@ == old(self)@.backspace(),
    {
        proof {
            use_type_invariant(&*self);
        }
        if self.cursor_col > 0 {
            self.cursor_col = self.cursor_col - 1;
        }
    }

    /// Horizontal tab: advance to the next multiple of 8.
    pub fn tab(&mut self)
        ensures
            final(self)@ == old(self)@.tab(),
    {
        proof {
            use_type_invariant(&*self);
        }
        let next = (self.cursor_col / 8 + 1) * 8;
        self.cursor_col = if next < self.cols - 1 {
            next
        } else {
            self.cols - 1
        };
    }

    /// Absolute cursor position, 0-based, clamped to the grid.
    pub fn goto(&mut self, row: i64, col: i64)
        ensures
            final(self)@ == old(self)@.goto(row as int, col as int),
    {
        proof {
            use_type_invariant(&*self);
        }
        self.cursor_row = clamp_idx(row, self.rows);
        self.cursor_col = clamp_idx(col, self.cols);
    }

    /// Relative cursor movement, clamped to the grid.
    pub fn move_cursor(&mut self, drow: i64, dcol: i64)
        requires
            i64::MIN <= old(self)@.cursor_row + drow <= i64::MAX,
            i64::MIN <= old(self)@.cursor_col + dcol <= i64::MAX,
        ensures
            final(self)@ == old(self)@.move_cursor(drow as int, dcol as int),
    {
        let (c0, r0) = self.cursor();
        self.goto(r0 as i64 + drow, c0 as i64 + dcol);
    }

    /// Set the DECSTBM scroll region (1-based inclusive params, as received).
    /// Requires top < bottom after clamping; otherwise the request is ignored.
    pub fn set_scroll_region(&mut self, top: i64, bottom: i64)
        ensures
            final(self)@ == old(self)@.set_scroll_region(top as int, bottom as int),
    {
        proof {
            use_type_invariant(&*self);
        }
        let rows = self.rows as i64;
        let t = (if top < 1 {
            1
        } else if top > rows {
            rows
        } else {
            top
        }) - 1;
        let b = (if bottom < 1 {
            1
        } else if bottom > rows {
            rows
        } else {
            bottom
        }) - 1;
        if t < b {
            self.scroll_region = Some((t as u16, b as u16));
        }
    }

    /// Reset the scroll region to the full screen.
    pub fn reset_scroll_region(&mut self)
        ensures
            final(self)@ == old(self)@.reset_scroll_region(),
    {
        proof {
            use_type_invariant(&*self);
        }
        self.scroll_region = None;
    }

    /// Switch to the alternate screen buffer; with `save_cursor` the cursor
    /// and rendition are remembered for the return.
    pub fn enter_alt_screen(&mut self, save_cursor: bool)
        ensures
            final(self)@ == old(self)@.enter_alt_screen(save_cursor),
    {
        proof {
            use_type_invariant(&*self);
        }
        if self.modes.alt_screen {
            return;
        }
        if save_cursor {
            self.saved_cursor = Some((self.cursor_row, self.cursor_col, self.attrs));
        }
        let mut grid = new_grid(self.cols, self.rows, Cell::default());
        std::mem::swap(&mut self.grid, &mut grid);
        self.alt_grid = Some(grid);
        self.modes.alt_screen = true;
        proof {
            assert(self@ =~= old(self)@.enter_alt_screen(save_cursor));
        }
    }

    /// Return to the primary screen buffer.
    pub fn exit_alt_screen(&mut self, restore_cursor: bool)
        ensures
            final(self)@ == old(self)@.exit_alt_screen(restore_cursor),
    {
        proof {
            use_type_invariant(&*self);
        }
        if !self.modes.alt_screen {
            return;
        }
        let mut taken: Option<Vec<Vec<Cell>>> = None;
        std::mem::swap(&mut self.alt_grid, &mut taken);
        match taken {
            Some(grid) => {
                self.grid = grid;
            },
            None => {},
        }
        self.modes.alt_screen = false;
        proof {
            use_type_invariant(&*self);
        }
        if restore_cursor {
            if let Some((r, c, attrs)) = self.saved_cursor {
                self.saved_cursor = None;
                self.cursor_row = if r < self.rows - 1 {
                    r
                } else {
                    self.rows - 1
                };
                self.cursor_col = if c < self.cols - 1 {
                    c
                } else {
                    self.cols - 1
                };
                self.attrs = attrs;
                return;
            }
        }
        self.goto(0, 0);
    }

    /// Save cursor + rendition (DECSC, ESC 7).
    pub fn save_cursor(&mut self)
        ensures
            final(self)@ == old(self)@.save_cursor(),
    {
        proof {
            use_type_invariant(&*self);
        }
        self.saved_cursor = Some((self.cursor_row, self.cursor_col, self.attrs));
    }

    /// Restore cursor + rendition (DECRC, ESC 8); no-op if never saved.
    pub fn restore_cursor(&mut self)
        ensures
            final(self)@ == old(self)@.restore_cursor(),
    {
        proof {
            use_type_invariant(&*self);
        }
        if let Some((r, c, attrs)) = self.saved_cursor {
            self.saved_cursor = None;
            self.cursor_row = if r < self.rows - 1 {
                r
            } else {
                self.rows - 1
            };
            self.cursor_col = if c < self.cols - 1 {
                c
            } else {
                self.cols - 1
            };
            self.attrs = attrs;
        }
    }

    /// Erase in display. `0` below, `1` above, `2` (and others) entire screen.
    pub fn erase_display(&mut self, mode: i64)
        ensures
            final(self)@ == old(self)@.erase_display(mode),
    {
        proof {
            use_type_invariant(&*self);
        }
        let blank = Cell { ch: ' ', attrs: self.attrs };
        let row = self.cursor_row;
        let col = self.cursor_col;
        let ghost target = old(self)@.erase_display(mode).grid;
        let mut fresh: Vec<Vec<Cell>> = Vec::new();
        let mut r: u16 = 0;
        while r < self.rows
            invariant
                r <= self.rows,
                self@ == old(self)@,
                self@.wf(),
                blank == self@.blank(),
                row == self@.cursor_row,
                col == self@.cursor_col,
                target == old(self)@.erase_display(mode).grid,
                grid_view(fresh@) =~= target.take(r as int),
            decreases self.rows - r,
        {
            let mut line: Vec<Cell> = Vec::new();
            let mut c: u16 = 0;
            while c < self.cols
                invariant
                    c <= self.cols,
                    r < self.rows,
                    self@ == old(self)@,
                    self@.wf(),
                    blank == self@.blank(),
                    row == self@.cursor_row,
                    col == self@.cursor_col,
                    target == old(self)@.erase_display(mode).grid,
                    line@ =~= target[r as int].take(c as int),
                decreases self.cols - c,
            {
                let clear = if mode == 0 {
                    r > row || (r == row && c >= col)
                } else if mode == 1 {
                    r < row || (r == row && c < col)
                } else {
                    true
                };
                if clear {
                    line.push(blank);
                } else {
                    line.push(self.grid[r as usize][c as usize]);
                }
                c = c + 1;
            }
            proof {
                assert(line@ =~= target[r as int]);
            }
            let ghost before = fresh@;
            fresh.push(line);
            proof {
                assert(grid_view(fresh@) =~= grid_view(before).push(target[r as int]));
            }
            r = r + 1;
        }
        proof {
            assert(grid_view(fresh@) =~= target);
        }
        self.grid = fresh;
        proof {
            assert(self@ =~= old(self)@.erase_display(mode));
        }
    }

    /// The cursor row with the cells that erase-in-line `mode` clears blanked.
    fn erased_line(&self, mode: i64) -> (line: Vec<Cell>)
        ensures
            line@ == self@.erase_line(mode).grid[self@.cursor_row as int],
    {
        proof {
            use_type_invariant(self);
        }
        let blank = Cell { ch: ' ', attrs: self.attrs };
        let row = self.cursor_row as usize;
        let col = self.cursor_col;
        let ghost target = self@.erase_line(mode).grid[row as int];
        let mut line: Vec<Cell> = Vec::new();
        let mut c: u16 = 0;
        while c < self.cols
            invariant
                c <= self.cols,
                self@.wf(),
                row == self@.cursor_row,
                col == self@.cursor_col,
                blank == self@.blank(),
                target == self@.erase_line(mode).grid[row as int],
                line@ =~= target.take(c as int),
            decreases self.cols - c,
        {
            let clear = if mode == 0 {
                c >= col
            } else if mode == 1 {
                c < col
            } else {
                true
            };
            if clear {
                line.push(blank);
            } else {
                line.push(self.grid[row][c as usize]);
            }
            c = c + 1;
        }
        proof {
            assert(line@ =~= target);
        }
        line
    }

    /// Erase in line. `0` right, `1` left, `2` whole line.
    pub fn erase_line(&mut self, mode: i64)
        ensures
            final(self)@ == old(self)@.erase_line(mode),
    {
        proof {
            use_type_invariant(&*self);
        }
        let line = self.erased_line(mode);
        let row = self.cursor_row as usize;
        set_row(&mut self.grid, row, line);
        proof {
            assert(self@ =~= old(self)@.erase_line(mode));
        }
    }
    /// Apply an SGR sequence given its flattened numeric parameters
    /// (handles both `38;2;r;g;b` and `38:2:r:g:b` forms).
    pub fn sgr(&mut self, flat: &[i64])
        ensures
            final(self)@ == old(self)@.sgr(flat@),
    {
        proof {
            use_type_invariant(&*self);
        }
        if flat.len() == 0 {
            self.attrs = Attrs::default();
            return;
        }
        let mut a = self.attrs;
        let mut i: usize = 0;
        while i < flat.len()
            invariant
                i <= flat@.len(),
                sgr_from(a, flat@, i as int) == sgr_from(old(self)@.attrs, flat@, 0),
            decreases flat.len() - i,
        {
            let (a2, next) = sgr_step_exec(a, flat, i);
            a = a2;
            i = next;
        }
        self.attrs = a;
    }

    /// DEC private mode set/reset. `set = true` for `h`, `false` for `l`.
    pub fn set_private_mode(&mut self, mode: i64, set: bool)
        ensures
            final(self)@ == old(self)@.set_private_mode(mode, set),
    {
        proof {
            use_type_invariant(&*self);
        }
        if mode == 7 {
            self.modes.autowrap = set;
        } else if mode == 47 || mode == 1047 {
            if set {
                self.enter_alt_screen(false);
            } else {
                self.exit_alt_screen(false);
            }
        } else if mode == 1048 {
            if set {
                self.save_cursor();
            } else {
                self.restore_cursor();
            }
        } else if mode == 1049 {
            if set {
                self.save_cursor();
                self.enter_alt_screen(false);
            } else {
                self.exit_alt_screen(true);
            }
        } else if mode == 9 || mode == 1000 {
            self.modes.mouse_normal = set;
        } else if mode == 1002 {
            self.modes.mouse_button = set;
        } else if mode == 1003 {
            self.modes.mouse_any = set;
        } else if mode == 1006 {
            self.modes.mouse_sgr = set;
        } else if mode == 2004 {
            self.modes.bracketed_paste = set;
        }
    }

    /// How many cells an insert or delete of `n` at the cursor moves.
    fn shift_count(&self, n: i64) -> (k: u16)
        ensures
            k == self@.shift_count(n as int),
            self@.cursor_col + k <= self@.cols,
    {
        proof {
            use_type_invariant(self);
        }
        let room = self.cols - self.cursor_col;
        if n < 0 {
            0
        } else if n > room as i64 {
            room
        } else {
            n as u16
        }
    }

    /// Insert `n` blanks under the cursor, shifting the rest right.
    pub fn insert_blanks(&mut self, n: i64)
        ensures
            final(self)@ == old(self)@.insert_blanks(n as int),
    {
        proof {
            use_type_invariant(&*self);
        }
        let k = self.shift_count(n);
        let col = self.cursor_col;
        let cols = self.cols;
        let row = self.cursor_row as usize;
        let blank = Cell { ch: ' ', attrs: self.attrs };
        let ghost target = old(self)@.insert_blanks(n as int).grid[row as int];
        let mut line: Vec<Cell> = Vec::new();
        let mut c: u16 = 0;
        while c < cols
            invariant
                c <= cols,
                cols == self@.cols,
                col == self@.cursor_col,
                row == self@.cursor_row,
                col + k <= cols,
                k == self@.shift_count(n as int),
                blank == self@.blank(),
                self@ == old(self)@,
                self@.wf(),
                target == old(self)@.insert_blanks(n as int).grid[row as int],
                line@ =~= target.take(c as int),
            decreases cols - c,
        {
            proof {
                assert(grid_view(self.grid@)[row as int] == self.grid@[row as int]@);
            }
            if c < col {
                line.push(self.grid[row][c as usize]);
            } else if c < col + k {
                line.push(blank);
            } else {
                line.push(self.grid[row][(c - k) as usize]);
            }
            c = c + 1;
        }
        proof {
            assert(line@ =~= target);
        }
        set_row(&mut self.grid, row, line);
        proof {
            assert(self@ =~= old(self)@.insert_blanks(n as int));
        }
    }

    /// Delete `n` characters under the cursor, shifting the rest left.
    pub fn delete_chars(&mut self, n: i64)
        ensures
            final(self)@ == old(self)@.delete_chars(n as int),
    {
        proof {
            use_type_invariant(&*self);
        }
        let k = self.shift_count(n);
        let col = self.cursor_col;
        let cols = self.cols;
        let row = self.cursor_row as usize;
        let blank = Cell { ch: ' ', attrs: self.attrs };
        let ghost target = old(self)@.delete_chars(n as int).grid[row as int];
        let mut line: Vec<Cell> = Vec::new();
        let mut c: u16 = 0;
        while c < cols
            invariant
                c <= cols,
                cols == self@.cols,
                col == self@.cursor_col,
                row == self@.cursor_row,
                col + k <= cols,
                k == self@.shift_count(n as int),
                blank == self@.blank(),
                self@ == old(self)@,
                self@.wf(),
                target == old(self)@.delete_chars(n as int).grid[row as int],
                line@ =~= target.take(c as int),
            decreases cols - c,
        {
            proof {
                assert(grid_view(self.grid@)[row as int] == self.grid@[row as int]@);
            }
            if c < col {
                line.push(self.grid[row][c as usize]);
            } else if c < cols - k {
                line.push(self.grid[row][(c + k) as usize]);
            } else {
                line.push(blank);
            }
            c = c + 1;
        }
        proof {
            assert(line@ =~= target);
        }
        set_row(&mut self.grid, row, line);
        proof {
            assert(self@ =~= old(self)@.delete_chars(n as int));
        }
    }

    /// The grid's glyphs, one line per row joined by `'\n'`.
    pub fn text(&self) -> (s: String)
        ensures
            s@ == self@.text(),
    {
        proof {
            use_type_invariant(self);
        }
        let ghost g = self@.grid;
        let mut out: Vec<char> = Vec::new();
        let mut r: usize = 0;
        while r < self.grid.len()
            invariant
                r <= self.grid@.len(),
                g == self@.grid,
                g.len() == self.grid@.len(),
                out@ == grid_text(g.take(r as int)),
            decreases self.grid.len() - r,
        {
            let ghost before = out@;
            if r > 0 {
                out.push('\n');
            }
            let ghost mid = out@;
            let row = &self.grid[r];
            let mut c: usize = 0;
            while c < row.len()
                invariant
                    c <= row@.len(),
                    out@ =~= mid + row_chars(row@.take(c as int)),
                decreases row.len() - c,
            {
                out.push(row[c].ch);
                proof {
                    assert(row_chars(row@.take(c + 1)) =~= row_chars(row@.take(c as int)).push(
                        row@[c as int].ch,
                    ));
                }
                c = c + 1;
            }
            proof {
                assert(row@.take(row@.len() as int) =~= row@);
                assert(g[r as int] == row@);
                assert(g.take(r + 1).drop_last() =~= g.take(r as int));
                assert(g.take(r + 1).last() == g[r as int]);
                if r == 0 {
                    assert(out@ =~= row_chars(g[0]));
                } else {
                    assert(out@ =~= before + seq!['\n'] + row_chars(g[r as int]));
                }
            }
            r = r + 1;
        }
        proof {
            assert(g.take(g.len() as int) =~= g);
        }
        string_from_chars(&out)
    }

    /// Resize the visible and inactive alternate grids, preserving the
    /// top-left overlap. The scroll region is reset.
    pub fn resize(&mut self, cols: u16, rows: u16) -> (r: Result<(), ScreenSizeError>)
        ensures
            r is Ok <==> valid_size(cols as int, rows as int),
            r is Ok ==> final(self)@ == old(self)@.resize(cols, rows),
            r matches Err(e) ==> e == (ScreenSizeError { cols, rows }) && final(self)@ == old(
                self,
            )@,
    {
        proof {
            use_type_invariant(&*self);
        }
        match validate_screen_size(cols, rows) {
            Ok(()) => {},
            Err(e) => {
                return Err(e);
            },
        }
        if cols == self.cols && rows == self.rows {
            return Ok(());
        }
        let old_cols = self.cols;
        let old_rows = self.rows;
        let grid = resize_grid(&self.grid, old_cols, old_rows, cols, rows);
        let alt_grid = match &self.alt_grid {
            Some(g) => Some(resize_grid(g, old_cols, old_rows, cols, rows)),
            None => None,
        };
        let cursor_col = fit_column(self.cursor_col, old_cols, cols);
        let cursor_row = if self.cursor_row < rows - 1 {
            self.cursor_row
        } else {
            rows - 1
        };
        let saved_cursor = match self.saved_cursor {
            Some((r, c, a)) => Some(
                (
                    if r < rows - 1 {
                        r
                    } else {
                        rows - 1
                    },
                    fit_column(c, old_cols, cols),
                    a,
                ),
            ),
            None => None,
        };
        let mut scrollback: VecDeque<Vec<Cell>> = VecDeque::new();
        std::mem::swap(&mut self.scrollback, &mut scrollback);
        proof {
            assert(resized_grid(grid_view(old(self).grid@), old_cols as int, old_rows as int, cols as int, rows as int).len() == rows);
        }
        *self = Screen {
            cols,
            rows,
            grid,
            scrollback,
            scrollback_cap: self.scrollback_cap,
            cursor_row,
            cursor_col,
            attrs: self.attrs,
            modes: self.modes,
            scroll_region: None,
            alt_grid,
            saved_cursor,
        };
        proof {
            assert(self@ =~= old(self)@.resize(cols, rows));
        }
        Ok(())
    }
}

} // verus!
