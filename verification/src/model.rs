//! The mathematical model of a terminal screen: every `Screen` operation is
//! described here as a function from one `ScreenView` to the next.
use vstd::prelude::*;

use crate::attrs::{default_attrs, default_cell, Attrs, Cell, Color, Modes};

verus! {

/// Sizes the screen accepts: both dimensions in 1..=4096 and at most
/// four million cells in all.
pub open spec fn valid_size(cols: int, rows: int) -> bool {
    &&& 1 <= cols <= 4096
    &&& 1 <= rows <= 4096
    &&& cols * rows <= 4194304
}

/// `g` has `rows` rows of `cols` cells each.
pub open spec fn is_grid(g: Seq<Seq<Cell>>, cols: int, rows: int) -> bool {
    &&& g.len() == rows
    &&& forall|r: int| 0 <= r < rows ==> (#[trigger] g[r]).len() == cols
}

/// A row of `n` copies of `cell`.
pub open spec fn row_of(n: int, cell: Cell) -> Seq<Cell> {
    Seq::new(n as nat, |_i: int| cell)
}

/// `rows` rows of `cols` copies of `cell`.
pub open spec fn grid_of(cols: int, rows: int, cell: Cell) -> Seq<Seq<Cell>> {
    Seq::new(rows as nat, |_r: int| row_of(cols, cell))
}

/// The last `cap` elements of `s` (all of them when there are fewer).
pub open spec fn keep_last<T>(s: Seq<T>, cap: int) -> Seq<T> {
    if s.len() <= cap {
        s
    } else {
        s.skip(s.len() - cap)
    }
}

/// `v` limited to `0..=max - 1`.
pub open spec fn clamp_index(v: int, max: int) -> int {
    if v < 0 {
        0
    } else if v > max - 1 {
        max - 1
    } else {
        v
    }
}

/// `v` limited to `1..=max`.
pub open spec fn clamp_one_based(v: int, max: int) -> int {
    if v < 1 {
        1
    } else if v > max {
        max
    } else {
        v
    }
}

pub open spec fn min(a: int, b: int) -> int {
    if a <= b {
        a
    } else {
        b
    }
}

/// `v` limited to `0..=255`.
pub open spec fn clamp_byte(v: i64) -> u8 {
    if v < 0 {
        0
    } else if v > 255 {
        255
    } else {
        v as u8
    }
}

/// The glyphs of a row.
pub open spec fn row_chars(row: Seq<Cell>) -> Seq<char> {
    row.map_values(|c: Cell| c.ch)
}

/// The rows' glyphs, one line per row, separated by `'\n'`.
pub open spec fn grid_text(g: Seq<Seq<Cell>>) -> Seq<char>
    decreases g.len(),
{
    if g.len() == 0 {
        Seq::empty()
    } else if g.len() == 1 {
        row_chars(g[0])
    } else {
        grid_text(g.drop_last()) + seq!['\n'] + row_chars(g.last())
    }
}

/// The overlap of `g` (`old_rows` x `old_cols`) kept in the top-left corner
/// of a `new_rows` x `new_cols` grid; the rest is default cells.
pub open spec fn resized_grid(
    g: Seq<Seq<Cell>>,
    old_cols: int,
    old_rows: int,
    new_cols: int,
    new_rows: int,
) -> Seq<Seq<Cell>> {
    Seq::new(
        new_rows as nat,
        |r: int|
            Seq::new(
                new_cols as nat,
                |c: int|
                    if r < old_rows && c < old_cols {
                        g[r][c]
                    } else {
                        default_cell()
                    },
            ),
    )
}

/// Where a column lands when the width changes from `old_cols` to `cols`:
/// a pending wrap stays on the old last column, and nothing passes the new
/// last column.
pub open spec fn fit_col(c: int, old_cols: int, cols: int) -> u16 {
    if c >= old_cols {
        min(old_cols - 1, cols - 1) as u16
    } else {
        min(c, cols - 1) as u16
    }
}

/// One step of SGR interpretation at index `i`: the new rendition and the
/// index of the next parameter to read.
pub open spec fn sgr_step(a: Attrs, flat: Seq<i64>, i: int) -> (Attrs, int) {
    let v = flat[i];
    if v == 0 {
        (default_attrs(), i + 1)
    } else if v == 1 {
        (Attrs { bold: true, ..a }, i + 1)
    } else if v == 3 {
        (Attrs { italic: true, ..a }, i + 1)
    } else if v == 4 {
        (Attrs { underline: true, ..a }, i + 1)
    } else if v == 7 {
        (Attrs { reverse: true, ..a }, i + 1)
    } else if v == 22 {
        (Attrs { bold: false, ..a }, i + 1)
    } else if v == 23 {
        (Attrs { italic: false, ..a }, i + 1)
    } else if v == 24 {
        (Attrs { underline: false, ..a }, i + 1)
    } else if v == 27 {
        (Attrs { reverse: false, ..a }, i + 1)
    } else if 30 <= v <= 37 {
        (Attrs { fg: Some(Color::Indexed((v - 30) as u8)), ..a }, i + 1)
    } else if v == 39 {
        (Attrs { fg: None, ..a }, i + 1)
    } else if 40 <= v <= 47 {
        (Attrs { bg: Some(Color::Indexed((v - 40) as u8)), ..a }, i + 1)
    } else if v == 49 {
        (Attrs { bg: None, ..a }, i + 1)
    } else if 90 <= v <= 97 {
        (Attrs { fg: Some(Color::Indexed((v - 90 + 8) as u8)), ..a }, i + 1)
    } else if 100 <= v <= 107 {
        (Attrs { bg: Some(Color::Indexed((v - 100 + 8) as u8)), ..a }, i + 1)
    } else if v == 38 || v == 48 {
        let fg = v == 38;
        if i + 1 < flat.len() && flat[i + 1] == 5 {
            if i + 2 < flat.len() {
                let color = Color::Indexed(clamp_byte(flat[i + 2]));
                (set_color(a, fg, color), i + 3)
            } else {
                (a, i + 3)
            }
        } else if i + 1 < flat.len() && flat[i + 1] == 2 {
            let r = if i + 2 < flat.len() { clamp_byte(flat[i + 2]) } else { 0u8 };
            let g = if i + 3 < flat.len() { clamp_byte(flat[i + 3]) } else { 0u8 };
            let b = if i + 4 < flat.len() { clamp_byte(flat[i + 4]) } else { 0u8 };
            (set_color(a, fg, Color::Rgb(r, g, b)), i + 5)
        } else {
            (a, i + 2)
        }
    } else {
        (a, i + 1)
    }
}

/// `a` with its foreground (`fg`) or background (`!fg`) set to `color`.
pub open spec fn set_color(a: Attrs, fg: bool, color: Color) -> Attrs {
    if fg {
        Attrs { fg: Some(color), ..a }
    } else {
        Attrs { bg: Some(color), ..a }
    }
}

/// The rendition after reading `flat` from index `i` on, left to right.
pub open spec fn sgr_from(a: Attrs, flat: Seq<i64>, i: int) -> Attrs
    decreases flat.len() - i,
{
    if i < 0 || i >= flat.len() {
        a
    } else {
        let (a2, next) = sgr_step(a, flat, i);
        if next <= i || next > flat.len() {
            a2
        } else {
            sgr_from(a2, flat, next)
        }
    }
}

/// The rendition after an SGR sequence; an empty one resets.
pub open spec fn sgr_attrs(a: Attrs, flat: Seq<i64>) -> Attrs {
    if flat.len() == 0 {
        default_attrs()
    } else {
        sgr_from(a, flat, 0)
    }
}

/// Whether erase-in-display `mode` clears cell (`r`, `c`) with the cursor
/// at (`row`, `col`): 0 from the cursor on, 1 before the cursor, anything
/// else everything.
pub open spec fn erased_in_display(mode: i64, row: int, col: int, r: int, c: int) -> bool {
    if mode == 0 {
        r > row || (r == row && c >= col)
    } else if mode == 1 {
        r < row || (r == row && c < col)
    } else {
        true
    }
}

/// Whether erase-in-line `mode` clears column `c` with the cursor at `col`.
pub open spec fn erased_in_line(mode: i64, col: int, c: int) -> bool {
    if mode == 0 {
        c >= col
    } else if mode == 1 {
        c < col
    } else {
        true
    }
}

/// The abstract state of a `Screen`.
pub struct ScreenView {
    pub cols: u16,
    pub rows: u16,
    /// Visible grid, row-major.
    pub grid: Seq<Seq<Cell>>,
    /// Scrolled-off lines, oldest first.
    pub scrollback: Seq<Seq<Cell>>,
    pub scrollback_cap: usize,
    pub cursor_row: u16,
    /// `cursor_col == cols` is the pending-wrap position after the right margin.
    pub cursor_col: u16,
    pub attrs: Attrs,
    pub modes: Modes,
    /// Scroll region, 0-based inclusive (top, bottom).
    pub scroll_region: Option<(u16, u16)>,
    /// The primary grid while the alternate screen is shown.
    pub alt_grid: Option<Seq<Seq<Cell>>>,
    pub saved_cursor: Option<(u16, u16, Attrs)>,
}

impl ScreenView {
    /// The invariant every screen keeps.
    pub open spec fn wf(self) -> bool {
        &&& valid_size(self.cols as int, self.rows as int)
        &&& is_grid(self.grid, self.cols as int, self.rows as int)
        &&& self.cursor_row < self.rows
        &&& self.cursor_col <= self.cols
        &&& self.scrollback.len() <= self.scrollback_cap
        &&& (self.scroll_region matches Some((t, b)) ==> t < b < self.rows)
        &&& (self.alt_grid matches Some(g) ==> is_grid(g, self.cols as int, self.rows as int))
    }

    /// A freshly made screen.
    pub open spec fn initial(cols: u16, rows: u16, cap: usize) -> ScreenView {
        ScreenView {
            cols,
            rows,
            grid: grid_of(cols as int, rows as int, default_cell()),
            scrollback: Seq::empty(),
            scrollback_cap: cap,
            cursor_row: 0,
            cursor_col: 0,
            attrs: default_attrs(),
            modes: crate::attrs::default_modes(),
            scroll_region: None,
            alt_grid: None,
            saved_cursor: None,
        }
    }

    pub open spec fn cell(self, r: int, c: int) -> Cell {
        self.grid[r][c]
    }

    /// A space in the current rendition.
    pub open spec fn blank(self) -> Cell {
        Cell { ch: ' ', attrs: self.attrs }
    }

    pub open spec fn top(self) -> int {
        match self.scroll_region {
            Some((t, _b)) => t as int,
            None => 0,
        }
    }

    pub open spec fn bottom(self) -> int {
        match self.scroll_region {
            Some((_t, b)) => b as int,
            None => self.rows - 1,
        }
    }

    /// The cursor clamped to an addressable cell: (col, row).
    pub open spec fn visible_cursor(self) -> (u16, u16) {
        (
            min(self.cursor_col as int, self.cols - 1) as u16,
            min(self.cursor_row as int, self.rows - 1) as u16,
        )
    }

    pub open spec fn text(self) -> Seq<char> {
        grid_text(self.grid)
    }

    /// Scroll the region up by `n` lines (at most its height).
    /// Only a full-screen scroll of the primary screen feeds scrollback,
    /// which keeps its newest `scrollback_cap` lines.
    pub open spec fn scroll_up(self, n: int) -> ScreenView {
        let top = self.top();
        let bottom = self.bottom();
        let k = min(n, bottom - top + 1);
        if k <= 0 {
            self
        } else {
            let g = self.grid;
            ScreenView {
                grid: g.take(top) + g.subrange(top + k, bottom + 1) + grid_of(
                    self.cols as int,
                    k,
                    default_cell(),
                ) + g.skip(bottom + 1),
                scrollback: if top == 0 && bottom == self.rows - 1 && !self.modes.alt_screen {
                    keep_last(self.scrollback + g.take(k), self.scrollback_cap as int)
                } else {
                    self.scrollback
                },
                ..self
            }
        }
    }

    /// Scroll the region down by `n` lines (at most its height).
    pub open spec fn scroll_down(self, n: int) -> ScreenView {
        let top = self.top();
        let bottom = self.bottom();
        let k = min(n, bottom - top + 1);
        if k <= 0 {
            self
        } else {
            let g = self.grid;
            ScreenView {
                grid: g.take(top) + grid_of(self.cols as int, k, default_cell()) + g.subrange(
                    top,
                    bottom + 1 - k,
                ) + g.skip(bottom + 1),
                ..self
            }
        }
    }

    pub open spec fn line_feed(self) -> ScreenView {
        if self.cursor_row == self.bottom() {
            self.scroll_up(1)
        } else if self.cursor_row < self.rows - 1 {
            ScreenView { cursor_row: (self.cursor_row + 1) as u16, ..self }
        } else {
            self
        }
    }

    /// Reverse index is defined unless the cursor sits on row 0 above a
    /// region that starts lower.
    pub open spec fn can_reverse_index(self) -> bool {
        self.cursor_row == self.top() || self.cursor_row > 0
    }

    pub open spec fn reverse_index(self) -> ScreenView {
        if self.cursor_row == self.top() {
            self.scroll_down(1)
        } else {
            ScreenView { cursor_row: (self.cursor_row - 1) as u16, ..self }
        }
    }

    pub open spec fn put(self, ch: char) -> ScreenView {
        let s1 = if self.cursor_col >= self.cols && self.modes.autowrap {
            ScreenView { cursor_col: 0, ..self }.line_feed()
        } else {
            self
        };
        let col = if s1.cursor_col >= s1.cols {
            s1.cols - 1
        } else {
            s1.cursor_col as int
        };
        let row = s1.cursor_row as int;
        ScreenView {
            grid: s1.grid.update(row, s1.grid[row].update(col, Cell { ch, attrs: s1.attrs })),
            cursor_col: (col + 1) as u16,
            ..s1
        }
    }

    pub open spec fn carriage_return(self) -> ScreenView {
        ScreenView { cursor_col: 0, ..self }
    }

    pub open spec fn backspace(self) -> ScreenView {
        ScreenView {
            cursor_col: if self.cursor_col > 0 {
                (self.cursor_col - 1) as u16
            } else {
                0
            },
            ..self
        }
    }

    /// Advance to the next multiple of 8, stopping at the last column.
    pub open spec fn tab(self) -> ScreenView {
        let next = (self.cursor_col / 8 + 1) * 8;
        ScreenView { cursor_col: min(next, self.cols - 1) as u16, ..self }
    }

    pub open spec fn goto(self, row: int, col: int) -> ScreenView {
        ScreenView {
            cursor_row: clamp_index(row, self.rows as int) as u16,
            cursor_col: clamp_index(col, self.cols as int) as u16,
            ..self
        }
    }

    pub open spec fn move_cursor(self, drow: int, dcol: int) -> ScreenView {
        self.goto(self.cursor_row + drow, self.cursor_col + dcol)
    }

    /// DECSTBM with 1-based inclusive bounds; ignored unless top < bottom
    /// after clamping to the screen.
    pub open spec fn set_scroll_region(self, top: int, bottom: int) -> ScreenView {
        let t = clamp_one_based(top, self.rows as int) - 1;
        let b = clamp_one_based(bottom, self.rows as int) - 1;
        if t < b {
            ScreenView { scroll_region: Some((t as u16, b as u16)), ..self }
        } else {
            self
        }
    }

    pub open spec fn reset_scroll_region(self) -> ScreenView {
        ScreenView { scroll_region: None, ..self }
    }

    pub open spec fn save_cursor(self) -> ScreenView {
        ScreenView { saved_cursor: Some((self.cursor_row, self.cursor_col, self.attrs)), ..self }
    }

    pub open spec fn restore_cursor(self) -> ScreenView {
        match self.saved_cursor {
            Some((r, c, a)) => ScreenView {
                cursor_row: min(r as int, self.rows - 1) as u16,
                cursor_col: min(c as int, self.cols - 1) as u16,
                attrs: a,
                saved_cursor: None,
                ..self
            },
            None => self,
        }
    }

    pub open spec fn enter_alt_screen(self, save_cursor: bool) -> ScreenView {
        if self.modes.alt_screen {
            self
        } else {
            ScreenView {
                saved_cursor: if save_cursor {
                    Some((self.cursor_row, self.cursor_col, self.attrs))
                } else {
                    self.saved_cursor
                },
                alt_grid: Some(self.grid),
                grid: grid_of(self.cols as int, self.rows as int, default_cell()),
                modes: Modes { alt_screen: true, ..self.modes },
                ..self
            }
        }
    }

    /// Back to the primary grid as it was left; the saved cursor comes back
    /// when asked for and present, otherwise the cursor goes home.
    pub open spec fn exit_alt_screen(self, restore_cursor: bool) -> ScreenView {
        if !self.modes.alt_screen {
            self
        } else {
            let s1 = ScreenView {
                grid: match self.alt_grid {
                    Some(g) => g,
                    None => self.grid,
                },
                alt_grid: None,
                modes: Modes { alt_screen: false, ..self.modes },
                ..self
            };
            if restore_cursor && s1.saved_cursor is Some {
                s1.restore_cursor()
            } else {
                s1.goto(0, 0)
            }
        }
    }

    /// Erase in display: 0 from the cursor on, 1 up to the cursor (not
    /// including it), anything else the whole screen.
    pub open spec fn erase_display(self, mode: i64) -> ScreenView {
        let row = self.cursor_row as int;
        let col = self.cursor_col as int;
        let blank = self.blank();
        ScreenView {
            grid: Seq::new(
                self.rows as nat,
                |r: int|
                    Seq::new(
                        self.cols as nat,
                        |c: int|
                            if erased_in_display(mode, row, col, r, c) {
                                blank
                            } else {
                                self.grid[r][c]
                            },
                    ),
            ),
            ..self
        }
    }

    /// Erase in line: 0 from the cursor on, 1 up to the cursor (not
    /// including it), anything else the whole line.
    pub open spec fn erase_line(self, mode: i64) -> ScreenView {
        let row = self.cursor_row as int;
        let col = self.cursor_col as int;
        let blank = self.blank();
        ScreenView {
            grid: self.grid.update(
                row,
                Seq::new(
                    self.cols as nat,
                    |c: int|
                        if erased_in_line(mode, col, c) {
                            blank
                        } else {
                            self.grid[row][c]
                        },
                ),
            ),
            ..self
        }
    }

    pub open spec fn sgr(self, flat: Seq<i64>) -> ScreenView {
        ScreenView { attrs: sgr_attrs(self.attrs, flat), ..self }
    }

    /// DEC private mode set (`set`) or reset (`!set`).
    pub open spec fn set_private_mode(self, mode: i64, set: bool) -> ScreenView {
        if mode == 7 {
            ScreenView { modes: Modes { autowrap: set, ..self.modes }, ..self }
        } else if mode == 47 || mode == 1047 {
            if set {
                self.enter_alt_screen(false)
            } else {
                self.exit_alt_screen(false)
            }
        } else if mode == 1048 {
            if set {
                self.save_cursor()
            } else {
                self.restore_cursor()
            }
        } else if mode == 1049 {
            if set {
                self.save_cursor().enter_alt_screen(false)
            } else {
                self.exit_alt_screen(true)
            }
        } else if mode == 9 || mode == 1000 {
            ScreenView { modes: Modes { mouse_normal: set, ..self.modes }, ..self }
        } else if mode == 1002 {
            ScreenView { modes: Modes { mouse_button: set, ..self.modes }, ..self }
        } else if mode == 1003 {
            ScreenView { modes: Modes { mouse_any: set, ..self.modes }, ..self }
        } else if mode == 1006 {
            ScreenView { modes: Modes { mouse_sgr: set, ..self.modes }, ..self }
        } else if mode == 2004 {
            ScreenView { modes: Modes { bracketed_paste: set, ..self.modes }, ..self }
        } else {
            self
        }
    }

    /// How many cells an insert or delete of `n` at the cursor moves.
    pub open spec fn shift_count(self, n: int) -> int {
        min(if n < 0 { 0 } else { n }, self.cols - self.cursor_col)
    }

    /// Insert blanks at the cursor, shifting the rest of the line right.
    pub open spec fn insert_blanks(self, n: int) -> ScreenView {
        let k = self.shift_count(n);
        let row = self.cursor_row as int;
        let col = self.cursor_col as int;
        let line = self.grid[row];
        ScreenView {
            grid: self.grid.update(
                row,
                line.take(col) + row_of(k, self.blank()) + line.subrange(col, self.cols - k),
            ),
            ..self
        }
    }

    /// Delete cells at the cursor, shifting the rest of the line left.
    pub open spec fn delete_chars(self, n: int) -> ScreenView {
        let k = self.shift_count(n);
        let row = self.cursor_row as int;
        let col = self.cursor_col as int;
        let line = self.grid[row];
        ScreenView {
            grid: self.grid.update(
                row,
                line.take(col) + line.subrange(col + k, self.cols as int) + row_of(k, self.blank()),
            ),
            ..self
        }
    }

    /// Resize to `cols` x `rows`, keeping the top-left overlap of both grids.
    pub open spec fn resize(self, cols: u16, rows: u16) -> ScreenView {
        if cols == self.cols && rows == self.rows {
            self
        } else {
            let oc = self.cols as int;
            let orow = self.rows as int;
            ScreenView {
                cols,
                rows,
                grid: resized_grid(self.grid, oc, orow, cols as int, rows as int),
                alt_grid: match self.alt_grid {
                    Some(g) => Some(resized_grid(g, oc, orow, cols as int, rows as int)),
                    None => None,
                },
                cursor_col: fit_col(self.cursor_col as int, oc, cols as int),
                cursor_row: min(self.cursor_row as int, rows - 1) as u16,
                saved_cursor: match self.saved_cursor {
                    Some((r, c, a)) => Some((min(r as int, rows - 1) as u16, fit_col(c as int, oc, cols as int), a)),
                    None => None,
                },
                scroll_region: None,
                ..self
            }
        }
    }
}

} // verus!
