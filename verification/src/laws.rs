//! Properties that span several operations: of the screen, of snapshots,
//! of the loopback transport, of the session actor and of the pseudo
//! console's output thread.
use vstd::prelude::*;

use crate::attrs::{default_attrs, default_cell, Attrs, Cell, Color, Modes};
use crate::model::{grid_of, is_grid, keep_last, min, row_of, ScreenView};
use crate::model::{clamp_one_based, grid_text, resized_grid, row_chars, sgr_from, sgr_step};
use crate::action::ActionView;
use crate::parser::stream_actions;
use crate::performer::{csi_reply, csi_screen, esc_screen, execute_screen, flatten_params, nth_param, set_modes, apply_actions, lemma_apply_actions_append, put_all, PerformerView};
use crate::snapshot::{
    attr_dto, default_attr_dto, grid_dtos, is_snapshot_of, lemma_palette_from, law_runs_partition,
    row_dtos, row_ids, runs_ids, runs_text, runs_view, snapshot_palette, ColorDto, SnapshotDto,
};
use crate::actor::{
    actor_step, after_read, failed_with, read_replies, ActorActionView, ActorEventView, ActorView,
    Awaiting, CloseCause, CommandView, InFlight,
};
use crate::pty::{reader_step, ReaderAction, ReaderEvent, ReaderPhase};
use crate::screen::size_error_message;
use crate::text::decimal;
use crate::session::StatusView;
use crate::transport::{ErrorView, LoopbackView};
use crate::model::valid_size;

verus! {

/// Printing never touches the saved primary grid, the saved cursor, the
/// modes or (on the alternate screen) the scrollback.
pub proof fn lemma_put_all_keeps(v: ScreenView, chars: Seq<char>)
    ensures
        put_all(v, chars).alt_grid == v.alt_grid,
        put_all(v, chars).saved_cursor == v.saved_cursor,
        put_all(v, chars).modes == v.modes,
        put_all(v, chars).cols == v.cols,
        put_all(v, chars).rows == v.rows,
        v.modes.alt_screen ==> put_all(v, chars).scrollback == v.scrollback,
    decreases chars.len(),
{
    if chars.len() > 0 {
        lemma_put_all_keeps(v, chars.drop_last());
    }
}

/// Alternate screen (mode 1049): whatever is printed while it is shown,
/// leaving it brings back the primary grid untouched and the cursor where
/// it stood (on the last column if a wrap was pending), and nothing printed
/// there reaches the scrollback.
pub proof fn law_alt_screen_preserves_primary(v: ScreenView, chars: Seq<char>)
    requires
        v.wf(),
        !v.modes.alt_screen,
    ensures
        ({
            let shown = put_all(v.set_private_mode(1049, true), chars);
            let back = shown.set_private_mode(1049, false);
            &&& shown.scrollback == v.scrollback
            &&& back.grid == v.grid
            &&& back.scrollback == v.scrollback
            &&& !back.modes.alt_screen
            &&& back.cursor_row == v.cursor_row
            &&& back.cursor_col == min(v.cursor_col as int, v.cols - 1)
            &&& back.attrs == v.attrs
        }),
{
    let entered = v.set_private_mode(1049, true);
    lemma_put_all_keeps(entered, chars);
}

/// Scrolling inside a scroll region that is not the whole screen leaves
/// the rows outside it and the scrollback alone.
pub proof fn law_region_scroll_is_local(v: ScreenView, n: int, up: bool)
    requires
        v.wf(),
        v.scroll_region matches Some((t, b)) && !(t == 0 && b == v.rows - 1),
    ensures
        ({
            let w = if up {
                v.scroll_up(n)
            } else {
                v.scroll_down(n)
            };
            &&& w.scrollback == v.scrollback
            &&& w.grid.len() == v.grid.len()
            &&& forall|r: int|
                0 <= r < v.rows && (r < v.top() || r > v.bottom()) ==> #[trigger] w.grid[r]
                    == v.grid[r]
        }),
{
    let top = v.top();
    let bottom = v.bottom();
    let k = min(n, bottom - top + 1);
    if k > 0 {
        let g = v.grid;
        let blanks = grid_of(v.cols as int, k, default_cell());
        if up {
            let w = g.take(top) + g.subrange(top + k, bottom + 1) + blanks + g.skip(bottom + 1);
            assert forall|r: int| 0 <= r < v.rows && (r < top || r > bottom) implies #[trigger] w[r]
                == g[r] by {
                if r < top {
                } else {
                    assert(w[r] == g.skip(bottom + 1)[r - (bottom + 1)]);
                }
            }
        } else {
            let w = g.take(top) + blanks + g.subrange(top, bottom + 1 - k) + g.skip(bottom + 1);
            assert forall|r: int| 0 <= r < v.rows && (r < top || r > bottom) implies #[trigger] w[r]
                == g[r] by {
                if r < top {
                } else {
                    assert(w[r] == g.skip(bottom + 1)[r - (bottom + 1)]);
                }
            }
        }
    }
}

/// A line feed on the bottom row of the primary screen, with no scroll
/// region, moves the top row into scrollback as its newest line, and the
/// scrollback never holds more than its cap.
pub proof fn law_line_feed_feeds_scrollback(v: ScreenView)
    requires
        v.wf(),
        v.scroll_region is None,
        !v.modes.alt_screen,
        v.cursor_row == v.rows - 1,
        v.scrollback_cap >= 1,
    ensures
        ({
            let w = v.line_feed();
            &&& w.scrollback.len() <= w.scrollback_cap
            &&& w.scrollback.last() == v.grid[0]
            &&& w.scrollback == keep_last(v.scrollback.push(v.grid[0]), v.scrollback_cap as int)
            &&& w.grid == v.grid.skip(1).push(row_of(v.cols as int, default_cell()))
        }),
{
    let w = v.line_feed();
    assert(v.scrollback + v.grid.take(1) =~= v.scrollback.push(v.grid[0]));
    let s = v.scrollback.push(v.grid[0]);
    if s.len() > v.scrollback_cap {
        assert(s.skip(s.len() - v.scrollback_cap).last() == s.last());
    }
    assert(v.grid.take(0) + v.grid.subrange(1, v.rows as int) + grid_of(
        v.cols as int,
        1,
        default_cell(),
    ) + v.grid.skip(v.rows as int) =~= v.grid.skip(1).push(row_of(v.cols as int, default_cell())));
}

/// Deleting the cells just inserted at the cursor gives back the line,
/// except that the cells pushed off its end are now blank.
pub proof fn law_delete_undoes_insert(v: ScreenView, n: int)
    requires
        v.wf(),
    ensures
        ({
            let k = v.shift_count(n);
            let line = v.grid[v.cursor_row as int];
            v.insert_blanks(n).delete_chars(n).grid[v.cursor_row as int] == line.take(v.cols - k)
                + row_of(k, v.blank())
        }),
{
    let k = v.shift_count(n);
    let row = v.cursor_row as int;
    let col = v.cursor_col as int;
    let line = v.grid[row];
    let w = v.insert_blanks(n);
    assert(w.shift_count(n) == k);
    let mid = line.take(col) + row_of(k, v.blank()) + line.subrange(col, v.cols - k);
    assert(w.grid[row] == mid);
    let out = mid.take(col) + mid.subrange(col + k, v.cols as int) + row_of(k, v.blank());
    assert(out =~= line.take(v.cols - k) + row_of(k, v.blank()));
}

/// Erasing the whole display blanks every cell in the current rendition.
pub proof fn law_erase_display_all(v: ScreenView, mode: i64)
    requires
        v.wf(),
        mode != 0 && mode != 1,
    ensures
        forall|r: int, c: int|
            0 <= r < v.rows && 0 <= c < v.cols ==> #[trigger] v.erase_display(mode).grid[r][c]
                == v.blank(),
{
}

/// Saving the cursor, moving anywhere, and restoring it returns the cursor
/// and rendition that were saved (on the last column if a wrap was pending).
pub proof fn law_save_restore_cursor(v: ScreenView, row: int, col: int)
    requires
        v.wf(),
    ensures
        ({
            let w = v.save_cursor().goto(row, col).restore_cursor();
            &&& w.cursor_row == v.cursor_row
            &&& w.cursor_col == min(v.cursor_col as int, v.cols - 1)
            &&& w.attrs == v.attrs
            &&& w.saved_cursor is None
        }),
{
}

/// An operation that moves the cursor, prints, or changes the rendition.
pub enum CursorOp {
    Goto(int, int),
    Move(int, int),
    Sgr(Seq<i64>),
    Put(char),
    CarriageReturn,
    LineFeed,
    Backspace,
    Tab,
}

pub open spec fn cursor_op(v: ScreenView, op: CursorOp) -> ScreenView {
    match op {
        CursorOp::Goto(r, c) => v.goto(r, c),
        CursorOp::Move(dr, dc) => v.move_cursor(dr, dc),
        CursorOp::Sgr(flat) => v.sgr(flat),
        CursorOp::Put(ch) => v.put(ch),
        CursorOp::CarriageReturn => v.carriage_return(),
        CursorOp::LineFeed => v.line_feed(),
        CursorOp::Backspace => v.backspace(),
        CursorOp::Tab => v.tab(),
    }
}

/// The operations of `ops`, in order.
pub open spec fn cursor_ops(v: ScreenView, ops: Seq<CursorOp>) -> ScreenView
    decreases ops.len(),
{
    if ops.len() == 0 {
        v
    } else {
        cursor_op(cursor_ops(v, ops.drop_last()), ops.last())
    }
}

/// Such operations leave the saved cursor and the size alone.
proof fn lemma_cursor_ops_keep(v: ScreenView, ops: Seq<CursorOp>)
    ensures
        cursor_ops(v, ops).saved_cursor == v.saved_cursor,
        cursor_ops(v, ops).rows == v.rows,
        cursor_ops(v, ops).cols == v.cols,
    decreases ops.len(),
{
    if ops.len() > 0 {
        lemma_cursor_ops_keep(v, ops.drop_last());
    }
}

/// Saving the cursor, then moving, printing and changing the rendition in
/// any order, and restoring it returns the cursor and rendition that were
/// saved (on the last column if a wrap was pending), and uses the saved
/// cursor up.
pub proof fn law_restore_after_any_moves(v: ScreenView, ops: Seq<CursorOp>)
    requires
        v.wf(),
    ensures
        ({
            let w = cursor_ops(v.save_cursor(), ops).restore_cursor();
            &&& w.cursor_row == v.cursor_row
            &&& w.cursor_col == min(v.cursor_col as int, v.cols - 1)
            &&& w.attrs == v.attrs
            &&& w.saved_cursor is None
        }),
{
    lemma_cursor_ops_keep(v.save_cursor(), ops);
}

/// Restoring when no cursor is saved changes nothing.
pub proof fn law_restore_without_save(v: ScreenView)
    requires
        v.saved_cursor is None,
    ensures
        v.restore_cursor() == v,
{
}

/// Resizing keeps every cell of the top-left overlap, fills the rest with
/// default cells, and keeps the cursor on the new grid.
pub proof fn law_resize_keeps_overlap(v: ScreenView, cols: u16, rows: u16)
    requires
        v.wf(),
        1 <= cols,
        1 <= rows,
    ensures
        ({
            let w = v.resize(cols, rows);
            &&& is_grid(w.grid, cols as int, rows as int)
            &&& w.cursor_row < rows
            &&& w.cursor_col <= cols
            &&& forall|r: int, c: int|
                0 <= r < rows && 0 <= c < cols && r < v.rows && c < v.cols ==> #[trigger] w.grid[r][c]
                    == v.grid[r][c]
            &&& forall|r: int, c: int|
                0 <= r < rows && 0 <= c < cols && !(r < v.rows && c < v.cols) ==> #[trigger] w.grid[r][c]
                    == default_cell()
        }),
{
}

/// An SGR reset (`0`, or no parameters at all) restores the plain rendition
/// whatever came before.
pub proof fn law_sgr_reset(v: ScreenView)
    ensures
        v.sgr(seq![0i64]).attrs == default_attrs(),
        v.sgr(Seq::<i64>::empty()).attrs == default_attrs(),
{
    reveal_with_fuel(crate::model::sgr_from, 2);
}

/// `38;2;r;g;b` sets a truecolor foreground and `48;2;r;g;b` a background,
/// leaving the rest of the rendition alone.
pub proof fn law_sgr_truecolor(v: ScreenView, r: u8, g: u8, b: u8)
    ensures
        v.sgr(seq![38i64, 2, r as i64, g as i64, b as i64]).attrs == (crate::attrs::Attrs {
            fg: Some(Color::Rgb(r, g, b)),
            ..v.attrs
        }),
        v.sgr(seq![48i64, 2, r as i64, g as i64, b as i64]).attrs == (crate::attrs::Attrs {
            bg: Some(Color::Rgb(r, g, b)),
            ..v.attrs
        }),
{
    reveal_with_fuel(crate::model::sgr_from, 2);
}

/// The plain rendition, field by field.
pub open spec fn plain_attrs() -> Attrs {
    Attrs { fg: None, bg: None, bold: false, italic: false, underline: false, reverse: false }
}

/// One SGR code changes exactly the field it names and nothing else on
/// the screen: 0 resets; 1, 3, 4, 7 set bold, italic, underline, reverse
/// and 22, 23, 24, 27 clear them; 30-37 and 90-97 pick the foreground
/// from the 16 colours, 40-47 and 100-107 the background; 39 and 49 go
/// back to the default colour; any other code (an incomplete 38 or 48
/// among them) changes nothing.
pub proof fn law_sgr_single_code(v: ScreenView, x: i64)
    ensures
        ({
            let a = v.attrs;
            let b = v.sgr(seq![x]).attrs;
            &&& v.sgr(seq![x]) == (ScreenView { attrs: b, ..v })
            &&& (x == 0 ==> b == plain_attrs())
            &&& (x == 1 ==> b == (Attrs { bold: true, ..a }))
            &&& (x == 3 ==> b == (Attrs { italic: true, ..a }))
            &&& (x == 4 ==> b == (Attrs { underline: true, ..a }))
            &&& (x == 7 ==> b == (Attrs { reverse: true, ..a }))
            &&& (x == 22 ==> b == (Attrs { bold: false, ..a }))
            &&& (x == 23 ==> b == (Attrs { italic: false, ..a }))
            &&& (x == 24 ==> b == (Attrs { underline: false, ..a }))
            &&& (x == 27 ==> b == (Attrs { reverse: false, ..a }))
            &&& (30 <= x <= 37 ==> b == (Attrs { fg: Some(Color::Indexed((x - 30) as u8)), ..a }))
            &&& (40 <= x <= 47 ==> b == (Attrs { bg: Some(Color::Indexed((x - 40) as u8)), ..a }))
            &&& (90 <= x <= 97 ==> b == (Attrs { fg: Some(Color::Indexed((x - 82) as u8)), ..a }))
            &&& (100 <= x <= 107 ==> b == (Attrs { bg: Some(Color::Indexed((x - 92) as u8)), ..a }))
            &&& (x == 39 ==> b == (Attrs { fg: None, ..a }))
            &&& (x == 49 ==> b == (Attrs { bg: None, ..a }))
            &&& (!(x == 0 || x == 1 || x == 3 || x == 4 || x == 7 || x == 22 || x == 23 || x == 24
                || x == 27 || 30 <= x <= 37 || x == 39 || 40 <= x <= 47 || x == 49 || 90 <= x <= 97
                || 100 <= x <= 107) ==> b == a)
        }),
{
    reveal_with_fuel(crate::model::sgr_from, 2);
}

/// `38;5;n` picks foreground `n` of the 256-colour palette and `48;5;n`
/// the background (out-of-range values are clamped to 0-255), leaving the
/// rest of the rendition alone.
pub proof fn law_sgr_256_colour(v: ScreenView, n: i64)
    ensures
        ({
            let idx: u8 = if n < 0 {
                0u8
            } else if n > 255 {
                255u8
            } else {
                n as u8
            };
            &&& v.sgr(seq![38i64, 5, n]).attrs == (Attrs { fg: Some(Color::Indexed(idx)), ..v.attrs })
            &&& v.sgr(seq![48i64, 5, n]).attrs == (Attrs { bg: Some(Color::Indexed(idx)), ..v.attrs })
        }),
{
    reveal_with_fuel(crate::model::sgr_from, 2);
}

/// Reading SGR parameters from index `n + i` of `p + q`, where `p` has `n`
/// values, is reading them from index `i` of `q`.
proof fn lemma_sgr_from_shift(a: Attrs, p: Seq<i64>, q: Seq<i64>, i: int)
    requires
        0 <= i,
    ensures
        sgr_from(a, p + q, p.len() + i) == sgr_from(a, q, i),
    decreases q.len() - i,
{
    let f = p + q;
    let j = p.len() + i;
    if i < q.len() {
        assert(f[j] == q[i]);
        assert(j + 1 < f.len() ==> f[j + 1] == q[i + 1]);
        assert(j + 2 < f.len() ==> f[j + 2] == q[i + 2]);
        assert(j + 3 < f.len() ==> f[j + 3] == q[i + 3]);
        assert(j + 4 < f.len() ==> f[j + 4] == q[i + 4]);
        let (a2, next) = sgr_step(a, q, i);
        assert(sgr_step(a, f, j) == (a2, next + p.len()));
        if next > i && next <= q.len() {
            lemma_sgr_from_shift(a2, p, q, next);
        }
    }
}

/// Codes other than the colour introducers 38 and 48 stand alone: a
/// sequence that starts with such a code does what that code does, then
/// what the rest of the sequence does.
pub proof fn law_sgr_sequence(v: ScreenView, x: i64, rest: Seq<i64>)
    requires
        x != 38 && x != 48,
        rest.len() > 0,
    ensures
        v.sgr(seq![x] + rest) == v.sgr(seq![x]).sgr(rest),
{
    reveal_with_fuel(crate::model::sgr_from, 2);
    let f = seq![x] + rest;
    assert(f[0] == x);
    let (a2, next) = sgr_step(v.attrs, f, 0);
    assert(next == 1);
    assert(sgr_step(v.attrs, seq![x], 0) == (a2, 1int));
    lemma_sgr_from_shift(a2, seq![x], rest, 0);
}

/// Setting (`set`) or resetting (`!set`) a DEC private mode leaves its
/// flag equal to `set` and every other flag as it was: 7 is auto-wrap,
/// 9 and 1000 normal mouse tracking, 1002 button tracking, 1003 any-motion
/// tracking, 1006 SGR mouse coordinates, 2004 bracketed paste; these touch
/// nothing but their flag. 47, 1047 and 1049 show (`set`) or leave the
/// alternate screen; unknown modes change nothing.
pub proof fn law_private_mode_flags(v: ScreenView, mode: i64, set: bool)
    ensures
        ({
            let w = v.set_private_mode(mode, set);
            let m = v.modes;
            &&& (mode == 7 ==> w == (ScreenView { modes: Modes { autowrap: set, ..m }, ..v }))
            &&& (mode == 9 || mode == 1000 ==> w == (ScreenView {
                modes: Modes { mouse_normal: set, ..m },
                ..v
            }))
            &&& (mode == 1002 ==> w == (ScreenView { modes: Modes { mouse_button: set, ..m }, ..v }))
            &&& (mode == 1003 ==> w == (ScreenView { modes: Modes { mouse_any: set, ..m }, ..v }))
            &&& (mode == 1006 ==> w == (ScreenView { modes: Modes { mouse_sgr: set, ..m }, ..v }))
            &&& (mode == 2004 ==> w == (ScreenView {
                modes: Modes { bracketed_paste: set, ..m },
                ..v
            }))
            &&& (mode == 47 || mode == 1047 || mode == 1049 ==> {
                &&& w.modes.alt_screen == set
                &&& w.modes == (Modes { alt_screen: set, ..m })
            })
            &&& (!(mode == 7 || mode == 9 || mode == 1000 || mode == 1002 || mode == 1003 || mode
                == 1006 || mode == 2004 || mode == 47 || mode == 1047 || mode == 1048 || mode
                == 1049) ==> w == v)
        }),
{
}

/// Setting a mouse or paste mode and resetting it leaves it off, and
/// touches no other mode.
pub proof fn law_mode_set_then_reset(v: ScreenView, mode: i64)
    requires
        mode == 9 || mode == 1000 || mode == 1002 || mode == 1003 || mode == 1006 || mode == 2004,
    ensures
        ({
            let w = v.set_private_mode(mode, true).set_private_mode(mode, false);
            &&& !w.modes.mouse_normal || (mode != 9 && mode != 1000 && v.modes.mouse_normal)
            &&& w.modes.alt_screen == v.modes.alt_screen
            &&& w.modes.autowrap == v.modes.autowrap
            &&& w.grid == v.grid
            &&& (mode == 2004 ==> !w.modes.bracketed_paste)
            &&& (mode == 1006 ==> !w.modes.mouse_sgr)
            &&& (mode == 1002 ==> !w.modes.mouse_button)
            &&& (mode == 1003 ==> !w.modes.mouse_any)
        }),
{
}

/// Every cell's attribute entry occurs among the grid's entries.
proof fn lemma_grid_dtos_contains(g: Seq<Seq<Cell>>, r: int, c: int)
    requires
        0 <= r < g.len(),
        0 <= c < g[r].len(),
    ensures
        grid_dtos(g).contains(attr_dto(g[r][c].attrs)),
    decreases g.len(),
{
    let prefix = grid_dtos(g.drop_last());
    if r == g.len() - 1 {
        assert(grid_dtos(g)[prefix.len() + c] == row_dtos(g.last())[c]);
    } else {
        assert(g.drop_last()[r] == g[r]);
        lemma_grid_dtos_contains(g.drop_last(), r, c);
        let i = choose|i: int| 0 <= i < prefix.len() && prefix[i] == attr_dto(g[r][c].attrs);
        assert(grid_dtos(g)[i] == prefix[i]);
    }
}

/// A snapshot is faithful to its screen: it has the screen's size and a
/// visible caret, the palette starts with the default entry and holds each
/// combination once; each row's runs spell the row's glyphs, no run is
/// empty, neighbouring runs name different palette entries, and each
/// glyph's run names the palette entry of that cell's rendition.
pub proof fn law_snapshot_faithful(s: SnapshotDto, v: ScreenView)
    requires
        v.wf(),
        is_snapshot_of(s, v),
    ensures
        s.cols == v.cols && s.rows == v.rows && s.lines@.len() == v.rows,
        s.cursor_visible,
        s.attrs@[0] == default_attr_dto(),
        s.attrs@.no_duplicates(),
        forall|r: int, i: int|
            0 <= r < v.rows && 0 <= i < s.lines@[r].runs@.len() ==> (#[trigger] s.lines@[r].runs@[i]).text@.len() > 0,
        forall|r: int, i: int|
            0 <= r < v.rows && 0 < i < s.lines@[r].runs@.len() ==> s.lines@[r].runs@[i - 1].attr
                != (#[trigger] s.lines@[r].runs@[i]).attr,
        forall|r: int, c: int|
            0 <= r < v.rows && 0 <= c < v.cols ==> row_ids(v.grid[r], s.attrs@)[c] < s.attrs@.len(),
        forall|r: int|
            0 <= r < v.rows ==> runs_text(runs_view(#[trigger] s.lines@[r].runs@)) == row_chars(
                v.grid[r],
            ),
        forall|r: int|
            0 <= r < v.rows ==> runs_ids(runs_view(#[trigger] s.lines@[r].runs@)) == row_ids(
                v.grid[r],
                s.attrs@,
            ),
        forall|r: int, c: int|
            0 <= r < v.rows && 0 <= c < v.cols ==> s.attrs@[row_ids(v.grid[r], s.attrs@)[c] as int]
                == attr_dto((#[trigger] v.grid[r][c]).attrs),
{
    let start = seq![default_attr_dto()];
    let p = snapshot_palette(v.grid);
    lemma_palette_from(start, grid_dtos(v.grid));
    assert(start.no_duplicates());
    assert(p[0] == start[0]);
    assert forall|r: int| 0 <= r < v.rows implies runs_text(runs_view(#[trigger] s.lines@[r].runs@))
        == row_chars(v.grid[r]) && runs_ids(runs_view(s.lines@[r].runs@)) == row_ids(
        v.grid[r],
        s.attrs@,
    ) by {
        law_runs_partition(row_ids(v.grid[r], p), row_chars(v.grid[r]));
    }
    assert forall|r: int, i: int|
        0 <= r < v.rows && 0 <= i < s.lines@[r].runs@.len() implies (#[trigger] s.lines@[r].runs@[i]).text@.len() > 0
        && (i > 0 ==> s.lines@[r].runs@[i - 1].attr != s.lines@[r].runs@[i].attr) by {
        law_runs_partition(row_ids(v.grid[r], p), row_chars(v.grid[r]));
        let rv = runs_view(s.lines@[r].runs@);
        assert(rv[i] == (s.lines@[r].runs@[i].attr, s.lines@[r].runs@[i].text@));
        if i > 0 {
            assert(rv[i - 1] == (s.lines@[r].runs@[i - 1].attr, s.lines@[r].runs@[i - 1].text@));
        }
    }
    assert forall|r: int, c: int| 0 <= r < v.rows && 0 <= c < v.cols implies s.attrs@[row_ids(
        v.grid[r],
        s.attrs@,
    )[c] as int] == attr_dto((#[trigger] v.grid[r][c]).attrs) && row_ids(v.grid[r], s.attrs@)[c]
        < s.attrs@.len() by {
        lemma_grid_dtos_contains(v.grid, r, c);
        let d = attr_dto(v.grid[r][c].attrs);
        let j = choose|j: int| 0 <= j < grid_dtos(v.grid).len() && grid_dtos(v.grid)[j] == d;
        assert(p.contains(grid_dtos(v.grid)[j]));
        let i = p.index_of(d);
        assert(0 <= i < p.len() && p[i] == d);
        assert(p.len() < 4294967296) by {
            assert(p.len() <= 1 + grid_dtos(v.grid).len());
            lemma_grid_dtos_len(v.grid, v.cols as int);
            assert(v.rows * v.cols <= 4194304);
        }
    }
}

/// The grid's entries number one per cell.
proof fn lemma_grid_dtos_len(g: Seq<Seq<Cell>>, cols: int)
    requires
        forall|r: int| 0 <= r < g.len() ==> (#[trigger] g[r]).len() == cols,
        cols >= 0,
    ensures
        grid_dtos(g).len() == g.len() * cols,
    decreases g.len(),
{
    if g.len() > 0 {
        lemma_grid_dtos_len(g.drop_last(), cols);
        assert(g.len() * cols == (g.len() - 1) * cols + cols) by (nonlinear_arith);
    }
}

/// The loopback echoes: from a drained loopback, a read with room for what
/// was written returns exactly those bytes, and the next read returns none.
pub proof fn law_loopback_echo(v: LoopbackView, data: Seq<u8>, room: int)
    requires
        v.pending.len() == 0,
        room >= data.len(),
    ensures
        v.after_write(data).read_bytes(room) == data,
        v.after_write(data).after_read(room).pending.len() == 0,
        v.after_write(data).after_read(room).read_count(room) == 0,
{
    assert(v.pending + data =~= data);
    assert(data.take(data.len() as int) =~= data);
}

/// An actor that stopped does nothing more, whatever it observes.
pub proof fn law_stopped_actor_is_inert(
    s: ActorView,
    e: ActorEventView,
    t: ActorView,
    acts: Seq<ActorActionView>,
)
    requires
        s.stopped,
        actor_step(s, e, t, acts),
    ensures
        t == s,
        acts.len() == 0,
{
}

/// A resize the screen cannot take is refused with the size error and
/// never reaches the transport; the session stays as it was.
pub proof fn law_invalid_resize_never_reaches_transport(
    s: ActorView,
    cols: u16,
    rows: u16,
    t: ActorView,
    acts: Seq<ActorActionView>,
)
    requires
        !s.stopped,
        s.awaiting == Awaiting::Select,
        !valid_size(cols as int, rows as int),
        actor_step(s, ActorEventView::Command(CommandView::Resize(cols, rows)), t, acts),
    ensures
        t == s,
        acts == seq![ActorActionView::Reply(Err(ErrorView::Backend(size_error_message(cols, rows))))],
        forall|i: int| 0 <= i < acts.len() ==> !(acts[i] is Resize),
{
}

/// While a write is in flight, further input and close requests are
/// refused at once and the session carries on unchanged.
pub proof fn law_write_in_flight_refuses_input_and_close(
    s: ActorView,
    data: Seq<u8>,
    t1: ActorView,
    acts1: Seq<ActorActionView>,
    t2: ActorView,
    acts2: Seq<ActorActionView>,
)
    requires
        !s.stopped,
        s.awaiting == Awaiting::Select,
        s.in_flight != InFlight::Nothing,
        actor_step(s, ActorEventView::Command(CommandView::Input(data)), t1, acts1),
        actor_step(s, ActorEventView::Command(CommandView::Close), t2, acts2),
    ensures
        t1 == s,
        acts1 == seq![ActorActionView::RefuseInput(ErrorView::Backend("input while a write is in flight"@))],
        t2 == s,
        acts2 == seq![
            ActorActionView::Reply(
                Err(ErrorView::Backend("close requested while a write is in flight"@)),
            ),
        ],
{
}

/// End of output is a clean end only when the transport also closes: a
/// failing teardown is reported as that failure, never as `Eof`.
pub proof fn law_eof_reports_teardown_failure(
    s: ActorView,
    t1: ActorView,
    acts1: Seq<ActorActionView>,
    r: Result<(), ErrorView>,
    t2: ActorView,
    acts2: Seq<ActorActionView>,
)
    requires
        !s.stopped,
        s.awaiting == Awaiting::Select,
        s.in_flight == InFlight::Nothing,
        actor_step(s, ActorEventView::Read(Seq::empty()), t1, acts1),
        actor_step(t1, ActorEventView::CloseDone(r), t2, acts2),
    ensures
        acts1 == seq![ActorActionView::Close],
        t2.stopped,
        acts2.len() == 2,
        acts2[1] == ActorActionView::Stop,
        match r {
            Ok(()) => acts2[0] == ActorActionView::PublishStatus(StatusView::Eof),
            Err(e) => failed_with(acts2[0], e),
        },
{
    assert(t1.awaiting == Awaiting::Close(CloseCause::Eof));
}

/// A close request on an idle session closes the transport, answers the
/// request with the transport's outcome, and stops.
pub proof fn law_close_is_answered_once(
    s: ActorView,
    t1: ActorView,
    acts1: Seq<ActorActionView>,
    r: Result<(), ErrorView>,
    t2: ActorView,
    acts2: Seq<ActorActionView>,
)
    requires
        !s.stopped,
        s.awaiting == Awaiting::Select,
        s.in_flight == InFlight::Nothing,
        actor_step(s, ActorEventView::Command(CommandView::Close), t1, acts1),
        actor_step(t1, ActorEventView::CloseDone(r), t2, acts2),
    ensures
        acts1 == seq![ActorActionView::Close],
        t2.stopped,
        acts2.len() == 3,
        acts2[1] == ActorActionView::Reply(r),
        acts2[2] == ActorActionView::Stop,
        forall|i: int| 0 <= i < acts2.len() && i != 1 ==> !(acts2[i] is Reply),
{
    assert(t1.awaiting == Awaiting::Close(CloseCause::Requested));
}

/// Host output on an idle session reaches the screen; the first reply it
/// asks for is written back to the host, the others are queued behind it,
/// and the screen is published when no reply is asked for.
pub proof fn law_output_reaches_screen_and_replies_go_back(
    s: ActorView,
    bytes: Seq<u8>,
    t: ActorView,
    acts: Seq<ActorActionView>,
)
    requires
        !s.stopped,
        s.awaiting == Awaiting::Select,
        s.in_flight == InFlight::Nothing,
        bytes.len() > 0,
        actor_step(s, ActorEventView::Read(bytes), t, acts),
    ensures
        t.state == after_read(s, bytes).state,
        t.fed == s.fed + bytes,
        read_replies(s, bytes).len() == 0 ==> acts == seq![ActorActionView::PublishScreen],
        read_replies(s, bytes).len() > 0 ==> {
            &&& acts == seq![ActorActionView::StartWrite(read_replies(s, bytes)[0])]
            &&& t.queued == read_replies(s, bytes).drop_first()
        },
{
}

/// Printing one more char is printing the others, then it.
proof fn lemma_put_all_push(v: ScreenView, chars: Seq<char>, c: char)
    ensures
        put_all(v, chars.push(c)) == put_all(v, chars).put(c),
{
    assert(chars.push(c).drop_last() =~= chars);
}

/// The parser's events for `a + b` are those for `a`, then those for `b`
/// fed after `a`.
proof fn lemma_stream_split(h: Seq<u8>, a: Seq<u8>, b: Seq<u8>)
    ensures
        stream_actions(h, a + b) == stream_actions(h, a) + stream_actions(h + a, b),
    decreases b.len(),
{
    if b.len() == 0 {
        assert(a + b =~= a);
        assert(stream_actions(h, a) + stream_actions(h + a, b) =~= stream_actions(h, a));
    } else {
        lemma_stream_split(h, a, b.drop_last());
        assert((a + b).drop_last() =~= a + b.drop_last());
        assert((a + b).last() == b.last());
        assert(h + (a + b.drop_last()) =~= (h + a) + b.drop_last());
        assert(stream_actions(h, a + b) =~= stream_actions(h, a) + stream_actions(h + a, b));
    }
}

/// Putting waiting chars on the screen early changes nothing that shows:
/// after the same events, the screen with its waiting chars printed is the
/// same, and the replies are the same after those already queued.
proof fn lemma_flush_early(q: PerformerView, ys: Seq<ActionView>)
    ensures
        ({
            let f = PerformerView {
                screen: put_all(q.screen, q.pending),
                pending: Seq::empty(),
                replies: Seq::empty(),
            };
            let x = apply_actions(q, ys);
            let y = apply_actions(f, ys);
            &&& put_all(x.screen, x.pending) == put_all(y.screen, y.pending)
            &&& x.replies == q.replies + y.replies
        }),
    decreases ys.len(),
{
    let f = PerformerView {
        screen: put_all(q.screen, q.pending),
        pending: Seq::empty(),
        replies: Seq::empty(),
    };
    if ys.len() == 0 {
        assert(q.replies + Seq::<Seq<u8>>::empty() =~= q.replies);
    } else {
        lemma_flush_early(q, ys.drop_last());
        let x0 = apply_actions(q, ys.drop_last());
        let y0 = apply_actions(f, ys.drop_last());
        match ys.last() {
            ActionView::Print(c) => {
                lemma_put_all_push(x0.screen, x0.pending, c);
                lemma_put_all_push(y0.screen, y0.pending, c);
            },
            _ => {
                assert forall|r: Seq<u8>| x0.replies.push(r) =~= q.replies + y0.replies.push(r) by {}
            },
        }
    }
}

/// A write in flight never blocks the read side: host output that arrives
/// meanwhile still reaches the screen, and the replies it asks for are
/// written inline, oldest first, before the screen is published.
pub proof fn law_reads_served_during_write(
    s: ActorView,
    bytes: Seq<u8>,
    t: ActorView,
    acts: Seq<ActorActionView>,
)
    requires
        !s.stopped,
        s.awaiting == Awaiting::Select,
        s.in_flight != InFlight::Nothing,
        bytes.len() > 0,
        actor_step(s, ActorEventView::Read(bytes), t, acts),
    ensures
        t.state == after_read(s, bytes).state,
        t.in_flight == s.in_flight,
        read_replies(s, bytes).len() == 0 ==> acts == seq![ActorActionView::PublishScreen],
        read_replies(s, bytes).len() > 0 ==> {
            &&& acts == seq![ActorActionView::WriteInline(read_replies(s, bytes)[0])]
            &&& t.inline == read_replies(s, bytes).drop_first()
            &&& t.awaiting == Awaiting::InlineWrite
        },
{
}

/// How host output is split across reads does not matter: taking in `a`
/// and then `b`, with the printed text flushed after each, leaves the same
/// screen as taking in `a + b` at once, and the replies of the two reads
/// are those of the one, in order.
pub proof fn law_split_output(st: PerformerView, h: Seq<u8>, a: Seq<u8>, b: Seq<u8>)
    ensures
        ({
            let p1 = apply_actions(st, stream_actions(h, a));
            let st1 = PerformerView {
                screen: put_all(p1.screen, p1.pending),
                pending: Seq::empty(),
                replies: Seq::empty(),
            };
            let p2 = apply_actions(st1, stream_actions(h + a, b));
            let p = apply_actions(st, stream_actions(h, a + b));
            &&& put_all(p2.screen, p2.pending) == put_all(p.screen, p.pending)
            &&& p1.replies + p2.replies == p.replies
        }),
{
    let p1 = apply_actions(st, stream_actions(h, a));
    lemma_stream_split(h, a, b);
    lemma_apply_actions_append(st, stream_actions(h, a), stream_actions(h + a, b));
    lemma_flush_early(p1, stream_actions(h + a, b));
}

/// Once shutdown is raised the output thread drains and discards: a chunk
/// read or a pause that ends with the flag up is never delivered.
pub proof fn law_reader_discards_after_shutdown(count: usize)
    requires
        count > 0,
    ensures
        reader_step(ReaderPhase::Reading, ReaderEvent::Read { count, shutdown: true }) == (
            ReaderPhase::Reading,
            seq![ReaderAction::Read],
        ),
        reader_step(ReaderPhase::DeliveringChunk, ReaderEvent::Slept { shutdown: true }) == (
            ReaderPhase::Reading,
            seq![ReaderAction::Read],
        ),
{
}

/// A full queue never makes the output thread drop a read error: it
/// pauses and keeps the error for another try.
pub proof fn law_reader_keeps_error_while_queue_full()
    ensures
        reader_step(ReaderPhase::DeliveringError, ReaderEvent::QueueFull) == (
            ReaderPhase::DeliveringError,
            seq![ReaderAction::Sleep],
        ),
        reader_step(ReaderPhase::DeliveringError, ReaderEvent::Slept { shutdown: false }) == (
            ReaderPhase::DeliveringError,
            seq![ReaderAction::Deliver],
        ),
{
}

/// The output thread ends only at the end of the output, on a read error,
/// or once such an error was handed over or given up; and it stays ended.
pub proof fn law_reader_exits_only_at_end_or_error(p: ReaderPhase, e: ReaderEvent)
    ensures
        reader_step(p, e).1.contains(ReaderAction::Exit) ==> {
            ||| p == ReaderPhase::DeliveringError
            ||| (p == ReaderPhase::Reading && (e matches ReaderEvent::Read { count, .. } && count == 0))
            ||| (p == ReaderPhase::Reading && e is ReadFailed)
        },
        reader_step(p, e).1.contains(ReaderAction::Exit) ==> reader_step(p, e).0 == ReaderPhase::Done,
        p == ReaderPhase::Done ==> reader_step(p, e) == (ReaderPhase::Done, Seq::<ReaderAction>::empty()),
{
    let acts = reader_step(p, e).1;
    if acts.contains(ReaderAction::Exit) {
        let i = choose|i: int| 0 <= i < acts.len() && acts[i] == ReaderAction::Exit;
        assert(acts[i] == ReaderAction::Exit);
    }
}

/// The text of a grid whose rows are `cols` wide: line `r` starts at
/// `r * (cols + 1)`, holds the row's glyphs, and all lines but the last end
/// in a newline.
proof fn lemma_grid_text_layout(g: Seq<Seq<Cell>>, cols: int)
    requires
        g.len() >= 1,
        cols >= 0,
        forall|r: int| 0 <= r < g.len() ==> (#[trigger] g[r]).len() == cols,
    ensures
        grid_text(g).len() == g.len() * (cols + 1) - 1,
        forall|r: int, c: int|
            0 <= r < g.len() && 0 <= c < cols ==> grid_text(g)[r * (cols + 1) + c] == (
            #[trigger] g[r][c]).ch,
        forall|r: int|
            0 <= r < g.len() - 1 ==> #[trigger] grid_text(g)[r * (cols + 1) + cols] == '\n',
    decreases g.len(),
{
    let n = g.len() as int;
    if n == 1 {
        assert(grid_text(g) == row_chars(g[0]));
        assert forall|r: int, c: int| 0 <= r < g.len() && 0 <= c < cols implies grid_text(g)[r * (
        cols + 1) + c] == (#[trigger] g[r][c]).ch by {
            assert(r == 0);
            assert(r * (cols + 1) + c == c) by (nonlinear_arith)
                requires
                    r == 0,
            ;
            assert(grid_text(g) == row_chars(g[0]));
            assert(row_chars(g[0])[c] == g[0][c].ch);
        }
    } else {
        let h = g.drop_last();
        lemma_grid_text_layout(h, cols);
        let t = grid_text(h);
        let last = row_chars(g.last());
        assert(grid_text(g) == t + seq!['\n'] + last);
        assert((n - 1) * (cols + 1) + cols + 1 == n * (cols + 1)) by (nonlinear_arith);
        assert forall|r: int, c: int| 0 <= r < g.len() && 0 <= c < cols implies grid_text(g)[r * (
        cols + 1) + c] == (#[trigger] g[r][c]).ch by {
            if r < n - 1 {
                assert(r * (cols + 1) <= (n - 2) * (cols + 1)) by (nonlinear_arith)
                    requires
                        r <= n - 2,
                        cols >= 0,
                ;
                assert(h[r][c] == g[r][c]);
                assert((n - 2) * (cols + 1) + cols + 1 == (n - 1) * (cols + 1)) by (nonlinear_arith);
                assert(t.len() == (n - 1) * (cols + 1) - 1);
                assert(grid_text(g)[r * (cols + 1) + c] == t[r * (cols + 1) + c]);
                assert(0 <= r * (cols + 1)) by (nonlinear_arith)
                    requires
                        r >= 0,
                        cols >= 0,
                ;
            } else {
                assert(r * (cols + 1) == (n - 1) * (cols + 1));
                assert(g.last() == g[r]);
                assert(last[c] == g[r][c].ch);
                assert(grid_text(g)[r * (cols + 1) + c] == last[c]);
            }
        }
        assert forall|r: int| 0 <= r < g.len() - 1 implies #[trigger] grid_text(g)[r * (cols + 1)
            + cols] == '\n' by {
            if r < n - 2 {
                assert(r * (cols + 1) <= (n - 3) * (cols + 1)) by (nonlinear_arith)
                    requires
                        r <= n - 3,
                        cols >= 0,
                ;
                assert((n - 3) * (cols + 1) + cols + 1 == (n - 2) * (cols + 1)) by (nonlinear_arith);
                assert((n - 2) * (cols + 1) + cols + 1 == (n - 1) * (cols + 1)) by (nonlinear_arith);
                assert(0 <= r * (cols + 1)) by (nonlinear_arith)
                    requires
                        r >= 0,
                        cols >= 0,
                ;
            } else {
                assert(r * (cols + 1) == (n - 2) * (cols + 1));
                assert((n - 2) * (cols + 1) + cols + 1 == (n - 1) * (cols + 1)) by (nonlinear_arith);
            }
        }
    }
}

/// A screen's text is its rows in order, one line each, every line
/// exactly as wide as the screen: line `r` starts at `r * (cols + 1)`,
/// char `c` of it is the glyph of cell `(r, c)`, and every line but the
/// last ends in a newline.
pub proof fn law_text_layout(v: ScreenView)
    requires
        v.wf(),
    ensures
        v.text().len() == v.rows * (v.cols + 1) - 1,
        forall|r: int, c: int|
            0 <= r < v.rows && 0 <= c < v.cols ==> v.text()[r * (v.cols + 1) + c] == (
            #[trigger] v.cell(r, c)).ch,
        forall|r: int|
            0 <= r < v.rows - 1 ==> #[trigger] v.text()[r * (v.cols + 1) + v.cols] == '\n',
{
    lemma_grid_text_layout(v.grid, v.cols as int);
}

/// The count of a CSI sequence: its first value, one when absent.
pub open spec fn first_count(params: Seq<Seq<u16>>) -> int {
    if params.len() > 0 && params[0].len() > 0 {
        params[0][0] as int
    } else {
        1
    }
}

/// `CSI n P` (delete characters): with `k` the count, capped by the room
/// right of the cursor, the cursor's row keeps the cells before the cursor,
/// then the cells `k` further on move left, and `k` blanks in the current
/// rendition fill the end. `CSI n @` (insert characters) is the mirror: `k`
/// blanks at the cursor, the cells from the cursor on move `k` right, and
/// what passes the edge is lost. Other rows, the cursor and the rendition
/// stay.
pub proof fn law_csi_delete_insert_chars(v: ScreenView, params: Seq<Seq<u16>>, private: Option<u8>)
    requires
        v.wf(),
    ensures
        ({
            let row = v.cursor_row as int;
            let col = v.cursor_col as int;
            let cols = v.cols as int;
            let n = first_count(params);
            let k = if n < cols - col { n } else { cols - col };
            let line = v.grid[row];
            let blank = Cell { ch: ' ', attrs: v.attrs };
            let d = csi_screen(v, params, private, 'P');
            let i = csi_screen(v, params, private, '@');
            &&& d.grid.len() == v.grid.len() && i.grid.len() == v.grid.len()
            &&& d.grid[row].len() == cols && i.grid[row].len() == cols
            &&& forall|c: int| 0 <= c < col && c < cols ==> #[trigger] d.grid[row][c] == line[c]
            &&& forall|c: int| col <= c < cols - k ==> #[trigger] d.grid[row][c] == line[c + k]
            &&& forall|c: int| cols - k <= c < cols && col <= c ==> #[trigger] d.grid[row][c] == blank
            &&& forall|c: int| 0 <= c < col && c < cols ==> #[trigger] i.grid[row][c] == line[c]
            &&& forall|c: int| col <= c < col + k ==> #[trigger] i.grid[row][c] == blank
            &&& forall|c: int| col + k <= c < cols ==> #[trigger] i.grid[row][c] == line[c - k]
            &&& forall|r: int| 0 <= r < v.rows && r != row ==> #[trigger] d.grid[r] == v.grid[r]
            &&& forall|r: int| 0 <= r < v.rows && r != row ==> #[trigger] i.grid[r] == v.grid[r]
            &&& d == (ScreenView { grid: d.grid, ..v })
            &&& i == (ScreenView { grid: i.grid, ..v })
        }),
{
    let row = v.cursor_row as int;
    let col = v.cursor_col as int;
    let cols = v.cols as int;
    let n = first_count(params);
    assert(nth_param(params, 0, 1) == n);
    assert(v.grid[row].len() == cols);
}

/// A blank cell in the plain rendition, field by field.
pub open spec fn plain_cell() -> Cell {
    Cell { ch: ' ', attrs: plain_attrs() }
}

/// Resizing treats the grid that is not shown as it treats the one that
/// is: the saved grid keeps every cell of the old and new sizes' overlap
/// and is filled with plain blanks elsewhere; no saved grid stays none.
pub proof fn law_resize_keeps_saved_grid_overlap(v: ScreenView, cols: u16, rows: u16)
    requires
        v.wf(),
        1 <= cols,
        1 <= rows,
    ensures
        ({
            let w = v.resize(cols, rows);
            &&& (v.alt_grid is None ==> w.alt_grid is None)
            &&& (v.alt_grid matches Some(g) ==> {
                &&& w.alt_grid matches Some(h)
                &&& h.len() == rows
                &&& forall|r: int| 0 <= r < rows ==> (#[trigger] h[r]).len() == cols
                &&& forall|r: int, c: int|
                    0 <= r < rows && 0 <= c < cols && r < v.rows && c < v.cols ==> #[trigger] h[r][c]
                        == g[r][c]
                &&& forall|r: int, c: int|
                    0 <= r < rows && 0 <= c < cols && !(r < v.rows && c < v.cols) ==> #[trigger] h[r][c]
                        == plain_cell()
            })
        }),
{
}

/// Resizing while the alternate screen is shown does not lose the primary
/// screen: back on it, every cell of the overlap of the two sizes is what
/// it was before the alternate screen was entered, and the rest is blank.
pub proof fn law_resize_on_alt_screen_keeps_primary(v: ScreenView, cols: u16, rows: u16)
    requires
        v.wf(),
        !v.modes.alt_screen,
        1 <= cols,
        1 <= rows,
    ensures
        ({
            let w = v.set_private_mode(1049, true).resize(cols, rows).set_private_mode(1049, false);
            &&& !w.modes.alt_screen
            &&& w.grid.len() == rows
            &&& forall|r: int, c: int|
                0 <= r < rows && 0 <= c < cols && r < v.rows && c < v.cols ==> #[trigger] w.grid[r][c]
                    == v.grid[r][c]
            &&& forall|r: int, c: int|
                0 <= r < rows && 0 <= c < cols && !(r < v.rows && c < v.cols) ==> #[trigger] w.grid[r][c]
                    == plain_cell()
        }),
{
    let e = v.set_private_mode(1049, true);
    assert(e.alt_grid == Some(v.grid));
    assert(e.modes.alt_screen);
    let z = e.resize(cols, rows);
    if cols == v.cols && rows == v.rows {
        assert(z == e);
    } else {
        assert(z.alt_grid == Some(resized_grid(v.grid, v.cols as int, v.rows as int, cols as int, rows as int)));
    }
    assert(z.modes.alt_screen);
}

/// How a cell's colour reaches the renderer: no colour and the default
/// colour are `Default`, a palette index stays that index, a truecolor
/// stays those three components.
pub open spec fn shown_colour(c: Option<Color>) -> ColorDto {
    match c {
        None => ColorDto::Default,
        Some(Color::Default) => ColorDto::Default,
        Some(Color::Indexed(i)) => ColorDto::Indexed(i),
        Some(Color::Rgb(r, g, b)) => ColorDto::Rgb([r, g, b]),
    }
}

/// The palette entry a snapshot's runs name for each cell carries that
/// cell's rendition: its bold, italic, underline and reverse flags and its
/// foreground and background colours. The snapshot's caret is the cursor,
/// on the last column while a wrap is pending.
pub proof fn law_snapshot_entries_carry_rendition(s: SnapshotDto, v: ScreenView)
    requires
        v.wf(),
        is_snapshot_of(s, v),
    ensures
        s.cursor_row == v.cursor_row,
        s.cursor_col == within(v.cursor_col as int, v.cols - 1),
        forall|r: int, c: int|
            0 <= r < v.rows && 0 <= c < v.cols ==> {
                let id = runs_ids(runs_view(s.lines@[r].runs@))[c] as int;
                let d = s.attrs@[id];
                let a = (#[trigger] v.grid[r][c]).attrs;
                &&& 0 <= id < s.attrs@.len()
                &&& d.bold == a.bold
                &&& d.italic == a.italic
                &&& d.underline == a.underline
                &&& d.reverse == a.reverse
                &&& d.fg == shown_colour(a.fg)
                &&& d.bg == shown_colour(a.bg)
            },
{
    law_snapshot_faithful(s, v);
    assert forall|r: int, c: int| 0 <= r < v.rows && 0 <= c < v.cols implies {
        let id = runs_ids(runs_view(s.lines@[r].runs@))[c] as int;
        let d = s.attrs@[id];
        let a = (#[trigger] v.grid[r][c]).attrs;
        &&& 0 <= id < s.attrs@.len()
        &&& d.bold == a.bold
        &&& d.italic == a.italic
        &&& d.underline == a.underline
        &&& d.reverse == a.reverse
        &&& d.fg == shown_colour(a.fg)
        &&& d.bg == shown_colour(a.bg)
    } by {
        assert(runs_ids(runs_view(s.lines@[r].runs@)) == row_ids(v.grid[r], s.attrs@));
        let id = row_ids(v.grid[r], s.attrs@)[c];
        assert(s.attrs@[id as int] == attr_dto(v.grid[r][c].attrs));
        assert(id < s.attrs@.len());
    }
}

/// `x` limited to `0..=hi`.
pub open spec fn within(x: int, hi: int) -> int {
    if x < 0 {
        0
    } else if x > hi {
        hi
    } else {
        x
    }
}

/// The `i`-th value of a CSI sequence, `default` when absent.
pub open spec fn param_or(params: Seq<Seq<u16>>, i: int, default: int) -> int {
    if 0 <= i < params.len() && params[i].len() > 0 {
        params[i][0] as int
    } else {
        default
    }
}

/// Cursor motion by CSI sequences moves the cursor and nothing else. With
/// `n` the count (absent or 0 meaning 1): `A` goes `n` rows up, `B` and `e`
/// down, `C` and `a` `n` columns right, `D` left, `E` and `F` to the start
/// of the line `n` rows down or up; `H` and `f` go to the 1-based row and
/// column given, `G` and the backtick to the column, `d` to the row. Every
/// position stops at the screen's edges.
pub proof fn law_csi_cursor_motion(v: ScreenView, params: Seq<Seq<u16>>, private: Option<u8>, action: char)
    requires
        v.wf(),
        action == 'A' || action == 'B' || action == 'e' || action == 'C' || action == 'a' || action
            == 'D' || action == 'E' || action == 'F' || action == 'G' || action == '`' || action
            == 'H' || action == 'f' || action == 'd',
    ensures
        ({
            let w = csi_screen(v, params, private, action);
            let p0 = param_or(params, 0, 1);
            let n = if p0 < 1 { 1 } else { p0 };
            let row = v.cursor_row as int;
            let col = v.cursor_col as int;
            let last_row = v.rows - 1;
            let last_col = v.cols - 1;
            &&& w == (ScreenView { cursor_row: w.cursor_row, cursor_col: w.cursor_col, ..v })
            &&& (action == 'A' ==> w.cursor_row == within(row - n, last_row) && w.cursor_col
                == within(col, last_col))
            &&& (action == 'B' || action == 'e' ==> w.cursor_row == within(row + n, last_row)
                && w.cursor_col == within(col, last_col))
            &&& (action == 'C' || action == 'a' ==> w.cursor_row == row && w.cursor_col == within(
                col + n,
                last_col,
            ))
            &&& (action == 'D' ==> w.cursor_row == row && w.cursor_col == within(col - n, last_col))
            &&& (action == 'E' ==> w.cursor_row == within(row + n, last_row) && w.cursor_col == 0)
            &&& (action == 'F' ==> w.cursor_row == within(row - n, last_row) && w.cursor_col == 0)
            &&& (action == 'H' || action == 'f' ==> w.cursor_row == within(p0 - 1, last_row)
                && w.cursor_col == within(param_or(params, 1, 1) - 1, last_col))
            &&& (action == 'G' || action == '`' ==> w.cursor_row == row && w.cursor_col == within(
                p0 - 1,
                last_col,
            ))
            &&& (action == 'd' ==> w.cursor_row == within(p0 - 1, last_row) && w.cursor_col
                == within(col, last_col))
        }),
{
    assert(nth_param(params, 0, 1) == param_or(params, 0, 1));
    assert(nth_param(params, 1, 1) == param_or(params, 1, 1));
}

/// A C0 control moves the cursor (or scrolls) and changes no cell
/// otherwise: CR goes to column 0, BS one column left (not past 0), HT to
/// the next multiple of 8 (not past the last column), LF, VT and FF one
/// row down, scrolling at the bottom margin; other controls do nothing.
pub proof fn law_execute_controls(v: ScreenView, byte: u8)
    requires
        v.wf(),
    ensures
        ({
            let w = execute_screen(v, byte);
            let col = v.cursor_col as int;
            &&& (byte == 0x0d ==> w == (ScreenView { cursor_col: 0, ..v }))
            &&& (byte == 0x08 ==> w == (ScreenView { cursor_col: within(col - 1, col) as u16, ..v }))
            &&& (byte == 0x09 ==> w == (ScreenView {
                cursor_col: within((col / 8 + 1) * 8, v.cols - 1) as u16,
                ..v
            }))
            &&& (byte == 0x0a || byte == 0x0b || byte == 0x0c ==> {
                &&& (v.cursor_row != v.bottom() && v.cursor_row < v.rows - 1 ==> w == (ScreenView {
                    cursor_row: (v.cursor_row + 1) as u16,
                    ..v
                }))
                &&& (v.cursor_row != v.bottom() && v.cursor_row == v.rows - 1 ==> w == v)
                &&& (v.cursor_row == v.bottom() ==> w == v.scroll_up(1))
            })
            &&& (!(byte == 0x0d || byte == 0x08 || byte == 0x09 || byte == 0x0a || byte == 0x0b
                || byte == 0x0c) ==> w == v)
        }),
{
}

/// Printing a char puts it, in the current rendition, in the cell under
/// the cursor and moves one column right; no other cell changes. With a
/// wrap pending (the cursor past the last column) and auto-wrap on, the
/// char goes to the start of the next line instead (scrolling at the
/// bottom margin); with auto-wrap off it overwrites the last column.
pub proof fn law_put(v: ScreenView, ch: char)
    requires
        v.wf(),
    ensures
        ({
            let w = v.put(ch);
            let row = v.cursor_row as int;
            let col = v.cursor_col as int;
            let cell = Cell { ch, attrs: v.attrs };
            &&& (col < v.cols ==> {
                &&& w.grid == v.grid.update(row, v.grid[row].update(col, cell))
                &&& w == (ScreenView { grid: w.grid, cursor_col: (col + 1) as u16, ..v })
            })
            &&& (col >= v.cols && !v.modes.autowrap ==> {
                &&& w.grid == v.grid.update(row, v.grid[row].update(v.cols - 1, cell))
                &&& w == (ScreenView { grid: w.grid, ..v })
            })
            &&& (col >= v.cols && v.modes.autowrap ==> {
                let s1 = ScreenView { cursor_col: 0, ..v }.line_feed();
                &&& w.grid == s1.grid.update(
                    s1.cursor_row as int,
                    s1.grid[s1.cursor_row as int].update(0, cell),
                )
                &&& w == (ScreenView { grid: w.grid, cursor_col: 1, ..s1 })
            })
        }),
{
}

/// Scrolling the region between `top` and `bottom` (the whole screen
/// without one) by `n >= 1` lines, with `k` the smaller of `n` and the
/// region's height: up, each region row takes the row `k` below it and
/// the last `k` rows turn plain blank; down, each takes the row `k` above
/// and the first `k` turn blank. Rows outside the region, the cursor and
/// the rendition stay. Scrolling up the whole primary screen appends the
/// `k` rows that leave it to the scrollback, keeping its newest
/// `scrollback_cap` lines; any other scroll leaves the scrollback alone.
pub proof fn law_scroll_contents(v: ScreenView, n: int)
    requires
        v.wf(),
        n >= 1,
    ensures
        ({
            let top = v.top();
            let bottom = v.bottom();
            let k = if n < bottom - top + 1 { n } else { bottom - top + 1 };
            let u = v.scroll_up(n);
            let d = v.scroll_down(n);
            let g = v.grid;
            let full = top == 0 && bottom == v.rows - 1 && !v.modes.alt_screen;
            &&& u.grid.len() == v.rows && d.grid.len() == v.rows
            &&& forall|r: int| 0 <= r < v.rows && (r < top || r > bottom) ==> #[trigger] u.grid[r] == g[r]
            &&& forall|r: int| 0 <= r < v.rows && (r < top || r > bottom) ==> #[trigger] d.grid[r] == g[r]
            &&& forall|r: int| top <= r <= bottom - k ==> #[trigger] u.grid[r] == g[r + k]
            &&& forall|r: int| bottom - k < r <= bottom ==> #[trigger] u.grid[r] == Seq::new(
                v.cols as nat,
                |_c: int| plain_cell(),
            )
            &&& forall|r: int| top + k <= r <= bottom ==> #[trigger] d.grid[r] == g[r - k]
            &&& forall|r: int| top <= r < top + k ==> #[trigger] d.grid[r] == Seq::new(
                v.cols as nat,
                |_c: int| plain_cell(),
            )
            &&& u == (ScreenView { grid: u.grid, scrollback: u.scrollback, ..v })
            &&& d == (ScreenView { grid: d.grid, ..v })
            &&& (full ==> {
                let all = v.scrollback + g.take(k);
                &&& u.scrollback.len() == if all.len() > v.scrollback_cap {
                    v.scrollback_cap as int
                } else {
                    all.len() as int
                }
                &&& forall|i: int| 0 <= i < u.scrollback.len() ==> #[trigger] u.scrollback[i]
                    == all[all.len() - u.scrollback.len() + i]
            })
            &&& (!full ==> u.scrollback == v.scrollback)
        }),
{
    let top = v.top();
    let bottom = v.bottom();
    let k = if n < bottom - top + 1 { n } else { bottom - top + 1 };
    let g = v.grid;
    let blanks = grid_of(v.cols as int, k, default_cell());
    assert(default_cell() == plain_cell());
    let ug = g.take(top) + g.subrange(top + k, bottom + 1) + blanks + g.skip(bottom + 1);
    let dg = g.take(top) + blanks + g.subrange(top, bottom + 1 - k) + g.skip(bottom + 1);
    assert(v.scroll_up(n).grid == ug);
    assert(v.scroll_down(n).grid == dg);
    assert forall|r: int| 0 <= r < v.rows && (r < top || r > bottom) implies #[trigger] ug[r] == g[r]
        && dg[r] == g[r] by {
        if r > bottom {
            assert(ug[r] == g.skip(bottom + 1)[r - (bottom + 1)]);
            assert(dg[r] == g.skip(bottom + 1)[r - (bottom + 1)]);
        }
    }
    assert forall|r: int| bottom - k < r <= bottom implies #[trigger] ug[r] == Seq::new(
        v.cols as nat,
        |_c: int| plain_cell(),
    ) by {
        assert(ug[r] == blanks[r - (bottom + 1 - k)]);
        assert(blanks[r - (bottom + 1 - k)] =~= Seq::new(v.cols as nat, |_c: int| plain_cell()));
    }
    assert forall|r: int| top <= r < top + k implies #[trigger] dg[r] == Seq::new(
        v.cols as nat,
        |_c: int| plain_cell(),
    ) by {
        assert(dg[r] == blanks[r - top]);
        assert(blanks[r - top] =~= Seq::new(v.cols as nat, |_c: int| plain_cell()));
    }
}

/// Erasing by CSI sequences blanks cells in the current rendition and
/// nothing else. With `m` the first value (0 when absent) and the cursor
/// at (`row`, `col`): `J` with 0 blanks from the cursor to the end of the
/// screen, with 1 from the start of the screen up to and not including the
/// cursor, with any other value the whole screen; `K` does the same within
/// the cursor's row.
pub proof fn law_csi_erase(v: ScreenView, params: Seq<Seq<u16>>, private: Option<u8>)
    requires
        v.wf(),
    ensures
        ({
            let m = param_or(params, 0, 0);
            let row = v.cursor_row as int;
            let col = v.cursor_col as int;
            let blank = Cell { ch: ' ', attrs: v.attrs };
            let j = csi_screen(v, params, private, 'J');
            let k = csi_screen(v, params, private, 'K');
            &&& j == (ScreenView { grid: j.grid, ..v })
            &&& k == (ScreenView { grid: k.grid, ..v })
            &&& j.grid.len() == v.rows && k.grid.len() == v.rows
            &&& forall|r: int| 0 <= r < v.rows ==> (#[trigger] j.grid[r]).len() == v.cols
            &&& forall|r: int, c: int|
                0 <= r < v.rows && 0 <= c < v.cols ==> #[trigger] j.grid[r][c] == if (m == 0 && (r
                    > row || (r == row && c >= col))) || (m == 1 && (r < row || (r == row && c
                    < col))) || (m != 0 && m != 1) {
                    blank
                } else {
                    v.grid[r][c]
                }
            &&& forall|r: int| 0 <= r < v.rows && r != row ==> #[trigger] k.grid[r] == v.grid[r]
            &&& k.grid[row].len() == v.cols
            &&& forall|c: int|
                0 <= c < v.cols ==> #[trigger] k.grid[row][c] == if (m == 0 && c >= col) || (m
                    == 1 && c < col) || (m != 0 && m != 1) {
                    blank
                } else {
                    v.grid[row][c]
                }
        }),
{
    assert(nth_param(params, 0, 0) == param_or(params, 0, 0));
}

/// The other CSI sequences the screen acts on, in terms of the screen's
/// operations: `S` and `T` scroll the region up or down by the count
/// (absent or 0 meaning 1); `r` sets the scroll region from the 1-based
/// top and bottom given (top 1 and the last row when absent or 0) and
/// homes the cursor; `m` with one value applies that SGR code; `?` `h`
/// and `l` with one value set and reset that private mode. Any other
/// final character, and `h` or `l` without `?`, leaves the screen alone.
pub proof fn law_csi_dispatch(v: ScreenView, params: Seq<Seq<u16>>, private: Option<u8>, action: char)
    requires
        v.wf(),
    ensures
        ({
            let w = csi_screen(v, params, private, action);
            let p0 = param_or(params, 0, 1);
            let n = if p0 < 1 { 1 } else { p0 };
            let p1 = param_or(params, 1, 0);
            &&& (action == 'S' ==> w == v.scroll_up(n))
            &&& (action == 'T' ==> w == v.scroll_down(n))
            &&& (action == 'r' ==> w == v.set_scroll_region(
                p0,
                if p1 == 0 { v.rows as int } else { p1 },
            ).goto(0, 0))
            &&& (action == 'm' && params.len() == 1 && params[0].len() == 1 ==> w == v.sgr(
                seq![params[0][0] as i64],
            ))
            &&& ((action == 'h' || action == 'l') && private == Some(0x3fu8) && params.len() == 1
                && params[0].len() == 1 ==> w == v.set_private_mode(params[0][0] as i64, action == 'h'))
            &&& ((action == 'h' || action == 'l') && private != Some(0x3fu8) ==> w == v)
            &&& (!(action == 'A' || action == 'B' || action == 'e' || action == 'C' || action == 'a'
                || action == 'D' || action == 'E' || action == 'F' || action == 'G' || action == '`'
                || action == 'H' || action == 'f' || action == 'I' || action == 'J' || action == 'K'
                || action == '@' || action == 'P' || action == 'r' || action == 'S' || action == 'T'
                || action == 'd' || action == 'm' || action == 'h' || action == 'l') ==> w == v)
        }),
{
    assert(nth_param(params, 0, 1) == param_or(params, 0, 1));
    assert(nth_param(params, 1, 0) == param_or(params, 1, 0));
    if action == 'r' {
        let bottom = nth_param(params, 1, 0);
        let bottom = if bottom == 0 { 24000 } else { bottom };
        let p1 = param_or(params, 1, 0);
        let b1 = if p1 == 0 { v.rows as int } else { p1 };
        assert(clamp_one_based(bottom, v.rows as int) == clamp_one_based(b1, v.rows as int));
    }
    if action == 'm' && params.len() == 1 && params[0].len() == 1 {
        assert(flatten_params(params) =~= seq![params[0][0] as i64]) by {
            reveal_with_fuel(flatten_params, 2);
            assert(params.drop_last() =~= Seq::<Seq<u16>>::empty());
        }
    }
    if (action == 'h' || action == 'l') && private == Some(0x3fu8) && params.len() == 1
        && params[0].len() == 1 {
        let flat = seq![params[0][0] as i64];
        assert(flatten_params(params) =~= flat) by {
            reveal_with_fuel(flatten_params, 2);
            assert(params.drop_last() =~= Seq::<Seq<u16>>::empty());
        }
        reveal_with_fuel(set_modes, 2);
        assert(flat.drop_last() =~= Seq::<i64>::empty());
    }
}

/// A fresh screen of `cols` x `rows`, field by field: plain blanks, no
/// scrollback, the cursor home in the plain rendition, every mode off but
/// auto-wrap, no scroll region, no saved grid or cursor.
pub open spec fn fresh_screen(cols: u16, rows: u16, cap: usize) -> ScreenView {
    ScreenView {
        cols,
        rows,
        grid: Seq::new(rows as nat, |_r: int| Seq::new(cols as nat, |_c: int| plain_cell())),
        scrollback: Seq::empty(),
        scrollback_cap: cap,
        cursor_row: 0,
        cursor_col: 0,
        attrs: plain_attrs(),
        modes: Modes {
            mouse_normal: false,
            mouse_button: false,
            mouse_any: false,
            mouse_sgr: false,
            bracketed_paste: false,
            alt_screen: false,
            autowrap: true,
        },
        scroll_region: None,
        alt_grid: None,
        saved_cursor: None,
    }
}

/// A new screen is a fresh screen.
pub proof fn law_initial_screen(cols: u16, rows: u16, cap: usize)
    ensures
        ScreenView::initial(cols, rows, cap) == fresh_screen(cols, rows, cap),
{
    assert(ScreenView::initial(cols, rows, cap).grid =~~= fresh_screen(cols, rows, cap).grid);
}

/// Escape sequences without intermediates: `7` saves the cursor and the
/// rendition, `8` brings them back (limited to the screen) and forgets
/// them, doing nothing when none is saved; `M` moves up a row, scrolling
/// the region down when on its top row; `c` makes the screen fresh at its
/// size, with a 10000-line scrollback. Anything else, or any sequence with
/// intermediates, leaves the screen alone.
pub proof fn law_esc_dispatch(v: ScreenView, intermediates: Seq<u8>, byte: u8)
    requires
        v.wf(),
    ensures
        ({
            let w = esc_screen(v, intermediates, byte);
            &&& (intermediates.len() > 0 ==> w == v)
            &&& (intermediates.len() == 0 ==> {
                &&& (byte == 0x37 ==> w == (ScreenView {
                    saved_cursor: Some((v.cursor_row, v.cursor_col, v.attrs)),
                    ..v
                }))
                &&& (byte == 0x38 ==> match v.saved_cursor {
                    Some((r, c, a)) => w == (ScreenView {
                        cursor_row: within(r as int, v.rows - 1) as u16,
                        cursor_col: within(c as int, v.cols - 1) as u16,
                        attrs: a,
                        saved_cursor: None,
                        ..v
                    }),
                    None => w == v,
                })
                &&& (byte == 0x4d && v.cursor_row == v.top() ==> w == v.scroll_down(1))
                &&& (byte == 0x4d && v.cursor_row != v.top() && v.cursor_row > 0 ==> w == (
                ScreenView { cursor_row: (v.cursor_row - 1) as u16, ..v }))
                &&& (byte == 0x63 ==> w == fresh_screen(v.cols, v.rows, 10000))
                &&& (!(byte == 0x37 || byte == 0x38 || byte == 0x4d || byte == 0x63) ==> w == v)
            })
        }),
{
    law_initial_screen(v.cols, v.rows, 10000);
}

/// DECSTBM: the 1-based `top` and `bottom` are limited to the screen; the
/// region becomes those rows when top lies above bottom, and otherwise
/// nothing changes. Nothing else changes either way.
pub proof fn law_set_scroll_region(v: ScreenView, top: int, bottom: int)
    requires
        v.wf(),
    ensures
        ({
            let t = within(top - 1, v.rows - 1);
            let b = within(bottom - 1, v.rows - 1);
            let w = v.set_scroll_region(top, bottom);
            &&& (t < b ==> w == (ScreenView { scroll_region: Some((t as u16, b as u16)), ..v }))
            &&& (t >= b ==> w == v)
        }),
{
}

/// The value of a string of decimal digits.
pub open spec fn digits_value(d: Seq<u8>) -> int
    decreases d.len(),
{
    if d.len() == 0 {
        0
    } else {
        digits_value(d.drop_last()) * 10 + (d.last() - 48)
    }
}

/// The digits written for a number are decimal digits, with no leading
/// zero, and read back as that number.
pub proof fn law_decimal_digits(n: nat)
    ensures
        decimal(n).len() >= 1,
        forall|i: int| 0 <= i < decimal(n).len() ==> 48 <= #[trigger] decimal(n)[i] <= 57,
        n > 0 ==> decimal(n)[0] != 48,
        digits_value(decimal(n)) == n,
    decreases n,
{
    if n >= 10 {
        law_decimal_digits(n / 10);
        let d = decimal(n);
        let h = decimal(n / 10);
        assert(d == h + seq![(48 + n % 10) as u8]);
        assert(d.drop_last() =~= h);
        assert(forall|i: int| 0 <= i < h.len() ==> d[i] == h[i]);
        assert(d.last() == 48 + n % 10);
        assert(digits_value(d) == digits_value(h) * 10 + (n % 10));
        assert(digits_value(h) * 10 == (n / 10) * 10);
        assert(n == (n / 10) * 10 + n % 10);
    } else {
        let d = decimal(n);
        assert(d.drop_last() =~= Seq::<u8>::empty());
        assert(d.last() == 48 + n);
        assert(digits_value(d) == digits_value(d.drop_last()) * 10 + (d.last() - 48));
        assert(digits_value(d.drop_last()) == 0);
    }
}

/// `CSI 6 n` asks for the cursor: the reply is `ESC [`, the 1-based row,
/// `;`, the 1-based column, `R`, for the cursor limited to the screen (on
/// the last column while a wrap is pending). Other `n` requests, and
/// private ones, get no reply; nor does any other sequence.
pub proof fn law_cursor_position_report(v: ScreenView, params: Seq<Seq<u16>>, private: Option<u8>, action: char)
    requires
        v.wf(),
    ensures
        ({
            let rep = csi_reply(v, params, private, action);
            let row = v.cursor_row as int;
            let col = within(v.cursor_col as int, v.cols - 1);
            &&& (action == 'n' && private is None && param_or(params, 0, 0) == 6 ==> (rep
                matches Some(b) && b == seq![0x1bu8, 0x5bu8] + decimal((row + 1) as nat) + seq![
                0x3bu8,
            ] + decimal((col + 1) as nat) + seq![0x52u8]))
            &&& digits_value(decimal((row + 1) as nat)) == row + 1
            &&& digits_value(decimal((col + 1) as nat)) == col + 1
            &&& (!(action == 'n' && private is None && param_or(params, 0, 0) == 6) ==> rep is None)
        }),
{
    assert(nth_param(params, 0, 0) == param_or(params, 0, 0));
    law_decimal_digits((v.cursor_row + 1) as nat);
    law_decimal_digits((within(v.cursor_col as int, v.cols - 1) + 1) as nat);
}

/// Where a column lands on a resize: a pending wrap (the column past the
/// old last one) goes to the last column both widths have; any other
/// column stays, limited to the new width.
pub open spec fn landing_col(c: int, old_cols: int, cols: int) -> int {
    if c >= old_cols {
        within(old_cols - 1, cols - 1)
    } else {
        within(c, cols - 1)
    }
}

/// A resize to a new size moves the cursor and the saved cursor onto the
/// new grid (rows limited to the new height, columns as `landing_col`
/// says), drops the scroll region, and keeps the rendition, the modes and
/// the scrollback. Resizing to the same size changes nothing.
pub proof fn law_resize_cursor(v: ScreenView, cols: u16, rows: u16)
    requires
        v.wf(),
        1 <= cols,
        1 <= rows,
    ensures
        ({
            let w = v.resize(cols, rows);
            &&& (cols == v.cols && rows == v.rows ==> w == v)
            &&& (cols != v.cols || rows != v.rows ==> {
                &&& w.cols == cols && w.rows == rows
                &&& w.cursor_row == within(v.cursor_row as int, rows - 1)
                &&& w.cursor_col == landing_col(v.cursor_col as int, v.cols as int, cols as int)
                &&& w.saved_cursor == match v.saved_cursor {
                    Some((r, c, a)) => Some(
                        (
                            within(r as int, rows - 1) as u16,
                            landing_col(c as int, v.cols as int, cols as int) as u16,
                            a,
                        ),
                    ),
                    None => None,
                }
                &&& w.scroll_region is None
                &&& w.attrs == v.attrs && w.modes == v.modes && w.scrollback == v.scrollback
                &&& w.scrollback_cap == v.scrollback_cap
            })
        }),
{
}

/// Entering the alternate screen keeps the primary grid aside and shows a
/// grid of plain blanks; the cursor and saved cursor stay unless asked to
/// save. Entering it again while shown changes nothing.
pub proof fn law_enter_alt_screen(v: ScreenView, save: bool)
    requires
        v.wf(),
    ensures
        ({
            let w = v.enter_alt_screen(save);
            &&& (v.modes.alt_screen ==> w == v)
            &&& (!v.modes.alt_screen ==> {
                &&& w.alt_grid == Some(v.grid)
                &&& w.grid == Seq::new(v.rows as nat, |_r: int| Seq::new(v.cols as nat, |_c: int| plain_cell()))
                &&& w.modes == (Modes { alt_screen: true, ..v.modes })
                &&& w.saved_cursor == if save {
                    Some((v.cursor_row, v.cursor_col, v.attrs))
                } else {
                    v.saved_cursor
                }
                &&& w.cursor_row == v.cursor_row && w.cursor_col == v.cursor_col
                &&& w.attrs == v.attrs && w.scrollback == v.scrollback
            })
        }),
{
    assert(grid_of(v.cols as int, v.rows as int, default_cell()) =~~= Seq::new(
        v.rows as nat,
        |_r: int| Seq::new(v.cols as nat, |_c: int| plain_cell()),
    ));
}

/// Leaving the alternate screen brings back the primary grid as it was
/// set aside; the saved cursor (limited to the screen) comes back when
/// asked for and present, and is then forgotten; otherwise the cursor goes
/// home. Leaving it while not shown changes nothing.
pub proof fn law_exit_alt_screen(v: ScreenView, restore: bool)
    requires
        v.wf(),
    ensures
        ({
            let w = v.exit_alt_screen(restore);
            &&& (!v.modes.alt_screen ==> w == v)
            &&& (v.modes.alt_screen ==> {
                &&& (v.alt_grid matches Some(g) ==> w.grid == g)
                &&& w.alt_grid is None
                &&& w.modes == (Modes { alt_screen: false, ..v.modes })
                &&& w.scrollback == v.scrollback
                &&& (restore ==> (v.saved_cursor matches Some((r, c, a)) ==> {
                    &&& w.cursor_row == within(r as int, v.rows - 1)
                    &&& w.cursor_col == within(c as int, v.cols - 1)
                    &&& w.attrs == a
                    &&& w.saved_cursor is None
                }))
                &&& (!(restore && v.saved_cursor is Some) ==> {
                    &&& w.cursor_row == 0 && w.cursor_col == 0
                    &&& w.attrs == v.attrs
                    &&& w.saved_cursor == v.saved_cursor
                })
            })
        }),
{
}

} // verus!
