//! Plain screen snapshots for the GUI renderer.
//!
//! Cells are stored as runs (glyph + attribute id) so a full frame stays
//! small, and identical attributes collapse into one palette entry per
//! snapshot.
use vstd::prelude::*;

use crate::attrs::{Attrs, Cell, Color};
use crate::model::{min, row_chars, ScreenView};
use crate::screen::Screen;
use crate::text::string_from_chars;

verus! {

/// A resolved color in a snapshot attribute. `Default` means "use the theme
/// default"; indexed colors reference the theme palette; RGB is truecolor.
#[derive(Debug, Clone, Copy, PartialEq, Eq)]
pub enum ColorDto {
    Default,
    Indexed(u8),
    Rgb([u8; 3]),
}

/// One attribute combination used by at least one cell in a snapshot.
#[derive(Debug, Clone, Copy, PartialEq, Eq)]
pub struct AttrDto {
    /// Foreground color or Default.
    pub fg: ColorDto,
    /// Background color or Default.
    pub bg: ColorDto,
    pub bold: bool,
    pub italic: bool,
    pub underline: bool,
    pub reverse: bool,
}

/// A horizontal run of cells sharing one attribute entry.
#[derive(Debug, Clone)]
pub struct RunDto {
    /// Index into [`SnapshotDto::attrs`].
    pub attr: u32,
    /// Decoded text of the run (one char per cell, spaces included).
    pub text: String,
}

#[derive(Debug, Clone)]
pub struct RowDto {
    pub runs: Vec<RunDto>,
}

#[derive(Debug, Clone)]
pub struct SnapshotDto {
    pub cols: u16,
    pub rows: u16,
    pub cursor_col: u16,
    pub cursor_row: u16,
    pub cursor_visible: bool,
    /// The visible grid, one entry per row.
    pub lines: Vec<RowDto>,
    pub attrs: Vec<AttrDto>,
}

pub open spec fn color_dto(c: Color) -> ColorDto {
    match c {
        Color::Default => ColorDto::Default,
        Color::Indexed(i) => ColorDto::Indexed(i),
        Color::Rgb(r, g, b) => ColorDto::Rgb([r, g, b]),
    }
}

pub open spec fn opt_color_dto(c: Option<Color>) -> ColorDto {
    match c {
        Some(c) => color_dto(c),
        None => ColorDto::Default,
    }
}

pub open spec fn default_attr_dto() -> AttrDto {
    AttrDto {
        fg: ColorDto::Default,
        bg: ColorDto::Default,
        bold: false,
        italic: false,
        underline: false,
        reverse: false,
    }
}

pub open spec fn attr_dto(a: Attrs) -> AttrDto {
    AttrDto {
        fg: opt_color_dto(a.fg),
        bg: opt_color_dto(a.bg),
        bold: a.bold,
        italic: a.italic,
        underline: a.underline,
        reverse: a.reverse,
    }
}

/// `p` with `d` appended unless it is already there.
pub open spec fn palette_add(p: Seq<AttrDto>, d: AttrDto) -> Seq<AttrDto> {
    if p.contains(d) {
        p
    } else {
        p.push(d)
    }
}

/// `p` extended by each of `ds` in turn.
pub open spec fn palette_from(p: Seq<AttrDto>, ds: Seq<AttrDto>) -> Seq<AttrDto>
    decreases ds.len(),
{
    if ds.len() == 0 {
        p
    } else {
        palette_add(palette_from(p, ds.drop_last()), ds.last())
    }
}

/// The attribute entries of a row's cells.
pub open spec fn row_dtos(row: Seq<Cell>) -> Seq<AttrDto> {
    row.map_values(|c: Cell| attr_dto(c.attrs))
}

/// The attribute entries of all cells, row-major.
pub open spec fn grid_dtos(g: Seq<Seq<Cell>>) -> Seq<AttrDto>
    decreases g.len(),
{
    if g.len() == 0 {
        Seq::empty()
    } else {
        grid_dtos(g.drop_last()) + row_dtos(g.last())
    }
}

/// The snapshot palette: the default entry first, then every other
/// attribute combination in order of first appearance, row-major.
pub open spec fn snapshot_palette(g: Seq<Seq<Cell>>) -> Seq<AttrDto> {
    palette_from(seq![default_attr_dto()], grid_dtos(g))
}

/// Maximal runs of equal ids: each run is an id and the chars it covers.
pub open spec fn group_runs(ids: Seq<u32>, chars: Seq<char>) -> Seq<(u32, Seq<char>)>
    decreases ids.len(),
{
    if ids.len() == 0 || chars.len() == 0 {
        Seq::empty()
    } else {
        let prev = group_runs(ids.drop_last(), chars.drop_last());
        let id = ids.last();
        let ch = chars.last();
        if prev.len() > 0 && prev.last().0 == id {
            prev.drop_last().push((id, prev.last().1.push(ch)))
        } else {
            prev.push((id, seq![ch]))
        }
    }
}

/// The palette index of each cell of `row`.
pub open spec fn row_ids(row: Seq<Cell>, palette: Seq<AttrDto>) -> Seq<u32> {
    row.map_values(|c: Cell| palette.index_of(attr_dto(c.attrs)) as u32)
}

/// The runs a row becomes against `palette`.
pub open spec fn row_runs(row: Seq<Cell>, palette: Seq<AttrDto>) -> Seq<(u32, Seq<char>)> {
    group_runs(row_ids(row, palette), row_chars(row))
}

pub open spec fn runs_view(runs: Seq<RunDto>) -> Seq<(u32, Seq<char>)> {
    runs.map_values(|r: RunDto| (r.attr, r.text@))
}

/// The chars of a sequence of runs, in order.
pub open spec fn runs_text(runs: Seq<(u32, Seq<char>)>) -> Seq<char>
    decreases runs.len(),
{
    if runs.len() == 0 {
        Seq::empty()
    } else {
        runs_text(runs.drop_last()) + runs.last().1
    }
}

/// The id of each char of a sequence of runs, in order.
pub open spec fn runs_ids(runs: Seq<(u32, Seq<char>)>) -> Seq<u32>
    decreases runs.len(),
{
    if runs.len() == 0 {
        Seq::empty()
    } else {
        runs_ids(runs.drop_last()) + Seq::new(runs.last().1.len(), |_i: int| runs.last().0)
    }
}

/// What a snapshot of `v` holds.
pub open spec fn is_snapshot_of(s: SnapshotDto, v: ScreenView) -> bool {
    &&& s.cols == v.cols
    &&& s.rows == v.rows
    &&& (s.cursor_col, s.cursor_row) == v.visible_cursor()
    &&& s.cursor_visible
    &&& s.attrs@ == snapshot_palette(v.grid)
    &&& s.lines@.len() == v.rows
    &&& forall|r: int|
        0 <= r < v.rows ==> runs_view(#[trigger] s.lines@[r].runs@) == row_runs(
            v.grid[r],
            snapshot_palette(v.grid),
        )
}

impl Default for ColorDto {
    fn default() -> (c: Self)
        ensures
            c == ColorDto::Default,
    {
        ColorDto::Default
    }
}

impl Default for AttrDto {
    fn default() -> (a: Self)
        ensures
            a == default_attr_dto(),
    {
        AttrDto {
            fg: ColorDto::Default,
            bg: ColorDto::Default,
            bold: false,
            italic: false,
            underline: false,
            reverse: false,
        }
    }
}

impl From<Color> for ColorDto {
    fn from(color: Color) -> (c: Self)
        ensures
            c == color_dto(color),
    {
        match color {
            Color::Default => ColorDto::Default,
            Color::Indexed(i) => ColorDto::Indexed(i),
            Color::Rgb(r, g, b) => ColorDto::Rgb([r, g, b]),
        }
    }
}

impl vstd::std_specs::convert::FromSpecImpl<Color> for ColorDto {
    open spec fn obeys_from_spec() -> bool {
        true
    }

    open spec fn from_spec(v: Color) -> ColorDto {
        color_dto(v)
    }
}

/// The legacy palette slot of a color: -1 for the default, the index for
/// indexed colors, and for RGB a slot of the 24-step grayscale ramp
/// (232..=255) chosen by luma.
pub open spec fn palette_slot(c: Color) -> i16 {
    match c {
        Color::Default => -1i16,
        Color::Indexed(i) => i as i16,
        Color::Rgb(r, g, b) => {
            let mixed = (r * 299 + g * 587 + b * 114) / 1000;
            let step = if mixed > 255 {
                255
            } else {
                mixed
            } / 10;
            (232 + min(step, 23)) as i16
        },
    }
}

impl From<Color> for i16 {
    fn from(color: Color) -> (slot: i16)
        ensures
            slot == palette_slot(color),
    {
        match color {
            Color::Default => -1,
            Color::Indexed(i) => i as i16,
            Color::Rgb(r, g, b) => {
                let mixed: i32 = (r as i32 * 299 + g as i32 * 587 + b as i32 * 114) / 1000;
                let step: i32 = (if mixed > 255 {
                    255
                } else {
                    mixed
                }) / 10;
                let idx: i32 = 232 + if step < 23 {
                    step
                } else {
                    23
                };
                idx as i16
            },
        }
    }
}

impl vstd::std_specs::convert::FromSpecImpl<Color> for i16 {
    open spec fn obeys_from_spec() -> bool {
        true
    }

    open spec fn from_spec(v: Color) -> i16 {
        palette_slot(v)
    }
}

/// Runs lose nothing: their texts joined give back the chars, their ids
/// spread over their chars give back the ids, no run is empty, and
/// neighbouring runs have different ids.
pub proof fn law_runs_partition(ids: Seq<u32>, chars: Seq<char>)
    requires
        ids.len() == chars.len(),
    ensures
        runs_text(group_runs(ids, chars)) == chars,
        runs_ids(group_runs(ids, chars)) == ids,
        forall|i: int|
            0 <= i < group_runs(ids, chars).len() ==> (#[trigger] group_runs(ids, chars)[i]).1.len()
                > 0,
        forall|i: int|
            0 < i < group_runs(ids, chars).len() ==> group_runs(ids, chars)[i - 1].0 != (
            #[trigger] group_runs(ids, chars)[i]).0,
    decreases ids.len(),
{
    if ids.len() > 0 {
        let prev = group_runs(ids.drop_last(), chars.drop_last());
        law_runs_partition(ids.drop_last(), chars.drop_last());
        let id = ids.last();
        let ch = chars.last();
        let runs = group_runs(ids, chars);
        if prev.len() > 0 && prev.last().0 == id {
            let last = prev.last();
            assert(runs.drop_last() =~= prev.drop_last());
            assert(runs_text(prev) == runs_text(prev.drop_last()) + last.1);
            assert(runs_text(runs) =~= runs_text(prev) + seq![ch]);
            assert(runs_ids(prev) == runs_ids(prev.drop_last()) + Seq::new(last.1.len(), |_i: int| last.0));
            assert(runs_ids(runs) =~= runs_ids(prev) + seq![id]);
        } else {
            assert(runs.drop_last() =~= prev);
            assert(runs_text(runs) =~= runs_text(prev) + seq![ch]);
            assert(runs_ids(runs) =~= runs_ids(prev) + seq![id]);
        }
        assert(chars =~= chars.drop_last() + seq![ch]);
        assert(ids =~= ids.drop_last() + seq![id]);
    }
}

/// `palette_from` keeps what it starts with as a prefix, adds at most one
/// entry per element, holds every element, and adds no duplicate.
pub proof fn lemma_palette_from(p: Seq<AttrDto>, ds: Seq<AttrDto>)
    ensures
        palette_from(p, ds).len() >= p.len(),
        palette_from(p, ds).len() <= p.len() + ds.len(),
        palette_from(p, ds).take(p.len() as int) =~= p,
        forall|i: int| 0 <= i < p.len() ==> palette_from(p, ds)[i] == p[i],
        forall|i: int| 0 <= i < ds.len() ==> palette_from(p, ds).contains(#[trigger] ds[i]),
        p.no_duplicates() ==> palette_from(p, ds).no_duplicates(),
    decreases ds.len(),
{
    if ds.len() > 0 {
        lemma_palette_from(p, ds.drop_last());
        let prev = palette_from(p, ds.drop_last());
        let d = ds.last();
        if !prev.contains(d) {
            assert(prev.push(d)[prev.len() as int] == d);
        }
        assert forall|i: int| 0 <= i < ds.len() implies palette_from(p, ds).contains(
            #[trigger] ds[i],
        ) by {
            if i < ds.len() - 1 {
                assert(ds.drop_last()[i] == ds[i]);
                let j = choose|j: int| 0 <= j < prev.len() && prev[j] == ds[i];
                assert(palette_from(p, ds)[j] == ds[i]);
            } else {
                if prev.contains(d) {
                } else {
                    assert(palette_from(p, ds)[prev.len() as int] == d);
                }
            }
        }
    }
}

/// Extending a palette by `a` then `b` is extending it by `a + b`.
pub proof fn lemma_palette_from_append(p: Seq<AttrDto>, a: Seq<AttrDto>, b: Seq<AttrDto>)
    ensures
        palette_from(palette_from(p, a), b) == palette_from(p, a + b),
    decreases b.len(),
{
    if b.len() > 0 {
        lemma_palette_from_append(p, a, b.drop_last());
        assert((a + b).drop_last() =~= a + b.drop_last());
    } else {
        assert(a + b =~= a);
    }
}

/// In a palette without duplicates, an entry keeps its index as the palette grows.
pub proof fn lemma_index_stable(p: Seq<AttrDto>, q: Seq<AttrDto>, x: AttrDto)
    requires
        p.len() <= q.len(),
        forall|i: int| 0 <= i < p.len() ==> q[i] == p[i],
        q.no_duplicates(),
        p.contains(x),
    ensures
        q.index_of(x) == p.index_of(x),
        0 <= p.index_of(x) < p.len(),
        p[p.index_of(x)] == x,
{
    let j = p.index_of(x);
    assert(q[j] == x);
    let i = q.index_of(x);
    assert(q[i] == x);
}

/// Row ids do not change when the palette grows.
pub proof fn lemma_row_ids_stable(row: Seq<Cell>, p: Seq<AttrDto>, q: Seq<AttrDto>)
    requires
        p.len() <= q.len(),
        forall|i: int| 0 <= i < p.len() ==> q[i] == p[i],
        q.no_duplicates(),
        forall|j: int| 0 <= j < row.len() ==> p.contains(attr_dto((#[trigger] row[j]).attrs)),
    ensures
        row_ids(row, p) == row_ids(row, q),
{
    assert forall|j: int| 0 <= j < row.len() implies row_ids(row, p)[j] == row_ids(row, q)[j] by {
        lemma_index_stable(p, q, attr_dto(row[j].attrs));
    }
    assert(row_ids(row, p) =~= row_ids(row, q));
}

/// Whether two color entries are equal.
fn same_color(a: &ColorDto, b: &ColorDto) -> (r: bool)
    ensures
        r == (*a == *b),
{
    match (a, b) {
        (ColorDto::Default, ColorDto::Default) => true,
        (ColorDto::Indexed(x), ColorDto::Indexed(y)) => *x == *y,
        (ColorDto::Rgb(x), ColorDto::Rgb(y)) => {
            let same = x[0] == y[0] && x[1] == y[1] && x[2] == y[2];
            proof {
                if same {
                    assert(*x =~= *y);
                }
            }
            same
        },
        _ => false,
    }
}

/// Whether two attribute entries are equal.
fn same_attr(a: &AttrDto, b: &AttrDto) -> (r: bool)
    ensures
        r == (*a == *b),
{
    same_color(&a.fg, &b.fg) && same_color(&a.bg, &b.bg) && a.bold == b.bold && a.italic
        == b.italic && a.underline == b.underline && a.reverse == b.reverse
}

fn color_entry(c: Option<Color>) -> (d: ColorDto)
    ensures
        d == opt_color_dto(c),
{
    match c {
        Some(c) => ColorDto::from(c),
        None => ColorDto::Default,
    }
}

fn attr_entry(a: &Attrs) -> (d: AttrDto)
    ensures
        d == attr_dto(*a),
{
    AttrDto {
        fg: color_entry(a.fg),
        bg: color_entry(a.bg),
        bold: a.bold,
        italic: a.italic,
        underline: a.underline,
        reverse: a.reverse,
    }
}

/// The palette index of `attrs`, appending a new entry when it is missing.
fn attr_id(cache: &mut Vec<AttrDto>, attrs: &Attrs) -> (id: u32)
    requires
        old(cache)@.no_duplicates(),
        old(cache)@.len() < u32::MAX,
    ensures
        final(cache)@ == palette_add(old(cache)@, attr_dto(*attrs)),
        final(cache)@.no_duplicates(),
        id == final(cache)@.index_of(attr_dto(*attrs)),
        id < final(cache)@.len(),
{
    let dto = attr_entry(attrs);
    let mut i: usize = 0;
    while i < cache.len()
        invariant
            i <= cache@.len(),
            cache@ == old(cache)@,
            cache@.no_duplicates(),
            cache@.len() < u32::MAX,
            dto == attr_dto(*attrs),
            forall|j: int| 0 <= j < i ==> cache@[j] != dto,
        decreases cache.len() - i,
    {
        if same_attr(&cache[i], &dto) {
            proof {
                assert(cache@[i as int] == dto);
                assert(cache@.contains(dto));
                lemma_index_stable(cache@, cache@, dto);
            }
            return i as u32;
        }
        i = i + 1;
    }
    let ghost before = cache@;
    cache.push(dto);
    proof {
        assert(!before.contains(dto));
        assert(cache@[before.len() as int] == dto);
        lemma_index_stable(cache@, cache@, dto);
    }
    (cache.len() - 1) as u32
}

impl SnapshotDto {
    /// The snapshot of a screen's visible grid.
    pub fn from_screen(screen: &Screen) -> (s: Self)
        ensures
            is_snapshot_of(s, screen@),
    {
        proof {
            use_type_invariant(screen);
        }
        let ghost v = screen@;
        let ghost g = v.grid;
        let ghost start = seq![default_attr_dto()];
        let mut attrs_cache: Vec<AttrDto> = Vec::new();
        attrs_cache.push(AttrDto::default());
        proof {
            assert(attrs_cache@ =~= start);
            assert(g.take(0) =~= Seq::<Seq<Cell>>::empty());
            assert(grid_dtos(g.take(0)) =~= Seq::<AttrDto>::empty());
        }
        let rows = screen.rows();
        let cols = screen.cols();
        let mut lines: Vec<RowDto> = Vec::new();
        let mut row: u16 = 0;
        while row < rows
            invariant
                v == screen@,
                v.wf(),
                g == v.grid,
                rows == v.rows,
                cols == v.cols,
                start == seq![default_attr_dto()],
                row <= rows,
                attrs_cache@ == palette_from(start, grid_dtos(g.take(row as int))),
                attrs_cache@.no_duplicates(),
                attrs_cache@.len() <= 1 + row * cols,
                lines@.len() == row,
                forall|r: int|
                    0 <= r < row ==> runs_view(#[trigger] lines@[r].runs@) == row_runs(
                        g[r],
                        attrs_cache@,
                    ),
                forall|r: int, j: int|
                    0 <= r < row && 0 <= j < cols ==> attrs_cache@.contains(
                        attr_dto((#[trigger] g[r][j]).attrs),
                    ),
            decreases rows - row,
        {
            let ghost p_start = attrs_cache@;
            let ghost line = g[row as int];
            let mut runs: Vec<RunDto> = Vec::new();
            let mut current: Option<u32> = None;
            let mut text: Vec<char> = Vec::new();
            let mut col: u16 = 0;
            proof {
                lemma_palette_from(start, grid_dtos(g.take(row as int)));
                assert(line.take(0) =~= Seq::<Cell>::empty());
                assert(row_dtos(line.take(0)) =~= Seq::<AttrDto>::empty());
                assert(row * cols + cols <= rows * cols) by (nonlinear_arith)
                    requires
                        row < rows,
                ;
            }
            while col < cols
                invariant
                    v == screen@,
                    v.wf(),
                    g == v.grid,
                    rows == v.rows,
                    cols == v.cols,
                    row < rows,
                    line == g[row as int],
                    line.len() == cols,
                    row * cols + cols <= rows * cols,
                    rows * cols <= 4194304,
                    start == seq![default_attr_dto()],
                    p_start == palette_from(start, grid_dtos(g.take(row as int))),
                    p_start.len() >= 1,
                    p_start.no_duplicates(),
                    col <= cols,
                    attrs_cache@ == palette_from(p_start, row_dtos(line.take(col as int))),
                    attrs_cache@.no_duplicates(),
                    attrs_cache@.len() <= 1 + row * cols + col,
                    forall|j: int|
                        0 <= j < col ==> attrs_cache@.contains(attr_dto((#[trigger] line[j]).attrs)),
                    current is None <==> col == 0,
                    current is None ==> runs@.len() == 0 && text@.len() == 0,
                    current matches Some(a) ==> group_runs(
                        row_ids(line.take(col as int), attrs_cache@),
                        row_chars(line.take(col as int)),
                    ) == runs_view(runs@).push((a, text@)),
                decreases cols - col,
            {
                let cell = match screen.cell(row, col) {
                    Some(c) => *c,
                    None => Cell { ch: ' ', attrs: Attrs::default() },
                };
                let ghost p_before = attrs_cache@;
                let ghost dto = attr_dto(cell.attrs);
                proof {
                    assert(cell == line[col as int]);
                    lemma_palette_from(p_start, row_dtos(line.take(col as int)));
                }
                let id = attr_id(&mut attrs_cache, &cell.attrs);
                let ghost p_after = attrs_cache@;
                proof {
                    assert(row_dtos(line.take(col + 1)).drop_last() =~= row_dtos(line.take(col as int)));
                    assert(row_dtos(line.take(col + 1)).last() == dto);
                    assert(p_after == palette_from(p_start, row_dtos(line.take(col + 1))));
                    if p_before.contains(dto) {
                    } else {
                        assert(p_after[p_before.len() as int] == dto);
                    }
                    assert forall|i: int| 0 <= i < p_before.len() implies p_after[i] == p_before[i] by {}
                    assert forall|j: int| 0 <= j < col implies p_before.contains(
                        attr_dto((#[trigger] line.take(col as int)[j]).attrs),
                    ) by {
                        assert(line.take(col as int)[j] == line[j]);
                    }
                    lemma_row_ids_stable(line.take(col as int), p_before, p_after);
                    assert(line.take(col + 1).drop_last() =~= line.take(col as int));
                    assert(row_ids(line.take(col + 1), p_after).drop_last() =~= row_ids(
                        line.take(col as int),
                        p_after,
                    ));
                    assert(row_ids(line.take(col + 1), p_after).last() == id);
                    assert(row_chars(line.take(col + 1)).drop_last() =~= row_chars(
                        line.take(col as int),
                    ));
                    assert(row_chars(line.take(col + 1)).last() == cell.ch);
                    assert forall|j: int| 0 <= j < col + 1 implies p_after.contains(
                        attr_dto((#[trigger] line[j]).attrs),
                    ) by {
                        if j < col {
                            let k = choose|k: int| 0 <= k < p_before.len() && p_before[k] == attr_dto(line[j].attrs);
                            assert(p_after[k] == attr_dto(line[j].attrs));
                        }
                    }
                }
                let same = match current {
                    Some(a) => a == id,
                    None => false,
                };
                let ghost runs_before = runs@;
                let ghost text_before = text@;
                if !same {
                    match current {
                        Some(a) => {
                            let finished = string_from_chars(&text);
                            runs.push(RunDto { attr: a, text: finished });
                            text = Vec::new();
                            proof {
                                assert(runs_view(runs@) =~= runs_view(runs_before).push((a, text_before)));
                            }
                        },
                        None => {},
                    }
                    current = Some(id);
                }
                text.push(cell.ch);
                proof {
                    let ids = row_ids(line.take(col + 1), p_after);
                    let chars = row_chars(line.take(col + 1));
                    let prev = group_runs(ids.drop_last(), chars.drop_last());
                    if col == 0 {
                        assert(prev =~= Seq::<(u32, Seq<char>)>::empty());
                        assert(runs_view(runs@) =~= Seq::<(u32, Seq<char>)>::empty());
                        assert(text@ =~= seq![cell.ch]);
                    } else if same {
                        assert(runs@ == runs_before);
                        assert(text@ =~= text_before.push(cell.ch));
                        assert(prev.drop_last() =~= runs_view(runs_before));
                    } else {
                        assert(text@ =~= seq![cell.ch]);
                    }
                }
                col = col + 1;
            }
            let ghost runs_before = runs@;
            let ghost text_before = text@;
            match current {
                Some(a) => {
                    let finished = string_from_chars(&text);
                    runs.push(RunDto { attr: a, text: finished });
                    proof {
                        assert(runs_view(runs@) =~= runs_view(runs_before).push((a, text_before)));
                    }
                },
                None => {},
            }
            proof {
                assert(line.take(cols as int) =~= line);
                let p_end = attrs_cache@;
                lemma_palette_from(p_start, row_dtos(line));
                assert(g.take(row + 1).drop_last() =~= g.take(row as int));
                assert(grid_dtos(g.take(row + 1)) =~= grid_dtos(g.take(row as int)) + row_dtos(line));
                lemma_palette_from_append(start, grid_dtos(g.take(row as int)), row_dtos(line));
                assert forall|r: int| 0 <= r < row implies runs_view(#[trigger] lines@[r].runs@)
                    == row_runs(g[r], p_end) by {
                    assert forall|j: int| 0 <= j < g[r].len() implies p_start.contains(
                        attr_dto((#[trigger] g[r][j]).attrs),
                    ) by {}
                    lemma_row_ids_stable(g[r], p_start, p_end);
                }
                assert forall|r: int, j: int| 0 <= r < row + 1 && 0 <= j < cols implies p_end.contains(
                    attr_dto((#[trigger] g[r][j]).attrs),
                ) by {
                    if r < row {
                        let k = choose|k: int| 0 <= k < p_start.len() && p_start[k] == attr_dto(g[r][j].attrs);
                        assert(p_end[k] == attr_dto(g[r][j].attrs));
                    }
                }
            }
            lines.push(RowDto { runs });
            proof {
                assert((row + 1) * cols == row * cols + cols) by (nonlinear_arith);
            }
            row = row + 1;
        }
        proof {
            assert(g.take(rows as int) =~= g);
        }
        let (cursor_col, cursor_row) = screen.visible_cursor();
        SnapshotDto {
            cols,
            rows,
            cursor_col,
            cursor_row,
            cursor_visible: true,
            lines,
            attrs: attrs_cache,
        }
    }
}

} // verus!
