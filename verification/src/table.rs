//! Vertical scrolling of a table of rows of varying height: the scroll state,
//! bringing the selected row into view, and which part of each row a viewport shows.
use vstd::prelude::*;
use crate::reflow::{wrapped_line_count, wrapped_lines};
use crate::text::{utf16_width, views_of};

verus! {

/// Direction of a movement: `Forward` is down or right, `Backward` up or left.
#[derive(Debug, Clone, Copy, PartialEq, Eq, Structural)]
pub enum Direction {
    Forward,
    Backward,
}

/// Sum of the first `n` row heights (all of them when `n` exceeds their number).
pub open spec fn height_sum(heights: Seq<u16>, n: int) -> int
    decreases n,
{
    if n <= 0 || heights.len() == 0 {
        0
    } else if n > heights.len() {
        height_sum(heights, heights.len() as int)
    } else {
        height_sum(heights, n - 1) + heights[n - 1]
    }
}

/// `a - b`, or zero when `b` exceeds `a`.
pub open spec fn sat_sub(a: int, b: int) -> int {
    if a > b { a - b } else { 0 }
}

/// The scroll that brings the selected row into view: first far enough that its
/// bottom is visible, then back far enough that its top is.
pub open spec fn scroll_for_selection(
    heights: Seq<u16>,
    selected: Option<usize>,
    vertical_scroll: int,
    viewport_height: int,
) -> int {
    match selected {
        None => vertical_scroll,
        Some(s) => {
            let top = height_sum(heights, s as int);
            let bottom = height_sum(heights, s + 1);
            let first = if bottom > vertical_scroll + viewport_height {
                sat_sub(bottom, viewport_height)
            } else {
                vertical_scroll
            };
            if top < first {
                top
            } else {
                first
            }
        },
    }
}

/// The selection after moving `amount` rows in `direction` among `item_count` items:
/// forward it stops at the last item, backward at the first; with nothing selected,
/// the first item is selected.
pub open spec fn moved_selection(
    selected: Option<usize>,
    amount: u16,
    direction: Direction,
    item_count: u32,
) -> Option<usize> {
    match selected {
        None => Some(0usize),
        Some(s) => match direction {
            Direction::Forward => {
                let target = if s + amount > usize::MAX { usize::MAX as int } else { s + amount };
                Some((if target < item_count - 1 { target } else { item_count - 1 }) as usize)
            },
            Direction::Backward => Some(sat_sub(s as int, amount as int) as usize),
        },
    }
}

/// Scroll and selection state of a table.
#[derive(Debug)]
pub struct TableState {
    pub scroll_offset: u16,
    pub vertical_scroll: u16,
    pub scroll_max: u16,
    pub row_heights: Vec<u16>,
    pub sticky_scroll: bool,
    pub viewport_height: u16,
    pub selected: Option<usize>,
}

proof fn lemma_height_sum_monotonic(heights: Seq<u16>, m: int, n: int)
    requires
        m <= n,
    ensures
        0 <= height_sum(heights, m) <= height_sum(heights, n),
    decreases n, n - m,
{
    if n <= 0 || heights.len() == 0 {
    } else if n > heights.len() {
        if m > heights.len() {
            lemma_height_sum_monotonic(heights, heights.len() as int, heights.len() as int);
        } else {
            lemma_height_sum_monotonic(heights, m, heights.len() as int);
        }
    } else if m == n {
        lemma_height_sum_monotonic(heights, n - 1, n - 1);
    } else {
        lemma_height_sum_monotonic(heights, m, n - 1);
    }
}

/// No prefix sums to more than all the heights.
proof fn lemma_height_sum_le_total(heights: Seq<u16>, m: int)
    ensures
        0 <= height_sum(heights, m) <= height_sum(heights, heights.len() as int),
{
    if m <= heights.len() {
        lemma_height_sum_monotonic(heights, m, heights.len() as int);
    } else if heights.len() > 0 {
        lemma_height_sum_monotonic(heights, heights.len() as int, heights.len() as int);
    }
}

/// Sum of the first `n` heights.
fn sum_heights(heights: &Vec<u16>, n: usize) -> (r: u16)
    requires
        height_sum(heights@, n as int) <= u16::MAX,
    ensures
        r == height_sum(heights@, n as int),
{
    let stop = if n < heights.len() { n } else { heights.len() };
    let mut total: u16 = 0;
    let mut i: usize = 0;
    while i < stop
        invariant
            i <= stop,
            stop <= heights.len(),
            stop == n || stop == heights.len(),
            height_sum(heights@, n as int) <= u16::MAX,
            height_sum(heights@, stop as int) == height_sum(heights@, n as int),
            total == height_sum(heights@, i as int),
        decreases stop - i,
    {
        proof {
            lemma_height_sum_monotonic(heights@, i + 1, stop as int);
            lemma_height_sum_le_total(heights@, n as int);
        }
        total = total + heights[i];
        i = i + 1;
    }
    total
}

/// Whether `new` is `old` scrolled by `amount` lines in `direction`: the scroll
/// moves and stays within `0..=scroll_max`; scrolling back stops following the
/// end, reaching the end starts following it; nothing else changes.
pub open spec fn scrolled_by(old: TableState, new: TableState, amount: u16, direction: Direction) -> bool {
    let moved = match direction {
        Direction::Forward => old.vertical_scroll + amount,
        Direction::Backward => sat_sub(old.vertical_scroll as int, amount as int),
    };
    &&& new.vertical_scroll == (if moved < old.scroll_max { moved } else { old.scroll_max as int })
    &&& new.sticky_scroll == (if new.vertical_scroll == old.scroll_max {
        true
    } else if direction == Direction::Backward {
        false
    } else {
        old.sticky_scroll
    })
    &&& new.scroll_max == old.scroll_max
    &&& new.row_heights == old.row_heights
    &&& new.viewport_height == old.viewport_height
    &&& new.scroll_offset == old.scroll_offset
    &&& new.selected == old.selected
}

impl TableState {
    /// The furthest the table can scroll: the total height of the rows less the
    /// viewport height left after the scroll offset.
    pub open spec fn spec_scroll_max(self) -> int {
        sat_sub(
            height_sum(self.row_heights@, self.row_heights@.len() as int),
            sat_sub(self.viewport_height as int, self.scroll_offset as int),
        )
    }

    /// Recomputes the maximal scroll; a sticky table follows its end.
    pub fn update_sticky_scroll(&mut self)
        requires
            height_sum(old(self).row_heights@, old(self).row_heights@.len() as int) <= u16::MAX,
        ensures
            final(self).scroll_max == old(self).spec_scroll_max(),
            final(self).vertical_scroll == (if old(self).sticky_scroll {
                final(self).scroll_max
            } else {
                old(self).vertical_scroll
            }),
            final(self).row_heights == old(self).row_heights,
            final(self).sticky_scroll == old(self).sticky_scroll,
            final(self).viewport_height == old(self).viewport_height,
            final(self).scroll_offset == old(self).scroll_offset,
            final(self).selected == old(self).selected,
    {
        let total = sum_heights(&self.row_heights, self.row_heights.len());
        self.scroll_max = total.saturating_sub(
            self.viewport_height.saturating_sub(self.scroll_offset),
        );
        if self.sticky_scroll {
            self.vertical_scroll = self.scroll_max;
        }
    }

    /// Scrolls to the top and stops following the end.
    pub fn scroll_top(&mut self)
        ensures
            final(self).vertical_scroll == 0,
            !final(self).sticky_scroll,
            final(self).scroll_max == old(self).scroll_max,
            final(self).row_heights == old(self).row_heights,
            final(self).viewport_height == old(self).viewport_height,
            final(self).scroll_offset == old(self).scroll_offset,
            final(self).selected == old(self).selected,
    {
        self.sticky_scroll = false;
        self.vertical_scroll = 0;
    }

    /// Scrolls by `amount` lines, staying within `0..=scroll_max`. Scrolling back
    /// stops following the end; reaching the end starts following it.
    pub fn scroll_by(&mut self, amount: u16, direction: Direction)
        ensures
            scrolled_by(*old(self), *final(self), amount, direction),
            final(self).vertical_scroll == (match direction {
                Direction::Forward => if old(self).vertical_scroll + amount < old(
                    self,
                ).scroll_max {
                    old(self).vertical_scroll + amount
                } else {
                    old(self).scroll_max as int
                },
                Direction::Backward => if sat_sub(old(self).vertical_scroll as int, amount as int)
                    < old(self).scroll_max {
                    sat_sub(old(self).vertical_scroll as int, amount as int)
                } else {
                    old(self).scroll_max as int
                },
            }),
            final(self).vertical_scroll <= final(self).scroll_max,
            final(self).sticky_scroll == (if final(self).vertical_scroll == old(self).scroll_max {
                true
            } else if direction == Direction::Backward {
                false
            } else {
                old(self).sticky_scroll
            }),
            final(self).scroll_max == old(self).scroll_max,
            final(self).row_heights == old(self).row_heights,
            final(self).viewport_height == old(self).viewport_height,
            final(self).scroll_offset == old(self).scroll_offset,
            final(self).selected == old(self).selected,
    {
        match direction {
            Direction::Forward => {
                let moved = self.vertical_scroll.saturating_add(amount);
                self.vertical_scroll = if moved < self.scroll_max {
                    moved
                } else {
                    self.scroll_max
                };
            },
            Direction::Backward => {
                self.sticky_scroll = false;
                let moved = self.vertical_scroll.saturating_sub(amount);
                self.vertical_scroll = if moved < self.scroll_max {
                    moved
                } else {
                    self.scroll_max
                };
            },
        }
        if self.vertical_scroll == self.scroll_max {
            self.sticky_scroll = true;
        }
    }

    /// Scrolls so that the selected row, if any, is in view: first so that its
    /// bottom is visible, then so that its top is.
    pub fn scroll_to_selection(&mut self)
        requires
            old(self).selected matches Some(s) ==> {
                &&& s < usize::MAX
                &&& height_sum(old(self).row_heights@, s + 1) <= u16::MAX
                &&& old(self).vertical_scroll + old(self).viewport_height <= u16::MAX
            },
        ensures
            final(self).vertical_scroll == scroll_for_selection(
                old(self).row_heights@,
                old(self).selected,
                old(self).vertical_scroll as int,
                old(self).viewport_height as int,
            ),
            old(self).selected matches Some(s) ==> {
                let top = height_sum(old(self).row_heights@, s as int);
                let bottom = height_sum(old(self).row_heights@, s + 1);
                &&& final(self).vertical_scroll <= top
                &&& (bottom <= final(self).vertical_scroll + final(self).viewport_height
                    || final(self).vertical_scroll == top)
            },
            final(self).scroll_max == old(self).scroll_max,
            final(self).sticky_scroll == old(self).sticky_scroll,
            final(self).row_heights == old(self).row_heights,
            final(self).viewport_height == old(self).viewport_height,
            final(self).scroll_offset == old(self).scroll_offset,
            final(self).selected == old(self).selected,
    {
        if let Some(selected) = self.selected {
            proof {
                lemma_height_sum_monotonic(self.row_heights@, selected as int, selected + 1);
            }
            let selection_top: u16 = sum_heights(&self.row_heights, selected);
            let selection_bottom: u16 = sum_heights(&self.row_heights, selected + 1);
            if selection_bottom > self.vertical_scroll + self.viewport_height {
                self.vertical_scroll = selection_bottom.saturating_sub(self.viewport_height);
            }
            if selection_top < self.vertical_scroll {
                self.vertical_scroll = selection_top
            }
        }
    }

    /// Moves the selection by `amount` rows among `item_count` items and scrolls it
    /// into view; with no items nothing changes.
    pub fn move_by(&mut self, amount: u16, direction: Direction, item_count: u32)
        requires
            item_count > 0 ==> old(self).vertical_scroll + old(self).viewport_height <= u16::MAX,
            item_count > 0 ==> (moved_selection(old(self).selected, amount, direction, item_count)
                matches Some(t) ==> t < usize::MAX && height_sum(old(self).row_heights@, t + 1)
                <= u16::MAX),
        ensures
            item_count == 0 ==> *final(self) == *old(self),
            item_count > 0 ==> final(self).selected == moved_selection(
                old(self).selected,
                amount,
                direction,
                item_count,
            ),
            item_count > 0 ==> final(self).vertical_scroll == scroll_for_selection(
                old(self).row_heights@,
                final(self).selected,
                old(self).vertical_scroll as int,
                old(self).viewport_height as int,
            ),
            item_count > 0 && direction == Direction::Forward ==> (final(self).selected matches Some(
                s,
            ) && s < item_count),
            final(self).scroll_max == old(self).scroll_max,
            final(self).sticky_scroll == old(self).sticky_scroll,
            final(self).row_heights == old(self).row_heights,
            final(self).viewport_height == old(self).viewport_height,
            final(self).scroll_offset == old(self).scroll_offset,
    {
        if item_count == 0 {
            return;
        }
        let last = (item_count - 1) as usize;
        self.selected = match self.selected {
            Some(selected) => match direction {
                Direction::Forward => {
                    let target = selected.saturating_add(amount as usize);
                    Some(if target < last { target } else { last })
                },
                Direction::Backward => Some(selected.saturating_sub(amount as usize)),
            },
            None => Some(0usize),
        };
        self.scroll_to_selection();
    }

    /// The selected row.
    pub fn selected(&self) -> (r: Option<usize>)
        ensures
            r == self.selected,
    {
        self.selected
    }

    /// Selects a row, or clears the selection; clearing it resets the scroll offset.
    pub fn select(&mut self, index: Option<usize>)
        ensures
            final(self).selected == index,
            final(self).scroll_offset == (if index is None {
                0
            } else {
                old(self).scroll_offset
            }),
            final(self).vertical_scroll == old(self).vertical_scroll,
            final(self).scroll_max == old(self).scroll_max,
            final(self).sticky_scroll == old(self).sticky_scroll,
            final(self).row_heights == old(self).row_heights,
            final(self).viewport_height == old(self).viewport_height,
    {
        self.selected = index;
        if index.is_none() {
            self.scroll_offset = 0;
        }
    }
}

/// Where row `i` starts: the heights of the rows before it, each followed by the
/// row spacing.
pub open spec fn row_start(heights: Seq<u16>, spacing: u16, i: int) -> int
    decreases i,
{
    if i <= 0 {
        0
    } else {
        row_start(heights, spacing, i - 1) + heights[i - 1] + spacing
    }
}

/// The part of row `i` (starting at line `start`, `height` lines high) that a
/// viewport of `max_height` lines scrolled to `scroll` shows: the row index, the
/// viewport line where it is drawn, the lines of the row skipped above the viewport
/// and the lines shown, the viewport holding lines `scroll` up to and including
/// `scroll + max_height - 1`; `None` when no line of the row is in the viewport.
pub open spec fn row_extent(i: int, start: int, height: int, scroll: int, max_height: int) -> Option<
    (usize, u16, u16, u16),
> {
    let end = sat_sub(start + height, 1);
    let table_end = sat_sub(scroll + max_height, 1);
    let skip = if start < scroll { scroll - start } else { 0 };
    let y = sat_sub(sat_sub(start, scroll), skip);
    let first_shown = if start < scroll { scroll } else { start };
    let past_shown = if end + 1 < scroll + max_height { end + 1 } else { scroll + max_height };
    let visible = sat_sub(past_shown, first_shown);
    if end < scroll || start > table_end {
        None
    } else {
        Some((i as usize, y as u16, skip as u16, visible as u16))
    }
}

/// A cell of a row: its text, that text cut into words for wrapping, its number
/// of lines, and how it is laid out: unwrapped (`None`), or wrapped to its
/// column's width, dropping leading whitespace of each line or not.
#[derive(Debug)]
pub struct Cell {
    pub content: String,
    pub words: Vec<String>,
    pub line_count: usize,
    pub wrap: Option<bool>,
}

/// Whether every word of the cell is at most `u16::MAX` wide.
pub open spec fn cell_words_fit(c: Cell) -> bool {
    forall|k: int| 0 <= k < c.words@.len() ==> utf16_width(#[trigger] c.words@[k]@) <= u16::MAX
}

/// The height of a cell in a column `width` wide, cut to 16 bits: its number of
/// lines, or, when it wraps, the number of lines that wrapping its words gives.
pub open spec fn cell_height(c: Cell, width: u16) -> u16 {
    match c.wrap {
        None => (c.line_count % 0x10000) as u16,
        Some(trim) => (wrapped_lines(views_of(c.words@), 0, width as nat, trim) % 0x10000) as u16,
    }
}

/// The heights of the cells in their columns, for the cells that have a column.
pub open spec fn cell_heights(cells: Seq<Cell>, widths: Seq<u16>) -> Seq<u16> {
    let n = if cells.len() < widths.len() { cells.len() } else { widths.len() };
    Seq::new(n, |i: int| cell_height(cells[i], widths[i]))
}

impl Cell {
    /// The height of the cell in a column `width` wide (see [`cell_height`]).
    pub fn calculate_height(&self, width: u16) -> (r: u16)
        requires
            cell_words_fit(*self),
        ensures
            r == cell_height(*self, width),
    {
        match self.wrap {
            None => (self.line_count % 0x10000) as u16,
            Some(trim) => (wrapped_line_count(&self.words, width, trim) % 0x10000) as u16,
        }
    }
}

/// A row of a table: its cells, its height and the margin below it.
#[derive(Debug)]
pub struct Row {
    pub cells: Vec<Cell>,
    pub height: u16,
    pub bottom_margin: u16,
}

impl Row {
    /// A row of one line, without margin.
    pub fn new(cells: Vec<Cell>) -> (r: Row)
        ensures
            r.cells == cells,
            r.height == 1,
            r.bottom_margin == 0,
    {
        Row { cells, height: 1, bottom_margin: 0 }
    }

    /// The same row with the given height.
    pub fn height(self, height: u16) -> (r: Row)
        ensures
            r.cells == self.cells,
            r.height == height,
            r.bottom_margin == self.bottom_margin,
    {
        Row { height, ..self }
    }

    /// The same row with the given bottom margin.
    pub fn bottom_margin(self, margin: u16) -> (r: Row)
        ensures
            r.cells == self.cells,
            r.height == self.height,
            r.bottom_margin == margin,
    {
        Row { bottom_margin: margin, ..self }
    }

    /// Height and bottom margin together, saturating at the largest `u16`.
    pub fn total_height(&self) -> (r: u16)
        ensures
            r == (if self.height + self.bottom_margin > u16::MAX {
                u16::MAX as int
            } else {
                self.height + self.bottom_margin
            }),
    {
        self.height.saturating_add(self.bottom_margin)
    }

    /// Grows the row to its tallest cell, each cell wrapped to its column's width
    /// (`column_widths[i]` for cell `i`); cells without a column are not looked at,
    /// and the row never shrinks.
    pub fn update_wrapped_heights(&mut self, column_widths: &Vec<u16>)
        requires
            forall|k: int| 0 <= k < old(self).cells@.len() ==> cell_words_fit(#[trigger] old(self).cells@[k]),
        ensures
            final(self).height == tallest(
                cell_heights(old(self).cells@, column_widths@),
                cell_heights(old(self).cells@, column_widths@).len() as int,
                old(self).height,
            ),
            final(self).cells == old(self).cells,
            final(self).bottom_margin == old(self).bottom_margin,
    {
        let ghost hs = cell_heights(self.cells@, column_widths@);
        let n = if self.cells.len() < column_widths.len() { self.cells.len() } else { column_widths.len() };
        let mut i: usize = 0;
        while i < n
            invariant
                i <= n,
                n == hs.len(),
                n <= column_widths@.len(),
                n <= self.cells@.len(),
                hs == cell_heights(old(self).cells@, column_widths@),
                self.height == tallest(hs, i as int, old(self).height),
                self.cells == old(self).cells,
                self.bottom_margin == old(self).bottom_margin,
                forall|k: int| 0 <= k < self.cells@.len() ==> cell_words_fit(#[trigger] self.cells@[k]),
            decreases n - i,
        {
            let h = self.cells[i].calculate_height(column_widths[i]);
            assert(h == hs[i as int]);
            if h > self.height {
                self.height = h;
            }
            i = i + 1;
        }
    }
}

/// The largest of `start` and the first `n` heights.
pub open spec fn tallest(heights: Seq<u16>, n: int, start: u16) -> u16
    decreases n,
{
    if n <= 0 {
        start
    } else {
        let rest = tallest(heights, n - 1, start);
        if heights[n - 1] > rest { heights[n - 1] } else { rest }
    }
}

/// How the width of a column is constrained.
#[derive(Debug, Clone, Copy, PartialEq, Eq, Structural)]
pub enum Constraint {
    Percentage(u16),
    Ratio(u32, u32),
    Length(u16),
    Max(u16),
    Min(u16),
}

/// Whether a width constraint is acceptable: a percentage is at most 100.
pub open spec fn valid_width(c: Constraint) -> bool {
    match c {
        Constraint::Percentage(p) => p <= 100,
        _ => true,
    }
}

/// The constraints with a spacing between each two of them.
pub open spec fn spaced(widths: Seq<Constraint>, spacing: u16) -> Seq<Constraint>
    decreases widths.len(),
{
    if widths.len() == 0 {
        Seq::empty()
    } else if widths.len() == 1 {
        widths
    } else {
        spaced(widths.drop_last(), spacing) + seq![Constraint::Length(spacing), widths.last()]
    }
}

/// The constraints columns are laid out with: a column for the selection marker
/// of the given width, if any, then the column constraints, spaced.
pub open spec fn column_constraints_of(widths: Seq<Constraint>, selection_width: Option<u16>, spacing: u16) -> Seq<
    Constraint,
> {
    (match selection_width {
        Some(w) => seq![Constraint::Length(w)],
        None => Seq::<Constraint>::empty(),
    }) + spaced(widths, spacing)
}

/// Every other element of `s`, from the first on.
pub open spec fn every_other<A>(s: Seq<A>) -> Seq<A> {
    Seq::new(((s.len() + 1) / 2) as nat, |k: int| s[2 * k])
}

/// The column areas among the laid-out chunks: the marker's chunk is dropped
/// when there is one, and of the rest every other chunk is a column (the others
/// are the spacings).
pub fn column_chunks<A: Copy>(chunks: Vec<A>, has_selection: bool) -> (r: Vec<A>)
    requires
        has_selection ==> chunks.len() > 0,
    ensures
        r@ == every_other(if has_selection { chunks@.drop_first() } else { chunks@ }),
{
    let mut rest = chunks;
    if has_selection {
        rest.remove(0);
    }
    let ghost s = rest@;
    let n = rest.len() / 2 + rest.len() % 2;
    assert(n == (s.len() + 1) / 2);
    let mut out: Vec<A> = Vec::new();
    let mut k: usize = 0;
    while k < n
        invariant
            s == rest@,
            n == (s.len() + 1) / 2,
            k <= n,
            out@.len() == k,
            forall|j: int| 0 <= j < k ==> out@[j] == s[2 * j],
        decreases n - k,
    {
        assert(2 * k < s.len()) by (nonlinear_arith)
            requires
                k < n,
                n == (s.len() + 1) / 2,
        ;
        assert(s.len() == rest.len());
        let idx: usize = 2 * k;
        out.push(rest[idx]);
        k = k + 1;
    }
    assert(out@ =~= every_other(s));
    out
}

/// A table: rows, an optional header row, column widths and spacings.
#[derive(Debug)]
pub struct Table {
    pub rows: Vec<Row>,
    pub header: Option<Row>,
    pub widths: Vec<Constraint>,
    pub row_spacing: u16,
    pub column_spacing: u16,
}

impl Table {
    /// A table of `rows` without header or widths, with a column spacing of one
    /// and no row spacing.
    pub fn new(rows: Vec<Row>) -> (r: Table)
        ensures
            r.rows == rows,
            r.header is None,
            r.widths@.len() == 0,
            r.row_spacing == 0,
            r.column_spacing == 1,
    {
        Table { rows, header: None, widths: Vec::new(), row_spacing: 0, column_spacing: 1 }
    }

    /// The same table with the given column widths; percentages must be at most 100.
    pub fn widths(self, widths: Vec<Constraint>) -> (r: Table)
        requires
            forall|k: int| 0 <= k < widths.len() ==> valid_width(#[trigger] widths@[k]),
        ensures
            r.widths == widths,
            r.rows == self.rows,
            r.header == self.header,
            r.row_spacing == self.row_spacing,
            r.column_spacing == self.column_spacing,
    {
        Table { widths, ..self }
    }

    /// The same table with a header row.
    pub fn header(self, header: Row) -> (r: Table)
        ensures
            r.header == Some(header),
            r.rows == self.rows,
            r.widths == self.widths,
            r.row_spacing == self.row_spacing,
            r.column_spacing == self.column_spacing,
    {
        Table { header: Some(header), ..self }
    }

    /// The same table with the given spacing between columns.
    pub fn column_spacing(self, spacing: u16) -> (r: Table)
        ensures
            r.column_spacing == spacing,
            r.rows == self.rows,
            r.header == self.header,
            r.widths == self.widths,
            r.row_spacing == self.row_spacing,
    {
        Table { column_spacing: spacing, ..self }
    }

    /// The same table with the given spacing between rows.
    pub fn row_spacing(self, spacing: u16) -> (r: Table)
        ensures
            r.row_spacing == spacing,
            r.rows == self.rows,
            r.header == self.header,
            r.widths == self.widths,
            r.column_spacing == self.column_spacing,
    {
        Table { row_spacing: spacing, ..self }
    }

    /// The total height of each row.
    pub fn row_heights(&self) -> (r: Vec<u16>)
        ensures
            r.len() == self.rows.len(),
            forall|k: int|
                0 <= k < self.rows.len() ==> #[trigger] r@[k] == (if self.rows@[k].height
                    + self.rows@[k].bottom_margin > u16::MAX {
                    u16::MAX as int
                } else {
                    self.rows@[k].height + self.rows@[k].bottom_margin
                }),
    {
        let mut out: Vec<u16> = Vec::new();
        let mut i: usize = 0;
        while i < self.rows.len()
            invariant
                i <= self.rows.len(),
                out.len() == i,
                forall|k: int|
                    0 <= k < i ==> #[trigger] out@[k] == (if self.rows@[k].height
                        + self.rows@[k].bottom_margin > u16::MAX {
                        u16::MAX as int
                    } else {
                        self.rows@[k].height + self.rows@[k].bottom_margin
                    }),
            decreases self.rows.len() - i,
        {
            out.push(self.rows[i].total_height());
            i = i + 1;
        }
        out
    }

    /// The heights of the rows (without margins).
    pub open spec fn spec_heights(self) -> Seq<u16> {
        self.rows@.map_values(|r: Row| r.height)
    }

    /// The constraints the columns are laid out with: the selection marker's
    /// width first when a row may be selected, then each column's constraint with
    /// the column spacing between two columns (see [`column_constraints_of`]).
    pub fn column_constraints(&self, selection_width: Option<u16>) -> (r: Vec<Constraint>)
        ensures
            r@ == column_constraints_of(self.widths@, selection_width, self.column_spacing),
    {
        let mut out: Vec<Constraint> = Vec::new();
        if let Some(w) = selection_width {
            out.push(Constraint::Length(w));
        }
        let ghost prefix = out@;
        let mut i: usize = 0;
        while i < self.widths.len()
            invariant
                i <= self.widths.len(),
                prefix == (match selection_width {
                    Some(w) => seq![Constraint::Length(w)],
                    None => Seq::<Constraint>::empty(),
                }),
                out@ == prefix + spaced(self.widths@.take(i as int), self.column_spacing) + (if i > 0 {
                    seq![Constraint::Length(self.column_spacing)]
                } else {
                    Seq::<Constraint>::empty()
                }),
            decreases self.widths.len() - i,
        {
            assert(self.widths@.take(i + 1).drop_last() =~= self.widths@.take(i as int));
            out.push(self.widths[i]);
            out.push(Constraint::Length(self.column_spacing));
            i = i + 1;
            assert(out@ =~= prefix + spaced(self.widths@.take(i as int), self.column_spacing) + seq![
                Constraint::Length(self.column_spacing),
            ]);
        }
        if self.widths.len() > 0 {
            out.pop();
        }
        assert(self.widths@.take(self.widths.len() as int) =~= self.widths@);
        assert(out@ =~= column_constraints_of(self.widths@, selection_width, self.column_spacing));
        out
    }

    /// For each row, the part of it a viewport of `max_height` lines scrolled to
    /// `vertical_scroll` shows (see [`row_extent`]), rows being `row_spacing` apart.
    pub fn get_row_extents(&self, vertical_scroll: u16, row_spacing: u16, max_height: u16) -> (r: Vec<
        Option<(usize, u16, u16, u16)>,
    >)
        requires
            vertical_scroll + max_height <= u16::MAX,
            row_start(self.spec_heights(), row_spacing, self.rows.len() as int) <= u16::MAX,
        ensures
            r.len() == self.rows.len(),
            forall|i: int|
                0 <= i < self.rows.len() ==> #[trigger] r@[i] == row_extent(
                    i,
                    row_start(self.spec_heights(), row_spacing, i),
                    self.spec_heights()[i] as int,
                    vertical_scroll as int,
                    max_height as int,
                ),
    {
        let ghost heights = self.spec_heights();
        let mut out: Vec<Option<(usize, u16, u16, u16)>> = Vec::new();
        let mut row_index: u16 = 0;
        let mut i: usize = 0;
        while i < self.rows.len()
            invariant
                i <= self.rows.len(),
                heights == self.spec_heights(),
                vertical_scroll + max_height <= u16::MAX,
                row_start(heights, row_spacing, self.rows.len() as int) <= u16::MAX,
                row_index == row_start(heights, row_spacing, i as int),
                out.len() == i,
                forall|k: int|
                    0 <= k < i ==> #[trigger] out@[k] == row_extent(
                        k,
                        row_start(heights, row_spacing, k),
                        heights[k] as int,
                        vertical_scroll as int,
                        max_height as int,
                    ),
            decreases self.rows.len() - i,
        {
            proof {
                lemma_row_start_monotonic(heights, row_spacing, i + 1, self.rows.len() as int);
            }
            let height = self.rows[i].height;
            assert(height == heights[i as int]);
            let row_start_index = row_index;
            let row_end_index = (row_start_index + height).saturating_sub(1);
            let table_start_index = vertical_scroll;
            let table_end_index = (vertical_scroll + max_height).saturating_sub(1);
            row_index = row_index + height + row_spacing;
            let row_skip_lines = if row_start_index < table_start_index {
                table_start_index.saturating_sub(row_start_index)
            } else {
                0
            };
            let row_y = row_start_index.saturating_sub(table_start_index).saturating_sub(
                row_skip_lines,
            );
            let last = if row_end_index + 1 < vertical_scroll + max_height {
                row_end_index + 1
            } else {
                vertical_scroll + max_height
            };
            let row_visible_lines = last.saturating_sub(row_start_index).saturating_sub(
                row_skip_lines,
            );
            if row_end_index < table_start_index || row_start_index > table_end_index {
                out.push(None);
            } else {
                out.push(Some((i, row_y, row_skip_lines, row_visible_lines)));
            }
            i = i + 1;
        }
        out
    }
}

proof fn lemma_row_start_monotonic(heights: Seq<u16>, spacing: u16, m: int, n: int)
    requires
        0 <= m <= n,
    ensures
        0 <= row_start(heights, spacing, m) <= row_start(heights, spacing, n),
    decreases n,
{
    if m < n {
        lemma_row_start_monotonic(heights, spacing, m, n - 1);
    } else if n > 0 {
        lemma_row_start_monotonic(heights, spacing, n - 1, n - 1);
    }
}

/// A row never reaches past the viewport: the line where it is drawn plus the
/// lines it shows stay within the viewport height.
pub proof fn law_row_extent_within_viewport(
    i: int,
    start: int,
    height: int,
    scroll: int,
    max_height: int,
)
    requires
        0 <= start,
        0 <= height,
        0 <= scroll,
        0 <= max_height,
        start + height <= u16::MAX,
        scroll + max_height <= u16::MAX,
    ensures
        row_extent(i, start, height, scroll, max_height) matches Some((_, y, _, shown)) ==> y
            + shown <= max_height,
{
}

} // verus!
