//! Cursor movement over the text of a chat session, seen as a list of lines.
use vstd::prelude::*;
use crate::table::Direction;

verus! {

/// Where line `l` starts: the lengths of the lines before it.
pub open spec fn line_start(lens: Seq<usize>, l: int) -> int
    decreases l,
{
    if l <= 0 || lens.len() == 0 {
        0
    } else if l > lens.len() {
        line_start(lens, lens.len() as int)
    } else {
        line_start(lens, l - 1) + lens[l - 1]
    }
}

/// The last line at or after `l` that starts at or before `idx`.
pub open spec fn line_from(lens: Seq<usize>, idx: int, l: int) -> int
    decreases lens.len() - l,
{
    if l + 1 < lens.len() && line_start(lens, l + 1) <= idx {
        line_from(lens, idx, l + 1)
    } else {
        l
    }
}

/// The line that holds character `idx` (the last line for the end of the text).
pub open spec fn line_of(lens: Seq<usize>, idx: int) -> int {
    line_from(lens, idx, 0)
}

/// A text seen as its lines: the number of characters of each line, line break
/// included. Every line but the last ends in a break, so it is not empty; there is
/// always at least one line.
#[derive(Debug)]
pub struct TextLines {
    line_lengths: Vec<usize>,
}

/// A position on screen or in a text: a row and a column.
#[derive(Debug, Clone, Copy, PartialEq, Eq, Structural)]
pub struct Position {
    pub row: usize,
    pub col: usize,
}

/// A rectangle on screen.
#[derive(Debug, Clone, Copy, PartialEq, Eq, Structural)]
pub struct Rect {
    pub x: u16,
    pub y: u16,
    pub width: u16,
    pub height: u16,
}

/// A remembered visual position: a row and a column.
#[derive(Debug, Clone, Copy, PartialEq, Eq, Structural)]
pub struct VisualPosition {
    pub row: u32,
    pub col: u32,
}

/// A selection: an anchor and a head (the cursor), and the remembered visual
/// position of the head.
#[derive(Debug, Clone, Copy, PartialEq, Eq, Structural)]
pub struct Range {
    pub anchor: usize,
    pub head: usize,
    pub old_visual_position: Option<VisualPosition>,
}

/// Whether a movement moves the cursor or extends the selection.
#[derive(Debug, Clone, Copy, PartialEq, Eq, Structural)]
pub enum Movement {
    Extend,
    Move,
}

impl TextLines {
    pub closed spec fn lens(self) -> Seq<usize> {
        self.line_lengths@
    }

    /// Total number of characters.
    pub open spec fn total(self) -> int {
        line_start(self.lens(), self.lens().len() as int)
    }

    #[verifier::type_invariant]
    closed spec fn inv(self) -> bool {
        &&& self.line_lengths.len() >= 1
        &&& forall|k: int| 0 <= k < self.line_lengths.len() - 1 ==> #[trigger] self.line_lengths@[k] >= 1
        &&& line_start(self.line_lengths@, self.line_lengths.len() as int) <= usize::MAX
    }

    /// The text whose lines have the given lengths.
    pub fn new(line_lengths: Vec<usize>) -> (r: TextLines)
        requires
            line_lengths.len() >= 1,
            forall|k: int| 0 <= k < line_lengths.len() - 1 ==> #[trigger] line_lengths@[k] >= 1,
            line_start(line_lengths@, line_lengths.len() as int) <= usize::MAX,
        ensures
            r.lens() == line_lengths@,
    {
        TextLines { line_lengths }
    }

    /// Number of lines.
    pub fn len_lines(&self) -> (r: usize)
        ensures
            r == self.lens().len(),
            r >= 1,
    {
        proof {
            use_type_invariant(self);
        }
        self.line_lengths.len()
    }

    /// Number of characters.
    pub fn len_chars(&self) -> (r: usize)
        ensures
            r == self.total(),
    {
        proof {
            use_type_invariant(self);
        }
        self.line_to_char(self.line_lengths.len())
    }

    /// Number of characters of line `line`, if there is such a line.
    pub fn get_line_len(&self, line: usize) -> (r: Option<usize>)
        ensures
            match r {
                Some(n) => line < self.lens().len() && n == self.lens()[line as int],
                None => line >= self.lens().len(),
            },
    {
        if line < self.line_lengths.len() {
            Some(self.line_lengths[line])
        } else {
            None
        }
    }

    /// Index of the first character of line `line` (the end of the text for the
    /// line after the last).
    pub fn line_to_char(&self, line: usize) -> (r: usize)
        requires
            line <= self.lens().len(),
        ensures
            r == line_start(self.lens(), line as int),
    {
        proof {
            use_type_invariant(self);
        }
        let mut start: usize = 0;
        let mut l: usize = 0;
        while l < line
            invariant
                l <= line <= self.line_lengths.len(),
                start == line_start(self.line_lengths@, l as int),
                line_start(self.line_lengths@, self.line_lengths.len() as int) <= usize::MAX,
            decreases line - l,
        {
            proof {
                lemma_line_start_monotonic(self.line_lengths@, l + 1, self.line_lengths.len() as int);
            }
            start = start + self.line_lengths[l];
            l = l + 1;
        }
        start
    }

    /// The line that holds character `index`.
    pub fn char_to_line(&self, index: usize) -> (r: usize)
        requires
            index <= self.total(),
        ensures
            r == line_of(self.lens(), index as int),
            r < self.lens().len(),
    {
        proof {
            use_type_invariant(self);
        }
        let mut start: usize = 0;
        let mut l: usize = 0;
        loop
            invariant
                l < self.line_lengths.len(),
                start == line_start(self.line_lengths@, l as int),
                start <= index,
                line_start(self.line_lengths@, self.line_lengths.len() as int) <= usize::MAX,
                line_from(self.line_lengths@, index as int, l as int) == line_from(
                    self.line_lengths@,
                    index as int,
                    0,
                ),
            ensures
                l < self.line_lengths.len(),
                line_from(self.line_lengths@, index as int, l as int) == l,
                line_from(self.line_lengths@, index as int, l as int) == line_from(
                    self.line_lengths@,
                    index as int,
                    0,
                ),
            decreases self.line_lengths.len() - l,
        {
            if l + 1 >= self.line_lengths.len() {
                break;
            }
            proof {
                lemma_line_start_monotonic(self.line_lengths@, l + 1, self.line_lengths.len() as int);
            }
            if start + self.line_lengths[l] > index {
                break;
            }
            start = start + self.line_lengths[l];
            l = l + 1;
        }
        l
    }
}

proof fn lemma_line_start_monotonic(lens: Seq<usize>, m: int, n: int)
    requires
        0 <= m <= n <= lens.len(),
    ensures
        0 <= line_start(lens, m) <= line_start(lens, n),
    decreases n,
{
    if m < n {
        lemma_line_start_monotonic(lens, m, n - 1);
    } else if n > 0 {
        lemma_line_start_monotonic(lens, n - 1, n - 1);
    }
}

/// The line of a character starts at or before it, and the next line starts after it.
pub proof fn lemma_line_of(lens: Seq<usize>, idx: int, l: int)
    requires
        lens.len() >= 1,
        forall|k: int| 0 <= k < lens.len() - 1 ==> #[trigger] lens[k] >= 1,
        0 <= l < lens.len(),
        line_start(lens, l) <= idx,
    ensures
        l <= line_from(lens, idx, l) < lens.len(),
        line_start(lens, line_from(lens, idx, l)) <= idx,
        line_from(lens, idx, l) + 1 < lens.len() ==> idx < line_start(
            lens,
            line_from(lens, idx, l) + 1,
        ),
    decreases lens.len() - l,
{
    if l + 1 < lens.len() && line_start(lens, l + 1) <= idx {
        lemma_line_of(lens, idx, l + 1);
    }
}

/// A range of one character at `head`.
pub open spec fn point(head: usize) -> Range {
    Range { anchor: head, head, old_visual_position: None }
}

/// Puts the cursor at `char_idx`: a point there, or, when extending, a range from
/// the old anchor to there.
pub fn put_cursor(range: Range, char_idx: usize, extend: bool) -> (r: Range)
    ensures
        r == (if extend {
            Range { anchor: range.anchor, head: char_idx, old_visual_position: None }
        } else {
            point(char_idx)
        }),
{
    if extend {
        Range { anchor: range.anchor, head: char_idx, old_visual_position: None }
    } else {
        Range { anchor: char_idx, head: char_idx, old_visual_position: None }
    }
}

/// A range of at least one character: an empty range grows to the character at
/// its head.
pub fn min_width_1(range: &Range) -> (r: Range)
    requires
        range.anchor == range.head ==> range.anchor < usize::MAX,
    ensures
        r == (if range.anchor == range.head {
            Range {
                anchor: range.head,
                head: (range.anchor + 1) as usize,
                old_visual_position: range.old_visual_position,
            }
        } else {
            *range
        }),
{
    if range.anchor == range.head {
        Range {
            anchor: range.head,
            head: range.anchor + 1,
            old_visual_position: range.old_visual_position,
        }
    } else {
        *range
    }
}

/// `v` clamped to `0..=max`.
pub open spec fn clamp_to(v: int, max: int) -> int {
    if v > max {
        max
    } else if v < 0 {
        0
    } else {
        v
    }
}

/// The character index of a screen position inside `area`: the start of its row
/// plus its column, both taken relative to the area's top left corner.
pub fn translate_pos_to_char_index(text: &TextLines, area: Rect, pos: Position) -> (r: usize)
    requires
        pos.row - area.y <= text.lens().len(),
        line_start(text.lens(), if pos.row > area.y { pos.row - area.y } else { 0 }) + (if pos.col
            > area.x {
            pos.col - area.x
        } else {
            0
        }) <= usize::MAX,
    ensures
        ({
            let row = if pos.row > area.y { pos.row - area.y } else { 0 };
            let col = if pos.col > area.x { pos.col - area.x } else { 0 };
            r == line_start(text.lens(), row) + col
        }),
{
    let row = pos.row.saturating_sub(area.y as usize);
    let col = pos.col.saturating_sub(area.x as usize);
    let row_start_index = text.line_to_char(row);
    row_start_index + col
}

/// The row and column of character `index`.
pub fn translate_char_index_to_pos(text: &TextLines, index: usize) -> (r: Position)
    requires
        index <= text.total(),
    ensures
        r.row == line_of(text.lens(), index as int),
        r.col == index - line_start(text.lens(), r.row as int),
{
    proof {
        use_type_invariant(text);
        lemma_line_of(text.lens(), index as int, 0);
    }
    let row = text.char_to_line(index);
    let row_start_index = text.line_to_char(row);
    let col = index - row_start_index;
    Position { row, col }
}

/// Moves the cursor `count` characters, staying within the text.
pub fn session_move_horizontally(
    text: &TextLines,
    range: Range,
    dir: Direction,
    count: usize,
    behaviour: Movement,
) -> (r: Range)
    requires
        text.total() >= 1,
        range.head <= text.total(),
        dir == Direction::Forward ==> range.head + count <= usize::MAX,
    ensures
        ({
            let moved = match dir {
                Direction::Forward => range.head + count,
                Direction::Backward => if range.head > count { range.head - count } else { 0 },
            };
            r == put_cursor_spec(range, clamp_to(moved, text.total() - 1) as usize, behaviour)
        }),
{
    let pos = range.head;
    let len = text.len_chars();
    let moved = match dir {
        Direction::Forward => pos + count,
        Direction::Backward => pos.saturating_sub(count),
    };
    let new_pos = if moved > len - 1 { len - 1 } else { moved };
    put_cursor(range, new_pos, behaviour == Movement::Extend)
}

/// What [`put_cursor`] yields for a movement behaviour.
pub open spec fn put_cursor_spec(range: Range, char_idx: usize, behaviour: Movement) -> Range {
    if behaviour == Movement::Extend {
        Range { anchor: range.anchor, head: char_idx, old_visual_position: None }
    } else {
        point(char_idx)
    }
}

/// Where a vertical move of `count` lines from `head` lands: the same column on the
/// target line, or that line's end when it is shorter; past the last line, the end
/// of the text; the result is kept within the text.
pub open spec fn vertical_target(lens: Seq<usize>, head: int, dir: Direction, count: int) -> int {
    let total = line_start(lens, lens.len() as int);
    let row = line_of(lens, head);
    let col = head - line_start(lens, row);
    let new_row = match dir {
        Direction::Forward => row + count,
        Direction::Backward => if row > count { row - count } else { 0 },
    };
    if new_row >= lens.len() {
        match dir {
            Direction::Forward => total - 1,
            Direction::Backward => 0,
        }
    } else {
        let new_col = if col < lens[new_row] { col } else { lens[new_row] as int };
        clamp_to(line_start(lens, new_row) + new_col, total - 1)
    }
}

/// Moves the cursor `count` lines up or down, keeping its column where the target
/// line is long enough.
pub fn session_move_vertically(
    text: &TextLines,
    range: Range,
    dir: Direction,
    count: usize,
    behaviour: Movement,
) -> (r: Range)
    requires
        text.total() >= 1,
        range.head <= text.total(),
        dir == Direction::Forward ==> line_of(text.lens(), range.head as int) + count
            <= usize::MAX,
    ensures
        r == put_cursor_spec(
            range,
            vertical_target(text.lens(), range.head as int, dir, count as int) as usize,
            behaviour,
        ),
        ({
            let lens = text.lens();
            let row = line_of(lens, range.head as int);
            let col = range.head - line_start(lens, row);
            let target = match dir {
                Direction::Forward => row + count,
                Direction::Backward => if row >= count { row - count } else { 0 },
            };
            target < lens.len() && col < lens[target] ==> line_of(lens, r.head as int) == target && r.head
                - line_start(lens, target) == col
        }),
{
    proof {
        use_type_invariant(text);
        lemma_line_of(text.lens(), range.head as int, 0);
        law_vertical_move_goes_count_lines(text.lens(), range.head as int, dir, count as int);
        law_vertical_move_stays_in_text(text.lens(), range.head as int, dir, count as int);
    }
    let pos = range.head;
    let start_row = text.char_to_line(pos);
    let start_row_begin = text.line_to_char(start_row);
    let start_col = pos - start_row_begin;
    let new_row = match dir {
        Direction::Forward => start_row + count,
        Direction::Backward => start_row.saturating_sub(count),
    };
    let len = text.len_chars();
    match text.get_line_len(new_row) {
        None => match dir {
            Direction::Forward => put_cursor(range, len - 1, behaviour == Movement::Extend),
            Direction::Backward => put_cursor(range, 0, behaviour == Movement::Extend),
        },
        Some(new_row_length) => {
            let new_col = if start_col < new_row_length {
                start_col
            } else {
                new_row_length
            };
            let new_row_start = text.line_to_char(new_row);
            proof {
                lemma_line_start_monotonic(text.lens(), new_row + 1, text.lens().len() as int);
            }
            let new_pos = new_row_start + new_col;
            let clamped = if new_pos > len - 1 { len - 1 } else { new_pos };
            put_cursor(range, clamped, behaviour == Movement::Extend)
        },
    }
}

/// The part of a text that `height` rows from row `row` show: from the start of
/// that row (or of the last line, when the text is shorter) to the end of the last
/// row shown. With line lengths counted in bytes, the ends are byte offsets.
pub fn viewport_byte_range(text: &TextLines, row: usize, height: u16) -> (r: (usize, usize))
    requires
        row + height <= usize::MAX,
    ensures
        ({
            let last_line = text.lens().len() - 1;
            let bottom = if row + height > 0 { row + height - 1 } else { 0 };
            let last_visible = if bottom < last_line { bottom } else { last_line };
            let first = if row < last_line { row as int } else { last_line };
            r.0 == line_start(text.lens(), first) && r.1 == line_start(text.lens(), last_visible + 1)
        }),
        r.0 <= r.1,
{
    proof {
        use_type_invariant(text);
    }
    let last_line = text.len_lines() - 1;
    let bottom = (row + height as usize).saturating_sub(1);
    let last_visible_line = if bottom < last_line { bottom } else { last_line };
    let first = if row < last_line { row } else { last_line };
    let start = text.line_to_char(first);
    let end = text.line_to_char(last_visible_line + 1);
    proof {
        lemma_line_start_monotonic(text.lens(), first as int, last_visible_line + 1);
    }
    (start, end)
}

/// How the terminal cursor is drawn.
#[derive(Debug, Clone, Copy, PartialEq, Eq, Structural)]
pub enum CursorKind {
    Block,
    Hidden,
}

/// The character a range's cursor is on: the one before the head when the range
/// runs forward, else the head.
pub open spec fn range_cursor(r: Range) -> int {
    if r.head > r.anchor { r.head - 1 } else { r.head as int }
}

/// Where the session's cursor is on screen: the row and column of the primary
/// range's cursor (at most the end of the text; the column at most the length of
/// its line), moved by the viewport's corner. It is shown, as a block, only when
/// both the session and the terminal have the focus.
pub fn session_cursor(
    text: &TextLines,
    primary: Range,
    viewport: Rect,
    session_focused: bool,
    terminal_focused: bool,
) -> (r: (
    Option<Position>,
    CursorKind,
))
    requires
        text.lens().len() + 0x10000 <= usize::MAX,
        text.total() + 0x10000 <= usize::MAX,
    ensures
        !(session_focused && terminal_focused) ==> r == (None::<Position>, CursorKind::Hidden),
        session_focused && terminal_focused ==> {
            let cursor = if range_cursor(primary) < text.total() { range_cursor(primary) } else { text.total() };
            let row = line_of(text.lens(), cursor);
            let col = cursor - line_start(text.lens(), row);
            let shown_col = if col > text.lens()[row] { text.lens()[row] as int } else { col };
            &&& r.1 == CursorKind::Block
            &&& r.0 matches Some(p) && p.row == row + viewport.y && p.col == shown_col + viewport.x
        },
{
    if !(session_focused && terminal_focused) {
        return (None, CursorKind::Hidden);
    }
    proof {
        use_type_invariant(text);
    }
    let head_cursor = if primary.head > primary.anchor { primary.head - 1 } else { primary.head };
    let total = text.len_chars();
    let cursor = if head_cursor < total { head_cursor } else { total };
    proof {
        lemma_line_of(text.lens(), cursor as int, 0);
    }
    let row = text.char_to_line(cursor);
    let start = text.line_to_char(row);
    let mut col = cursor - start;
    let line_len = text.get_line_len(row).unwrap();
    if col > line_len {
        col = line_len;
    }
    (Some(Position { row: row + viewport.y as usize, col: col + viewport.x as usize }), CursorKind::Block)
}

/// The position of a character, taken back to a character index, is that character:
/// translating an index to a position and back gives the index again.
pub proof fn law_position_round_trip(lens: Seq<usize>, index: int)
    requires
        lens.len() >= 1,
        forall|k: int| 0 <= k < lens.len() - 1 ==> #[trigger] lens[k] >= 1,
        0 <= index <= line_start(lens, lens.len() as int),
    ensures
        ({
            let row = line_of(lens, index);
            let col = index - line_start(lens, row);
            &&& 0 <= row < lens.len()
            &&& 0 <= col
            &&& line_start(lens, row) + col == index
        }),
{
    lemma_line_of(lens, index, 0);
}

/// A move always lands on a character of the text.
pub proof fn law_vertical_move_stays_in_text(lens: Seq<usize>, head: int, dir: Direction, count: int)
    requires
        lens.len() >= 1,
        forall|k: int| 0 <= k < lens.len() - 1 ==> #[trigger] lens[k] >= 1,
        line_start(lens, lens.len() as int) >= 1,
        0 <= head <= line_start(lens, lens.len() as int),
        count >= 0,
    ensures
        0 <= vertical_target(lens, head, dir, count) < line_start(lens, lens.len() as int),
{
    lemma_line_of(lens, head, 0);
    let row = line_of(lens, head);
    let new_row = match dir {
        Direction::Forward => row + count,
        Direction::Backward => if row > count { row - count } else { 0 },
    };
    if new_row < lens.len() {
        lemma_line_start_monotonic(lens, new_row, lens.len() as int);
    }
}

/// A character between the start of line `t` and the start of the next line lies
/// on line `t`.
proof fn lemma_line_of_within(lens: Seq<usize>, t: int, idx: int)
    requires
        lens.len() >= 1,
        forall|k: int| 0 <= k < lens.len() - 1 ==> #[trigger] lens[k] >= 1,
        0 <= t < lens.len(),
        line_start(lens, t) <= idx,
        t + 1 < lens.len() ==> idx < line_start(lens, t + 1),
    ensures
        line_of(lens, idx) == t,
{
    lemma_line_start_monotonic(lens, 0, t);
    lemma_line_of(lens, idx, 0);
    let l = line_of(lens, idx);
    if l < t {
        lemma_line_start_monotonic(lens, l + 1, t);
    } else if l > t {
        lemma_line_start_monotonic(lens, t + 1, l);
    }
}

/// A vertical move goes `count` lines: from the line of `head`, `count` lines down
/// (or up, stopping at the first line). When that line exists and is long enough,
/// the cursor lands on it in the same column; when it is shorter, at its end (the
/// start of the following line, within the text); when the text has fewer lines,
/// a move down lands on the last character.
pub proof fn law_vertical_move_goes_count_lines(lens: Seq<usize>, head: int, dir: Direction, count: int)
    requires
        lens.len() >= 1,
        forall|k: int| 0 <= k < lens.len() - 1 ==> #[trigger] lens[k] >= 1,
        line_start(lens, lens.len() as int) >= 1,
        0 <= head <= line_start(lens, lens.len() as int),
        count >= 0,
    ensures
        ({
            let total = line_start(lens, lens.len() as int);
            let row = line_of(lens, head);
            let col = head - line_start(lens, row);
            let target = match dir {
                Direction::Forward => row + count,
                Direction::Backward => if row >= count { row - count } else { 0 },
            };
            let p = vertical_target(lens, head, dir, count);
            &&& target < lens.len() && col < lens[target] ==> line_of(lens, p) == target && p - line_start(
                lens,
                target,
            ) == col
            &&& target < lens.len() && col >= lens[target] ==> p == (if line_start(lens, target + 1) < total {
                line_start(lens, target + 1)
            } else {
                total - 1
            })
            &&& target >= lens.len() ==> p == total - 1
        }),
{
    lemma_line_of(lens, head, 0);
    let total = line_start(lens, lens.len() as int);
    let row = line_of(lens, head);
    let col = head - line_start(lens, row);
    let target = match dir {
        Direction::Forward => row + count,
        Direction::Backward => if row >= count { row - count } else { 0 },
    };
    if target < lens.len() {
        lemma_line_start_monotonic(lens, target + 1, lens.len() as int);
        lemma_line_start_monotonic(lens, 0, target);
        assert(line_start(lens, target + 1) == line_start(lens, target) + lens[target]);
        let p = vertical_target(lens, head, dir, count);
        assert(0 <= col);
        if col < lens[target] {
            let idx = line_start(lens, target) + col;
            assert(idx < line_start(lens, target + 1));
            assert(idx <= total - 1);
            assert(clamp_to(idx, total - 1) == idx);
            lemma_line_of_within(lens, target, idx);
        } else {
            assert(p == clamp_to(line_start(lens, target) + lens[target], total - 1));
        }
    }
}

} // verus!
