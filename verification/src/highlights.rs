//! The highlighted spans that draw the selections and cursors of a session's
//! text, given the grapheme boundaries of the text.
use vstd::prelude::*;
use crate::movement::Range;

verus! {

/// The editing mode, which decides how the cursor is drawn.
#[derive(Debug, Clone, Copy, PartialEq, Eq, Structural)]
pub enum EditorMode {
    Normal,
    Select,
    Insert,
}

/// The theme's scope indices that matter for selections, as looked up by name:
/// `ui.selection` (which every theme has), then the optional ones.
#[derive(Debug, Clone, Copy, PartialEq, Eq, Structural)]
pub struct ThemeScopes {
    pub selection: usize,
    pub selection_primary: Option<usize>,
    pub cursor: Option<usize>,
    pub cursor_primary: Option<usize>,
    pub cursor_insert: Option<usize>,
    pub cursor_select: Option<usize>,
    pub cursor_normal: Option<usize>,
    pub cursor_primary_insert: Option<usize>,
    pub cursor_primary_select: Option<usize>,
    pub cursor_primary_normal: Option<usize>,
}

/// The scopes with which selections and cursors are drawn in one mode.
#[derive(Debug, Clone, Copy, PartialEq, Eq, Structural)]
pub struct SelectionScopes {
    pub selection: usize,
    pub primary_selection: usize,
    pub cursor: usize,
    pub primary_cursor: usize,
}

/// A span of characters `start..end` drawn with a scope.
#[derive(Debug, Clone, Copy, PartialEq, Eq, Structural)]
pub struct HighlightSpan {
    pub scope: usize,
    pub start: usize,
    pub end: usize,
}

/// The value of `o`, or `d` when there is none.
pub open spec fn or_else(o: Option<usize>, d: usize) -> usize {
    match o {
        Some(v) => v,
        None => d,
    }
}

/// The scopes of a mode: each falls back on a more general one.
pub open spec fn scopes_for(mode: EditorMode, t: ThemeScopes) -> SelectionScopes {
    let base_cursor = or_else(t.cursor, t.selection);
    let base_primary_cursor = or_else(t.cursor_primary, base_cursor);
    let cursor = match mode {
        EditorMode::Insert => or_else(t.cursor_insert, base_cursor),
        EditorMode::Select => or_else(t.cursor_select, base_cursor),
        EditorMode::Normal => or_else(t.cursor_normal, base_cursor),
    };
    let primary_cursor = match mode {
        EditorMode::Insert => or_else(t.cursor_primary_insert, base_primary_cursor),
        EditorMode::Select => or_else(t.cursor_primary_select, base_primary_cursor),
        EditorMode::Normal => or_else(t.cursor_primary_normal, base_primary_cursor),
    };
    SelectionScopes {
        selection: t.selection,
        primary_selection: or_else(t.selection_primary, t.selection),
        cursor,
        primary_cursor,
    }
}

fn value_or(o: Option<usize>, d: usize) -> (r: usize)
    ensures
        r == or_else(o, d),
{
    match o {
        Some(v) => v,
        None => d,
    }
}

/// Resolves the scopes of `mode` from the theme's lookups.
pub fn resolve_selection_scopes(mode: EditorMode, theme: ThemeScopes) -> (r: SelectionScopes)
    ensures
        r == scopes_for(mode, theme),
{
    let base_cursor = value_or(theme.cursor, theme.selection);
    let base_primary_cursor = value_or(theme.cursor_primary, base_cursor);
    let cursor = match mode {
        EditorMode::Insert => value_or(theme.cursor_insert, base_cursor),
        EditorMode::Select => value_or(theme.cursor_select, base_cursor),
        EditorMode::Normal => value_or(theme.cursor_normal, base_cursor),
    };
    let primary_cursor = match mode {
        EditorMode::Insert => value_or(theme.cursor_primary_insert, base_primary_cursor),
        EditorMode::Select => value_or(theme.cursor_primary_select, base_primary_cursor),
        EditorMode::Normal => value_or(theme.cursor_primary_normal, base_primary_cursor),
    };
    SelectionScopes {
        selection: theme.selection,
        primary_selection: value_or(theme.selection_primary, theme.selection),
        cursor,
        primary_cursor,
    }
}

/// A span.
pub open spec fn span(scope: usize, start: int, end: int) -> HighlightSpan {
    HighlightSpan { scope, start: start as usize, end: end as usize }
}

/// Whether `b` are the grapheme boundaries of a text of `text_len` characters:
/// strictly increasing character indices from 0 up to `text_len`.
pub open spec fn boundaries_ok(b: Seq<usize>, text_len: int) -> bool {
    &&& b.len() >= 1
    &&& b[0] == 0
    &&& b.last() == text_len
    &&& forall|i: int, j: int| 0 <= i < j < b.len() ==> b[i] < b[j]
}

/// The first boundary, from index `i` on, after `x`.
pub open spec fn first_above(b: Seq<usize>, x: int, i: int) -> Option<int>
    decreases b.len() - i,
{
    if i < 0 || i >= b.len() {
        None
    } else if b[i] > x {
        Some(i)
    } else {
        first_above(b, x, i + 1)
    }
}

/// The last boundary, among the first `n`, before `x`.
pub open spec fn last_below(b: Seq<usize>, x: int, n: int) -> Option<int>
    decreases n,
{
    if n <= 0 || n > b.len() {
        None
    } else if b[n - 1] < x {
        Some(n - 1)
    } else {
        last_below(b, x, n - 1)
    }
}

/// The grapheme boundary after `x`; the end of the text when there is none.
pub open spec fn next_boundary(b: Seq<usize>, x: int, text_len: int) -> int {
    match first_above(b, x, 0) {
        Some(k) => b[k] as int,
        None => text_len,
    }
}

/// The grapheme boundary before `x`; the start of the text when there is none.
pub open spec fn prev_boundary(b: Seq<usize>, x: int) -> int {
    match last_below(b, x, b.len() as int) {
        Some(k) => b[k] as int,
        None => 0,
    }
}

proof fn lemma_first_above(b: Seq<usize>, x: int, i: int)
    requires
        0 <= i,
    ensures
        first_above(b, x, i) matches Some(k) ==> i <= k < b.len() && b[k] > x && forall|j: int|
            i <= j < k ==> b[j] <= x,
        first_above(b, x, i) is None ==> forall|j: int| i <= j < b.len() ==> b[j] <= x,
    decreases b.len() - i,
{
    if i < b.len() {
        lemma_first_above(b, x, i + 1);
    }
}

proof fn lemma_last_below(b: Seq<usize>, x: int, n: int)
    requires
        0 <= n <= b.len(),
    ensures
        last_below(b, x, n) matches Some(k) ==> 0 <= k < n && b[k] < x && forall|j: int|
            k < j < n ==> b[j] >= x,
        last_below(b, x, n) is None ==> forall|j: int| 0 <= j < n ==> b[j] >= x,
    decreases n,
{
    if n > 0 {
        lemma_last_below(b, x, n - 1);
    }
}

/// Within the text, the next boundary lies past `x` and no further than the
/// end, and no further than any boundary past `x`.
proof fn lemma_next_boundary(b: Seq<usize>, x: int, text_len: int)
    requires
        boundaries_ok(b, text_len),
        0 <= x <= text_len,
    ensures
        next_boundary(b, x, text_len) <= text_len,
        x < text_len ==> x < next_boundary(b, x, text_len),
        forall|j: int| 0 <= j < b.len() && b[j] > x ==> next_boundary(b, x, text_len) <= b[j],
{
    lemma_first_above(b, x, 0);
    if let Some(k) = first_above(b, x, 0) {
        if k < b.len() - 1 {
            assert(b[k] < b[b.len() - 1]);
        }
        assert forall|j: int| 0 <= j < b.len() && b[j] > x implies b[k] <= b[j] by {
            if j < k {
                assert(b[j] <= x);
            } else if j > k {
                assert(b[k] < b[j]);
            }
        }
    } else {
        assert(b[b.len() - 1] <= x);
    }
}

/// The previous boundary is no later than `x`, before it when `x` is past the
/// start, and no earlier than any boundary before `x`.
proof fn lemma_prev_boundary(b: Seq<usize>, x: int, text_len: int)
    requires
        boundaries_ok(b, text_len),
        0 <= x,
    ensures
        0 <= prev_boundary(b, x) <= x,
        x > 0 ==> prev_boundary(b, x) < x,
        forall|j: int| 0 <= j < b.len() && b[j] < x ==> b[j] <= prev_boundary(b, x),
{
    lemma_last_below(b, x, b.len() as int);
    if let Some(k) = last_below(b, x, b.len() as int) {
        assert forall|j: int| 0 <= j < b.len() && b[j] < x implies b[j] <= b[k] by {
            if j > k {
                assert(b[j] >= x);
            } else if j < k {
                assert(b[j] < b[k]);
            }
        }
    } else {
        if x > 0 {
            assert(b[0] >= x);
        }
    }
}

/// The grapheme boundary after `x` (see [`next_boundary`]).
fn next_boundary_of(b: &Vec<usize>, x: usize, text_len: usize) -> (r: usize)
    ensures
        r == next_boundary(b@, x as int, text_len as int),
{
    let mut i: usize = 0;
    while i < b.len()
        invariant
            i <= b@.len(),
            first_above(b@, x as int, i as int) == first_above(b@, x as int, 0),
        decreases b.len() - i,
    {
        if b[i] > x {
            return b[i];
        }
        i = i + 1;
    }
    text_len
}

/// The grapheme boundary before `x` (see [`prev_boundary`]).
fn prev_boundary_of(b: &Vec<usize>, x: usize) -> (r: usize)
    ensures
        r == prev_boundary(b@, x as int),
{
    let mut n: usize = b.len();
    while n > 0
        invariant
            n <= b@.len(),
            last_below(b@, x as int, n as int) == last_below(b@, x as int, b@.len() as int),
        decreases n,
    {
        if b[n - 1] < x {
            return b[n - 1];
        }
        n = n - 1;
    }
    0
}

/// The spans of one selection range. A cursor is drawn by the terminal, not by a
/// span, when it is the primary one and is not a block cursor in a focused terminal.
/// A cursor at the very end of the text gets a one-character span of its own; any
/// other range is widened to at least one grapheme, and its cursor covers the
/// grapheme at its head (before the head when the range goes forward).
pub open spec fn range_spans(
    r: Range,
    is_primary: bool,
    text_len: int,
    b: Seq<usize>,
    mode: EditorMode,
    cursor_is_block: bool,
    focused: bool,
    sc: SelectionScopes,
) -> Seq<HighlightSpan> {
    let cursor_scope = if is_primary { sc.primary_cursor } else { sc.cursor };
    let selection_scope = if is_primary { sc.primary_selection } else { sc.selection };
    let draw_cursor = !is_primary || (cursor_is_block && focused);
    if r.head == r.anchor && r.head == text_len {
        if draw_cursor {
            seq![span(cursor_scope, r.head as int, r.head + 1)]
        } else {
            Seq::empty()
        }
    } else {
        let anchor = r.anchor as int;
        let head = if r.anchor == r.head { next_boundary(b, r.head as int, text_len) } else { r.head as int };
        if head > anchor {
            let cursor_start = prev_boundary(b, head);
            let selection_end = if is_primary && !cursor_is_block && mode != EditorMode::Insert {
                head
            } else {
                cursor_start
            };
            seq![span(selection_scope, anchor, selection_end)] + if draw_cursor {
                seq![span(cursor_scope, cursor_start, head)]
            } else {
                Seq::empty()
            }
        } else {
            let cursor_end = next_boundary(b, head, text_len);
            let selection_start = if is_primary && !cursor_is_block && !(mode == EditorMode::Insert
                && cursor_end == anchor) {
                head
            } else {
                cursor_end
            };
            (if draw_cursor {
                seq![span(cursor_scope, head, cursor_end)]
            } else {
                Seq::empty()
            }) + seq![span(selection_scope, selection_start, anchor)]
        }
    }
}

/// The spans of the first `n` ranges, in order.
pub open spec fn selection_spans(
    ranges: Seq<Range>,
    n: int,
    primary: int,
    text_len: int,
    b: Seq<usize>,
    mode: EditorMode,
    cursor_is_block: bool,
    focused: bool,
    sc: SelectionScopes,
) -> Seq<HighlightSpan>
    decreases n,
{
    if n <= 0 {
        Seq::empty()
    } else {
        selection_spans(ranges, n - 1, primary, text_len, b, mode, cursor_is_block, focused, sc)
            + range_spans(ranges[n - 1], n - 1 == primary, text_len, b, mode, cursor_is_block, focused, sc)
    }
}

/// Whether every range lies within a text of `text_len` characters.
pub open spec fn ranges_within(ranges: Seq<Range>, text_len: int) -> bool {
    forall|i: int| 0 <= i < ranges.len() ==> #[trigger] ranges[i].anchor <= text_len && ranges[i].head <= text_len
}

fn push_span(out: &mut Vec<HighlightSpan>, scope: usize, start: usize, end: usize)
    ensures
        final(out)@ == old(out)@.push(span(scope, start as int, end as int)),
{
    out.push(HighlightSpan { scope, start, end });
}

/// The highlighted spans of all selection ranges of a text of `text_len`
/// characters whose grapheme boundaries are `boundaries`; the range at
/// `primary_index` is the primary one.
pub fn session_selection_highlights(
    ranges: &Vec<Range>,
    primary_index: usize,
    text_len: usize,
    boundaries: &Vec<usize>,
    mode: EditorMode,
    cursor_is_block: bool,
    is_terminal_focused: bool,
    scopes: SelectionScopes,
) -> (r: Vec<HighlightSpan>)
    requires
        text_len < usize::MAX,
        ranges_within(ranges@, text_len as int),
    ensures
        r@ == selection_spans(
            ranges@,
            ranges@.len() as int,
            primary_index as int,
            text_len as int,
            boundaries@,
            mode,
            cursor_is_block,
            is_terminal_focused,
            scopes,
        ),
{
    let mut spans: Vec<HighlightSpan> = Vec::new();
    let mut i: usize = 0;
    while i < ranges.len()
        invariant
            i <= ranges.len(),
            text_len < usize::MAX,
            ranges_within(ranges@, text_len as int),
            spans@ == selection_spans(
                ranges@,
                i as int,
                primary_index as int,
                text_len as int,
                boundaries@,
                mode,
                cursor_is_block,
                is_terminal_focused,
                scopes,
            ),
        decreases ranges.len() - i,
    {
        let range = ranges[i];
        assert(range.anchor <= text_len && range.head <= text_len);
        let is_primary = i == primary_index;
        let cursor_scope = if is_primary { scopes.primary_cursor } else { scopes.cursor };
        let selection_scope = if is_primary { scopes.primary_selection } else { scopes.selection };
        let draw_cursor = !is_primary || (cursor_is_block && is_terminal_focused);
        let ghost before = spans@;
        let ghost expected = range_spans(
            range,
            is_primary,
            text_len as int,
            boundaries@,
            mode,
            cursor_is_block,
            is_terminal_focused,
            scopes,
        );
        if range.head == range.anchor && range.head == text_len {
            if draw_cursor {
                push_span(&mut spans, cursor_scope, range.head, range.head + 1);
            }
            assert(spans@ =~= before + expected);
        } else {
            let anchor = range.anchor;
            let head = if range.anchor == range.head {
                next_boundary_of(boundaries, range.head, text_len)
            } else {
                range.head
            };
            if head > anchor {
                let cursor_start = prev_boundary_of(boundaries, head);
                let selection_end = if is_primary && !cursor_is_block && mode != EditorMode::Insert {
                    head
                } else {
                    cursor_start
                };
                push_span(&mut spans, selection_scope, anchor, selection_end);
                if draw_cursor {
                    push_span(&mut spans, cursor_scope, cursor_start, head);
                }
                assert(spans@ =~= before + expected);
            } else {
                let cursor_end = next_boundary_of(boundaries, head, text_len);
                if draw_cursor {
                    push_span(&mut spans, cursor_scope, head, cursor_end);
                }
                let selection_start = if is_primary && !cursor_is_block && !(mode == EditorMode::Insert
                    && cursor_end == anchor) {
                    head
                } else {
                    cursor_end
                };
                push_span(&mut spans, selection_scope, selection_start, anchor);
                assert(spans@ =~= before + expected);
            }
        }
        i = i + 1;
    }
    spans
}

/// Whether every range starts and ends on a grapheme boundary.
pub open spec fn ranges_on_boundaries(ranges: Seq<Range>, b: Seq<usize>) -> bool {
    forall|i: int| 0 <= i < ranges.len() ==> b.contains(#[trigger] ranges[i].anchor) && b.contains(ranges[i].head)
}

/// Every span runs forward (its start is at most its end) and ends at most one
/// character past the end of the text, for ranges that start and end on
/// grapheme boundaries.
pub proof fn law_spans_run_forward(
    ranges: Seq<Range>,
    n: int,
    primary: int,
    text_len: int,
    b: Seq<usize>,
    mode: EditorMode,
    cursor_is_block: bool,
    focused: bool,
    sc: SelectionScopes,
)
    requires
        0 <= n <= ranges.len(),
        0 <= text_len < usize::MAX,
        ranges_within(ranges, text_len),
        boundaries_ok(b, text_len),
        ranges_on_boundaries(ranges, b),
    ensures
        forall|k: int|
            0 <= k < selection_spans(ranges, n, primary, text_len, b, mode, cursor_is_block, focused, sc).len()
                ==> {
                let s = #[trigger] selection_spans(
                    ranges,
                    n,
                    primary,
                    text_len,
                    b,
                    mode,
                    cursor_is_block,
                    focused,
                    sc,
                )[k];
                s.start <= s.end <= text_len + 1
            },
    decreases n,
{
    if n > 0 {
        law_spans_run_forward(ranges, n - 1, primary, text_len, b, mode, cursor_is_block, focused, sc);
        let prev = selection_spans(ranges, n - 1, primary, text_len, b, mode, cursor_is_block, focused, sc);
        let r = ranges[n - 1];
        let last = range_spans(r, n - 1 == primary, text_len, b, mode, cursor_is_block, focused, sc);
        assert(r.anchor <= text_len && r.head <= text_len);
        assert(b.contains(r.anchor) && b.contains(r.head));
        let ia = choose|j: int| 0 <= j < b.len() && b[j] == r.anchor;
        lemma_next_boundary(b, r.head as int, text_len);
        let head = if r.anchor == r.head { next_boundary(b, r.head as int, text_len) } else { r.head as int };
        lemma_prev_boundary(b, head, text_len);
        lemma_next_boundary(b, head, text_len);
        assert forall|k: int| 0 <= k < last.len() implies #[trigger] last[k].start <= last[k].end <= text_len + 1 by {
            if !(r.head == r.anchor && r.head == text_len) {
                if head > r.anchor {
                    assert(b[ia] < head);
                } else {
                    assert(head < r.anchor);
                    assert(b[ia] > head);
                }
            }
        }
        let all = selection_spans(ranges, n, primary, text_len, b, mode, cursor_is_block, focused, sc);
        assert(all == prev + last);
        assert forall|k: int| 0 <= k < all.len() implies #[trigger] all[k].start <= all[k].end <= text_len + 1 by {
            if k < prev.len() {
                assert(all[k] == prev[k]);
            } else {
                assert(all[k] == last[k - prev.len()]);
            }
        }
    }
}

} // verus!
