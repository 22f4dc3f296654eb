//! How a session view answers input events, how its selection moves and pages,
//! and how a chat session switches mode.
use vstd::prelude::*;
use vstd::arithmetic::div_mod::{lemma_add_mod_noop, lemma_mod_add_multiples_vanish, lemma_small_mod};
use crate::text::{concat_strs, decimal_string, decimal_text, string_of};
use crate::table::{scrolled_by, height_sum, moved_selection, scroll_for_selection, Direction, TableState};

verus! {

/// An input event, reduced to what the session view tells apart.
#[derive(Debug, Clone, Copy, PartialEq, Eq, Structural)]
pub enum ViewEvent {
    IdleTimeout,
    MouseScrollUp,
    MouseScrollDown,
    /// Any other mouse event (press, release, drag, ...).
    MouseOther,
    Paste,
    Resize,
    Key,
    /// Focus changes and the like.
    Other,
}

/// What the session view does with an event once its own state is updated.
#[derive(Debug, Clone, Copy, PartialEq, Eq, Structural)]
pub enum ViewReply {
    /// Hand the event to the idle-timeout handler.
    HandleIdleTimeout,
    /// The event is used up.
    Consumed,
    /// The event is not for this view.
    Ignored,
}

/// The reply of the session view to an event.
pub open spec fn view_reply(event: ViewEvent) -> ViewReply {
    match event {
        ViewEvent::IdleTimeout => ViewReply::HandleIdleTimeout,
        ViewEvent::Paste | ViewEvent::Resize => ViewReply::Consumed,
        _ => ViewReply::Ignored,
    }
}

/// Handles an event in the session view: the mouse wheel scrolls the table by a
/// line (up scrolls back), and the reply says who handles the event next. The
/// first returned flag says whether a redraw is due, the second whether the idle
/// timer is to be reset (for every event but the idle timeout itself, so that it
/// fires again).
pub fn handle_view_event(state: &mut TableState, event: ViewEvent) -> (r: (ViewReply, bool, bool))
    ensures
        r.0 == view_reply(event),
        r.1 == (event == ViewEvent::MouseScrollUp || event == ViewEvent::MouseScrollDown),
        r.2 == (event != ViewEvent::IdleTimeout),
        event != ViewEvent::MouseScrollUp && event != ViewEvent::MouseScrollDown ==> *final(state)
            == *old(state),
        event == ViewEvent::MouseScrollUp ==> scrolled_by(*old(state), *final(state), 1, Direction::Backward),
        event == ViewEvent::MouseScrollDown ==> scrolled_by(*old(state), *final(state), 1, Direction::Forward),
        event == ViewEvent::MouseScrollUp ==> final(state).vertical_scroll == (if sat_sub_u16(
            old(state).vertical_scroll,
            1,
        ) < old(state).scroll_max {
            sat_sub_u16(old(state).vertical_scroll, 1)
        } else {
            old(state).scroll_max as int
        }),
        event == ViewEvent::MouseScrollDown ==> final(state).vertical_scroll == (if old(
            state,
        ).vertical_scroll + 1 < old(state).scroll_max {
            old(state).vertical_scroll + 1
        } else {
            old(state).scroll_max as int
        }),
        final(state).scroll_max == old(state).scroll_max,
        final(state).selected == old(state).selected,
        final(state).row_heights == old(state).row_heights,
{
    match event {
        ViewEvent::IdleTimeout => (ViewReply::HandleIdleTimeout, false, false),
        ViewEvent::MouseScrollUp => {
            state.scroll_by(1, Direction::Backward);
            (ViewReply::Ignored, true, true)
        },
        ViewEvent::MouseScrollDown => {
            state.scroll_by(1, Direction::Forward);
            (ViewReply::Ignored, true, true)
        },
        ViewEvent::Paste | ViewEvent::Resize => (ViewReply::Consumed, false, true),
        _ => (ViewReply::Ignored, false, true),
    }
}

/// `a - b`, or zero when `b` exceeds `a`.
pub open spec fn sat_sub_u16(a: u16, b: u16) -> int {
    if a > b { a - b } else { 0 }
}

/// The list of a session view: its table state, the entry under the cursor and
/// the height of a page.
#[derive(Debug)]
pub struct SessionList {
    pub state: TableState,
    pub selected_option: u32,
    pub completion_height: u16,
}

/// Whether moving the selection of `state` by `amount` in `direction` among
/// `item_count` items keeps the sums of row heights it reads within 16 bits.
pub open spec fn move_fits(state: TableState, amount: u16, direction: Direction, item_count: u32) -> bool {
    item_count > 0 ==> {
        &&& state.vertical_scroll + state.viewport_height <= u16::MAX
        &&& (moved_selection(state.selected, amount, direction, item_count) matches Some(t) ==> t
            < usize::MAX && height_sum(state.row_heights@, t + 1) <= u16::MAX)
    }
}

/// What moving the selection of `old` does to it (see [`TableState::move_by`]).
pub open spec fn moved_state(old: TableState, new: TableState, amount: u16, direction: Direction, item_count: u32) -> bool {
    if item_count == 0 {
        new == old
    } else {
        &&& new.selected == moved_selection(old.selected, amount, direction, item_count)
        &&& new.vertical_scroll == scroll_for_selection(
            old.row_heights@,
            new.selected,
            old.vertical_scroll as int,
            old.viewport_height as int,
        )
        &&& new.scroll_max == old.scroll_max
        &&& new.sticky_scroll == old.sticky_scroll
        &&& new.row_heights == old.row_heights
        &&& new.viewport_height == old.viewport_height
        &&& new.scroll_offset == old.scroll_offset
    }
}

/// The selection after moving a page of `page` entries among `item_count`
/// entries, wrapping around: down from the last page comes the first, up from the
/// first comes the last; with nothing selected, the first entry is selected.
pub open spec fn paged_selection(selected: Option<usize>, page: u16, down: bool, item_count: u32) -> Option<usize> {
    match selected {
        None => Some(0usize),
        Some(s) => if down {
            Some(((s + page as int) % (item_count as int)) as usize)
        } else {
            Some(((s + item_count - (page as int) % (item_count as int)) % (item_count as int)) as usize)
        },
    }
}

/// Whether paging `state` keeps the sums of row heights it reads within 16 bits.
pub open spec fn page_fits(state: TableState, page: u16, down: bool, item_count: u32) -> bool {
    item_count > 0 ==> {
        &&& state.vertical_scroll + state.viewport_height <= u16::MAX
        &&& (paged_selection(state.selected, page, down, item_count) matches Some(t) ==> height_sum(
            state.row_heights@,
            t + 1,
        ) <= u16::MAX)
    }
}

/// What paging does to the table state: nothing without entries; otherwise the
/// selection moves (see [`paged_selection`]) and is scrolled into view.
pub open spec fn paged_state(old: TableState, new: TableState, page: u16, down: bool, item_count: u32) -> bool {
    if item_count == 0 {
        new == old
    } else {
        &&& new.selected == paged_selection(old.selected, page, down, item_count)
        &&& new.vertical_scroll == scroll_for_selection(
            old.row_heights@,
            new.selected,
            old.vertical_scroll as int,
            old.viewport_height as int,
        )
        &&& new.scroll_max == old.scroll_max
        &&& new.sticky_scroll == old.sticky_scroll
        &&& new.row_heights == old.row_heights
        &&& new.viewport_height == old.viewport_height
        &&& new.scroll_offset == old.scroll_offset
    }
}

impl SessionList {
    /// Moves the selection by `amount` among the `matched` items and scrolls it
    /// into view; with no items nothing changes.
    pub fn move_by(&mut self, amount: u16, direction: Direction, matched: u32)
        requires
            move_fits(old(self).state, amount, direction, matched),
        ensures
            moved_state(old(self).state, final(self).state, amount, direction, matched),
            final(self).selected_option == old(self).selected_option,
            final(self).completion_height == old(self).completion_height,
    {
        self.state.move_by(amount, direction, matched);
    }

    /// Moves the cursor down by exactly one page; after the last page comes the
    /// first (see [`paged_selection`]), then scrolls the selection into view.
    pub fn page_up(&mut self, matched: u32)
        requires
            page_fits(old(self).state, old(self).completion_height, true, matched),
        ensures
            paged_state(old(self).state, final(self).state, old(self).completion_height, true, matched),
            final(self).selected_option == old(self).selected_option,
            final(self).completion_height == old(self).completion_height,
    {
        self.page(true, matched);
    }

    /// Moves the cursor up by exactly one page; before the first page comes the
    /// last (see [`paged_selection`]), then scrolls the selection into view.
    pub fn page_down(&mut self, matched: u32)
        requires
            page_fits(old(self).state, old(self).completion_height, false, matched),
        ensures
            paged_state(old(self).state, final(self).state, old(self).completion_height, false, matched),
            final(self).selected_option == old(self).selected_option,
            final(self).completion_height == old(self).completion_height,
    {
        self.page(false, matched);
    }

    fn page(&mut self, down: bool, matched: u32)
        requires
            page_fits(old(self).state, old(self).completion_height, down, matched),
        ensures
            paged_state(old(self).state, final(self).state, old(self).completion_height, down, matched),
            final(self).selected_option == old(self).selected_option,
            final(self).completion_height == old(self).completion_height,
    {
        if matched == 0 {
            return;
        }
        let len: u64 = matched as u64;
        let page: u64 = (self.completion_height as u64) % len;
        let target: u64 = match self.state.selected {
            None => 0,
            Some(s) => {
                let at: u64 = (s as u64) % len;
                proof {
                    lemma_small_mod(page as nat, len as nat);
                    if down {
                        lemma_add_mod_noop(s as int, self.completion_height as int, len as int);
                    } else {
                        lemma_add_mod_noop(s as int, len - page, len as int);
                        if page > 0 {
                            lemma_small_mod((len - page) as nat, len as nat);
                        } else {
                            lemma_mod_add_multiples_vanish((s as int) % (len as int), len as int);
                            lemma_mod_add_multiples_vanish(0, len as int);
                            lemma_small_mod(((s as int) % (len as int)) as nat, len as nat);
                            lemma_small_mod(0, len as nat);
                        }
                    }
                }
                let r: u64 = if down {
                    (at + page) % len
                } else {
                    (at + (len - page)) % len
                };
                proof {
                    let h = self.completion_height as int;
                    let n = len as int;
                    assert(at as int == (s as int) % n);
                    assert(page as int == h % n);
                    let want: int = if down { (s + h) % n } else { (s + n - h % n) % n };
                    assert(r as int == want);
                    assert(0 <= want < n);
                    assert(want as usize as int == want);
                    assert(r as int == paged_selection(self.state.selected, self.completion_height, down, matched)->0);
                }
                r
            },
        };
        assert(target < len);
        assert(Some(target as usize) == paged_selection(old(self).state.selected, self.completion_height, down, matched));
        self.state.selected = Some(target as usize);
        self.state.scroll_to_selection();
    }

    /// After the matcher has worked: when its matches changed, the cursor is kept
    /// on one of the `matched` entries (on the first when there are none).
    pub fn clamp_after_tick(&mut self, changed: bool, matched: u32)
        ensures
            final(self).selected_option == (if changed && old(self).selected_option > sat_sub_u32(matched, 1) {
                sat_sub_u32(matched, 1)
            } else {
                old(self).selected_option
            }),
            final(self).state == old(self).state,
            final(self).completion_height == old(self).completion_height,
    {
        if changed {
            let last = matched.saturating_sub(1);
            if self.selected_option > last {
                self.selected_option = last;
            }
        }
    }

    /// Puts the cursor on the first entry.
    pub fn to_start(&mut self)
        ensures
            final(self).selected_option == 0,
            final(self).state == old(self).state,
            final(self).completion_height == old(self).completion_height,
    {
        self.selected_option = 0;
    }

    /// Puts the cursor on the last of the `matched` entries (the first when there
    /// are none).
    pub fn to_end(&mut self, matched: u32)
        ensures
            final(self).selected_option == (if matched > 0 { matched - 1 } else { 0 }),
            final(self).state == old(self).state,
            final(self).completion_height == old(self).completion_height,
    {
        self.selected_option = matched.saturating_sub(1);
    }
}

/// `a - b`, or zero when `b` exceeds `a`.
pub open spec fn sat_sub_u32(a: u32, b: u32) -> u32 {
    if a > b { (a - b) as u32 } else { 0 }
}

/// The readout of the matcher's progress: "(running) " while it works, then the
/// number of matching entries, a slash and the number of entries.
pub open spec fn match_readout(running: bool, matched: u32, total: u32) -> Seq<char> {
    (if running { "(running) "@ } else { ""@ }) + decimal_text(matched as nat) + "/"@ + decimal_text(total as nat)
}

/// Writes the matcher's progress readout (see [`match_readout`]).
pub fn match_count_readout(running: bool, matched: u32, total: u32) -> (r: String)
    ensures
        r@ == match_readout(running, matched, total),
{
    let prefix = if running { string_of("(running) ") } else { string_of("") };
    let s = concat_strs(prefix.as_str(), decimal_string(matched as u64).as_str());
    let s = concat_strs(s.as_str(), "/");
    concat_strs(s.as_str(), decimal_string(total as u64).as_str())
}

/// Whether closing the list drops it for good (too many items to keep it as the
/// last list) rather than keeping it to reopen.
pub fn drop_on_close(item_count: u32) -> (r: bool)
    ensures
        r == (item_count > 100_000),
{
    item_count > 100_000
}

/// The input modes of a chat session.
#[derive(Debug, Clone, Copy, PartialEq, Eq, Structural)]
pub enum SessionMode {
    Normal,
    Command,
    Visual,
    Insert,
    Processing,
}

/// The actions that switch a session's mode.
#[derive(Debug, Clone, Copy, PartialEq, Eq, Structural)]
pub enum ModeAction {
    EnterCommand,
    EnterNormal,
    EnterVisual,
    EnterInsert,
    EnterProcessing,
    ExitProcessing,
}

/// The mode an action switches to, and whether the text input then has the focus:
/// only normal mode (entered directly or by leaving processing) gives it the focus.
pub open spec fn mode_after(action: ModeAction) -> (SessionMode, bool) {
    match action {
        ModeAction::EnterCommand => (SessionMode::Command, false),
        ModeAction::EnterNormal => (SessionMode::Normal, true),
        ModeAction::EnterVisual => (SessionMode::Visual, false),
        ModeAction::EnterInsert => (SessionMode::Insert, false),
        ModeAction::EnterProcessing => (SessionMode::Processing, false),
        ModeAction::ExitProcessing => (SessionMode::Normal, true),
    }
}

/// Switches mode (see [`mode_after`]).
pub fn switch_mode(action: ModeAction) -> (r: (SessionMode, bool))
    ensures
        r == mode_after(action),
{
    match action {
        ModeAction::EnterCommand => (SessionMode::Command, false),
        ModeAction::EnterNormal => (SessionMode::Normal, true),
        ModeAction::EnterVisual => (SessionMode::Visual, false),
        ModeAction::EnterInsert => (SessionMode::Insert, false),
        ModeAction::EnterProcessing => (SessionMode::Processing, false),
        ModeAction::ExitProcessing => (SessionMode::Normal, true),
    }
}

/// The text input has the focus exactly in normal mode.
pub proof fn law_focus_only_in_normal_mode(action: ModeAction)
    ensures
        mode_after(action).1 <==> mode_after(action).0 == SessionMode::Normal,
{
}

} // verus!
