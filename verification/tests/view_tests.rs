use sazid::events::{
    drop_on_close, handle_view_event, match_count_readout, switch_mode, ModeAction, SessionList, SessionMode, ViewEvent,
    ViewReply,
};
use sazid::highlights::{
    resolve_selection_scopes, session_selection_highlights, EditorMode, HighlightSpan,
    SelectionScopes, ThemeScopes,
};
use sazid::movement::Range;
use sazid::table::{Direction, TableState};

fn scopes() -> SelectionScopes {
    SelectionScopes { selection: 1, primary_selection: 2, cursor: 3, primary_cursor: 4 }
}

/// Boundaries of a text whose every character is a grapheme.
fn chars(len: usize) -> Vec<usize> {
    (0..=len).collect()
}

fn range(anchor: usize, head: usize) -> Range {
    Range { anchor, head, old_visual_position: None }
}

fn spans(v: &[(usize, usize, usize)]) -> Vec<HighlightSpan> {
    v.iter().map(|&(scope, start, end)| HighlightSpan { scope, start, end }).collect()
}

fn theme() -> ThemeScopes {
    ThemeScopes {
        selection: 1,
        selection_primary: None,
        cursor: None,
        cursor_primary: None,
        cursor_insert: None,
        cursor_select: None,
        cursor_normal: None,
        cursor_primary_insert: None,
        cursor_primary_select: None,
        cursor_primary_normal: None,
    }
}

#[test]
fn block_cursors_in_a_focused_terminal() {
    let ranges = vec![range(2, 5), range(7, 7), range(10, 10)];
    let r = session_selection_highlights(&ranges, 0, 10, &chars(10), EditorMode::Normal, true, true, scopes());
    assert_eq!(r, spans(&[(2, 2, 4), (4, 4, 5), (1, 7, 7), (3, 7, 8), (3, 10, 11)]));
}

#[test]
fn primary_bar_cursor_is_left_to_the_terminal() {
    let r = session_selection_highlights(&vec![range(5, 2)], 0, 10, &chars(10), EditorMode::Insert, false, true, scopes());
    assert_eq!(r, spans(&[(2, 2, 5)]));
    let r = session_selection_highlights(&vec![range(2, 5)], 0, 10, &chars(10), EditorMode::Normal, false, true, scopes());
    assert_eq!(r, spans(&[(2, 2, 5)]));
    let r = session_selection_highlights(&vec![range(10, 10)], 0, 10, &chars(10), EditorMode::Normal, true, false, scopes());
    assert_eq!(r, spans(&[]));
}

#[test]
fn backward_selection_with_a_block_cursor() {
    let r = session_selection_highlights(&vec![range(5, 2)], 0, 10, &chars(10), EditorMode::Normal, true, true, scopes());
    assert_eq!(r, spans(&[(4, 2, 3), (2, 3, 5)]));
}

#[test]
fn scopes_fall_back_on_general_ones() {
    let s = resolve_selection_scopes(EditorMode::Normal, theme());
    assert_eq!(s, SelectionScopes { selection: 1, primary_selection: 1, cursor: 1, primary_cursor: 1 });
    let mut t = theme();
    t.cursor = Some(3);
    t.cursor_insert = Some(5);
    t.selection_primary = Some(2);
    let s = resolve_selection_scopes(EditorMode::Insert, t);
    assert_eq!(s, SelectionScopes { selection: 1, primary_selection: 2, cursor: 5, primary_cursor: 3 });
    let s = resolve_selection_scopes(EditorMode::Select, t);
    assert_eq!(s.cursor, 3);
    t.cursor_primary = Some(8);
    t.cursor_primary_normal = Some(9);
    assert_eq!(resolve_selection_scopes(EditorMode::Normal, t).primary_cursor, 9);
    assert_eq!(resolve_selection_scopes(EditorMode::Select, t).primary_cursor, 8);
}

fn table_state() -> TableState {
    TableState {
        scroll_offset: 0,
        vertical_scroll: 4,
        scroll_max: 5,
        row_heights: vec![],
        sticky_scroll: false,
        viewport_height: 3,
        selected: None,
    }
}

#[test]
fn mouse_wheel_scrolls_the_view() {
    let mut s = table_state();
    assert_eq!(handle_view_event(&mut s, ViewEvent::MouseScrollDown), (ViewReply::Ignored, true, true));
    assert_eq!(s.vertical_scroll, 5);
    assert!(s.sticky_scroll);
    assert_eq!(handle_view_event(&mut s, ViewEvent::MouseScrollUp), (ViewReply::Ignored, true, true));
    assert_eq!(s.vertical_scroll, 4);
    assert!(!s.sticky_scroll);
}

#[test]
fn other_events_are_passed_on() {
    let mut s = table_state();
    assert_eq!(handle_view_event(&mut s, ViewEvent::IdleTimeout), (ViewReply::HandleIdleTimeout, false, false));
    assert_eq!(handle_view_event(&mut s, ViewEvent::Paste), (ViewReply::Consumed, false, true));
    assert_eq!(handle_view_event(&mut s, ViewEvent::Resize), (ViewReply::Consumed, false, true));
    assert_eq!(handle_view_event(&mut s, ViewEvent::Key), (ViewReply::Ignored, false, true));
    assert_eq!(handle_view_event(&mut s, ViewEvent::MouseOther), (ViewReply::Ignored, false, true));
    assert_eq!(s.vertical_scroll, 4);
}

#[test]
fn large_lists_are_dropped_on_close() {
    assert!(!drop_on_close(100_000));
    assert!(drop_on_close(100_001));
}

#[test]
fn mode_switches() {
    assert_eq!(switch_mode(ModeAction::EnterCommand), (SessionMode::Command, false));
    assert_eq!(switch_mode(ModeAction::EnterNormal), (SessionMode::Normal, true));
    assert_eq!(switch_mode(ModeAction::EnterVisual), (SessionMode::Visual, false));
    assert_eq!(switch_mode(ModeAction::EnterInsert), (SessionMode::Insert, false));
    assert_eq!(switch_mode(ModeAction::EnterProcessing), (SessionMode::Processing, false));
    assert_eq!(switch_mode(ModeAction::ExitProcessing), (SessionMode::Normal, true));
}

#[test]
fn session_list_pages_and_jumps() {
    let mut list = SessionList {
        state: TableState {
            scroll_offset: 0,
            vertical_scroll: 0,
            scroll_max: 0,
            row_heights: vec![1, 1, 1, 1, 1, 1],
            sticky_scroll: false,
            viewport_height: 2,
            selected: Some(0),
        },
        selected_option: 3,
        completion_height: 2,
    };
    // Paging down (page_up) wraps from the last page to the first.
    list.page_up(6);
    assert_eq!(list.state.selected, Some(2));
    assert_eq!(list.state.vertical_scroll, 1);
    list.page_up(6);
    assert_eq!(list.state.selected, Some(4));
    list.page_up(6);
    assert_eq!(list.state.selected, Some(0));
    assert_eq!(list.state.vertical_scroll, 0);
    // Paging up (page_down) wraps from the first page to the last.
    list.page_down(6);
    assert_eq!(list.state.selected, Some(4));
    list.page_down(6);
    assert_eq!(list.state.selected, Some(2));
    list.page_down(0);
    assert_eq!(list.state.selected, Some(2));
    list.completion_height = 13;
    list.page_down(6);
    assert_eq!(list.state.selected, Some(1));
    list.page_up(6);
    assert_eq!(list.state.selected, Some(2));
    list.to_end(6);
    assert_eq!(list.selected_option, 5);
    list.to_start();
    assert_eq!(list.selected_option, 0);
    list.to_end(0);
    assert_eq!(list.selected_option, 0);
}

#[test]
fn cursors_cover_whole_graphemes() {
    // A text of 10 characters whose characters 3..6 form one grapheme.
    let b = vec![0, 1, 2, 3, 6, 7, 8, 9, 10];
    let r = session_selection_highlights(&vec![range(3, 3)], 0, 10, &b, EditorMode::Normal, true, true, scopes());
    assert_eq!(r, spans(&[(2, 3, 3), (4, 3, 6)]));
    let r = session_selection_highlights(&vec![range(1, 6)], 0, 10, &b, EditorMode::Normal, true, true, scopes());
    assert_eq!(r, spans(&[(2, 1, 3), (4, 3, 6)]));
    let r = session_selection_highlights(&vec![range(7, 3)], 0, 10, &b, EditorMode::Normal, true, true, scopes());
    assert_eq!(r, spans(&[(4, 3, 6), (2, 6, 7)]));
}

#[test]
fn selection_is_clamped_after_a_tick_and_progress_is_shown() {
    let mut list = SessionList { state: table_state(), selected_option: 7, completion_height: 2 };
    list.clamp_after_tick(false, 3);
    assert_eq!(list.selected_option, 7);
    list.clamp_after_tick(true, 3);
    assert_eq!(list.selected_option, 2);
    list.clamp_after_tick(true, 0);
    assert_eq!(list.selected_option, 0);
    assert_eq!(match_count_readout(true, 3, 10), "(running) 3/10");
    assert_eq!(match_count_readout(false, 0, 0), "0/0");
}

#[test]
fn wheel_scrolls_keep_the_rest_of_the_state() {
    let mut s = table_state();
    s.scroll_offset = 2;
    let before_height = s.viewport_height;
    handle_view_event(&mut s, ViewEvent::MouseScrollUp);
    assert_eq!(s.scroll_offset, 2);
    assert_eq!(s.viewport_height, before_height);
    assert!(!s.sticky_scroll);
}
