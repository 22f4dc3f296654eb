use sazid::movement::{
    min_width_1, put_cursor, session_move_horizontally, session_move_vertically,
    translate_char_index_to_pos, translate_pos_to_char_index, viewport_byte_range, Movement,
    Position, Range, Rect, TextLines,
};
use sazid::movement::{session_cursor, CursorKind};
use sazid::table::Direction;

// "ab\n", "cde\n", "f": eight characters on three lines.
fn text() -> TextLines {
    TextLines::new(vec![3, 4, 1])
}

fn point(i: usize) -> Range {
    Range { anchor: i, head: i, old_visual_position: None }
}

#[test]
fn line_and_character_indices() {
    let t = text();
    assert_eq!(t.len_lines(), 3);
    assert_eq!(t.len_chars(), 8);
    assert_eq!(t.get_line_len(1), Some(4));
    assert_eq!(t.get_line_len(3), None);
    assert_eq!(
        (t.line_to_char(0), t.line_to_char(1), t.line_to_char(2), t.line_to_char(3)),
        (0, 3, 7, 8)
    );
    let lines: Vec<usize> = (0..=8).map(|i| t.char_to_line(i)).collect();
    assert_eq!(lines, vec![0, 0, 0, 1, 1, 1, 1, 2, 2]);
}

#[test]
fn positions_and_indices_round_trip() {
    let t = text();
    assert_eq!(translate_char_index_to_pos(&t, 5), Position { row: 1, col: 2 });
    assert_eq!(translate_char_index_to_pos(&t, 8), Position { row: 2, col: 1 });
    let area = Rect { x: 1, y: 1, width: 20, height: 10 };
    assert_eq!(translate_pos_to_char_index(&t, area, Position { row: 2, col: 3 }), 5);
    assert_eq!(translate_pos_to_char_index(&t, area, Position { row: 0, col: 0 }), 0);
    for i in 0..=8 {
        let p = translate_char_index_to_pos(&t, i);
        let back = translate_pos_to_char_index(&t, Rect { x: 0, y: 0, width: 0, height: 0 }, p);
        assert_eq!(back, i);
    }
}

#[test]
fn horizontal_moves_stay_in_the_text() {
    let t = text();
    assert_eq!(session_move_horizontally(&t, point(2), Direction::Forward, 10, Movement::Move), point(7));
    assert_eq!(session_move_horizontally(&t, point(2), Direction::Backward, 10, Movement::Move), point(0));
    assert_eq!(session_move_horizontally(&t, point(2), Direction::Forward, 3, Movement::Move), point(5));
    let extended = session_move_horizontally(&t, point(2), Direction::Forward, 1, Movement::Extend);
    assert_eq!(extended, Range { anchor: 2, head: 3, old_visual_position: None });
}

#[test]
fn vertical_moves_keep_the_column() {
    let t = text();
    assert_eq!(session_move_vertically(&t, point(5), Direction::Backward, 1, Movement::Move), point(2));
    assert_eq!(session_move_vertically(&t, point(5), Direction::Forward, 1, Movement::Move), point(7));
    assert_eq!(session_move_vertically(&t, point(5), Direction::Forward, 5, Movement::Move), point(7));
    assert_eq!(session_move_vertically(&t, point(1), Direction::Backward, 3, Movement::Move), point(1));
    assert_eq!(session_move_vertically(&t, point(1), Direction::Forward, 1, Movement::Move), point(4));
    let extended = session_move_vertically(&t, point(1), Direction::Forward, 1, Movement::Extend);
    assert_eq!(extended, Range { anchor: 1, head: 4, old_visual_position: None });
}

#[test]
fn cursor_placement_and_width() {
    let r = Range { anchor: 1, head: 4, old_visual_position: None };
    assert_eq!(put_cursor(r, 6, true), Range { anchor: 1, head: 6, old_visual_position: None });
    assert_eq!(put_cursor(r, 6, false), point(6));
    assert_eq!(min_width_1(&point(3)), Range { anchor: 3, head: 4, old_visual_position: None });
    assert_eq!(min_width_1(&r), r);
}

#[test]
fn viewport_ranges() {
    let t = text();
    assert_eq!(viewport_byte_range(&t, 0, 2), (0, 7));
    assert_eq!(viewport_byte_range(&t, 1, 5), (3, 8));
    assert_eq!(viewport_byte_range(&t, 5, 1), (7, 8));
    assert_eq!(viewport_byte_range(&t, 0, 0), (0, 3));
}

#[test]
fn cursor_on_screen() {
    let t = text();
    let viewport = Rect { x: 2, y: 1, width: 20, height: 10 };
    assert_eq!(session_cursor(&t, point(5), viewport, true, true), (Some(Position { row: 2, col: 4 }), CursorKind::Block));
    let forward = Range { anchor: 1, head: 4, old_visual_position: None };
    assert_eq!(session_cursor(&t, forward, viewport, true, true), (Some(Position { row: 2, col: 2 }), CursorKind::Block));
    assert_eq!(session_cursor(&t, point(20), viewport, true, true), (Some(Position { row: 3, col: 3 }), CursorKind::Block));
    assert_eq!(session_cursor(&t, point(5), viewport, true, false), (None, CursorKind::Hidden));
    assert_eq!(session_cursor(&t, point(5), viewport, false, true), (None, CursorKind::Hidden));
}
