use sazid::table::{column_chunks, Cell, Constraint, Direction, Row, Table, TableState};

fn state(row_heights: Vec<u16>, viewport_height: u16) -> TableState {
    TableState {
        scroll_offset: 0,
        vertical_scroll: 0,
        scroll_max: 0,
        row_heights,
        sticky_scroll: false,
        viewport_height,
        selected: None,
    }
}

fn cell(text: &str) -> Cell {
    Cell { content: text.to_string(), words: vec![], line_count: 1, wrap: None }
}

fn wrapped(text: &str, trim: bool) -> Cell {
    let words: Vec<String> = text.split_inclusive(' ').map(|w| w.to_string()).collect();
    Cell { content: text.to_string(), words, line_count: 1, wrap: Some(trim) }
}

fn rows(heights: &[u16]) -> Vec<Row> {
    heights.iter().map(|h| Row::new(vec![cell(&format!("row of {}", h))]).height(*h)).collect()
}

#[test]
fn row_extents_at_the_top() {
    let table = Table::new(rows(&[2, 3, 1]));
    let extents = table.get_row_extents(0, 0, 4);
    assert_eq!(extents, vec![Some((0, 0, 0, 2)), Some((1, 2, 0, 2)), None]);
}

#[test]
fn row_extents_scrolled() {
    let table = Table::new(rows(&[2, 3, 1]));
    let extents = table.get_row_extents(3, 0, 4);
    assert_eq!(extents, vec![None, Some((1, 0, 1, 2)), Some((2, 2, 0, 1))]);
}

#[test]
fn row_extents_with_spacing() {
    let table = Table::new(rows(&[1, 1, 1])).row_spacing(1);
    let extents = table.get_row_extents(0, 1, 3);
    assert_eq!(extents, vec![Some((0, 0, 0, 1)), Some((1, 2, 0, 1)), None]);
}

#[test]
fn row_heights_include_margins() {
    let table = Table::new(vec![
        Row::new(vec![cell("a")]).height(2).bottom_margin(1),
        Row::new(vec![cell("b")]),
        Row::new(vec![cell("c")]).height(u16::MAX).bottom_margin(3),
    ]);
    assert_eq!(table.row_heights(), vec![3, 1, u16::MAX]);
}

#[test]
fn table_builders_keep_other_settings() {
    let table = Table::new(rows(&[1]))
        .header(Row::new(vec![cell("h")]))
        .widths(vec![Constraint::Percentage(50), Constraint::Length(3)])
        .column_spacing(2)
        .row_spacing(1);
    assert_eq!(table.rows.len(), 1);
    assert_eq!(table.header.as_ref().unwrap().cells[0].content, "h");
    assert_eq!(table.widths, vec![Constraint::Percentage(50), Constraint::Length(3)]);
    assert_eq!(table.column_spacing, 2);
    assert_eq!(table.row_spacing, 1);
}

#[test]
fn sticky_table_follows_its_end() {
    let mut s = state(vec![3, 4, 5], 5);
    s.sticky_scroll = true;
    s.update_sticky_scroll();
    assert_eq!(s.scroll_max, 7);
    assert_eq!(s.vertical_scroll, 7);
    let mut t = state(vec![3, 4, 5], 5);
    t.vertical_scroll = 2;
    t.update_sticky_scroll();
    assert_eq!(t.scroll_max, 7);
    assert_eq!(t.vertical_scroll, 2);
}

#[test]
fn short_table_does_not_scroll() {
    let mut s = state(vec![1, 1], 5);
    s.scroll_offset = 1;
    s.update_sticky_scroll();
    assert_eq!(s.scroll_max, 0);
}

#[test]
fn scrolling_stays_within_bounds() {
    let mut s = state(vec![], 5);
    s.scroll_max = 10;
    s.vertical_scroll = 9;
    s.scroll_by(5, Direction::Forward);
    assert_eq!(s.vertical_scroll, 10);
    assert!(s.sticky_scroll);
    s.scroll_by(3, Direction::Backward);
    assert_eq!(s.vertical_scroll, 7);
    assert!(!s.sticky_scroll);
    s.scroll_by(20, Direction::Backward);
    assert_eq!(s.vertical_scroll, 0);
    s.scroll_top();
    assert_eq!(s.vertical_scroll, 0);
    assert!(!s.sticky_scroll);
}

#[test]
fn selection_is_scrolled_into_view() {
    let mut s = state(vec![3, 4, 5], 5);
    s.select(Some(2));
    s.scroll_to_selection();
    assert_eq!(s.vertical_scroll, 7);
    s.select(Some(0));
    s.scroll_to_selection();
    assert_eq!(s.vertical_scroll, 0);
    assert_eq!(s.selected(), Some(0));
}

#[test]
fn clearing_the_selection_resets_the_offset() {
    let mut s = state(vec![1], 5);
    s.scroll_offset = 4;
    s.select(Some(0));
    assert_eq!(s.scroll_offset, 4);
    s.select(None);
    assert_eq!(s.scroll_offset, 0);
    assert_eq!(s.selected(), None);
}

#[test]
fn moving_the_selection() {
    let mut s = state(vec![3, 4, 5], 5);
    s.move_by(1, Direction::Forward, 3);
    assert_eq!(s.selected, Some(0));
    s.move_by(5, Direction::Forward, 3);
    assert_eq!(s.selected, Some(2));
    assert_eq!(s.vertical_scroll, 7);
    s.move_by(5, Direction::Backward, 3);
    assert_eq!(s.selected, Some(0));
    assert_eq!(s.vertical_scroll, 0);
    s.move_by(1, Direction::Forward, 0);
    assert_eq!(s.selected, Some(0));
}

#[test]
fn column_layout_constraints() {
    let table = Table::new(rows(&[1])).widths(vec![Constraint::Percentage(50), Constraint::Length(10)]);
    assert_eq!(
        table.column_constraints(Some(2)),
        vec![Constraint::Length(2), Constraint::Percentage(50), Constraint::Length(1), Constraint::Length(10)]
    );
    assert_eq!(
        table.column_constraints(None),
        vec![Constraint::Percentage(50), Constraint::Length(1), Constraint::Length(10)]
    );
    assert_eq!(Table::new(vec![]).column_constraints(Some(3)), vec![Constraint::Length(3)]);
}

#[test]
fn column_chunks_skip_marker_and_spacing() {
    assert_eq!(column_chunks(vec![2u16, 30, 1, 10], true), vec![30, 10]);
    assert_eq!(column_chunks(vec![30u16, 1, 10], false), vec![30, 10]);
    assert_eq!(column_chunks(vec![5u16], false), vec![5]);
    assert_eq!(column_chunks(Vec::<u16>::new(), false), Vec::<u16>::new());
}

#[test]
fn row_extent_counts_the_last_viewport_line() {
    let table = Table::new(rows(&[2]));
    assert_eq!(table.get_row_extents(0, 0, 2), vec![Some((0, 0, 0, 2))]);
    assert_eq!(table.get_row_extents(0, 0, 1), vec![Some((0, 0, 0, 1))]);
}

#[test]
fn rows_grow_to_their_tallest_cell() {
    let mut row = Row::new(vec![
        cell("a"),
        wrapped("one two three four", true),
        Cell { content: "x\ny\nz".to_string(), words: vec![], line_count: 3, wrap: None },
    ])
    .height(2);
    assert_eq!(row.cells[1].calculate_height(9), 3);
    assert_eq!(row.cells[1].calculate_height(10), 2);
    assert_eq!(row.cells[1].calculate_height(4), 4);
    assert_eq!(row.cells[1].calculate_height(0), 0);
    row.update_wrapped_heights(&vec![10, 10]);
    assert_eq!(row.height, 2);
    row.update_wrapped_heights(&vec![10, 4, 1]);
    assert_eq!(row.height, 4);
    row.update_wrapped_heights(&vec![]);
    assert_eq!(row.height, 4);
}
