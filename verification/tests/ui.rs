use hifirs::ui::{
    centered, centered_constraints, count_lines, height_of, tab_padding, ColumnWidth, Constraint,
    Item, List, ListState, Row, Table, TAB_TITLES,
};

fn items(count: usize) -> Vec<Item> {
    (0..count).map(|i| Item { content: format!("item {i}") }).collect()
}

fn row(columns: &[&str]) -> Row {
    Row::new(
        columns.iter().map(|c| c.to_string()).collect(),
        columns.iter().map(|_| ColumnWidth::new(50)).collect(),
    )
}

#[test]
fn a_new_list_selects_nothing() {
    let list = List::new(None);
    assert!(list.items.is_empty());
    assert_eq!(list.selected(), None);
    assert_eq!(list.state, ListState::default());
    let list = List::new(Some(items(3)));
    assert_eq!(list.items.len(), 3);
    assert_eq!(list.selected(), None);
    assert_eq!(list.list_items(), vec!["item 0", "item 1", "item 2"]);
}

#[test]
fn next_walks_down_and_stops_at_the_end() {
    let mut list = List::new(Some(items(3)));
    list.next();
    assert_eq!(list.selected(), Some(0));
    list.next();
    assert_eq!(list.selected(), Some(1));
    list.next();
    assert_eq!(list.selected(), Some(2));
    list.next();
    assert_eq!(list.selected(), Some(2));
    list.select(40);
    list.next();
    assert_eq!(list.selected(), Some(2));
    let mut empty = List::new(None);
    empty.next();
    assert_eq!(empty.selected(), Some(0));
    empty.next();
    assert_eq!(empty.selected(), Some(0));
}

#[test]
fn previous_walks_up_and_stops_at_the_top() {
    let mut list = List::new(Some(items(3)));
    list.previous();
    assert_eq!(list.selected(), Some(0));
    list.select(2);
    list.previous();
    assert_eq!(list.selected(), Some(1));
    list.previous();
    list.previous();
    assert_eq!(list.selected(), Some(0));
    let mut empty = List::new(None);
    empty.select(5);
    empty.previous();
    assert_eq!(empty.selected(), Some(0));
}

#[test]
fn set_items_keeps_the_selection_within_the_new_length() {
    let mut list = List::new(Some(items(10)));
    list.set_items(items(4));
    assert_eq!(list.selected(), Some(0));
    list.select(9);
    list.set_items(items(4));
    assert_eq!(list.selected(), Some(4));
    list.set_items(items(6));
    assert_eq!(list.selected(), Some(4));
    assert_eq!(list.items.len(), 6);
    list.select(2);
    list.set_items(items(2));
    assert_eq!(list.selected(), Some(2));
}

#[test]
fn selecting_nothing_shows_the_list_from_the_top() {
    let mut state = ListState { offset: 7, selected: Some(9) };
    state.select(Some(3));
    assert_eq!(state, ListState { offset: 7, selected: Some(3) });
    state.select(None);
    assert_eq!(state, ListState { offset: 0, selected: None });
    assert_eq!(state.selected(), None);
}

#[test]
fn column_widths_are_percentages() {
    let width = ColumnWidth::new(35);
    assert_eq!(width.column_size, 35);
    assert_eq!(width.constraint, Constraint::Percentage(35));
}

#[test]
fn lines_are_counted_by_their_line_feeds() {
    assert_eq!(count_lines(""), 1);
    assert_eq!(count_lines("one"), 1);
    assert_eq!(count_lines("one\ntwo"), 2);
    assert_eq!(count_lines("\n\n\n"), 4);
    assert_eq!(count_lines("é\nü\r\n"), 3);
}

#[test]
fn the_height_is_that_of_the_tallest_cell() {
    assert_eq!(height_of(&Vec::new()), 1);
    assert_eq!(height_of(&vec!["a".to_string(), "b\nc\nd".to_string(), "e\nf".to_string()]), 3);
    assert_eq!(height_of(&vec!["".to_string()]), 1);
    let tall = "\n".repeat(65_535);
    assert_eq!(height_of(&vec![tall, "x".to_string()]), 0);
    assert_eq!(height_of(&vec!["\n".repeat(65_536)]), 1);
}

#[test]
fn a_row_is_wrapped_to_the_widths_of_its_columns() {
    let row = row(&["Memory safety without garbage collection.", "short"]);
    let drawn = row.term_row(&vec![15, 40]);
    assert_eq!(
        drawn.cells,
        vec!["Memory safety\nwithout garbage\ncollection.", "short"]
    );
    assert_eq!(drawn.height, 3);
    let wide = row.term_row(&vec![80, 80, 3]);
    assert_eq!(wide.cells, vec!["Memory safety without garbage collection.", "short"]);
    assert_eq!(wide.height, 1);
    assert_eq!(row.wrapped_columns(&vec![6, 1])[1], "s\nh\no\nr\nt");
    let none = Row::new(Vec::new(), Vec::new());
    let drawn = none.term_row(&Vec::new());
    assert!(drawn.cells.is_empty());
    assert_eq!(drawn.height, 1);
}

#[test]
fn a_table_needs_header_rows_and_widths() {
    let table = Table::new(
        Some(vec!["Title".to_string()]),
        Some(vec![row(&["a"]), row(&["b"])]),
        Some(vec![ColumnWidth::new(100)]),
    );
    assert_eq!(table.rows.len(), 2);
    assert_eq!(table.header, vec!["Title"]);
    assert_eq!(table.constraints(), vec![Constraint::Percentage(100)]);
    assert_eq!(table.selected(), None);
    let partial = Table::new(Some(vec!["Title".to_string()]), None, Some(vec![ColumnWidth::new(100)]));
    assert!(partial.rows.is_empty());
    assert!(partial.header.is_empty());
    assert!(partial.widths.is_empty());
}

#[test]
fn the_selection_of_a_table_moves_like_that_of_a_list() {
    let mut table = Table::new(None, None, None);
    table.set_rows(vec![row(&["a"]), row(&["b"]), row(&["c"])]);
    table.set_header(vec!["H".to_string()]);
    table.set_widths(vec![ColumnWidth::new(10), ColumnWidth::new(90)]);
    assert_eq!(table.constraints(), vec![Constraint::Percentage(10), Constraint::Percentage(90)]);
    assert_eq!(table.selected(), None);
    table.next();
    assert_eq!(table.selected(), Some(0));
    table.next();
    table.next();
    table.next();
    assert_eq!(table.selected(), Some(2));
    table.previous();
    assert_eq!(table.selected(), Some(1));
    table.select(0);
    table.previous();
    assert_eq!(table.selected(), Some(0));
    table.set_rows(Vec::new());
    assert_eq!(table.selected(), Some(0));
    table.select(3);
    table.next();
    assert_eq!(table.selected(), Some(0));
}

#[test]
fn tab_titles_are_centred_in_half_the_screen() {
    assert_eq!(tab_padding(8), 0);
    assert_eq!(tab_padding(80), 36);
    assert_eq!(tab_padding(81), 36);
    assert_eq!(TAB_TITLES, ["Now Playing", "Search Results"]);
    assert_eq!(centered("Now Playing", 15), format!("{:^15}", "Now Playing"));
    assert_eq!(centered("Now Playing", 16), "  Now Playing   ");
    assert_eq!(centered("Now Playing", 11), "Now Playing");
    assert_eq!(centered("Now Playing", 3), "Now Playing");
    assert_eq!(centered("", 3), "   ");
    assert_eq!(centered("é", 4), format!("{:^4}", "é"));
    for width in 0..40 {
        assert_eq!(centered("Search Results", width), format!("{:^width$}", "Search Results"));
    }
}

#[test]
fn the_middle_of_the_screen() {
    assert_eq!(
        centered_constraints(60),
        vec![Constraint::Percentage(20), Constraint::Percentage(60), Constraint::Percentage(20)]
    );
    assert_eq!(
        centered_constraints(10),
        vec![Constraint::Percentage(45), Constraint::Percentage(10), Constraint::Percentage(45)]
    );
    assert_eq!(
        centered_constraints(100),
        vec![Constraint::Percentage(0), Constraint::Percentage(100), Constraint::Percentage(0)]
    );
    assert_eq!(centered_constraints(99)[0], Constraint::Percentage(0));
}

#[test]
fn a_column_without_width_takes_one_character_a_line() {
    let narrow = row(&["foo bar", ""]);
    let drawn = narrow.term_row(&vec![0, 0]);
    assert_eq!(drawn.cells, vec!["f\no\no\nb\na\nr", ""]);
    assert_eq!(drawn.height, 6);
}
