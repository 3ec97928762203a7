use todo::list::{List, ListType, Row};

fn list(items: &[&str]) -> List {
    List::new(items.iter().map(|s| s.to_string()).collect(), ListType::Todo)
}

fn shown(rows: &[Row]) -> Vec<(usize, bool, &str, usize)> {
    rows.iter().map(|r| (r.y, r.first, r.text.as_str(), r.color)).collect()
}

#[test]
fn max_line_width_leaves_room_for_checkbox() {
    assert_eq!(list(&[]).get_max_line_width((20, 5)), 16);
}

#[test]
fn y_pos_counts_title_and_wrapped_lines() {
    let mut l = list(&["aaaa bbbb", "c", "d"]);
    assert_eq!(l.get_y_pos((9, 10)), 1);
    l.current_index = 1;
    assert_eq!(l.get_y_pos((9, 10)), 3);
    l.current_index = 2;
    assert_eq!(l.get_y_pos((9, 10)), 4);
    assert_eq!(l.get_y_pos((40, 10)), 3);
}

#[test]
fn rows_show_wrapped_fragments_with_checkbox_flag() {
    let mut l = list(&["aaaa bbbb", "c"]);
    let rows = l.draw((9, 10));
    assert_eq!(
        shown(&rows),
        vec![(1, true, "aaaa", 0), (2, false, "bbbb", 0), (3, true, "c", 1)]
    );
}

#[test]
fn draw_scrolls_down_to_selection() {
    let mut l = list(&["one", "two", "three"]);
    let rows = l.draw((20, 3));
    assert_eq!(shown(&rows), vec![(1, true, "one", 0), (2, true, "two", 1)]);
    assert_eq!(l.y_offset, 0);
    l.current_index = 2;
    assert!(l.out_of_bounds((20, 3)));
    let rows = l.draw((20, 3));
    assert_eq!(l.y_offset, 1);
    assert_eq!(shown(&rows), vec![(1, true, "two", 1), (2, true, "three", 2)]);
    assert_eq!(l.cursor_row((20, 3)), 2);
}

#[test]
fn draw_scrolls_up_to_selection() {
    let mut l = list(&["one", "two", "three", "four"]);
    l.y_offset = 3;
    l.current_index = 1;
    l.update_y_offset((20, 3));
    assert_eq!(l.y_offset, 1);
    let rows = l.draw((20, 3));
    assert_eq!(shown(&rows), vec![(1, true, "two", 1), (2, true, "three", 2)]);
}

#[test]
fn colors_cycle_by_item_index() {
    let items: Vec<String> = (0..14).map(|i| format!("item{}", i)).collect();
    let mut l = List::new(items, ListType::Done);
    let rows = l.draw((20, 40));
    assert_eq!(rows.len(), 14);
    assert_eq!(rows[11].color, 11);
    assert_eq!(rows[12].color, 0);
    assert_eq!(rows[13].color, 1);
}

#[test]
fn short_pane_shows_nothing() {
    let mut l = list(&["a", "b"]);
    assert!(l.draw((20, 1)).is_empty());
    assert!(l.draw((20, 0)).is_empty());
}

#[test]
fn selection_stays_visible_while_moving_down() {
    let items: Vec<String> = (0..30)
        .map(|i| if i % 3 == 0 { format!("item {} has a longer text", i) } else { format!("item {}", i) })
        .collect();
    let mut l = List::new(items, ListType::Todo);
    let size = (16u16, 6u16);
    for _ in 0..70 {
        l.move_down();
        l.draw(size);
        let y = l.get_y_pos(size);
        assert!(l.y_offset <= y && y < l.y_offset + size.1 as usize);
        assert!(!l.out_of_bounds(size));
    }
}
