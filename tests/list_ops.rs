use todo::list::{List, ListType};

fn list(items: &[&str]) -> List {
    List::new(items.iter().map(|s| s.to_string()).collect(), ListType::Todo)
}

fn texts(l: &List) -> Vec<&str> {
    l.items.iter().map(|s| s.as_str()).collect()
}

#[test]
fn list_type_next_alternates() {
    assert_eq!(ListType::Todo.next(), ListType::Done);
    assert_eq!(ListType::Done.next(), ListType::Todo);
}

#[test]
fn checkbox_text_by_list_type() {
    assert_eq!(list(&[]).get_checkbox(), "[ ] ");
    assert_eq!(List::new(vec![], ListType::Done).get_checkbox(), "[X] ");
}

#[test]
fn shift_up_at_top_rotates_to_end() {
    let mut l = list(&["a", "b", "c"]);
    l.shift_up();
    assert_eq!(texts(&l), vec!["b", "c", "a"]);
    assert_eq!(l.current_index, 2);
}

#[test]
fn shift_down_at_bottom_rotates_to_front() {
    let mut l = list(&["a", "b", "c"]);
    l.current_index = 2;
    l.shift_down();
    assert_eq!(texts(&l), vec!["c", "a", "b"]);
    assert_eq!(l.current_index, 0);
}

#[test]
fn shift_in_middle_swaps_neighbours() {
    let mut l = list(&["a", "b", "c"]);
    l.current_index = 1;
    l.shift_up();
    assert_eq!(texts(&l), vec!["b", "a", "c"]);
    assert_eq!(l.current_index, 0);
    l.shift_down();
    assert_eq!(texts(&l), vec!["a", "b", "c"]);
    assert_eq!(l.current_index, 1);
}

#[test]
fn shift_on_empty_list_does_nothing() {
    let mut l = list(&[]);
    l.shift_up();
    l.shift_down();
    assert!(l.items.is_empty());
    assert_eq!(l.current_index, 0);
}

#[test]
fn moves_go_round() {
    let mut l = list(&["a", "b", "c"]);
    l.move_up();
    assert_eq!(l.current_index, 2);
    l.move_down();
    assert_eq!(l.current_index, 0);
    l.move_down();
    assert_eq!(l.current_index, 1);
    l.move_to_bottom();
    assert_eq!(l.current_index, 2);
    l.move_to_top();
    assert_eq!(l.current_index, 0);
}

#[test]
fn moves_on_empty_list_keep_zero() {
    let mut l = list(&[]);
    l.move_up();
    l.move_down();
    l.move_to_bottom();
    assert_eq!(l.current_index, 0);
}

#[test]
fn remove_keeps_selection_in_range_from_every_index() {
    for start in 0..4 {
        let mut l = list(&["a", "b", "c", "d"]);
        l.current_index = start;
        let all = ["a", "b", "c", "d"];
        assert_eq!(l.remove(), Some(all[start].to_string()));
        assert_eq!(l.items.len(), 3);
        assert!(l.current_index < l.items.len());
        assert_eq!(l.current_index, if start == 3 { 2 } else { start });
    }
    let mut l = list(&["only"]);
    assert_eq!(l.remove(), Some("only".to_string()));
    assert_eq!(l.current_index, 0);
    assert_eq!(l.remove(), None);
    assert_eq!(l.current_index, 0);
}

#[test]
fn inserts_around_selection() {
    let mut l = list(&["a", "b"]);
    l.current_index = 1;
    l.insert_before("x".to_string());
    assert_eq!(texts(&l), vec!["a", "x", "b"]);
    assert_eq!(l.current_index, 1);
    l.insert_after("y".to_string());
    assert_eq!(texts(&l), vec!["a", "x", "y", "b"]);
    l.add("z".to_string());
    assert_eq!(texts(&l), vec!["a", "x", "y", "b", "z"]);
    l.insert("w".to_string(), 0);
    assert_eq!(texts(&l), vec!["w", "a", "x", "y", "b", "z"]);
}

#[test]
fn insert_after_on_empty_list() {
    let mut l = list(&[]);
    l.insert_after("first".to_string());
    assert_eq!(texts(&l), vec!["first"]);
    assert_eq!(l.current_index, 0);
}

#[test]
fn set_and_clone_current() {
    let mut l = list(&["a", "b"]);
    l.current_index = 1;
    assert_eq!(l.clone_current(), Some("b".to_string()));
    l.set_current("B".to_string());
    assert_eq!(texts(&l), vec!["a", "B"]);
    let mut e = list(&[]);
    assert_eq!(e.clone_current(), None);
    e.set_current("x".to_string());
    assert!(e.items.is_empty());
}

#[test]
fn sort_orders_by_code_point_and_keeps_index() {
    let mut l = list(&["pear", "Apple", "apple", "banana", "apple"]);
    l.current_index = 3;
    l.sort();
    assert_eq!(texts(&l), vec!["Apple", "apple", "apple", "banana", "pear"]);
    assert_eq!(l.current_index, 3);
}

#[test]
fn insert_past_end_appends() {
    let mut l = list(&["a"]);
    l.insert("b".to_string(), 7);
    assert_eq!(texts(&l), vec!["a", "b"]);
}
