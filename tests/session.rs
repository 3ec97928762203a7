use todo::list::ListType;
use todo::session::{
    leader_text, string_of, Event, Frame, InputDestination, InputMode, Key, TodoApp,
};

fn strings(items: &[&str]) -> Vec<String> {
    items.iter().map(|s| s.to_string()).collect()
}

fn texts(items: &[String]) -> Vec<&str> {
    items.iter().map(|s| s.as_str()).collect()
}

fn app(todo: &[&str], done: &[&str]) -> TodoApp {
    TodoApp::new(strings(todo), strings(done), (80, 24))
}

fn key(a: &mut TodoApp, k: Key) -> bool {
    a.handle_event(Event::Key(k))
}

fn typed(a: &mut TodoApp, s: &str) {
    for c in s.chars() {
        assert!(key(a, Key::Char(c)));
    }
}

#[test]
fn new_session_starts_normal_on_pending() {
    let a = TodoApp::new(vec![], vec![], (50, 20));
    assert!(a.running);
    assert_eq!(a.list_type, ListType::Todo);
    assert_eq!(a.input_mode, InputMode::Normal);
    assert!(a.one_pane);
    assert!(!TodoApp::new(vec![], vec![], (56, 20)).one_pane);
}

#[test]
fn confirm_moves_pending_item_to_done() {
    let mut a = app(&["buy milk", "call mom"], &[]);
    assert!(key(&mut a, Key::Enter));
    assert_eq!(texts(&a.todo.items), vec!["call mom"]);
    assert_eq!(texts(&a.done.items), vec!["buy milk"]);
    assert_eq!(a.todo.current_index, 0);
    assert_eq!(a.done.current_index, 0);
}

#[test]
fn check_and_uncheck_item_directly() {
    let mut a = app(&["a", "b"], &["c"]);
    a.check_item();
    assert_eq!(texts(&a.todo.items), vec!["b"]);
    assert_eq!(texts(&a.done.items), vec!["c", "a"]);
    a.uncheck_item();
    assert_eq!(texts(&a.todo.items), vec!["b", "c"]);
    assert_eq!(texts(&a.done.items), vec!["a"]);
    a.delete_item();
    assert!(a.done.items.is_empty());
    a.delete_item();
    assert!(a.done.items.is_empty());
}

#[test]
fn insert_new_item_appends_to_pending() {
    let mut a = app(&["buy milk"], &[]);
    assert!(key(&mut a, Key::Char('a')));
    assert_eq!(a.input_mode, InputMode::Insert(InputDestination::NewItem));
    typed(&mut a, "new task");
    assert!(key(&mut a, Key::Enter));
    assert_eq!(texts(&a.todo.items), vec!["buy milk", "new task"]);
    assert_eq!(a.input_mode, InputMode::Normal);
    assert!(a.input.is_empty());
    assert_eq!(a.input_index, 0);
}

#[test]
fn insert_before_and_after_selection() {
    let mut a = app(&["a", "b"], &[]);
    key(&mut a, Key::Char('j'));
    key(&mut a, Key::Char('O'));
    assert_eq!(a.input_mode, InputMode::Insert(InputDestination::NewItemBefore));
    typed(&mut a, "x");
    key(&mut a, Key::Enter);
    assert_eq!(texts(&a.todo.items), vec!["a", "x", "b"]);
    key(&mut a, Key::Char('o'));
    typed(&mut a, "y");
    key(&mut a, Key::Enter);
    assert_eq!(texts(&a.todo.items), vec!["a", "x", "y", "b"]);
}

#[test]
fn edit_replaces_focused_item() {
    let mut a = app(&["a"], &["done one"]);
    key(&mut a, Key::Char('l'));
    assert_eq!(a.list_type, ListType::Done);
    key(&mut a, Key::Char('e'));
    assert_eq!(a.input_mode, InputMode::Insert(InputDestination::EditItem));
    assert_eq!(a.input, "done one".chars().collect::<Vec<char>>());
    assert_eq!(a.input_index, 8);
    key(&mut a, Key::Backspace);
    key(&mut a, Key::Backspace);
    key(&mut a, Key::Backspace);
    typed(&mut a, "two");
    key(&mut a, Key::Enter);
    assert_eq!(texts(&a.done.items), vec!["done two"]);
    assert_eq!(texts(&a.todo.items), vec!["a"]);
}

#[test]
fn edit_on_empty_list_stays_normal() {
    let mut a = app(&[], &[]);
    key(&mut a, Key::Char('e'));
    assert_eq!(a.input_mode, InputMode::Normal);
}

#[test]
fn caret_moves_within_buffer() {
    let mut a = app(&[], &[]);
    key(&mut a, Key::Char('i'));
    typed(&mut a, "ac");
    assert!(key(&mut a, Key::Left));
    typed(&mut a, "b");
    assert_eq!(string_of(&a.input), "abc");
    key(&mut a, Key::Left);
    key(&mut a, Key::Left);
    key(&mut a, Key::Left);
    key(&mut a, Key::Left);
    assert_eq!(a.input_index, 0);
    key(&mut a, Key::Backspace);
    assert_eq!(string_of(&a.input), "abc");
    for _ in 0..5 {
        key(&mut a, Key::Right);
    }
    assert_eq!(a.input_index, 3);
    assert!(!key(&mut a, Key::Other));
    assert!(!a.handle_event(Event::Resize(10, 10)));
    assert!(key(&mut a, Key::Esc));
    assert_eq!(a.input_mode, InputMode::Normal);
    assert!(a.input.is_empty());
    assert_eq!(a.input_index, 0);
    assert!(a.todo.items.is_empty());
}

#[test]
fn done_list_keys() {
    let mut a = app(&["t"], &["x1", "x2", "x3"]);
    key(&mut a, Key::Char('h'));
    assert_eq!(a.list_type, ListType::Done);
    key(&mut a, Key::Char('d'));
    assert_eq!(texts(&a.done.items), vec!["x2", "x3"]);
    key(&mut a, Key::Backspace);
    assert_eq!(texts(&a.done.items), vec!["x3"]);
    key(&mut a, Key::Char('x'));
    assert!(a.done.items.is_empty());
    assert_eq!(texts(&a.todo.items), vec!["t", "x3"]);
    assert!(!key(&mut a, Key::Char('O')));
    assert_eq!(a.input_mode, InputMode::Normal);
}

#[test]
fn navigation_keys_reach_focused_list() {
    let mut a = app(&["c", "a", "b"], &["z"]);
    key(&mut a, Key::Char('G'));
    assert_eq!(a.todo.current_index, 2);
    key(&mut a, Key::Char('K'));
    assert_eq!(texts(&a.todo.items), vec!["c", "b", "a"]);
    assert_eq!(a.todo.current_index, 1);
    key(&mut a, Key::Char('J'));
    assert_eq!(texts(&a.todo.items), vec!["c", "a", "b"]);
    key(&mut a, Key::Char('k'));
    key(&mut a, Key::Char('g'));
    assert_eq!(a.todo.current_index, 0);
    key(&mut a, Key::Char('s'));
    assert_eq!(texts(&a.todo.items), vec!["a", "b", "c"]);
    assert_eq!(texts(&a.done.items), vec!["z"]);
}

#[test]
fn unknown_keys_ask_no_redraw() {
    let mut a = app(&["a"], &[]);
    assert!(!key(&mut a, Key::Char('z')));
    assert!(!key(&mut a, Key::Backspace));
    assert!(!key(&mut a, Key::Left));
    assert!(!a.handle_event(Event::Other));
    assert_eq!(texts(&a.todo.items), vec!["a"]);
}

#[test]
fn quit_keys_stop_session() {
    let mut a = app(&[], &[]);
    assert!(key(&mut a, Key::Char('q')));
    assert!(!a.running);
    let mut b = app(&[], &[]);
    assert!(key(&mut b, Key::Esc));
    assert!(!b.running);
}

#[test]
fn resize_decides_pane_count() {
    let mut a = app(&[], &[]);
    assert!(a.handle_event(Event::Resize(55, 30)));
    assert!(a.one_pane);
    assert_eq!(a.terminal_size, (55, 30));
    a.handle_event(Event::Resize(56, 30));
    assert!(!a.one_pane);
}

#[test]
fn regions_split_width_left_takes_odd_column() {
    let mut a = app(&[], &[]);
    a.handle_event(Event::Resize(101, 20));
    assert_eq!(a.todo_region(), ((0, 0), (51, 20)));
    assert_eq!(a.done_region(), ((51, 0), (50, 20)));
    a.handle_event(Event::Resize(40, 20));
    assert_eq!(a.todo_region(), ((0, 0), (40, 20)));
    assert_eq!(a.done_region(), ((0, 0), (40, 20)));
}

#[test]
fn redraw_wide_shows_both_panes() {
    let mut a = app(&["one", "two"], &["three"]);
    key(&mut a, Key::Char('j'));
    match a.redraw() {
        Frame::Lists(panes, cursor) => {
            assert_eq!(panes.len(), 2);
            assert_eq!(panes[0].list_type, ListType::Todo);
            assert_eq!(panes[0].pos, (0, 0));
            assert_eq!(panes[0].size, (40, 24));
            assert_eq!(panes[0].rows.len(), 2);
            assert_eq!(panes[1].list_type, ListType::Done);
            assert_eq!(panes[1].pos, (40, 0));
            assert_eq!(panes[1].rows[0].text, "three");
            assert_eq!(cursor, (0, 2));
        }
        Frame::Prompt(..) => panic!("expected lists"),
    }
}

#[test]
fn redraw_narrow_shows_focused_pane() {
    let mut a = TodoApp::new(strings(&["one"]), strings(&["two", "three"]), (30, 10));
    key(&mut a, Key::Char('l'));
    key(&mut a, Key::Char('j'));
    match a.redraw() {
        Frame::Lists(panes, cursor) => {
            assert_eq!(panes.len(), 1);
            assert_eq!(panes[0].list_type, ListType::Done);
            assert_eq!(panes[0].pos, (0, 0));
            assert_eq!(cursor, (0, 2));
        }
        Frame::Prompt(..) => panic!("expected lists"),
    }
}

#[test]
fn redraw_too_narrow_pane_shows_no_rows() {
    let mut a = TodoApp::new(strings(&["one"]), vec![], (4, 10));
    match a.redraw() {
        Frame::Lists(panes, cursor) => {
            assert!(panes[0].rows.is_empty());
            assert_eq!(cursor, (0, 0));
        }
        Frame::Prompt(..) => panic!("expected lists"),
    }
}

#[test]
fn redraw_in_insert_mode_shows_prompt() {
    let mut a = app(&[], &[]);
    key(&mut a, Key::Char('a'));
    typed(&mut a, "hé");
    key(&mut a, Key::Left);
    match a.redraw() {
        Frame::Prompt(d, text, cursor) => {
            assert_eq!(d, InputDestination::NewItem);
            assert_eq!(text, "hé");
            assert_eq!(cursor, (11, 0));
        }
        Frame::Lists(..) => panic!("expected prompt"),
    }
}

#[test]
fn leader_texts() {
    assert_eq!(leader_text(InputDestination::NewItem), "New item: ");
    assert_eq!(leader_text(InputDestination::NewItemBefore), "New item before current: ");
    assert_eq!(leader_text(InputDestination::NewItemAfter), "New item after current: ");
    assert_eq!(leader_text(InputDestination::EditItem), "Edit item: ");
}

#[test]
fn string_of_builds_text_in_order() {
    assert_eq!(string_of(&vec!['a', 'é', 'z']), "aéz");
    assert_eq!(string_of(&vec![]), "");
}
