use todo::storage::{load_list, print_done, print_todo, save_list};

#[test]
fn save_puts_newline_after_every_item() {
    let items = vec!["a".to_string(), "b c".to_string()];
    assert_eq!(save_list(&items), "a\nb c\n");
    assert_eq!(save_list(&vec![]), "");
}

#[test]
fn load_splits_lines() {
    assert_eq!(load_list("a\nb\n"), vec!["a", "b"]);
    assert_eq!(load_list("a\nb"), vec!["a", "b"]);
    assert_eq!(load_list("x\n\ny"), vec!["x", "", "y"]);
    assert_eq!(load_list("\n"), vec![""]);
    assert!(load_list("").is_empty());
}

#[test]
fn load_drops_carriage_return_before_newline() {
    assert_eq!(load_list("a\r\nb\r"), vec!["a", "b\r"]);
}

#[test]
fn save_then_load_gives_same_items() {
    let items: Vec<String> = vec!["buy milk", "", "  spaced  ", "é ü", "call mom"]
        .into_iter()
        .map(String::from)
        .collect();
    assert_eq!(load_list(&save_list(&items)), items);
}

#[test]
fn print_shows_one_item_per_line() {
    assert_eq!(print_todo("a\nb"), "a\nb\n");
    assert_eq!(print_done("x\r\n"), "x\n");
    assert_eq!(print_todo(""), "");
}
