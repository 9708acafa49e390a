use rust_wrd::{Action, Editor, Key};

fn text(s: &str) -> Vec<char> {
    s.chars().collect()
}

fn rows(e: &Editor) -> Vec<String> {
    (0..e.line_count()).map(|i| e.row(i).iter().collect()).collect()
}

fn loaded(s: &str, screen_rows: usize) -> Editor {
    let mut e = Editor::new(screen_rows, 80);
    e.load(&text(s), String::from("f.txt"));
    e
}

#[test]
fn new_editor_has_one_empty_row() {
    let e = Editor::new(5, 40);
    assert_eq!(rows(&e), vec![String::new()]);
    assert_eq!((e.cursor_y(), e.cursor_x(), e.viewport_offset()), (0, 0, 0));
    assert_eq!(e.file_path(), &None);
}

#[test]
fn left_right_stay_within_a_single_row() {
    let mut e = loaded("abc", 5);
    let keys = [
        Key::Left, Key::Right, Key::Right, Key::Right, Key::Right, Key::Right,
        Key::Left, Key::Left, Key::Left, Key::Left, Key::Left, Key::Right,
    ];
    for k in keys {
        e.apply(k);
        assert!(e.cursor_x() <= 3);
        assert_eq!(e.cursor_y(), 0);
    }
    assert_eq!(e.cursor_x(), 1);
}

#[test]
fn right_at_row_end_goes_to_next_row() {
    let mut e = loaded("ab\ncd", 5);
    e.apply(Key::End);
    assert_eq!(e.cursor_x(), 2);
    e.apply(Key::Right);
    assert_eq!((e.cursor_y(), e.cursor_x()), (1, 0));
}

#[test]
fn right_at_end_of_last_row_does_nothing() {
    let mut e = loaded("ab\ncd", 5);
    e.apply(Key::Down);
    e.apply(Key::End);
    e.apply(Key::Right);
    assert_eq!((e.cursor_y(), e.cursor_x()), (1, 2));
}

#[test]
fn left_at_second_column_goes_to_end_of_row_above() {
    let mut e = loaded("abc\nde", 5);
    e.apply(Key::Down);
    e.apply(Key::Right);
    e.apply(Key::Left);
    assert_eq!((e.cursor_y(), e.cursor_x()), (0, 3));
}

#[test]
fn backspace_at_start_does_nothing() {
    let mut e = loaded("ab\ncd", 5);
    e.apply(Key::Backspace);
    assert_eq!(rows(&e), vec!["ab", "cd"]);
    assert_eq!((e.cursor_y(), e.cursor_x()), (0, 0));
}

#[test]
fn printable_inserts_at_cursor() {
    let mut e = loaded("abc", 5);
    e.apply(Key::End);
    assert_eq!((e.cursor_y(), e.cursor_x()), (0, 3));
    assert_eq!(e.apply(Key::Printable('d')), Action::Continue);
    assert_eq!(rows(&e), vec!["abcd"]);
    assert_eq!((e.cursor_y(), e.cursor_x()), (0, 4));
}

#[test]
fn printable_inserts_in_the_middle() {
    let mut e = loaded("ac", 5);
    e.apply(Key::Right);
    e.apply(Key::Printable('b'));
    assert_eq!(rows(&e), vec!["abc"]);
    assert_eq!(e.cursor_x(), 2);
}

#[test]
fn backspace_at_row_start_drops_the_row() {
    let mut e = loaded("ab\ncd", 5);
    e.apply(Key::Down);
    assert_eq!((e.cursor_y(), e.cursor_x()), (1, 0));
    e.apply(Key::Backspace);
    assert_eq!(rows(&e), vec!["ab"]);
    assert_eq!((e.cursor_y(), e.cursor_x()), (0, 2));
}

#[test]
fn backspace_deletes_the_character_before_the_cursor() {
    let mut e = loaded("abc", 5);
    e.apply(Key::Right);
    e.apply(Key::Right);
    e.apply(Key::Backspace);
    assert_eq!(rows(&e), vec!["ac"]);
    assert_eq!(e.cursor_x(), 1);
}

#[test]
fn backspace_in_a_middle_row_drops_that_row() {
    let mut e = loaded("a\nb\nc", 5);
    e.apply(Key::Down);
    e.apply(Key::Backspace);
    assert_eq!(rows(&e), vec!["a", "c"]);
    assert_eq!((e.cursor_y(), e.cursor_x()), (0, 1));
}

#[test]
fn enter_adds_an_empty_row_below() {
    let mut e = loaded("abc\nxyz", 5);
    e.apply(Key::Right);
    e.apply(Key::Enter);
    assert_eq!(rows(&e), vec!["abc", "", "xyz"]);
    assert_eq!((e.cursor_y(), e.cursor_x()), (1, 0));
}

#[test]
fn up_and_down_clamp_the_column() {
    let mut e = loaded("abcdef\nab\nabcd", 5);
    e.apply(Key::End);
    e.apply(Key::Down);
    assert_eq!((e.cursor_y(), e.cursor_x()), (1, 2));
    e.apply(Key::Down);
    assert_eq!((e.cursor_y(), e.cursor_x()), (2, 2));
    e.apply(Key::Down);
    assert_eq!((e.cursor_y(), e.cursor_x()), (2, 2));
    e.apply(Key::Up);
    e.apply(Key::Up);
    e.apply(Key::Up);
    assert_eq!((e.cursor_y(), e.cursor_x()), (0, 2));
}

#[test]
fn home_and_end() {
    let mut e = loaded("hello", 5);
    e.apply(Key::End);
    assert_eq!(e.cursor_x(), 5);
    e.apply(Key::Home);
    assert_eq!(e.cursor_x(), 0);
}

#[test]
fn page_keys_move_screen_rows_steps() {
    let body: Vec<String> = (0..20).map(|i| format!("row{}", i)).collect();
    let mut e = loaded(&body.join("\n"), 6);
    e.apply(Key::PageDown);
    assert_eq!(e.cursor_y(), 6);
    e.apply(Key::PageDown);
    e.apply(Key::PageDown);
    e.apply(Key::PageDown);
    assert_eq!(e.cursor_y(), 19);
    e.apply(Key::PageUp);
    assert_eq!(e.cursor_y(), 13);
    e.apply(Key::PageUp);
    e.apply(Key::PageUp);
    assert_eq!(e.cursor_y(), 1);
    e.apply(Key::PageUp);
    assert_eq!(e.cursor_y(), 0);
}

#[test]
fn ctrl_u_clears_the_row() {
    let mut e = loaded("abc\ndef", 5);
    e.apply(Key::Down);
    e.apply(Key::End);
    assert_eq!(e.apply(Key::CtrlU), Action::Continue);
    assert_eq!(rows(&e), vec!["abc", ""]);
    assert_eq!((e.cursor_y(), e.cursor_x()), (1, 0));
}

#[test]
fn ctrl_s_asks_for_a_save_and_changes_nothing() {
    let mut e = loaded("abc", 5);
    e.apply(Key::Right);
    assert_eq!(e.apply(Key::CtrlS), Action::Save);
    assert_eq!(rows(&e), vec!["abc"]);
    assert_eq!(e.cursor_x(), 1);
}

#[test]
fn ctrl_q_quits_and_changes_nothing() {
    let mut e = loaded("abc\nde", 5);
    e.apply(Key::Down);
    e.apply(Key::Right);
    assert_eq!(e.apply(Key::CtrlQ), Action::Quit);
    assert_eq!(rows(&e), vec!["abc", "de"]);
    assert_eq!((e.cursor_y(), e.cursor_x(), e.viewport_offset()), (1, 1, 0));
}

#[test]
fn unbound_keys_do_nothing() {
    let mut e = loaded("abc", 5);
    e.apply(Key::Right);
    for k in [Key::Delete, Key::Escape, Key::Control(1)] {
        assert_eq!(e.apply(k), Action::Continue);
    }
    assert_eq!(rows(&e), vec!["abc"]);
    assert_eq!(e.cursor_x(), 1);
}

#[test]
fn viewport_follows_the_cursor_down() {
    let body: Vec<String> = (0..20).map(|i| format!("line {}", i)).collect();
    let mut e = loaded(&body.join("\n"), 10);
    e.refresh();
    while e.cursor_y() < 15 {
        e.apply(Key::Down);
        e.refresh();
    }
    assert_eq!(e.cursor_y(), 15);
    assert_eq!(e.viewport_offset(), 6);
}

#[test]
fn viewport_follows_the_cursor_back_up() {
    let body: Vec<String> = (0..20).map(|i| format!("line {}", i)).collect();
    let mut e = loaded(&body.join("\n"), 10);
    for _ in 0..19 {
        e.apply(Key::Down);
    }
    e.refresh();
    assert_eq!(e.viewport_offset(), 10);
    for _ in 0..12 {
        e.apply(Key::Up);
    }
    e.refresh();
    assert_eq!(e.viewport_offset(), 7);
}

#[test]
fn load_replaces_rows_and_sets_path() {
    let mut e = Editor::new(5, 40);
    e.apply(Key::Printable('z'));
    e.load(&text("one\n\ttwo\n"), String::from("notes.txt"));
    assert_eq!(rows(&e), vec!["one", "    two"]);
    assert_eq!((e.cursor_y(), e.cursor_x()), (0, 0));
    assert_eq!(e.file_path(), &Some(String::from("notes.txt")));
}

#[test]
fn load_of_empty_text_keeps_one_row() {
    let mut e = Editor::new(5, 40);
    e.load(&text(""), String::from("empty.txt"));
    assert_eq!(rows(&e), vec![String::new()]);
}

#[test]
fn contents_join_rows_with_crlf() {
    let mut e = loaded("ab\ncd", 5);
    e.apply(Key::Down);
    e.apply(Key::Enter);
    e.apply(Key::Printable('x'));
    let saved: String = e.contents().iter().collect();
    assert_eq!(saved, "ab\r\ncd\r\nx");
}
