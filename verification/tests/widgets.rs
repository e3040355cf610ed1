use gpam::tui::keymap::{KeyCode, KeyEvent};
use gpam::tui::widgets::{TextInput, format_age, format_age_between};

#[test]
fn insert_and_backspace() {
    let mut t = TextInput::new();
    t.insert('a');
    t.insert('b');
    t.insert('c');
    assert_eq!(t.as_str(), "abc");
    t.backspace();
    assert_eq!(t.as_str(), "ab");
}

#[test]
fn cursor_movement() {
    let mut t = TextInput::with_text("hello");
    t.move_home();
    assert_eq!(t.cursor(), 0);
    t.insert('X');
    assert_eq!(t.as_str(), "Xhello");
}

#[test]
fn delete_word_back_removes_one_word() {
    let mut t = TextInput::with_text("foo bar baz");
    t.delete_word_back();
    assert_eq!(t.as_str(), "foo bar ");
    t.delete_word_back();
    assert_eq!(t.as_str(), "foo ");
    t.delete_word_back();
    assert_eq!(t.as_str(), "");
    t.delete_word_back();
    assert_eq!(t.as_str(), "");
}

#[test]
fn delete_word_back_mid_word() {
    let mut t = TextInput::with_text("foobar");
    t.move_home();
    for _ in 0..3 {
        t.move_right();
    }
    t.delete_word_back();
    assert_eq!(t.as_str(), "bar");
}

#[test]
fn format_age_units() {
    assert_eq!(format_age(30), "30s");
    assert_eq!(format_age(90), "1m");
    assert_eq!(format_age(3700), "1h");
    assert_eq!(format_age(90000), "1d");
}

#[test]
fn format_age_limits() {
    assert_eq!(format_age(-1), "now");
    assert_eq!(format_age(0), "0s");
    assert_eq!(format_age(59), "59s");
    assert_eq!(format_age(60), "1m");
    assert_eq!(format_age(3599), "59m");
    assert_eq!(format_age(3600), "1h");
    assert_eq!(format_age(86399), "23h");
    assert_eq!(format_age(86400), "1d");
    assert_eq!(format_age(i64::MAX), "106751991167300d");
    assert_eq!(format_age_between(10, 100), "1m");
    assert_eq!(format_age_between(100, 10), "now");
    assert_eq!(format_age_between(i64::MIN, i64::MAX), "213503982334601d");
}

#[test]
fn multibyte_text_moves_by_characters() {
    let mut t = TextInput::with_text("a\u{e9}\u{1f600}b");
    assert_eq!(t.cursor(), 8);
    assert_eq!(t.display_cursor(), 4);
    t.move_left();
    t.move_left();
    assert_eq!(t.cursor(), 3);
    assert_eq!(t.display_cursor(), 2);
    t.insert('\u{df}');
    assert_eq!(t.as_str(), "a\u{e9}\u{df}\u{1f600}b");
    t.backspace();
    t.backspace();
    assert_eq!(t.as_str(), "a\u{1f600}b");
    t.move_right();
    assert_eq!(t.cursor(), 5);
    t.move_end();
    t.move_right();
    assert_eq!(t.cursor(), 6);
    t.move_home();
    t.move_left();
    t.backspace();
    assert_eq!(t.as_str(), "a\u{1f600}b");
}

#[test]
fn backspace_undoes_a_typed_character() {
    let mut t = TextInput::with_text("a b\u{a0}c");
    t.move_left();
    let before = (t.as_str().to_string(), t.cursor());
    t.insert('z');
    t.backspace();
    assert_eq!((t.as_str().to_string(), t.cursor()), before);
    t.move_right();
    t.delete_word_back();
    // A no-break space does not end a word.
    assert_eq!(t.as_str(), "a ");
}

#[test]
fn clear_and_default_are_empty() {
    let mut t = TextInput::with_text("x");
    assert!(!t.is_empty());
    let copy = t.clone();
    t.clear();
    assert!(t.is_empty());
    assert_eq!(t.cursor(), 0);
    assert!(TextInput::default().is_empty());
    assert_eq!(copy.as_str(), "x");
    assert_eq!(copy.cursor(), 1);
}

#[test]
fn prompts_take_editing_keys() {
    let mut t = TextInput::new();
    for c in ['a', 'b'] {
        t.handle_key(KeyEvent { code: KeyCode::Char(c), ctrl: false });
    }
    t.handle_key(KeyEvent { code: KeyCode::Char('x'), ctrl: true });
    t.handle_key(KeyEvent { code: KeyCode::Left, ctrl: false });
    t.handle_key(KeyEvent { code: KeyCode::Char('c'), ctrl: false });
    t.handle_key(KeyEvent { code: KeyCode::Home, ctrl: false });
    t.handle_key(KeyEvent { code: KeyCode::Right, ctrl: false });
    t.handle_key(KeyEvent { code: KeyCode::Backspace, ctrl: false });
    assert_eq!(t.as_str(), "cb");
    t.handle_key(KeyEvent { code: KeyCode::End, ctrl: false });
    t.handle_key(KeyEvent { code: KeyCode::Up, ctrl: false });
    assert_eq!(t.cursor(), 2);
}
