use kfs_squid_editor::input::TextInput;
use kfs_squid_editor::key::{Key, KeyCode};

fn key(code: KeyCode) -> Key {
    Key::plain(code)
}

#[test]
fn insert_and_move() {
    let mut input = TextInput::default();
    input.handle_key(key(KeyCode::Char('a')));
    input.handle_key(key(KeyCode::Char('b')));
    input.handle_key(key(KeyCode::Char('c')));
    assert_eq!(input.value(), "abc");
    assert_eq!(input.cursor, 3);

    input.handle_key(key(KeyCode::Left));
    input.handle_key(key(KeyCode::Left));
    assert_eq!(input.cursor, 1);

    input.handle_key(key(KeyCode::Char('X')));
    assert_eq!(input.value(), "aXbc");
    assert_eq!(input.cursor, 2);
}

#[test]
fn backspace_and_delete() {
    let mut input = TextInput::new("hello".into());
    input.handle_key(key(KeyCode::Backspace));
    assert_eq!(input.value(), "hell");

    input.handle_key(key(KeyCode::Home));
    input.handle_key(key(KeyCode::Delete));
    assert_eq!(input.value(), "ell");
}

#[test]
fn home_end() {
    let mut input = TextInput::new("test".into());
    input.handle_key(key(KeyCode::Home));
    assert_eq!(input.cursor, 0);
    input.handle_key(key(KeyCode::End));
    assert_eq!(input.cursor, 4);
}

#[test]
fn multibyte_characters_move_by_whole_characters() {
    let mut input = TextInput::new("aé€".into());
    assert_eq!(input.cursor, 6);
    input.handle_key(key(KeyCode::Left));
    assert_eq!(input.cursor, 3);
    input.handle_key(key(KeyCode::Left));
    assert_eq!(input.cursor, 1);
    input.handle_key(key(KeyCode::Delete));
    assert_eq!(input.value(), "a€");
    input.handle_key(key(KeyCode::Char('ü')));
    assert_eq!(input.value(), "aü€");
    assert_eq!(input.cursor, 3);
    input.handle_key(key(KeyCode::Right));
    assert_eq!(input.cursor, 6);
    input.handle_key(key(KeyCode::Backspace));
    assert_eq!(input.value(), "aü");
    assert_eq!(input.before_cursor(), "aü");
    assert_eq!(input.after_cursor(), "");
}

#[test]
fn control_keys_jump_and_cut() {
    let mut input = TextInput::new("hello world".into());
    input.handle_key(Key::with_ctrl(KeyCode::Char('a')));
    assert_eq!(input.cursor, 0);
    input.handle_key(Key::with_ctrl(KeyCode::Char('e')));
    assert_eq!(input.cursor, 11);
    for _ in 0..5 {
        input.handle_key(key(KeyCode::Left));
    }
    assert_eq!(input.before_cursor(), "hello ");
    assert_eq!(input.after_cursor(), "world");
    input.handle_key(Key::with_ctrl(KeyCode::Char('k')));
    assert_eq!(input.value(), "hello ");
    input.handle_key(Key::with_ctrl(KeyCode::Char('u')));
    assert_eq!(input.value(), "");
    assert_eq!(input.cursor, 0);
}

#[test]
fn edges_do_nothing() {
    let mut input = TextInput::new("ab".into());
    input.handle_key(key(KeyCode::Delete));
    input.handle_key(key(KeyCode::Right));
    assert_eq!(input.value(), "ab");
    assert_eq!(input.cursor, 2);
    input.clear();
    input.handle_key(key(KeyCode::Backspace));
    input.handle_key(key(KeyCode::Left));
    assert_eq!(input.value(), "");
    assert_eq!(input.cursor, 0);
    input.set("xyz".into());
    assert_eq!(input.cursor, 3);
    input.handle_key(key(KeyCode::Tab));
    assert_eq!(input.value(), "xyz");
}

#[test]
fn backspace_after_typing_restores_the_field() {
    for c in ['x', 'é', '€', '😀'] {
        let mut input = TextInput::new("aé€b".into());
        input.handle_key(key(KeyCode::Left));
        input.handle_key(key(KeyCode::Left));
        let (before, cursor) = (input.value().to_string(), input.cursor);
        input.handle_key(key(KeyCode::Char(c)));
        input.handle_key(key(KeyCode::Backspace));
        assert_eq!(input.value(), before);
        assert_eq!(input.cursor, cursor);
    }
}
