use ppoker::text_input::{EditKey, TextInput};

fn key(input: &mut TextInput, k: EditKey) -> bool {
    input.handle_input(k, false)
}

fn ctrl(input: &mut TextInput, k: EditKey) -> bool {
    input.handle_input(k, true)
}

#[test]
fn test_basic_input() {
    let mut input = TextInput::new();
    key(&mut input, EditKey::Char('H'));
    assert_eq!(input.text(), "H");
    assert_eq!(input.cursor_position(), 1);

    key(&mut input, EditKey::Char('e'));
    key(&mut input, EditKey::Char('l'));
    key(&mut input, EditKey::Char('l'));
    key(&mut input, EditKey::Char('o'));

    assert_eq!(input.text(), "Hello");
    assert_eq!(input.cursor_position(), 5);
}

#[test]
fn test_cursor_movement() {
    let mut input = TextInput::new();
    for c in "Hello World".chars() {
        key(&mut input, EditKey::Char(c));
    }
    assert_eq!(input.cursor_position(), 11);

    key(&mut input, EditKey::Left);
    assert_eq!(input.cursor_position(), 10);
    key(&mut input, EditKey::Left);
    assert_eq!(input.cursor_position(), 9);

    key(&mut input, EditKey::Right);
    assert_eq!(input.cursor_position(), 10);
    key(&mut input, EditKey::Right);
    assert_eq!(input.cursor_position(), 11);

    for _ in 0..15 {
        key(&mut input, EditKey::Left);
    }
    assert_eq!(input.cursor_position(), 0, "Cursor should stop at left boundary");

    for _ in 0..15 {
        key(&mut input, EditKey::Right);
    }
    assert_eq!(input.cursor_position(), 11, "Cursor should stop at right boundary");

    key(&mut input, EditKey::Home);
    assert_eq!(input.cursor_position(), 0);
    key(&mut input, EditKey::End);
    assert_eq!(input.cursor_position(), 11);
}

#[test]
fn test_utf8_navigation() {
    let mut input = TextInput::new();
    for c in "Hi 👋".chars() {
        key(&mut input, EditKey::Char(c));
    }
    assert_eq!(input.cursor_position(), 7);
    assert_eq!(input.text(), "Hi 👋");

    key(&mut input, EditKey::Left);
    assert_eq!(input.cursor_position(), 3);

    key(&mut input, EditKey::Right);
    assert_eq!(input.cursor_position(), 7);

    key(&mut input, EditKey::Left);
    key(&mut input, EditKey::Char('!'));
    assert_eq!(input.text(), "Hi !👋");
    assert_eq!(input.cursor_position(), 4);

    key(&mut input, EditKey::End);
    assert_eq!(input.cursor_position(), 8);
    key(&mut input, EditKey::Right);
    assert_eq!(input.cursor_position(), 8);
}

#[test]
fn test_insert_and_delete() {
    let mut input = TextInput::new();
    for c in "Hello".chars() {
        key(&mut input, EditKey::Char(c));
    }

    key(&mut input, EditKey::Home);
    key(&mut input, EditKey::Right);
    key(&mut input, EditKey::Char('i'));
    assert_eq!(input.text(), "Hiello");
    assert_eq!(input.cursor_position(), 2);

    key(&mut input, EditKey::Home);
    key(&mut input, EditKey::Delete);
    assert_eq!(input.text(), "iello");

    key(&mut input, EditKey::End);
    key(&mut input, EditKey::Delete);
    assert_eq!(input.text(), "iello");

    key(&mut input, EditKey::Home);
    key(&mut input, EditKey::Backspace);
    assert_eq!(input.text(), "iello");

    key(&mut input, EditKey::End);
    key(&mut input, EditKey::Left);
    key(&mut input, EditKey::Backspace);
    assert_eq!(input.text(), "ielo");
}

#[test]
fn test_empty_buffer() {
    let mut input = TextInput::new();
    key(&mut input, EditKey::Left);
    assert_eq!(input.cursor_position(), 0);
    key(&mut input, EditKey::Right);
    assert_eq!(input.cursor_position(), 0);
    key(&mut input, EditKey::Home);
    assert_eq!(input.cursor_position(), 0);
    key(&mut input, EditKey::End);
    assert_eq!(input.cursor_position(), 0);

    key(&mut input, EditKey::Delete);
    assert_eq!(input.text(), "");
    key(&mut input, EditKey::Backspace);
    assert_eq!(input.text(), "");
}

#[test]
fn test_word_movement() {
    let mut input = TextInput::new();
    input.set_text("The quick brown fox".to_string());
    assert_eq!(input.cursor_position(), 19);

    ctrl(&mut input, EditKey::Left);
    assert_eq!(input.cursor_position(), 16);
    ctrl(&mut input, EditKey::Left);
    assert_eq!(input.cursor_position(), 10);
    ctrl(&mut input, EditKey::Left);
    assert_eq!(input.cursor_position(), 4);
    ctrl(&mut input, EditKey::Left);
    assert_eq!(input.cursor_position(), 0);
    ctrl(&mut input, EditKey::Left);
    assert_eq!(input.cursor_position(), 0);

    ctrl(&mut input, EditKey::Right);
    assert_eq!(input.cursor_position(), 4);
    ctrl(&mut input, EditKey::Right);
    assert_eq!(input.cursor_position(), 10);
    ctrl(&mut input, EditKey::Right);
    assert_eq!(input.cursor_position(), 16);
    ctrl(&mut input, EditKey::Right);
    assert_eq!(input.cursor_position(), 19);
    ctrl(&mut input, EditKey::Right);
    assert_eq!(input.cursor_position(), 19);
}

#[test]
fn test_utf8_word_movement() {
    let mut input = TextInput::new();
    input.set_text("Hello 👋 नमस्ते world 🌍".to_string());
    assert!(input.cursor_position() > 0);

    ctrl(&mut input, EditKey::Left);
    assert!(input.text()[input.cursor_position()..].starts_with('🌍'));
    ctrl(&mut input, EditKey::Left);
    assert!(input.text()[input.cursor_position()..].starts_with("world"));
    ctrl(&mut input, EditKey::Left);
    assert!(input.text()[input.cursor_position()..].starts_with("नमस्ते"));
    ctrl(&mut input, EditKey::Left);
    assert!(input.text()[input.cursor_position()..].starts_with('👋'));
    ctrl(&mut input, EditKey::Left);
    assert!(input.text()[input.cursor_position()..].starts_with("Hello"));
    assert_eq!(input.cursor_position(), 0);
    ctrl(&mut input, EditKey::Left);
    assert_eq!(input.cursor_position(), 0);

    ctrl(&mut input, EditKey::Right);
    assert!(input.text()[..input.cursor_position()].ends_with("Hello "));
    ctrl(&mut input, EditKey::Right);
    assert!(input.text()[..input.cursor_position()].ends_with("👋 "));
    ctrl(&mut input, EditKey::Right);
    assert!(input.text()[..input.cursor_position()].ends_with("नमस्ते "));
    ctrl(&mut input, EditKey::Right);
    assert!(input.text()[..input.cursor_position()].ends_with("world "));
    ctrl(&mut input, EditKey::Right);
    assert!(input.text()[..input.cursor_position()].ends_with('🌍'));
    assert_eq!(input.cursor_position(), 40);
    ctrl(&mut input, EditKey::Right);
    assert_eq!(input.cursor_position(), 40);
}

#[test]
fn test_set_text() {
    let mut input = TextInput::new();
    input.set_text("Hello".to_string());
    assert_eq!(input.text(), "Hello");
    assert_eq!(input.cursor_position(), 5);
}

#[test]
fn test_clear() {
    let mut input = TextInput::new();
    input.set_text("Hello".to_string());
    input.clear();
    assert_eq!(input.text(), "");
    assert_eq!(input.cursor_position(), 0);
}

#[test]
fn test_cursor_placement() {
    let mut input = TextInput::new();
    for c in "Hello World".chars() {
        key(&mut input, EditKey::Char(c));
    }
    assert_eq!(input.cursor_position(), 11);
    assert_eq!(input.cursor_offset(), 11);

    key(&mut input, EditKey::Char('👋'));
    assert_eq!(input.cursor_position(), 15);
    assert_eq!(input.cursor_offset(), 13);
}

#[test]
fn test_paste() {
    let mut input = TextInput::new();
    for c in "Hello World".chars() {
        key(&mut input, EditKey::Char(c));
    }
    assert_eq!(input.cursor_position(), 11);
    assert_eq!(input.cursor_offset(), 11);

    key(&mut input, EditKey::Left);
    input.paste("👋");
    assert_eq!(input.cursor_position(), 14);
    assert_eq!(input.cursor_offset(), 12);

    key(&mut input, EditKey::End);
    input.paste("!");
    assert_eq!(input.text(), "Hello Worl👋d!")
}

#[test]
fn text_before_cursor_follows_the_cursor() {
    let mut input = TextInput::new();
    input.set_text("ab👋c".to_string());
    key(&mut input, EditKey::Left);
    assert_eq!(input.text_before_cursor(), "ab👋");
    assert_eq!(input.cursor_offset(), 4);
    key(&mut input, EditKey::Home);
    assert_eq!(input.cursor_offset(), 0);
}

#[test]
fn other_keys_are_not_handled() {
    let mut input = TextInput::new();
    assert!(!key(&mut input, EditKey::Other));
    assert!(key(&mut input, EditKey::Home));
}
