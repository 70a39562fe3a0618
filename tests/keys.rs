use lemme_do_it::keys::{is_terminator_key, key_to_char, Key};

#[test]
fn printable_keys_map_to_characters() {
    assert_eq!(key_to_char(&Key::KeyA), Some('a'));
    assert_eq!(key_to_char(&Key::KeyZ), Some('z'));
    assert_eq!(key_to_char(&Key::Num0), Some('0'));
    assert_eq!(key_to_char(&Key::Num9), Some('9'));
    assert_eq!(key_to_char(&Key::Quote), Some('\''));
    assert_eq!(key_to_char(&Key::BackSlash), Some('\\'));
    assert_eq!(key_to_char(&Key::BackQuote), Some('`'));
    assert_eq!(key_to_char(&Key::SemiColon), Some(';'));
}

#[test]
fn other_keys_map_to_nothing() {
    for key in [Key::Backspace, Key::Return, Key::Tab, Key::Delete, Key::Other] {
        assert_eq!(key_to_char(&key), None);
    }
}

#[test]
fn terminators() {
    for key in [
        Key::Return, Key::Tab, Key::Escape, Key::LeftArrow, Key::RightArrow, Key::UpArrow,
        Key::DownArrow, Key::Home, Key::End, Key::PageUp, Key::PageDown, Key::Delete,
    ] {
        assert!(is_terminator_key(&key));
    }
    for key in [Key::Backspace, Key::KeyA, Key::Other, Key::Dot] {
        assert!(!is_terminator_key(&key));
    }
}
