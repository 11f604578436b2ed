use miniterm::keys::{key_action, KeyAction, KeyInput};

#[test]
fn escape_leaves_the_program() {
    assert_eq!(key_action(true, false, &KeyInput::Escape), KeyAction::Exit);
}

#[test]
fn special_keys_send_their_control_byte() {
    assert_eq!(key_action(true, false, &KeyInput::Enter), KeyAction::SendByte(b'\r'));
    assert_eq!(key_action(true, false, &KeyInput::Backspace), KeyAction::SendByte(0x08));
    assert_eq!(key_action(true, false, &KeyInput::Tab), KeyAction::SendByte(b'\t'));
}

#[test]
fn character_keys_send_their_text() {
    assert_eq!(
        key_action(true, false, &KeyInput::Character(String::from("a"))),
        KeyAction::SendText(String::from("a"))
    );
    assert_eq!(
        key_action(true, false, &KeyInput::Character(String::from("é"))),
        KeyAction::SendText(String::from("é"))
    );
}

#[test]
fn other_keys_are_ignored() {
    assert_eq!(key_action(true, false, &KeyInput::Other), KeyAction::Ignore);
}

#[test]
fn releases_and_repeats_are_ignored() {
    for key in [KeyInput::Escape, KeyInput::Enter, KeyInput::Character(String::from("x"))] {
        assert_eq!(key_action(false, false, &key), KeyAction::Ignore);
        assert_eq!(key_action(true, true, &key), KeyAction::Ignore);
        assert_eq!(key_action(false, true, &key), KeyAction::Ignore);
    }
}
