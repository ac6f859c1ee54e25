use ttyamat::{
    application_shortcut, encode, encode_named, keyboard_shortcut, to_ascii_lowercase,
    ApplicationShortcut, Key, KeyPress, Modifiers, NamedKey,
};

const NONE: Modifiers = Modifiers { shift: false, control: false, alt: false, logo: false };
const CTRL: Modifiers = Modifiers { shift: false, control: true, alt: false, logo: false };
const CTRL_SHIFT: Modifiers = Modifiers { shift: true, control: true, alt: false, logo: false };

fn press(key: Key, latin: Option<char>, modifiers: Modifiers, text: Option<&str>) -> KeyPress {
    KeyPress { key, latin, modifiers, text: text.map(str::to_string), repeat: false }
}

fn letter(c: char, modifiers: Modifiers) -> KeyPress {
    press(Key::Character, Some(c), modifiers, Some(&c.to_string()))
}

#[test]
fn control_letters_send_control_codes() {
    assert_eq!(encode(&letter('c', CTRL)), Some(vec![3]));
    assert_eq!(encode(&letter('C', CTRL_SHIFT)), Some(vec![3]));
    assert_eq!(encode(&letter('a', CTRL)), Some(vec![1]));
    assert_eq!(encode(&letter('z', CTRL)), Some(vec![26]));
}

#[test]
fn control_with_other_keys_sends_nothing() {
    assert_eq!(encode(&letter('1', CTRL)), None);
    assert_eq!(encode(&press(Key::Named(NamedKey::Enter), None, CTRL, None)), None);
}

#[test]
fn alt_and_logo_send_nothing() {
    let alt = Modifiers { alt: true, ..NONE };
    let logo = Modifiers { logo: true, ..NONE };
    assert_eq!(encode(&letter('a', alt)), None);
    assert_eq!(encode(&letter('a', logo)), None);
    assert_eq!(encode(&letter('a', Modifiers { alt: true, ..CTRL })), None);
}

#[test]
fn named_keys_send_their_sequences() {
    let cases = [
        (NamedKey::Enter, Some(vec![b'\r'])),
        (NamedKey::Backspace, Some(vec![0x7f])),
        (NamedKey::Tab, Some(vec![b'\t'])),
        (NamedKey::Space, Some(vec![b' '])),
        (NamedKey::Escape, Some(vec![0x1b])),
        (NamedKey::ArrowUp, Some(b"\x1b[A".to_vec())),
        (NamedKey::ArrowDown, Some(b"\x1b[B".to_vec())),
        (NamedKey::ArrowRight, Some(b"\x1b[C".to_vec())),
        (NamedKey::ArrowLeft, Some(b"\x1b[D".to_vec())),
        (NamedKey::Other, None),
    ];
    for (key, expected) in cases {
        assert_eq!(encode_named(key), expected.clone());
        assert_eq!(encode(&press(Key::Named(key), None, NONE, Some("ignored"))), expected);
    }
}

#[test]
fn text_is_sent_as_utf8() {
    assert_eq!(encode(&letter('a', NONE)), Some(vec![b'a']));
    assert_eq!(encode(&press(Key::Character, None, NONE, Some("\u{e9}"))), Some(vec![0xc3, 0xa9]));
    assert_eq!(encode(&press(Key::Unidentified, None, NONE, Some(""))), None);
    assert_eq!(encode(&press(Key::Unidentified, None, NONE, None)), None);
}

#[test]
fn lowercase_conversion() {
    assert_eq!(to_ascii_lowercase('Q'), 'q');
    assert_eq!(to_ascii_lowercase('q'), 'q');
    assert_eq!(to_ascii_lowercase('\u{c9}'), '\u{c9}');
    assert_eq!(to_ascii_lowercase('['), '[');
}

#[test]
fn command_shift_letters_open_and_close_tabs() {
    let command = CTRL;
    assert_eq!(application_shortcut(&letter('T', CTRL_SHIFT), command), Some(ApplicationShortcut::New));
    assert_eq!(application_shortcut(&letter('w', CTRL_SHIFT), command), Some(ApplicationShortcut::CloseActive));
    assert_eq!(application_shortcut(&letter('t', CTRL), command), None);
    let logo = Modifiers { logo: true, ..NONE };
    let logo_shift = Modifiers { shift: true, ..logo };
    assert_eq!(application_shortcut(&letter('t', logo_shift), logo), Some(ApplicationShortcut::New));
}

#[test]
fn control_tab_selects_neighbours() {
    let tab = |modifiers| press(Key::Named(NamedKey::Tab), None, modifiers, None);
    assert_eq!(application_shortcut(&tab(CTRL), CTRL), Some(ApplicationShortcut::SelectNext));
    assert_eq!(application_shortcut(&tab(CTRL_SHIFT), CTRL), Some(ApplicationShortcut::SelectPrevious));
    assert_eq!(application_shortcut(&tab(NONE), CTRL), None);
    assert_eq!(application_shortcut(&tab(Modifiers { alt: true, ..CTRL }), CTRL), None);
}

#[test]
fn repeated_presses_are_not_shortcuts() {
    let mut repeated = letter('t', CTRL_SHIFT);
    repeated.repeat = true;
    assert_eq!(application_shortcut(&repeated, CTRL), None);
}

#[test]
fn shortcuts_need_a_focused_window_and_an_uncaptured_press() {
    let key = letter('t', CTRL_SHIFT);
    assert_eq!(keyboard_shortcut(true, true, false, &key, CTRL), Some(ApplicationShortcut::New));
    assert_eq!(keyboard_shortcut(false, true, false, &key, CTRL), None);
    assert_eq!(keyboard_shortcut(true, false, false, &key, CTRL), None);
    assert_eq!(keyboard_shortcut(true, true, true, &key, CTRL), None);
}
