use vstd::prelude::*;

use vstd::utf8::encode_utf8;

verus! {

/// The named keys the terminal distinguishes; every other named key is `Other`.
#[derive(Clone, Copy, Debug, PartialEq, Eq, Structural)]
pub enum NamedKey {
    Enter,
    Backspace,
    Tab,
    Space,
    Escape,
    ArrowUp,
    ArrowDown,
    ArrowRight,
    ArrowLeft,
    Other,
}

/// The logical key of a key press.
#[derive(Clone, Copy, Debug, PartialEq, Eq, Structural)]
pub enum Key {
    /// A named key such as Enter or an arrow.
    Named(NamedKey),
    /// A key that produces a character.
    Character,
    /// A key the keyboard layout does not identify.
    Unidentified,
}

/// The modifier keys held during a key press.
#[derive(Clone, Copy, Debug, PartialEq, Eq, Structural)]
pub struct Modifiers {
    pub shift: bool,
    pub control: bool,
    pub alt: bool,
    pub logo: bool,
}

/// A key press: the logical key, the Latin character the key stands for on
/// the keyboard layout (if any), the modifiers, the text it produces and
/// whether it repeats a held key.
pub struct KeyPress {
    pub key: Key,
    pub latin: Option<char>,
    pub modifiers: Modifiers,
    pub text: Option<String>,
    pub repeat: bool,
}

/// The shortcuts the application handles itself.
#[derive(Clone, Copy, Debug, PartialEq, Eq, Structural)]
pub enum ApplicationShortcut {
    /// Open a new tab.
    New,
    /// Close the active tab.
    CloseActive,
    /// Activate the tab to the right.
    SelectNext,
    /// Activate the tab to the left.
    SelectPrevious,
}

/// `c` with an ASCII capital letter turned into its small letter.
pub open spec fn ascii_lowercase(c: char) -> char {
    if 'A' <= c && c <= 'Z' {
        ((c as int) + 32) as char
    } else {
        c
    }
}

/// The bytes sent for a named key, if it sends any.
pub open spec fn named_key_bytes(key: NamedKey) -> Option<Seq<u8>> {
    match key {
        NamedKey::Enter => Some(seq![0x0du8]),
        NamedKey::Backspace => Some(seq![0x7fu8]),
        NamedKey::Tab => Some(seq![0x09u8]),
        NamedKey::Space => Some(seq![0x20u8]),
        NamedKey::Escape => Some(seq![0x1bu8]),
        NamedKey::ArrowUp => Some(seq![0x1bu8, 0x5bu8, 0x41u8]),
        NamedKey::ArrowDown => Some(seq![0x1bu8, 0x5bu8, 0x42u8]),
        NamedKey::ArrowRight => Some(seq![0x1bu8, 0x5bu8, 0x43u8]),
        NamedKey::ArrowLeft => Some(seq![0x1bu8, 0x5bu8, 0x44u8]),
        NamedKey::Other => None,
    }
}

/// The bytes a key press sends to the terminal.
///
/// Presses with Alt or the logo key send nothing. With Control, a Latin
/// letter sends its control code (its position in the alphabet, 1 for `a`),
/// anything else nothing. A named key sends its sequence; any other key
/// sends the UTF-8 encoding of its text when it has some.
pub open spec fn encoded(press: KeyPress) -> Option<Seq<u8>> {
    if press.modifiers.alt || press.modifiers.logo {
        None
    } else if press.modifiers.control {
        match press.latin {
            None => None,
            Some(c) => if 'a' <= ascii_lowercase(c) && ascii_lowercase(c) <= 'z' {
                Some(seq![((ascii_lowercase(c) as int) - 96) as u8])
            } else {
                None
            },
        }
    } else {
        match press.key {
            Key::Named(named) => named_key_bytes(named),
            _ => match press.text {
                Some(text) => if text@.len() > 0 {
                    Some(encode_utf8(text@))
                } else {
                    None
                },
                None => None,
            },
        }
    }
}

/// The modifiers in `a` or in `b`.
pub open spec fn union(a: Modifiers, b: Modifiers) -> Modifiers {
    Modifiers {
        shift: a.shift || b.shift,
        control: a.control || b.control,
        alt: a.alt || b.alt,
        logo: a.logo || b.logo,
    }
}

/// Control alone.
pub open spec fn control_only() -> Modifiers {
    Modifiers { shift: false, control: true, alt: false, logo: false }
}

/// Shift alone.
pub open spec fn shift_only() -> Modifiers {
    Modifiers { shift: true, control: false, alt: false, logo: false }
}

/// The application shortcut a key press stands for, where `command` is the
/// platform's command modifier.
///
/// Repeated presses stand for none. Command+Shift+T opens a tab and
/// Command+Shift+W closes the active one (the letter by its Latin key, in
/// either case); Control+Tab and Control+Shift+Tab select the next and the
/// previous tab; the modifiers must match exactly.
pub open spec fn shortcut_for(press: KeyPress, command: Modifiers) -> Option<ApplicationShortcut> {
    if press.repeat {
        None
    } else if press.modifiers == union(command, shift_only()) && press.latin is Some
        && ascii_lowercase(press.latin->0) == 't' {
        Some(ApplicationShortcut::New)
    } else if press.modifiers == union(command, shift_only()) && press.latin is Some
        && ascii_lowercase(press.latin->0) == 'w' {
        Some(ApplicationShortcut::CloseActive)
    } else if press.key != Key::Named(NamedKey::Tab) {
        None
    } else if press.modifiers == control_only() {
        Some(ApplicationShortcut::SelectNext)
    } else if press.modifiers == union(control_only(), shift_only()) {
        Some(ApplicationShortcut::SelectPrevious)
    } else {
        None
    }
}

/// With Control (and neither Alt nor the logo key), a Latin letter sends a
/// single control code from 1 to 26, the same for its capital and small form.
pub proof fn lemma_control_letter_sends_one_control_code(press: KeyPress, letter: char)
    requires
        press.modifiers.control,
        !press.modifiers.alt,
        !press.modifiers.logo,
        press.latin == Some(letter),
        ('a' <= letter && letter <= 'z') || ('A' <= letter && letter <= 'Z'),
    ensures
        encoded(press) matches Some(bytes) && bytes.len() == 1 && 1 <= bytes[0] <= 26,
        encoded(press) == encoded(KeyPress { latin: Some(ascii_lowercase(letter)), ..press }),
{
}

/// Without Control, Alt or the logo key, a key that is not named and
/// produces text sends exactly the UTF-8 encoding of that text, whatever
/// Latin key it stands for.
pub proof fn lemma_plain_text_is_sent_as_typed(press: KeyPress, text: String, latin: Option<char>)
    requires
        !press.modifiers.control,
        !press.modifiers.alt,
        !press.modifiers.logo,
        !(press.key is Named),
        press.text == Some(text),
        text@.len() > 0,
    ensures
        encoded(press) == Some(encode_utf8(text@)),
        encoded(KeyPress { latin, ..press }) == encoded(press),
{
}

/// Without Alt and the logo key, the bytes a key press sends do not depend
/// on the case of its Latin letter.
pub proof fn lemma_encoding_ignores_latin_case(press: KeyPress, c: char)
    requires
        press.latin == Some(c),
    ensures
        encoded(press) == encoded(KeyPress { latin: Some(ascii_lowercase(c)), ..press }),
{
    assert(ascii_lowercase(ascii_lowercase(c)) == ascii_lowercase(c));
}

/// Which shortcut a key press stands for does not depend on the case of its
/// Latin letter; Command+Shift with the Latin key T (either case) opens a
/// tab and with W (either case) closes the active one, unless the press
/// repeats.
pub proof fn lemma_shortcuts_ignore_latin_case(press: KeyPress, command: Modifiers, c: char)
    requires
        press.latin == Some(c),
    ensures
        shortcut_for(press, command) == shortcut_for(
            KeyPress { latin: Some(ascii_lowercase(c)), ..press },
            command,
        ),
        !press.repeat && press.modifiers == (Modifiers {
            shift: true,
            control: command.control,
            alt: command.alt,
            logo: command.logo,
        }) && (c == 'w' || c == 'W') ==> shortcut_for(press, command) == Some(
            ApplicationShortcut::CloseActive,
        ),
        !press.repeat && press.modifiers == (Modifiers {
            shift: true,
            control: command.control,
            alt: command.alt,
            logo: command.logo,
        }) && (c == 't' || c == 'T') ==> shortcut_for(press, command) == Some(
            ApplicationShortcut::New,
        ),
{
    assert(ascii_lowercase(ascii_lowercase(c)) == ascii_lowercase(c));
    assert(ascii_lowercase('W') == 'w');
    assert(ascii_lowercase('T') == 't');
}

/// `c` with an ASCII capital letter turned into its small letter.
pub fn to_ascii_lowercase(c: char) -> (lower: char)
    ensures
        lower == ascii_lowercase(c),
{
    if 'A' <= c && c <= 'Z' {
        ((c as u8) + 32) as char
    } else {
        c
    }
}

fn bytes_of(text: &str) -> (bytes: Vec<u8>)
    ensures
        bytes@ == encode_utf8(text@),
{
    let slice = text.as_bytes();
    let mut bytes: Vec<u8> = Vec::new();
    let mut i: usize = 0;
    while i < slice.len()
        invariant
            i <= slice@.len(),
            slice@ == encode_utf8(text@),
            bytes@ == slice@.subrange(0, i as int),
        decreases slice.len() - i,
    {
        bytes.push(slice[i]);
        i += 1;
        assert(bytes@ =~= slice@.subrange(0, i as int));
    }
    assert(slice@.subrange(0, i as int) =~= slice@);
    bytes
}

/// The bytes a named key sends, if it sends any.
pub fn encode_named(key: NamedKey) -> (bytes: Option<Vec<u8>>)
    ensures
        match bytes {
            Some(b) => named_key_bytes(key) == Some(b@),
            None => named_key_bytes(key) is None,
        },
{
    let bytes = match key {
        NamedKey::Enter => vec![0x0du8],
        NamedKey::Backspace => vec![0x7fu8],
        NamedKey::Tab => vec![0x09u8],
        NamedKey::Space => vec![0x20u8],
        NamedKey::Escape => vec![0x1bu8],
        NamedKey::ArrowUp => vec![0x1bu8, 0x5bu8, 0x41u8],
        NamedKey::ArrowDown => vec![0x1bu8, 0x5bu8, 0x42u8],
        NamedKey::ArrowRight => vec![0x1bu8, 0x5bu8, 0x43u8],
        NamedKey::ArrowLeft => vec![0x1bu8, 0x5bu8, 0x44u8],
        NamedKey::Other => return None,
    };
    assert(Some(bytes@) == named_key_bytes(key)) by {
        assert(named_key_bytes(key)->0 =~= bytes@);
    }
    Some(bytes)
}

/// Encodes the key press for the terminal; see [`encoded`]. Application
/// shortcuts are to be handled before.
pub fn encode(press: &KeyPress) -> (bytes: Option<Vec<u8>>)
    ensures
        match bytes {
            Some(b) => encoded(*press) == Some(b@),
            None => encoded(*press) is None,
        },
{
    if press.modifiers.alt || press.modifiers.logo {
        return None;
    }
    if press.modifiers.control {
        let character = match press.latin {
            Some(c) => to_ascii_lowercase(c),
            None => return None,
        };
        if 'a' <= character && character <= 'z' {
            let code = character as u8;
            let byte = code & 0x1f;
            assert(97 <= code <= 122 ==> code & 0x1f == code - 96) by (bit_vector);
            let bytes = vec![byte];
            assert(encoded(*press)->0 =~= bytes@);
            return Some(bytes);
        }
        return None;
    }
    match press.key {
        Key::Named(named) => encode_named(named),
        _ => match &press.text {
            Some(text) => {
                if text.as_str().is_empty() {
                    None
                } else {
                    Some(bytes_of(text.as_str()))
                }
            },
            None => None,
        },
    }
}

/// The application shortcut a key press stands for; see [`shortcut_for`].
pub fn application_shortcut(press: &KeyPress, command: Modifiers) -> (shortcut: Option<ApplicationShortcut>)
    ensures
        shortcut == shortcut_for(*press, command),
{
    if press.repeat {
        return None;
    }
    let command_shift = Modifiers {
        shift: command.shift || true,
        control: command.control,
        alt: command.alt,
        logo: command.logo,
    };
    let latin_key = match press.latin {
        Some(c) => Some(to_ascii_lowercase(c)),
        None => None,
    };
    if press.modifiers == command_shift {
        match latin_key {
            Some('t') => return Some(ApplicationShortcut::New),
            Some('w') => return Some(ApplicationShortcut::CloseActive),
            _ => {},
        }
    }
    if press.key != Key::Named(NamedKey::Tab) {
        return None;
    }
    let control = Modifiers { shift: false, control: true, alt: false, logo: false };
    let control_shift = Modifiers { shift: true, control: true, alt: false, logo: false };
    if press.modifiers == control {
        Some(ApplicationShortcut::SelectNext)
    } else if press.modifiers == control_shift {
        Some(ApplicationShortcut::SelectPrevious)
    } else {
        None
    }
}

/// The shortcut a key press triggers in the window: none unless the press
/// is meant for this window, the window has focus and no widget captured
/// the press.
pub fn keyboard_shortcut(
    for_this_window: bool,
    window_focused: bool,
    captured: bool,
    press: &KeyPress,
    command: Modifiers,
) -> (shortcut: Option<ApplicationShortcut>)
    ensures
        shortcut == (if !for_this_window || !window_focused || captured {
            None
        } else {
            shortcut_for(*press, command)
        }),
{
    if !for_this_window || !window_focused || captured {
        return None;
    }
    application_shortcut(press, command)
}

} // verus!
