//! Verified core of a terminal front end: terminal dimensions, the frame
//! that render updates are applied to and the rows of text it shows, the
//! capture of updates from a terminal grid, and the decisions of the user
//! interface (tabs, key encoding, shortcuts, cursor overlay).

pub mod capture;
pub mod cell;
pub mod error;
pub mod frame;
pub mod frame_laws;
pub mod input;
pub mod size;
pub mod tabs;
pub mod text;
pub mod view;
pub mod window;

pub use capture::{
    capture_cursor, capture_full, capture_partial, capture_span, dimension, plan_capture,
    plan_partial_capture, CapturePlan, Damage, LineDamage,
};
pub use cell::{TerminalCell, TerminalCursor, TerminalCursorShape};
pub use error::{wakeup_to_emit, TerminalSessionError};
pub use frame::{TerminalFrame, TerminalRenderSpan, TerminalRenderUpdate};
pub use input::{
    application_shortcut, encode, encode_named, keyboard_shortcut, to_ascii_lowercase,
    ApplicationShortcut, Key, KeyPress, Modifiers, NamedKey,
};
pub use size::TerminalSize;
pub use tabs::{CloseTabOutcome, ShortcutEffect, Tab, TabEvent, TabId, TabList};
pub use view::{
    cursor_overlay, initial_terminal_size, separator_visible, tab_background, title_press_selects,
    TabBackground,
};
pub use window::WindowState;
