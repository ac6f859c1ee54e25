use vstd::prelude::*;

use crate::cell::{TerminalCursor, TerminalCursorShape};
use crate::frame::TerminalFrame;
use crate::size::TerminalSize;
use crate::text::{repeat_char, string_push};

verus! {

/// The glyph drawn for a cursor of the given shape.
pub open spec fn cursor_glyph(shape: TerminalCursorShape) -> char {
    match shape {
        TerminalCursorShape::Block => '\u{258F}',
        TerminalCursorShape::Underline => '_',
        TerminalCursorShape::Beam => '\u{2502}',
        TerminalCursorShape::HollowBlock => '\u{258F}',
    }
}

/// The text that places the cursor glyph over the terminal text: one line
/// break per line above the cursor, one space per column to its left, then
/// the glyph. Empty when there is no cursor.
pub open spec fn overlay_text(cursor: Option<TerminalCursor>) -> Seq<char> {
    match cursor {
        None => Seq::empty(),
        Some(c) => repeat_char('\n', c.spec_line() as nat) + repeat_char(' ', c.spec_column() as nat)
            + seq![cursor_glyph(c.spec_shape())],
    }
}

fn glyph(shape: TerminalCursorShape) -> (c: char)
    ensures
        c == cursor_glyph(shape),
{
    match shape {
        TerminalCursorShape::Block => '\u{258F}',
        TerminalCursorShape::Underline => '_',
        TerminalCursorShape::Beam => '\u{2502}',
        TerminalCursorShape::HollowBlock => '\u{258F}',
    }
}

fn push_repeated(s: &mut String, c: char, count: u16)
    ensures
        final(s)@ == old(s)@ + repeat_char(c, count as nat),
{
    let mut i: u16 = 0;
    while i < count
        invariant
            i <= count,
            s@ == old(s)@ + repeat_char(c, i as nat),
        decreases count - i,
    {
        string_push(s, c);
        i += 1;
        assert(s@ =~= old(s)@ + repeat_char(c, i as nat));
    }
}

/// The cursor overlay drawn over the terminal text of `frame`.
pub fn cursor_overlay(frame: Option<&TerminalFrame>) -> (overlay: String)
    ensures
        overlay@ == overlay_text(
            match frame {
                Some(frame) => frame@.cursor,
                None => None,
            },
        ),
{
    let cursor = match frame {
        Some(frame) => frame.cursor(),
        None => None,
    };
    let cursor = match cursor {
        Some(cursor) => cursor,
        None => return String::new(),
    };
    let mut overlay = String::new();
    push_repeated(&mut overlay, '\n', cursor.line());
    push_repeated(&mut overlay, ' ', cursor.column());
    string_push(&mut overlay, glyph(cursor.shape()));
    assert(overlay@ =~= overlay_text(Some(cursor)));
    overlay
}

/// The size a terminal session starts with: 80 columns by 24 lines of
/// 8 by 16 pixel cells.
pub fn initial_terminal_size() -> (size: TerminalSize)
    ensures
        size.spec_columns() == 80,
        size.spec_lines() == 24,
        size.spec_cell_width() == 8,
        size.spec_cell_height() == 16,
{
    TerminalSize::new(80, 24, 8, 16).unwrap()
}

/// The background a tab is drawn on.
#[derive(Clone, Copy, Debug, PartialEq, Eq, Structural)]
pub enum TabBackground {
    /// The terminal's own background, for the active tab.
    Terminal,
    /// The hover highlight.
    Hover,
    /// The title bar's background.
    TitleBar,
}

/// The background of a tab: the terminal's for the active tab, the hover
/// highlight for a hovered one, the title bar's otherwise.
pub fn tab_background(is_active: bool, is_hovered: bool) -> (background: TabBackground)
    ensures
        background == (if is_active {
            TabBackground::Terminal
        } else if is_hovered {
            TabBackground::Hover
        } else {
            TabBackground::TitleBar
        }),
{
    if is_active {
        TabBackground::Terminal
    } else if is_hovered {
        TabBackground::Hover
    } else {
        TabBackground::TitleBar
    }
}

/// Whether the separator between two neighbouring tabs is drawn: only when
/// neither of them is active or hovered.
pub fn separator_visible(is_active: bool, is_hovered: bool, next_is_active: bool, next_is_hovered: bool) -> (visible: bool)
    ensures
        visible == (!is_active && !is_hovered && !next_is_active && !next_is_hovered),
{
    !is_active && !is_hovered && !next_is_active && !next_is_hovered
}

/// Whether pressing a tab's title selects it: only for a tab that is not
/// already active.
pub fn title_press_selects(is_active: bool) -> (selects: bool)
    ensures
        selects == !is_active,
{
    !is_active
}

} // verus!
