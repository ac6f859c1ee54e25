use ttyamat::{CloseTabOutcome, WindowState};
use ttyamat::{
    cursor_overlay, initial_terminal_size, separator_visible, tab_background, TabBackground,
    TerminalCell, TerminalCursor, TerminalCursorShape, TerminalFrame, TerminalRenderUpdate,
    TerminalSize,
};

fn frame_with_cursor(cursor: Option<TerminalCursor>) -> TerminalFrame {
    let mut frame = TerminalFrame::default();
    frame.apply(TerminalRenderUpdate::full(4, 3, cursor, vec![TerminalCell::default(); 12]));
    frame
}

#[test]
fn overlay_places_the_glyph_at_the_cursor() {
    let frame = frame_with_cursor(Some(TerminalCursor::new(2, 3, TerminalCursorShape::Underline)));
    assert_eq!(cursor_overlay(Some(&frame)), "\n\n   _");
}

#[test]
fn overlay_glyphs_follow_the_shape() {
    let glyph = |shape| cursor_overlay(Some(&frame_with_cursor(Some(TerminalCursor::new(0, 0, shape)))));
    assert_eq!(glyph(TerminalCursorShape::Block), "\u{258f}");
    assert_eq!(glyph(TerminalCursorShape::HollowBlock), "\u{258f}");
    assert_eq!(glyph(TerminalCursorShape::Beam), "\u{2502}");
    assert_eq!(glyph(TerminalCursorShape::Underline), "_");
}

#[test]
fn no_cursor_no_overlay() {
    assert_eq!(cursor_overlay(None), "");
    assert_eq!(cursor_overlay(Some(&frame_with_cursor(None))), "");
}

#[test]
fn initial_size_is_80_by_24() {
    let size = initial_terminal_size();
    assert_eq!((size.columns(), size.lines(), size.cell_width(), size.cell_height()), (80, 24, 8, 16));
}

#[test]
fn size_rejects_zero_components() {
    assert!(TerminalSize::new(0, 24, 8, 16).is_none());
    assert!(TerminalSize::new(80, 0, 8, 16).is_none());
    assert!(TerminalSize::new(80, 24, 0, 16).is_none());
    assert!(TerminalSize::new(80, 24, 8, 0).is_none());
    let size = TerminalSize::new(1, 2, 3, 4).unwrap();
    assert_eq!((size.columns(), size.lines(), size.cell_width(), size.cell_height()), (1, 2, 3, 4));
}

#[test]
fn tab_backgrounds() {
    assert_eq!(tab_background(true, true), TabBackground::Terminal);
    assert_eq!(tab_background(true, false), TabBackground::Terminal);
    assert_eq!(tab_background(false, true), TabBackground::Hover);
    assert_eq!(tab_background(false, false), TabBackground::TitleBar);
}

#[test]
fn separators_only_between_plain_tabs() {
    assert!(separator_visible(false, false, false, false));
    assert!(!separator_visible(true, false, false, false));
    assert!(!separator_visible(false, true, false, false));
    assert!(!separator_visible(false, false, true, false));
    assert!(!separator_visible(false, false, false, true));
}

#[test]
fn only_an_inactive_tab_title_selects() {
    assert!(ttyamat::title_press_selects(false));
    assert!(!ttyamat::title_press_selects(true));
}

#[test]
fn window_requests_wait_for_the_window_to_open() {
    let mut window: WindowState<u32> = WindowState::new();
    assert_eq!(window.id(), None);
    assert!(!window.focused());
    assert_eq!(window.window_to_close(CloseTabOutcome::CloseWindow), None);
    window.opened(7);
    window.set_focused(true);
    assert_eq!(window.id(), Some(7));
    assert!(window.focused());
    assert_eq!(window.window_to_close(CloseTabOutcome::CloseWindow), Some(7));
    assert_eq!(window.window_to_close(CloseTabOutcome::Closed), None);
    assert_eq!(window.window_to_close(CloseTabOutcome::NotFound), None);
    window.set_focused(false);
    assert!(!window.focused());
    assert_eq!(window.id(), Some(7));
}
