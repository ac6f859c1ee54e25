use ttyamat::{
    TerminalCell, TerminalCursor, TerminalCursorShape, TerminalFrame, TerminalRenderSpan,
    TerminalRenderUpdate,
};

fn cell(c: char) -> TerminalCell {
    TerminalCell::new(c, None, false, false)
}

fn cells(text: &str) -> Vec<TerminalCell> {
    text.chars().map(cell).collect()
}

fn rows(frame: &TerminalFrame) -> Vec<String> {
    frame.rows().to_vec()
}

fn frame_with(columns: u16, lines: u16, text: &str) -> TerminalFrame {
    let mut frame = TerminalFrame::default();
    frame.apply(TerminalRenderUpdate::full(columns, lines, None, cells(text)));
    frame
}

fn characters(frame: &TerminalFrame) -> String {
    let mut out = String::new();
    for line in 0..frame.lines() {
        for column in 0..frame.columns() {
            out.push(frame.cell(line, column).map(|c| c.character()).unwrap_or('?'));
        }
    }
    out
}

#[test]
fn default_frame_is_empty() {
    let frame = TerminalFrame::default();
    assert_eq!(frame.columns(), 0);
    assert_eq!(frame.lines(), 0);
    assert!(frame.rows().is_empty());
    assert_eq!(frame.cursor(), None);
    assert!(frame.cell(0, 0).is_none());
}

#[test]
fn full_update_builds_trimmed_rows() {
    let mut frame = TerminalFrame::default();
    let cursor = TerminalCursor::new(1, 2, TerminalCursorShape::Beam);
    frame.apply(TerminalRenderUpdate::full(4, 2, Some(cursor), cells("ab  c d ")));
    assert_eq!(frame.columns(), 4);
    assert_eq!(frame.lines(), 2);
    assert_eq!(rows(&frame), vec!["ab".to_string(), "c d".to_string()]);
    assert_eq!(frame.cursor(), Some(cursor));
    assert_eq!(frame.cell(1, 2).map(|c| c.character()), Some('d'));
    assert!(frame.cell(0, 4).is_none());
    assert!(frame.cell(2, 0).is_none());
}

#[test]
fn hidden_cells_show_as_spaces_and_spacers_show_nothing() {
    let mut frame = TerminalFrame::default();
    let line = vec![
        TerminalCell::new('x', None, true, false),
        TerminalCell::new('\u{4e2d}', None, false, false),
        TerminalCell::new(' ', None, false, true),
        TerminalCell::new('e', Some(vec!['\u{301}']), false, false),
        TerminalCell::new('s', None, true, false),
    ];
    frame.apply(TerminalRenderUpdate::full(5, 1, None, line));
    assert_eq!(rows(&frame), vec![" \u{4e2d}e\u{301}".to_string()]);
}

#[test]
fn zero_width_characters_are_read_back() {
    let plain = TerminalCell::new('a', None, false, false);
    let combined = TerminalCell::new('e', Some(vec!['\u{301}', '\u{302}']), false, false);
    assert!(plain.zero_width().is_empty());
    assert_eq!(combined.zero_width(), &['\u{301}', '\u{302}']);
    assert_eq!(combined.character(), 'e');
    assert!(!combined.is_hidden());
    assert!(!combined.is_wide_spacer());
    let default = TerminalCell::default();
    assert_eq!(default.character(), ' ');
    assert!(default.zero_width().is_empty());
}

#[test]
fn blank_line_is_an_empty_row() {
    let frame = frame_with(3, 2, "    a ");
    assert_eq!(rows(&frame), vec![String::new(), " a".to_string()]);
}

#[test]
fn partial_update_paints_span_and_rebuilds_its_row() {
    let mut frame = frame_with(4, 3, "abcdefghijkl");
    let cursor = TerminalCursor::new(2, 0, TerminalCursorShape::Block);
    let span = TerminalRenderSpan::new(1, 1, cells("XY"));
    frame.apply(TerminalRenderUpdate::partial(4, 3, Some(cursor), vec![span]));
    assert_eq!(characters(&frame), "abcdeXYhijkl");
    assert_eq!(rows(&frame), vec!["abcd".to_string(), "eXYh".to_string(), "ijkl".to_string()]);
    assert_eq!(frame.cursor(), Some(cursor));
}

#[test]
fn later_spans_overwrite_earlier_ones() {
    let mut frame = frame_with(4, 1, "abcd");
    let first = TerminalRenderSpan::new(0, 0, cells("1234"));
    let second = TerminalRenderSpan::new(0, 1, cells("Z"));
    frame.apply(TerminalRenderUpdate::partial(4, 1, None, vec![first, second]));
    assert_eq!(rows(&frame), vec!["1Z34".to_string()]);
}

#[test]
fn span_beyond_the_cells_is_ignored() {
    let mut frame = frame_with(2, 2, "abcd");
    let outside = TerminalRenderSpan::new(1, 1, cells("XY"));
    let far = TerminalRenderSpan::new(9, 0, cells("Q"));
    frame.apply(TerminalRenderUpdate::partial(2, 2, None, vec![outside, far]));
    assert_eq!(characters(&frame), "abcd");
    assert_eq!(rows(&frame), vec!["ab".to_string(), "cd".to_string()]);
}

#[test]
fn span_spilling_into_next_line_rebuilds_only_its_own_line() {
    let mut frame = frame_with(2, 2, "abcd");
    let spill = TerminalRenderSpan::new(0, 1, cells("XY"));
    frame.apply(TerminalRenderUpdate::partial(2, 2, None, vec![spill]));
    assert_eq!(characters(&frame), "aXYd");
    assert_eq!(rows(&frame), vec!["aX".to_string(), "cd".to_string()]);
}

#[test]
fn partial_update_with_new_dimensions_blanks_the_grid() {
    let mut frame = frame_with(2, 2, "abcd");
    let span = TerminalRenderSpan::new(0, 0, cells("Z"));
    frame.apply(TerminalRenderUpdate::partial(3, 1, None, vec![span]));
    assert_eq!(frame.columns(), 3);
    assert_eq!(frame.lines(), 1);
    assert_eq!(characters(&frame), "   ");
    assert_eq!(rows(&frame), vec![String::new()]);
}

#[test]
fn empty_partial_update_only_moves_the_cursor() {
    let mut frame = frame_with(3, 1, "abc");
    let cursor = TerminalCursor::new(0, 2, TerminalCursorShape::Underline);
    frame.apply(TerminalRenderUpdate::partial(3, 1, Some(cursor), Vec::new()));
    assert_eq!(characters(&frame), "abc");
    assert_eq!(rows(&frame), vec!["abc".to_string()]);
    assert_eq!(frame.cursor(), Some(cursor));
}

#[test]
fn full_update_replaces_whatever_was_there() {
    let mut first = frame_with(5, 3, "hello world    ");
    let mut second = TerminalFrame::default();
    let cursor = TerminalCursor::new(0, 1, TerminalCursorShape::HollowBlock);
    first.apply(TerminalRenderUpdate::full(2, 2, Some(cursor), cells("ab c")));
    second.apply(TerminalRenderUpdate::full(2, 2, Some(cursor), cells("ab c")));
    assert_eq!(rows(&first), rows(&second));
    assert_eq!(characters(&first), characters(&second));
    assert_eq!(first.cursor(), second.cursor());
    assert_eq!(rows(&first), vec!["ab".to_string(), " c".to_string()]);
}

#[test]
fn full_update_with_too_few_cells_keeps_rows_it_cannot_rebuild() {
    let mut frame = frame_with(2, 2, "abcd");
    frame.apply(TerminalRenderUpdate::full(2, 3, None, cells("xyz")));
    assert_eq!(frame.lines(), 3);
    assert_eq!(rows(&frame), vec!["xy".to_string(), "cd".to_string(), String::new()]);
    assert!(frame.cell(1, 1).is_none());
    assert_eq!(frame.cell(1, 0).map(|c| c.character()), Some('z'));
}

#[test]
fn full_update_with_fewer_lines_drops_rows() {
    let mut frame = frame_with(2, 3, "abcdef");
    frame.apply(TerminalRenderUpdate::full(2, 1, None, cells("gh")));
    assert_eq!(rows(&frame), vec!["gh".to_string()]);
}

#[test]
fn rows_never_end_in_a_space() {
    let frame = frame_with(4, 3, "a   b c d  e");
    for row in frame.rows() {
        assert!(!row.ends_with(' '));
    }
    assert_eq!(rows(&frame), vec!["a".to_string(), "b c".to_string(), "d  e".to_string()]);
}

#[test]
fn delivering_an_update_twice_is_delivering_it_once() {
    let update = || {
        TerminalRenderUpdate::partial(
            3,
            2,
            None,
            vec![
                TerminalRenderSpan::new(0, 0, cells("xy")),
                TerminalRenderSpan::new(0, 1, cells("Q ")),
                TerminalRenderSpan::new(1, 2, cells("z")),
            ],
        )
    };
    let mut once = frame_with(3, 2, "abcdef");
    once.apply(update());
    let mut twice = frame_with(3, 2, "abcdef");
    twice.apply(update());
    twice.apply(update());
    assert_eq!(characters(&once), "xQ dez");
    assert_eq!(characters(&twice), characters(&once));
    assert_eq!(rows(&twice), rows(&once));
    assert_eq!(rows(&once), vec!["xQ".to_string(), "dez".to_string()]);
}
