use ttyamat::{
    capture_cursor, capture_full, capture_partial, capture_span, dimension, plan_capture,
    plan_partial_capture, CapturePlan, Damage, LineDamage, TerminalCell, TerminalCursorShape,
    TerminalFrame,
};

fn damage(line: usize, left: usize, right: usize) -> LineDamage {
    LineDamage { line, left, right }
}

#[test]
fn dimension_saturates() {
    assert_eq!(dimension(0), 0);
    assert_eq!(dimension(80), 80);
    assert_eq!(dimension(65535), 65535);
    assert_eq!(dimension(65536), u16::MAX);
    assert_eq!(dimension(usize::MAX), u16::MAX);
}

#[test]
fn plan_drops_damage_off_the_grid_and_clamps_the_right_end() {
    let input = vec![damage(0, 2, 5), damage(3, 0, 1), damage(1, 10, 12), damage(2, 7, 30), damage(1, 4, 4)];
    let plan = plan_partial_capture(10, 3, &input);
    assert_eq!(plan, vec![damage(0, 2, 5), damage(2, 7, 9), damage(1, 4, 4)]);
}

#[test]
fn plan_of_a_grid_without_columns_is_empty() {
    let plan = plan_partial_capture(0, 3, &vec![damage(0, 0, 0)]);
    assert!(plan.is_empty());
}

fn read(text: &str) -> Vec<TerminalCell> {
    text.chars().map(|c| TerminalCell::new(c, None, false, false)).collect()
}

#[test]
fn captured_span_is_placed_at_the_damage() {
    let span = capture_span(damage(1, 2, 4), read("xyz"));
    let mut frame = TerminalFrame::default();
    frame.apply(capture_full(5, 2, None, vec![TerminalCell::default(); 10]));
    frame.apply(ttyamat::TerminalRenderUpdate::partial(5, 2, None, vec![span]));
    assert_eq!(frame.rows().to_vec(), vec![String::new(), "  xyz".to_string()]);
}

#[test]
fn partial_capture_follows_the_planned_damage() {
    let damage_list = vec![damage(1, 3, 9), damage(7, 0, 0), damage(0, 0, 1), damage(1, 6, 2)];
    let cells = vec![read("ab"), read("xy")];
    let mut frame = TerminalFrame::default();
    frame.apply(capture_full(5, 2, None, vec![TerminalCell::default(); 10]));
    frame.apply(capture_partial(5, 2, None, &damage_list, cells));
    assert_eq!(frame.rows().to_vec(), vec!["xy".to_string(), "   ab".to_string()]);
}

#[test]
fn partial_capture_drops_every_span_off_the_grid() {
    let damage_list = vec![damage(7, 0, 2), damage(0, 5, 6)];
    let mut frame = TerminalFrame::default();
    frame.apply(capture_full(3, 2, None, read("abcdef")));
    frame.apply(capture_partial(3, 2, None, &damage_list, Vec::new()));
    assert_eq!(frame.rows().to_vec(), vec!["abc".to_string(), "def".to_string()]);
}

#[test]
fn full_capture_saturates_its_dimensions() {
    let mut frame = TerminalFrame::default();
    frame.apply(capture_full(70000, 1, None, Vec::new()));
    assert_eq!(frame.columns(), u16::MAX);
    assert_eq!(frame.lines(), 1);
}

#[test]
fn hidden_cursor_is_not_drawn() {
    assert_eq!(capture_cursor(None, 3, 4, 0), None);
}

#[test]
fn cursor_line_includes_the_display_offset() {
    let cursor = capture_cursor(Some(TerminalCursorShape::Beam), -2, 7, 5).unwrap();
    assert_eq!(cursor.line(), 3);
    assert_eq!(cursor.column(), 7);
    assert_eq!(cursor.shape(), TerminalCursorShape::Beam);
}

#[test]
fn cursor_above_the_viewport_is_not_drawn() {
    assert_eq!(capture_cursor(Some(TerminalCursorShape::Block), -6, 0, 5), None);
}

#[test]
fn cursor_coordinates_saturate() {
    let cursor = capture_cursor(Some(TerminalCursorShape::Underline), 70000, 80000, 0).unwrap();
    assert_eq!(cursor.line(), u16::MAX);
    assert_eq!(cursor.column(), u16::MAX);
}

#[test]
fn full_damage_is_read_whole() {
    assert_eq!(plan_capture(Damage::Full), CapturePlan::Full);
}

#[test]
fn no_damaged_line_means_no_update() {
    assert_eq!(plan_capture(Damage::Partial(Vec::new())), CapturePlan::Nothing);
}

#[test]
fn partial_damage_is_read_by_line() {
    assert_eq!(
        plan_capture(Damage::Partial(vec![damage(5, 0, 3), damage(1, 3, 20)])),
        CapturePlan::Partial(vec![damage(5, 0, 3), damage(1, 3, 20)])
    );
}

#[test]
fn partial_capture_without_cells_for_an_entry_gives_it_no_span() {
    let damage_list = vec![damage(0, 0, 1), damage(1, 0, 1)];
    let mut frame = TerminalFrame::default();
    frame.apply(capture_full(2, 2, None, read("abcd")));
    frame.apply(capture_partial(2, 2, None, &damage_list, vec![read("xy")]));
    assert_eq!(frame.rows().to_vec(), vec!["xy".to_string(), "cd".to_string()]);
}

#[test]
fn wakeups_are_passed_on_only_when_none_is_pending() {
    assert!(ttyamat::wakeup_to_emit(false));
    assert!(!ttyamat::wakeup_to_emit(true));
}
