use vstd::prelude::*;

use crate::cell::CellView;
use crate::frame::{
    applied, line_damaged, paint_span, paint_spans, row_fits, row_start, row_text,
    span_fits, span_start, DamageView, FrameView, SpanView, UpdateView,
};
use crate::text::{lemma_trim_has_no_trailing_space, trim_trailing_spaces};

verus! {

/// A frame whose rows are exactly the text of its cells: one row per line,
/// one cell per grid position, and every row the trimmed text of its line.
pub open spec fn consistent(frame: FrameView) -> bool {
    &&& frame.rows.len() == frame.lines
    &&& frame.cells.len() == frame.columns * frame.lines
    &&& forall|r: int|
        0 <= r < frame.lines ==> #[trigger] frame.rows[r] == row_text(frame.cells, frame.columns, r)
}

/// An update as a terminal produces it: a full update carries one cell per
/// grid position, and every span of a partial update stays on its line.
pub open spec fn well_formed_update(update: UpdateView) -> bool {
    match update.damage {
        DamageView::Full(cells) => cells.len() == update.columns * update.lines,
        DamageView::Partial(spans) => forall|k: int|
            0 <= k < spans.len() ==> #[trigger] spans[k].column + spans[k].cells.len()
                <= update.columns,
    }
}

/// The empty frame a session starts from.
pub open spec fn empty_frame() -> FrameView {
    FrameView { columns: 0, lines: 0, cells: Seq::empty(), cursor: None, rows: Seq::empty() }
}

/// The empty frame is consistent.
pub proof fn lemma_empty_frame_consistent()
    ensures
        consistent(empty_frame()),
{
}

/// Every line of a grid with `cells_len == columns * lines` lies within the cells.
proof fn lemma_rows_fit(columns: u16, lines: u16, cells_len: int, r: int)
    requires
        cells_len == columns * lines,
        0 <= r < lines,
    ensures
        row_fits(cells_len, columns, r),
        0 <= row_start(columns, r),
{
    assert(0 <= r * columns && r * columns + columns <= columns * lines) by (nonlinear_arith)
        requires
            0 <= r < lines,
            0 <= columns,
    ;
}

/// Two distinct lines occupy disjoint cells.
proof fn lemma_lines_disjoint(columns: u16, a: int, b: int, i: int)
    requires
        0 <= a,
        0 <= b,
        a != b,
        a * columns <= i < a * columns + columns,
    ensures
        !(b * columns <= i < b * columns + columns),
{
    if a < b {
        assert(a * columns + columns <= b * columns) by (nonlinear_arith)
            requires
                a < b,
                0 <= columns,
        ;
    } else {
        assert(b * columns + columns <= a * columns) by (nonlinear_arith)
            requires
                b < a,
                0 <= columns,
        ;
    }
}

/// Painting spans that stay on their lines leaves the cells of every line
/// on which no painted span starts unchanged.
proof fn lemma_paint_keeps_undamaged_line(
    cells: Seq<CellView>,
    columns: u16,
    spans: Seq<SpanView>,
    r: int,
    i: int,
)
    requires
        0 <= r,
        row_start(columns, r) <= i < row_start(columns, r) + columns,
        0 <= i < cells.len(),
        !line_damaged(cells.len() as int, columns, spans, r),
        forall|k: int|
            0 <= k < spans.len() ==> #[trigger] spans[k].column + spans[k].cells.len() <= columns,
    ensures
        paint_spans(cells, columns, spans)[i] == cells[i],
        paint_spans(cells, columns, spans).len() == cells.len(),
    decreases spans.len(),
{
    if spans.len() > 0 {
        let rest = spans.drop_last();
        let last = spans.last();
        assert forall|k: int| 0 <= k < rest.len() implies #[trigger] rest[k].column + rest[k].cells.len()
            <= columns by {
            assert(rest[k] == spans[k]);
        }
        if line_damaged(cells.len() as int, columns, rest, r) {
            let k = choose|k: int|
                0 <= k < rest.len() && span_fits(cells.len() as int, columns, #[trigger] rest[k])
                    && rest[k].line == r;
            assert(spans[k] == rest[k]);
        }
        lemma_paint_keeps_undamaged_line(cells, columns, rest, r, i);
        let before = paint_spans(cells, columns, rest);
        assert(spans[spans.len() - 1] == last);
        assert(last.column + last.cells.len() <= columns);
        if span_fits(before.len() as int, columns, last) {
            assert(last.line != r);
            let start = span_start(columns, last);
            if start <= i < start + last.cells.len() {
                lemma_lines_disjoint(columns, last.line as int, r, i);
            }
            assert(paint_span(before, columns, last)[i] == before[i]);
        }
    }
}

/// Applying a well-formed update to a consistent frame yields a consistent
/// frame: the rows always show the text of the cells.
pub proof fn lemma_apply_keeps_consistent(frame: FrameView, update: UpdateView)
    requires
        consistent(frame),
        well_formed_update(update),
    ensures
        consistent(applied(frame, update)),
{
    let result = applied(frame, update);
    match update.damage {
        DamageView::Full(cells) => {
            assert forall|r: int| 0 <= r < result.lines implies #[trigger] result.rows[r] == row_text(
                result.cells,
                result.columns,
                r,
            ) by {
                lemma_rows_fit(update.columns, update.lines, cells.len() as int, r);
            }
        },
        DamageView::Partial(spans) => {
            if frame.columns == update.columns && frame.lines == update.lines {
                let painted = paint_spans(frame.cells, frame.columns, spans);
                crate::frame::lemma_paint_spans_len(frame.cells, frame.columns, spans);
                assert forall|r: int| 0 <= r < result.lines implies #[trigger] result.rows[r]
                    == row_text(result.cells, result.columns, r) by {
                    lemma_rows_fit(frame.columns, frame.lines, frame.cells.len() as int, r);
                    if !line_damaged(frame.cells.len() as int, frame.columns, spans, r) {
                        let start = row_start(frame.columns, r);
                        assert forall|i: int| start <= i < start + frame.columns implies #[trigger] painted[i]
                            == frame.cells[i] by {
                            lemma_paint_keeps_undamaged_line(frame.cells, frame.columns, spans, r, i);
                        }
                        assert(painted.subrange(start, start + frame.columns) =~= frame.cells.subrange(
                            start,
                            start + frame.columns,
                        ));
                        assert(frame.rows[r] == row_text(frame.cells, frame.columns, r));
                    }
                }
            } else {
                assert forall|r: int| 0 <= r < result.lines implies #[trigger] result.rows[r]
                    == row_text(result.cells, result.columns, r) by {
                    lemma_rows_fit(
                        update.columns,
                        update.lines,
                        (update.columns * update.lines) as int,
                        r,
                    );
                    crate::frame::lemma_blank_row_is_empty(update.columns, update.lines, r);
                }
            }
        },
    }
}

/// Whatever the update, a frame with one row per line keeps one row per line.
pub proof fn lemma_apply_keeps_one_row_per_line(frame: FrameView, update: UpdateView)
    requires
        frame.rows.len() == frame.lines,
    ensures
        applied(frame, update).rows.len() == applied(frame, update).lines,
{
}

/// A well-formed full update determines the whole frame: what the frame held
/// before makes no difference.
pub proof fn lemma_full_update_replaces(first: FrameView, second: FrameView, update: UpdateView)
    requires
        update.damage is Full,
        well_formed_update(update),
    ensures
        applied(first, update) == applied(second, update),
{
    let cells = update.damage->Full_0;
    assert forall|r: int| 0 <= r < update.lines implies #[trigger] applied(first, update).rows[r]
        == applied(second, update).rows[r] by {
        lemma_rows_fit(update.columns, update.lines, cells.len() as int, r);
    }
    assert(applied(first, update).rows =~= applied(second, update).rows);
}

/// A partial update without spans, of the frame's own dimensions, changes
/// nothing but the cursor.
pub proof fn lemma_empty_partial_update_moves_cursor_only(frame: FrameView, update: UpdateView)
    requires
        update.damage == DamageView::Partial(Seq::empty()),
        update.columns == frame.columns,
        update.lines == frame.lines,
    ensures
        applied(frame, update) == (FrameView { cursor: update.cursor, ..frame }),
{
    assert(applied(frame, update).rows =~= frame.rows);
}

/// After a full update of a one-cell grid, the row shows the cell's character
/// (a space when hidden) followed by all of its zero-width characters, in
/// order, without trailing spaces; a wide-character spacer shows nothing.
pub proof fn lemma_one_cell_row_shows_all_zero_width_chars(
    frame: FrameView,
    update: UpdateView,
    cell: CellView,
    marks: Seq<char>,
)
    requires
        update.columns == 1,
        update.lines == 1,
        update.damage == DamageView::Full(seq![cell]),
        cell.zero_width == Some(marks) || (cell.zero_width is None && marks == Seq::<char>::empty()),
    ensures
        applied(frame, update).rows.len() == 1,
        !cell.wide_spacer ==> applied(frame, update).rows[0] == trim_trailing_spaces(
            seq![if cell.hidden { ' ' } else { cell.character }] + marks,
        ),
        cell.wide_spacer ==> applied(frame, update).rows[0] == Seq::<char>::empty(),
{
    let cells = seq![cell];
    assert(cells.subrange(0, 1) =~= cells);
    assert(cells.drop_last() =~= Seq::<CellView>::empty());
    assert(cells.last() == cell);
    assert(crate::cell::cells_text(Seq::<CellView>::empty()) == Seq::<char>::empty());
    assert(crate::cell::cells_text(cells) == crate::cell::cells_text(cells.drop_last())
        + crate::cell::cell_text(cells.last()));
    assert(crate::cell::cells_text(cells) =~= crate::cell::cell_text(cell));
    assert(row_start(1, 0) == 0);
    if !cell.wide_spacer {
        assert(crate::cell::cell_text(cell) =~= seq![if cell.hidden { ' ' } else { cell.character }]
            + marks);
    } else {
        assert(crate::cell::cell_text(cell) =~= Seq::<char>::empty());
    }
}

/// In a consistent frame no row ends with a space.
pub proof fn lemma_rows_have_no_trailing_space(frame: FrameView, r: int)
    requires
        consistent(frame),
        0 <= r < frame.lines,
    ensures
        frame.rows[r].len() > 0 ==> frame.rows[r].last() != ' ',
{
    let start = row_start(frame.columns, r);
    lemma_trim_has_no_trailing_space(
        crate::cell::cells_text(frame.cells.subrange(start, start + frame.columns)),
    );
}

/// The cell at `i` after painting `spans` over `cells`.
spec fn painted_at(cells: Seq<CellView>, columns: u16, spans: Seq<SpanView>, i: int) -> CellView
    decreases spans.len(),
{
    if spans.len() == 0 {
        cells[i]
    } else {
        let last = spans.last();
        let start = span_start(columns, last);
        if span_fits(cells.len() as int, columns, last) && start <= i < start + last.cells.len() {
            last.cells[i - start]
        } else {
            painted_at(cells, columns, spans.drop_last(), i)
        }
    }
}

/// Whether some span that fits covers position `i`.
spec fn covered(cells_len: int, columns: u16, spans: Seq<SpanView>, i: int) -> bool
    decreases spans.len(),
{
    if spans.len() == 0 {
        false
    } else {
        let last = spans.last();
        let start = span_start(columns, last);
        (span_fits(cells_len, columns, last) && start <= i < start + last.cells.len()) || covered(
            cells_len,
            columns,
            spans.drop_last(),
            i,
        )
    }
}

proof fn lemma_paint_spans_at(cells: Seq<CellView>, columns: u16, spans: Seq<SpanView>, i: int)
    requires
        0 <= i < cells.len(),
    ensures
        paint_spans(cells, columns, spans).len() == cells.len(),
        paint_spans(cells, columns, spans)[i] == painted_at(cells, columns, spans, i),
    decreases spans.len(),
{
    crate::frame::lemma_paint_spans_len(cells, columns, spans);
    if spans.len() > 0 {
        lemma_paint_spans_at(cells, columns, spans.drop_last(), i);
    }
}

proof fn lemma_painted_at_depends_on_cover(
    x: Seq<CellView>,
    y: Seq<CellView>,
    columns: u16,
    spans: Seq<SpanView>,
    i: int,
)
    requires
        x.len() == y.len(),
    ensures
        covered(x.len() as int, columns, spans, i) ==> painted_at(x, columns, spans, i) == painted_at(
            y,
            columns,
            spans,
            i,
        ),
        !covered(x.len() as int, columns, spans, i) ==> painted_at(x, columns, spans, i) == x[i],
    decreases spans.len(),
{
    if spans.len() > 0 {
        lemma_painted_at_depends_on_cover(x, y, columns, spans.drop_last(), i);
    }
}

/// Painting the same spans twice paints them once.
proof fn lemma_paint_spans_idempotent(cells: Seq<CellView>, columns: u16, spans: Seq<SpanView>)
    ensures
        paint_spans(paint_spans(cells, columns, spans), columns, spans) == paint_spans(
            cells,
            columns,
            spans,
        ),
{
    let once = paint_spans(cells, columns, spans);
    let twice = paint_spans(once, columns, spans);
    crate::frame::lemma_paint_spans_len(cells, columns, spans);
    crate::frame::lemma_paint_spans_len(once, columns, spans);
    assert forall|i: int| 0 <= i < cells.len() implies #[trigger] twice[i] == once[i] by {
        lemma_paint_spans_at(cells, columns, spans, i);
        lemma_paint_spans_at(once, columns, spans, i);
        lemma_painted_at_depends_on_cover(once, cells, columns, spans, i);
        lemma_painted_at_depends_on_cover(cells, once, columns, spans, i);
    }
    assert(twice =~= once);
}

/// Delivering the same update twice has the effect of delivering it once,
/// for a full update and for a partial update of the frame's dimensions.
pub proof fn lemma_apply_twice_is_apply_once(frame: FrameView, update: UpdateView)
    requires
        update.damage is Full || (update.columns == frame.columns && update.lines == frame.lines),
    ensures
        applied(applied(frame, update), update) == applied(frame, update),
{
    let once = applied(frame, update);
    let twice = applied(once, update);
    match update.damage {
        DamageView::Full(cells) => {
            assert(twice.rows =~= once.rows);
        },
        DamageView::Partial(spans) => {
            lemma_paint_spans_idempotent(frame.cells, frame.columns, spans);
            crate::frame::lemma_paint_spans_len(frame.cells, frame.columns, spans);
            assert(twice.cells == once.cells);
            assert(twice.rows =~= once.rows);
        },
    }
}

} // verus!
