use vstd::prelude::*;

use crate::cell::{blank_cell, cells_text, lemma_blank_cells_text, CellView, TerminalCell, TerminalCursor};
use crate::text::{
    lemma_trim_spaces_is_empty, string_from_chars, trim_trailing_spaces,
    trim_trailing_spaces_in_place,
};

verus! {

/// A run of cells that replaces part of one line, as seen by specifications.
pub struct SpanView {
    pub line: u16,
    pub column: u16,
    pub cells: Seq<CellView>,
}

/// What part of the grid an update carries, as seen by specifications.
pub enum DamageView {
    /// The whole grid, line after line.
    Full(Seq<CellView>),
    /// Some runs of cells.
    Partial(Seq<SpanView>),
}

/// A render update, as seen by specifications.
pub struct UpdateView {
    pub columns: u16,
    pub lines: u16,
    pub cursor: Option<TerminalCursor>,
    pub damage: DamageView,
}

/// A frame, as seen by specifications.
pub struct FrameView {
    pub columns: u16,
    pub lines: u16,
    pub cells: Seq<CellView>,
    pub cursor: Option<TerminalCursor>,
    pub rows: Seq<Seq<char>>,
}

/// The views of a sequence of cells.
pub open spec fn cell_views(cells: Seq<TerminalCell>) -> Seq<CellView> {
    cells.map_values(|cell: TerminalCell| cell@)
}

/// The views of a sequence of strings.
pub open spec fn row_views(rows: Seq<String>) -> Seq<Seq<char>> {
    rows.map_values(|row: String| row@)
}

/// The views of a sequence of spans.
pub open spec fn span_views(spans: Seq<TerminalRenderSpan>) -> Seq<SpanView> {
    spans.map_values(|span: TerminalRenderSpan| span@)
}

/// Index of the first cell of `line` in a grid `columns` wide.
pub open spec fn row_start(columns: u16, line: int) -> int {
    line * columns
}

/// Whether all cells of `line` lie within `cells_len` cells.
pub open spec fn row_fits(cells_len: int, columns: u16, line: int) -> bool {
    row_start(columns, line) + columns <= cells_len
}

/// The text shown on `line`: the text of its cells without trailing spaces.
pub open spec fn row_text(cells: Seq<CellView>, columns: u16, line: int) -> Seq<char> {
    trim_trailing_spaces(
        cells_text(cells.subrange(row_start(columns, line), row_start(columns, line) + columns)),
    )
}

/// A row after it has been rebuilt from the cells: its text when the line
/// lies within the cells, otherwise the row as it was.
pub open spec fn rebuilt_row(old_row: Seq<char>, cells: Seq<CellView>, columns: u16, line: int) -> Seq<char> {
    if row_fits(cells.len() as int, columns, line) {
        row_text(cells, columns, line)
    } else {
        old_row
    }
}

/// Index of the first cell a span replaces.
pub open spec fn span_start(columns: u16, span: SpanView) -> int {
    span.line * columns + span.column
}

/// Whether a span lies within `cells_len` cells; spans that do not are ignored.
pub open spec fn span_fits(cells_len: int, columns: u16, span: SpanView) -> bool {
    span_start(columns, span) + span.cells.len() <= cells_len
}

/// The cells after one span has been painted over them.
pub open spec fn paint_span(cells: Seq<CellView>, columns: u16, span: SpanView) -> Seq<CellView> {
    if span_fits(cells.len() as int, columns, span) {
        Seq::new(
            cells.len(),
            |i: int|
                if span_start(columns, span) <= i < span_start(columns, span) + span.cells.len() {
                    span.cells[i - span_start(columns, span)]
                } else {
                    cells[i]
                },
        )
    } else {
        cells
    }
}

/// The cells after the spans have been painted over them in order.
pub open spec fn paint_spans(cells: Seq<CellView>, columns: u16, spans: Seq<SpanView>) -> Seq<CellView>
    decreases spans.len(),
{
    if spans.len() == 0 {
        cells
    } else {
        paint_span(paint_spans(cells, columns, spans.drop_last()), columns, spans.last())
    }
}

/// Whether some span that lies within the cells starts on `line`.
pub open spec fn line_damaged(cells_len: int, columns: u16, spans: Seq<SpanView>, line: int) -> bool {
    exists|k: int|
        0 <= k < spans.len() && span_fits(cells_len, columns, #[trigger] spans[k]) && spans[k].line
            == line
}

/// The frame that results from applying `update` to `frame`.
///
/// A full update replaces the dimensions and the cells and rebuilds every
/// row. A partial update of the same dimensions paints its spans and rebuilds
/// the rows they start on. A partial update of other dimensions blanks the
/// grid at the new dimensions. The cursor is always taken from the update.
pub open spec fn applied(frame: FrameView, update: UpdateView) -> FrameView {
    match update.damage {
        DamageView::Full(cells) => FrameView {
            columns: update.columns,
            lines: update.lines,
            cells: cells,
            cursor: update.cursor,
            rows: Seq::new(
                update.lines as nat,
                |r: int|
                    rebuilt_row(
                        if r < frame.rows.len() { frame.rows[r] } else { Seq::empty() },
                        cells,
                        update.columns,
                        r,
                    ),
            ),
        },
        DamageView::Partial(spans) => if frame.columns == update.columns && frame.lines
            == update.lines {
            FrameView {
                columns: frame.columns,
                lines: frame.lines,
                cells: paint_spans(frame.cells, frame.columns, spans),
                cursor: update.cursor,
                rows: Seq::new(
                    frame.rows.len(),
                    |r: int|
                        if line_damaged(frame.cells.len() as int, frame.columns, spans, r) {
                            rebuilt_row(
                                frame.rows[r],
                                paint_spans(frame.cells, frame.columns, spans),
                                frame.columns,
                                r,
                            )
                        } else {
                            frame.rows[r]
                        },
                ),
            }
        } else {
            FrameView {
                columns: update.columns,
                lines: update.lines,
                cells: Seq::new((update.columns * update.lines) as nat, |_i: int| blank_cell()),
                cursor: update.cursor,
                rows: Seq::new(update.lines as nat, |_r: int| Seq::<char>::empty()),
            }
        },
    }
}

/// Painting spans keeps the number of cells.
pub proof fn lemma_paint_spans_len(cells: Seq<CellView>, columns: u16, spans: Seq<SpanView>)
    ensures
        paint_spans(cells, columns, spans).len() == cells.len(),
    decreases spans.len(),
{
    if spans.len() > 0 {
        lemma_paint_spans_len(cells, columns, spans.drop_last());
    }
}

/// The start of a line and the end of its last cell fit in 32 bits.
proof fn lemma_row_bounds(line: u16, columns: u16)
    ensures
        0 <= line as int * columns as int <= 65535 * 65535,
        line as int * columns as int + columns as int + 65535 <= 0xffff_ffff,
{
    assert(0 <= line as int * columns as int <= 65535 * 65535) by (nonlinear_arith)
        requires
            line <= 65535,
            columns <= 65535,
    ;
}

/// A run of cells that replaces part of the grid, starting at a line and column.
#[derive(Debug)]
pub struct TerminalRenderSpan {
    line: u16,
    column: u16,
    cells: Vec<TerminalCell>,
}

impl View for TerminalRenderSpan {
    type V = SpanView;

    closed spec fn view(&self) -> SpanView {
        SpanView { line: self.line, column: self.column, cells: cell_views(self.cells@) }
    }
}

impl TerminalRenderSpan {
    /// A span of `cells` that starts at `line`, `column`.
    pub fn new(line: u16, column: u16, cells: Vec<TerminalCell>) -> (span: Self)
        ensures
            span@ == (SpanView { line, column, cells: cell_views(cells@) }),
    {
        TerminalRenderSpan { line, column, cells }
    }
}

#[derive(Debug)]
enum TerminalRenderDamage {
    Full(Vec<TerminalCell>),
    Partial(Vec<TerminalRenderSpan>),
}

/// A change to the terminal grid, to be applied to a [`TerminalFrame`].
#[derive(Debug)]
pub struct TerminalRenderUpdate {
    columns: u16,
    lines: u16,
    cursor: Option<TerminalCursor>,
    damage: TerminalRenderDamage,
}

impl View for TerminalRenderUpdate {
    type V = UpdateView;

    closed spec fn view(&self) -> UpdateView {
        UpdateView {
            columns: self.columns,
            lines: self.lines,
            cursor: self.cursor,
            damage: match &self.damage {
                TerminalRenderDamage::Full(cells) => DamageView::Full(cell_views(cells@)),
                TerminalRenderDamage::Partial(spans) => DamageView::Partial(span_views(spans@)),
            },
        }
    }
}

impl TerminalRenderUpdate {
    /// An update that carries the whole grid, line after line.
    pub fn full(columns: u16, lines: u16, cursor: Option<TerminalCursor>, cells: Vec<TerminalCell>) -> (update: Self)
        ensures
            update@ == (UpdateView {
                columns,
                lines,
                cursor,
                damage: DamageView::Full(cell_views(cells@)),
            }),
    {
        TerminalRenderUpdate { columns, lines, cursor, damage: TerminalRenderDamage::Full(cells) }
    }

    /// An update that carries some runs of cells.
    pub fn partial(
        columns: u16,
        lines: u16,
        cursor: Option<TerminalCursor>,
        spans: Vec<TerminalRenderSpan>,
    ) -> (update: Self)
        ensures
            update@ == (UpdateView {
                columns,
                lines,
                cursor,
                damage: DamageView::Partial(span_views(spans@)),
            }),
    {
        TerminalRenderUpdate { columns, lines, cursor, damage: TerminalRenderDamage::Partial(spans) }
    }
}

/// The terminal grid as last rendered: its cells, the cursor, and the text of
/// every line with trailing spaces removed.
#[derive(Clone, Debug, PartialEq, Eq)]
pub struct TerminalFrame {
    columns: u16,
    lines: u16,
    cells: Vec<TerminalCell>,
    cursor: Option<TerminalCursor>,
    rows: Vec<String>,
}

impl View for TerminalFrame {
    type V = FrameView;

    closed spec fn view(&self) -> FrameView {
        FrameView {
            columns: self.columns,
            lines: self.lines,
            cells: cell_views(self.cells@),
            cursor: self.cursor,
            rows: row_views(self.rows@),
        }
    }
}

impl Default for TerminalFrame {
    fn default() -> (frame: Self)
        ensures
            frame@ == (FrameView {
                columns: 0,
                lines: 0,
                cells: Seq::empty(),
                cursor: None,
                rows: Seq::empty(),
            }),
    {
        let frame = TerminalFrame {
            columns: 0,
            lines: 0,
            cells: Vec::new(),
            cursor: None,
            rows: Vec::new(),
        };
        assert(frame@.cells =~= Seq::<CellView>::empty());
        assert(frame@.rows =~= Seq::<Seq<char>>::empty());
        frame
    }
}

impl TerminalFrame {
    /// Applies a render update; see [`applied`].
    pub fn apply(&mut self, update: TerminalRenderUpdate)
        ensures
            final(self)@ == applied(old(self)@, update@),
    {
        let ghost update_view = update@;
        let TerminalRenderUpdate { columns, lines, cursor, damage } = update;
        let dimensions_changed = self.columns != columns || self.lines != lines;
        match damage {
            TerminalRenderDamage::Full(cells) => {
                self.columns = columns;
                self.lines = lines;
                self.cells = cells;
                self.cursor = cursor;
                self.resize_rows(lines as usize);
                self.rebuild_all_rows();
                assert(self@.rows =~= applied(old(self)@, update_view).rows);
            },
            TerminalRenderDamage::Partial(spans) => {
                if !dimensions_changed {
                    let ghost old_cells_len = self.cells@.len() as int;
                    let ghost span_list = span_views(spans@);
                    let damaged = self.paint_spans(spans);
                    proof {
                        assert forall|r: int| 0 <= r < damaged@.len() && #[trigger] damaged@[r] implies r <= 65535 by {
                            let k = choose|k: int|
                                0 <= k < span_list.len() && span_fits(old_cells_len, self.columns, #[trigger] span_list[k])
                                    && span_list[k].line == r;
                        }
                    }
                    self.cursor = cursor;
                    self.rebuild_damaged_rows(&damaged);
                    assert(self@.rows =~= applied(old(self)@, update_view).rows);
                } else {
                    self.columns = columns;
                    self.lines = lines;
                    self.cursor = cursor;
                    proof {
                        lemma_row_bounds(lines, columns);
                        assert(lines as int * columns as int == columns as int * lines as int) by (nonlinear_arith);
                    }
                    self.cells = blank_cells(columns as usize * lines as usize);
                    self.rows = empty_rows(lines as usize);
                    self.rebuild_all_rows();
                    proof {
                        assert forall|r: int| 0 <= r < lines implies #[trigger] self@.rows[r] == Seq::<char>::empty() by {
                            lemma_blank_row_is_empty(columns, lines, r);
                        }
                    }
                    assert(self@.cells =~= applied(old(self)@, update_view).cells);
                    assert(self@.rows =~= applied(old(self)@, update_view).rows);
                }
            },
        }
    }

    /// Number of columns.
    pub fn columns(&self) -> (columns: u16)
        ensures
            columns == self@.columns,
    {
        self.columns
    }

    /// Number of lines.
    pub fn lines(&self) -> (lines: u16)
        ensures
            lines == self@.lines,
    {
        self.lines
    }

    /// The cell at `line`, `column`; `None` when the column is outside the
    /// grid or the position lies beyond the cells.
    pub fn cell(&self, line: u16, column: u16) -> (cell: Option<&TerminalCell>)
        ensures
            column >= self@.columns ==> cell is None,
            column < self@.columns ==> {
                let index = line * self@.columns + column;
                &&& cell is Some <==> index < self@.cells.len()
                &&& cell matches Some(found) ==> found@ == self@.cells[index]
            },
    {
        if column >= self.columns {
            return None;
        }
        proof {
            lemma_row_bounds(line, self.columns);
        }
        let index = line as usize * self.columns as usize + column as usize;
        if index < self.cells.len() {
            Some(&self.cells[index])
        } else {
            None
        }
    }

    /// The cursor, when it is visible.
    pub fn cursor(&self) -> (cursor: Option<TerminalCursor>)
        ensures
            cursor == self@.cursor,
    {
        self.cursor
    }

    /// The text of every line, trailing spaces removed.
    pub fn rows(&self) -> (rows: &[String])
        ensures
            row_views(rows@) == self@.rows,
    {
        self.rows.as_slice()
    }

    /// Shortens or extends the rows to `count`, extending with empty rows.
    fn resize_rows(&mut self, count: usize)
        ensures
            final(self).columns == old(self).columns,
            final(self).lines == old(self).lines,
            final(self).cells == old(self).cells,
            final(self).cursor == old(self).cursor,
            final(self).rows@.len() == count,
            row_views(final(self).rows@) == Seq::new(
                count as nat,
                |r: int| if r < old(self).rows@.len() { row_views(old(self).rows@)[r] } else { Seq::empty() },
            ),
    {
        let ghost old_rows = row_views(self.rows@);
        while self.rows.len() > count
            invariant
                self.columns == old(self).columns,
                self.lines == old(self).lines,
                self.cells == old(self).cells,
                self.cursor == old(self).cursor,
                self.rows@.len() <= old_rows.len(),
                self.rows@.len() >= count || self.rows@.len() == old_rows.len(),
                forall|r: int| 0 <= r < self.rows@.len() ==> #[trigger] self.rows@[r]@ == old_rows[r],
            decreases self.rows.len(),
        {
            self.rows.pop();
        }
        while self.rows.len() < count
            invariant
                self.columns == old(self).columns,
                self.lines == old(self).lines,
                self.cells == old(self).cells,
                self.cursor == old(self).cursor,
                self.rows@.len() >= old_rows.len() || self.rows@.len() >= count,
                self.rows@.len() <= count,
                forall|r: int|
                    0 <= r < self.rows@.len() ==> #[trigger] self.rows@[r]@ == (if r < old_rows.len() {
                        old_rows[r]
                    } else {
                        Seq::empty()
                    }),
            decreases count - self.rows.len(),
        {
            self.rows.push(String::new());
        }
        assert(row_views(self.rows@) =~= Seq::new(
            count as nat,
            |r: int| if r < old_rows.len() { old_rows[r] } else { Seq::empty() },
        ));
    }

    /// Rebuilds the text of `line` from the cells.
    fn rebuild_row(&mut self, line: u16)
        ensures
            final(self).columns == old(self).columns,
            final(self).lines == old(self).lines,
            final(self).cells == old(self).cells,
            final(self).cursor == old(self).cursor,
            final(self).rows@.len() == old(self).rows@.len(),
            forall|r: int|
                0 <= r < old(self).rows@.len() ==> #[trigger] final(self).rows@[r]@ == (if r == line {
                    rebuilt_row(old(self).rows@[r]@, cell_views(old(self).cells@), old(self).columns, r)
                } else {
                    old(self).rows@[r]@
                }),
    {
        let columns = self.columns as usize;
        proof {
            lemma_row_bounds(line, self.columns);
        }
        let start = line as usize * columns;
        let end = start + columns;
        if end > self.cells.len() {
            return;
        }
        if line as usize >= self.rows.len() {
            return;
        }
        let ghost cells = cell_views(self.cells@);
        let mut text: Vec<char> = Vec::new();
        let mut i = start;
        while i < end
            invariant
                self.columns == old(self).columns,
                self.lines == old(self).lines,
                self.cells == old(self).cells,
                self.cursor == old(self).cursor,
                self.rows == old(self).rows,
                line < self.rows@.len(),
                start == line * self.columns,
                end == start + self.columns,
                start <= i <= end,
                end <= self.cells@.len(),
                cells == cell_views(self.cells@),
                text@ == cells_text(cells.subrange(start as int, i as int)),
            decreases end - i,
        {
            self.cells[i].append_text(&mut text);
            assert(cells.subrange(start as int, i + 1).drop_last() =~= cells.subrange(
                start as int,
                i as int,
            ));
            i += 1;
        }
        trim_trailing_spaces_in_place(&mut text);
        let row = string_from_chars(&text);
        self.rows.set(line as usize, row);
    }

    /// Rebuilds the text of every line.
    fn rebuild_all_rows(&mut self)
        requires
            old(self).rows@.len() == old(self).lines,
        ensures
            final(self).columns == old(self).columns,
            final(self).lines == old(self).lines,
            final(self).cells == old(self).cells,
            final(self).cursor == old(self).cursor,
            row_views(final(self).rows@) == Seq::new(
                old(self).lines as nat,
                |r: int|
                    rebuilt_row(row_views(old(self).rows@)[r], cell_views(old(self).cells@), old(self).columns, r),
            ),
    {
        let ghost old_rows = row_views(self.rows@);
        let ghost cells = cell_views(self.cells@);
        let mut line: u16 = 0;
        while line < self.lines
            invariant
                line <= self.lines,
                self.columns == old(self).columns,
                self.lines == old(self).lines,
                self.cells == old(self).cells,
                self.cursor == old(self).cursor,
                cells == cell_views(self.cells@),
                self.rows@.len() == self.lines,
                old_rows.len() == self.lines,
                forall|r: int|
                    0 <= r < self.rows@.len() ==> #[trigger] self.rows@[r]@ == (if r < line {
                        rebuilt_row(old_rows[r], cells, self.columns, r)
                    } else {
                        old_rows[r]
                    }),
            decreases self.lines - line,
        {
            self.rebuild_row(line);
            line += 1;
        }
        assert(row_views(self.rows@) =~= Seq::new(
            old(self).lines as nat,
            |r: int| rebuilt_row(old_rows[r], cells, old(self).columns, r),
        ));
    }

    /// Paints one span over the cells when it lies within them.
    fn paint_span(&mut self, span: TerminalRenderSpan) -> (painted: bool)
        ensures
            final(self).columns == old(self).columns,
            final(self).lines == old(self).lines,
            final(self).rows == old(self).rows,
            final(self).cursor == old(self).cursor,
            final(self).cells@.len() == old(self).cells@.len(),
            cell_views(final(self).cells@) == paint_span(cell_views(old(self).cells@), old(self).columns, span@),
            painted == span_fits(old(self).cells@.len() as int, old(self).columns, span@),
    {
        let ghost old_cells = cell_views(self.cells@);
        let ghost span_view = span@;
        let TerminalRenderSpan { line, column, cells: mut source } = span;
        let ghost source_cells = cell_views(source@);
        proof {
            lemma_row_bounds(line, self.columns);
        }
        let start = line as usize * self.columns as usize + column as usize;
        let length = source.len();
        let cells_len = self.cells.len();
        let end = match start.checked_add(length) {
            Some(end) => end,
            None => return false,
        };
        if end > cells_len {
            return false;
        }
        let mut remaining = length;
        assert(source_cells.subrange(0, remaining as int) =~= source_cells);
        while remaining > 0
            invariant
                remaining <= length,
                end == start + length,
                end <= self.cells@.len(),
                self.cells@.len() == old_cells.len(),
                self.columns == old(self).columns,
                self.lines == old(self).lines,
                self.rows == old(self).rows,
                self.cursor == old(self).cursor,
                source_cells.len() == length,
                source@.len() == remaining,
                cell_views(source@) == source_cells.subrange(0, remaining as int),
                forall|i: int|
                    0 <= i < old_cells.len() ==> #[trigger] cell_views(self.cells@)[i] == (if start
                        + remaining <= i < end {
                        source_cells[i - start]
                    } else {
                        old_cells[i]
                    }),
            decreases remaining,
        {
            let ghost previous = source@;
            let cell = source.pop().unwrap();
            remaining -= 1;
            assert(cell == previous[remaining as int]);
            assert(cell_views(previous)[remaining as int] == previous[remaining as int]@);
            assert(cell@ == source_cells[remaining as int]);
            let ghost before_set = self.cells@;
            self.cells.set(start + remaining, cell);
            assert forall|i: int| 0 <= i < old_cells.len() implies #[trigger] cell_views(self.cells@)[i] == (if start
                + remaining <= i < end {
                source_cells[i - start]
            } else {
                old_cells[i]
            }) by {
                assert(cell_views(self.cells@)[i] == self.cells@[i]@);
                assert(cell_views(before_set)[i] == before_set[i]@);
            }
            assert(cell_views(source@) =~= source_cells.subrange(0, remaining as int));
        }
        assert(cell_views(self.cells@) =~= paint_span(old_cells, self.columns, span_view));
        true
    }

    /// Paints the spans over the cells in order; reports, for every row,
    /// whether a span that was painted starts on it.
    fn paint_spans(&mut self, spans: Vec<TerminalRenderSpan>) -> (damaged: Vec<bool>)
        ensures
            final(self).columns == old(self).columns,
            final(self).lines == old(self).lines,
            final(self).rows == old(self).rows,
            final(self).cursor == old(self).cursor,
            cell_views(final(self).cells@) == paint_spans(
                cell_views(old(self).cells@),
                old(self).columns,
                span_views(spans@),
            ),
            damaged@.len() == old(self).rows@.len(),
            forall|r: int|
                0 <= r < damaged@.len() ==> (#[trigger] damaged@[r] <==> line_damaged(
                    old(self).cells@.len() as int,
                    old(self).columns,
                    span_views(spans@),
                    r,
                )),
    {
        let ghost all = span_views(spans@);
        let ghost old_cells = cell_views(self.cells@);
        let ghost cells_len = self.cells@.len() as int;
        let mut damaged: Vec<bool> = Vec::new();
        while damaged.len() < self.rows.len()
            invariant
                damaged@.len() <= self.rows@.len(),
                forall|r: int| 0 <= r < damaged@.len() ==> !#[trigger] damaged@[r],
            decreases self.rows.len() - damaged.len(),
        {
            damaged.push(false);
        }
        let mut spans = spans;
        let count = spans.len();
        let mut k: usize = 0;
        assert(all.subrange(0, 0) =~= Seq::<SpanView>::empty());
        assert(span_views(spans@) =~= all.subrange(0, count as int));
        while k < count
            invariant
                k <= count,
                count == all.len(),
                spans@.len() == count - k,
                span_views(spans@) == all.subrange(k as int, count as int),
                self.columns == old(self).columns,
                self.lines == old(self).lines,
                self.rows == old(self).rows,
                self.cursor == old(self).cursor,
                self.cells@.len() == cells_len,
                cell_views(self.cells@) == paint_spans(old_cells, self.columns, all.subrange(0, k as int)),
                damaged@.len() == self.rows@.len(),
                forall|r: int|
                    0 <= r < damaged@.len() ==> (#[trigger] damaged@[r] <==> line_damaged(
                        cells_len,
                        self.columns,
                        all.subrange(0, k as int),
                        r,
                    )),
            decreases count - k,
        {
            let ghost previous = spans@;
            let span = spans.remove(0);
            assert(span == previous[0]);
            assert(span_views(previous)[0] == previous[0]@);
            assert(span@ == all[k as int]);
            assert(spans@ == previous.remove(0));
            assert forall|i: int| 0 <= i < spans@.len() implies #[trigger] span_views(spans@)[i] == all.subrange(k + 1, count as int)[i] by {
                assert(spans@[i] == previous[i + 1]);
                assert(span_views(previous)[i + 1] == previous[i + 1]@);
            }
            assert(span_views(spans@) =~= all.subrange(k + 1, count as int));
            let line = span.line;
            let painted = self.paint_span(span);
            if painted && (line as usize) < damaged.len() {
                damaged.set(line as usize, true);
            }
            proof {
                let before = all.subrange(0, k as int);
                let after = all.subrange(0, k + 1);
                assert(after.drop_last() =~= before);
                assert(after.last() == all[k as int]);
                lemma_paint_spans_len(old_cells, self.columns, before);
                assert forall|r: int| 0 <= r < damaged@.len() implies (#[trigger] damaged@[r]
                    <==> line_damaged(cells_len, self.columns, after, r)) by {
                    if line_damaged(cells_len, self.columns, before, r) {
                        let j = choose|j: int|
                            0 <= j < before.len() && span_fits(cells_len, self.columns, #[trigger] before[j])
                                && before[j].line == r;
                        assert(after[j] == before[j]);
                    }
                    if line_damaged(cells_len, self.columns, after, r) {
                        let j = choose|j: int|
                            0 <= j < after.len() && span_fits(cells_len, self.columns, #[trigger] after[j])
                                && after[j].line == r;
                        if j < k {
                            assert(before[j] == after[j]);
                        }
                    }
                    if painted && line == r {
                        assert(after[k as int] == all[k as int]);
                    }
                }
            }
            k += 1;
        }
        assert(all.subrange(0, count as int) =~= all);
        damaged
    }

    /// Rebuilds the rows marked in `damaged`.
    fn rebuild_damaged_rows(&mut self, damaged: &Vec<bool>)
        requires
            damaged@.len() == old(self).rows@.len(),
            forall|r: int| 0 <= r < damaged@.len() && #[trigger] damaged@[r] ==> r <= 65535,
        ensures
            final(self).columns == old(self).columns,
            final(self).lines == old(self).lines,
            final(self).cells == old(self).cells,
            final(self).cursor == old(self).cursor,
            row_views(final(self).rows@) == Seq::new(
                old(self).rows@.len(),
                |r: int|
                    if damaged@[r] {
                        rebuilt_row(row_views(old(self).rows@)[r], cell_views(old(self).cells@), old(self).columns, r)
                    } else {
                        row_views(old(self).rows@)[r]
                    },
            ),
    {
        let ghost old_rows = row_views(self.rows@);
        let ghost cells = cell_views(self.cells@);
        let mut r: usize = 0;
        while r < damaged.len()
            invariant
                r <= damaged@.len(),
                damaged@.len() == old_rows.len(),
                forall|q: int| 0 <= q < damaged@.len() && #[trigger] damaged@[q] ==> q <= 65535,
                self.columns == old(self).columns,
                self.lines == old(self).lines,
                self.cells == old(self).cells,
                self.cursor == old(self).cursor,
                cells == cell_views(self.cells@),
                self.rows@.len() == old_rows.len(),
                forall|q: int|
                    0 <= q < self.rows@.len() ==> #[trigger] self.rows@[q]@ == (if q < r && damaged@[q] {
                        rebuilt_row(old_rows[q], cells, self.columns, q)
                    } else {
                        old_rows[q]
                    }),
            decreases damaged.len() - r,
        {
            if damaged[r] {
                self.rebuild_row(r as u16);
            }
            r += 1;
        }
        assert(row_views(self.rows@) =~= Seq::new(
            old_rows.len(),
            |q: int| if damaged@[q] { rebuilt_row(old_rows[q], cells, old(self).columns, q) } else { old_rows[q] },
        ));
    }

}

/// A line rebuilt from a blank grid is empty.
pub(crate) proof fn lemma_blank_row_is_empty(columns: u16, lines: u16, r: int)
    requires
        0 <= r < lines,
    ensures
        rebuilt_row(
            Seq::empty(),
            Seq::new((columns * lines) as nat, |_i: int| blank_cell()),
            columns,
            r,
        ) == Seq::<char>::empty(),
{
    let cells = Seq::new((columns * lines) as nat, |_i: int| blank_cell());
    assert(0 <= r * columns && r * columns + columns <= columns * lines) by (nonlinear_arith)
        requires
            0 <= r < lines,
            0 <= columns,
    ;
    assert(cells.subrange(r * columns, r * columns + columns) =~= Seq::new(
        columns as nat,
        |_i: int| blank_cell(),
    ));
    lemma_blank_cells_text(columns as nat);
    lemma_trim_spaces_is_empty(columns as nat);
}

/// `count` blank cells.
fn blank_cells(count: usize) -> (cells: Vec<TerminalCell>)
    ensures
        cells@.len() == count,
        cell_views(cells@) == Seq::new(count as nat, |_i: int| blank_cell()),
{
    let mut cells: Vec<TerminalCell> = Vec::new();
    while cells.len() < count
        invariant
            cells@.len() <= count,
            forall|i: int| 0 <= i < cells@.len() ==> #[trigger] cells@[i]@ == blank_cell(),
        decreases count - cells.len(),
    {
        cells.push(TerminalCell::default());
    }
    assert(cell_views(cells@) =~= Seq::new(count as nat, |_i: int| blank_cell()));
    cells
}

/// `count` empty rows.
fn empty_rows(count: usize) -> (rows: Vec<String>)
    ensures
        rows@.len() == count,
        row_views(rows@) == Seq::new(count as nat, |_r: int| Seq::<char>::empty()),
{
    let mut rows: Vec<String> = Vec::new();
    while rows.len() < count
        invariant
            rows@.len() <= count,
            forall|r: int| 0 <= r < rows@.len() ==> #[trigger] rows@[r]@ == Seq::<char>::empty(),
        decreases count - rows.len(),
    {
        rows.push(String::new());
    }
    assert(row_views(rows@) =~= Seq::new(count as nat, |_r: int| Seq::<char>::empty()));
    rows
}

} // verus!
