use vstd::prelude::*;

use crate::cell::{TerminalCell, TerminalCursor, TerminalCursorShape};
use crate::cell::CellView;
use crate::frame::{cell_views, span_views, DamageView, SpanView, TerminalRenderSpan, TerminalRenderUpdate, UpdateView};
use crate::frame_laws::well_formed_update;

verus! {

/// A grid dimension or coordinate clamped to the largest `u16`.
pub open spec fn clamped(value: int) -> u16 {
    if value <= 65535 { value as u16 } else { 65535 }
}

/// Converts a grid dimension or coordinate to `u16`, saturating at `u16::MAX`.
pub fn dimension(value: usize) -> (result: u16)
    ensures
        result == clamped(value as int),
{
    if value <= 65535 {
        value as u16
    } else {
        u16::MAX
    }
}

/// The columns of one line that changed since the last capture: from `left`
/// to `right`, both included.
#[derive(Clone, Copy, Debug, PartialEq, Eq, Structural)]
pub struct LineDamage {
    pub line: usize,
    pub left: usize,
    pub right: usize,
}

/// Whether damage lies on a visible line and starts on a visible column.
pub open spec fn damage_visible(columns: usize, lines: usize, damage: LineDamage) -> bool {
    damage.line < lines && damage.left < columns
}

/// Damage with its right end clamped to the last column.
pub open spec fn damage_clamped(columns: usize, damage: LineDamage) -> LineDamage {
    LineDamage {
        line: damage.line,
        left: damage.left,
        right: if damage.right < columns - 1 { damage.right } else { (columns - 1) as usize },
    }
}

/// The damage that is captured, in order: the visible entries, each clamped
/// to the last column.
pub open spec fn planned_damage(columns: usize, lines: usize, damage: Seq<LineDamage>) -> Seq<LineDamage>
    decreases damage.len(),
{
    if damage.len() == 0 {
        Seq::empty()
    } else {
        let rest = planned_damage(columns, lines, damage.drop_last());
        if damage_visible(columns, lines, damage.last()) {
            rest.push(damage_clamped(columns, damage.last()))
        } else {
            rest
        }
    }
}

/// Chooses which damaged lines of a grid `columns` wide and `lines` high to
/// capture, and up to which column: entries off the grid are dropped and the
/// right end is clamped to the last column.
pub fn plan_partial_capture(columns: usize, lines: usize, damage: &Vec<LineDamage>) -> (plan: Vec<LineDamage>)
    ensures
        plan@ == planned_damage(columns, lines, damage@),
{
    let mut plan: Vec<LineDamage> = Vec::new();
    let mut i: usize = 0;
    while i < damage.len()
        invariant
            i <= damage@.len(),
            plan@ == planned_damage(columns, lines, damage@.subrange(0, i as int)),
        decreases damage.len() - i,
    {
        let entry = damage[i];
        assert(damage@.subrange(0, i + 1).drop_last() =~= damage@.subrange(0, i as int));
        if entry.line < lines && entry.left < columns {
            let right = if entry.right < columns - 1 { entry.right } else { columns - 1 };
            plan.push(LineDamage { line: entry.line, left: entry.left, right });
        }
        i += 1;
    }
    assert(damage@.subrange(0, i as int) =~= damage@);
    plan
}

/// The damage a terminal reports since the last capture.
pub enum Damage {
    /// Everything changed.
    Full,
    /// Only these lines changed, in this order.
    Partial(Vec<LineDamage>),
}

/// What to read from the terminal for the next update.
#[derive(Debug, PartialEq, Eq)]
pub enum CapturePlan {
    /// Read the whole grid.
    Full,
    /// Nothing changed; there is no update.
    Nothing,
    /// Read the lines of this damage, as [`capture_partial`] plans them.
    Partial(Vec<LineDamage>),
}

/// Decides what to read for the next update: everything after full damage,
/// nothing when no line is damaged, otherwise the damaged lines.
pub fn plan_capture(damage: Damage) -> (plan: CapturePlan)
    ensures
        match damage {
            Damage::Full => plan == CapturePlan::Full,
            Damage::Partial(entries) => if entries@.len() == 0 {
                plan == CapturePlan::Nothing
            } else {
                plan matches CapturePlan::Partial(kept) && kept@ == entries@
            },
        },
{
    match damage {
        Damage::Full => CapturePlan::Full,
        Damage::Partial(entries) => {
            if entries.len() == 0 {
                CapturePlan::Nothing
            } else {
                CapturePlan::Partial(entries)
            }
        },
    }
}

/// Every planned entry is visible and ends on or before the last column.
pub proof fn lemma_planned_damage_on_grid(columns: usize, lines: usize, damage: Seq<LineDamage>, k: int)
    requires
        0 <= k < planned_damage(columns, lines, damage).len(),
    ensures
        planned_damage(columns, lines, damage)[k].line < lines,
        planned_damage(columns, lines, damage)[k].left < columns,
        planned_damage(columns, lines, damage)[k].right < columns,
    decreases damage.len(),
{
    if damage.len() > 0 {
        let rest = planned_damage(columns, lines, damage.drop_last());
        if k < rest.len() {
            lemma_planned_damage_on_grid(columns, lines, damage.drop_last(), k);
        }
    }
}

/// The number of cells from `left` to `right`, both included (none when
/// `right` lies left of `left`).
pub open spec fn damage_width(damage: LineDamage) -> int {
    if damage.right < damage.left { 0 } else { damage.right - damage.left + 1 }
}

/// The cells read for each planned entry, as seen by specifications.
pub open spec fn cell_rows(cells: Seq<Vec<TerminalCell>>) -> Seq<Seq<CellView>> {
    cells.map_values(|row: Vec<TerminalCell>| cell_views(row@))
}

/// The spans of a partial capture: one per planned entry of `damage` for
/// which cells were read, in order, at the entry's line and left column
/// (saturated to `u16`), holding the cells read for that entry.
pub open spec fn captured_spans(
    columns: usize,
    lines: usize,
    damage: Seq<LineDamage>,
    cells: Seq<Seq<CellView>>,
) -> Seq<SpanView> {
    Seq::new(
        if cells.len() < planned_damage(columns, lines, damage).len() {
            cells.len()
        } else {
            planned_damage(columns, lines, damage).len()
        },
        |k: int|
            SpanView {
                line: clamped(planned_damage(columns, lines, damage)[k].line as int),
                column: clamped(planned_damage(columns, lines, damage)[k].left as int),
                cells: cells[k],
            },
    )
}

/// Whether `cells` holds, for every planned entry of `damage`, one cell per
/// column from the entry's left end to its right end.
pub open spec fn cells_match_plan(
    columns: usize,
    lines: usize,
    damage: Seq<LineDamage>,
    cells: Seq<Seq<CellView>>,
) -> bool {
    &&& cells.len() == planned_damage(columns, lines, damage).len()
    &&& forall|k: int|
        0 <= k < cells.len() ==> #[trigger] cells[k].len() == damage_width(
            planned_damage(columns, lines, damage)[k],
        )
}

/// On a grid no larger than `u16::MAX` in either direction, every span of a
/// partial capture lies on a line of the grid; when the cells read match the
/// plan, it also ends on or before the grid's last column.
pub proof fn lemma_captured_spans_on_grid(
    columns: usize,
    lines: usize,
    damage: Seq<LineDamage>,
    cells: Seq<Seq<CellView>>,
    k: int,
)
    requires
        columns <= 65535,
        lines <= 65535,
        0 <= k < captured_spans(columns, lines, damage, cells).len(),
    ensures
        captured_spans(columns, lines, damage, cells)[k].line < clamped(lines as int),
        cells_match_plan(columns, lines, damage, cells) ==> captured_spans(
            columns,
            lines,
            damage,
            cells,
        )[k].column + captured_spans(columns, lines, damage, cells)[k].cells.len() <= clamped(
            columns as int,
        ),
{
    lemma_planned_damage_on_grid(columns, lines, damage, k);
    if cells_match_plan(columns, lines, damage, cells) {
        assert(cells[k].len() == damage_width(planned_damage(columns, lines, damage)[k]));
    }
}

/// The span captured for planned damage: its cells, placed at the damage's
/// line and left column (both saturated to `u16`).
pub fn capture_span(damage: LineDamage, cells: Vec<TerminalCell>) -> (span: TerminalRenderSpan)
    ensures
        span@ == (SpanView {
            line: clamped(damage.line as int),
            column: clamped(damage.left as int),
            cells: cell_views(cells@),
        }),
{
    TerminalRenderSpan::new(dimension(damage.line), dimension(damage.left), cells)
}

/// A full update captured from a grid `columns` wide and `lines` high; it is
/// well formed when it holds one cell per grid position and both dimensions
/// fit in `u16`.
pub fn capture_full(
    columns: usize,
    lines: usize,
    cursor: Option<TerminalCursor>,
    cells: Vec<TerminalCell>,
) -> (update: TerminalRenderUpdate)
    ensures
        update@ == (UpdateView {
            columns: clamped(columns as int),
            lines: clamped(lines as int),
            cursor,
            damage: DamageView::Full(cell_views(cells@)),
        }),
        columns <= 65535 && lines <= 65535 && cells@.len() == columns * lines ==> well_formed_update(
            update@,
        ),
{
    TerminalRenderUpdate::full(dimension(columns), dimension(lines), cursor, cells)
}

/// A partial update captured from a grid `columns` wide and `lines` high
/// after `damage`: one span per entry that [`plan_partial_capture`] keeps, in
/// order, holding the cells read for it (`cells[k]` for the `k`-th kept
/// entry; entries beyond the cells given get no span). On a grid no larger
/// than `u16::MAX` in either direction every span lies on a line of the grid,
/// and when the cells read match the plan the update is well formed.
pub fn capture_partial(
    columns: usize,
    lines: usize,
    cursor: Option<TerminalCursor>,
    damage: &Vec<LineDamage>,
    cells: Vec<Vec<TerminalCell>>,
) -> (update: TerminalRenderUpdate)
    ensures
        update@ == (UpdateView {
            columns: clamped(columns as int),
            lines: clamped(lines as int),
            cursor,
            damage: DamageView::Partial(captured_spans(columns, lines, damage@, cell_rows(cells@))),
        }),
        cells@.len() == planned_damage(columns, lines, damage@).len() ==> captured_spans(
            columns,
            lines,
            damage@,
            cell_rows(cells@),
        ).len() == planned_damage(columns, lines, damage@).len(),
        columns <= 65535 && lines <= 65535 ==> forall|k: int|
            0 <= k < captured_spans(columns, lines, damage@, cell_rows(cells@)).len()
                ==> #[trigger] captured_spans(columns, lines, damage@, cell_rows(cells@))[k].line
                < update@.lines,
        columns <= 65535 && lines <= 65535 && cells_match_plan(columns, lines, damage@, cell_rows(cells@))
            ==> well_formed_update(update@),
{
    let ghost rows = cell_rows(cells@);
    let ghost expected = captured_spans(columns, lines, damage@, rows);
    let plan = plan_partial_capture(columns, lines, damage);
    let mut cells = cells;
    let mut spans: Vec<TerminalRenderSpan> = Vec::new();
    let available = cells.len();
    let count = if available < plan.len() { available } else { plan.len() };
    let mut k: usize = 0;
    while k < count
        invariant
            k <= count,
            count <= plan@.len(),
            count <= available,
            count as int == (if available < plan@.len() { available as int } else { plan@.len() as int }),
            plan@ == planned_damage(columns, lines, damage@),
            rows.len() == available,
            expected == captured_spans(columns, lines, damage@, rows),
            cells@.len() == available - k,
            cell_rows(cells@) == rows.subrange(k as int, available as int),
            span_views(spans@) == expected.subrange(0, k as int),
        decreases count - k,
    {
        assert(expected.len() == count);
        assert(span_views(spans@).len() == k);
        assert(spans@.len() == k);
        let ghost previous = cells@;
        let row = cells.remove(0);
        assert(row == previous[0]);
        assert(cell_rows(previous)[0] == cell_views(previous[0]@));
        assert forall|i: int| 0 <= i < cells@.len() implies #[trigger] cell_rows(cells@)[i] == rows.subrange(
            k + 1,
            available as int,
        )[i] by {
            assert(cells@[i] == previous[i + 1]);
            assert(cell_rows(previous)[i + 1] == cell_views(previous[i + 1]@));
        }
        assert(cell_rows(cells@) =~= rows.subrange(k + 1, available as int));
        assert(rows.subrange(k as int, available as int)[0] == rows[k as int]);
        let span = capture_span(plan[k], row);
        assert(span@ == expected[k as int]);
        let ghost before = spans@;
        spans.push(span);
        assert(spans@ == before.push(span));
        assert forall|i: int| 0 <= i <= k implies #[trigger] span_views(spans@)[i] == expected[i] by {
            if i < k {
                assert(span_views(before)[i] == before[i]@);
                assert(expected.subrange(0, k as int)[i] == expected[i]);
            }
        }
        assert(span_views(spans@) =~= expected.subrange(0, k + 1));
        k += 1;
    }
    assert(expected.subrange(0, count as int) =~= expected);
    let update = TerminalRenderUpdate::partial(dimension(columns), dimension(lines), cursor, spans);
    proof {
        assert(update@.damage == DamageView::Partial(expected));
        assert(update@.columns == clamped(columns as int));
        if columns <= 65535 && lines <= 65535 {
            assert forall|j: int| 0 <= j < expected.len() implies (#[trigger] expected[j]).line < clamped(
                lines as int,
            ) by {
                lemma_captured_spans_on_grid(columns, lines, damage@, rows, j);
            }
            if cells_match_plan(columns, lines, damage@, rows) {
                assert forall|j: int| 0 <= j < expected.len() implies (#[trigger] expected[j]).column
                    + expected[j].cells.len() <= clamped(columns as int) by {
                    lemma_captured_spans_on_grid(columns, lines, damage@, rows, j);
                }
                assert(well_formed_update(update@));
            }
        }
    }
    update
}

/// The cursor to draw, from the terminal's cursor shape (`None` when the
/// terminal hides it), its line relative to the scrolled viewport, its
/// column and the display offset: `None` when hidden or above the viewport,
/// otherwise at the line and column saturated to `u16`.
pub fn capture_cursor(
    shape: Option<TerminalCursorShape>,
    line: i32,
    column: usize,
    display_offset: usize,
) -> (cursor: Option<TerminalCursor>)
    requires
        i32::MIN <= line + (display_offset as i32) <= i32::MAX,
    ensures
        cursor is None <==> (shape is None || line + (display_offset as i32) < 0),
        cursor matches Some(c) ==> {
            &&& c.spec_line() == clamped(line + (display_offset as i32))
            &&& c.spec_column() == clamped(column as int)
            &&& Some(c.spec_shape()) == shape
        },
{
    let shape = match shape {
        Some(shape) => shape,
        None => return None,
    };
    let line = line + display_offset as i32;
    if line < 0 {
        return None;
    }
    Some(TerminalCursor::new(dimension(line as usize), dimension(column), shape))
}

} // verus!
