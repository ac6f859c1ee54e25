use vstd::prelude::*;

verus! {

/// The contents of one grid cell, as seen by specifications.
pub struct CellView {
    pub character: char,
    pub zero_width: Option<Seq<char>>,
    pub hidden: bool,
    pub wide_spacer: bool,
}

/// The zero-width characters of a cell (none when it has no list).
pub open spec fn zero_width_chars(cell: CellView) -> Seq<char> {
    match cell.zero_width {
        Some(chars) => chars,
        None => Seq::empty(),
    }
}

/// The text a cell contributes to its row: nothing for the spacer behind a
/// wide character, otherwise its character (a space when hidden) followed by
/// its zero-width characters.
pub open spec fn cell_text(cell: CellView) -> Seq<char> {
    if cell.wide_spacer {
        Seq::empty()
    } else {
        seq![if cell.hidden { ' ' } else { cell.character }] + zero_width_chars(cell)
    }
}

/// The concatenated text of a run of cells.
pub open spec fn cells_text(cells: Seq<CellView>) -> Seq<char>
    decreases cells.len(),
{
    if cells.len() == 0 {
        Seq::empty()
    } else {
        cells_text(cells.drop_last()) + cell_text(cells.last())
    }
}

/// A blank cell: a visible space with no zero-width characters.
pub open spec fn blank_cell() -> CellView {
    CellView { character: ' ', zero_width: None, hidden: false, wide_spacer: false }
}

/// The text of `n` blank cells is `n` spaces.
pub proof fn lemma_blank_cells_text(n: nat)
    ensures
        cells_text(Seq::new(n, |_i: int| blank_cell())) == crate::text::repeat_char(' ', n),
    decreases n,
{
    if n > 0 {
        assert(Seq::new(n, |_i: int| blank_cell()).drop_last() =~= Seq::new(
            (n - 1) as nat,
            |_i: int| blank_cell(),
        ));
        lemma_blank_cells_text((n - 1) as nat);
        assert(crate::text::repeat_char(' ', n) =~= crate::text::repeat_char(' ', (n - 1) as nat)
            + seq![' ']);
    } else {
        assert(crate::text::repeat_char(' ', n) =~= Seq::<char>::empty());
    }
}

/// A cell shows every one of its zero-width characters, in order, after its
/// character (a space when hidden); the spacer behind a wide character
/// shows nothing.
pub proof fn lemma_cell_text_keeps_every_zero_width_char(cell: CellView)
    ensures
        cell.wide_spacer ==> cell_text(cell).len() == 0,
        !cell.wide_spacer ==> {
            &&& cell_text(cell)[0] == (if cell.hidden { ' ' } else { cell.character })
            &&& cell.zero_width is None ==> cell_text(cell).len() == 1
            &&& forall|marks: Seq<char>|
                cell.zero_width == Some(marks) ==> {
                    &&& cell_text(cell).len() == 1 + marks.len()
                    &&& forall|i: int| 0 <= i < marks.len() ==> #[trigger] cell_text(cell)[i + 1] == marks[i]
                }
        },
{
}

/// One cell of a captured terminal grid.
#[derive(Clone, Debug, PartialEq, Eq)]
pub struct TerminalCell {
    character: char,
    zero_width: Option<Vec<char>>,
    hidden: bool,
    wide_spacer: bool,
}

impl View for TerminalCell {
    type V = CellView;

    closed spec fn view(&self) -> CellView {
        CellView {
            character: self.character,
            zero_width: match &self.zero_width {
                Some(chars) => Some(chars@),
                None => None,
            },
            hidden: self.hidden,
            wide_spacer: self.wide_spacer,
        }
    }
}

impl Default for TerminalCell {
    fn default() -> (cell: Self)
        ensures
            cell@ == blank_cell(),
    {
        TerminalCell { character: ' ', zero_width: None, hidden: false, wide_spacer: false }
    }
}

impl TerminalCell {
    /// A cell with the given character, zero-width characters and flags.
    pub fn new(character: char, zero_width: Option<Vec<char>>, hidden: bool, wide_spacer: bool) -> (cell: Self)
        ensures
            cell@.character == character,
            cell@.zero_width == (match zero_width {
                Some(chars) => Some(chars@),
                None => None,
            }),
            cell@.hidden == hidden,
            cell@.wide_spacer == wide_spacer,
    {
        TerminalCell { character, zero_width, hidden, wide_spacer }
    }

    /// The cell's character.
    pub fn character(&self) -> (c: char)
        ensures
            c == self@.character,
    {
        self.character
    }

    /// The zero-width characters combined with the cell's character; empty
    /// when there are none.
    pub fn zero_width(&self) -> (chars: &[char])
        ensures
            chars@ == zero_width_chars(self@),
    {
        match &self.zero_width {
            Some(chars) => chars.as_slice(),
            None => &[],
        }
    }

    /// Whether the cell's content is hidden.
    pub fn is_hidden(&self) -> (hidden: bool)
        ensures
            hidden == self@.hidden,
    {
        self.hidden
    }

    /// Whether the cell is the spacer that follows a wide character.
    pub fn is_wide_spacer(&self) -> (spacer: bool)
        ensures
            spacer == self@.wide_spacer,
    {
        self.wide_spacer
    }

    /// Appends the cell's text to `output`.
    pub(crate) fn append_text(&self, output: &mut Vec<char>)
        ensures
            final(output)@ == old(output)@ + cell_text(self@),
    {
        if self.wide_spacer {
            assert(output@ =~= old(output)@ + cell_text(self@));
            return;
        }
        output.push(if self.hidden { ' ' } else { self.character });
        let extra = self.zero_width();
        let mut i: usize = 0;
        while i < extra.len()
            invariant
                i <= extra@.len(),
                extra@ == zero_width_chars(self@),
                !self@.wide_spacer,
                output@ == old(output)@ + seq![if self@.hidden { ' ' } else { self@.character }]
                    + extra@.subrange(0, i as int),
            decreases extra.len() - i,
        {
            output.push(extra[i]);
            i += 1;
            assert(output@ =~= old(output)@ + seq![if self@.hidden { ' ' } else { self@.character }]
                + extra@.subrange(0, i as int));
        }
        assert(extra@.subrange(0, i as int) =~= extra@);
        assert(output@ =~= old(output)@ + cell_text(self@));
    }
}

/// The shape in which the cursor is drawn.
#[derive(Clone, Copy, Debug, PartialEq, Eq, Structural)]
pub enum TerminalCursorShape {
    Block,
    Underline,
    Beam,
    HollowBlock,
}

/// The position and shape of a visible cursor, in grid coordinates.
#[derive(Clone, Copy, Debug, PartialEq, Eq, Structural)]
pub struct TerminalCursor {
    line: u16,
    column: u16,
    shape: TerminalCursorShape,
}

impl TerminalCursor {
    /// The cursor's line, as seen by specifications.
    pub closed spec fn spec_line(self) -> u16 {
        self.line
    }

    /// The cursor's column, as seen by specifications.
    pub closed spec fn spec_column(self) -> u16 {
        self.column
    }

    /// The cursor's shape, as seen by specifications.
    pub closed spec fn spec_shape(self) -> TerminalCursorShape {
        self.shape
    }

    /// A cursor at `line`, `column` drawn as `shape`.
    pub fn new(line: u16, column: u16, shape: TerminalCursorShape) -> (cursor: Self)
        ensures
            cursor.spec_line() == line,
            cursor.spec_column() == column,
            cursor.spec_shape() == shape,
    {
        TerminalCursor { line, column, shape }
    }

    /// The cursor's line.
    pub fn line(self) -> (line: u16)
        ensures
            line == self.spec_line(),
    {
        self.line
    }

    /// The cursor's column.
    pub fn column(self) -> (column: u16)
        ensures
            column == self.spec_column(),
    {
        self.column
    }

    /// The cursor's shape.
    pub fn shape(self) -> (shape: TerminalCursorShape)
        ensures
            shape == self.spec_shape(),
    {
        self.shape
    }
}

} // verus!
