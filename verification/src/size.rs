use vstd::prelude::*;

verus! {

/// The size of a terminal grid in cells, together with the size of one cell
/// in physical pixels. Every component is non-zero.
#[derive(Debug, Clone, Copy, PartialEq, Eq)]
pub struct TerminalSize {
    columns: u16,
    lines: u16,
    cell_width: u16,
    cell_height: u16,
}

impl TerminalSize {
    /// Number of columns, as seen by specifications.
    pub closed spec fn spec_columns(self) -> u16 {
        self.columns
    }

    /// Number of lines, as seen by specifications.
    pub closed spec fn spec_lines(self) -> u16 {
        self.lines
    }

    /// Width of one cell, as seen by specifications.
    pub closed spec fn spec_cell_width(self) -> u16 {
        self.cell_width
    }

    /// Height of one cell, as seen by specifications.
    pub closed spec fn spec_cell_height(self) -> u16 {
        self.cell_height
    }

    #[verifier::type_invariant]
    spec fn well_formed(self) -> bool {
        &&& self.columns > 0
        &&& self.lines > 0
        &&& self.cell_width > 0
        &&& self.cell_height > 0
    }

    /// Builds a size; `None` when any component is zero.
    pub fn new(columns: u16, lines: u16, cell_width: u16, cell_height: u16) -> (result: Option<Self>)
        ensures
            result is None <==> (columns == 0 || lines == 0 || cell_width == 0 || cell_height == 0),
            result matches Some(size) ==> {
                &&& size.spec_columns() == columns
                &&& size.spec_lines() == lines
                &&& size.spec_cell_width() == cell_width
                &&& size.spec_cell_height() == cell_height
            },
    {
        if columns == 0 || lines == 0 || cell_width == 0 || cell_height == 0 {
            return None;
        }
        Some(Self { columns, lines, cell_width, cell_height })
    }

    /// Number of columns.
    pub fn columns(&self) -> (result: u16)
        ensures
            result == self.spec_columns(),
            result > 0,
    {
        proof {
            use_type_invariant(self);
        }
        self.columns
    }

    /// Number of lines.
    pub fn lines(&self) -> (result: u16)
        ensures
            result == self.spec_lines(),
            result > 0,
    {
        proof {
            use_type_invariant(self);
        }
        self.lines
    }

    /// Width of one cell in physical pixels.
    pub fn cell_width(&self) -> (result: u16)
        ensures
            result == self.spec_cell_width(),
            result > 0,
    {
        proof {
            use_type_invariant(self);
        }
        self.cell_width
    }

    /// Height of one cell in physical pixels.
    pub fn cell_height(&self) -> (result: u16)
        ensures
            result == self.spec_cell_height(),
            result > 0,
    {
        proof {
            use_type_invariant(self);
        }
        self.cell_height
    }
}

} // verus!
