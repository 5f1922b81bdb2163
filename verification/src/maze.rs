//! The maze grid and its loader.
//!
//! A maze is a rectangular grid of single-character cell symbols: a
//! space is open floor, anything else is a wall or marker whose meaning
//! is left to the renderers.  The loader takes the lines of a text
//! source verbatim and rejects input whose rows differ in length; it
//! does no trimming and no symbol validation.

use vstd::prelude::*;
use vstd::string::StrSliceExecFns;

verus! {

/// Why a maze could not be produced.
#[derive(Clone, Copy, PartialEq, Eq, Structural, Debug)]
pub enum MazeError {
    /// A row's length differs from the first row's length.
    FormatError,
    /// The text source could not be read at all.
    IOError,
}

/// The cell symbol that means open floor.
pub const OPEN_CELL: char = ' ';

/// A rectangular grid of cell symbols.
pub struct MazeGrid {
    pub cells: Vec<Vec<char>>,
}

impl MazeGrid {
    /// The grid as a sequence of rows of symbols.
    pub open spec fn grid(self) -> Seq<Seq<char>> {
        self.cells@.map_values(|row: Vec<char>| row@)
    }

    /// Every row has the first row's length.
    pub open spec fn wf(self) -> bool {
        forall|i: int|
            0 <= i < self.grid().len() ==> (#[trigger] self.grid()[i]).len()
                == self.grid()[0].len()
    }

    /// Number of rows.
    pub open spec fn spec_rows(self) -> int {
        self.grid().len() as int
    }

    /// Number of columns (zero for an empty grid).
    pub open spec fn spec_cols(self) -> int {
        if self.grid().len() == 0 {
            0
        } else {
            self.grid()[0].len() as int
        }
    }

    pub fn row_count(&self) -> (n: usize)
        ensures
            n == self.spec_rows(),
    {
        self.cells.len()
    }

    pub fn col_count(&self) -> (n: usize)
        ensures
            n == self.spec_cols(),
    {
        if self.cells.len() == 0 {
            0
        } else {
            self.cells[0].len()
        }
    }

    /// The symbol of cell `(row, col)`.
    pub fn at(&self, row: usize, col: usize) -> (c: char)
        requires
            self.wf(),
            row < self.spec_rows(),
            col < self.spec_cols(),
        ensures
            c == self.grid()[row as int][col as int],
    {
        proof {
            assert(self.grid()[row as int] == self.cells@[row as int]@);
            assert(self.grid()[row as int].len() == self.grid()[0].len());
        }
        self.cells[row][col]
    }
}

/// Build a maze from the lines of a text source, taken verbatim.
/// Succeeds exactly when every line has the first line's length;
/// otherwise nothing is produced and the format is reported bad.
pub fn load_maze(lines: &Vec<String>) -> (r: Result<MazeGrid, MazeError>)
    ensures
        match r {
            Ok(g) => {
                &&& g.wf()
                &&& g.grid().len() == lines@.len()
                &&& forall|i: int| 0 <= i < lines@.len() ==> g.grid()[i] == lines@[i]@
                &&& forall|i: int|
                    0 <= i < lines@.len() ==> (#[trigger] lines@[i]@).len() == lines@[0]@.len()
            },
            Err(e) => {
                &&& e == MazeError::FormatError
                &&& exists|i: int|
                    0 <= i < lines@.len() && (#[trigger] lines@[i]@).len() != lines@[0]@.len()
            },
        },
{
    let mut cells: Vec<Vec<char>> = Vec::new();
    let n = lines.len();
    if n == 0 {
        return Ok(MazeGrid { cells });
    }
    let first_len = lines[0].as_str().unicode_len();
    let mut li: usize = 0;
    while li < n
        invariant
            li <= n,
            n == lines@.len(),
            n > 0,
            first_len == lines@[0]@.len(),
            cells@.len() == li,
            forall|i: int| 0 <= i < li ==> (#[trigger] cells@[i])@ == lines@[i]@,
            forall|i: int| 0 <= i < li ==> (#[trigger] lines@[i]@).len() == lines@[0]@.len(),
        decreases n - li,
    {
        let line = &lines[li];
        let m = line.as_str().unicode_len();
        if m != first_len {
            return Err(MazeError::FormatError);
        }
        let mut row: Vec<char> = Vec::new();
        let mut ci: usize = 0;
        while ci < m
            invariant
                ci <= m,
                m == line@.len(),
                row@.len() == ci,
                forall|j: int| 0 <= j < ci ==> row@[j] == line@[j],
            decreases m - ci,
        {
            let c = line.as_str().get_char(ci);
            row.push(c);
            ci = ci + 1;
        }
        proof {
            assert(row@ =~= line@);
        }
        cells.push(row);
        li = li + 1;
    }
    let g = MazeGrid { cells };
    proof {
        assert forall|i: int| 0 <= i < lines@.len() implies g.grid()[i] == lines@[i]@ by {
            assert(g.grid()[i] == g.cells@[i]@);
        }
    }
    Ok(g)
}

} // verus!
