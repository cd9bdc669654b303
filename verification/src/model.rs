//! Terminal sizes and tmux session names, valid by construction.
use vstd::prelude::*;
use crate::text;

verus! {

/// The largest number of columns or rows.
pub const MAX_CELLS: usize = 4096;

/// Why a size or a session name was refused.
#[derive(Clone, Copy, Debug, PartialEq, Eq, Structural)]
pub enum Error {
    Size,
    SessionName,
}

/// So many columns and rows make a size.
pub open spec fn sizable(columns: nat, rows: nat) -> bool {
    1 <= columns <= MAX_CELLS && 1 <= rows <= MAX_CELLS
}

/// A terminal size in cells; neither side is zero nor above `MAX_CELLS`.
#[derive(Clone, Copy, Debug, PartialEq, Eq, Structural)]
pub struct Size {
    columns: usize,
    rows: usize,
}

impl Size {
    #[verifier::type_invariant]
    pub closed spec fn in_range(self) -> bool {
        1 <= self.columns <= MAX_CELLS && 1 <= self.rows <= MAX_CELLS
    }

    /// Cells in a row.
    pub closed spec fn width(self) -> nat {
        self.columns as nat
    }

    /// Rows.
    pub closed spec fn height(self) -> nat {
        self.rows as nat
    }

    /// The size of so many columns and rows.
    pub closed spec fn of(columns: nat, rows: nat) -> Size {
        Size { columns: columns as usize, rows: rows as usize }
    }

    /// Refuses a side that is zero or too long.
    pub fn new(columns: usize, rows: usize) -> (r: Result<Self, Error>)
        ensures
            match r {
                Ok(size) => sizable(columns as nat, rows as nat) && size.width() == columns
                    && size.height() == rows && size == Size::of(columns as nat, rows as nat),
                Err(error) => error == Error::Size && !sizable(columns as nat, rows as nat),
            },
    {
        if columns == 0 || columns > MAX_CELLS || rows == 0 || rows > MAX_CELLS {
            return Err(Error::Size);
        }
        Ok(Size { columns, rows })
    }

    /// Cells in a row.
    pub fn columns(self) -> (r: usize)
        ensures
            r == self.width(),
            1 <= r <= MAX_CELLS,
    {
        proof {
            use_type_invariant(self);
        }
        self.columns
    }

    /// Rows.
    pub fn rows(self) -> (r: usize)
        ensures
            r == self.height(),
            1 <= r <= MAX_CELLS,
    {
        proof {
            use_type_invariant(self);
        }
        self.rows
    }

    /// A cursor position held inside the grid. A column equal to the width is
    /// kept: it is the position after the last cell, with a wrap pending.
    pub fn clamp_cursor(self, x: usize, y: usize) -> (r: (usize, usize))
        ensures
            r.0 == clamp_column(x as nat, self.width()),
            r.1 == clamp_row(y as nat, self.height()),
    {
        let columns: usize = self.columns();
        let rows: usize = self.rows();
        let column: usize = if x <= columns {
            x
        } else {
            columns
        };
        let row: usize = if y < rows {
            y
        } else {
            rows - 1
        };
        (column, row)
    }

    /// A size has the columns and rows that it was made of, and nothing else
    /// tells two sizes apart.
    pub proof fn a_size_is_its_cells(columns: nat, rows: nat, other: Size)
        requires
            sizable(columns, rows),
        ensures
            Size::of(columns, rows).width() == columns,
            Size::of(columns, rows).height() == rows,
            other.width() == columns && other.height() == rows ==> other == Size::of(columns, rows),
    {
    }
}

/// A cursor column held within a row, or just behind its last cell.
pub open spec fn clamp_column(x: nat, width: nat) -> nat {
    if x <= width {
        x
    } else {
        width
    }
}

/// A cursor row held within the grid.
pub open spec fn clamp_row(y: nat, height: nat) -> int {
    if y < height {
        y as int
    } else {
        height - 1
    }
}

impl Default for Size {
    fn default() -> (r: Self)
        ensures
            r.width() == 80,
            r.height() == 24,
    {
        Size { columns: 80, rows: 24 }
    }
}

/// A text that can name a tmux session: not empty, and free of control characters.
pub open spec fn nameable(name: Seq<char>) -> bool {
    name.len() > 0 && !text::has_control(name)
}

/// The name of a tmux session.
#[derive(Debug)]
pub struct SessionName {
    name: String,
}

impl View for SessionName {
    type V = Seq<char>;

    closed spec fn view(&self) -> Seq<char> {
        self.name@
    }
}

impl Clone for SessionName {
    fn clone(&self) -> (r: Self)
        ensures
            r@ == self@,
    {
        proof {
            use_type_invariant(self);
        }
        SessionName { name: self.name.clone() }
    }
}

impl SessionName {
    #[verifier::type_invariant]
    pub closed spec fn valid(self) -> bool {
        nameable(self.name@)
    }

    pub fn new(name: &str) -> (r: Result<Self, Error>)
        ensures
            match r {
                Ok(session) => nameable(name@) && session@ == name@,
                Err(error) => error == Error::SessionName && !nameable(name@),
            },
    {
        let v = text::chars_of(name);
        if v.len() == 0 || text::any_control(v.as_slice()) {
            return Err(Error::SessionName);
        }
        Ok(SessionName { name: name.to_owned() })
    }

    pub fn as_str(&self) -> (r: &str)
        ensures
            r@ == self@,
            nameable(r@),
    {
        proof {
            use_type_invariant(self);
        }
        self.name.as_str()
    }
}

/// A size has from one to 4096 columns and rows.
pub proof fn which_sizes_there_are(columns: nat, rows: nat)
    ensures
        sizable(columns, rows) <==> columns >= 1 && columns <= 4096 && rows >= 1 && rows <= 4096,
{
}

/// A cursor inside the grid stays where it is, the position behind the last cell of a
/// row included; one outside is held at the nearest position.
pub proof fn a_cursor_is_held_at_the_nearest_position(x: nat, y: nat, width: nat, height: nat)
    requires
        height > 0,
    ensures
        x <= width ==> clamp_column(x, width) == x,
        x > width ==> clamp_column(x, width) == width,
        y < height ==> clamp_row(y, height) == y,
        y >= height ==> clamp_row(y, height) == height - 1,
{
}

/// Every text can name a session that is not empty and holds no control character.
pub proof fn which_names_there_are(name: Seq<char>, i: int)
    ensures
        name.len() == 0 ==> !nameable(name),
        0 <= i < name.len() && ((name[i] as u32) < 32 || (127 <= (name[i] as u32) && (
        name[i] as u32) < 160)) ==> !nameable(name),
        name.len() > 0 && (forall|j: int|
            0 <= j < name.len() ==> (#[trigger] name[j] as u32) >= 32 && !(127 <= (name[j] as u32)
                && (name[j] as u32) < 160)) ==> nameable(name),
{
    if 0 <= i < name.len() && text::control(name[i]) {
        assert(text::has_control(name));
    }
}

} // verus!
