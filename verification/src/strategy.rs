//! How a grid distributes its children over columns.

use vstd::prelude::*;

verus! {

/// The rule by which a grid forms its columns.
#[derive(Clone, Copy, Debug, PartialEq, Eq, Structural)]
pub enum Strategy {
    /// A fixed number of columns, each as wide as its widest child.
    Columns(usize),
    /// As many columns of a fixed width as the available width holds.
    ColumnWidth(u16),
}

/// What a child is held to while it is measured.
#[derive(Clone, Copy, Debug, PartialEq, Eq, Structural)]
pub enum Constraint {
    /// The limits of the grid itself, passed on as they are.
    Unchanged,
    /// The limits of the grid with the width fixed to this value.
    FixedWidth(u16),
}

impl Default for Strategy {
    fn default() -> (strategy: Self)
        ensures
            strategy == Strategy::Columns(1),
    {
        Strategy::Columns(1)
    }
}

/// How many columns of width `column_width` an available width holds.
///
/// A column without width fits as often as a machine can count, unless
/// there is no width at all to fit it into.
pub open spec fn columns_that_fit(available_width: nat, column_width: nat) -> nat {
    if column_width > 0 {
        available_width / column_width
    } else if available_width > 0 {
        usize::MAX as nat
    } else {
        0
    }
}

impl Strategy {
    /// The constraint under which the children of a grid are measured.
    pub open spec fn constraint_spec(self) -> Constraint {
        match self {
            Strategy::Columns(_) => Constraint::Unchanged,
            Strategy::ColumnWidth(column_width) => Constraint::FixedWidth(column_width),
        }
    }

    /// The number of columns of a grid that has `available_width` to fill.
    pub open spec fn column_count_spec(self, available_width: nat) -> nat {
        match self {
            Strategy::Columns(columns) => columns as nat,
            Strategy::ColumnWidth(column_width) => columns_that_fit(
                available_width,
                column_width as nat,
            ),
        }
    }

    /// The constraint under which the children of a grid are measured.
    pub fn constraint(&self) -> (constraint: Constraint)
        ensures
            constraint == self.constraint_spec(),
    {
        match self {
            Strategy::Columns(_) => Constraint::Unchanged,
            Strategy::ColumnWidth(column_width) => Constraint::FixedWidth(*column_width),
        }
    }

    /// The number of columns of a grid that has `available_width` to fill.
    pub fn column_count(&self, available_width: u32) -> (columns: usize)
        ensures
            columns == self.column_count_spec(available_width as nat),
    {
        match self {
            Strategy::Columns(columns) => *columns,
            Strategy::ColumnWidth(column_width) => {
                if *column_width > 0 {
                    (available_width / (*column_width as u32)) as usize
                } else if available_width > 0 {
                    usize::MAX
                } else {
                    0
                }
            },
        }
    }
}

} // verus!
