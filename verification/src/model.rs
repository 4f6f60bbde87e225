//! The arrangement of a grid, stated over sequences and natural numbers.
//!
//! Children stand in the order in which they were added and fill the grid
//! row by row: with `columns` columns, child `i` stands in row `i / columns`
//! and in column `i % columns`.

use vstd::prelude::*;
use vstd::arithmetic::div_mod::{lemma_div_multiples_vanish, lemma_small_mod};
use crate::arithmetic::{lemma_div_before_multiple, lemma_div_from_multiple};
use crate::geometry::{LayoutView, PlacementView, Size};
use crate::strategy::Strategy;

verus! {

/// The larger of two natural numbers.
pub open spec fn larger(a: nat, b: nat) -> nat {
    if a >= b {
        a
    } else {
        b
    }
}

/// The greatest width among those of the first `count` children that stand
/// in `column`; zero where none of them does.
pub open spec fn widest_in_column(sizes: Seq<Size>, columns: nat, column: nat, count: nat) -> nat
    decreases count,
{
    if count == 0 {
        0
    } else {
        let before = widest_in_column(sizes, columns, column, (count - 1) as nat);
        if (count - 1) % (columns as int) == column {
            larger(before, sizes[count - 1].width as nat)
        } else {
            before
        }
    }
}

/// The greatest height among those of the first `count` children that stand
/// in `row`; zero where none of them does.
pub open spec fn tallest_in_row(sizes: Seq<Size>, columns: nat, row: nat, count: nat) -> nat
    decreases count,
{
    if count == 0 {
        0
    } else {
        let before = tallest_in_row(sizes, columns, row, (count - 1) as nat);
        if (count - 1) / (columns as int) == row {
            larger(before, sizes[count - 1].height as nat)
        } else {
            before
        }
    }
}

/// The number of columns that `count` children reach: a column that no child
/// stands in is none.
pub open spec fn touched_columns(count: nat, columns: nat) -> nat {
    if count < columns {
        count
    } else {
        columns
    }
}

/// The number of rows that `count` children fill, the last one perhaps in
/// part.
pub open spec fn row_count(count: nat, columns: nat) -> nat {
    ((count + columns - 1) / (columns as int)) as nat
}

/// The width of each column that a child stands in: that of its widest child.
pub open spec fn column_widths(sizes: Seq<Size>, columns: nat) -> Seq<nat> {
    Seq::new(
        touched_columns(sizes.len(), columns),
        |column: int| widest_in_column(sizes, columns, column as nat, sizes.len()),
    )
}

/// The height of each row: that of its tallest child.
pub open spec fn row_heights(sizes: Seq<Size>, columns: nat) -> Seq<nat> {
    Seq::new(
        row_count(sizes.len(), columns),
        |row: int| tallest_in_row(sizes, columns, row as nat, sizes.len()),
    )
}

/// The sum of the first `count` entries of a table.
pub open spec fn sum_of_first(table: Seq<nat>, count: nat) -> nat
    decreases count,
{
    if count == 0 {
        0
    } else {
        sum_of_first(table, (count - 1) as nat) + table[count - 1]
    }
}

/// The sum of all entries of a table.
pub open spec fn total(table: Seq<nat>) -> nat {
    sum_of_first(table, table.len())
}

/// A grid of `columns` columns, each as wide as its widest child: a column
/// begins where the columns before it end, a row where the rows before it
/// end, and every child keeps its own size.
pub open spec fn measured_grid(sizes: Seq<Size>, columns: nat) -> LayoutView {
    let widths = column_widths(sizes, columns);
    let heights = row_heights(sizes, columns);
    LayoutView {
        width: total(widths),
        height: total(heights),
        children: Seq::new(
            sizes.len(),
            |i: int|
                PlacementView {
                    x: sum_of_first(widths, (i % (columns as int)) as nat),
                    y: sum_of_first(heights, (i / (columns as int)) as nat),
                    width: sizes[i].width as nat,
                    height: sizes[i].height as nat,
                },
        ),
    }
}

/// A grid of `columns` columns that are all `column_width` wide, whatever
/// their children measure; rows are as in [`measured_grid`].
pub open spec fn uniform_grid(sizes: Seq<Size>, columns: nat, column_width: nat) -> LayoutView {
    let heights = row_heights(sizes, columns);
    LayoutView {
        width: columns * column_width,
        height: total(heights),
        children: Seq::new(
            sizes.len(),
            |i: int|
                PlacementView {
                    x: ((i % (columns as int)) * column_width) as nat,
                    y: sum_of_first(heights, (i / (columns as int)) as nat),
                    width: sizes[i].width as nat,
                    height: sizes[i].height as nat,
                },
        ),
    }
}

/// The layout of children of the given sizes under a strategy, with
/// `available_width` to fill. Without children, and without columns, it is
/// the empty layout.
pub open spec fn arrangement(strategy: Strategy, sizes: Seq<Size>, available_width: nat) -> LayoutView {
    let columns = strategy.column_count_spec(available_width);
    if sizes.len() == 0 || columns == 0 {
        LayoutView::empty()
    } else {
        match strategy {
            Strategy::Columns(_) => measured_grid(sizes, columns),
            Strategy::ColumnWidth(column_width) => uniform_grid(sizes, columns, column_width as nat),
        }
    }
}

/// Among fewer children than it takes to reach a column, that column has no
/// width.
pub proof fn lemma_column_unreached(sizes: Seq<Size>, columns: nat, column: nat, count: nat)
    requires
        count <= column < columns,
    ensures
        widest_in_column(sizes, columns, column, count) == 0,
    decreases count,
{
    if count > 0 {
        lemma_column_unreached(sizes, columns, column, (count - 1) as nat);
        lemma_small_mod((count - 1) as nat, columns);
    }
}

/// Among the children that stand before a row, that row has no height.
pub proof fn lemma_row_unreached(sizes: Seq<Size>, columns: nat, row: nat, count: nat)
    requires
        columns > 0,
        count <= row * columns,
    ensures
        tallest_in_row(sizes, columns, row, count) == 0,
    decreases count,
{
    if count > 0 {
        lemma_row_unreached(sizes, columns, row, (count - 1) as nat);
        lemma_div_before_multiple(count - 1, row as int, columns as int);
    }
}

/// The children that stand behind a row add nothing to its height.
pub proof fn lemma_row_complete(sizes: Seq<Size>, columns: nat, row: nat, from: nat, to: nat)
    requires
        columns > 0,
        (row + 1) * columns <= from <= to,
    ensures
        tallest_in_row(sizes, columns, row, to) == tallest_in_row(sizes, columns, row, from),
    decreases to,
{
    if from < to {
        lemma_row_complete(sizes, columns, row, from, (to - 1) as nat);
        lemma_div_from_multiple(to - 1, (row + 1) as int, columns as int);
    }
}

/// No child of a column is wider than the column.
pub proof fn lemma_widest_bounds(sizes: Seq<Size>, columns: nat, column: nat, count: nat, i: int)
    requires
        0 <= i < count,
        i % (columns as int) == column,
    ensures
        sizes[i].width <= widest_in_column(sizes, columns, column, count),
    decreases count,
{
    if i < count - 1 {
        lemma_widest_bounds(sizes, columns, column, (count - 1) as nat, i);
    }
}

/// A column that a child stands in is exactly as wide as one of its
/// children: the child that the lemma returns.
pub proof fn lemma_widest_attained(sizes: Seq<Size>, columns: nat, column: nat, count: nat) -> (i:
    int)
    requires
        column < columns,
        column < count,
    ensures
        0 <= i < count,
        i % (columns as int) == column,
        sizes[i].width == widest_in_column(sizes, columns, column, count),
    decreases count,
{
    let before = widest_in_column(sizes, columns, column, (count - 1) as nat);
    if (count - 1) % (columns as int) == column && sizes[count - 1].width >= before {
        count - 1
    } else {
        if column == count - 1 {
            lemma_small_mod(column, columns);
            lemma_column_unreached(sizes, columns, column, column);
        }
        lemma_widest_attained(sizes, columns, column, (count - 1) as nat)
    }
}

/// No child of a row is taller than the row.
pub proof fn lemma_tallest_bounds(sizes: Seq<Size>, columns: nat, row: nat, count: nat, i: int)
    requires
        0 <= i < count,
        i / (columns as int) == row,
    ensures
        sizes[i].height <= tallest_in_row(sizes, columns, row, count),
    decreases count,
{
    if i < count - 1 {
        lemma_tallest_bounds(sizes, columns, row, (count - 1) as nat, i);
    }
}

/// A row that a child stands in is exactly as tall as one of its children:
/// the child that the lemma returns.
pub proof fn lemma_tallest_attained(sizes: Seq<Size>, columns: nat, row: nat, count: nat) -> (i:
    int)
    requires
        columns > 0,
        row * columns < count,
    ensures
        0 <= i < count,
        i / (columns as int) == row,
        sizes[i].height == tallest_in_row(sizes, columns, row, count),
    decreases count,
{
    let before = tallest_in_row(sizes, columns, row, (count - 1) as nat);
    if (count - 1) / (columns as int) == row && sizes[count - 1].height >= before {
        count - 1
    } else {
        if row * columns == count - 1 {
            assert(row * columns == columns * row) by (nonlinear_arith);
            lemma_div_multiples_vanish(row as int, columns as int);
            lemma_row_unreached(sizes, columns, row, (count - 1) as nat);
        }
        lemma_tallest_attained(sizes, columns, row, (count - 1) as nat)
    }
}

} // verus!
