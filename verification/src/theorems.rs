//! What holds of every arrangement.

use vstd::prelude::*;
use vstd::arithmetic::div_mod::{
    lemma_basic_div,
    lemma_div_is_ordered,
    lemma_div_multiples_vanish,
    lemma_fundamental_div_mod,
    lemma_mod_multiples_basic,
    lemma_mod_pos_bound,
    lemma_small_mod,
};
use crate::arithmetic::lemma_div_rounded_up;
use crate::geometry::{LayoutView, PlacementView, Size};
use crate::model::{
    arrangement,
    column_widths,
    lemma_tallest_attained,
    lemma_tallest_bounds,
    lemma_widest_attained,
    lemma_widest_bounds,
    row_count,
    row_heights,
    sum_of_first,
    tallest_in_row,
    total,
    touched_columns,
};
use crate::strategy::{Constraint, Strategy};

verus! {

/// Whether `width` is the greatest width among the children that stand in
/// `column`: none of them is wider, and one of them is as wide.
pub open spec fn is_widest_in_column(sizes: Seq<Size>, columns: nat, column: int, width: nat) -> bool {
    &&& forall|i: int|
        0 <= i < sizes.len() && i % (columns as int) == column ==> (#[trigger] sizes[i]).width
            <= width
    &&& exists|i: int|
        0 <= i < sizes.len() && i % (columns as int) == column && (#[trigger] sizes[i]).width
            == width
}

/// Whether `height` is the greatest height among the children that stand in
/// `row`: none of them is taller, and one of them is as tall.
pub open spec fn is_tallest_in_row(sizes: Seq<Size>, columns: nat, row: int, height: nat) -> bool {
    &&& forall|i: int|
        0 <= i < sizes.len() && i / (columns as int) == row ==> (#[trigger] sizes[i]).height
            <= height
    &&& exists|i: int|
        0 <= i < sizes.len() && i / (columns as int) == row && (#[trigger] sizes[i]).height
            == height
}

/// The number of rows is the number of children divided by the number of
/// columns, rounded up: the rows hold all the children, and without the last
/// row they would not.
pub proof fn lemma_row_count(count: nat, columns: nat)
    requires
        columns > 0,
    ensures
        count <= row_count(count, columns) * columns,
        count > 0 ==> (row_count(count, columns) - 1) * columns < count,
        count == 0 ==> row_count(count, columns) == 0,
{
    let d = columns as int;
    if count == 0 {
        lemma_basic_div(d - 1, d);
    } else {
        let q = (count - 1) / d;
        lemma_div_rounded_up(count as int, d);
        lemma_fundamental_div_mod(count - 1, d);
        lemma_mod_pos_bound(count - 1, d);
        lemma_div_is_ordered(0, count - 1, d);
        assert(row_count(count, columns) == q + 1);
        assert((q + 1) * d == d * q + d) by (nonlinear_arith);
        assert(q * d == d * q) by (nonlinear_arith);
    }
}

/// Child `i` stands in row `i / columns` and in column `i % columns`: the
/// row is one of the rows, the column one of the columns that a child
/// reaches, and the two together give `i` back.
pub proof fn lemma_row_and_column(count: nat, columns: nat, i: int)
    requires
        columns > 0,
        0 <= i < count,
    ensures
        0 <= i / (columns as int) < row_count(count, columns),
        0 <= i % (columns as int) < touched_columns(count, columns),
        i == (i / (columns as int)) * columns + i % (columns as int),
{
    let d = columns as int;
    lemma_div_rounded_up(count as int, d);
    lemma_div_is_ordered(0, i, d);
    lemma_div_is_ordered(i, count - 1, d);
    lemma_mod_pos_bound(i, d);
    lemma_fundamental_div_mod(i, d);
    assert((i / d) * d == d * (i / d)) by (nonlinear_arith);
    if count < columns {
        lemma_small_mod(i as nat, columns);
    }
}

/// No row is without a child: row `row` begins with child `row * columns`.
pub proof fn lemma_row_begins(count: nat, columns: nat, row: int)
    requires
        columns > 0,
        0 <= row < row_count(count, columns),
    ensures
        0 <= row * columns < count,
        (row * columns) / (columns as int) == row,
        (row * columns) % (columns as int) == 0,
{
    let d = columns as int;
    lemma_row_count(count, columns);
    assert(row * d <= (row_count(count, columns) - 1) * d) by (nonlinear_arith)
        requires
            row <= row_count(count, columns) - 1,
            d > 0,
    ;
    assert(0 <= row * d) by (nonlinear_arith)
        requires
            0 <= row,
            0 < d,
    ;
    assert(row * d == d * row) by (nonlinear_arith);
    lemma_div_multiples_vanish(row, d);
    lemma_mod_multiples_basic(row, d);
}

/// With a fixed number of columns, every child of a grid is laid out: it
/// keeps its size, and it stands where its column `i % columns` and its row
/// `i / columns` begin.
pub proof fn lemma_child_place(columns: usize, sizes: Seq<Size>, available_width: nat, i: int)
    requires
        columns > 0,
        0 <= i < sizes.len(),
    ensures
        ({
            let layout = arrangement(Strategy::Columns(columns), sizes, available_width);
            let widths = column_widths(sizes, columns as nat);
            let heights = row_heights(sizes, columns as nat);
            &&& layout.children.len() == sizes.len()
            &&& layout.children[i] == (PlacementView {
                x: sum_of_first(widths, (i % (columns as int)) as nat),
                y: sum_of_first(heights, (i / (columns as int)) as nat),
                width: sizes[i].width as nat,
                height: sizes[i].height as nat,
            })
        }),
{
}

/// Offsets are running sums: the first is zero, and each next one adds the
/// entry that it passes.
pub proof fn lemma_offsets(table: Seq<nat>, count: nat)
    ensures
        sum_of_first(table, 0) == 0,
        sum_of_first(table, count + 1) == sum_of_first(table, count) + table[count as int],
{
    assert(sum_of_first(table, count + 1) == sum_of_first(table, ((count + 1) - 1) as nat)
        + table[(count + 1) - 1]);
}

/// The table of column widths has one entry for each column that a child
/// stands in, and the entry is the greatest width among the children of
/// that column.
pub proof fn lemma_column_widths(sizes: Seq<Size>, columns: nat)
    requires
        columns > 0,
    ensures
        column_widths(sizes, columns).len() == touched_columns(sizes.len(), columns),
        forall|column: int|
            0 <= column < column_widths(sizes, columns).len() ==> is_widest_in_column(
                sizes,
                columns,
                column,
                #[trigger] column_widths(sizes, columns)[column],
            ),
{
    let table = column_widths(sizes, columns);
    assert forall|column: int| 0 <= column < table.len() implies is_widest_in_column(
        sizes,
        columns,
        column,
        #[trigger] table[column],
    ) by {
        assert forall|i: int|
            0 <= i < sizes.len() && i % (columns as int) == column implies (#[trigger] sizes[i]).width
            <= table[column] by {
            lemma_widest_bounds(sizes, columns, column as nat, sizes.len(), i);
        }
        let i = lemma_widest_attained(sizes, columns, column as nat, sizes.len());
        assert(0 <= i < sizes.len() && i % (columns as int) == column && sizes[i].width
            == table[column]);
    }
}

/// The table of row heights has one entry for each row, and the entry is the
/// greatest height among the children of that row.
pub proof fn lemma_row_heights(sizes: Seq<Size>, columns: nat)
    requires
        columns > 0,
    ensures
        row_heights(sizes, columns).len() == row_count(sizes.len(), columns),
        forall|row: int|
            0 <= row < row_heights(sizes, columns).len() ==> is_tallest_in_row(
                sizes,
                columns,
                row,
                #[trigger] row_heights(sizes, columns)[row],
            ),
{
    let table = row_heights(sizes, columns);
    assert forall|row: int| 0 <= row < table.len() implies is_tallest_in_row(
        sizes,
        columns,
        row,
        #[trigger] table[row],
    ) by {
        assert forall|i: int|
            0 <= i < sizes.len() && i / (columns as int) == row implies (#[trigger] sizes[i]).height
            <= table[row] by {
            lemma_tallest_bounds(sizes, columns, row as nat, sizes.len(), i);
        }
        lemma_row_begins(sizes.len(), columns, row);
        let i = lemma_tallest_attained(sizes, columns, row as nat, sizes.len());
        assert(0 <= i < sizes.len() && i / (columns as int) == row && sizes[i].height
            == table[row]);
    }
}

/// With a fixed number of columns, a grid is as wide as the columns that a
/// child stands in are together, each column being as wide as its widest
/// child.
pub proof fn lemma_grid_width(columns: usize, sizes: Seq<Size>, available_width: nat)
    requires
        columns > 0,
    ensures
        ({
            let layout = arrangement(Strategy::Columns(columns), sizes, available_width);
            let widths = column_widths(sizes, columns as nat);
            &&& layout.width == total(widths)
            &&& widths.len() == touched_columns(sizes.len(), columns as nat)
            &&& forall|column: int|
                0 <= column < widths.len() ==> is_widest_in_column(
                    sizes,
                    columns as nat,
                    column,
                    #[trigger] widths[column],
                )
        }),
{
    lemma_column_widths(sizes, columns as nat);
}

/// Under either strategy, a grid is as high as its rows are together, each
/// row being as high as its tallest child.
pub proof fn lemma_grid_height(strategy: Strategy, sizes: Seq<Size>, available_width: nat)
    requires
        strategy.column_count_spec(available_width) > 0,
    ensures
        ({
            let columns = strategy.column_count_spec(available_width);
            let layout = arrangement(strategy, sizes, available_width);
            let heights = row_heights(sizes, columns);
            &&& layout.height == total(heights)
            &&& heights.len() == row_count(sizes.len(), columns)
            &&& forall|row: int|
                0 <= row < heights.len() ==> is_tallest_in_row(
                    sizes,
                    columns,
                    row,
                    #[trigger] heights[row],
                )
        }),
{
    let columns = strategy.column_count_spec(available_width);
    lemma_row_heights(sizes, columns);
    if sizes.len() == 0 {
        lemma_row_count(0, columns);
    }
}

/// Without columns nothing is laid out, however many children there are.
pub proof fn lemma_no_columns(sizes: Seq<Size>, available_width: nat)
    ensures
        arrangement(Strategy::Columns(0), sizes, available_width) == LayoutView::empty(),
{
}

/// Without children nothing is laid out, whatever the strategy.
pub proof fn lemma_no_children(strategy: Strategy, available_width: nat)
    ensures
        arrangement(strategy, Seq::empty(), available_width) == LayoutView::empty(),
{
}

/// With a fixed column width every child is measured at that width. Where
/// at least one column fits, every child is laid out: it keeps the size it
/// measured and stands at a multiple of the column width, `i % columns`
/// times the width, whatever any child measured; and the grid is as wide as
/// the columns that fit.
pub proof fn lemma_fixed_width_place(
    column_width: u16,
    sizes: Seq<Size>,
    available_width: nat,
    i: int,
)
    requires
        Strategy::ColumnWidth(column_width).column_count_spec(available_width) > 0,
        0 <= i < sizes.len(),
    ensures
        Strategy::ColumnWidth(column_width).constraint_spec() == Constraint::FixedWidth(
            column_width,
        ),
        ({
            let strategy = Strategy::ColumnWidth(column_width);
            let columns = strategy.column_count_spec(available_width);
            let layout = arrangement(strategy, sizes, available_width);
            let heights = row_heights(sizes, columns);
            &&& layout.width == columns * column_width
            &&& layout.children.len() == sizes.len()
            &&& layout.children[i] == (PlacementView {
                x: ((i % (columns as int)) * column_width) as nat,
                y: sum_of_first(heights, (i / (columns as int)) as nat),
                width: sizes[i].width as nat,
                height: sizes[i].height as nat,
            })
        }),
{
}

/// A column width above zero fits as often as the available width divided
/// by it, rounded down, says: so many columns fit, and one more would not.
/// Where the available width is below the column width, none fits, and
/// nothing is laid out.
pub proof fn lemma_columns_that_fit(column_width: u16, sizes: Seq<Size>, available_width: nat)
    requires
        column_width > 0,
    ensures
        ({
            let columns = Strategy::ColumnWidth(column_width).column_count_spec(available_width);
            &&& columns == available_width / (column_width as nat)
            &&& columns * column_width <= available_width < (columns + 1) * column_width
        }),
        available_width < column_width ==> {
            &&& Strategy::ColumnWidth(column_width).column_count_spec(available_width) == 0
            &&& arrangement(Strategy::ColumnWidth(column_width), sizes, available_width)
                == LayoutView::empty()
        },
{
    let d = column_width as int;
    let q = available_width as int / d;
    lemma_fundamental_div_mod(available_width as int, d);
    lemma_mod_pos_bound(available_width as int, d);
    assert(q * d == d * q) by (nonlinear_arith);
    assert((q + 1) * d == d * q + d) by (nonlinear_arith);
    if available_width < column_width {
        lemma_basic_div(available_width as int, d);
    }
}

/// Columns without width, where there is width to fill, take all the
/// children into one row: every child stands at the origin, and the grid has
/// no width and the height of its tallest child.
pub proof fn lemma_zero_column_width(sizes: Seq<Size>, available_width: nat)
    requires
        available_width > 0,
        0 < sizes.len() <= usize::MAX,
    ensures
        ({
            let layout = arrangement(Strategy::ColumnWidth(0), sizes, available_width);
            &&& layout.width == 0
            &&& layout.height == tallest_in_row(sizes, usize::MAX as nat, 0, sizes.len())
            &&& layout.children.len() == sizes.len()
            &&& forall|i: int|
                0 <= i < sizes.len() ==> #[trigger] layout.children[i] == (PlacementView {
                    x: 0,
                    y: 0,
                    width: sizes[i].width as nat,
                    height: sizes[i].height as nat,
                })
        }),
{
    let columns = usize::MAX as nat;
    let layout = arrangement(Strategy::ColumnWidth(0), sizes, available_width);
    let heights = row_heights(sizes, columns);
    lemma_div_rounded_up(sizes.len() as int, columns as int);
    lemma_basic_div(sizes.len() - 1, columns as int);
    assert(heights.len() == 1);
    assert(sum_of_first(heights, 1) == sum_of_first(heights, 0) + heights[0]);
    assert forall|i: int| 0 <= i < sizes.len() implies #[trigger] layout.children[i] == (
    PlacementView {
        x: 0,
        y: 0,
        width: sizes[i].width as nat,
        height: sizes[i].height as nat,
    }) by {
        lemma_basic_div(i, columns as int);
    }
}

} // verus!
