//! Laying out the children of a grid from their measured sizes.

use vstd::prelude::*;
use vstd::arithmetic::div_mod::{lemma_basic_div, lemma_div_is_ordered, lemma_small_mod};
use crate::arithmetic::{
    lemma_div_at_multiple,
    lemma_div_between_multiples,
    lemma_div_rounded_up,
    lemma_multiple,
};
use crate::geometry::{Layout, Placement, PlacementView, Size};
use crate::model::{
    arrangement,
    column_widths,
    lemma_column_unreached,
    lemma_row_complete,
    lemma_row_unreached,
    measured_grid,
    row_heights,
    sum_of_first,
    tallest_in_row,
    total,
    touched_columns,
    uniform_grid,
    widest_in_column,
};
use crate::strategy::Strategy;

verus! {

/// Where the columns of a grid begin.
enum Aligns {
    /// The offset of each column, one entry after the other.
    Table(Vec<u128>),
    /// Columns of this one width, side by side.
    Uniform(u16),
}

impl Aligns {
    /// Whether the offsets of the first `columns` columns are known.
    spec fn reaches(&self, columns: nat) -> bool {
        match *self {
            Aligns::Table(offsets) => columns <= offsets@.len(),
            Aligns::Uniform(_) => true,
        }
    }

    /// The offset at which `column` begins.
    spec fn at(&self, column: int) -> nat {
        match *self {
            Aligns::Table(offsets) => offsets@[column] as nat,
            Aligns::Uniform(column_width) => (column * column_width) as nat,
        }
    }

    /// The offset at which `column` begins.
    fn offset(&self, column: usize) -> (x: u128)
        requires
            self.reaches((column + 1) as nat),
        ensures
            x == self.at(column as int),
    {
        match self {
            Aligns::Table(offsets) => offsets[column],
            Aligns::Uniform(column_width) => {
                assert(column * *column_width <= 0xFFFF_FFFF_FFFF_FFFF * 0xFFFF) by (nonlinear_arith)
                    requires
                        column <= 0xFFFF_FFFF_FFFF_FFFF,
                        *column_width <= 0xFFFF,
                ;
                (column as u128) * (*column_width as u128)
            },
        }
    }
}

/// Places the children row by row in a grid of `columns` columns that begin at
/// the given offsets. A row begins with every child whose column is the
/// first, below the tallest child of the row before, and the grid is as high
/// as all its rows together.
fn build_grid(columns: usize, aligns: &Aligns, sizes: &Vec<Size>, grid_width: u128) -> (layout:
    Layout)
    requires
        columns > 0,
        aligns.reaches(touched_columns(sizes@.len(), columns as nat)),
    ensures
        layout@.width == grid_width,
        layout@.height == total(row_heights(sizes@, columns as nat)),
        layout@.children.len() == sizes@.len(),
        forall|i: int|
            0 <= i < sizes@.len() ==> #[trigger] layout@.children[i] == (PlacementView {
                x: aligns.at(i % (columns as int)),
                y: sum_of_first(row_heights(sizes@, columns as nat), (i / (columns as int)) as nat),
                width: sizes@[i].width as nat,
                height: sizes@[i].height as nat,
            }),
{
    let count: usize = sizes.len();
    let ghost heights = row_heights(sizes@, columns as nat);
    let mut children: Vec<Placement> = Vec::new();
    let mut grid_height: u128 = 0;
    let mut row_height: u32 = 0;
    let mut i: usize = 0;
    while i < count
        invariant
            columns > 0,
            count == sizes@.len(),
            i <= count,
            heights == row_heights(sizes@, columns as nat),
            aligns.reaches(touched_columns(sizes@.len(), columns as nat)),
            children@.len() == i,
            forall|j: int|
                0 <= j < i ==> (#[trigger] children@[j])@ == (PlacementView {
                    x: aligns.at(j % (columns as int)),
                    y: sum_of_first(heights, (j / (columns as int)) as nat),
                    width: sizes@[j].width as nat,
                    height: sizes@[j].height as nat,
                }),
            i == 0 ==> grid_height == 0 && row_height == 0,
            i > 0 ==> grid_height == sum_of_first(heights, ((i - 1) / (columns as int)) as nat),
            i > 0 ==> row_height == tallest_in_row(
                sizes@,
                columns as nat,
                ((i - 1) / (columns as int)) as nat,
                i as nat,
            ),
            grid_height + row_height <= i * 0xFFFF_FFFF,
        decreases count - i,
    {
        let column: usize = i % columns;
        let ghost row = i as int / columns as int;
        proof {
            lemma_div_is_ordered(0, i as int, columns as int);
            lemma_div_is_ordered(i as int, count - 1, columns as int);
            lemma_div_rounded_up(count as int, columns as int);
            assert(0 <= row < heights.len());
        }
        if column == 0 {
            proof {
                lemma_multiple(i as int, columns as int);
                lemma_row_unreached(sizes@, columns as nat, row as nat, i as nat);
                if i > 0 {
                    lemma_div_at_multiple(i as int, columns as int);
                    lemma_row_complete(
                        sizes@,
                        columns as nat,
                        (row - 1) as nat,
                        i as nat,
                        count as nat,
                    );
                    assert(heights[row - 1] == tallest_in_row(
                        sizes@,
                        columns as nat,
                        (row - 1) as nat,
                        count as nat,
                    ));
                    assert(sum_of_first(heights, row as nat) == sum_of_first(
                        heights,
                        (row - 1) as nat,
                    ) + heights[row - 1]);
                }
            }
            grid_height = grid_height + row_height as u128;
            row_height = 0;
        } else {
            proof {
                lemma_div_between_multiples(i as int, columns as int);
            }
        }
        assert(grid_height == sum_of_first(heights, row as nat));
        assert(row_height == tallest_in_row(sizes@, columns as nat, row as nat, i as nat));
        proof {
            if count < columns {
                lemma_small_mod(i as nat, columns as nat);
            }
        }
        let size = sizes[i];
        let x: u128 = aligns.offset(column);
        children.push(Placement { x, y: grid_height, width: size.width, height: size.height });
        if size.height > row_height {
            row_height = size.height;
        }
        i += 1;
    }
    proof {
        if count == 0 {
            lemma_basic_div(columns - 1, columns as int);
        } else {
            let last = (count - 1) / (columns as int);
            lemma_div_is_ordered(0, count - 1, columns as int);
            lemma_div_rounded_up(count as int, columns as int);
            assert(heights.len() == last + 1);
            assert(heights[last] == row_height);
            assert(sum_of_first(heights, (last + 1) as nat) == sum_of_first(heights, last as nat)
                + heights[last]);
        }
    }
    grid_height = grid_height + row_height as u128;
    let layout = Layout { width: grid_width, height: grid_height, children };
    assert(layout@.children.len() == count);
    layout
}

/// Lays the children out in `columns` columns, each as wide as its widest
/// child.
fn arrange_measured(columns: usize, sizes: &Vec<Size>) -> (layout: Layout)
    requires
        columns > 0,
    ensures
        layout@ == measured_grid(sizes@, columns as nat),
{
    let count: usize = sizes.len();
    let ghost table = column_widths(sizes@, columns as nat);
    let mut widths: Vec<u32> = Vec::new();
    let mut i: usize = 0;
    while i < count
        invariant
            columns > 0,
            count == sizes@.len(),
            i <= count,
            widths@.len() == touched_columns(i as nat, columns as nat),
            forall|c: int|
                0 <= c < widths@.len() ==> #[trigger] widths@[c] == widest_in_column(
                    sizes@,
                    columns as nat,
                    c as nat,
                    i as nat,
                ),
        decreases count - i,
    {
        let column: usize = i % columns;
        let width: u32 = sizes[i].width;
        if column < widths.len() {
            if width > widths[column] {
                widths.set(column, width);
            }
            proof {
                if i < columns {
                    lemma_small_mod(i as nat, columns as nat);
                }
            }
        } else {
            proof {
                lemma_small_mod(i as nat, columns as nat);
                lemma_column_unreached(sizes@, columns as nat, i as nat, i as nat);
            }
            widths.push(width);
        }
        i += 1;
    }
    assert(widths@.len() == table.len());
    let mut offsets: Vec<u128> = Vec::new();
    let mut grid_width: u128 = 0;
    offsets.push(grid_width);
    let mut column: usize = 0;
    while column < widths.len()
        invariant
            count == sizes@.len(),
            table == column_widths(sizes@, columns as nat),
            widths@.len() == table.len(),
            forall|c: int| 0 <= c < widths@.len() ==> #[trigger] widths@[c] == table[c],
            column <= widths@.len(),
            offsets@.len() == column + 1,
            forall|c: int| 0 <= c <= column ==> #[trigger] offsets@[c] == sum_of_first(table, c as nat),
            grid_width == sum_of_first(table, column as nat),
            grid_width <= column * 0xFFFF_FFFF,
        decreases widths@.len() - column,
    {
        grid_width = grid_width + widths[column] as u128;
        offsets.push(grid_width);
        column += 1;
    }
    let aligns = Aligns::Table(offsets);
    let layout = build_grid(columns, &aligns, sizes, grid_width);
    proof {
        let expected = measured_grid(sizes@, columns as nat);
        assert forall|j: int| 0 <= j < count implies #[trigger] layout@.children[j]
            == expected.children[j] by {
            vstd::arithmetic::div_mod::lemma_mod_pos_bound(j, columns as int);
            if count < columns {
                lemma_small_mod(j as nat, columns as nat);
            }
        }
        assert(layout@.children =~= expected.children);
    }
    layout
}

/// Lays the children out in `columns` columns that are all `column_width`
/// wide.
fn arrange_uniform(columns: usize, column_width: u16, sizes: &Vec<Size>) -> (layout: Layout)
    requires
        columns > 0,
    ensures
        layout@ == uniform_grid(sizes@, columns as nat, column_width as nat),
{
    assert(columns * column_width <= 0xFFFF_FFFF_FFFF_FFFF * 0xFFFF) by (nonlinear_arith)
        requires
            columns <= 0xFFFF_FFFF_FFFF_FFFF,
            column_width <= 0xFFFF,
    ;
    let grid_width: u128 = (columns as u128) * (column_width as u128);
    let aligns = Aligns::Uniform(column_width);
    let layout = build_grid(columns, &aligns, sizes, grid_width);
    proof {
        let expected = uniform_grid(sizes@, columns as nat, column_width as nat);
        assert forall|j: int| 0 <= j < sizes@.len() implies #[trigger] layout@.children[j]
            == expected.children[j] by {
            vstd::arithmetic::div_mod::lemma_mod_pos_bound(j, columns as int);
            assert(0 <= (j % (columns as int)) * column_width) by (nonlinear_arith)
                requires
                    0 <= j % (columns as int),
                    0 <= column_width,
            ;
        }
        assert(layout@.children =~= expected.children);
    }
    layout
}

impl Strategy {
    /// Lays out children of the given sizes, in their order, with
    /// `available_width` to fill.
    ///
    /// Without children, and where the strategy yields no column, the layout
    /// is empty. Otherwise every child gets its place row by row and keeps
    /// its size: under [`Strategy::Columns`] a column is as wide as its
    /// widest child, under [`Strategy::ColumnWidth`] as wide as the strategy
    /// says, whatever the children measure.
    pub fn arrange(&self, sizes: &Vec<Size>, available_width: u32) -> (layout: Layout)
        ensures
            layout@ == arrangement(*self, sizes@, available_width as nat),
    {
        let columns: usize = self.column_count(available_width);
        if sizes.len() == 0 || columns == 0 {
            return Layout::empty();
        }
        match self {
            Strategy::Columns(_) => arrange_measured(columns, sizes),
            Strategy::ColumnWidth(column_width) => arrange_uniform(columns, *column_width, sizes),
        }
    }
}

} // verus!
