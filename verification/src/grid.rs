//! The grid: a strategy and the children it distributes.

use vstd::prelude::*;
use crate::geometry::{Layout, LayoutView, Size};
use crate::model::arrangement;
use crate::strategy::{Constraint, Strategy};

verus! {

/// A container that distributes its children in a grid.
///
/// The strategy is chosen when the grid is made and stays. Children are
/// added at the end, and none is taken out: the order in which they were
/// added is the order in which they are laid out.
pub struct Grid<E> {
    strategy: Strategy,
    elements: Vec<E>,
}

/// A [`Grid`] as a strategy and a sequence of children.
pub struct GridView<E> {
    pub strategy: Strategy,
    pub elements: Seq<E>,
}

impl<E> GridView<E> {
    /// Whether there is anything to lay out with `available_width` to fill:
    /// at least one child, and at least one column to put it in.
    pub open spec fn lays_out(self, available_width: nat) -> bool {
        self.elements.len() > 0 && self.strategy.column_count_spec(available_width) > 0
    }
}

impl<E> View for Grid<E> {
    type V = GridView<E>;

    closed spec fn view(&self) -> GridView<E> {
        GridView { strategy: self.strategy, elements: self.elements@ }
    }
}

/// Whether `sizes` holds, for each of the `elements` in turn, a size that
/// `measure` may return for it under `constraint`.
pub open spec fn measured<E, F: Fn(&E, Constraint) -> Size>(
    measure: F,
    elements: Seq<E>,
    constraint: Constraint,
    sizes: Seq<Size>,
) -> bool {
    &&& sizes.len() == elements.len()
    &&& forall|i: int|
        0 <= i < elements.len() ==> call_ensures(
            measure,
            (&elements[i], constraint),
            #[trigger] sizes[i],
        )
}

impl<E> Grid<E> {
    /// A grid without children that lays them out in `columns` columns.
    pub fn with_columns(columns: usize) -> (grid: Self)
        ensures
            grid@ == (GridView::<E> {
                strategy: Strategy::Columns(columns),
                elements: Seq::empty(),
            }),
    {
        Grid { strategy: Strategy::Columns(columns), elements: Vec::new() }
    }

    /// A grid without children that lays them out in as many columns of
    /// width `column_width` as fit.
    pub fn with_column_width(column_width: u16) -> (grid: Self)
        ensures
            grid@ == (GridView::<E> {
                strategy: Strategy::ColumnWidth(column_width),
                elements: Seq::empty(),
            }),
    {
        Grid { strategy: Strategy::ColumnWidth(column_width), elements: Vec::new() }
    }

    /// The grid with `element` added behind its children.
    pub fn push(self, element: E) -> (grid: Self)
        ensures
            grid@ == (GridView {
                strategy: self@.strategy,
                elements: self@.elements.push(element),
            }),
    {
        let mut grid = self;
        grid.elements.push(element);
        grid
    }

    /// Adds `element` behind the children of the grid.
    pub fn insert(&mut self, element: E)
        ensures
            final(self)@ == (GridView {
                strategy: old(self)@.strategy,
                elements: old(self)@.elements.push(element),
            }),
    {
        self.elements.push(element);
    }

    /// The strategy of the grid.
    pub fn strategy(&self) -> (strategy: Strategy)
        ensures
            strategy == self@.strategy,
    {
        self.strategy
    }

    /// The number of children.
    pub fn len(&self) -> (len: usize)
        ensures
            len == self@.elements.len(),
    {
        self.elements.len()
    }

    /// Whether the grid has no children.
    pub fn is_empty(&self) -> (empty: bool)
        ensures
            empty <==> self@.elements.len() == 0,
    {
        self.elements.len() == 0
    }

    /// The children, in their order.
    pub fn elements(&self) -> (elements: &[E])
        ensures
            elements@ == self@.elements,
    {
        self.elements.as_slice()
    }

    /// The child at `index`, open to change, if there is one. The grid
    /// keeps its strategy and its other children, and holds at `index` what
    /// the child is when the borrow ends.
    pub fn get_mut(&mut self, index: usize) -> (element: Option<&mut E>)
        ensures
            index >= old(self)@.elements.len() ==> element.is_none() && final(self)@ == old(
                self,
            )@,
            index < old(self)@.elements.len() ==> {
                &&& element.is_some()
                &&& *element.unwrap() == old(self)@.elements[index as int]
                &&& final(self)@ == (GridView {
                    strategy: old(self)@.strategy,
                    elements: old(self)@.elements.update(index as int, *final(element.unwrap())),
                })
            },
    {
        if index < self.elements.len() {
            Some(&mut self.elements[index])
        } else {
            None
        }
    }

    /// Lays out the grid with `available_width` to fill.
    ///
    /// A grid without children or without columns is laid out empty, and
    /// `measure` is not called. Otherwise `measure` is called once for every
    /// child, in order, each time with the constraint of the strategy, and
    /// the sizes it returns are arranged as [`Strategy::arrange`] does.
    pub fn layout<F: Fn(&E, Constraint) -> Size>(&self, measure: F, available_width: u32) -> (layout:
        Layout)
        requires
            self@.lays_out(available_width as nat) ==> forall|i: int|
                0 <= i < self@.elements.len() ==> call_requires(
                    measure,
                    (&#[trigger] self@.elements[i], self@.strategy.constraint_spec()),
                ),
        ensures
            !self@.lays_out(available_width as nat) ==> layout@ == LayoutView::empty(),
            self@.lays_out(available_width as nat) ==> exists|sizes: Seq<Size>|
                #[trigger] measured(
                    measure,
                    self@.elements,
                    self@.strategy.constraint_spec(),
                    sizes,
                ) && layout@ == arrangement(self@.strategy, sizes, available_width as nat),
    {
        if self.elements.len() == 0 || self.strategy.column_count(available_width) == 0 {
            return Layout::empty();
        }
        let constraint = self.strategy.constraint();
        let mut sizes: Vec<Size> = Vec::new();
        let mut i: usize = 0;
        while i < self.elements.len()
            invariant
                i <= self.elements.len(),
                constraint == self@.strategy.constraint_spec(),
                forall|j: int|
                    0 <= j < self@.elements.len() ==> call_requires(
                        measure,
                        (&#[trigger] self@.elements[j], constraint),
                    ),
                sizes@.len() == i,
                forall|j: int|
                    0 <= j < i ==> call_ensures(
                        measure,
                        (&self@.elements[j], constraint),
                        #[trigger] sizes@[j],
                    ),
            decreases self.elements.len() - i,
        {
            let size = measure(&self.elements[i], constraint);
            sizes.push(size);
            i += 1;
        }
        assert(measured(measure, self@.elements, constraint, sizes@));
        self.strategy.arrange(&sizes, available_width)
    }
}

} // verus!
