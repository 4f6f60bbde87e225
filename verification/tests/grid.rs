use std::cell::RefCell;

use iced_aw::{Constraint, Grid, Layout, Placement, Size, Strategy};

fn size(width: u32, height: u32) -> Size {
    Size { width, height }
}

fn at(x: u128, y: u128, width: u32, height: u32) -> Placement {
    Placement { x, y, width, height }
}

fn empty() -> Layout {
    Layout { width: 0, height: 0, children: Vec::new() }
}

fn measure(size: &Size, constraint: Constraint) -> Size {
    match constraint {
        Constraint::Unchanged => *size,
        Constraint::FixedWidth(width) => Size { width: width as u32, height: size.height },
    }
}

#[test]
fn grid_with_columns_starts_empty() {
    let grid: Grid<u8> = Grid::with_columns(3);
    assert_eq!(grid.strategy(), Strategy::Columns(3));
    assert_eq!(grid.len(), 0);
    assert!(grid.is_empty());
    assert!(grid.elements().is_empty());
}

#[test]
fn grid_with_column_width_starts_empty() {
    let grid: Grid<u8> = Grid::with_column_width(40);
    assert_eq!(grid.strategy(), Strategy::ColumnWidth(40));
    assert_eq!(grid.len(), 0);
    assert!(grid.is_empty());
}

#[test]
fn push_appends_in_order() {
    let grid = Grid::with_columns(2).push("a").push("b").push("a").push("c");
    assert_eq!(grid.strategy(), Strategy::Columns(2));
    assert_eq!(grid.len(), 4);
    assert!(!grid.is_empty());
    assert_eq!(grid.elements(), &["a", "b", "a", "c"]);
}

#[test]
fn insert_appends_in_place() {
    let mut grid = Grid::with_column_width(8).push(1u8);
    grid.insert(2u8);
    grid.insert(3u8);
    assert_eq!(grid.strategy(), Strategy::ColumnWidth(8));
    assert_eq!(grid.elements(), &[1u8, 2u8, 3u8]);
}

#[test]
fn zero_is_accepted_for_columns_and_width() {
    let columns: Grid<u8> = Grid::with_columns(0);
    let width: Grid<u8> = Grid::with_column_width(0);
    assert_eq!(columns.strategy(), Strategy::Columns(0));
    assert_eq!(width.strategy(), Strategy::ColumnWidth(0));
}

#[test]
fn a_child_can_be_changed_in_place() {
    let mut grid = Grid::with_columns(2).push(1u8).push(2u8).push(3u8);
    if let Some(element) = grid.get_mut(1) {
        assert_eq!(*element, 2);
        *element += 10;
    }
    assert_eq!(grid.elements(), &[1u8, 12u8, 3u8]);
    assert_eq!(grid.strategy(), Strategy::Columns(2));
    assert_eq!(grid.len(), 3);
}

#[test]
fn there_is_no_child_behind_the_last() {
    let mut grid = Grid::with_columns(2).push(1u8).push(2u8);
    assert!(grid.get_mut(2).is_none());
    assert!(grid.get_mut(usize::MAX).is_none());
    assert_eq!(grid.elements(), &[1u8, 2u8]);
    let mut none: Grid<u8> = Grid::with_column_width(5);
    assert!(none.get_mut(0).is_none());
}

#[test]
fn layout_measures_every_child_once_in_order() {
    let grid = Grid::with_columns(2)
        .push(size(10, 5))
        .push(size(20, 5))
        .push(size(5, 8))
        .push(size(5, 8));
    let seen: RefCell<Vec<(Size, Constraint)>> = RefCell::new(Vec::new());
    let layout = grid.layout(
        |element: &Size, constraint: Constraint| {
            seen.borrow_mut().push((*element, constraint));
            measure(element, constraint)
        },
        0,
    );
    assert_eq!(layout.width, 30);
    assert_eq!(layout.height, 13);
    assert_eq!(
        layout.children,
        vec![at(0, 0, 10, 5), at(10, 0, 20, 5), at(0, 5, 5, 8), at(10, 5, 5, 8)]
    );
    assert_eq!(
        seen.into_inner(),
        vec![
            (size(10, 5), Constraint::Unchanged),
            (size(20, 5), Constraint::Unchanged),
            (size(5, 8), Constraint::Unchanged),
            (size(5, 8), Constraint::Unchanged),
        ]
    );
}

#[test]
fn layout_measures_at_the_column_width() {
    let grid = Grid::with_column_width(10)
        .push(size(25, 5))
        .push(size(10, 7))
        .push(size(3, 2))
        .push(size(10, 9));
    let seen: RefCell<Vec<Constraint>> = RefCell::new(Vec::new());
    let layout = grid.layout(
        |element: &Size, constraint: Constraint| {
            seen.borrow_mut().push(constraint);
            measure(element, constraint)
        },
        35,
    );
    assert_eq!(seen.into_inner(), vec![Constraint::FixedWidth(10); 4]);
    assert_eq!(layout.width, 30);
    assert_eq!(layout.height, 16);
    assert_eq!(
        layout.children,
        vec![at(0, 0, 10, 5), at(10, 0, 10, 7), at(20, 0, 10, 2), at(0, 7, 10, 9)]
    );
}

#[test]
fn layout_is_what_arrange_makes_of_the_measured_sizes() {
    let sizes = vec![size(3, 1), size(4, 2), size(5, 6), size(1, 1), size(2, 7)];
    let mut grid = Grid::with_columns(3);
    for s in sizes.iter() {
        grid.insert(*s);
    }
    let layout = grid.layout(measure, 77);
    assert_eq!(layout, Strategy::Columns(3).arrange(&sizes, 77));
}

#[test]
fn empty_grid_is_laid_out_empty() {
    let calls: RefCell<usize> = RefCell::new(0);
    let count = |element: &Size, constraint: Constraint| {
        *calls.borrow_mut() += 1;
        measure(element, constraint)
    };
    let columns: Grid<Size> = Grid::with_columns(3);
    let width: Grid<Size> = Grid::with_column_width(10);
    assert_eq!(columns.layout(&count, 100), empty());
    assert_eq!(width.layout(&count, 100), empty());
    assert_eq!(*calls.borrow(), 0);
}

#[test]
fn grid_without_columns_measures_nothing() {
    let calls: RefCell<usize> = RefCell::new(0);
    let count = |element: &Size, constraint: Constraint| {
        *calls.borrow_mut() += 1;
        measure(element, constraint)
    };
    let none = Grid::with_columns(0).push(size(10, 5)).push(size(20, 5));
    assert_eq!(none.layout(&count, 100), empty());
    assert_eq!(none.layout(&count, 100), empty());
    let narrow = Grid::with_column_width(10).push(size(10, 5)).push(size(20, 5));
    assert_eq!(narrow.layout(&count, 9), empty());
    assert_eq!(*calls.borrow(), 0);
    assert_eq!(narrow.layout(&count, 10).children.len(), 2);
    assert_eq!(*calls.borrow(), 2);
}
