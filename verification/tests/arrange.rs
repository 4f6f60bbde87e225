use iced_aw::{Layout, Placement, Size, Strategy};

fn size(width: u32, height: u32) -> Size {
    Size { width, height }
}

fn at(x: u128, y: u128, width: u32, height: u32) -> Placement {
    Placement { x, y, width, height }
}

fn empty() -> Layout {
    Layout { width: 0, height: 0, children: Vec::new() }
}

#[test]
fn two_columns_of_four_children() {
    let sizes = vec![size(10, 5), size(20, 5), size(5, 8), size(5, 8)];
    let layout = Strategy::Columns(2).arrange(&sizes, 1000);
    assert_eq!(layout.width, 30);
    assert_eq!(layout.height, 13);
    assert_eq!(
        layout.children,
        vec![at(0, 0, 10, 5), at(10, 0, 20, 5), at(0, 5, 5, 8), at(10, 5, 5, 8)]
    );
}

#[test]
fn last_row_may_be_partial() {
    let sizes = vec![size(3, 1), size(4, 2), size(5, 6), size(1, 1), size(2, 7)];
    let layout = Strategy::Columns(2).arrange(&sizes, 0);
    assert_eq!(layout.width, 9);
    assert_eq!(layout.height, 15);
    assert_eq!(
        layout.children,
        vec![
            at(0, 0, 3, 1),
            at(5, 0, 4, 2),
            at(0, 2, 5, 6),
            at(5, 2, 1, 1),
            at(0, 8, 2, 7),
        ]
    );
}

#[test]
fn three_columns_of_seven_children() {
    let sizes = vec![
        size(1, 10),
        size(2, 20),
        size(3, 30),
        size(4, 40),
        size(5, 50),
        size(6, 60),
        size(7, 70),
    ];
    let layout = Strategy::Columns(3).arrange(&sizes, 0);
    assert_eq!(layout.width, 18);
    assert_eq!(layout.height, 160);
    assert_eq!(
        layout.children,
        vec![
            at(0, 0, 1, 10),
            at(7, 0, 2, 20),
            at(12, 0, 3, 30),
            at(0, 30, 4, 40),
            at(7, 30, 5, 50),
            at(12, 30, 6, 60),
            at(0, 90, 7, 70),
        ]
    );
}

#[test]
fn child_stands_in_row_and_column_of_its_index() {
    let columns: usize = 4;
    let mut sizes: Vec<Size> = Vec::new();
    for _ in 0..10 {
        sizes.push(size(3, 2));
    }
    let layout = Strategy::Columns(columns).arrange(&sizes, 0);
    assert_eq!(layout.children.len(), 10);
    for (i, child) in layout.children.iter().enumerate() {
        assert_eq!(child.x, 3 * (i % columns) as u128);
        assert_eq!(child.y, 2 * (i / columns) as u128);
    }
    assert_eq!(layout.width, 12);
    assert_eq!(layout.height, 6);
}

#[test]
fn columns_without_children_have_no_width() {
    let sizes = vec![size(7, 3), size(9, 4)];
    let layout = Strategy::Columns(5).arrange(&sizes, 0);
    assert_eq!(layout.width, 16);
    assert_eq!(layout.height, 4);
    assert_eq!(layout.children, vec![at(0, 0, 7, 3), at(7, 0, 9, 4)]);
}

#[test]
fn one_column_stacks_the_children() {
    let sizes = vec![size(4, 1), size(9, 2), size(6, 3)];
    let layout = Strategy::default().arrange(&sizes, 0);
    assert_eq!(Strategy::default(), Strategy::Columns(1));
    assert_eq!(layout.width, 9);
    assert_eq!(layout.height, 6);
    assert_eq!(layout.children, vec![at(0, 0, 4, 1), at(0, 1, 9, 2), at(0, 3, 6, 3)]);
}

#[test]
fn column_offsets_are_running_sums() {
    let sizes = vec![size(11, 1), size(22, 1), size(33, 1), size(44, 1)];
    let layout = Strategy::Columns(4).arrange(&sizes, 0);
    let offsets: Vec<u128> = layout.children.iter().map(|child| child.x).collect();
    assert_eq!(offsets, vec![0, 11, 33, 66]);
    assert_eq!(layout.width, 110);
}

#[test]
fn zero_columns_lay_nothing_out() {
    let sizes = vec![size(10, 5), size(20, 5), size(5, 8)];
    let strategy = Strategy::Columns(0);
    assert_eq!(strategy.arrange(&sizes, 1000), empty());
    assert_eq!(strategy.arrange(&sizes, 1000), empty());
    assert_eq!(strategy.arrange(&Vec::new(), 1000), empty());
}

#[test]
fn no_children_lay_nothing_out() {
    let sizes: Vec<Size> = Vec::new();
    assert_eq!(Strategy::Columns(3).arrange(&sizes, 100), empty());
    assert_eq!(Strategy::ColumnWidth(10).arrange(&sizes, 100), empty());
}

#[test]
fn fixed_width_columns_ignore_what_children_measure() {
    let sizes = vec![size(25, 5), size(10, 7), size(3, 2), size(10, 9)];
    let layout = Strategy::ColumnWidth(10).arrange(&sizes, 35);
    assert_eq!(layout.width, 30);
    assert_eq!(layout.height, 16);
    assert_eq!(
        layout.children,
        vec![at(0, 0, 25, 5), at(10, 0, 10, 7), at(20, 0, 3, 2), at(0, 7, 10, 9)]
    );
}

#[test]
fn fixed_width_columns_fill_the_available_width() {
    let strategy = Strategy::ColumnWidth(10);
    assert_eq!(strategy.column_count(0), 0);
    assert_eq!(strategy.column_count(9), 0);
    assert_eq!(strategy.column_count(10), 1);
    assert_eq!(strategy.column_count(19), 1);
    assert_eq!(strategy.column_count(20), 2);
    assert_eq!(strategy.column_count(35), 3);
    assert_eq!(Strategy::ColumnWidth(1).column_count(u32::MAX), u32::MAX as usize);
    assert_eq!(Strategy::Columns(7).column_count(3), 7);
}

#[test]
fn grid_is_as_wide_as_its_columns_even_if_empty() {
    let sizes = vec![size(1, 4)];
    let layout = Strategy::ColumnWidth(10).arrange(&sizes, 47);
    assert_eq!(layout.width, 40);
    assert_eq!(layout.height, 4);
    assert_eq!(layout.children, vec![at(0, 0, 1, 4)]);
}

#[test]
fn too_little_width_for_one_column_lays_nothing_out() {
    let sizes = vec![size(10, 5), size(10, 7)];
    assert_eq!(Strategy::ColumnWidth(10).arrange(&sizes, 9), empty());
    assert_eq!(Strategy::ColumnWidth(10).arrange(&sizes, 0), empty());
}

#[test]
fn exactly_one_column_fits() {
    let sizes = vec![size(10, 5), size(10, 7), size(10, 1)];
    let layout = Strategy::ColumnWidth(10).arrange(&sizes, 10);
    assert_eq!(layout.width, 10);
    assert_eq!(layout.height, 13);
    assert_eq!(layout.children, vec![at(0, 0, 10, 5), at(0, 5, 10, 7), at(0, 12, 10, 1)]);
}

#[test]
fn columns_without_width_share_one_row() {
    let sizes = vec![size(0, 5), size(4, 9), size(0, 2)];
    let strategy = Strategy::ColumnWidth(0);
    assert_eq!(strategy.column_count(1), usize::MAX);
    let layout = strategy.arrange(&sizes, 1);
    assert_eq!(layout.width, 0);
    assert_eq!(layout.height, 9);
    assert_eq!(layout.children, vec![at(0, 0, 0, 5), at(0, 0, 4, 9), at(0, 0, 0, 2)]);
}

#[test]
fn no_width_at_all_holds_no_column() {
    let sizes = vec![size(0, 5), size(0, 9)];
    let strategy = Strategy::ColumnWidth(0);
    assert_eq!(strategy.column_count(0), 0);
    assert_eq!(strategy.arrange(&sizes, 0), empty());
}

#[test]
fn sums_go_beyond_the_range_of_one_size() {
    let most: u32 = u32::MAX;
    let sizes = vec![size(most, most), size(most, 1), size(1, most), size(most, most)];
    let layout = Strategy::Columns(2).arrange(&sizes, 0);
    assert_eq!(layout.width, 8589934590);
    assert_eq!(layout.height, 8589934590);
    assert_eq!(
        layout.children,
        vec![
            at(0, 0, most, most),
            at(4294967295, 0, most, 1),
            at(0, 4294967295, 1, most),
            at(4294967295, 4294967295, most, most),
        ]
    );
}

#[test]
fn strategy_says_how_children_are_measured() {
    assert_eq!(Strategy::Columns(3).constraint(), iced_aw::Constraint::Unchanged);
    assert_eq!(Strategy::ColumnWidth(12).constraint(), iced_aw::Constraint::FixedWidth(12));
}

#[test]
fn empty_layout_has_no_extent() {
    assert_eq!(Layout::empty(), empty());
}

#[test]
fn layout_can_be_copied() {
    let sizes = vec![size(10, 5), size(20, 5), size(5, 8)];
    let layout = Strategy::Columns(2).arrange(&sizes, 0);
    let copy = layout.clone();
    assert_eq!(copy, layout);
    assert_eq!(copy.children.len(), 3);
}
