//! The size of a child and the layout of a grid.

use vstd::prelude::*;

verus! {

/// The width and height that a child takes when it is measured.
#[derive(Clone, Copy, Debug, PartialEq, Eq, Structural)]
pub struct Size {
    pub width: u32,
    pub height: u32,
}

/// The place of one child: its top-left corner, counted from the top-left
/// corner of the grid, and its own size.
#[derive(Clone, Copy, Debug, PartialEq, Eq, Structural)]
pub struct Placement {
    pub x: u128,
    pub y: u128,
    pub width: u32,
    pub height: u32,
}

/// A [`Placement`] over the natural numbers.
pub struct PlacementView {
    pub x: nat,
    pub y: nat,
    pub width: nat,
    pub height: nat,
}

impl View for Placement {
    type V = PlacementView;

    open spec fn view(&self) -> PlacementView {
        PlacementView {
            x: self.x as nat,
            y: self.y as nat,
            width: self.width as nat,
            height: self.height as nat,
        }
    }
}

/// The layout of a grid: its extent, and one placement for each child that
/// was laid out, in the order of the children.
#[derive(Debug, PartialEq, Eq)]
pub struct Layout {
    pub width: u128,
    pub height: u128,
    pub children: Vec<Placement>,
}

/// A [`Layout`] over the natural numbers.
pub struct LayoutView {
    pub width: nat,
    pub height: nat,
    pub children: Seq<PlacementView>,
}

impl LayoutView {
    /// The layout of nothing: no extent and no children.
    pub open spec fn empty() -> LayoutView {
        LayoutView { width: 0, height: 0, children: Seq::empty() }
    }
}

impl View for Layout {
    type V = LayoutView;

    open spec fn view(&self) -> LayoutView {
        LayoutView {
            width: self.width as nat,
            height: self.height as nat,
            children: Seq::new(self.children@.len(), |i: int| self.children@[i]@),
        }
    }
}

impl Clone for Layout {
    fn clone(&self) -> (copy: Layout)
        ensures
            copy@ == self@,
    {
        let mut children: Vec<Placement> = Vec::new();
        let mut i: usize = 0;
        while i < self.children.len()
            invariant
                i <= self.children@.len(),
                children@ == self.children@.take(i as int),
            decreases self.children@.len() - i,
        {
            children.push(self.children[i]);
            assert(self.children@.take(i + 1) == self.children@.take(i as int).push(
                self.children@[i as int],
            ));
            i += 1;
        }
        assert(children@ == self.children@);
        Layout { width: self.width, height: self.height, children }
    }
}

impl Layout {
    /// A layout without extent and without children.
    pub fn empty() -> (layout: Layout)
        ensures
            layout@ == LayoutView::empty(),
    {
        let layout = Layout { width: 0, height: 0, children: Vec::new() };
        assert(layout@.children =~= Seq::empty());
        layout
    }
}

} // verus!
