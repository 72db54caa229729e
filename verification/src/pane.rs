//! A side pane whose width can be changed by dragging its border.

use vstd::prelude::*;

verus! {

/// Width of a side pane and whether its border is hovered or dragged.
#[derive(Debug)]
pub struct PaneInfo {
    width: u16,
    hovering: bool,
    dragging: bool,
}

impl Default for PaneInfo {
    fn default() -> (r: Self)
        ensures
            r.spec_width() == 24,
            !r.spec_hovering(),
            !r.spec_dragging(),
    {
        Self { width: 24, hovering: false, dragging: false }
    }
}

impl PaneInfo {
    pub closed spec fn spec_width(&self) -> u16 {
        self.width
    }

    pub closed spec fn spec_hovering(&self) -> bool {
        self.hovering
    }

    pub closed spec fn spec_dragging(&self) -> bool {
        self.dragging
    }

    pub fn width(&self) -> (r: u16)
        ensures
            r == self.spec_width(),
    {
        self.width
    }

    /// Whether the border is drawn highlighted.
    pub fn hovering(&self) -> (r: bool)
        ensures
            r == self.spec_hovering(),
    {
        self.hovering
    }

    /// Shrinks the pane to at most `width` columns.
    pub fn restrict_width(&mut self, width: u16)
        ensures
            final(self).spec_width() == if old(self).spec_width() < width {
                old(self).spec_width()
            } else {
                width
            },
            final(self).spec_hovering() == old(self).spec_hovering(),
            final(self).spec_dragging() == old(self).spec_dragging(),
    {
        if width < self.width {
            self.width = width;
        }
    }

    pub fn hover(&mut self, active: bool)
        ensures
            final(self).spec_width() == old(self).spec_width(),
            final(self).spec_hovering() == active,
            final(self).spec_dragging() == old(self).spec_dragging(),
    {
        self.hovering = active;
    }

    pub fn drag(&mut self, active: bool)
        ensures
            final(self).spec_width() == old(self).spec_width(),
            final(self).spec_hovering() == old(self).spec_hovering(),
            final(self).spec_dragging() == active,
    {
        self.dragging = active;
    }

    /// Sets the width to `width` while the border is being dragged.
    pub fn drag_to(&mut self, width: u16)
        ensures
            final(self).spec_width() == if old(self).spec_dragging() {
                width
            } else {
                old(self).spec_width()
            },
            final(self).spec_hovering() == old(self).spec_hovering(),
            final(self).spec_dragging() == old(self).spec_dragging(),
    {
        if self.dragging {
            self.width = width;
        }
    }
}

} // verus!
