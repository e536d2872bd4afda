//! Rectangles as the platform reports them: edges in signed coordinates,
//! width and height derived.

use vstd::prelude::*;

verus! {

/// A rectangle given by its edges. A well-formed rectangle has non-negative
/// width and height, both small enough that the subtraction fits the signed
/// 32-bit coordinate range. A zero-size rectangle is a resolution failure,
/// not a valid capture source; callers check for it.
#[derive(Clone, Copy, PartialEq, Eq, Structural, Debug)]
pub struct Rect {
    pub left: i32,
    pub top: i32,
    pub right: i32,
    pub bottom: i32,
}

impl Rect {
    /// Derived width.
    pub open spec fn spec_width(&self) -> int {
        self.right - self.left
    }

    /// Derived height.
    pub open spec fn spec_height(&self) -> int {
        self.bottom - self.top
    }

    /// Edges ordered and the derived sides representable.
    pub open spec fn wf(&self) -> bool {
        &&& self.left <= self.right
        &&& self.top <= self.bottom
        &&& self.spec_width() <= i32::MAX
        &&& self.spec_height() <= i32::MAX
    }

    /// Width in pixels.
    pub fn width(&self) -> (r: i32)
        requires
            self.wf(),
        ensures
            r == self.spec_width(),
    {
        self.right - self.left
    }

    /// Height in pixels.
    pub fn height(&self) -> (r: i32)
        requires
            self.wf(),
        ensures
            r == self.spec_height(),
    {
        self.bottom - self.top
    }
}

} // verus!
