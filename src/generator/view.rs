use vstd::prelude::*;

verus! {

/// Where a plane coordinate falls along one image axis: before the first
/// pixel, on a pixel, or past the last one.
#[derive(Debug, Clone, Copy, PartialEq, Eq)]
pub enum ConstrainedValue<T> {
    LessThanConstraint,
    WithinConstraint(T),
    GreaterThanConstraint,
}

impl ConstrainedValue<u32> {
    /// Constrains one axis of a plane point to an image of `extent` pixels.
    ///
    /// `beyond_origin` tells whether the plane coordinate lies strictly past
    /// the view's origin on this axis, and `index` is the pixel index derived
    /// from it. The lower bound is decided on the plane coordinate and the
    /// upper bound on the derived index.
    pub fn from_axis(beyond_origin: bool, index: u32, extent: u32) -> (c: ConstrainedValue<u32>)
        ensures
            !beyond_origin <==> c is LessThanConstraint,
            beyond_origin && index >= extent <==> c is GreaterThanConstraint,
            beyond_origin && index < extent <==> c == ConstrainedValue::WithinConstraint(index),
    {
        if beyond_origin {
            if index < extent {
                ConstrainedValue::WithinConstraint(index)
            } else {
                ConstrainedValue::GreaterThanConstraint
            }
        } else {
            ConstrainedValue::LessThanConstraint
        }
    }
}

} // verus!
