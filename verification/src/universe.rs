//! Ranges of pixels taken from one or more controllers and put in a row.

use crate::wled_net::PhysicalWled;
use vstd::prelude::*;

verus! {

/// A range of pixels of one controller.  The range need not be one of the
/// segments that the controller defines.  The slice does not own the
/// controller it points to.
pub struct WledSlice<'slt> {
    /// The controller that the pixels belong to.
    pub wled_ref: &'slt PhysicalWled,
    /// The first pixel of the range.
    pub start: u16,
    /// The pixel at which the range stops.
    pub stop: u16,
}

/// Slices in a fixed order, addressed as one strip.
pub struct Universe<'w> {
    constituents: Vec<WledSlice<'w>>,
}

impl<'slt> WledSlice<'slt> {
    /// The slice is the range from `part.1` to `part.2` of the controller
    /// `part.0`.
    pub open spec fn is_part(self, part: (&'slt PhysicalWled, u16, u16)) -> bool {
        &&& self.wled_ref == part.0
        &&& self.start == part.1
        &&& self.stop == part.2
    }
}

impl<'w> View for Universe<'w> {
    type V = Seq<WledSlice<'w>>;

    closed spec fn view(&self) -> Seq<WledSlice<'w>> {
        self.constituents@
    }
}

impl<'w> Universe<'w> {
    /// Puts ranges of controllers in a row, in the order given.
    ///
    /// Each part names a controller, a first pixel and a pixel at which to
    /// stop.  The bounds are taken as they come: whoever writes through a slice
    /// holds them against the controller's buffer.
    pub fn from_parts(parts: &Vec<(&'w PhysicalWled, u16, u16)>) -> (r: Universe<'w>)
        ensures
            r@.len() == parts@.len(),
            forall|i: int| 0 <= i < parts@.len() ==> (#[trigger] r@[i]).is_part(parts@[i]),
    {
        let mut constituents: Vec<WledSlice<'w>> = Vec::with_capacity(parts.len());
        let mut i: usize = 0;
        while i < parts.len()
            invariant
                i <= parts.len(),
                constituents@.len() == i,
                forall|j: int| 0 <= j < i ==> (#[trigger] constituents@[j]).is_part(parts@[j]),
            decreases parts.len() - i,
        {
            let part = parts[i];
            constituents.push(WledSlice { wled_ref: part.0, start: part.1, stop: part.2 });
            i = i + 1;
        }
        Universe { constituents }
    }

    /// The slices, in their order.
    pub fn slices(&self) -> (r: &Vec<WledSlice<'w>>)
        ensures
            r@ == self@,
    {
        &self.constituents
    }
}

} // verus!
