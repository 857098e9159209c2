//! Arrays that select rows of a child array by a mask.

pub mod gather;
pub mod rank;
pub mod take;
pub mod translate;

use vstd::prelude::*;

use crate::array::vtable::{ArrayView, Filter};
use crate::array::ArrayRef;
use crate::mask::Mask;

verus! {

impl ArrayRef {
    /// The mask of a filtered array.
    pub open spec fn filter_mask_spec(self) -> Mask {
        self.inner.data->Filter_0.mask
    }
}

impl<'a> ArrayView<'a, Filter> {
    /// The unfiltered array.
    pub fn child(&self) -> (r: &'a ArrayRef)
        requires
            self.wf(),
            self.array_spec().wf(),
        ensures
            *r == self.array_spec().slot(0),
    {
        proof {
            self.lemma_view_data();
        }
        self.array().child(0)
    }

    /// Which rows of the unfiltered array are selected.
    pub fn filter_mask(&self) -> (r: &'a Mask)
        requires
            self.wf(),
        ensures
            *r == self.array_spec().filter_mask_spec(),
    {
        proof {
            self.lemma_view_data();
        }
        &self.data().mask
    }
}

} // verus!
