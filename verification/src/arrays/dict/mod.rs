//! Arrays of values indexed by codes.

pub mod take;

use vstd::prelude::*;

use crate::array::construct::{is_index_dtype, without_stats};
use crate::array::vtable::{ArrayView, Dict};
use crate::array::{in_bounds, row_indices, taken_rows, ArrayId, ArrayRef, DictArray};
use crate::error::{VortexError, VortexResult};

verus! {

impl<'a> ArrayView<'a, Dict> {
    /// The codes, which index the values.
    pub fn codes(&self) -> (r: &'a ArrayRef)
        requires
            self.array_spec().slots_filled(2),
        ensures
            *r == self.array_spec().slot(0),
    {
        self.array().child(0)
    }
}

impl ArrayRef {
    /// The rows at the given indices, computed only when they are read.
    ///
    /// That the indices lie within the array is not checked.
    pub fn take(&self, indices: ArrayRef) -> (r: VortexResult<ArrayRef>)
        ensures
            !is_index_dtype(indices.dtype_spec()) ==> r == Err::<ArrayRef, VortexError>(
                VortexError::InvalidIndicesDType,
            ),
            is_index_dtype(indices.dtype_spec()) ==> r is Ok,
            r matches Ok(array) ==> {
                &&& array.id_spec() == ArrayId::Dict
                &&& array.slots_filled(2)
                &&& array.slot(0) == indices
                &&& array.slot(1) == *self
                &&& array.dict_agrees()
                &&& array.rows() == taken_rows(row_indices(indices.rows()), self.rows())
                &&& indices.wf() && self.wf() && in_bounds(
                    row_indices(indices.rows()),
                    self.rows().len(),
                ) ==> array.wf()
                &&& without_stats(array)
            },
    {
        DictArray::try_new(indices, self.clone())
    }
}

} // verus!
