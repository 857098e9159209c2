//! Arrays whose rows are all the same.

use vstd::prelude::*;

use crate::array::construct::without_stats;
use crate::array::vtable::{ArrayView, Constant};
use crate::array::{ArrayData, ArrayRef, ConstantArray};
use crate::arrays::dict::take::TakeReduce;
use crate::optimizer::rules::{declined, Reduced};
use crate::scalar::clone_row;

verus! {

impl ArrayRef {
    /// The repeated row of a constant array.
    pub open spec fn constant_spec(self) -> crate::scalar::Row {
        self.inner.data->Constant_0.scalar
    }
}

impl TakeReduce for Constant {
    /// Any rows of a constant array are that constant again, as long as no index can be null or
    /// the constant is null itself.
    open spec fn reduces(array: ArrayRef, indices: ArrayRef, r: Reduced) -> bool {
        if indices.no_nulls_spec() || array.constant_spec() is None {
            &&& r matches Ok(Some(taken))
            &&& taken.wf()
            &&& taken.inner.data == ArrayData::Constant(
                ConstantArray { scalar: array.constant_spec() },
            )
            &&& taken.len_spec() == indices.len_spec()
            &&& taken.dtype_spec() == array.dtype_spec().union_nullability_spec(
                indices.dtype_spec().nullability_spec(),
            )
            &&& without_stats(taken)
        } else {
            r == declined()
        }
    }

    fn take(array: ArrayView<'_, Constant>, indices: &ArrayRef) -> (r: Reduced) {
        proof {
            array.lemma_view_data();
        }
        let scalar = clone_row(&array.data().scalar);
        if indices.no_nulls() || scalar.is_none() {
            let dtype = array.dtype().union_nullability(indices.dtype().nullability());
            Ok(Some(ConstantArray { scalar }.into_array(dtype, indices.len())))
        } else {
            Ok(None)
        }
    }
}

/// Taking rows of a constant array by structure alone succeeds exactly if no index can be null or
/// the constant is null itself. Every row that is taken is the constant, and the type is nullable if
/// that of the array or of the indices is.
pub proof fn lemma_constant_take(array: ArrayRef, indices: ArrayRef, r: Reduced, i: int)
    requires
        Constant::reduces(array, indices, r),
        0 <= i < indices.len_spec(),
    ensures
        r is Ok,
        r->Ok_0 is Some <==> indices.no_nulls_spec() || array.constant_spec() is None,
        r matches Ok(Some(taken)) ==> {
            &&& taken.rows().len() == indices.len_spec()
            &&& taken.rows()[i] == array.constant_spec()
            &&& taken.dtype_spec().nullability_spec() is Nullable
                <==> array.dtype_spec().nullability_spec() is Nullable
                || indices.dtype_spec().nullability_spec() is Nullable
            &&& taken.dtype_spec().with_nullability_spec(array.dtype_spec().nullability_spec())
                == array.dtype_spec()
        },
{
    if let Ok(Some(taken)) = r {
        ArrayRef::lemma_rows(&taken);
    }
}

} // verus!
