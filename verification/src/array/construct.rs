//! Putting arrays together.

use vstd::prelude::*;
use std::ops::Range;

use super::parent::ArrayParts;
use super::vtable::{Dict, Slice};
use super::{
    in_bounds, row_indices, ArrayData, ArrayId, ArrayInner, ArrayRef, BoolArray, ConstantArray,
    DictArray, FilterArray, RowsArray, SliceArray,
};
use crate::arrays::decimal::{DecimalArray, DecimalBuffer};
use crate::arrays::primitive::{PrimitiveArray, PrimitiveBuffer};
use crate::dtype::DType;
use crate::error::{VortexError, VortexResult};
use crate::mask::{count_true, select, Mask};
use crate::scalar::{row_fits, Row};
use crate::stats::Stat;
use crate::validity::Validity;

verus! {

/// An array without statistics.
pub open spec fn without_stats(array: ArrayRef) -> bool {
    forall|s: Stat| (#[trigger] array.stats.get_spec(s)) is None
}

impl PrimitiveArray {
    /// Makes an array of it.
    pub fn into_array(self) -> (r: ArrayRef)
        requires
            self.wf(),
        ensures
            r.wf(),
            r.inner.data == ArrayData::Primitive(self),
            r.rows() == self.rows(),
            r.dtype_spec() == self.dtype_spec(),
            r.len_spec() == self.rows().len(),
            without_stats(r),
    {
        ArrayRef::from_inner(
            ArrayInner {
                dtype: self.dtype(),
                len: self.len(),
                data: ArrayData::Primitive(self),
                slots: Vec::new(),
            },
        )
    }
}

impl DecimalArray {
    /// Makes an array of it.
    pub fn into_array(self) -> (r: ArrayRef)
        requires
            self.wf(),
        ensures
            r.wf(),
            r.inner.data == ArrayData::Decimal(self),
            r.rows() == self.rows(),
            r.dtype_spec() == self.dtype_spec(),
            r.len_spec() == self.rows().len(),
            without_stats(r),
    {
        ArrayRef::from_inner(
            ArrayInner {
                dtype: self.dtype(),
                len: self.len(),
                data: ArrayData::Decimal(self),
                slots: Vec::new(),
            },
        )
    }
}

impl BoolArray {
    /// Makes an array of it.
    pub fn into_array(self) -> (r: ArrayRef)
        requires
            self.wf(),
        ensures
            r.wf(),
            r.inner.data == ArrayData::Bool(self),
            r.rows() == self.rows(),
            r.dtype_spec() == self.dtype_spec(),
            r.len_spec() == self.bits@.len(),
            without_stats(r),
    {
        ArrayRef::from_inner(
            ArrayInner {
                dtype: DType::Bool(self.validity.nullability()),
                len: self.bits.len(),
                data: ArrayData::Bool(self),
                slots: Vec::new(),
            },
        )
    }
}

impl RowsArray {
    /// Makes an array of the given type of it.
    pub fn into_array(self, dtype: DType) -> (r: ArrayRef)
        requires
            forall|i: int| 0 <= i < self.rows@.len() ==> row_fits(#[trigger] self.rows@[i], dtype),
        ensures
            r.wf(),
            r.inner.data == ArrayData::Rows(self),
            r.rows() == self.rows@,
            r.dtype_spec() == dtype,
            r.len_spec() == self.rows@.len(),
            without_stats(r),
    {
        ArrayRef::from_inner(
            ArrayInner {
                dtype,
                len: self.rows.len(),
                data: ArrayData::Rows(self),
                slots: Vec::new(),
            },
        )
    }
}

impl ConstantArray {
    /// Makes an array of `len` copies of the scalar.
    pub fn into_array(self, dtype: DType, len: usize) -> (r: ArrayRef)
        requires
            row_fits(self.scalar, dtype),
        ensures
            r.wf(),
            r.inner.data == ArrayData::Constant(self),
            r.rows() == Seq::new(len as nat, |i: int| self.scalar),
            r.dtype_spec() == dtype,
            r.len_spec() == len,
            without_stats(r),
    {
        let r = ArrayRef::from_inner(
            ArrayInner { dtype, len, data: ArrayData::Constant(self), slots: Vec::new() },
        );
        assert(r.rows() =~= Seq::new(len as nat, |i: int| self.scalar));
        r
    }
}

/// The codes are integers.
pub open spec fn is_index_dtype(dtype: DType) -> bool {
    dtype matches DType::Primitive(ptype, _) && ptype.is_int_spec()
}

impl DictArray {
    /// The parts of a dictionary of `values` indexed by `codes`.
    ///
    /// That the codes lie within the values is not checked.
    pub fn try_new_parts(codes: ArrayRef, values: ArrayRef) -> (r: VortexResult<ArrayParts<Dict>>)
        ensures
            !is_index_dtype(codes.dtype_spec()) ==> r == Err::<ArrayParts<Dict>, VortexError>(
                VortexError::InvalidIndicesDType,
            ),
            is_index_dtype(codes.dtype_spec()) ==> r is Ok,
            r matches Ok(parts) ==> {
                &&& parts.wf()
                &&& parts.data is Dict
                &&& parts.slots@ == seq![Some(codes), Some(values)]
                &&& parts.len == codes.len_spec()
                &&& parts.dtype == values.dtype_spec().union_nullability_spec(
                    codes.dtype_spec().nullability_spec(),
                )
            },
    {
        let is_index = match codes.dtype() {
            DType::Primitive(ptype, _) => ptype.is_int(),
            _ => false,
        };
        if !is_index {
            return Err(VortexError::InvalidIndicesDType);
        }
        let dtype = values.dtype().union_nullability(codes.dtype().nullability());
        let len = codes.len();
        let ghost expected = seq![Some(codes), Some(values)];
        let mut slots: Vec<Option<ArrayRef>> = Vec::new();
        slots.push(Some(codes));
        slots.push(Some(values));
        assert(slots@ =~= expected);
        Ok(ArrayParts { vtable: Dict, dtype, len, data: ArrayData::Dict(DictArray {  }), slots })
    }

    /// A dictionary of `values` indexed by `codes`.
    ///
    /// That the codes lie within the values is not checked.
    pub fn try_new(codes: ArrayRef, values: ArrayRef) -> (r: VortexResult<ArrayRef>)
        ensures
            !is_index_dtype(codes.dtype_spec()) ==> r == Err::<ArrayRef, VortexError>(
                VortexError::InvalidIndicesDType,
            ),
            is_index_dtype(codes.dtype_spec()) ==> r is Ok,
            r matches Ok(array) ==> {
                &&& array.id_spec() == ArrayId::Dict
                &&& array.slots_filled(2)
                &&& array.slot(0) == codes
                &&& array.slot(1) == values
                &&& array.dict_agrees()
                &&& array.rows() == super::taken_rows(row_indices(codes.rows()), values.rows())
                &&& codes.wf() && values.wf() && in_bounds(
                    row_indices(codes.rows()),
                    values.rows().len(),
                ) ==> array.wf()
                &&& without_stats(array)
            },
    {
        match Self::try_new_parts(codes, values) {
            Ok(parts) => {
                let array = parts.into_array();
                assert(array.inner.slots@[0] == Some(codes));
                assert(array.inner.slots@[1] == Some(values));
                Ok(array)
            },
            Err(e) => Err(e),
        }
    }
}

impl FilterArray {
    /// The rows of `child` that `mask` selects.
    pub fn new(child: ArrayRef, mask: Mask) -> (r: ArrayRef)
        requires
            mask.wf(),
            mask@.len() == child.len_spec(),
        ensures
            r.id_spec() == ArrayId::Filter,
            r.slots_filled(1),
            r.slot(0) == child,
            r.inner.data == ArrayData::Filter(FilterArray { mask }),
            r.rows() == select(child.rows(), mask@),
            r.len_spec() == count_true(mask@),
            r.dtype_spec() == child.dtype_spec(),
            child.wf() ==> r.wf(),
            without_stats(r),
    {
        let dtype = child.dtype().clone();
        let len = mask.true_count();
        let mut slots: Vec<Option<ArrayRef>> = Vec::new();
        slots.push(Some(child));
        let r = ArrayRef::from_inner(
            ArrayInner { dtype, len, data: ArrayData::Filter(FilterArray { mask }), slots },
        );
        assert(r.inner.slots@[0] == Some(child));
        r
    }
}

impl SliceArray {
    /// The parts of a slice of `child`.
    pub fn try_new_parts(child: ArrayRef, range: Range<usize>) -> (r: VortexResult<
        ArrayParts<Slice>,
    >)
        ensures
            r is Ok <==> range.start <= range.end <= child.len_spec(),
            r matches Err(e) ==> e == (VortexError::OutOfBounds {
                index: range.end,
                start: range.start,
                stop: child.len_spec(),
            }),
            r matches Ok(parts) ==> {
                &&& parts.wf()
                &&& parts.data == ArrayData::Slice(SliceArray { range })
                &&& parts.slots@ == seq![Some(child)]
                &&& parts.len == range.end - range.start
                &&& parts.dtype == child.dtype_spec()
            },
    {
        if range.start > range.end || range.end > child.len() {
            return Err(
                VortexError::OutOfBounds {
                    index: range.end,
                    start: range.start,
                    stop: child.len(),
                },
            );
        }
        let dtype = child.dtype().clone();
        let len = range.end - range.start;
        let ghost expected = seq![Some(child)];
        let mut slots: Vec<Option<ArrayRef>> = Vec::new();
        slots.push(Some(child));
        assert(slots@ =~= expected);
        Ok(ArrayParts { vtable: Slice, dtype, len, data: ArrayData::Slice(SliceArray { range }), slots })
    }
}

/// The encoding in which arrays of a type are held when nothing is left to compute.
pub open spec fn canonical_id(dtype: DType) -> ArrayId {
    match dtype {
        DType::Bool(_) => ArrayId::Bool,
        DType::Primitive(_, _) => ArrayId::Primitive,
        DType::Decimal(_, _) => ArrayId::Decimal,
        _ => ArrayId::Rows,
    }
}

/// The canonical array of a type that has no rows.
pub fn empty_array(dtype: &DType) -> (r: ArrayRef)
    ensures
        r.wf(),
        r.rows() == Seq::<Row>::empty(),
        r.len_spec() == 0,
        r.dtype_spec() == *dtype,
        r.id_spec() == canonical_id(*dtype),
        without_stats(r),
{
    let r = match dtype {
        DType::Bool(n) => BoolArray {
            bits: Vec::new(),
            validity: Validity::from_nullability(*n),
        }.into_array(),
        DType::Primitive(ptype, n) => PrimitiveArray {
            buffer: PrimitiveBuffer::empty(*ptype),
            validity: Validity::from_nullability(*n),
        }.into_array(),
        DType::Decimal(decimal_dtype, n) => DecimalArray {
            buffer: DecimalBuffer::I128(Vec::new()),
            decimal_dtype: *decimal_dtype,
            validity: Validity::from_nullability(*n),
        }.into_array(),
        _ => RowsArray { rows: Vec::new() }.into_array(dtype.clone()),
    };
    assert(r.rows() =~= Seq::<Row>::empty());
    r
}

/// Codes have one of the integer types, signed or not, and may be nullable.
pub proof fn lemma_index_dtype(dtype: DType)
    ensures
        dtype matches DType::Primitive(ptype, _) ==> (is_index_dtype(dtype) <==> !(ptype is F16
            || ptype is F32 || ptype is F64)),
        !(dtype is Primitive) ==> !is_index_dtype(dtype),
{
}

} // verus!
