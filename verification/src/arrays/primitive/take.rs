//! Gathering primitive values by unsigned indices.
//!
//! Native kernels do the gathering by the width of a value in bytes, since they need not know
//! whether it is signed. There is one kernel for each width of a value and each type of index.

use vstd::prelude::*;

use super::{pvalues_of, NativePType, PrimitiveArray};
use crate::array::construct::without_stats;
use crate::array::vtable::{ArrayView, Primitive};
use crate::array::{row_index, row_indices, taken_row, taken_rows, ArrayData, ArrayRef};
use crate::dtype::{DType, PType};
use crate::error::VortexResult;
use crate::native::{IntegerPType, F16, F32, F64};
use crate::scalar::{PValue, ScalarValue};
use crate::validity::Validity;

verus! {

/// A native gather kernel.
#[derive(Clone, Copy, Debug, PartialEq, Eq, Structural)]
pub enum MojoKernel {
    Take1ByteU8Idx,
    Take1ByteU16Idx,
    Take1ByteU32Idx,
    Take1ByteU64Idx,
    Take2ByteU8Idx,
    Take2ByteU16Idx,
    Take2ByteU32Idx,
    Take2ByteU64Idx,
    Take4ByteU8Idx,
    Take4ByteU16Idx,
    Take4ByteU32Idx,
    Take4ByteU64Idx,
    Take8ByteU8Idx,
    Take8ByteU16Idx,
    Take8ByteU32Idx,
    Take8ByteU64Idx,
}

impl MojoKernel {
    /// The width of a value in bytes, and the type of an index.
    pub open spec fn serves(self) -> (int, PType) {
        match self {
            MojoKernel::Take1ByteU8Idx => (1, PType::U8),
            MojoKernel::Take1ByteU16Idx => (1, PType::U16),
            MojoKernel::Take1ByteU32Idx => (1, PType::U32),
            MojoKernel::Take1ByteU64Idx => (1, PType::U64),
            MojoKernel::Take2ByteU8Idx => (2, PType::U8),
            MojoKernel::Take2ByteU16Idx => (2, PType::U16),
            MojoKernel::Take2ByteU32Idx => (2, PType::U32),
            MojoKernel::Take2ByteU64Idx => (2, PType::U64),
            MojoKernel::Take4ByteU8Idx => (4, PType::U8),
            MojoKernel::Take4ByteU16Idx => (4, PType::U16),
            MojoKernel::Take4ByteU32Idx => (4, PType::U32),
            MojoKernel::Take4ByteU64Idx => (4, PType::U64),
            MojoKernel::Take8ByteU8Idx => (8, PType::U8),
            MojoKernel::Take8ByteU16Idx => (8, PType::U16),
            MojoKernel::Take8ByteU32Idx => (8, PType::U32),
            MojoKernel::Take8ByteU64Idx => (8, PType::U64),
        }
    }
}

/// There is one kernel for each width of a value and each type of index, whatever else the values
/// are.
pub proof fn lemma_one_kernel(left: MojoKernel, right: MojoKernel)
    requires
        left.serves() == right.serves(),
    ensures
        left == right,
{
}

/// Each kernel is for values of the width and indices of the type that it is called after, and for
/// no others.
pub proof fn lemma_kernels(kernel: MojoKernel)
    ensures
        MojoKernel::Take1ByteU8Idx.serves() == (1int, PType::U8),
        MojoKernel::Take1ByteU16Idx.serves() == (1int, PType::U16),
        MojoKernel::Take1ByteU32Idx.serves() == (1int, PType::U32),
        MojoKernel::Take1ByteU64Idx.serves() == (1int, PType::U64),
        MojoKernel::Take2ByteU8Idx.serves() == (2int, PType::U8),
        MojoKernel::Take2ByteU16Idx.serves() == (2int, PType::U16),
        MojoKernel::Take2ByteU32Idx.serves() == (2int, PType::U32),
        MojoKernel::Take2ByteU64Idx.serves() == (2int, PType::U64),
        MojoKernel::Take4ByteU8Idx.serves() == (4int, PType::U8),
        MojoKernel::Take4ByteU16Idx.serves() == (4int, PType::U16),
        MojoKernel::Take4ByteU32Idx.serves() == (4int, PType::U32),
        MojoKernel::Take4ByteU64Idx.serves() == (4int, PType::U64),
        MojoKernel::Take8ByteU8Idx.serves() == (8int, PType::U8),
        MojoKernel::Take8ByteU16Idx.serves() == (8int, PType::U16),
        MojoKernel::Take8ByteU32Idx.serves() == (8int, PType::U32),
        MojoKernel::Take8ByteU64Idx.serves() == (8int, PType::U64),
        kernel.serves().0 == 1 || kernel.serves().0 == 2 || kernel.serves().0 == 4
            || kernel.serves().0 == 8,
        kernel.serves().1 is U8 || kernel.serves().1 is U16 || kernel.serves().1 is U32
            || kernel.serves().1 is U64,
        kernel is Take1ByteU8Idx || kernel is Take1ByteU16Idx || kernel is Take1ByteU32Idx
            || kernel is Take1ByteU64Idx <==> kernel.serves().0 == 1,
        kernel is Take2ByteU8Idx || kernel is Take2ByteU16Idx || kernel is Take2ByteU32Idx
            || kernel is Take2ByteU64Idx <==> kernel.serves().0 == 2,
        kernel is Take4ByteU8Idx || kernel is Take4ByteU16Idx || kernel is Take4ByteU32Idx
            || kernel is Take4ByteU64Idx <==> kernel.serves().0 == 4,
        kernel is Take8ByteU8Idx || kernel is Take8ByteU16Idx || kernel is Take8ByteU32Idx
            || kernel is Take8ByteU64Idx <==> kernel.serves().0 == 8,
        kernel is Take1ByteU8Idx || kernel is Take2ByteU8Idx || kernel is Take4ByteU8Idx
            || kernel is Take8ByteU8Idx <==> kernel.serves().1 is U8,
        kernel is Take1ByteU16Idx || kernel is Take2ByteU16Idx || kernel is Take4ByteU16Idx
            || kernel is Take8ByteU16Idx <==> kernel.serves().1 is U16,
        kernel is Take1ByteU32Idx || kernel is Take2ByteU32Idx || kernel is Take4ByteU32Idx
            || kernel is Take8ByteU32Idx <==> kernel.serves().1 is U32,
        kernel is Take1ByteU64Idx || kernel is Take2ByteU64Idx || kernel is Take4ByteU64Idx
            || kernel is Take8ByteU64Idx <==> kernel.serves().1 is U64,
{
}

/// Types are as wide as the values that they stand for are in memory; floats are as wide as the
/// integers of their bit patterns.
pub proof fn lemma_value_widths()
    ensures
        u8::ptype_spec().byte_width_spec() == vstd::layout::size_of::<u8>(),
        u16::ptype_spec().byte_width_spec() == vstd::layout::size_of::<u16>(),
        u32::ptype_spec().byte_width_spec() == vstd::layout::size_of::<u32>(),
        u64::ptype_spec().byte_width_spec() == vstd::layout::size_of::<u64>(),
        i8::ptype_spec().byte_width_spec() == vstd::layout::size_of::<i8>(),
        i16::ptype_spec().byte_width_spec() == vstd::layout::size_of::<i16>(),
        i32::ptype_spec().byte_width_spec() == vstd::layout::size_of::<i32>(),
        i64::ptype_spec().byte_width_spec() == vstd::layout::size_of::<i64>(),
        F16::ptype_spec().byte_width_spec() == vstd::layout::size_of::<u16>(),
        F32::ptype_spec().byte_width_spec() == vstd::layout::size_of::<u32>(),
        F64::ptype_spec().byte_width_spec() == vstd::layout::size_of::<u64>(),
{
    broadcast use vstd::layout::layout_of_primitives;

}

/// The kernel for values of the given width and indices of the given type; `None` if there is
/// none.
pub fn mojo_kernel(value_width: usize, index: PType) -> (r: Option<MojoKernel>)
    ensures
        r matches Some(kernel) ==> kernel.serves() == (value_width as int, index),
        value_width == 1 && index is U8 ==> r == Some(MojoKernel::Take1ByteU8Idx),
        value_width == 1 && index is U16 ==> r == Some(MojoKernel::Take1ByteU16Idx),
        value_width == 1 && index is U32 ==> r == Some(MojoKernel::Take1ByteU32Idx),
        value_width == 1 && index is U64 ==> r == Some(MojoKernel::Take1ByteU64Idx),
        value_width == 2 && index is U8 ==> r == Some(MojoKernel::Take2ByteU8Idx),
        value_width == 2 && index is U16 ==> r == Some(MojoKernel::Take2ByteU16Idx),
        value_width == 2 && index is U32 ==> r == Some(MojoKernel::Take2ByteU32Idx),
        value_width == 2 && index is U64 ==> r == Some(MojoKernel::Take2ByteU64Idx),
        value_width == 4 && index is U8 ==> r == Some(MojoKernel::Take4ByteU8Idx),
        value_width == 4 && index is U16 ==> r == Some(MojoKernel::Take4ByteU16Idx),
        value_width == 4 && index is U32 ==> r == Some(MojoKernel::Take4ByteU32Idx),
        value_width == 4 && index is U64 ==> r == Some(MojoKernel::Take4ByteU64Idx),
        value_width == 8 && index is U8 ==> r == Some(MojoKernel::Take8ByteU8Idx),
        value_width == 8 && index is U16 ==> r == Some(MojoKernel::Take8ByteU16Idx),
        value_width == 8 && index is U32 ==> r == Some(MojoKernel::Take8ByteU32Idx),
        value_width == 8 && index is U64 ==> r == Some(MojoKernel::Take8ByteU64Idx),
        r is Some <==> (value_width == 1 || value_width == 2 || value_width == 4 || value_width
            == 8) && index.is_unsigned_int_spec(),
{
    match (value_width, index) {
        (1, PType::U8) => Some(MojoKernel::Take1ByteU8Idx),
        (1, PType::U16) => Some(MojoKernel::Take1ByteU16Idx),
        (1, PType::U32) => Some(MojoKernel::Take1ByteU32Idx),
        (1, PType::U64) => Some(MojoKernel::Take1ByteU64Idx),
        (2, PType::U8) => Some(MojoKernel::Take2ByteU8Idx),
        (2, PType::U16) => Some(MojoKernel::Take2ByteU16Idx),
        (2, PType::U32) => Some(MojoKernel::Take2ByteU32Idx),
        (2, PType::U64) => Some(MojoKernel::Take2ByteU64Idx),
        (4, PType::U8) => Some(MojoKernel::Take4ByteU8Idx),
        (4, PType::U16) => Some(MojoKernel::Take4ByteU16Idx),
        (4, PType::U32) => Some(MojoKernel::Take4ByteU32Idx),
        (4, PType::U64) => Some(MojoKernel::Take4ByteU64Idx),
        (8, PType::U8) => Some(MojoKernel::Take8ByteU8Idx),
        (8, PType::U16) => Some(MojoKernel::Take8ByteU16Idx),
        (8, PType::U32) => Some(MojoKernel::Take8ByteU32Idx),
        (8, PType::U64) => Some(MojoKernel::Take8ByteU64Idx),
        _ => None,
    }
}

/// The kernel for values and indices of the given types.
pub fn kernel_for(value: PType, index: PType) -> (r: MojoKernel)
    requires
        index.is_unsigned_int_spec(),
    ensures
        r.serves() == (value.byte_width_spec() as int, index),
{
    match mojo_kernel(value.byte_width(), index) {
        Some(kernel) => kernel,
        None => vstd::pervasive::unreached(),
    }
}

/// Every index lies within the values.
pub open spec fn indices_within<I: IntegerPType>(indices: Seq<I>, len: nat) -> bool {
    forall|i: int| 0 <= i < indices.len() ==> 0 <= (#[trigger] indices[i]).as_int() < len
}

/// The value at each index.
pub open spec fn gathered_values<V, I: IntegerPType>(values: Seq<V>, indices: Seq<I>) -> Seq<V> {
    indices.map_values(|i: I| values[i.as_int()])
}

/// Gathering gives one value for each index, in the order of the indices: the value at that index.
pub proof fn lemma_gathered_values<V, I: IntegerPType>(values: Seq<V>, indices: Seq<I>, i: int)
    requires
        0 <= i < indices.len(),
    ensures
        gathered_values(values, indices).len() == indices.len(),
        gathered_values(values, indices)[i] == values[indices[i].as_int()],
{
}

/// Gathers the value at each index.
pub fn take_mojo<V: NativePType, I: IntegerPType>(values: &[V], indices: &[I]) -> (r: Vec<V>)
    requires
        indices_within(indices@, values@.len()),
    ensures
        r@ == gathered_values(values@, indices@),
        r@.len() == indices@.len(),
        forall|i: int|
            0 <= i < indices@.len() ==> #[trigger] r@[i] == values@[indices@[i].as_int()],
{
    let mut out: Vec<V> = Vec::with_capacity(indices.len());
    let mut i: usize = 0;
    while i < indices.len()
        invariant
            indices_within(indices@, values@.len()),
            i <= indices@.len(),
            out@ == gathered_values(values@, indices@.take(i as int)),
        decreases indices@.len() - i,
    {
        assert(0 <= indices@[i as int].as_int() < values@.len());
        assert(values@.len() == values.len());
        match indices[i].to_usize() {
            Some(k) => out.push(values[k]),
            None => {
                assert(false);
            },
        }
        i = i + 1;
        assert(out@ =~= gathered_values(values@, indices@.take(i as int)));
    }
    assert(indices@.take(i as int) =~= indices@);
    out
}

/// Every index value lies within the values.
pub open spec fn index_values_within(indices: Seq<PValue>, len: nat) -> bool {
    forall|i: int|
        0 <= i < indices.len() ==> (#[trigger] indices[i]).as_int() is Some && 0
            <= indices[i].as_int()->0 < len
}

/// The array of the values at each index, under the given validity.
pub open spec fn is_gathered(
    array: PrimitiveArray,
    indices: PrimitiveArray,
    validity: Validity,
    out: ArrayRef,
) -> bool {
    &&& out.wf()
    &&& without_stats(out)
    &&& out.inner.data matches ArrayData::Primitive(taken)
    &&& taken.validity == validity
    &&& taken.buffer.ptype_spec() == array.buffer.ptype_spec()
    &&& taken.buffer.pvalues() == indices.buffer.pvalues().map_values(
        |i: PValue| array.buffer.pvalues()[i.as_int()->0],
    )
}

fn take_typed<V: NativePType, I: IntegerPType>(
    array: &PrimitiveArray,
    indices: &PrimitiveArray,
    validity: Validity,
) -> (r: ArrayRef)
    requires
        array.buffer.ptype_spec() == V::ptype_spec(),
        indices.buffer.ptype_spec() == I::ptype_spec(),
        index_values_within(indices.buffer.pvalues(), array.buffer.pvalues().len()),
        validity.wf(indices.buffer.pvalues().len()),
    ensures
        is_gathered(*array, *indices, validity, r),
{
    let values = array.as_slice::<V>();
    let codes = indices.as_slice::<I>();
    proof {
        assert(pvalues_of(values@).len() == values@.len());
        assert(pvalues_of(codes@).len() == codes@.len());
        assert forall|i: int| 0 <= i < codes@.len() implies 0 <= (#[trigger] codes@[i]).as_int()
            < values@.len() by {
            codes@[i].lemma_tagged();
            assert(pvalues_of(codes@)[i] == codes@[i].pvalue());
            assert(indices.buffer.pvalues()[i].as_int() is Some);
        }
    }
    let taken = take_mojo(values, codes);
    let r = PrimitiveArray::new(taken, validity).into_array();
    proof {
        let expected = indices.buffer.pvalues().map_values(
            |i: PValue| array.buffer.pvalues()[i.as_int()->0],
        );
        assert forall|i: int| 0 <= i < expected.len() implies #[trigger] expected[i] == pvalues_of(
            taken@,
        )[i] by {
            codes@[i].lemma_tagged();
            assert(pvalues_of(codes@)[i] == codes@[i].pvalue());
            assert(pvalues_of(values@)[codes@[i].as_int()] == values@[codes@[i].as_int()].pvalue());
        }
        assert(pvalues_of(taken@) =~= expected);
    }
    r
}

fn take_by_index<V: NativePType>(
    array: &PrimitiveArray,
    indices: &PrimitiveArray,
    validity: Validity,
) -> (r: ArrayRef)
    requires
        array.buffer.ptype_spec() == V::ptype_spec(),
        indices.buffer.ptype_spec().is_unsigned_int_spec(),
        index_values_within(indices.buffer.pvalues(), array.buffer.pvalues().len()),
        validity.wf(indices.buffer.pvalues().len()),
    ensures
        is_gathered(*array, *indices, validity, r),
{
    match indices.buffer.ptype() {
        PType::U8 => take_typed::<V, u8>(array, indices, validity),
        PType::U16 => take_typed::<V, u16>(array, indices, validity),
        PType::U32 => take_typed::<V, u32>(array, indices, validity),
        PType::U64 => take_typed::<V, u64>(array, indices, validity),
        _ => vstd::pervasive::unreached(),
    }
}

/// Takes primitive values by unsigned indices.
#[derive(Clone, Copy, Debug, PartialEq, Eq, Structural)]
pub struct TakeKernelMojo;

impl TakeKernelMojo {
    /// The array of the values at each index, under the given validity.
    ///
    /// Indices are not checked, those of null rows included.
    pub fn take(
        &self,
        array: ArrayView<'_, Primitive>,
        indices: ArrayView<'_, Primitive>,
        validity: Validity,
    ) -> (r: VortexResult<ArrayRef>)
        requires
            array.wf(),
            indices.wf(),
            indices.array_spec().primitive_spec().buffer.ptype_spec().is_unsigned_int_spec(),
            index_values_within(
                indices.array_spec().primitive_spec().buffer.pvalues(),
                array.array_spec().primitive_spec().buffer.pvalues().len(),
            ),
            validity.wf(indices.array_spec().primitive_spec().buffer.pvalues().len()),
        ensures
            r matches Ok(out) && is_gathered(
                array.array_spec().primitive_spec(),
                indices.array_spec().primitive_spec(),
                validity,
                out,
            ),
    {
        proof {
            array.lemma_view_data();
            indices.lemma_view_data();
        }
        let values = array.data();
        let codes = indices.data();
        let taken = match values.buffer.ptype() {
            PType::U8 => take_by_index::<u8>(values, codes, validity),
            PType::U16 => take_by_index::<u16>(values, codes, validity),
            PType::U32 => take_by_index::<u32>(values, codes, validity),
            PType::U64 => take_by_index::<u64>(values, codes, validity),
            PType::I8 => take_by_index::<i8>(values, codes, validity),
            PType::I16 => take_by_index::<i16>(values, codes, validity),
            PType::I32 => take_by_index::<i32>(values, codes, validity),
            PType::I64 => take_by_index::<i64>(values, codes, validity),
            PType::F16 => take_by_index::<F16>(values, codes, validity),
            PType::F32 => take_by_index::<F32>(values, codes, validity),
            PType::F64 => take_by_index::<F64>(values, codes, validity),
        };
        Ok(taken)
    }
}

impl ArrayRef {
    /// The values of a primitive array.
    pub open spec fn primitive_spec(self) -> PrimitiveArray {
        self.inner.data->Primitive_0
    }
}

/// If a taken row is null exactly where its index is null or the row that it was taken from is,
/// the gathered array has the rows that the indices select.
pub proof fn lemma_gathered_rows(
    array: &PrimitiveArray,
    indices: &PrimitiveArray,
    validity: Validity,
    out: &ArrayRef,
)
    requires
        index_values_within(indices.buffer.pvalues(), array.buffer.pvalues().len()),
        is_gathered(*array, *indices, validity, *out),
        forall|i: int|
            0 <= i < indices.buffer.pvalues().len() ==> #[trigger] validity.valid_at(i) == (
            indices.validity.valid_at(i) && array.validity.valid_at(
                indices.buffer.pvalues()[i].as_int()->0,
            )),
    ensures
        out.rows() == taken_rows(row_indices(indices.rows()), array.rows()),
{
    let ranks = row_indices(indices.rows());
    assert forall|i: int| 0 <= i < ranks.len() implies #[trigger] out.rows()[i] == taken_rows(
        ranks,
        array.rows(),
    )[i] by {
        assert(ranks[i] == row_index(indices.rows()[i]));
        assert(taken_rows(ranks, array.rows())[i] == taken_row(ranks[i], array.rows()));
        assert(indices.buffer.pvalues()[i].as_int() is Some);
        assert(validity.valid_at(i) == (indices.validity.valid_at(i) && array.validity.valid_at(
            indices.buffer.pvalues()[i].as_int()->0,
        )));
    }
    assert(out.rows() =~= taken_rows(ranks, array.rows()));
}

/// What a take gives: value `i` is the value at index `i`, of the same type, and null exactly where
/// the validity says so.
pub proof fn lemma_taken_value(
    array: PrimitiveArray,
    indices: PrimitiveArray,
    validity: Validity,
    out: ArrayRef,
    i: int,
)
    requires
        is_gathered(array, indices, validity, out),
        0 <= i < indices.buffer.pvalues().len(),
        indices.buffer.pvalues()[i].as_int() is Some,
    ensures
        out.wf(),
        out.rows().len() == indices.buffer.pvalues().len(),
        validity.valid_at(i) ==> out.rows()[i] == Some(
            ScalarValue::Primitive(
                array.buffer.pvalues()[indices.buffer.pvalues()[i].as_int()->0],
            ),
        ),
        !validity.valid_at(i) ==> out.rows()[i] is None,
        out.dtype_spec() == DType::Primitive(array.buffer.ptype_spec(), validity.nullability_spec()),
{
}

} // verus!
