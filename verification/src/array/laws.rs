//! The rows that arrays stand for.

use vstd::prelude::*;

use super::vtable::{Bool, Constant, Decimal, Dict, Filter, Primitive, Rows, Slice, VTable};
use super::{ArrayData, ArrayId, ArrayRef};
use crate::arrays::decimal::{DecimalBuffer, NativeDecimalType};
use crate::arrays::primitive::{NativePType, PrimitiveBuffer};
use crate::dtype::DType;
use crate::mask::{count_true, lemma_selected};
use crate::native::{FixedWidth, F16, F32, F64, I256};
use crate::scalar::{row_fits, DecimalValue, PValue, Row, ScalarValue};

verus! {

/// Row `i` of a dictionary is the value that code `i` counts up to from the first one, and null if
/// the code is null.
pub proof fn lemma_dict_row(array: &ArrayRef, i: int)
    requires
        array.wf(),
        array.id_spec() == ArrayId::Dict,
        0 <= i < array.len_spec(),
    ensures
        array.rows().len() == array.slot(0).rows().len(),
        array.slot(0).rows()[i] is None ==> array.rows()[i] is None,
        array.slot(0).rows()[i] matches Some(code) ==> {
            &&& code is Primitive
            &&& code->Primitive_0.as_int() matches Some(k)
            &&& 0 <= k < array.slot(1).rows().len()
            &&& array.rows()[i] == array.slot(1).rows()[k]
        },
{
    let codes = array.slot(0);
    let values = array.slot(1);
    ArrayRef::lemma_rows(array);
    ArrayRef::lemma_rows(&codes);
    assert(row_fits(codes.rows()[i], codes.dtype_spec()));
    assert(super::row_indices(codes.rows())[i] == super::row_index(codes.rows()[i]));
}

/// A dictionary has the type of its values, and is nullable if its values or its codes are.
pub proof fn lemma_dict_type(array: &ArrayRef)
    requires
        array.wf(),
        array.id_spec() == ArrayId::Dict,
    ensures
        array.len_spec() == array.slot(0).len_spec(),
        array.dtype_spec().nullability_spec() is Nullable
            <==> array.slot(0).dtype_spec().nullability_spec() is Nullable
            || array.slot(1).dtype_spec().nullability_spec() is Nullable,
        array.dtype_spec().with_nullability_spec(array.slot(1).dtype_spec().nullability_spec())
            == array.slot(1).dtype_spec(),
{
}

/// A filtered array has the rows at the true bits of its mask and no others. The row at a true bit
/// comes behind as many rows as there are true bits before it.
pub proof fn lemma_filter_row(array: &ArrayRef, p: int)
    requires
        array.wf(),
        array.id_spec() == ArrayId::Filter,
        0 <= p < array.slot(0).len_spec(),
        array.filter_mask_spec()@[p],
    ensures
        array.rows().len() == count_true(array.filter_mask_spec()@),
        count_true(array.filter_mask_spec()@.take(p)) < array.rows().len(),
        array.rows()[count_true(array.filter_mask_spec()@.take(p)) as int]
            == array.slot(0).rows()[p],
{
    ArrayRef::lemma_rows(array);
    lemma_selected(array.slot(0).rows(), array.filter_mask_spec()@, p);
}

/// Row `i` of a slice is as many rows behind the start of the slice.
pub proof fn lemma_slice_row(array: &ArrayRef, i: int)
    requires
        array.wf(),
        array.id_spec() == ArrayId::Slice,
        0 <= i < array.len_spec(),
    ensures
        ({
            let range = array.inner.data->Slice_0.range;
            &&& array.rows().len() == range.end - range.start
            &&& array.rows()[i] == array.slot(0).rows()[range.start + i]
        }),
{
    let child = array.slot(0);
    ArrayRef::lemma_rows(array);
    ArrayRef::lemma_rows(&child);
}

/// Every row of a constant array is the constant.
pub proof fn lemma_constant_row(array: &ArrayRef, i: int)
    requires
        array.wf(),
        array.id_spec() == ArrayId::Constant,
        0 <= i < array.len_spec(),
    ensures
        array.rows()[i] == array.constant_spec(),
        array.inner.data matches ArrayData::Constant(a) && array.constant_spec() == a.scalar,
{
}

/// Row `i` of an array that holds its values is value `i`, and null exactly where the validity says
/// so.
pub proof fn lemma_held_row(array: &ArrayRef, i: int)
    requires
        array.wf(),
        0 <= i < array.len_spec(),
    ensures
        array.inner.data matches ArrayData::Bool(a) ==> array.rows()[i] == (
        if a.validity.valid_at(i) {
            Some(ScalarValue::Bool(a.bits@[i]))
        } else {
            None::<ScalarValue>
        }),
        array.inner.data matches ArrayData::Primitive(a) ==> array.rows()[i] == (
        if a.validity.valid_at(i) {
            Some(ScalarValue::Primitive(a.buffer.pvalues()[i]))
        } else {
            None::<ScalarValue>
        }),
        array.inner.data matches ArrayData::Decimal(a) ==> array.rows()[i] == (
        if a.validity.valid_at(i) {
            Some(ScalarValue::Decimal(a.buffer.decimals()[i]))
        } else {
            None::<ScalarValue>
        }),
        array.inner.data matches ArrayData::Rows(a) ==> array.rows()[i] == a.rows@[i],
{
}

/// Value `i` of a primitive array is value `i` of its buffer.
pub proof fn lemma_primitive_value(buffer: PrimitiveBuffer, i: int)
    requires
        0 <= i < buffer.pvalues().len(),
    ensures
        buffer.pvalues()[i].ptype_spec() == buffer.ptype_spec(),
        buffer matches PrimitiveBuffer::U8(v) ==> buffer.pvalues()[i] == PValue::U8(v@[i]),
        buffer matches PrimitiveBuffer::U16(v) ==> buffer.pvalues()[i] == PValue::U16(v@[i]),
        buffer matches PrimitiveBuffer::U32(v) ==> buffer.pvalues()[i] == PValue::U32(v@[i]),
        buffer matches PrimitiveBuffer::U64(v) ==> buffer.pvalues()[i] == PValue::U64(v@[i]),
        buffer matches PrimitiveBuffer::I8(v) ==> buffer.pvalues()[i] == PValue::I8(v@[i]),
        buffer matches PrimitiveBuffer::I16(v) ==> buffer.pvalues()[i] == PValue::I16(v@[i]),
        buffer matches PrimitiveBuffer::I32(v) ==> buffer.pvalues()[i] == PValue::I32(v@[i]),
        buffer matches PrimitiveBuffer::I64(v) ==> buffer.pvalues()[i] == PValue::I64(v@[i]),
        buffer matches PrimitiveBuffer::F16(v) ==> buffer.pvalues()[i] == PValue::F16(v@[i]),
        buffer matches PrimitiveBuffer::F32(v) ==> buffer.pvalues()[i] == PValue::F32(v@[i]),
        buffer matches PrimitiveBuffer::F64(v) ==> buffer.pvalues()[i] == PValue::F64(v@[i]),
{
}

/// Value `i` of a decimal array is value `i` of its buffer.
pub proof fn lemma_decimal_value(buffer: DecimalBuffer, i: int)
    requires
        0 <= i < buffer.decimals().len(),
    ensures
        buffer matches DecimalBuffer::I8(v) ==> buffer.decimals()[i] == DecimalValue::I8(v@[i]),
        buffer matches DecimalBuffer::I16(v) ==> buffer.decimals()[i] == DecimalValue::I16(v@[i]),
        buffer matches DecimalBuffer::I32(v) ==> buffer.decimals()[i] == DecimalValue::I32(v@[i]),
        buffer matches DecimalBuffer::I64(v) ==> buffer.decimals()[i] == DecimalValue::I64(v@[i]),
        buffer matches DecimalBuffer::I128(v) ==> buffer.decimals()[i] == DecimalValue::I128(v@[i]),
        buffer matches DecimalBuffer::I256(v) ==> buffer.decimals()[i] == DecimalValue::I256(v@[i]),
{
}

/// Taking rows gives one row for each index: the row at the index, and null for a null index.
pub proof fn lemma_taken_row(indices: Seq<Option<int>>, values: Seq<Row>, i: int)
    requires
        0 <= i < indices.len(),
    ensures
        super::taken_rows(indices, values).len() == indices.len(),
        indices[i] is None ==> super::taken_rows(indices, values)[i] is None,
        indices[i] matches Some(k) ==> super::taken_rows(indices, values)[i] == values[k],
{
}

/// The indices that rows stand for are the integers in them, and none for rows that hold no integer.
pub proof fn lemma_row_index(rows: Seq<Row>, i: int)
    requires
        0 <= i < rows.len(),
    ensures
        super::row_indices(rows).len() == rows.len(),
        rows[i] is None ==> super::row_indices(rows)[i] is None,
        rows[i] matches Some(ScalarValue::Primitive(value)) ==> super::row_indices(rows)[i]
            == value.as_int(),
        rows[i] matches Some(value) ==> (!(value is Primitive) ==> super::row_indices(rows)[i]
            is None),
{
}

/// An array is known to have no nulls as far as its validity, its constant or its type says so, and
/// one that is put together from others if all of them are.
pub proof fn lemma_no_nulls(array: &ArrayRef)
    requires
        array.wf(),
    ensures
        array.inner.data matches ArrayData::Bool(a) ==> array.no_nulls_spec()
            == a.validity.no_nulls_spec(),
        array.inner.data matches ArrayData::Primitive(a) ==> array.no_nulls_spec()
            == a.validity.no_nulls_spec(),
        array.inner.data matches ArrayData::Decimal(a) ==> array.no_nulls_spec()
            == a.validity.no_nulls_spec(),
        array.inner.data matches ArrayData::Constant(a) ==> array.no_nulls_spec()
            == a.scalar is Some,
        array.inner.data is Rows ==> array.no_nulls_spec()
            == array.dtype_spec().nullability_spec() is NonNullable,
        array.inner.data is Dict ==> array.no_nulls_spec() == (array.slot(0).no_nulls_spec()
            && array.slot(1).no_nulls_spec()),
        array.inner.data is Filter || array.inner.data is Slice ==> array.no_nulls_spec()
            == array.slot(0).no_nulls_spec(),
{
}

/// Every encoding has its own name, and data bears the name of the encoding that it belongs to.
pub proof fn lemma_encoding_names(data: ArrayData)
    ensures
        data is Bool <==> data.id_spec() is Bool,
        data is Constant <==> data.id_spec() is Constant,
        data is Decimal <==> data.id_spec() is Decimal,
        data is Dict <==> data.id_spec() is Dict,
        data is Filter <==> data.id_spec() is Filter,
        data is Primitive <==> data.id_spec() is Primitive,
        data is Rows <==> data.id_spec() is Rows,
        data is Slice <==> data.id_spec() is Slice,
        Bool::id_spec() is Bool && Constant::id_spec() is Constant,
        Decimal::id_spec() is Decimal && Dict::id_spec() is Dict,
        Filter::id_spec() is Filter && Primitive::id_spec() is Primitive,
        Rows::id_spec() is Rows && Slice::id_spec() is Slice,
        data matches ArrayData::Bool(a) ==> Bool::typed(data) == Some(a),
        data matches ArrayData::Constant(a) ==> Constant::typed(data) == Some(a),
        data matches ArrayData::Decimal(a) ==> Decimal::typed(data) == Some(a),
        data matches ArrayData::Dict(a) ==> Dict::typed(data) == Some(a),
        data matches ArrayData::Filter(a) ==> Filter::typed(data) == Some(a),
        data matches ArrayData::Primitive(a) ==> Primitive::typed(data) == Some(a),
        data matches ArrayData::Rows(a) ==> Rows::typed(data) == Some(a),
        data matches ArrayData::Slice(a) ==> Slice::typed(data) == Some(a),
{
}

/// Values are tagged with the type that they have, and the value does not change.
pub proof fn lemma_tagged_values(
    unsigned: (u8, u16, u32, u64),
    signed: (i8, i16, i32, i64),
    floats: (F16, F32, F64),
    wide: (i128, I256),
)
    ensures
        u8::ptype_spec() is U8 && unsigned.0.pvalue() == PValue::U8(unsigned.0),
        u16::ptype_spec() is U16 && unsigned.1.pvalue() == PValue::U16(unsigned.1),
        u32::ptype_spec() is U32 && unsigned.2.pvalue() == PValue::U32(unsigned.2),
        u64::ptype_spec() is U64 && unsigned.3.pvalue() == PValue::U64(unsigned.3),
        i8::ptype_spec() is I8 && signed.0.pvalue() == PValue::I8(signed.0),
        i16::ptype_spec() is I16 && signed.1.pvalue() == PValue::I16(signed.1),
        i32::ptype_spec() is I32 && signed.2.pvalue() == PValue::I32(signed.2),
        i64::ptype_spec() is I64 && signed.3.pvalue() == PValue::I64(signed.3),
        F16::ptype_spec() is F16 && floats.0.pvalue() == PValue::F16(floats.0),
        F32::ptype_spec() is F32 && floats.1.pvalue() == PValue::F32(floats.1),
        F64::ptype_spec() is F64 && floats.2.pvalue() == PValue::F64(floats.2),
        i8::decimal_type_spec() is I8 && signed.0.decimal() == DecimalValue::I8(signed.0),
        i16::decimal_type_spec() is I16 && signed.1.decimal() == DecimalValue::I16(signed.1),
        i32::decimal_type_spec() is I32 && signed.2.decimal() == DecimalValue::I32(signed.2),
        i64::decimal_type_spec() is I64 && signed.3.decimal() == DecimalValue::I64(signed.3),
        i128::decimal_type_spec() is I128 && wide.0.decimal() == DecimalValue::I128(wide.0),
        I256::decimal_type_spec() is I256 && wide.1.decimal() == DecimalValue::I256(wide.1),
        F16::zero_value().bits == 0 && F32::zero_value().bits == 0 && F64::zero_value().bits == 0,
        i128::zero_value() == 0 && I256::zero_value().high == 0 && I256::zero_value().low == 0,
{
}

/// The type of a value and that of a buffer are what they are tagged with.
pub proof fn lemma_types(value: PValue, buffer: PrimitiveBuffer, decimals: DecimalBuffer)
    ensures
        value is U8 <==> value.ptype_spec() is U8,
        value is U16 <==> value.ptype_spec() is U16,
        value is U32 <==> value.ptype_spec() is U32,
        value is U64 <==> value.ptype_spec() is U64,
        value is I8 <==> value.ptype_spec() is I8,
        value is I16 <==> value.ptype_spec() is I16,
        value is I32 <==> value.ptype_spec() is I32,
        value is I64 <==> value.ptype_spec() is I64,
        value is F16 <==> value.ptype_spec() is F16,
        value is F32 <==> value.ptype_spec() is F32,
        value is F64 <==> value.ptype_spec() is F64,
        buffer is U8 <==> buffer.ptype_spec() is U8,
        buffer is U16 <==> buffer.ptype_spec() is U16,
        buffer is U32 <==> buffer.ptype_spec() is U32,
        buffer is U64 <==> buffer.ptype_spec() is U64,
        buffer is I8 <==> buffer.ptype_spec() is I8,
        buffer is I16 <==> buffer.ptype_spec() is I16,
        buffer is I32 <==> buffer.ptype_spec() is I32,
        buffer is I64 <==> buffer.ptype_spec() is I64,
        buffer is F16 <==> buffer.ptype_spec() is F16,
        buffer is F32 <==> buffer.ptype_spec() is F32,
        buffer is F64 <==> buffer.ptype_spec() is F64,
        decimals is I8 <==> decimals.values_type_spec() is I8,
        decimals is I16 <==> decimals.values_type_spec() is I16,
        decimals is I32 <==> decimals.values_type_spec() is I32,
        decimals is I64 <==> decimals.values_type_spec() is I64,
        decimals is I128 <==> decimals.values_type_spec() is I128,
        decimals is I256 <==> decimals.values_type_spec() is I256,
{
}

/// A row may stand in an array if it is null and the type is nullable, or if it is a value of the
/// kind that the type says.
pub proof fn lemma_row_fits(row: Row, dtype: DType)
    ensures
        row is None ==> (row_fits(row, dtype) <==> dtype.nullability_spec() is Nullable),
        row matches Some(value) ==> {
            &&& dtype is Bool ==> (row_fits(row, dtype) <==> value is Bool)
            &&& dtype matches DType::Primitive(ptype, _) ==> (row_fits(row, dtype) <==> (
            value matches ScalarValue::Primitive(p) && p.ptype_spec() == ptype))
            &&& dtype is Decimal ==> (row_fits(row, dtype) <==> value is Decimal)
            &&& dtype is Utf8 ==> (row_fits(row, dtype) <==> value is Utf8)
            &&& dtype is Binary ==> (row_fits(row, dtype) <==> value is Binary)
            &&& dtype is Null ==> !row_fits(row, dtype)
        },
{
}

} // verus!
