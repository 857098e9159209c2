//! Arrays of decimal values.

use vstd::prelude::*;

use crate::dtype::{DType, DecimalDType};
use crate::native::{FixedWidth, I256};
use crate::scalar::{row_fits, DecimalValue, Row, ScalarValue};
use crate::validity::Validity;

verus! {

/// The physical types of unscaled decimal values.
#[derive(Clone, Copy, Debug, PartialEq, Eq, Structural)]
pub enum DecimalType {
    I8,
    I16,
    I32,
    I64,
    I128,
    I256,
}

/// The unscaled values of a decimal array.
pub enum DecimalBuffer {
    I8(Vec<i8>),
    I16(Vec<i16>),
    I32(Vec<i32>),
    I64(Vec<i64>),
    I128(Vec<i128>),
    I256(Vec<I256>),
}

impl DecimalBuffer {
    /// The values, each tagged with its physical type.
    pub open spec fn decimals(self) -> Seq<DecimalValue> {
        match self {
            DecimalBuffer::I8(values) => values@.map_values(|v: i8| DecimalValue::I8(v)),
            DecimalBuffer::I16(values) => values@.map_values(|v: i16| DecimalValue::I16(v)),
            DecimalBuffer::I32(values) => values@.map_values(|v: i32| DecimalValue::I32(v)),
            DecimalBuffer::I64(values) => values@.map_values(|v: i64| DecimalValue::I64(v)),
            DecimalBuffer::I128(values) => values@.map_values(|v: i128| DecimalValue::I128(v)),
            DecimalBuffer::I256(values) => values@.map_values(|v: I256| DecimalValue::I256(v)),
        }
    }

    pub open spec fn values_type_spec(self) -> DecimalType {
        match self {
            DecimalBuffer::I8(_) => DecimalType::I8,
            DecimalBuffer::I16(_) => DecimalType::I16,
            DecimalBuffer::I32(_) => DecimalType::I32,
            DecimalBuffer::I64(_) => DecimalType::I64,
            DecimalBuffer::I128(_) => DecimalType::I128,
            DecimalBuffer::I256(_) => DecimalType::I256,
        }
    }

    /// The physical type of the values.
    pub fn values_type(&self) -> (r: DecimalType)
        ensures
            r == self.values_type_spec(),
    {
        match self {
            DecimalBuffer::I8(_) => DecimalType::I8,
            DecimalBuffer::I16(_) => DecimalType::I16,
            DecimalBuffer::I32(_) => DecimalType::I32,
            DecimalBuffer::I64(_) => DecimalType::I64,
            DecimalBuffer::I128(_) => DecimalType::I128,
            DecimalBuffer::I256(_) => DecimalType::I256,
        }
    }

    /// The number of values.
    pub fn len(&self) -> (n: usize)
        ensures
            n == self.decimals().len(),
    {
        match self {
            DecimalBuffer::I8(values) => values.len(),
            DecimalBuffer::I16(values) => values.len(),
            DecimalBuffer::I32(values) => values.len(),
            DecimalBuffer::I64(values) => values.len(),
            DecimalBuffer::I128(values) => values.len(),
            DecimalBuffer::I256(values) => values.len(),
        }
    }

    /// The value at position `i`.
    pub fn value_at(&self, i: usize) -> (r: DecimalValue)
        requires
            i < self.decimals().len(),
        ensures
            r == self.decimals()[i as int],
    {
        match self {
            DecimalBuffer::I8(values) => DecimalValue::I8(values[i]),
            DecimalBuffer::I16(values) => DecimalValue::I16(values[i]),
            DecimalBuffer::I32(values) => DecimalValue::I32(values[i]),
            DecimalBuffer::I64(values) => DecimalValue::I64(values[i]),
            DecimalBuffer::I128(values) => DecimalValue::I128(values[i]),
            DecimalBuffer::I256(values) => DecimalValue::I256(values[i]),
        }
    }
}

/// A value type of decimal arrays.
pub trait NativeDecimalType: FixedWidth {
    /// The physical type.
    spec fn decimal_type_spec() -> DecimalType;

    /// The value tagged with its physical type.
    spec fn decimal(self) -> DecimalValue;

    /// Makes the values of a decimal array.
    fn into_buffer(values: Vec<Self>) -> (r: DecimalBuffer)
        ensures
            r.values_type_spec() == Self::decimal_type_spec(),
            r.decimals() == values@.map_values(|v: Self| v.decimal()),
    ;

    /// The values of a decimal array, if they have this type.
    fn values_of(buffer: &DecimalBuffer) -> (r: Option<&Vec<Self>>)
        ensures
            r is Some <==> buffer.values_type_spec() == Self::decimal_type_spec(),
            r matches Some(values) ==> buffer.decimals() == values@.map_values(
                |v: Self| v.decimal(),
            ),
    ;
}

/// The values, each tagged with its physical type.
pub open spec fn decimals_of<T: NativeDecimalType>(values: Seq<T>) -> Seq<DecimalValue> {
    values.map_values(|v: T| v.decimal())
}

impl NativeDecimalType for i8 {
    open spec fn decimal_type_spec() -> DecimalType {
        DecimalType::I8
    }

    open spec fn decimal(self) -> DecimalValue {
        DecimalValue::I8(self)
    }

    fn into_buffer(values: Vec<Self>) -> (r: DecimalBuffer) {
        let r = DecimalBuffer::I8(values);
        assert(r.decimals() =~= values@.map_values(|v: Self| v.decimal()));
        r
    }

    fn values_of(buffer: &DecimalBuffer) -> (r: Option<&Vec<Self>>) {
        match buffer {
            DecimalBuffer::I8(values) => {
                assert(buffer.decimals() =~= values@.map_values(|v: Self| v.decimal()));
                Some(values)
            },
            _ => None,
        }
    }
}

impl NativeDecimalType for i16 {
    open spec fn decimal_type_spec() -> DecimalType {
        DecimalType::I16
    }

    open spec fn decimal(self) -> DecimalValue {
        DecimalValue::I16(self)
    }

    fn into_buffer(values: Vec<Self>) -> (r: DecimalBuffer) {
        let r = DecimalBuffer::I16(values);
        assert(r.decimals() =~= values@.map_values(|v: Self| v.decimal()));
        r
    }

    fn values_of(buffer: &DecimalBuffer) -> (r: Option<&Vec<Self>>) {
        match buffer {
            DecimalBuffer::I16(values) => {
                assert(buffer.decimals() =~= values@.map_values(|v: Self| v.decimal()));
                Some(values)
            },
            _ => None,
        }
    }
}

impl NativeDecimalType for i32 {
    open spec fn decimal_type_spec() -> DecimalType {
        DecimalType::I32
    }

    open spec fn decimal(self) -> DecimalValue {
        DecimalValue::I32(self)
    }

    fn into_buffer(values: Vec<Self>) -> (r: DecimalBuffer) {
        let r = DecimalBuffer::I32(values);
        assert(r.decimals() =~= values@.map_values(|v: Self| v.decimal()));
        r
    }

    fn values_of(buffer: &DecimalBuffer) -> (r: Option<&Vec<Self>>) {
        match buffer {
            DecimalBuffer::I32(values) => {
                assert(buffer.decimals() =~= values@.map_values(|v: Self| v.decimal()));
                Some(values)
            },
            _ => None,
        }
    }
}

impl NativeDecimalType for i64 {
    open spec fn decimal_type_spec() -> DecimalType {
        DecimalType::I64
    }

    open spec fn decimal(self) -> DecimalValue {
        DecimalValue::I64(self)
    }

    fn into_buffer(values: Vec<Self>) -> (r: DecimalBuffer) {
        let r = DecimalBuffer::I64(values);
        assert(r.decimals() =~= values@.map_values(|v: Self| v.decimal()));
        r
    }

    fn values_of(buffer: &DecimalBuffer) -> (r: Option<&Vec<Self>>) {
        match buffer {
            DecimalBuffer::I64(values) => {
                assert(buffer.decimals() =~= values@.map_values(|v: Self| v.decimal()));
                Some(values)
            },
            _ => None,
        }
    }
}

impl NativeDecimalType for i128 {
    open spec fn decimal_type_spec() -> DecimalType {
        DecimalType::I128
    }

    open spec fn decimal(self) -> DecimalValue {
        DecimalValue::I128(self)
    }

    fn into_buffer(values: Vec<Self>) -> (r: DecimalBuffer) {
        let r = DecimalBuffer::I128(values);
        assert(r.decimals() =~= values@.map_values(|v: Self| v.decimal()));
        r
    }

    fn values_of(buffer: &DecimalBuffer) -> (r: Option<&Vec<Self>>) {
        match buffer {
            DecimalBuffer::I128(values) => {
                assert(buffer.decimals() =~= values@.map_values(|v: Self| v.decimal()));
                Some(values)
            },
            _ => None,
        }
    }
}

impl NativeDecimalType for I256 {
    open spec fn decimal_type_spec() -> DecimalType {
        DecimalType::I256
    }

    open spec fn decimal(self) -> DecimalValue {
        DecimalValue::I256(self)
    }

    fn into_buffer(values: Vec<Self>) -> (r: DecimalBuffer) {
        let r = DecimalBuffer::I256(values);
        assert(r.decimals() =~= values@.map_values(|v: Self| v.decimal()));
        r
    }

    fn values_of(buffer: &DecimalBuffer) -> (r: Option<&Vec<Self>>) {
        match buffer {
            DecimalBuffer::I256(values) => {
                assert(buffer.decimals() =~= values@.map_values(|v: Self| v.decimal()));
                Some(values)
            },
            _ => None,
        }
    }
}

/// An array of decimal values.
pub struct DecimalArray {
    pub buffer: DecimalBuffer,
    pub decimal_dtype: DecimalDType,
    pub validity: Validity,
}

impl DecimalArray {
    /// The validity describes as many rows as there are values.
    pub open spec fn wf(self) -> bool {
        self.validity.wf(self.buffer.decimals().len())
    }

    /// The rows of the array.
    pub open spec fn rows(self) -> Seq<Row> {
        Seq::new(
            self.buffer.decimals().len(),
            |i: int| decimal_row(self.buffer.decimals()[i], self.validity.valid_at(i)),
        )
    }

    pub open spec fn dtype_spec(self) -> DType {
        DType::Decimal(self.decimal_dtype, self.validity.nullability_spec())
    }

    /// The type of the array.
    pub fn dtype(&self) -> (r: DType)
        ensures
            r == self.dtype_spec(),
    {
        DType::Decimal(self.decimal_dtype, self.validity.nullability())
    }

    /// The number of rows.
    pub fn len(&self) -> (n: usize)
        ensures
            n == self.rows().len(),
    {
        self.buffer.len()
    }

    /// Builds an array of unscaled values.
    pub fn new<T: NativeDecimalType>(
        values: Vec<T>,
        decimal_dtype: DecimalDType,
        validity: Validity,
    ) -> (r: DecimalArray)
        requires
            validity.wf(values@.len()),
        ensures
            r.wf(),
            r.buffer.values_type_spec() == T::decimal_type_spec(),
            r.buffer.decimals() == decimals_of(values@),
            r.decimal_dtype == decimal_dtype,
            r.validity == validity,
    {
        DecimalArray { buffer: T::into_buffer(values), decimal_dtype, validity }
    }

    /// The unscaled values as native values of the array's own type.
    pub fn as_slice<T: NativeDecimalType>(&self) -> (r: &[T])
        requires
            self.buffer.values_type_spec() == T::decimal_type_spec(),
        ensures
            decimals_of(r@) == self.buffer.decimals(),
    {
        match T::values_of(&self.buffer) {
            Some(values) => values.as_slice(),
            None => vstd::pervasive::unreached(),
        }
    }

    /// The row at position `i`.
    pub fn row_at(&self, i: usize) -> (r: Row)
        requires
            self.wf(),
            i < self.rows().len(),
        ensures
            r == self.rows()[i as int],
    {
        if self.validity.is_valid(i) {
            Some(ScalarValue::Decimal(self.buffer.value_at(i)))
        } else {
            None
        }
    }

    /// The rows of a decimal array fit its type.
    pub proof fn lemma_rows_fit(self)
        ensures
            forall|i: int|
                0 <= i < self.rows().len() ==> row_fits(#[trigger] self.rows()[i], self.dtype_spec()),
    {
    }
}

/// The row of a decimal value that is null unless `valid`.
pub open spec fn decimal_row(value: DecimalValue, valid: bool) -> Row {
    if valid {
        Some(ScalarValue::Decimal(value))
    } else {
        None
    }
}

} // verus!
