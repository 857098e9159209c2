//! Arrays of primitive values.

pub mod execute;
pub mod take;

use vstd::prelude::*;

use crate::dtype::{DType, PType};
use crate::native::{FixedWidth, F16, F32, F64};
use crate::scalar::{row_fits, PValue, Row, ScalarValue};
use crate::validity::Validity;

verus! {

/// The values of a primitive array.
pub enum PrimitiveBuffer {
    U8(Vec<u8>),
    U16(Vec<u16>),
    U32(Vec<u32>),
    U64(Vec<u64>),
    I8(Vec<i8>),
    I16(Vec<i16>),
    I32(Vec<i32>),
    I64(Vec<i64>),
    F16(Vec<F16>),
    F32(Vec<F32>),
    F64(Vec<F64>),
}

impl PrimitiveBuffer {
    /// The values, each tagged with its physical type.
    pub open spec fn pvalues(self) -> Seq<PValue> {
        match self {
            PrimitiveBuffer::U8(values) => values@.map_values(|v: u8| PValue::U8(v)),
            PrimitiveBuffer::U16(values) => values@.map_values(|v: u16| PValue::U16(v)),
            PrimitiveBuffer::U32(values) => values@.map_values(|v: u32| PValue::U32(v)),
            PrimitiveBuffer::U64(values) => values@.map_values(|v: u64| PValue::U64(v)),
            PrimitiveBuffer::I8(values) => values@.map_values(|v: i8| PValue::I8(v)),
            PrimitiveBuffer::I16(values) => values@.map_values(|v: i16| PValue::I16(v)),
            PrimitiveBuffer::I32(values) => values@.map_values(|v: i32| PValue::I32(v)),
            PrimitiveBuffer::I64(values) => values@.map_values(|v: i64| PValue::I64(v)),
            PrimitiveBuffer::F16(values) => values@.map_values(|v: F16| PValue::F16(v)),
            PrimitiveBuffer::F32(values) => values@.map_values(|v: F32| PValue::F32(v)),
            PrimitiveBuffer::F64(values) => values@.map_values(|v: F64| PValue::F64(v)),
        }
    }

    pub open spec fn ptype_spec(self) -> PType {
        match self {
            PrimitiveBuffer::U8(_) => PType::U8,
            PrimitiveBuffer::U16(_) => PType::U16,
            PrimitiveBuffer::U32(_) => PType::U32,
            PrimitiveBuffer::U64(_) => PType::U64,
            PrimitiveBuffer::I8(_) => PType::I8,
            PrimitiveBuffer::I16(_) => PType::I16,
            PrimitiveBuffer::I32(_) => PType::I32,
            PrimitiveBuffer::I64(_) => PType::I64,
            PrimitiveBuffer::F16(_) => PType::F16,
            PrimitiveBuffer::F32(_) => PType::F32,
            PrimitiveBuffer::F64(_) => PType::F64,
        }
    }

    /// The physical type of the values.
    pub fn ptype(&self) -> (r: PType)
        ensures
            r == self.ptype_spec(),
    {
        match self {
            PrimitiveBuffer::U8(_) => PType::U8,
            PrimitiveBuffer::U16(_) => PType::U16,
            PrimitiveBuffer::U32(_) => PType::U32,
            PrimitiveBuffer::U64(_) => PType::U64,
            PrimitiveBuffer::I8(_) => PType::I8,
            PrimitiveBuffer::I16(_) => PType::I16,
            PrimitiveBuffer::I32(_) => PType::I32,
            PrimitiveBuffer::I64(_) => PType::I64,
            PrimitiveBuffer::F16(_) => PType::F16,
            PrimitiveBuffer::F32(_) => PType::F32,
            PrimitiveBuffer::F64(_) => PType::F64,
        }
    }

    /// The number of values.
    pub fn len(&self) -> (n: usize)
        ensures
            n == self.pvalues().len(),
    {
        match self {
            PrimitiveBuffer::U8(values) => values.len(),
            PrimitiveBuffer::U16(values) => values.len(),
            PrimitiveBuffer::U32(values) => values.len(),
            PrimitiveBuffer::U64(values) => values.len(),
            PrimitiveBuffer::I8(values) => values.len(),
            PrimitiveBuffer::I16(values) => values.len(),
            PrimitiveBuffer::I32(values) => values.len(),
            PrimitiveBuffer::I64(values) => values.len(),
            PrimitiveBuffer::F16(values) => values.len(),
            PrimitiveBuffer::F32(values) => values.len(),
            PrimitiveBuffer::F64(values) => values.len(),
        }
    }

    /// The value at position `i`.
    pub fn value_at(&self, i: usize) -> (r: PValue)
        requires
            i < self.pvalues().len(),
        ensures
            r == self.pvalues()[i as int],
    {
        match self {
            PrimitiveBuffer::U8(values) => PValue::U8(values[i]),
            PrimitiveBuffer::U16(values) => PValue::U16(values[i]),
            PrimitiveBuffer::U32(values) => PValue::U32(values[i]),
            PrimitiveBuffer::U64(values) => PValue::U64(values[i]),
            PrimitiveBuffer::I8(values) => PValue::I8(values[i]),
            PrimitiveBuffer::I16(values) => PValue::I16(values[i]),
            PrimitiveBuffer::I32(values) => PValue::I32(values[i]),
            PrimitiveBuffer::I64(values) => PValue::I64(values[i]),
            PrimitiveBuffer::F16(values) => PValue::F16(values[i]),
            PrimitiveBuffer::F32(values) => PValue::F32(values[i]),
            PrimitiveBuffer::F64(values) => PValue::F64(values[i]),
        }
    }

    /// A copy of the values.
    pub fn copy(&self) -> (r: PrimitiveBuffer)
        ensures
            r.pvalues() == self.pvalues(),
            r.ptype_spec() == self.ptype_spec(),
    {
        match self {
            PrimitiveBuffer::U8(values) => PrimitiveBuffer::U8(copy_values(values)),
            PrimitiveBuffer::U16(values) => PrimitiveBuffer::U16(copy_values(values)),
            PrimitiveBuffer::U32(values) => PrimitiveBuffer::U32(copy_values(values)),
            PrimitiveBuffer::U64(values) => PrimitiveBuffer::U64(copy_values(values)),
            PrimitiveBuffer::I8(values) => PrimitiveBuffer::I8(copy_values(values)),
            PrimitiveBuffer::I16(values) => PrimitiveBuffer::I16(copy_values(values)),
            PrimitiveBuffer::I32(values) => PrimitiveBuffer::I32(copy_values(values)),
            PrimitiveBuffer::I64(values) => PrimitiveBuffer::I64(copy_values(values)),
            PrimitiveBuffer::F16(values) => PrimitiveBuffer::F16(copy_values(values)),
            PrimitiveBuffer::F32(values) => PrimitiveBuffer::F32(copy_values(values)),
            PrimitiveBuffer::F64(values) => PrimitiveBuffer::F64(copy_values(values)),
        }
    }

    /// A buffer without values.
    pub fn empty(ptype: PType) -> (r: PrimitiveBuffer)
        ensures
            r.ptype_spec() == ptype,
            r.pvalues() == Seq::<PValue>::empty(),
    {
        let r = match ptype {
            PType::U8 => PrimitiveBuffer::U8(Vec::new()),
            PType::U16 => PrimitiveBuffer::U16(Vec::new()),
            PType::U32 => PrimitiveBuffer::U32(Vec::new()),
            PType::U64 => PrimitiveBuffer::U64(Vec::new()),
            PType::I8 => PrimitiveBuffer::I8(Vec::new()),
            PType::I16 => PrimitiveBuffer::I16(Vec::new()),
            PType::I32 => PrimitiveBuffer::I32(Vec::new()),
            PType::I64 => PrimitiveBuffer::I64(Vec::new()),
            PType::F16 => PrimitiveBuffer::F16(Vec::new()),
            PType::F32 => PrimitiveBuffer::F32(Vec::new()),
            PType::F64 => PrimitiveBuffer::F64(Vec::new()),
        };
        assert(r.pvalues() =~= Seq::<PValue>::empty());
        r
    }

    /// Appends a value of the buffer's own type.
    pub fn push(&mut self, value: PValue)
        requires
            value.ptype_spec() == old(self).ptype_spec(),
        ensures
            final(self).ptype_spec() == old(self).ptype_spec(),
            final(self).pvalues() == old(self).pvalues().push(value),
    {
        let ghost before = *self;
        match (&mut *self, value) {
            (PrimitiveBuffer::U8(values), PValue::U8(v)) => values.push(v),
            (PrimitiveBuffer::U16(values), PValue::U16(v)) => values.push(v),
            (PrimitiveBuffer::U32(values), PValue::U32(v)) => values.push(v),
            (PrimitiveBuffer::U64(values), PValue::U64(v)) => values.push(v),
            (PrimitiveBuffer::I8(values), PValue::I8(v)) => values.push(v),
            (PrimitiveBuffer::I16(values), PValue::I16(v)) => values.push(v),
            (PrimitiveBuffer::I32(values), PValue::I32(v)) => values.push(v),
            (PrimitiveBuffer::I64(values), PValue::I64(v)) => values.push(v),
            (PrimitiveBuffer::F16(values), PValue::F16(v)) => values.push(v),
            (PrimitiveBuffer::F32(values), PValue::F32(v)) => values.push(v),
            (PrimitiveBuffer::F64(values), PValue::F64(v)) => values.push(v),
            _ => {
                assert(false);
            },
        }
        assert(self.pvalues() =~= before.pvalues().push(value));
    }

    /// Every value has the physical type of the buffer.
    pub proof fn lemma_ptypes(self)
        ensures
            forall|i: int|
                0 <= i < self.pvalues().len() ==> (#[trigger] self.pvalues()[i]).ptype_spec()
                    == self.ptype_spec(),
    {
    }
}

/// A copy of a list of fixed-width values.
pub fn copy_values<T: FixedWidth>(values: &Vec<T>) -> (r: Vec<T>)
    ensures
        r@ == values@,
{
    let mut out: Vec<T> = Vec::with_capacity(values.len());
    let mut i: usize = 0;
    while i < values.len()
        invariant
            i <= values@.len(),
            out@ == values@.take(i as int),
        decreases values@.len() - i,
    {
        out.push(values[i]);
        i = i + 1;
        assert(out@ =~= values@.take(i as int));
    }
    assert(values@.take(i as int) =~= values@);
    out
}

/// A value type of primitive arrays.
pub trait NativePType: FixedWidth {
    /// The physical type.
    spec fn ptype_spec() -> PType;

    /// The value tagged with its physical type.
    spec fn pvalue(self) -> PValue;

    /// The physical type.
    fn ptype() -> (r: PType)
        ensures
            r == Self::ptype_spec(),
    ;

    /// Makes the values of a primitive array.
    fn into_buffer(values: Vec<Self>) -> (r: PrimitiveBuffer)
        ensures
            r.ptype_spec() == Self::ptype_spec(),
            r.pvalues() == values@.map_values(|v: Self| v.pvalue()),
    ;

    /// The values of a primitive array, if they have this type.
    fn values_of(buffer: &PrimitiveBuffer) -> (r: Option<&Vec<Self>>)
        ensures
            r is Some <==> buffer.ptype_spec() == Self::ptype_spec(),
            r matches Some(values) ==> buffer.pvalues() == values@.map_values(
                |v: Self| v.pvalue(),
            ),
    ;
}

/// The values, each tagged with its physical type.
pub open spec fn pvalues_of<T: NativePType>(values: Seq<T>) -> Seq<PValue> {
    values.map_values(|v: T| v.pvalue())
}

impl NativePType for u8 {
    open spec fn ptype_spec() -> PType {
        PType::U8
    }

    open spec fn pvalue(self) -> PValue {
        PValue::U8(self)
    }

    fn ptype() -> (r: PType) {
        PType::U8
    }

    fn into_buffer(values: Vec<Self>) -> (r: PrimitiveBuffer) {
        let r = PrimitiveBuffer::U8(values);
        assert(r.pvalues() =~= values@.map_values(|v: Self| v.pvalue()));
        r
    }

    fn values_of(buffer: &PrimitiveBuffer) -> (r: Option<&Vec<Self>>) {
        match buffer {
            PrimitiveBuffer::U8(values) => {
                assert(buffer.pvalues() =~= values@.map_values(|v: Self| v.pvalue()));
                Some(values)
            },
            _ => None,
        }
    }
}

impl NativePType for u16 {
    open spec fn ptype_spec() -> PType {
        PType::U16
    }

    open spec fn pvalue(self) -> PValue {
        PValue::U16(self)
    }

    fn ptype() -> (r: PType) {
        PType::U16
    }

    fn into_buffer(values: Vec<Self>) -> (r: PrimitiveBuffer) {
        let r = PrimitiveBuffer::U16(values);
        assert(r.pvalues() =~= values@.map_values(|v: Self| v.pvalue()));
        r
    }

    fn values_of(buffer: &PrimitiveBuffer) -> (r: Option<&Vec<Self>>) {
        match buffer {
            PrimitiveBuffer::U16(values) => {
                assert(buffer.pvalues() =~= values@.map_values(|v: Self| v.pvalue()));
                Some(values)
            },
            _ => None,
        }
    }
}

impl NativePType for u32 {
    open spec fn ptype_spec() -> PType {
        PType::U32
    }

    open spec fn pvalue(self) -> PValue {
        PValue::U32(self)
    }

    fn ptype() -> (r: PType) {
        PType::U32
    }

    fn into_buffer(values: Vec<Self>) -> (r: PrimitiveBuffer) {
        let r = PrimitiveBuffer::U32(values);
        assert(r.pvalues() =~= values@.map_values(|v: Self| v.pvalue()));
        r
    }

    fn values_of(buffer: &PrimitiveBuffer) -> (r: Option<&Vec<Self>>) {
        match buffer {
            PrimitiveBuffer::U32(values) => {
                assert(buffer.pvalues() =~= values@.map_values(|v: Self| v.pvalue()));
                Some(values)
            },
            _ => None,
        }
    }
}

impl NativePType for u64 {
    open spec fn ptype_spec() -> PType {
        PType::U64
    }

    open spec fn pvalue(self) -> PValue {
        PValue::U64(self)
    }

    fn ptype() -> (r: PType) {
        PType::U64
    }

    fn into_buffer(values: Vec<Self>) -> (r: PrimitiveBuffer) {
        let r = PrimitiveBuffer::U64(values);
        assert(r.pvalues() =~= values@.map_values(|v: Self| v.pvalue()));
        r
    }

    fn values_of(buffer: &PrimitiveBuffer) -> (r: Option<&Vec<Self>>) {
        match buffer {
            PrimitiveBuffer::U64(values) => {
                assert(buffer.pvalues() =~= values@.map_values(|v: Self| v.pvalue()));
                Some(values)
            },
            _ => None,
        }
    }
}

impl NativePType for i8 {
    open spec fn ptype_spec() -> PType {
        PType::I8
    }

    open spec fn pvalue(self) -> PValue {
        PValue::I8(self)
    }

    fn ptype() -> (r: PType) {
        PType::I8
    }

    fn into_buffer(values: Vec<Self>) -> (r: PrimitiveBuffer) {
        let r = PrimitiveBuffer::I8(values);
        assert(r.pvalues() =~= values@.map_values(|v: Self| v.pvalue()));
        r
    }

    fn values_of(buffer: &PrimitiveBuffer) -> (r: Option<&Vec<Self>>) {
        match buffer {
            PrimitiveBuffer::I8(values) => {
                assert(buffer.pvalues() =~= values@.map_values(|v: Self| v.pvalue()));
                Some(values)
            },
            _ => None,
        }
    }
}

impl NativePType for i16 {
    open spec fn ptype_spec() -> PType {
        PType::I16
    }

    open spec fn pvalue(self) -> PValue {
        PValue::I16(self)
    }

    fn ptype() -> (r: PType) {
        PType::I16
    }

    fn into_buffer(values: Vec<Self>) -> (r: PrimitiveBuffer) {
        let r = PrimitiveBuffer::I16(values);
        assert(r.pvalues() =~= values@.map_values(|v: Self| v.pvalue()));
        r
    }

    fn values_of(buffer: &PrimitiveBuffer) -> (r: Option<&Vec<Self>>) {
        match buffer {
            PrimitiveBuffer::I16(values) => {
                assert(buffer.pvalues() =~= values@.map_values(|v: Self| v.pvalue()));
                Some(values)
            },
            _ => None,
        }
    }
}

impl NativePType for i32 {
    open spec fn ptype_spec() -> PType {
        PType::I32
    }

    open spec fn pvalue(self) -> PValue {
        PValue::I32(self)
    }

    fn ptype() -> (r: PType) {
        PType::I32
    }

    fn into_buffer(values: Vec<Self>) -> (r: PrimitiveBuffer) {
        let r = PrimitiveBuffer::I32(values);
        assert(r.pvalues() =~= values@.map_values(|v: Self| v.pvalue()));
        r
    }

    fn values_of(buffer: &PrimitiveBuffer) -> (r: Option<&Vec<Self>>) {
        match buffer {
            PrimitiveBuffer::I32(values) => {
                assert(buffer.pvalues() =~= values@.map_values(|v: Self| v.pvalue()));
                Some(values)
            },
            _ => None,
        }
    }
}

impl NativePType for i64 {
    open spec fn ptype_spec() -> PType {
        PType::I64
    }

    open spec fn pvalue(self) -> PValue {
        PValue::I64(self)
    }

    fn ptype() -> (r: PType) {
        PType::I64
    }

    fn into_buffer(values: Vec<Self>) -> (r: PrimitiveBuffer) {
        let r = PrimitiveBuffer::I64(values);
        assert(r.pvalues() =~= values@.map_values(|v: Self| v.pvalue()));
        r
    }

    fn values_of(buffer: &PrimitiveBuffer) -> (r: Option<&Vec<Self>>) {
        match buffer {
            PrimitiveBuffer::I64(values) => {
                assert(buffer.pvalues() =~= values@.map_values(|v: Self| v.pvalue()));
                Some(values)
            },
            _ => None,
        }
    }
}

impl NativePType for F16 {
    open spec fn ptype_spec() -> PType {
        PType::F16
    }

    open spec fn pvalue(self) -> PValue {
        PValue::F16(self)
    }

    fn ptype() -> (r: PType) {
        PType::F16
    }

    fn into_buffer(values: Vec<Self>) -> (r: PrimitiveBuffer) {
        let r = PrimitiveBuffer::F16(values);
        assert(r.pvalues() =~= values@.map_values(|v: Self| v.pvalue()));
        r
    }

    fn values_of(buffer: &PrimitiveBuffer) -> (r: Option<&Vec<Self>>) {
        match buffer {
            PrimitiveBuffer::F16(values) => {
                assert(buffer.pvalues() =~= values@.map_values(|v: Self| v.pvalue()));
                Some(values)
            },
            _ => None,
        }
    }
}

impl NativePType for F32 {
    open spec fn ptype_spec() -> PType {
        PType::F32
    }

    open spec fn pvalue(self) -> PValue {
        PValue::F32(self)
    }

    fn ptype() -> (r: PType) {
        PType::F32
    }

    fn into_buffer(values: Vec<Self>) -> (r: PrimitiveBuffer) {
        let r = PrimitiveBuffer::F32(values);
        assert(r.pvalues() =~= values@.map_values(|v: Self| v.pvalue()));
        r
    }

    fn values_of(buffer: &PrimitiveBuffer) -> (r: Option<&Vec<Self>>) {
        match buffer {
            PrimitiveBuffer::F32(values) => {
                assert(buffer.pvalues() =~= values@.map_values(|v: Self| v.pvalue()));
                Some(values)
            },
            _ => None,
        }
    }
}

impl NativePType for F64 {
    open spec fn ptype_spec() -> PType {
        PType::F64
    }

    open spec fn pvalue(self) -> PValue {
        PValue::F64(self)
    }

    fn ptype() -> (r: PType) {
        PType::F64
    }

    fn into_buffer(values: Vec<Self>) -> (r: PrimitiveBuffer) {
        let r = PrimitiveBuffer::F64(values);
        assert(r.pvalues() =~= values@.map_values(|v: Self| v.pvalue()));
        r
    }

    fn values_of(buffer: &PrimitiveBuffer) -> (r: Option<&Vec<Self>>) {
        match buffer {
            PrimitiveBuffer::F64(values) => {
                assert(buffer.pvalues() =~= values@.map_values(|v: Self| v.pvalue()));
                Some(values)
            },
            _ => None,
        }
    }
}

/// An array of primitive values.
pub struct PrimitiveArray {
    pub buffer: PrimitiveBuffer,
    pub validity: Validity,
}

impl PrimitiveArray {
    /// The validity describes as many rows as there are values.
    pub open spec fn wf(self) -> bool {
        self.validity.wf(self.buffer.pvalues().len())
    }

    /// The rows of the array.
    pub open spec fn rows(self) -> Seq<Row> {
        Seq::new(
            self.buffer.pvalues().len(),
            |i: int| primitive_row(self.buffer.pvalues()[i], self.validity.valid_at(i)),
        )
    }

    pub open spec fn dtype_spec(self) -> DType {
        DType::Primitive(self.buffer.ptype_spec(), self.validity.nullability_spec())
    }

    /// The type of the array.
    pub fn dtype(&self) -> (r: DType)
        ensures
            r == self.dtype_spec(),
    {
        DType::Primitive(self.buffer.ptype(), self.validity.nullability())
    }

    /// The number of rows.
    pub fn len(&self) -> (n: usize)
        ensures
            n == self.rows().len(),
    {
        self.buffer.len()
    }

    /// Builds an array of native values.
    pub fn new<T: NativePType>(values: Vec<T>, validity: Validity) -> (r: PrimitiveArray)
        requires
            validity.wf(values@.len()),
        ensures
            r.wf(),
            r.buffer.ptype_spec() == T::ptype_spec(),
            r.buffer.pvalues() == pvalues_of(values@),
            r.validity == validity,
    {
        PrimitiveArray { buffer: T::into_buffer(values), validity }
    }

    /// The values as native values of the array's own type.
    pub fn as_slice<T: NativePType>(&self) -> (r: &[T])
        requires
            self.buffer.ptype_spec() == T::ptype_spec(),
        ensures
            pvalues_of(r@) == self.buffer.pvalues(),
    {
        match T::values_of(&self.buffer) {
            Some(values) => values.as_slice(),
            None => vstd::pervasive::unreached(),
        }
    }

    /// The row at position `i`.
    pub fn row_at(&self, i: usize) -> (r: Row)
        requires
            self.wf(),
            i < self.rows().len(),
        ensures
            r == self.rows()[i as int],
    {
        if self.validity.is_valid(i) {
            Some(ScalarValue::Primitive(self.buffer.value_at(i)))
        } else {
            None
        }
    }

    /// A copy of the array.
    pub fn copy(&self) -> (r: PrimitiveArray)
        requires
            self.wf(),
        ensures
            r.wf(),
            r.buffer.pvalues() == self.buffer.pvalues(),
            r.buffer.ptype_spec() == self.buffer.ptype_spec(),
            r.validity.nullability_spec() == self.validity.nullability_spec(),
            r.rows() == self.rows(),
            r.dtype_spec() == self.dtype_spec(),
    {
        let r = PrimitiveArray { buffer: self.buffer.copy(), validity: self.validity.clone() };
        assert(r.rows() =~= self.rows());
        r
    }

    /// The rows of a primitive array fit its type.
    pub proof fn lemma_rows_fit(self)
        ensures
            forall|i: int|
                0 <= i < self.rows().len() ==> row_fits(#[trigger] self.rows()[i], self.dtype_spec()),
    {
        self.buffer.lemma_ptypes();
    }
}

/// The row of a primitive value that is null unless `valid`.
pub open spec fn primitive_row(value: PValue, valid: bool) -> Row {
    if valid {
        Some(ScalarValue::Primitive(value))
    } else {
        None
    }
}

} // verus!
