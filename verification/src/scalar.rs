//! Single values.

use vstd::prelude::*;
use std::sync::Arc;

use crate::dtype::{DType, PType};
use crate::native::{int_to_usize, IntegerPType, F16, F32, F64, I256};
use crate::share::share;

verus! {

/// A primitive value.
#[derive(Clone, Copy, Debug, PartialEq, Eq, Structural)]
pub enum PValue {
    U8(u8),
    U16(u16),
    U32(u32),
    U64(u64),
    I8(i8),
    I16(i16),
    I32(i32),
    I64(i64),
    F16(F16),
    F32(F32),
    F64(F64),
}

impl PValue {
    /// The physical type of the value.
    pub open spec fn ptype_spec(self) -> PType {
        match self {
            PValue::U8(_) => PType::U8,
            PValue::U16(_) => PType::U16,
            PValue::U32(_) => PType::U32,
            PValue::U64(_) => PType::U64,
            PValue::I8(_) => PType::I8,
            PValue::I16(_) => PType::I16,
            PValue::I32(_) => PType::I32,
            PValue::I64(_) => PType::I64,
            PValue::F16(_) => PType::F16,
            PValue::F32(_) => PType::F32,
            PValue::F64(_) => PType::F64,
        }
    }

    /// The physical type of the value.
    pub fn ptype(&self) -> (r: PType)
        ensures
            r == self.ptype_spec(),
    {
        match self {
            PValue::U8(_) => PType::U8,
            PValue::U16(_) => PType::U16,
            PValue::U32(_) => PType::U32,
            PValue::U64(_) => PType::U64,
            PValue::I8(_) => PType::I8,
            PValue::I16(_) => PType::I16,
            PValue::I32(_) => PType::I32,
            PValue::I64(_) => PType::I64,
            PValue::F16(_) => PType::F16,
            PValue::F32(_) => PType::F32,
            PValue::F64(_) => PType::F64,
        }
    }

    /// The integer that the value stands for, if it is an integer.
    pub open spec fn as_int(self) -> Option<int> {
        match self {
            PValue::U8(v) => Some(v as int),
            PValue::U16(v) => Some(v as int),
            PValue::U32(v) => Some(v as int),
            PValue::U64(v) => Some(v as int),
            PValue::I8(v) => Some(v as int),
            PValue::I16(v) => Some(v as int),
            PValue::I32(v) => Some(v as int),
            PValue::I64(v) => Some(v as int),
            _ => None,
        }
    }

    /// The value as a `usize`, if it is an integer that fits.
    pub fn to_usize(self) -> (r: Option<usize>)
        ensures
            r == (match self.as_int() {
                Some(i) => int_to_usize(i),
                None => None,
            }),
    {
        match self {
            PValue::U8(v) => v.to_usize(),
            PValue::U16(v) => v.to_usize(),
            PValue::U32(v) => v.to_usize(),
            PValue::U64(v) => v.to_usize(),
            PValue::I8(v) => v.to_usize(),
            PValue::I16(v) => v.to_usize(),
            PValue::I32(v) => v.to_usize(),
            PValue::I64(v) => v.to_usize(),
            _ => None,
        }
    }

    /// The value whose bytes are all zero.
    pub fn zero(ptype: PType) -> (r: PValue)
        ensures
            r.ptype_spec() == ptype,
    {
        match ptype {
            PType::U8 => PValue::U8(0),
            PType::U16 => PValue::U16(0),
            PType::U32 => PValue::U32(0),
            PType::U64 => PValue::U64(0),
            PType::I8 => PValue::I8(0),
            PType::I16 => PValue::I16(0),
            PType::I32 => PValue::I32(0),
            PType::I64 => PValue::I64(0),
            PType::F16 => PValue::F16(F16 { bits: 0 }),
            PType::F32 => PValue::F32(F32 { bits: 0 }),
            PType::F64 => PValue::F64(F64 { bits: 0 }),
        }
    }

    /// The integer as an unsigned integer of the same width; `None` if it is negative.
    pub fn to_unsigned(self) -> (r: Option<PValue>)
        requires
            self.ptype_spec().is_int_spec(),
        ensures
            r is None <==> self.as_int()->0 < 0,
            r matches Some(unsigned) ==> {
                &&& unsigned.ptype_spec() == self.ptype_spec().to_unsigned_spec()
                &&& unsigned.as_int() == self.as_int()
            },
    {
        match self {
            PValue::I8(v) => if v < 0 {
                None
            } else {
                Some(PValue::U8(v as u8))
            },
            PValue::I16(v) => if v < 0 {
                None
            } else {
                Some(PValue::U16(v as u16))
            },
            PValue::I32(v) => if v < 0 {
                None
            } else {
                Some(PValue::U32(v as u32))
            },
            PValue::I64(v) => if v < 0 {
                None
            } else {
                Some(PValue::U64(v as u64))
            },
            other => Some(other),
        }
    }
}

/// Values with an integer type stand for their number, and floats stand for no integer.
pub proof fn lemma_value_ints(value: PValue)
    ensures
        value matches PValue::U8(v) ==> value.as_int() == Some(v as int),
        value matches PValue::U16(v) ==> value.as_int() == Some(v as int),
        value matches PValue::U32(v) ==> value.as_int() == Some(v as int),
        value matches PValue::U64(v) ==> value.as_int() == Some(v as int),
        value matches PValue::I8(v) ==> value.as_int() == Some(v as int),
        value matches PValue::I16(v) ==> value.as_int() == Some(v as int),
        value matches PValue::I32(v) ==> value.as_int() == Some(v as int),
        value matches PValue::I64(v) ==> value.as_int() == Some(v as int),
        value.as_int() is Some <==> value.ptype_spec().is_int_spec(),
        value.ptype_spec().is_unsigned_int_spec() ==> value.as_int()->0 >= 0,
{
}

/// An unscaled decimal value.
#[derive(Clone, Copy, Debug, PartialEq, Eq, Structural)]
pub enum DecimalValue {
    I8(i8),
    I16(i16),
    I32(i32),
    I64(i64),
    I128(i128),
    I256(I256),
}

/// A value that is not null.
#[derive(Debug, PartialEq, Eq)]
pub enum ScalarValue {
    Bool(bool),
    Primitive(PValue),
    Decimal(DecimalValue),
    /// The UTF-8 bytes of a string.
    Utf8(Arc<Vec<u8>>),
    Binary(Arc<Vec<u8>>),
    /// The elements of a list, or the fields of a struct.
    List(Arc<Vec<Option<ScalarValue>>>),
}

impl Clone for ScalarValue {
    fn clone(&self) -> (r: Self)
        ensures
            r == *self,
    {
        match self {
            ScalarValue::Bool(b) => ScalarValue::Bool(*b),
            ScalarValue::Primitive(p) => ScalarValue::Primitive(*p),
            ScalarValue::Decimal(d) => ScalarValue::Decimal(*d),
            ScalarValue::Utf8(s) => ScalarValue::Utf8(share(s)),
            ScalarValue::Binary(b) => ScalarValue::Binary(share(b)),
            ScalarValue::List(l) => ScalarValue::List(share(l)),
        }
    }
}

/// A row of an array: a value, or null.
pub type Row = Option<ScalarValue>;

/// Whether a row may stand in an array of the given type.
pub open spec fn row_fits(row: Row, dtype: DType) -> bool {
    match row {
        None => dtype.nullability_spec() is Nullable,
        Some(value) => match dtype {
            DType::Null => false,
            DType::Bool(_) => value is Bool,
            DType::Primitive(ptype, _) => value matches ScalarValue::Primitive(p) && p.ptype_spec()
                == ptype,
            DType::Decimal(_, _) => value is Decimal,
            DType::Utf8(_) => value is Utf8,
            DType::Binary(_) => value is Binary,
            DType::List(_, _) => value is List,
            DType::FixedSizeList(_, _, _) => value is List,
            DType::Struct(_, _) => value is List,
        },
    }
}

/// A copy of a row.
pub fn clone_row(row: &Row) -> (r: Row)
    ensures
        r == *row,
{
    match row {
        Some(value) => Some(value.clone()),
        None => None,
    }
}

} // verus!
