//! Encodings and typed access to arrays.

use vstd::prelude::*;

use super::{
    ArrayData, ArrayId, ArrayRef, BoolArray, ConstantArray, DictArray, FilterArray, RowsArray,
    SliceArray,
};
use crate::arrays::decimal::DecimalArray;
use crate::arrays::primitive::PrimitiveArray;
use crate::dtype::DType;

verus! {

/// An encoding: how the data of its arrays is told from that of others.
pub trait VTable: Sized + 'static {
    /// What arrays of this encoding hold besides their slots.
    type TypedArrayData: 'static;

    /// The name of the encoding.
    spec fn id_spec() -> ArrayId;

    /// The data, if it belongs to this encoding.
    spec fn typed(data: ArrayData) -> Option<Self::TypedArrayData>;

    /// The name of the encoding.
    fn id(&self) -> (r: ArrayId)
        ensures
            r == Self::id_spec(),
    ;

    /// The name of the encoding.
    fn static_id() -> (r: ArrayId)
        ensures
            r == Self::id_spec(),
    ;

    /// The data, if it belongs to this encoding.
    fn downcast<'a>(data: &'a ArrayData) -> (r: Option<&'a Self::TypedArrayData>)
        ensures
            match r {
                Some(typed) => Self::typed(*data) == Some(*typed),
                None => Self::typed(*data) is None,
            },
    ;

    /// Data belongs to this encoding exactly if it bears its name.
    proof fn lemma_id(data: &ArrayData)
        ensures
            Self::typed(*data) is Some <==> data.id_spec() == Self::id_spec(),
    ;
}

/// The encoding of booleans.
#[derive(Clone, Copy, Debug, PartialEq, Eq, Structural)]
pub struct Bool;

impl VTable for Bool {
    type TypedArrayData = BoolArray;

    open spec fn id_spec() -> ArrayId {
        ArrayId::Bool
    }

    open spec fn typed(data: ArrayData) -> Option<BoolArray> {
        match data {
            ArrayData::Bool(typed) => Some(typed),
            _ => None,
        }
    }

    fn id(&self) -> (r: ArrayId) {
        ArrayId::Bool
    }

    fn static_id() -> (r: ArrayId) {
        ArrayId::Bool
    }

    fn downcast<'a>(data: &'a ArrayData) -> (r: Option<&'a BoolArray>) {
        match data {
            ArrayData::Bool(typed) => Some(typed),
            _ => None,
        }
    }

    proof fn lemma_id(data: &ArrayData) {
    }
}

/// The encoding of a repeated scalar.
#[derive(Clone, Copy, Debug, PartialEq, Eq, Structural)]
pub struct Constant;

impl VTable for Constant {
    type TypedArrayData = ConstantArray;

    open spec fn id_spec() -> ArrayId {
        ArrayId::Constant
    }

    open spec fn typed(data: ArrayData) -> Option<ConstantArray> {
        match data {
            ArrayData::Constant(typed) => Some(typed),
            _ => None,
        }
    }

    fn id(&self) -> (r: ArrayId) {
        ArrayId::Constant
    }

    fn static_id() -> (r: ArrayId) {
        ArrayId::Constant
    }

    fn downcast<'a>(data: &'a ArrayData) -> (r: Option<&'a ConstantArray>) {
        match data {
            ArrayData::Constant(typed) => Some(typed),
            _ => None,
        }
    }

    proof fn lemma_id(data: &ArrayData) {
    }
}

/// The encoding of decimals.
#[derive(Clone, Copy, Debug, PartialEq, Eq, Structural)]
pub struct Decimal;

impl VTable for Decimal {
    type TypedArrayData = DecimalArray;

    open spec fn id_spec() -> ArrayId {
        ArrayId::Decimal
    }

    open spec fn typed(data: ArrayData) -> Option<DecimalArray> {
        match data {
            ArrayData::Decimal(typed) => Some(typed),
            _ => None,
        }
    }

    fn id(&self) -> (r: ArrayId) {
        ArrayId::Decimal
    }

    fn static_id() -> (r: ArrayId) {
        ArrayId::Decimal
    }

    fn downcast<'a>(data: &'a ArrayData) -> (r: Option<&'a DecimalArray>) {
        match data {
            ArrayData::Decimal(typed) => Some(typed),
            _ => None,
        }
    }

    proof fn lemma_id(data: &ArrayData) {
    }
}

/// The encoding of dictionaries.
#[derive(Clone, Copy, Debug, PartialEq, Eq, Structural)]
pub struct Dict;

impl VTable for Dict {
    type TypedArrayData = DictArray;

    open spec fn id_spec() -> ArrayId {
        ArrayId::Dict
    }

    open spec fn typed(data: ArrayData) -> Option<DictArray> {
        match data {
            ArrayData::Dict(typed) => Some(typed),
            _ => None,
        }
    }

    fn id(&self) -> (r: ArrayId) {
        ArrayId::Dict
    }

    fn static_id() -> (r: ArrayId) {
        ArrayId::Dict
    }

    fn downcast<'a>(data: &'a ArrayData) -> (r: Option<&'a DictArray>) {
        match data {
            ArrayData::Dict(typed) => Some(typed),
            _ => None,
        }
    }

    proof fn lemma_id(data: &ArrayData) {
    }
}

/// The encoding of filters.
#[derive(Clone, Copy, Debug, PartialEq, Eq, Structural)]
pub struct Filter;

impl VTable for Filter {
    type TypedArrayData = FilterArray;

    open spec fn id_spec() -> ArrayId {
        ArrayId::Filter
    }

    open spec fn typed(data: ArrayData) -> Option<FilterArray> {
        match data {
            ArrayData::Filter(typed) => Some(typed),
            _ => None,
        }
    }

    fn id(&self) -> (r: ArrayId) {
        ArrayId::Filter
    }

    fn static_id() -> (r: ArrayId) {
        ArrayId::Filter
    }

    fn downcast<'a>(data: &'a ArrayData) -> (r: Option<&'a FilterArray>) {
        match data {
            ArrayData::Filter(typed) => Some(typed),
            _ => None,
        }
    }

    proof fn lemma_id(data: &ArrayData) {
    }
}

/// The encoding of primitives.
#[derive(Clone, Copy, Debug, PartialEq, Eq, Structural)]
pub struct Primitive;

impl VTable for Primitive {
    type TypedArrayData = PrimitiveArray;

    open spec fn id_spec() -> ArrayId {
        ArrayId::Primitive
    }

    open spec fn typed(data: ArrayData) -> Option<PrimitiveArray> {
        match data {
            ArrayData::Primitive(typed) => Some(typed),
            _ => None,
        }
    }

    fn id(&self) -> (r: ArrayId) {
        ArrayId::Primitive
    }

    fn static_id() -> (r: ArrayId) {
        ArrayId::Primitive
    }

    fn downcast<'a>(data: &'a ArrayData) -> (r: Option<&'a PrimitiveArray>) {
        match data {
            ArrayData::Primitive(typed) => Some(typed),
            _ => None,
        }
    }

    proof fn lemma_id(data: &ArrayData) {
    }
}

/// The encoding of canonical rows.
#[derive(Clone, Copy, Debug, PartialEq, Eq, Structural)]
pub struct Rows;

impl VTable for Rows {
    type TypedArrayData = RowsArray;

    open spec fn id_spec() -> ArrayId {
        ArrayId::Rows
    }

    open spec fn typed(data: ArrayData) -> Option<RowsArray> {
        match data {
            ArrayData::Rows(typed) => Some(typed),
            _ => None,
        }
    }

    fn id(&self) -> (r: ArrayId) {
        ArrayId::Rows
    }

    fn static_id() -> (r: ArrayId) {
        ArrayId::Rows
    }

    fn downcast<'a>(data: &'a ArrayData) -> (r: Option<&'a RowsArray>) {
        match data {
            ArrayData::Rows(typed) => Some(typed),
            _ => None,
        }
    }

    proof fn lemma_id(data: &ArrayData) {
    }
}

/// The encoding of slices.
#[derive(Clone, Copy, Debug, PartialEq, Eq, Structural)]
pub struct Slice;

impl VTable for Slice {
    type TypedArrayData = SliceArray;

    open spec fn id_spec() -> ArrayId {
        ArrayId::Slice
    }

    open spec fn typed(data: ArrayData) -> Option<SliceArray> {
        match data {
            ArrayData::Slice(typed) => Some(typed),
            _ => None,
        }
    }

    fn id(&self) -> (r: ArrayId) {
        ArrayId::Slice
    }

    fn static_id() -> (r: ArrayId) {
        ArrayId::Slice
    }

    fn downcast<'a>(data: &'a ArrayData) -> (r: Option<&'a SliceArray>) {
        match data {
            ArrayData::Slice(typed) => Some(typed),
            _ => None,
        }
    }

    proof fn lemma_id(data: &ArrayData) {
    }
}

/// An array seen through its encoding.
pub struct ArrayView<'a, V: VTable> {
    array: &'a ArrayRef,
    data: &'a V::TypedArrayData,
}

impl<'a, V: VTable> ArrayView<'a, V> {
    /// The array behind the view.
    pub closed spec fn array_spec(self) -> ArrayRef {
        *self.array
    }

    /// The data of the array is that of the view.
    pub closed spec fn wf(self) -> bool {
        V::typed(self.array.inner.data) == Some(*self.data)
    }

    /// A view shows the data of its array.
    pub broadcast proof fn lemma_view_data(self)
        ensures
            #[trigger] self.wf() ==> V::typed(self.array_spec().inner.data) is Some,
    {
    }

    /// The array behind the view.
    pub fn array(&self) -> (r: &'a ArrayRef)
        ensures
            *r == self.array_spec(),
    {
        self.array
    }

    /// The data of the encoding.
    pub fn data(&self) -> (r: &'a V::TypedArrayData)
        requires
            self.wf(),
        ensures
            V::typed(self.array_spec().inner.data) == Some(*r),
    {
        self.data
    }

    /// The type of the array.
    pub fn dtype(&self) -> (r: &'a DType)
        ensures
            *r == self.array_spec().dtype_spec(),
    {
        self.array.dtype()
    }

    /// The number of rows.
    pub fn len(&self) -> (n: usize)
        ensures
            n == self.array_spec().len_spec(),
    {
        self.array.len()
    }

    /// Whether the array has no rows.
    pub fn is_empty(&self) -> (b: bool)
        ensures
            b == (self.array_spec().len_spec() == 0),
    {
        self.array.is_empty()
    }
}

impl<'a, V: VTable> Copy for ArrayView<'a, V> {

}

impl<'a, V: VTable> Clone for ArrayView<'a, V> {
    fn clone(&self) -> (r: Self)
        ensures
            r == *self,
    {
        *self
    }
}

impl ArrayRef {
    /// The array seen through the encoding `V`, if that is its encoding.
    pub fn as_typed<V: VTable>(&self) -> (r: Option<ArrayView<'_, V>>)
        ensures
            r is Some <==> self.id_spec() == V::id_spec(),
            r matches Some(view) ==> view.wf() && view.array_spec() == *self,
    {
        proof {
            V::lemma_id(&self.inner.data);
        }
        match V::downcast(&self.inner.data) {
            Some(data) => Some(ArrayView { array: self, data }),
            None => None,
        }
    }
}

} // verus!
