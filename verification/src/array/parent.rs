//! Parents of arrays, seen without distinguishing heap-allocated arrays from arrays that are still
//! under construction.
//!
//! A [`ParentRef`] borrows either an [`ArrayRef`] or the [`ArrayParts`] of an array that has not
//! been put together yet. Rules and matchers see the same metadata in both cases, so a rule can
//! rewrite a parent before it is allocated.

use vstd::prelude::*;
use std::ops::Deref;

use super::construct::is_index_dtype;
use super::vtable::{ArrayView, VTable};
use super::{ArrayData, ArrayId, ArrayInner, ArrayRef};
use crate::dtype::DType;

verus! {

/// The parts of an array that has not been put together yet.
pub struct ArrayParts<V: VTable> {
    pub vtable: V,
    pub dtype: DType,
    pub len: usize,
    pub data: ArrayData,
    pub slots: Vec<Option<ArrayRef>>,
}

impl<V: VTable> ArrayParts<V> {
    /// The data belongs to the encoding.
    pub open spec fn wf(self) -> bool {
        V::typed(self.data) is Some
    }

    /// Puts the array together.
    pub fn into_array(self) -> (r: ArrayRef)
        ensures
            *r.inner == (ArrayInner {
                dtype: self.dtype,
                len: self.len,
                data: self.data,
                slots: self.slots,
            }),
            forall|s: crate::stats::Stat| (#[trigger] r.stats.get_spec(s)) is None,
    {
        ArrayRef::from_inner(
            ArrayInner {
                dtype: self.dtype,
                len: self.len,
                data: self.data,
                slots: self.slots,
            },
        )
    }
}

#[derive(Clone, Copy)]
enum ParentData<'a> {
    ArrayData(&'a ArrayData),
    Parts { vtable: ArrayId, data: &'a ArrayData },
}

/// A parent array, possibly not allocated yet.
///
/// The metadata is always there, so that matchers and rules need not tell the two cases apart; the
/// array itself is there only if it has been allocated.
#[derive(Clone, Copy)]
pub struct ParentRef<'a> {
    encoding_id: ArrayId,
    dtype: &'a DType,
    len: usize,
    data: ParentData<'a>,
    slots: &'a Vec<Option<ArrayRef>>,
    array_ref: Option<&'a ArrayRef>,
}

impl<'a> ParentRef<'a> {
    pub closed spec fn encoding_id_spec(self) -> ArrayId {
        self.encoding_id
    }

    pub closed spec fn dtype_spec(self) -> DType {
        *self.dtype
    }

    pub closed spec fn len_spec(self) -> usize {
        self.len
    }

    pub closed spec fn slots_spec(self) -> Seq<Option<ArrayRef>> {
        self.slots@
    }

    /// The allocated array, if there is one.
    pub closed spec fn array_ref_spec(self) -> Option<&'a ArrayRef> {
        self.array_ref
    }

    /// The data of the parent's encoding.
    pub closed spec fn data_spec(self) -> ArrayData {
        match self.data {
            ParentData::ArrayData(data) => *data,
            ParentData::Parts { vtable: _, data } => *data,
        }
    }

    /// The name of the encoding fits the data, and an allocated array is the one described.
    pub closed spec fn wf(self) -> bool {
        &&& self.data_spec().id_spec() == self.encoding_id
        &&& self.data matches ParentData::Parts { vtable, data } ==> vtable == self.encoding_id
        &&& self.array_ref matches Some(array) ==> {
            &&& self.encoding_id == array.id_spec()
            &&& *self.dtype == array.dtype_spec()
            &&& self.len == array.len_spec()
            &&& self.data_spec() == array.inner.data
            &&& self.slots@ == array.inner.slots@
        }
    }

    /// Whether the parent's encoding is `V`.
    pub open spec fn is_encoding_spec<V: VTable>(self) -> bool {
        self.encoding_id_spec() == V::id_spec()
    }

    /// An allocated array is described by the rest of the metadata.
    pub proof fn lemma_wf(self)
        requires
            self.wf(),
        ensures
            self.data_spec().id_spec() == self.encoding_id_spec(),
            self.array_ref_spec() matches Some(array) ==> {
                &&& self.encoding_id_spec() == array.id_spec()
                &&& self.dtype_spec() == array.dtype_spec()
                &&& self.len_spec() == array.len_spec()
                &&& self.data_spec() == array.inner.data
                &&& self.slots_spec() == array.inner.slots@
            },
    {
    }

    /// Every child is well-formed, and a dictionary has both of its children, of which the codes
    /// are integers. Other parents may have empty slots.
    pub open spec fn children_wf(self) -> bool {
        &&& forall|k: int|
            0 <= k < self.slots_spec().len() ==> ((#[trigger] self.slots_spec()[k]) matches Some(
                child,
            ) ==> child.wf())
        &&& self.encoding_id_spec() == ArrayId::Dict ==> {
            &&& self.slots_spec().len() == 2
            &&& self.slots_spec()[0] is Some
            &&& self.slots_spec()[1] is Some
            &&& is_index_dtype(self.slots_spec()[0]->0.dtype_spec())
        }
    }

    /// The parent that an allocated array is.
    pub closed spec fn of(array: &'a ArrayRef) -> ParentRef<'a> {
        ParentRef {
            encoding_id: array.id_spec(),
            dtype: &array.inner.dtype,
            len: array.inner.len,
            data: ParentData::ArrayData(&array.inner.data),
            slots: &array.inner.slots,
            array_ref: Some(array),
        }
    }

    /// The metadata of an allocated array.
    pub proof fn lemma_of(array: &'a ArrayRef)
        ensures
            Self::of(array).wf(),
            Self::of(array).array_ref_spec() == Some(array),
            Self::of(array).encoding_id_spec() == array.id_spec(),
            Self::of(array).dtype_spec() == array.dtype_spec(),
            Self::of(array).len_spec() == array.len_spec(),
            Self::of(array).data_spec() == array.inner.data,
            Self::of(array).slots_spec() == array.inner.slots@,
            array.wf() ==> Self::of(array).children_wf(),
    {
    }

    /// Borrows an allocated array.
    pub fn from_array_ref(array: &'a ArrayRef) -> (r: Self)
        ensures
            r == Self::of(array),
            r.wf(),
            r.array_ref_spec() == Some(array),
            r.encoding_id_spec() == array.id_spec(),
            r.dtype_spec() == array.dtype_spec(),
            r.len_spec() == array.len_spec(),
            r.data_spec() == array.inner.data,
            r.slots_spec() == array.inner.slots@,
    {
        ParentRef {
            encoding_id: array.encoding_id(),
            dtype: array.dtype(),
            len: array.len(),
            data: ParentData::ArrayData(&array.inner.data),
            slots: &array.inner.slots,
            array_ref: Some(array),
        }
    }

    /// Borrows the parts of an array that has not been put together yet.
    pub fn from_parts<V: VTable>(parts: &'a ArrayParts<V>) -> (r: Self)
        requires
            parts.wf(),
        ensures
            r.wf(),
            r.array_ref_spec() is None,
            r.encoding_id_spec() == V::id_spec(),
            r.dtype_spec() == parts.dtype,
            r.len_spec() == parts.len,
            r.data_spec() == parts.data,
            r.slots_spec() == parts.slots@,
    {
        proof {
            V::lemma_id(&parts.data);
        }
        ParentRef {
            encoding_id: parts.vtable.id(),
            dtype: &parts.dtype,
            len: parts.len,
            data: ParentData::Parts { vtable: parts.vtable.id(), data: &parts.data },
            slots: &parts.slots,
            array_ref: None,
        }
    }

    /// The encoding of the parent.
    pub fn encoding_id(&self) -> (r: ArrayId)
        ensures
            r == self.encoding_id_spec(),
    {
        self.encoding_id
    }

    /// The type of the parent.
    pub fn dtype(&self) -> (r: &'a DType)
        ensures
            *r == self.dtype_spec(),
    {
        self.dtype
    }

    /// The number of rows of the parent.
    pub fn len(&self) -> (n: usize)
        ensures
            n == self.len_spec(),
    {
        self.len
    }

    /// Whether the parent has no rows.
    pub fn is_empty(&self) -> (b: bool)
        ensures
            b == (self.len_spec() == 0),
    {
        self.len == 0
    }

    /// The slots of the parent.
    pub fn slots(&self) -> (r: &'a [Option<ArrayRef>])
        ensures
            r@ == self.slots_spec(),
    {
        self.slots.as_slice()
    }

    /// The allocated array; `None` while the parent is under construction.
    pub fn array_ref(&self) -> (r: Option<&'a ArrayRef>)
        ensures
            r == self.array_ref_spec(),
    {
        self.array_ref
    }

    /// Whether the parent's encoding is `V`.
    pub fn is_encoding<V: VTable>(&self) -> (b: bool)
        requires
            self.wf(),
        ensures
            b == self.is_encoding_spec::<V>(),
    {
        match self.data {
            ParentData::ArrayData(data) => {
                proof {
                    V::lemma_id(data);
                }
                V::downcast(data).is_some()
            },
            ParentData::Parts { vtable, .. } => vtable == V::static_id(),
        }
    }

    /// The parent's data, if its encoding is `V`.
    pub fn typed_data<V: VTable>(&self) -> (r: Option<&'a V::TypedArrayData>)
        requires
            self.wf(),
        ensures
            r is Some <==> self.is_encoding_spec::<V>(),
            r matches Some(data) ==> V::typed(self.data_spec()) == Some(*data),
    {
        if !self.is_encoding::<V>() {
            return None;
        }
        proof {
            V::lemma_id(&self.data_spec());
        }
        match self.data {
            ParentData::ArrayData(data) => V::downcast(data),
            ParentData::Parts { data, .. } => V::downcast(data),
        }
    }

    /// A typed view of the parent, allocated or not, if its encoding is `V`.
    pub fn try_view<V: VTable>(&self) -> (r: Option<ParentView<'a, V>>)
        requires
            self.wf(),
        ensures
            r is Some <==> self.is_encoding_spec::<V>(),
            r matches Some(view) ==> {
                &&& V::typed(self.data_spec()) == Some(view.data_spec())
                &&& view.dtype_spec() == self.dtype_spec()
                &&& view.len_spec() == self.len_spec()
                &&& view.slots_spec() == self.slots_spec()
            },
    {
        match self.typed_data::<V>() {
            None => None,
            Some(data) => Some(
                ParentView { data, dtype: self.dtype, len: self.len, slots: self.slots() },
            ),
        }
    }

    /// A typed view of the allocated array, if there is one and its encoding is `V`.
    pub fn try_array_view<V: VTable>(&self) -> (r: Option<ArrayView<'a, V>>)
        requires
            self.wf(),
        ensures
            r is Some <==> self.array_ref_spec() is Some && self.is_encoding_spec::<V>(),
            r matches Some(view) ==> view.wf() && Some(&view.array_spec())
                == self.array_ref_spec(),
    {
        match self.array_ref {
            None => None,
            Some(array) => array.as_typed::<V>(),
        }
    }
}

/// A typed view of a parent, allocated or not.
pub struct ParentView<'a, V: VTable> {
    data: &'a V::TypedArrayData,
    dtype: &'a DType,
    len: usize,
    slots: &'a [Option<ArrayRef>],
}

impl<'a, V: VTable> Copy for ParentView<'a, V> {

}

impl<'a, V: VTable> Clone for ParentView<'a, V> {
    fn clone(&self) -> (r: Self)
        ensures
            r == *self,
    {
        *self
    }
}

impl<'a, V: VTable> ParentView<'a, V> {
    pub closed spec fn data_spec(self) -> V::TypedArrayData {
        *self.data
    }

    pub closed spec fn dtype_spec(self) -> DType {
        *self.dtype
    }

    pub closed spec fn len_spec(self) -> usize {
        self.len
    }

    pub closed spec fn slots_spec(self) -> Seq<Option<ArrayRef>> {
        self.slots@
    }

    /// The data of the encoding.
    pub fn data(&self) -> (r: &'a V::TypedArrayData)
        ensures
            *r == self.data_spec(),
    {
        self.data
    }

    /// The type of the parent.
    pub fn dtype(&self) -> (r: &'a DType)
        ensures
            *r == self.dtype_spec(),
    {
        self.dtype
    }

    /// The number of rows of the parent.
    pub fn len(&self) -> (n: usize)
        ensures
            n == self.len_spec(),
    {
        self.len
    }

    /// Whether the parent has no rows.
    pub fn is_empty(&self) -> (b: bool)
        ensures
            b == (self.len_spec() == 0),
    {
        self.len == 0
    }

    /// The slots of the parent.
    pub fn slots(&self) -> (r: &'a [Option<ArrayRef>])
        ensures
            r@ == self.slots_spec(),
    {
        self.slots
    }
}

impl<'a, V: VTable> Deref for ParentView<'a, V> {
    type Target = V::TypedArrayData;

    fn deref(&self) -> (r: &V::TypedArrayData)
        ensures
            *r == self.data_spec(),
    {
        self.data
    }
}

impl<'a> From<&'a ArrayRef> for ParentRef<'a> {
    fn from(array: &'a ArrayRef) -> (r: Self) {
        Self::from_array_ref(array)
    }
}

impl<'a> vstd::std_specs::convert::FromSpecImpl<&'a ArrayRef> for ParentRef<'a> {
    open spec fn obeys_from_spec() -> bool {
        true
    }

    open spec fn from_spec(array: &'a ArrayRef) -> Self {
        ParentRef::of(array)
    }
}

} // verus!
