//! Arrays: trees of encodings over typed rows.

pub mod construct;
pub mod laws;
pub mod parent;
pub mod vtable;

use vstd::prelude::*;
use std::ops::Range;
use std::sync::Arc;

use crate::arrays::decimal::DecimalArray;
use crate::arrays::primitive::PrimitiveArray;
use crate::dtype::DType;
use crate::mask::{count_true, lemma_positions_sound, select, true_positions, Mask};
use crate::scalar::{clone_row, row_fits, Row, ScalarValue};
use crate::share::share;
use crate::stats::StatsSet;
use crate::validity::Validity;

verus! {

/// Names an encoding.
#[derive(Clone, Copy, Debug, PartialEq, Eq, Structural)]
pub enum ArrayId {
    Bool,
    Constant,
    Decimal,
    Dict,
    Filter,
    Primitive,
    Rows,
    Slice,
}

impl ArrayId {
    /// How many children an array of the encoding has.
    pub open spec fn slot_count(self) -> nat {
        match self {
            ArrayId::Dict => 2,
            ArrayId::Filter => 1,
            ArrayId::Slice => 1,
            _ => 0,
        }
    }
}

/// An array of booleans.
pub struct BoolArray {
    pub bits: Vec<bool>,
    pub validity: Validity,
}

/// The row of a boolean that is null unless `valid`.
pub open spec fn bool_row(value: bool, valid: bool) -> Row {
    if valid {
        Some(ScalarValue::Bool(value))
    } else {
        None
    }
}

impl BoolArray {
    pub open spec fn wf(self) -> bool {
        self.validity.wf(self.bits@.len())
    }

    pub open spec fn rows(self) -> Seq<Row> {
        Seq::new(
            self.bits@.len(),
            |i: int| bool_row(self.bits@[i], self.validity.valid_at(i)),
        )
    }

    pub open spec fn dtype_spec(self) -> DType {
        DType::Bool(self.validity.nullability_spec())
    }
}

/// A canonical array of strings, lists or structs, held row by row.
pub struct RowsArray {
    pub rows: Vec<Row>,
}

/// An array whose rows are all the same.
pub struct ConstantArray {
    pub scalar: Row,
}

/// Marks a dictionary: slot 0 holds the codes, slot 1 the values that they index.
pub struct DictArray {}

/// Selects rows of the array in slot 0.
pub struct FilterArray {
    pub mask: Mask,
}

/// A range of rows of the array in slot 0.
pub struct SliceArray {
    pub range: Range<usize>,
}

impl SliceArray {
    /// The rows that the slice covers.
    pub fn slice_range(&self) -> (r: &Range<usize>)
        ensures
            *r == self.range,
    {
        &self.range
    }
}

/// What an encoding holds besides its slots.
pub enum ArrayData {
    Bool(BoolArray),
    Constant(ConstantArray),
    Decimal(DecimalArray),
    Dict(DictArray),
    Filter(FilterArray),
    Primitive(PrimitiveArray),
    Rows(RowsArray),
    Slice(SliceArray),
}

impl ArrayData {
    pub open spec fn id_spec(self) -> ArrayId {
        match self {
            ArrayData::Bool(_) => ArrayId::Bool,
            ArrayData::Constant(_) => ArrayId::Constant,
            ArrayData::Decimal(_) => ArrayId::Decimal,
            ArrayData::Dict(_) => ArrayId::Dict,
            ArrayData::Filter(_) => ArrayId::Filter,
            ArrayData::Primitive(_) => ArrayId::Primitive,
            ArrayData::Rows(_) => ArrayId::Rows,
            ArrayData::Slice(_) => ArrayId::Slice,
        }
    }

    /// The encoding that the data belongs to.
    pub fn id(&self) -> (r: ArrayId)
        ensures
            r == self.id_spec(),
    {
        match self {
            ArrayData::Bool(_) => ArrayId::Bool,
            ArrayData::Constant(_) => ArrayId::Constant,
            ArrayData::Decimal(_) => ArrayId::Decimal,
            ArrayData::Dict(_) => ArrayId::Dict,
            ArrayData::Filter(_) => ArrayId::Filter,
            ArrayData::Primitive(_) => ArrayId::Primitive,
            ArrayData::Rows(_) => ArrayId::Rows,
            ArrayData::Slice(_) => ArrayId::Slice,
        }
    }
}

/// The parts of an array.
pub struct ArrayInner {
    pub dtype: DType,
    pub len: usize,
    pub data: ArrayData,
    pub slots: Vec<Option<ArrayRef>>,
}

/// A shared array with its statistics.
pub struct ArrayRef {
    pub inner: Arc<ArrayInner>,
    pub stats: Arc<StatsSet>,
}

/// The integer that a row of an index array holds; `None` for null.
pub open spec fn row_index(row: Row) -> Option<int> {
    match row {
        Some(ScalarValue::Primitive(p)) => p.as_int(),
        _ => None,
    }
}

/// The integers that the rows of an index array hold.
pub open spec fn row_indices(rows: Seq<Row>) -> Seq<Option<int>> {
    rows.map_values(|row: Row| row_index(row))
}

/// The row that an index selects; null for a null index.
pub open spec fn taken_row(index: Option<int>, values: Seq<Row>) -> Row {
    match index {
        Some(k) => values[k],
        None => None,
    }
}

/// The rows that a list of indices selects; null for a null index.
pub open spec fn taken_rows(indices: Seq<Option<int>>, values: Seq<Row>) -> Seq<Row> {
    indices.map_values(|index: Option<int>| taken_row(index, values))
}

/// Every index that is not null lies below `n`.
pub open spec fn in_bounds(indices: Seq<Option<int>>, n: nat) -> bool {
    forall|i: int|
        0 <= i < indices.len() && (#[trigger] indices[i]) is Some ==> 0 <= indices[i]->0 < n
}

impl ArrayRef {
    pub open spec fn dtype_spec(self) -> DType {
        self.inner.dtype
    }

    pub open spec fn len_spec(self) -> usize {
        self.inner.len
    }

    pub open spec fn id_spec(self) -> ArrayId {
        self.inner.data.id_spec()
    }

    /// The array in slot `k`.
    pub open spec fn slot(self, k: int) -> ArrayRef {
        self.inner.slots@[k]->0
    }

    /// Exactly the first `n` slots exist and are filled.
    pub open spec fn slots_filled(self, n: nat) -> bool {
        &&& self.inner.slots@.len() == n
        &&& forall|k: int| 0 <= k < n ==> (#[trigger] self.inner.slots@[k]) is Some
    }

    /// The rows that the array stands for.
    pub open spec fn rows(self) -> Seq<Row>
        decreases self,
    {
        match self.inner.data {
            ArrayData::Bool(a) => a.rows(),
            ArrayData::Constant(a) => Seq::new(self.inner.len as nat, |i: int| a.scalar),
            ArrayData::Decimal(a) => a.rows(),
            ArrayData::Dict(_) => if self.slots_filled(2) {
                taken_rows(
                    row_indices(self.inner.slots@[0]->0.rows()),
                    self.inner.slots@[1]->0.rows(),
                )
            } else {
                Seq::empty()
            },
            ArrayData::Filter(f) => if self.slots_filled(1) {
                select(self.inner.slots@[0]->0.rows(), f.mask@)
            } else {
                Seq::empty()
            },
            ArrayData::Primitive(a) => a.rows(),
            ArrayData::Rows(a) => a.rows@,
            ArrayData::Slice(s) => if self.slots_filled(1) {
                self.inner.slots@[0]->0.rows().subrange(s.range.start as int, s.range.end as int)
            } else {
                Seq::empty()
            },
        }
    }

    /// The parts of the array agree with each other, all the way down.
    pub open spec fn wf(self) -> bool
        decreases self,
    {
        match self.inner.data {
            ArrayData::Bool(a) => {
                &&& self.inner.slots@.len() == 0
                &&& a.wf()
                &&& self.inner.len == a.bits@.len()
                &&& self.inner.dtype == a.dtype_spec()
            },
            ArrayData::Constant(a) => {
                &&& self.inner.slots@.len() == 0
                &&& row_fits(a.scalar, self.inner.dtype)
            },
            ArrayData::Decimal(a) => {
                &&& self.inner.slots@.len() == 0
                &&& a.wf()
                &&& self.inner.len == a.rows().len()
                &&& self.inner.dtype == a.dtype_spec()
            },
            ArrayData::Dict(_) => {
                &&& self.slots_filled(2)
                &&& self.inner.slots@[0]->0.wf()
                &&& self.inner.slots@[1]->0.wf()
                &&& self.dict_agrees()
                &&& in_bounds(row_indices(self.slot(0).rows()), self.slot(1).rows().len())
            },
            ArrayData::Filter(f) => {
                &&& self.slots_filled(1)
                &&& self.inner.slots@[0]->0.wf()
                &&& f.mask.wf()
                &&& f.mask@.len() == self.slot(0).len_spec()
                &&& self.inner.len == count_true(f.mask@)
                &&& self.inner.dtype == self.slot(0).dtype_spec()
            },
            ArrayData::Primitive(a) => {
                &&& self.inner.slots@.len() == 0
                &&& a.wf()
                &&& self.inner.len == a.rows().len()
                &&& self.inner.dtype == a.dtype_spec()
            },
            ArrayData::Rows(a) => {
                &&& self.inner.slots@.len() == 0
                &&& self.inner.len == a.rows@.len()
                &&& forall|i: int|
                    0 <= i < a.rows@.len() ==> row_fits(#[trigger] a.rows@[i], self.inner.dtype)
            },
            ArrayData::Slice(s) => {
                &&& self.slots_filled(1)
                &&& self.inner.slots@[0]->0.wf()
                &&& s.range.start <= s.range.end <= self.slot(0).len_spec()
                &&& self.inner.len == s.range.end - s.range.start
                &&& self.inner.dtype == self.slot(0).dtype_spec()
            },
        }
    }

    /// The length and type of a dictionary follow from its codes and values.
    pub open spec fn dict_agrees(self) -> bool {
        &&& self.slot(0).dtype_spec() matches DType::Primitive(ptype, _)
        &&& ptype.is_int_spec()
        &&& self.inner.len == self.slot(0).len_spec()
        &&& self.inner.dtype == self.slot(1).dtype_spec().union_nullability_spec(
            self.slot(0).dtype_spec().nullability_spec(),
        )
    }

    /// Whether it is known without looking at any row that none is null.
    pub open spec fn no_nulls_spec(self) -> bool
        decreases self,
    {
        match self.inner.data {
            ArrayData::Bool(a) => a.validity.no_nulls_spec(),
            ArrayData::Constant(a) => a.scalar is Some,
            ArrayData::Decimal(a) => a.validity.no_nulls_spec(),
            ArrayData::Dict(_) => if self.slots_filled(2) {
                self.inner.slots@[0]->0.no_nulls_spec() && self.inner.slots@[1]->0.no_nulls_spec()
            } else {
                false
            },
            ArrayData::Filter(_) => if self.slots_filled(1) {
                self.inner.slots@[0]->0.no_nulls_spec()
            } else {
                false
            },
            ArrayData::Primitive(a) => a.validity.no_nulls_spec(),
            ArrayData::Rows(_) => self.inner.dtype.nullability_spec() is NonNullable,
            ArrayData::Slice(_) => if self.slots_filled(1) {
                self.inner.slots@[0]->0.no_nulls_spec()
            } else {
                false
            },
        }
    }
}

impl ArrayRef {
    /// A well-formed array has as many rows as it says, each of its type, and no null if it is
    /// known to have none.
    pub proof fn lemma_rows(array: &ArrayRef)
        requires
            array.wf(),
        ensures
            array.rows().len() == array.len_spec(),
            forall|i: int|
                0 <= i < array.rows().len() ==> row_fits(
                    #[trigger] array.rows()[i],
                    array.dtype_spec(),
                ),
            array.no_nulls_spec() ==> forall|i: int|
                0 <= i < array.rows().len() ==> (#[trigger] array.rows()[i]) is Some,
        decreases *array,
    {
        match &array.inner.data {
            ArrayData::Decimal(a) => a.lemma_rows_fit(),
            ArrayData::Primitive(a) => a.lemma_rows_fit(),
            ArrayData::Dict(_) => {
                let codes = array.inner.slots@[0]->0;
                let values = array.inner.slots@[1]->0;
                ArrayRef::lemma_rows(&codes);
                ArrayRef::lemma_rows(&values);
                assert forall|i: int| 0 <= i < array.rows().len() implies row_fits(
                    #[trigger] array.rows()[i],
                    array.dtype_spec(),
                ) && (array.no_nulls_spec() ==> array.rows()[i] is Some) by {
                    assert(row_fits(codes.rows()[i], codes.dtype_spec()));
                    let index = row_indices(codes.rows())[i];
                    if let Some(k) = index {
                        assert(row_fits(values.rows()[k], values.dtype_spec()));
                    }
                }
            },
            ArrayData::Filter(f) => {
                let child = array.inner.slots@[0]->0;
                ArrayRef::lemma_rows(&child);
                lemma_positions_sound(f.mask@);
                assert forall|i: int| 0 <= i < array.rows().len() implies row_fits(
                    #[trigger] array.rows()[i],
                    array.dtype_spec(),
                ) && (array.no_nulls_spec() ==> array.rows()[i] is Some) by {
                    assert(row_fits(child.rows()[true_positions(f.mask@)[i]], child.dtype_spec()));
                }
            },
            ArrayData::Slice(r) => {
                let child = array.inner.slots@[0]->0;
                ArrayRef::lemma_rows(&child);
                assert forall|i: int| 0 <= i < array.rows().len() implies row_fits(
                    #[trigger] array.rows()[i],
                    array.dtype_spec(),
                ) && (array.no_nulls_spec() ==> array.rows()[i] is Some) by {
                    assert(row_fits(child.rows()[r.range.start + i], child.dtype_spec()));
                }
            },
            _ => {},
        }
    }

    /// The type of the array.
    pub fn dtype(&self) -> (r: &DType)
        ensures
            *r == self.dtype_spec(),
    {
        &self.inner.dtype
    }

    /// The number of rows.
    pub fn len(&self) -> (n: usize)
        ensures
            n == self.len_spec(),
    {
        self.inner.len
    }

    /// Whether the array has no rows.
    pub fn is_empty(&self) -> (b: bool)
        ensures
            b == (self.len_spec() == 0),
    {
        self.inner.len == 0
    }

    /// The encoding of the array.
    pub fn encoding_id(&self) -> (r: ArrayId)
        ensures
            r == self.id_spec(),
    {
        self.inner.data.id()
    }

    /// Puts the parts of an array together, without statistics.
    pub fn from_inner(inner: ArrayInner) -> (r: ArrayRef)
        ensures
            *r.inner == inner,
            forall|s: crate::stats::Stat| (#[trigger] r.stats.get_spec(s)) is None,
    {
        ArrayRef { inner: Arc::new(inner), stats: Arc::new(StatsSet::new()) }
    }

    /// The row at position `i`.
    pub fn row_at(&self, i: usize) -> (r: Row)
        requires
            self.wf(),
            i < self.len_spec(),
        ensures
            r == self.rows()[i as int],
        decreases *self,
    {
        proof {
            ArrayRef::lemma_rows(self);
            assert(decreases_to!(*self => self.inner.slots));
            assert(decreases_to!(self.inner.slots => self.inner.slots@));
        }
        match &self.inner.data {
            ArrayData::Bool(a) => if a.validity.is_valid(i) {
                Some(ScalarValue::Bool(a.bits[i]))
            } else {
                None
            },
            ArrayData::Constant(a) => clone_row(&a.scalar),
            ArrayData::Decimal(a) => a.row_at(i),
            ArrayData::Dict(_) => {
                let codes = self.child(0);
                let values = self.child(1);
                proof {
                    ArrayRef::lemma_rows(codes);
                    ArrayRef::lemma_rows(values);
                    assert(decreases_to!(self.inner.slots@ => self.inner.slots@[0]));
                    assert(decreases_to!(self.inner.slots@ => self.inner.slots@[1]));
                    assert(row_indices(codes.rows())[i as int] == row_index(
                        codes.rows()[i as int],
                    ));
                    assert(row_fits(codes.rows()[i as int], codes.dtype_spec()));
                }
                match codes.row_at(i) {
                    Some(ScalarValue::Primitive(code)) => match code.to_usize() {
                        Some(k) => values.row_at(k),
                        None => None,
                    },
                    _ => None,
                }
            },
            ArrayData::Filter(f) => {
                let child = self.child(0);
                proof {
                    ArrayRef::lemma_rows(child);
                    lemma_positions_sound(f.mask@);
                    assert(decreases_to!(self.inner.slots@ => self.inner.slots@[0]));
                }
                child.row_at(f.mask.position(i))
            },
            ArrayData::Primitive(a) => a.row_at(i),
            ArrayData::Rows(a) => clone_row(&a.rows[i]),
            ArrayData::Slice(s) => {
                let child = self.child(0);
                proof {
                    ArrayRef::lemma_rows(child);
                    assert(decreases_to!(self.inner.slots@ => self.inner.slots@[0]));
                }
                child.row_at(s.range.start + i)
            },
        }
    }

    /// The array in slot `k`.
    pub fn child(&self, k: usize) -> (r: &ArrayRef)
        requires
            k < self.inner.slots@.len(),
            self.inner.slots@[k as int] is Some,
        ensures
            *r == self.slot(k as int),
    {
        match &self.inner.slots[k] {
            Some(child) => child,
            None => {
                assert(false);
                self
            },
        }
    }

    /// Whether it is known without looking at any row that none is null.
    pub fn no_nulls(&self) -> (b: bool)
        requires
            self.wf(),
        ensures
            b == self.no_nulls_spec(),
        decreases *self,
    {
        proof {
            assert(decreases_to!(*self => self.inner.slots));
            assert(decreases_to!(self.inner.slots => self.inner.slots@));
        }
        match &self.inner.data {
            ArrayData::Bool(a) => a.validity.no_nulls(),
            ArrayData::Constant(a) => a.scalar.is_some(),
            ArrayData::Decimal(a) => a.validity.no_nulls(),
            ArrayData::Dict(_) => {
                proof {
                    assert(decreases_to!(self.inner.slots@ => self.inner.slots@[0]));
                    assert(decreases_to!(self.inner.slots@ => self.inner.slots@[1]));
                }
                self.child(0).no_nulls() && self.child(1).no_nulls()
            },
            ArrayData::Filter(_) => {
                proof {
                    assert(decreases_to!(self.inner.slots@ => self.inner.slots@[0]));
                }
                self.child(0).no_nulls()
            },
            ArrayData::Primitive(a) => a.validity.no_nulls(),
            ArrayData::Rows(_) => !self.inner.dtype.is_nullable(),
            ArrayData::Slice(_) => {
                proof {
                    assert(decreases_to!(self.inner.slots@ => self.inner.slots@[0]));
                }
                self.child(0).no_nulls()
            },
        }
    }
}

impl Clone for ArrayRef {
    fn clone(&self) -> (r: Self)
        ensures
            r == *self,
    {
        ArrayRef { inner: share(&self.inner), stats: share(&self.stats) }
    }
}

} // verus!
