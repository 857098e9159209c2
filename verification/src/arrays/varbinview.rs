//! Arrays of byte strings held as views.
//!
//! A view holds a short string in place and refers to a buffer for a longer one.

use vstd::prelude::*;
use std::ops::Range;

use crate::dtype::DType;
use crate::validity::Validity;

verus! {

/// The longest string that a view holds in place.
pub const MAX_INLINED_SIZE: u32 = 12;

/// A string held in place.
#[derive(Clone, Copy, Debug)]
pub struct Inlined {
    pub size: u32,
    pub data: [u8; 12],
}

impl Inlined {
    pub open spec fn value_spec(self) -> Seq<u8> {
        self.data@.subrange(0, self.size as int)
    }

    /// The bytes of the string.
    pub fn value(&self) -> (r: &[u8])
        requires
            self.size <= MAX_INLINED_SIZE,
        ensures
            r@ == self.value_spec(),
    {
        vstd::slice::slice_subrange(vstd::array::array_as_slice(&self.data), 0, self.size as usize)
    }
}

/// A reference to a string in a buffer.
#[derive(Clone, Copy, Debug)]
pub struct Ref {
    pub size: u32,
    pub prefix: [u8; 4],
    pub buffer_index: u32,
    pub offset: u32,
}

impl Ref {
    /// Where in its buffer the string is.
    pub fn as_range(&self) -> (r: Range<usize>)
        requires
            self.offset + self.size <= usize::MAX,
        ensures
            r.start == self.offset,
            r.end == self.offset + self.size,
    {
        (self.offset as usize)..(self.offset as usize + self.size as usize)
    }
}

/// A string, held in place or in a buffer.
#[derive(Clone, Copy, Debug)]
pub enum BinaryView {
    Inlined(Inlined),
    Ref(Ref),
}

impl BinaryView {
    pub open spec fn len_spec(self) -> u32 {
        match self {
            BinaryView::Inlined(inlined) => inlined.size,
            BinaryView::Ref(r) => r.size,
        }
    }

    /// The length of the string in bytes.
    pub fn len(&self) -> (n: u32)
        ensures
            n == self.len_spec(),
    {
        match self {
            BinaryView::Inlined(inlined) => inlined.size,
            BinaryView::Ref(r) => r.size,
        }
    }

    /// The string lies within what the view refers to.
    pub open spec fn wf(self, buffers: Seq<Vec<u8>>) -> bool {
        match self {
            BinaryView::Inlined(inlined) => inlined.size <= MAX_INLINED_SIZE,
            BinaryView::Ref(r) => {
                &&& r.size > MAX_INLINED_SIZE
                &&& r.buffer_index < buffers.len()
                &&& r.offset + r.size <= buffers[r.buffer_index as int]@.len()
            },
        }
    }

    /// The bytes of the string.
    pub open spec fn bytes(self, buffers: Seq<Vec<u8>>) -> Seq<u8> {
        match self {
            BinaryView::Inlined(inlined) => inlined.value_spec(),
            BinaryView::Ref(r) => buffers[r.buffer_index as int]@.subrange(
                r.offset as int,
                r.offset + r.size,
            ),
        }
    }
}

/// An array of byte strings held as views.
pub struct VarBinViewArray {
    pub dtype: DType,
    pub views: Vec<BinaryView>,
    pub buffers: Vec<Vec<u8>>,
    pub validity: Validity,
}

impl VarBinViewArray {
    /// The type is that of strings, and the views of rows that are not null refer to what is there.
    pub open spec fn wf(self) -> bool {
        &&& self.dtype is Utf8 || self.dtype is Binary
        &&& self.dtype.nullability_spec() == self.validity.nullability_spec()
        &&& self.validity.wf(self.views@.len())
        &&& forall|i: int|
            0 <= i < self.views@.len() && self.validity.valid_at(i) ==> (
            #[trigger] self.views@[i]).wf(self.buffers@)
    }

    /// The bytes of row `i`; `None` if it is null.
    pub open spec fn row(self, i: int) -> Option<Seq<u8>> {
        if self.validity.valid_at(i) {
            Some(self.views@[i].bytes(self.buffers@))
        } else {
            None
        }
    }

    /// The rows of the array.
    pub open spec fn rows(self) -> Seq<Option<Seq<u8>>> {
        Seq::new(self.views@.len(), |i: int| self.row(i))
    }

    /// The number of rows.
    pub fn len(&self) -> (n: usize)
        ensures
            n == self.rows().len(),
    {
        self.views.len()
    }

    /// The bytes that a view stands for.
    pub fn view_bytes<'a>(&'a self, view: &'a BinaryView) -> (r: &'a [u8])
        requires
            view.wf(self.buffers@),
        ensures
            r@ == view.bytes(self.buffers@),
            r@.len() == view.len_spec(),
            view matches BinaryView::Ref(v) ==> forall|k: int|
                0 <= k < v.size ==> #[trigger] r@[k]
                    == self.buffers@[v.buffer_index as int]@[v.offset + k],
            view matches BinaryView::Inlined(v) ==> forall|k: int|
                0 <= k < v.size ==> #[trigger] r@[k] == v.data@[k],
    {
        match view {
            BinaryView::Inlined(inlined) => inlined.value(),
            BinaryView::Ref(r) => {
                let buffer = &self.buffers[r.buffer_index as usize];
                assert(buffer@.len() == buffer.len());
                let range = r.as_range();
                vstd::slice::slice_subrange(buffer.as_slice(), range.start, range.end)
            },
        }
    }

    /// Builds an array without nulls, with short strings held in place and the others in one
    /// buffer each.
    pub fn from_rows(dtype: DType, rows: Vec<Vec<u8>>) -> (r: VarBinViewArray)
        requires
            dtype is Utf8 || dtype is Binary,
            dtype.nullability_spec() is NonNullable,
            rows@.len() <= u32::MAX,
            forall|i: int| 0 <= i < rows@.len() ==> (#[trigger] rows@[i])@.len() <= u32::MAX,
        ensures
            r.wf(),
            r.dtype == dtype,
            r.rows() == rows@.map_values(|row: Vec<u8>| Some(row@)),
    {
        let mut views: Vec<BinaryView> = Vec::with_capacity(rows.len());
        let mut buffers: Vec<Vec<u8>> = Vec::new();
        let mut i: usize = 0;
        while i < rows.len()
            invariant
                i <= rows@.len() <= u32::MAX,
                forall|k: int| 0 <= k < rows@.len() ==> (#[trigger] rows@[k])@.len() <= u32::MAX,
                views@.len() == i,
                buffers@.len() <= i,
                forall|k: int|
                    0 <= k < i ==> (#[trigger] views@[k]).wf(buffers@) && views@[k].bytes(buffers@)
                        == rows@[k]@,
            decreases rows@.len() - i,
        {
            let row = &rows[i];
            let ghost views_before = views@;
            let ghost buffers_before = buffers@;
            if row.len() <= MAX_INLINED_SIZE as usize {
                views.push(BinaryView::Inlined(inline(row)));
            } else {
                let view = Ref {
                    size: row.len() as u32,
                    prefix: [row[0], row[1], row[2], row[3]],
                    buffer_index: buffers.len() as u32,
                    offset: 0,
                };
                let copied = crate::arrays::primitive::copy_values(row);
                buffers.push(copied);
                assert(copied@.subrange(0, copied@.len() as int) =~= row@);
                views.push(BinaryView::Ref(view));
            }
            assert forall|k: int| 0 <= k < i + 1 implies (#[trigger] views@[k]).wf(buffers@)
                && views@[k].bytes(buffers@) == rows@[k]@ by {
                if k < i {
                    assert(views@[k] == views_before[k]);
                    assert(views_before[k].wf(buffers_before));
                }
            }
            i = i + 1;
        }
        let r = VarBinViewArray { dtype, views, buffers, validity: Validity::NonNullable };
        assert(r.rows() =~= rows@.map_values(|row: Vec<u8>| Some(row@)));
        r
    }
}

/// A row is null exactly where the validity says so. Otherwise it has as many bytes as its view
/// says: those held in place, or those of the buffer that the view refers to, from its offset on.
pub proof fn lemma_view_row(array: VarBinViewArray, i: int)
    requires
        array.wf(),
        0 <= i < array.views@.len(),
    ensures
        array.rows().len() == array.views@.len(),
        array.rows()[i] is Some <==> array.validity.valid_at(i),
        array.rows()[i] matches Some(row) ==> match array.views@[i] {
            BinaryView::Inlined(view) => {
                &&& row.len() == view.size
                &&& forall|k: int| 0 <= k < view.size ==> #[trigger] row[k] == view.data@[k]
            },
            BinaryView::Ref(view) => {
                &&& row.len() == view.size
                &&& forall|k: int|
                    0 <= k < view.size ==> #[trigger] row[k]
                        == array.buffers@[view.buffer_index as int]@[view.offset + k]
            },
        },
{
    assert(array.rows()[i] == array.row(i));
    if array.validity.valid_at(i) {
        assert(array.views@[i].wf(array.buffers@));
    }
}

/// Views that cover a buffer one behind the other give rows that make up the buffer.
pub proof fn lemma_adjacent_views(array: VarBinViewArray, i: int, j: int)
    requires
        array.wf(),
        0 <= i < array.views@.len(),
        0 <= j < array.views@.len(),
        array.validity.valid_at(i),
        array.validity.valid_at(j),
        array.views@[i] is Ref,
        array.views@[j] is Ref,
        array.views@[i]->Ref_0.buffer_index == array.views@[j]->Ref_0.buffer_index,
        array.views@[i]->Ref_0.offset == 0,
        array.views@[j]->Ref_0.offset == array.views@[i]->Ref_0.size,
        array.views@[i]->Ref_0.size + array.views@[j]->Ref_0.size
            == array.buffers@[array.views@[i]->Ref_0.buffer_index as int]@.len(),
    ensures
        array.rows()[i]->0 + array.rows()[j]->0
            == array.buffers@[array.views@[i]->Ref_0.buffer_index as int]@,
{
    lemma_view_row(array, i);
    lemma_view_row(array, j);
    assert(array.views@[i].wf(array.buffers@));
    assert(array.views@[j].wf(array.buffers@));
    assert(array.rows()[i]->0 + array.rows()[j]->0
        =~= array.buffers@[array.views@[i]->Ref_0.buffer_index as int]@);
}

/// Puts a short string in place.
fn inline(row: &Vec<u8>) -> (r: Inlined)
    requires
        row@.len() <= MAX_INLINED_SIZE,
    ensures
        r.size == row@.len(),
        r.value_spec() == row@,
{
    let mut data: [u8; 12] = [0;12];
    let mut i: usize = 0;
    while i < row.len()
        invariant
            i <= row@.len() <= 12,
            data@.len() == 12,
            data@.subrange(0, i as int) == row@.subrange(0, i as int),
        decreases row@.len() - i,
    {
        let ghost before = data@;
        data[i] = row[i];
        assert(data@ == before.update(i as int, row@[i as int]));
        assert forall|k: int| 0 <= k < i + 1 implies data@[k] == row@[k] by {
            if k < i {
                assert(before.subrange(0, i as int)[k] == row@.subrange(0, i as int)[k]);
            }
        }
        i = i + 1;
        assert(data@.subrange(0, i as int) =~= row@.subrange(0, i as int));
    }
    assert(row@.subrange(0, i as int) =~= row@);
    Inlined { size: row.len() as u32, data }
}

} // verus!
