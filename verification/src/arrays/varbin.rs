//! Arrays of byte strings held one behind the other.

use vstd::prelude::*;

use super::primitive::PrimitiveArray;
use crate::dtype::{DType, Nullability};
use crate::mask::Mask;
use crate::native::IntegerPType;
use crate::validity::Validity;

verus! {

/// An array of byte strings held one behind the other: row `i` is between offsets `i` and `i + 1`.
pub struct VarBinArray {
    pub dtype: DType,
    pub offsets: PrimitiveArray,
    pub bytes: Vec<u8>,
    pub validity: Validity,
}

impl VarBinArray {
    pub open spec fn len_spec(self) -> int {
        self.offsets.buffer.pvalues().len() - 1
    }

    /// Where row `i` begins.
    pub open spec fn offset(self, i: int) -> int {
        self.offsets.buffer.pvalues()[i].as_int()->0
    }

    /// The type is that of strings, and the offsets are integers that never decrease and stay
    /// within the bytes.
    pub open spec fn wf(self) -> bool {
        &&& self.dtype is Utf8 || self.dtype is Binary
        &&& self.dtype.nullability_spec() == self.validity.nullability_spec()
        &&& self.offsets.wf()
        &&& self.offsets.validity is NonNullable
        &&& self.offsets.buffer.ptype_spec().is_int_spec()
        &&& self.len_spec() >= 0
        &&& self.validity.wf(self.len_spec() as nat)
        &&& 0 <= self.offset(0)
        &&& self.offset(self.len_spec()) <= self.bytes@.len()
        &&& forall|i: int, j: int|
            0 <= i <= j <= self.len_spec() ==> #[trigger] self.offset(i) <= #[trigger] self.offset(
                j,
            )
    }

    /// The bytes of row `i`; `None` if it is null.
    pub open spec fn row(self, i: int) -> Option<Seq<u8>> {
        if self.validity.valid_at(i) {
            Some(self.bytes@.subrange(self.offset(i), self.offset(i + 1)))
        } else {
            None
        }
    }

    /// The rows of the array.
    pub open spec fn rows(self) -> Seq<Option<Seq<u8>>> {
        Seq::new(self.len_spec() as nat, |i: int| self.row(i))
    }

    /// The number of rows.
    pub fn len(&self) -> (n: usize)
        requires
            self.wf(),
        ensures
            n == self.rows().len(),
    {
        self.offsets.len() - 1
    }

    /// The offsets.
    pub fn offsets(&self) -> (r: &PrimitiveArray)
        ensures
            *r == self.offsets,
    {
        &self.offsets
    }

    /// The bytes of row `i`; `None` if it is null.
    pub fn row_at(&self, i: usize) -> (r: Option<&[u8]>)
        requires
            self.wf(),
            i < self.rows().len(),
        ensures
            match r {
                Some(bytes) => self.rows()[i as int] == Some(bytes@),
                None => self.rows()[i as int] is None,
            },
    {
        if !self.validity.is_valid(i) {
            return None;
        }
        let n: usize = self.len();
        assert(i < n);
        let ghost start = self.offset(i as int);
        let ghost end = self.offset(i + 1);
        proof {
            assert(self.offset(0) <= start <= end <= self.offset(self.len_spec()));
            assert(self.bytes@.len() == self.bytes.len());
            self.offsets.buffer.lemma_ptypes();
        }
        match (self.offsets.buffer.value_at(i).to_usize(), self.offsets.buffer.value_at(
            i + 1,
        ).to_usize()) {
            (Some(from), Some(to)) => {
                Some(vstd::slice::slice_subrange(self.bytes.as_slice(), from, to))
            },
            _ => vstd::pervasive::unreached(),
        }
    }
}

/// A row is null exactly where the validity says so. Otherwise it has the bytes from its own offset
/// up to the next one.
pub proof fn lemma_offset_row(array: VarBinArray, i: int)
    requires
        array.wf(),
        0 <= i < array.len_spec(),
    ensures
        array.rows().len() + 1 == array.offsets.buffer.pvalues().len(),
        array.rows()[i] is Some <==> array.validity.valid_at(i),
        array.rows()[i] matches Some(row) ==> {
            let from = array.offsets.buffer.pvalues()[i].as_int()->0;
            let to = array.offsets.buffer.pvalues()[i + 1].as_int()->0;
            &&& 0 <= from <= to <= array.bytes@.len()
            &&& row.len() == to - from
            &&& forall|k: int| 0 <= k < to - from ==> #[trigger] row[k] == array.bytes@[from + k]
        },
{
    assert(array.rows()[i] == array.row(i));
    assert(array.offset(0) <= array.offset(i) <= array.offset(i + 1));
    assert(array.offset(i + 1) <= array.offset(array.len_spec()));
}

/// An integer type that offsets can have.
pub trait OffsetPType: IntegerPType {
    /// The largest offset.
    spec fn max_offset() -> int;

    /// The offset for a number of bytes.
    fn from_usize(n: usize) -> (r: Self)
        requires
            n <= Self::max_offset(),
        ensures
            r.as_int() == n,
    ;

    /// Offsets are integers from zero on.
    proof fn lemma_int()
        ensures
            Self::ptype_spec().is_int_spec(),
            Self::max_offset() >= 0,
    ;
}

impl OffsetPType for i32 {
    open spec fn max_offset() -> int {
        i32::MAX as int
    }

    fn from_usize(n: usize) -> (r: Self) {
        n as i32
    }

    proof fn lemma_int() {
    }
}

impl OffsetPType for i64 {
    open spec fn max_offset() -> int {
        i64::MAX as int
    }

    fn from_usize(n: usize) -> (r: Self) {
        n as i64
    }

    proof fn lemma_int() {
    }
}

/// Builds an array of byte strings row by row, with offsets of type `O`.
pub struct VarBinBuilder<O: OffsetPType> {
    offsets: Vec<O>,
    data: Vec<u8>,
    validity: Vec<bool>,
}

impl<O: OffsetPType> VarBinBuilder<O> {
    /// The offsets never decrease and end where the bytes end.
    pub closed spec fn wf(self) -> bool {
        &&& self.offsets@.len() == self.validity@.len() + 1
        &&& self.offsets@[0].as_int() == 0
        &&& self.offsets@.last().as_int() == self.data@.len()
        &&& forall|i: int, j: int|
            0 <= i <= j < self.offsets@.len() ==> #[trigger] self.offsets@[i].as_int()
                <= #[trigger] self.offsets@[j].as_int()
    }

    /// The rows so far; `None` for a null row.
    pub closed spec fn rows(self) -> Seq<Option<Seq<u8>>> {
        Seq::new(
            self.validity@.len(),
            |i: int| built_row(self.data@, self.offsets@, self.validity@, i),
        )
    }

    /// The number of bytes so far.
    pub closed spec fn data_len(self) -> nat {
        self.data@.len()
    }

    /// A builder without rows that has room for `len` of them.
    pub fn with_capacity(len: usize) -> (r: Self)
        requires
            len < usize::MAX,
        ensures
            r.wf(),
            r.rows() == Seq::<Option<Seq<u8>>>::empty(),
            r.data_len() == 0,
    {
        proof {
            O::lemma_int();
        }
        let mut offsets: Vec<O> = Vec::with_capacity(len + 1);
        offsets.push(O::from_usize(0));
        let r = VarBinBuilder {
            offsets,
            data: Vec::new(),
            validity: Vec::with_capacity(len),
        };
        assert(r.rows() =~= Seq::<Option<Seq<u8>>>::empty());
        r
    }

    /// Appends a null row.
    pub fn append_null(&mut self)
        requires
            old(self).wf(),
            old(self).data_len() <= O::max_offset(),
        ensures
            final(self).wf(),
            final(self).rows() == old(self).rows().push(None),
            final(self).data_len() == old(self).data_len(),
    {
        let ghost before = *self;
        self.offsets.push(O::from_usize(self.data.len()));
        self.validity.push(false);
        proof {
            assert(self.offsets@.drop_last() =~= before.offsets@);
            lemma_appended(before, *self, None);
        }
    }

    /// Appends a row.
    pub fn append_value(&mut self, value: &[u8])
        requires
            old(self).wf(),
            old(self).data_len() + value@.len() <= O::max_offset(),
            old(self).data_len() + value@.len() <= usize::MAX,
        ensures
            final(self).wf(),
            final(self).rows() == old(self).rows().push(Some(value@)),
            final(self).data_len() == old(self).data_len() + value@.len(),
    {
        let ghost before = *self;
        let mut i: usize = 0;
        while i < value.len()
            invariant
                i <= value@.len(),
                self.offsets@ == before.offsets@,
                self.validity@ == before.validity@,
                self.data@ == before.data@ + value@.take(i as int),
            decreases value@.len() - i,
        {
            self.data.push(value[i]);
            i = i + 1;
            assert(self.data@ =~= before.data@ + value@.take(i as int));
        }
        assert(value@.take(i as int) =~= value@);
        self.offsets.push(O::from_usize(self.data.len()));
        self.validity.push(true);
        proof {
            assert(self.offsets@.drop_last() =~= before.offsets@);
            lemma_appended(before, *self, Some(value@));
        }
    }

    /// Makes an array of the rows.
    ///
    /// Without nullability no row may be null.
    pub fn finish(self, dtype: DType) -> (r: VarBinArray)
        requires
            self.wf(),
            dtype is Utf8 || dtype is Binary,
            dtype.nullability_spec() is NonNullable ==> forall|i: int|
                0 <= i < self.rows().len() ==> (#[trigger] self.rows()[i]) is Some,
        ensures
            r.wf(),
            r.dtype == dtype,
            r.rows() == self.rows(),
            r.offsets.buffer.ptype_spec() == O::ptype_spec(),
            r.offset(0) == 0,
            r.bytes@.len() == self.data_len(),
    {
        let ghost rows = self.rows();
        let ghost offsets = self.offsets@;
        let ghost bits = self.validity@;
        proof {
            O::lemma_int();
            if dtype.nullability_spec() is NonNullable {
                assert forall|i: int| 0 <= i < bits.len() implies #[trigger] bits[i] by {
                    assert(rows[i] is Some);
                }
            }
        }
        let validity = match dtype.nullability() {
            Nullability::NonNullable => Validity::NonNullable,
            Nullability::Nullable => Validity::from_mask(
                Mask::from_bits(self.validity),
                Nullability::Nullable,
            ),
        };
        let r = VarBinArray {
            dtype,
            offsets: PrimitiveArray::new(self.offsets, Validity::NonNullable),
            bytes: self.data,
            validity,
        };
        proof {
            assert forall|i: int| 0 <= i < offsets.len() implies #[trigger] r.offset(i)
                == offsets[i].as_int() by {
                offsets[i].lemma_tagged();
                assert(r.offsets.buffer.pvalues()[i] == offsets[i].pvalue());
            }
            assert forall|i: int| 0 <= i < rows.len() implies #[trigger] r.rows()[i] == rows[i] by {
                if dtype.nullability_spec() is Nullable {
                    assert(validity.bits(bits.len())[i] == bits[i]);
                }
                assert(rows[i] == built_row(r.bytes@, offsets, bits, i));
            }
            assert(r.rows() =~= rows);
        }
        r
    }
}

/// The bytes between two offsets; `None` for a null row.
spec fn built_row<O: OffsetPType>(
    data: Seq<u8>,
    offsets: Seq<O>,
    validity: Seq<bool>,
    i: int,
) -> Option<Seq<u8>> {
    if validity[i] {
        Some(data.subrange(offsets[i].as_int(), offsets[i + 1].as_int()))
    } else {
        None
    }
}

/// Appending a row leaves the rows before it as they are.
proof fn lemma_appended<O: OffsetPType>(
    before: VarBinBuilder<O>,
    after: VarBinBuilder<O>,
    row: Option<Seq<u8>>,
)
    requires
        before.wf(),
        after.offsets@.len() == before.offsets@.len() + 1,
        after.offsets@.drop_last() == before.offsets@,
        after.offsets@.last().as_int() == after.data@.len(),
        after.validity@ == before.validity@.push(row is Some),
        after.data@ == (match row {
            Some(value) => before.data@ + value,
            None => before.data@,
        }),
    ensures
        after.wf(),
        after.rows() == before.rows().push(row),
{
    let n = before.validity@.len() as int;
    assert forall|i: int| 0 <= i <= n implies #[trigger] after.offsets@[i] == before.offsets@[i] by {
        assert(after.offsets@.drop_last()[i] == before.offsets@[i]);
    }
    assert forall|i: int, j: int| 0 <= i <= j < after.offsets@.len() implies
        #[trigger] after.offsets@[i].as_int() <= #[trigger] after.offsets@[j].as_int() by {
        if j == n + 1 && i <= n {
            assert(before.offsets@[i].as_int() <= before.offsets@[n].as_int());
        }
    }
    assert forall|i: int| 0 <= i <= n implies #[trigger] after.rows()[i] == before.rows().push(
        row,
    )[i] by {
        if i < n {
            assert(before.rows()[i] == built_row(
                before.data@,
                before.offsets@,
                before.validity@,
                i,
            ));
            assert(after.validity@[i] == before.validity@[i]);
            let from = before.offsets@[i].as_int();
            let to = before.offsets@[i + 1].as_int();
            assert(before.offsets@[0].as_int() <= from);
            assert(from <= to);
            assert(to <= before.offsets@[n].as_int());
            assert(after.data@.subrange(from, to) =~= before.data@.subrange(from, to));
        } else if let Some(value) = row {
            assert(after.data@.subrange(before.data@.len() as int, after.data@.len() as int)
                =~= value);
        }
    }
    assert(after.rows() =~= before.rows().push(row));
}

} // verus!
