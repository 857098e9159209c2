//! Computing the primitive form of an array, and casting it to unsigned integers.

use vstd::prelude::*;

use super::{primitive_row, PrimitiveArray, PrimitiveBuffer};
use crate::array::{row_index, row_indices, ArrayData, ArrayRef};
use crate::dtype::{DType, Nullability};
use crate::error::{VortexError, VortexResult};
use crate::mask::Mask;
use crate::scalar::{row_fits, PValue, ScalarValue};
use crate::validity::Validity;

verus! {

/// Some index is negative.
pub open spec fn has_negative(indices: Seq<Option<int>>) -> bool {
    exists|i: int|
        0 <= i < indices.len() && (#[trigger] indices[i]) is Some && indices[i]->0 < 0
}

impl ArrayRef {
    /// Computes the primitive array with the same rows.
    pub fn execute_primitive(&self) -> (r: PrimitiveArray)
        requires
            self.wf(),
            self.dtype_spec() is Primitive,
        ensures
            r.wf(),
            r.rows() == self.rows(),
            r.dtype_spec() == self.dtype_spec(),
            self.inner.data matches ArrayData::Primitive(a) ==> r.buffer.pvalues()
                == a.buffer.pvalues(),
    {
        if let ArrayData::Primitive(a) = &self.inner.data {
            return a.copy();
        }
        proof {
            ArrayRef::lemma_rows(self);
        }
        let (ptype, nullability) = match self.dtype() {
            DType::Primitive(ptype, nullability) => (*ptype, *nullability),
            _ => vstd::pervasive::unreached(),
        };
        let n: usize = self.len();
        let mut buffer = PrimitiveBuffer::empty(ptype);
        let mut bits: Vec<bool> = Vec::with_capacity(n);
        let mut i: usize = 0;
        while i < n
            invariant
                self.wf(),
                n == self.len_spec(),
                self.rows().len() == n,
                self.dtype_spec() == DType::Primitive(ptype, nullability),
                forall|k: int|
                    0 <= k < n ==> row_fits(#[trigger] self.rows()[k], self.dtype_spec()),
                i <= n,
                bits@.len() == i,
                buffer.ptype_spec() == ptype,
                buffer.pvalues().len() == i,
                forall|k: int|
                    0 <= k < i ==> #[trigger] primitive_row(buffer.pvalues()[k], bits@[k])
                        == self.rows()[k],
                nullability is NonNullable ==> forall|k: int| 0 <= k < i ==> #[trigger] bits@[k],
            decreases n - i,
        {
            let row = self.row_at(i);
            let ghost before = buffer.pvalues();
            let ghost bits_before = bits@;
            assert(row_fits(self.rows()[i as int], self.dtype_spec()));
            match row {
                Some(ScalarValue::Primitive(value)) => {
                    buffer.push(value);
                    bits.push(true);
                },
                _ => {
                    buffer.push(PValue::zero(ptype));
                    bits.push(false);
                },
            }
            assert forall|k: int| 0 <= k < i + 1 implies #[trigger] primitive_row(
                buffer.pvalues()[k],
                bits@[k],
            ) == self.rows()[k] by {
                if k < i {
                    assert(buffer.pvalues()[k] == before[k]);
                    assert(bits@[k] == bits_before[k]);
                    assert(primitive_row(before[k], bits_before[k]) == self.rows()[k]);
                }
            }
            i = i + 1;
        }
        let ghost all_bits = bits@;
        let validity = match nullability {
            Nullability::NonNullable => Validity::NonNullable,
            Nullability::Nullable => Validity::from_mask(
                Mask::from_bits(bits),
                Nullability::Nullable,
            ),
        };
        let r = PrimitiveArray { buffer, validity };
        assert forall|k: int| 0 <= k < n implies r.rows()[k] == #[trigger] self.rows()[k] by {
            assert(primitive_row(buffer.pvalues()[k], all_bits[k]) == self.rows()[k]);
            if nullability is Nullable {
                assert(validity.bits(n as nat)[k] == all_bits[k]);
            }
        }
        assert(r.rows() =~= self.rows());
        r
    }
}

impl PrimitiveArray {
    /// Casts integers to unsigned integers of the same width.
    ///
    /// Fails if a row that is not null is negative.
    pub fn cast_to_unsigned(&self) -> (r: VortexResult<PrimitiveArray>)
        requires
            self.wf(),
            self.buffer.ptype_spec().is_int_spec(),
        ensures
            r is Err <==> has_negative(row_indices(self.rows())),
            r matches Err(e) ==> e == VortexError::CastOutOfRange,
            r matches Ok(a) ==> {
                &&& a.wf()
                &&& a.buffer.ptype_spec() == self.buffer.ptype_spec().to_unsigned_spec()
                &&& a.validity.nullability_spec() == self.validity.nullability_spec()
                &&& row_indices(a.rows()) == row_indices(self.rows())
            },
    {
        let n: usize = self.len();
        let ptype = self.buffer.ptype().to_unsigned();
        let mut buffer = PrimitiveBuffer::empty(ptype);
        let mut i: usize = 0;
        proof {
            self.buffer.lemma_ptypes();
        }
        while i < n
            invariant
                self.wf(),
                n == self.buffer.pvalues().len(),
                self.buffer.ptype_spec().is_int_spec(),
                ptype == self.buffer.ptype_spec().to_unsigned_spec(),
                forall|k: int|
                    0 <= k < n ==> (#[trigger] self.buffer.pvalues()[k]).ptype_spec()
                        == self.buffer.ptype_spec(),
                i <= n,
                buffer.ptype_spec() == ptype,
                buffer.pvalues().len() == i,
                forall|k: int|
                    0 <= k < i && self.validity.valid_at(k) ==> (
                    #[trigger] buffer.pvalues()[k]).as_int() == self.buffer.pvalues()[k].as_int()
                        && buffer.pvalues()[k].as_int()->0 >= 0,
            decreases n - i,
        {
            if self.validity.is_valid(i) {
                match self.buffer.value_at(i).to_unsigned() {
                    Some(value) => buffer.push(value),
                    None => {
                        assert(row_indices(self.rows())[i as int] == row_index(
                            self.rows()[i as int],
                        ));
                        return Err(VortexError::CastOutOfRange);
                    },
                }
            } else {
                buffer.push(PValue::zero(ptype));
            }
            i = i + 1;
        }
        let r = PrimitiveArray { buffer, validity: self.validity.clone() };
        assert forall|k: int| 0 <= k < n implies #[trigger] row_indices(r.rows())[k]
            == row_indices(self.rows())[k] && (row_indices(r.rows())[k] matches Some(v) ==> v
            >= 0) by {
            assert(r.validity.valid_at(k) == self.validity.valid_at(k));
            assert(row_indices(r.rows())[k] == row_index(r.rows()[k]));
            assert(row_indices(self.rows())[k] == row_index(self.rows()[k]));
            if self.validity.valid_at(k) {
                assert(buffer.pvalues()[k].as_int() == self.buffer.pvalues()[k].as_int());
            }
        }
        assert(row_indices(r.rows()) =~= row_indices(self.rows()));
        Ok(r)
    }
}

} // verus!
