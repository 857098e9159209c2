//! Which rows of an array are not null.

use vstd::prelude::*;

use crate::dtype::Nullability;
use crate::mask::Mask;

verus! {

/// Which rows of an array are not null.
pub enum Validity {
    /// Rows cannot be null.
    NonNullable,
    /// Rows could be null but none is.
    AllValid,
    /// Every row is null.
    AllInvalid,
    /// Row `i` is null unless the mask selects it.
    Array(Mask),
}

impl Validity {
    /// Whether row `i` is not null.
    pub open spec fn valid_at(self, i: int) -> bool {
        match self {
            Validity::NonNullable => true,
            Validity::AllValid => true,
            Validity::AllInvalid => false,
            Validity::Array(mask) => mask@[i],
        }
    }

    /// One bit per row: whether the row is not null.
    pub open spec fn bits(self, len: nat) -> Seq<bool> {
        Seq::new(len, |i: int| self.valid_at(i))
    }

    /// The validity describes an array of `len` rows.
    pub open spec fn wf(self, len: nat) -> bool {
        self matches Validity::Array(mask) ==> mask.wf() && mask@.len() == len
    }

    pub open spec fn nullability_spec(self) -> Nullability {
        match self {
            Validity::NonNullable => Nullability::NonNullable,
            _ => Nullability::Nullable,
        }
    }

    pub open spec fn no_nulls_spec(self) -> bool {
        self is NonNullable || self is AllValid
    }

    /// Whether rows could be null.
    pub fn nullability(&self) -> (r: Nullability)
        ensures
            r == self.nullability_spec(),
    {
        match self {
            Validity::NonNullable => Nullability::NonNullable,
            _ => Nullability::Nullable,
        }
    }

    /// Whether it is known without looking at any row that none is null.
    pub fn no_nulls(&self) -> (b: bool)
        ensures
            b == self.no_nulls_spec(),
    {
        matches!(self, Validity::NonNullable | Validity::AllValid)
    }

    /// Whether row `i` is not null.
    pub fn is_valid(&self, i: usize) -> (b: bool)
        requires
            self matches Validity::Array(mask) ==> i < mask@.len(),
        ensures
            b == self.valid_at(i as int),
    {
        match self {
            Validity::NonNullable => true,
            Validity::AllValid => true,
            Validity::AllInvalid => false,
            Validity::Array(mask) => mask.value(i),
        }
    }

    /// The mask of rows that are not null.
    pub fn execute_mask(&self, len: usize) -> (mask: Mask)
        requires
            self.wf(len as nat),
        ensures
            mask.wf(),
            mask@ == self.bits(len as nat),
            self.no_nulls_spec() ==> mask is AllTrue,
    {
        let mask = match self {
            Validity::NonNullable => Mask::AllTrue(len),
            Validity::AllValid => Mask::AllTrue(len),
            Validity::AllInvalid => Mask::AllFalse(len),
            Validity::Array(mask) => mask.clone(),
        };
        assert(mask@ =~= self.bits(len as nat));
        mask
    }

    /// The validity that a mask stands for under the given nullability.
    pub open spec fn from_mask_spec(mask: Mask, nullability: Nullability) -> Validity {
        match mask {
            Mask::AllTrue(_) => match nullability {
                Nullability::NonNullable => Validity::NonNullable,
                Nullability::Nullable => Validity::AllValid,
            },
            Mask::AllFalse(_) => Validity::AllInvalid,
            Mask::Values(_) => Validity::Array(mask),
        }
    }

    /// The validity that a mask stands for under the given nullability.
    ///
    /// Rows that cannot be null need a mask that selects them all.
    pub fn from_mask(mask: Mask, nullability: Nullability) -> (r: Validity)
        requires
            mask.wf(),
            nullability is Nullable || mask is AllTrue,
        ensures
            r == Self::from_mask_spec(mask, nullability),
            r.wf(mask@.len()),
            r.bits(mask@.len()) == mask@,
            r.nullability_spec() == nullability,
    {
        let ghost bits = mask@;
        let r = match mask {
            Mask::AllTrue(_) => match nullability {
                Nullability::NonNullable => Validity::NonNullable,
                Nullability::Nullable => Validity::AllValid,
            },
            Mask::AllFalse(_) => Validity::AllInvalid,
            Mask::Values(values) => Validity::Array(Mask::Values(values)),
        };
        assert(r.bits(bits.len()) =~= bits);
        r
    }

    /// The validity of an array without nulls.
    pub fn from_nullability(nullability: Nullability) -> (r: Validity)
        ensures
            r == (match nullability {
                Nullability::NonNullable => Validity::NonNullable,
                Nullability::Nullable => Validity::AllValid,
            }),
    {
        match nullability {
            Nullability::NonNullable => Validity::NonNullable,
            Nullability::Nullable => Validity::AllValid,
        }
    }
}

impl Clone for Validity {
    fn clone(&self) -> (r: Self)
        ensures
            r is NonNullable == self is NonNullable,
            r is AllValid == self is AllValid,
            r is AllInvalid == self is AllInvalid,
            forall|n: nat| self.wf(n) ==> #[trigger] r.wf(n),
            forall|i: int| #[trigger] r.valid_at(i) == self.valid_at(i),
    {
        match self {
            Validity::NonNullable => Validity::NonNullable,
            Validity::AllValid => Validity::AllValid,
            Validity::AllInvalid => Validity::AllInvalid,
            Validity::Array(mask) => Validity::Array(mask.clone()),
        }
    }
}

/// Rows that cannot be null and rows none of which is null are all there, rows all of which are null
/// are not, and otherwise the mask tells for each row.
pub proof fn lemma_validity(validity: Validity, i: int, len: nat)
    ensures
        validity is NonNullable || validity is AllValid ==> validity.valid_at(i)
            && validity.no_nulls_spec(),
        validity is AllInvalid ==> !validity.valid_at(i) && !validity.no_nulls_spec(),
        validity matches Validity::Array(mask) ==> validity.valid_at(i) == mask@[i]
            && !validity.no_nulls_spec(),
        validity.no_nulls_spec() ==> validity.valid_at(i),
        validity.nullability_spec() is NonNullable <==> validity is NonNullable,
        validity.bits(len).len() == len,
        0 <= i < len ==> validity.bits(len)[i] == validity.valid_at(i),
{
}

/// A mask that selects all rows makes a validity without nulls, one that selects none makes one of
/// nulls only, and any other is kept.
pub proof fn lemma_from_mask(mask: Mask, nullability: Nullability, i: int)
    requires
        0 <= i < mask@.len(),
        nullability is Nullable || mask is AllTrue,
    ensures
        Validity::from_mask_spec(mask, nullability).valid_at(i) == mask@[i],
        Validity::from_mask_spec(mask, nullability).nullability_spec() == nullability,
        mask is AllTrue ==> Validity::from_mask_spec(mask, nullability).no_nulls_spec(),
{
}

} // verus!
