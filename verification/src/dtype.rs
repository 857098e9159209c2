//! Logical types.

use vstd::prelude::*;
use std::sync::Arc;

use crate::share::share;

verus! {

/// Whether rows may be null.
#[derive(Clone, Copy, Debug, PartialEq, Eq, Structural)]
pub enum Nullability {
    NonNullable,
    Nullable,
}

impl Nullability {
    /// Nullable if either side is.
    pub open spec fn union_spec(self, other: Nullability) -> Nullability {
        if self is Nullable || other is Nullable {
            Nullability::Nullable
        } else {
            Nullability::NonNullable
        }
    }

    /// Nullable if either side is.
    pub fn union(self, other: Nullability) -> (r: Nullability)
        ensures
            r == self.union_spec(other),
    {
        match (self, other) {
            (Nullability::NonNullable, Nullability::NonNullable) => Nullability::NonNullable,
            _ => Nullability::Nullable,
        }
    }
}

/// The physical types of primitive arrays.
#[derive(Clone, Copy, Debug, PartialEq, Eq, Structural)]
pub enum PType {
    U8,
    U16,
    U32,
    U64,
    I8,
    I16,
    I32,
    I64,
    F16,
    F32,
    F64,
}

impl PType {
    pub open spec fn is_unsigned_int_spec(self) -> bool {
        self is U8 || self is U16 || self is U32 || self is U64
    }

    pub open spec fn is_int_spec(self) -> bool {
        self.is_unsigned_int_spec() || self is I8 || self is I16 || self is I32 || self is I64
    }

    /// The unsigned integer type of the same width as an integer type.
    pub open spec fn to_unsigned_spec(self) -> PType {
        match self {
            PType::I8 => PType::U8,
            PType::I16 => PType::U16,
            PType::I32 => PType::U32,
            PType::I64 => PType::U64,
            other => other,
        }
    }

    /// The unsigned integer type of the same width as an integer type.
    pub fn to_unsigned(self) -> (r: PType)
        ensures
            r == self.to_unsigned_spec(),
    {
        match self {
            PType::I8 => PType::U8,
            PType::I16 => PType::U16,
            PType::I32 => PType::U32,
            PType::I64 => PType::U64,
            other => other,
        }
    }

    /// Whether this is an unsigned integer type.
    pub fn is_unsigned_int(self) -> (b: bool)
        ensures
            b == self.is_unsigned_int_spec(),
    {
        matches!(self, PType::U8 | PType::U16 | PType::U32 | PType::U64)
    }

    /// Whether this is an integer type.
    pub fn is_int(self) -> (b: bool)
        ensures
            b == self.is_int_spec(),
    {
        !matches!(self, PType::F16 | PType::F32 | PType::F64)
    }

    /// The number of bytes of one value.
    pub fn byte_width(self) -> (n: usize)
        ensures
            n == self.byte_width_spec(),
    {
        match self {
            PType::U8 | PType::I8 => 1,
            PType::U16 | PType::I16 | PType::F16 => 2,
            PType::U32 | PType::I32 | PType::F32 => 4,
            PType::U64 | PType::I64 | PType::F64 => 8,
        }
    }

    pub open spec fn byte_width_spec(self) -> usize {
        match self {
            PType::U8 | PType::I8 => 1,
            PType::U16 | PType::I16 | PType::F16 => 2,
            PType::U32 | PType::I32 | PType::F32 => 4,
            PType::U64 | PType::I64 | PType::F64 => 8,
        }
    }
}

/// The precision and scale of a decimal type.
#[derive(Clone, Copy, Debug, PartialEq, Eq, Structural)]
pub struct DecimalDType {
    pub precision: u8,
    pub scale: i8,
}

/// A named field of a struct type.
#[derive(Debug, PartialEq, Eq)]
pub struct Field {
    pub name: Vec<u8>,
    pub dtype: DType,
}

/// A logical type.
#[derive(Debug, PartialEq, Eq)]
pub enum DType {
    Null,
    Bool(Nullability),
    Primitive(PType, Nullability),
    Decimal(DecimalDType, Nullability),
    Utf8(Nullability),
    Binary(Nullability),
    List(Arc<DType>, Nullability),
    FixedSizeList(Arc<DType>, u32, Nullability),
    Struct(Arc<Vec<Field>>, Nullability),
}

impl DType {
    pub open spec fn nullability_spec(self) -> Nullability {
        match self {
            DType::Null => Nullability::Nullable,
            DType::Bool(n) => n,
            DType::Primitive(_, n) => n,
            DType::Decimal(_, n) => n,
            DType::Utf8(n) => n,
            DType::Binary(n) => n,
            DType::List(_, n) => n,
            DType::FixedSizeList(_, _, n) => n,
            DType::Struct(_, n) => n,
        }
    }

    /// The same type with the given nullability; the null type is always nullable.
    pub open spec fn with_nullability_spec(self, n: Nullability) -> DType {
        match self {
            DType::Null => DType::Null,
            DType::Bool(_) => DType::Bool(n),
            DType::Primitive(p, _) => DType::Primitive(p, n),
            DType::Decimal(d, _) => DType::Decimal(d, n),
            DType::Utf8(_) => DType::Utf8(n),
            DType::Binary(_) => DType::Binary(n),
            DType::List(e, _) => DType::List(e, n),
            DType::FixedSizeList(e, k, _) => DType::FixedSizeList(e, k, n),
            DType::Struct(fs, _) => DType::Struct(fs, n),
        }
    }

    /// The same type, nullable if it or `n` is.
    pub open spec fn union_nullability_spec(self, n: Nullability) -> DType {
        self.with_nullability_spec(self.nullability_spec().union_spec(n))
    }

    /// Whether rows of this type may be null.
    pub fn nullability(&self) -> (r: Nullability)
        ensures
            r == self.nullability_spec(),
    {
        match self {
            DType::Null => Nullability::Nullable,
            DType::Bool(n) => *n,
            DType::Primitive(_, n) => *n,
            DType::Decimal(_, n) => *n,
            DType::Utf8(n) => *n,
            DType::Binary(n) => *n,
            DType::List(_, n) => *n,
            DType::FixedSizeList(_, _, n) => *n,
            DType::Struct(_, n) => *n,
        }
    }

    /// Whether rows of this type may be null.
    pub fn is_nullable(&self) -> (b: bool)
        ensures
            b == (self.nullability_spec() is Nullable),
    {
        matches!(self.nullability(), Nullability::Nullable)
    }

    /// The same type with the given nullability.
    pub fn with_nullability(&self, n: Nullability) -> (r: DType)
        ensures
            r == self.with_nullability_spec(n),
    {
        match self {
            DType::Null => DType::Null,
            DType::Bool(_) => DType::Bool(n),
            DType::Primitive(p, _) => DType::Primitive(*p, n),
            DType::Decimal(d, _) => DType::Decimal(*d, n),
            DType::Utf8(_) => DType::Utf8(n),
            DType::Binary(_) => DType::Binary(n),
            DType::List(e, _) => DType::List(share(e), n),
            DType::FixedSizeList(e, k, _) => DType::FixedSizeList(share(e), *k, n),
            DType::Struct(fs, _) => DType::Struct(share(fs), n),
        }
    }

    /// The same type, nullable if it or `n` is.
    pub fn union_nullability(&self, n: Nullability) -> (r: DType)
        ensures
            r == self.union_nullability_spec(n),
    {
        self.with_nullability(self.nullability().union(n))
    }

    /// The nullable version of this type.
    pub fn as_nullable(&self) -> (r: DType)
        ensures
            r == self.with_nullability_spec(Nullability::Nullable),
    {
        self.with_nullability(Nullability::Nullable)
    }

    /// Whether this is the boolean type.
    pub fn is_boolean(&self) -> (b: bool)
        ensures
            b == (self is Bool),
    {
        matches!(self, DType::Bool(_))
    }

    /// Whether this is a primitive type.
    pub fn is_primitive(&self) -> (b: bool)
        ensures
            b == (self is Primitive),
    {
        matches!(self, DType::Primitive(_, _))
    }

    /// Whether this is a decimal type.
    pub fn is_decimal(&self) -> (b: bool)
        ensures
            b == (self is Decimal),
    {
        matches!(self, DType::Decimal(_, _))
    }
}

impl DType {
    /// Whether two types are equal part by part.
    pub open spec fn same(self, other: DType) -> bool
        decreases self,
    {
        match (self, other) {
            (DType::Null, DType::Null) => true,
            (DType::Bool(m), DType::Bool(n)) => m == n,
            (DType::Primitive(p, m), DType::Primitive(q, n)) => p == q && m == n,
            (DType::Decimal(d, m), DType::Decimal(e, n)) => d == e && m == n,
            (DType::Utf8(m), DType::Utf8(n)) => m == n,
            (DType::Binary(m), DType::Binary(n)) => m == n,
            (DType::List(d, m), DType::List(e, n)) => m == n && d.same(*e),
            (DType::FixedSizeList(d, j, m), DType::FixedSizeList(e, k, n)) => m == n && j == k
                && d.same(*e),
            (DType::Struct(fs, m), DType::Struct(gs, n)) => {
                &&& m == n
                &&& fs@.len() == gs@.len()
                &&& forall|i: int|
                    #![trigger fs@[i]]
                    0 <= i < fs@.len() ==> fs@[i].name@ == gs@[i].name@ && fs@[i].dtype.same(
                        gs@[i].dtype,
                    )
            },
            _ => false,
        }
    }

    /// A type equals itself.
    pub proof fn lemma_same_refl(dtype: &DType)
        ensures
            dtype.same(*dtype),
        decreases *dtype,
    {
        match dtype {
            DType::List(e, _) => DType::lemma_same_refl(&**e),
            DType::FixedSizeList(e, _, _) => DType::lemma_same_refl(&**e),
            DType::Struct(fs, _) => {
                assert forall|i: int|
                    #![trigger fs@[i]]
                    0 <= i < fs@.len() implies fs@[i].dtype.same(fs@[i].dtype) by {
                    DType::lemma_same_refl(&fs@[i].dtype);
                }
            },
            _ => {},
        }
    }

    /// Whether two types are equal.
    pub fn equals(&self, other: &DType) -> (b: bool)
        ensures
            b == self.same(*other),
        decreases *self,
    {
        match (self, other) {
            (DType::Null, DType::Null) => true,
            (DType::Bool(m), DType::Bool(n)) => *m == *n,
            (DType::Primitive(p, m), DType::Primitive(q, n)) => *p == *q && *m == *n,
            (DType::Decimal(d, m), DType::Decimal(e, n)) => *d == *e && *m == *n,
            (DType::Utf8(m), DType::Utf8(n)) => *m == *n,
            (DType::Binary(m), DType::Binary(n)) => *m == *n,
            (DType::List(d, m), DType::List(e, n)) => *m == *n && d.equals(e),
            (DType::FixedSizeList(d, j, m), DType::FixedSizeList(e, k, n)) => *m == *n && *j == *k
                && d.equals(e),
            (DType::Struct(fs, m), DType::Struct(gs, n)) => {
                if *m != *n || fs.len() != gs.len() {
                    return false;
                }
                let mut i: usize = 0;
                while i < fs.len()
                    invariant
                        i <= fs@.len(),
                        fs@.len() == gs@.len(),
                        *m == *n,
                        *self == DType::Struct(*fs, *m),
                        *other == DType::Struct(*gs, *n),
                        forall|k: int|
                            #![trigger fs@[k]]
                            0 <= k < i ==> fs@[k].name@ == gs@[k].name@ && fs@[k].dtype.same(
                                gs@[k].dtype,
                            ),
                    decreases fs@.len() - i,
                {
                    assert(decreases_to!(**fs => fs@));
                    assert(decreases_to!(fs@ => fs@[i as int]));
                    assert(decreases_to!(fs@[i as int] => fs@[i as int].dtype));
                    assert(decreases_to!(*self => self->Struct_0));
                    if !same_bytes(&fs[i].name, &gs[i].name) || !fs[i].dtype.equals(&gs[i].dtype) {
                        assert(fs@[i as int].name@ != gs@[i as int].name@
                            || !fs@[i as int].dtype.same(gs@[i as int].dtype));
                        return false;
                    }
                    i = i + 1;
                }
                true
            },
            _ => false,
        }
    }
}

/// Whether two byte strings are equal.
fn same_bytes(left: &Vec<u8>, right: &Vec<u8>) -> (b: bool)
    ensures
        b == (left@ == right@),
{
    if left.len() != right.len() {
        return false;
    }
    let mut i: usize = 0;
    while i < left.len()
        invariant
            i <= left@.len(),
            left@.len() == right@.len(),
            forall|k: int| 0 <= k < i ==> #[trigger] left@[k] == right@[k],
        decreases left@.len() - i,
    {
        if left[i] != right[i] {
            return false;
        }
        i = i + 1;
    }
    assert(left@ =~= right@);
    true
}

impl Clone for DType {
    fn clone(&self) -> (r: Self)
        ensures
            r == *self,
    {
        self.with_nullability(self.nullability())
    }
}

/// Changing the nullability of a type changes nothing else, and can be undone. The null type stays
/// as it is.
pub proof fn lemma_with_nullability(dtype: DType, n: Nullability, m: Nullability)
    ensures
        dtype is Null ==> dtype.with_nullability_spec(n) == dtype,
        dtype is Null ==> dtype.nullability_spec() is Nullable,
        !(dtype is Null) ==> dtype.with_nullability_spec(n).nullability_spec() == n,
        dtype.with_nullability_spec(n).with_nullability_spec(m) == dtype.with_nullability_spec(m),
        dtype.with_nullability_spec(dtype.nullability_spec()) == dtype,
{
}

/// The union of a type with a nullability is nullable exactly if one of the two is, and otherwise
/// the same type.
pub proof fn lemma_union_nullability(dtype: DType, n: Nullability)
    ensures
        dtype.union_nullability_spec(n).nullability_spec() is Nullable
            <==> dtype.nullability_spec() is Nullable || n is Nullable,
        dtype.union_nullability_spec(n).with_nullability_spec(dtype.nullability_spec()) == dtype,
        n is NonNullable ==> dtype.union_nullability_spec(n) == dtype,
{
}

/// The width of an integer type does not change when it is made unsigned, and unsigned types stay
/// as they are.
pub proof fn lemma_to_unsigned(ptype: PType)
    ensures
        ptype.is_int_spec() ==> ptype.to_unsigned_spec().is_unsigned_int_spec(),
        ptype.to_unsigned_spec().byte_width_spec() == ptype.byte_width_spec(),
        ptype.is_unsigned_int_spec() ==> ptype.to_unsigned_spec() == ptype,
        ptype.is_int_spec() <==> !(ptype is F16 || ptype is F32 || ptype is F64),
        ptype.is_unsigned_int_spec() ==> ptype.is_int_spec(),
        ptype.is_unsigned_int_spec() <==> ptype.is_int_spec() && !(ptype is I8 || ptype is I16
            || ptype is I32 || ptype is I64),
{
}

/// Types are equal only if they are of the same kind and agree in nullability and in all that the
/// kind says of them.
pub proof fn lemma_same_parts(left: DType, right: DType)
    requires
        left.same(right),
    ensures
        left.nullability_spec() == right.nullability_spec(),
        left is Null <==> right is Null,
        left is Bool <==> right is Bool,
        left is Utf8 <==> right is Utf8,
        left is Binary <==> right is Binary,
        left matches DType::Primitive(p, _) ==> (right matches DType::Primitive(q, _) && p == q),
        left matches DType::Decimal(d, _) ==> (right matches DType::Decimal(e, _) && d == e),
        left matches DType::List(d, _) ==> (right matches DType::List(e, _) && d.same(*e)),
        left matches DType::FixedSizeList(d, j, _) ==> (right matches DType::FixedSizeList(e, k, _)
            && j == k && d.same(*e)),
        left matches DType::Struct(fs, _) ==> (right matches DType::Struct(gs, _) && fs@.len()
            == gs@.len() && forall|i: int|
            #![trigger fs@[i]]
            0 <= i < fs@.len() ==> fs@[i].name@ == gs@[i].name@ && fs@[i].dtype.same(gs@[i].dtype)),
{
}

/// Which of two types is named first makes no difference to whether they are equal.
pub proof fn lemma_same_symmetric(left: &DType, right: &DType)
    requires
        left.same(*right),
    ensures
        right.same(*left),
    decreases *left,
{
    match (left, right) {
        (DType::List(d, _), DType::List(e, _)) => lemma_same_symmetric(&**d, &**e),
        (DType::FixedSizeList(d, _, _), DType::FixedSizeList(e, _, _)) => lemma_same_symmetric(
            &**d,
            &**e,
        ),
        (DType::Struct(fs, _), DType::Struct(gs, _)) => {
            assert forall|i: int|
                #![trigger gs@[i]]
                0 <= i < gs@.len() implies gs@[i].name@ == fs@[i].name@ && gs@[i].dtype.same(
                fs@[i].dtype,
            ) by {
                assert(fs@[i].dtype.same(gs@[i].dtype));
                lemma_same_symmetric(&fs@[i].dtype, &gs@[i].dtype);
            }
        },
        _ => {},
    }
}

/// Types of the same kind that agree in nullability and in all that the kind says of them are equal.
pub proof fn lemma_same_from_parts(left: DType, right: DType)
    requires
        left.nullability_spec() == right.nullability_spec(),
    ensures
        left is Null && right is Null ==> left.same(right),
        left is Bool && right is Bool ==> left.same(right),
        left is Utf8 && right is Utf8 ==> left.same(right),
        left is Binary && right is Binary ==> left.same(right),
        left matches DType::Primitive(p, _) ==> (right matches DType::Primitive(q, _) ==> (p == q
            ==> left.same(right))),
        left matches DType::Decimal(d, _) ==> (right matches DType::Decimal(e, _) ==> (d == e
            ==> left.same(right))),
        left matches DType::List(d, _) ==> (right matches DType::List(e, _) ==> (d.same(*e)
            ==> left.same(right))),
        left matches DType::FixedSizeList(d, j, _) ==> (right matches DType::FixedSizeList(e, k, _)
            ==> (j == k && d.same(*e) ==> left.same(right))),
        left matches DType::Struct(fs, _) ==> (right matches DType::Struct(gs, _) ==> (fs@.len()
            == gs@.len() && (forall|i: int|
            #![trigger fs@[i]]
            0 <= i < fs@.len() ==> fs@[i].name@ == gs@[i].name@ && fs@[i].dtype.same(gs@[i].dtype))
            ==> left.same(right))),
{
}

} // verus!
