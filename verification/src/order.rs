//! The order of scalar values.

use vstd::prelude::*;

use crate::native::{F16, F32, F64, I256};
use crate::scalar::{DecimalValue, PValue, ScalarValue};

verus! {

/// Whether one byte string comes before another in lexicographic order, or equals it.
pub open spec fn bytes_at_most(left: Seq<u8>, right: Seq<u8>) -> bool
    decreases left.len(),
{
    if left.len() == 0 {
        true
    } else if right.len() == 0 {
        false
    } else if left[0] != right[0] {
        left[0] < right[0]
    } else {
        bytes_at_most(left.drop_first(), right.drop_first())
    }
}

/// The rank of a float of `2 * half` bit patterns in the total order of floats: patterns with the
/// sign bit set come first, largest magnitude first.
pub open spec fn float_rank(bits: int, half: int) -> int {
    if bits >= half {
        half - 1 - bits
    } else {
        bits
    }
}

/// The position of a primitive value among the values of its physical type.
pub open spec fn primitive_rank(value: PValue) -> int {
    match value {
        PValue::U8(v) => v as int,
        PValue::U16(v) => v as int,
        PValue::U32(v) => v as int,
        PValue::U64(v) => v as int,
        PValue::I8(v) => v as int,
        PValue::I16(v) => v as int,
        PValue::I32(v) => v as int,
        PValue::I64(v) => v as int,
        PValue::F16(v) => float_rank(v.bits as int, 0x8000),
        PValue::F32(v) => float_rank(v.bits as int, 0x8000_0000),
        PValue::F64(v) => float_rank(v.bits as int, 0x8000_0000_0000_0000),
    }
}

/// The high and low parts of an unscaled decimal, by which decimals are ordered.
pub open spec fn decimal_parts(value: DecimalValue) -> (int, int) {
    match value {
        DecimalValue::I8(v) => widened_parts(v as int),
        DecimalValue::I16(v) => widened_parts(v as int),
        DecimalValue::I32(v) => widened_parts(v as int),
        DecimalValue::I64(v) => widened_parts(v as int),
        DecimalValue::I128(v) => widened_parts(v as int),
        DecimalValue::I256(v) => (v.high as int, v.low as int),
    }
}

/// The parts of a 128-bit number that is widened to 256 bits.
pub open spec fn widened_parts(v: int) -> (int, int) {
    if v < 0 {
        (-1, v + 0x1_0000_0000_0000_0000_0000_0000_0000_0000)
    } else {
        (0, v)
    }
}

/// Whether `left` is at most `right`; `None` if the two cannot be compared.
pub open spec fn scalar_at_most_spec(left: ScalarValue, right: ScalarValue) -> Option<bool> {
    match (left, right) {
        (ScalarValue::Bool(a), ScalarValue::Bool(b)) => Some(!a || b),
        (ScalarValue::Primitive(a), ScalarValue::Primitive(b)) => if a.ptype_spec()
            == b.ptype_spec() {
            Some(primitive_rank(a) <= primitive_rank(b))
        } else {
            None
        },
        (ScalarValue::Decimal(a), ScalarValue::Decimal(b)) => {
            let (a_high, a_low) = decimal_parts(a);
            let (b_high, b_low) = decimal_parts(b);
            Some(a_high < b_high || (a_high == b_high && a_low <= b_low))
        },
        (ScalarValue::Utf8(a), ScalarValue::Utf8(b)) => Some(bytes_at_most(a@, b@)),
        (ScalarValue::Binary(a), ScalarValue::Binary(b)) => Some(bytes_at_most(a@, b@)),
        _ => None,
    }
}

/// Whether one byte string comes before another in lexicographic order, or equals it.
fn compare_bytes(left: &Vec<u8>, right: &Vec<u8>) -> (b: bool)
    ensures
        b == bytes_at_most(left@, right@),
{
    let mut i: usize = 0;
    assert(left@.skip(0) =~= left@);
    assert(right@.skip(0) =~= right@);
    while i < left.len() && i < right.len()
        invariant
            i <= left@.len(),
            i <= right@.len(),
            bytes_at_most(left@, right@) == bytes_at_most(
                left@.skip(i as int),
                right@.skip(i as int),
            ),
        decreases left@.len() - i,
    {
        assert(left@.skip(i as int).drop_first() =~= left@.skip(i + 1));
        assert(right@.skip(i as int).drop_first() =~= right@.skip(i + 1));
        if left[i] != right[i] {
            return left[i] < right[i];
        }
        i = i + 1;
    }
    i == left.len()
}

/// The rank of a primitive value as a number.
fn rank_of(value: PValue) -> (r: i128)
    ensures
        r == primitive_rank(value),
{
    match value {
        PValue::U8(v) => v as i128,
        PValue::U16(v) => v as i128,
        PValue::U32(v) => v as i128,
        PValue::U64(v) => v as i128,
        PValue::I8(v) => v as i128,
        PValue::I16(v) => v as i128,
        PValue::I32(v) => v as i128,
        PValue::I64(v) => v as i128,
        PValue::F16(v) => rank_of_bits(v.bits as i128, 0x8000),
        PValue::F32(v) => rank_of_bits(v.bits as i128, 0x8000_0000),
        PValue::F64(v) => rank_of_bits(v.bits as i128, 0x8000_0000_0000_0000),
    }
}

/// The rank of a float as a number.
fn rank_of_bits(bits: i128, half: i128) -> (r: i128)
    requires
        0 <= bits < 2 * half,
        0 < half <= 0x8000_0000_0000_0000,
    ensures
        r == float_rank(bits as int, half as int),
{
    if bits >= half {
        half - 1 - bits
    } else {
        bits
    }
}

/// The high and low parts of an unscaled decimal.
fn parts_of(value: DecimalValue) -> (r: (i128, u128))
    ensures
        decimal_parts(value) == (r.0 as int, r.1 as int),
{
    match value {
        DecimalValue::I8(v) => widen(v as i128),
        DecimalValue::I16(v) => widen(v as i128),
        DecimalValue::I32(v) => widen(v as i128),
        DecimalValue::I64(v) => widen(v as i128),
        DecimalValue::I128(v) => widen(v),
        DecimalValue::I256(v) => (v.high, v.low),
    }
}

/// The parts of a 128-bit number that is widened to 256 bits.
fn widen(v: i128) -> (r: (i128, u128))
    ensures
        widened_parts(v as int) == (r.0 as int, r.1 as int),
{
    if v < 0 {
        let magnitude_less_one: i128 = -(v + 1);
        (-1, u128::MAX - magnitude_less_one as u128)
    } else {
        (0, v as u128)
    }
}

/// Whether `left` is at most `right`; `None` if the two cannot be compared.
pub fn scalar_at_most(left: &ScalarValue, right: &ScalarValue) -> (r: Option<bool>)
    ensures
        r == scalar_at_most_spec(*left, *right),
{
    match (left, right) {
        (ScalarValue::Bool(a), ScalarValue::Bool(b)) => Some(!*a || *b),
        (ScalarValue::Primitive(a), ScalarValue::Primitive(b)) => if a.ptype() == b.ptype() {
            Some(rank_of(*a) <= rank_of(*b))
        } else {
            None
        },
        (ScalarValue::Decimal(a), ScalarValue::Decimal(b)) => {
            let (a_high, a_low) = parts_of(*a);
            let (b_high, b_low) = parts_of(*b);
            Some(a_high < b_high || (a_high == b_high && a_low <= b_low))
        },
        (ScalarValue::Utf8(a), ScalarValue::Utf8(b)) => Some(compare_bytes(a, b)),
        (ScalarValue::Binary(a), ScalarValue::Binary(b)) => Some(compare_bytes(a, b)),
        _ => None,
    }
}

/// Integers of one type are ordered as numbers, and values of different types are not ordered.
pub proof fn lemma_integer_order(left: PValue, right: PValue)
    ensures
        left.ptype_spec() != right.ptype_spec() ==> scalar_at_most_spec(
            ScalarValue::Primitive(left),
            ScalarValue::Primitive(right),
        ) is None,
        left.ptype_spec() == right.ptype_spec() && left.as_int() is Some ==> scalar_at_most_spec(
            ScalarValue::Primitive(left),
            ScalarValue::Primitive(right),
        ) == Some(left.as_int()->0 <= right.as_int()->0),
{
}

/// Floats without a sign are ordered as their bit patterns, those with a sign the other way round,
/// and a float with a sign comes before one without.
pub proof fn lemma_float_order(a: F16, b: F16, c: F32, d: F32, e: F64, f: F64)
    ensures
        scalar_at_most_spec(
            ScalarValue::Primitive(PValue::F16(a)),
            ScalarValue::Primitive(PValue::F16(b)),
        ) == Some(
            if a.bits >= 0x8000 {
                b.bits < 0x8000 || a.bits >= b.bits
            } else {
                b.bits < 0x8000 && a.bits <= b.bits
            },
        ),
        scalar_at_most_spec(
            ScalarValue::Primitive(PValue::F32(c)),
            ScalarValue::Primitive(PValue::F32(d)),
        ) == Some(
            if c.bits >= 0x8000_0000 {
                d.bits < 0x8000_0000 || c.bits >= d.bits
            } else {
                d.bits < 0x8000_0000 && c.bits <= d.bits
            },
        ),
        scalar_at_most_spec(
            ScalarValue::Primitive(PValue::F64(e)),
            ScalarValue::Primitive(PValue::F64(f)),
        ) == Some(
            if e.bits >= 0x8000_0000_0000_0000 {
                f.bits < 0x8000_0000_0000_0000 || e.bits >= f.bits
            } else {
                f.bits < 0x8000_0000_0000_0000 && e.bits <= f.bits
            },
        ),
{
}

/// The number that an unscaled decimal stands for.
pub open spec fn decimal_number(value: DecimalValue) -> int {
    match value {
        DecimalValue::I8(v) => v as int,
        DecimalValue::I16(v) => v as int,
        DecimalValue::I32(v) => v as int,
        DecimalValue::I64(v) => v as int,
        DecimalValue::I128(v) => v as int,
        DecimalValue::I256(v) => v.high * 0x1_0000_0000_0000_0000_0000_0000_0000_0000 + v.low,
    }
}

/// Decimals are ordered as the numbers that they stand for, whatever their widths.
pub proof fn lemma_decimal_order(left: DecimalValue, right: DecimalValue)
    ensures
        scalar_at_most_spec(ScalarValue::Decimal(left), ScalarValue::Decimal(right)) == Some(
            decimal_number(left) <= decimal_number(right),
        ),
{
}

/// False comes before true.
pub proof fn lemma_bool_order(left: bool, right: bool)
    ensures
        scalar_at_most_spec(ScalarValue::Bool(left), ScalarValue::Bool(right)) == Some(
            left == right || right,
        ),
{
}

/// Byte strings are ordered by the first byte in which they differ; if there is none, the shorter
/// one comes first.
pub proof fn lemma_bytes_order(left: Seq<u8>, right: Seq<u8>, k: int)
    requires
        0 <= k <= left.len(),
        k <= right.len(),
        forall|i: int| 0 <= i < k ==> #[trigger] left[i] == right[i],
    ensures
        k == left.len() ==> bytes_at_most(left, right),
        k == right.len() && k < left.len() ==> !bytes_at_most(left, right),
        k < left.len() && k < right.len() && left[k] != right[k] ==> bytes_at_most(left, right) == (
        left[k] < right[k]),
    decreases k,
{
    if k > 0 {
        let l = left.drop_first();
        let r = right.drop_first();
        assert(left[0] == right[0]);
        assert forall|i: int| 0 <= i < k - 1 implies #[trigger] l[i] == r[i] by {
            assert(left[i + 1] == right[i + 1]);
        }
        lemma_bytes_order(l, r, k - 1);
    }
}

/// Strings are ordered by their bytes, and so are binary values. Values of different kinds are not
/// ordered, and neither are lists.
pub proof fn lemma_string_order(left: ScalarValue, right: ScalarValue)
    ensures
        left matches ScalarValue::Utf8(a) ==> (right matches ScalarValue::Utf8(b)
            ==> scalar_at_most_spec(left, right) == Some(bytes_at_most(a@, b@))),
        left matches ScalarValue::Binary(a) ==> (right matches ScalarValue::Binary(b)
            ==> scalar_at_most_spec(left, right) == Some(bytes_at_most(a@, b@))),
        left is List || right is List ==> scalar_at_most_spec(left, right) is None,
        left is Bool != right is Bool ==> scalar_at_most_spec(left, right) is None,
        left is Primitive != right is Primitive ==> scalar_at_most_spec(left, right) is None,
        left is Decimal != right is Decimal ==> scalar_at_most_spec(left, right) is None,
        left is Utf8 != right is Utf8 ==> scalar_at_most_spec(left, right) is None,
        left is Binary != right is Binary ==> scalar_at_most_spec(left, right) is None,
{
}

} // verus!
