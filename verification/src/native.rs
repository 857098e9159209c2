//! The fixed-width value types that primitive and decimal arrays hold.

use vstd::prelude::*;

use crate::arrays::primitive::NativePType;

verus! {

/// A value that occupies a fixed number of bytes and has a zero.
pub trait FixedWidth: Copy {
    /// The value whose bytes are all zero.
    spec fn zero_value() -> Self;

    /// Returns the value whose bytes are all zero.
    fn zero() -> (r: Self)
        ensures
            r == Self::zero_value(),
    ;
}

/// The number as a `usize`, where it fits.
pub open spec fn int_to_usize(i: int) -> Option<usize> {
    if 0 <= i <= usize::MAX {
        Some(i as usize)
    } else {
        None
    }
}

/// Exactly the numbers that a `usize` can hold are converted, and converting keeps the number.
pub proof fn lemma_int_to_usize(i: int, n: usize)
    ensures
        int_to_usize(n as int) == Some(n),
        int_to_usize(i) matches Some(m) ==> m == i,
        int_to_usize(i) is None <==> i < 0 || i > usize::MAX,
{
}

/// An integer type that can index an array.
pub trait IntegerPType: NativePType {
    /// The mathematical value.
    spec fn as_int(self) -> int;

    /// Tagging an integer with its physical type keeps its value.
    proof fn lemma_tagged(self)
        ensures
            self.pvalue().as_int() == Some(self.as_int()),
    ;

    /// Converts to `usize`; `None` if the value is negative or too large.
    fn to_usize(self) -> (r: Option<usize>)
        ensures
            r == int_to_usize(self.as_int()),
    ;
}

impl FixedWidth for u8 {
    open spec fn zero_value() -> Self {
        0
    }

    fn zero() -> (r: Self) {
        0
    }
}

impl IntegerPType for u8 {
    open spec fn as_int(self) -> int {
        self as int
    }

    proof fn lemma_tagged(self) {
    }

    fn to_usize(self) -> (r: Option<usize>) {
        assert(self.as_int() == self as int);
        if self as u128 > usize::MAX as u128 {
            None
        } else {
            Some(self as usize)
        }
    }
}

impl FixedWidth for u16 {
    open spec fn zero_value() -> Self {
        0
    }

    fn zero() -> (r: Self) {
        0
    }
}

impl IntegerPType for u16 {
    open spec fn as_int(self) -> int {
        self as int
    }

    proof fn lemma_tagged(self) {
    }

    fn to_usize(self) -> (r: Option<usize>) {
        assert(self.as_int() == self as int);
        if self as u128 > usize::MAX as u128 {
            None
        } else {
            Some(self as usize)
        }
    }
}

impl FixedWidth for u32 {
    open spec fn zero_value() -> Self {
        0
    }

    fn zero() -> (r: Self) {
        0
    }
}

impl IntegerPType for u32 {
    open spec fn as_int(self) -> int {
        self as int
    }

    proof fn lemma_tagged(self) {
    }

    fn to_usize(self) -> (r: Option<usize>) {
        assert(self.as_int() == self as int);
        if self as u128 > usize::MAX as u128 {
            None
        } else {
            Some(self as usize)
        }
    }
}

impl FixedWidth for u64 {
    open spec fn zero_value() -> Self {
        0
    }

    fn zero() -> (r: Self) {
        0
    }
}

impl IntegerPType for u64 {
    open spec fn as_int(self) -> int {
        self as int
    }

    proof fn lemma_tagged(self) {
    }

    fn to_usize(self) -> (r: Option<usize>) {
        assert(self.as_int() == self as int);
        if self as u128 > usize::MAX as u128 {
            None
        } else {
            Some(self as usize)
        }
    }
}

impl FixedWidth for i8 {
    open spec fn zero_value() -> Self {
        0
    }

    fn zero() -> (r: Self) {
        0
    }
}

impl IntegerPType for i8 {
    open spec fn as_int(self) -> int {
        self as int
    }

    proof fn lemma_tagged(self) {
    }

    fn to_usize(self) -> (r: Option<usize>) {
        assert(self.as_int() == self as int);
        if self < 0 || self as i128 > usize::MAX as i128 {
            None
        } else {
            Some(self as usize)
        }
    }
}

impl FixedWidth for i16 {
    open spec fn zero_value() -> Self {
        0
    }

    fn zero() -> (r: Self) {
        0
    }
}

impl IntegerPType for i16 {
    open spec fn as_int(self) -> int {
        self as int
    }

    proof fn lemma_tagged(self) {
    }

    fn to_usize(self) -> (r: Option<usize>) {
        assert(self.as_int() == self as int);
        if self < 0 || self as i128 > usize::MAX as i128 {
            None
        } else {
            Some(self as usize)
        }
    }
}

impl FixedWidth for i32 {
    open spec fn zero_value() -> Self {
        0
    }

    fn zero() -> (r: Self) {
        0
    }
}

impl IntegerPType for i32 {
    open spec fn as_int(self) -> int {
        self as int
    }

    proof fn lemma_tagged(self) {
    }

    fn to_usize(self) -> (r: Option<usize>) {
        assert(self.as_int() == self as int);
        if self < 0 || self as i128 > usize::MAX as i128 {
            None
        } else {
            Some(self as usize)
        }
    }
}

impl FixedWidth for i64 {
    open spec fn zero_value() -> Self {
        0
    }

    fn zero() -> (r: Self) {
        0
    }
}

impl IntegerPType for i64 {
    open spec fn as_int(self) -> int {
        self as int
    }

    proof fn lemma_tagged(self) {
    }

    fn to_usize(self) -> (r: Option<usize>) {
        assert(self.as_int() == self as int);
        if self < 0 || self as i128 > usize::MAX as i128 {
            None
        } else {
            Some(self as usize)
        }
    }
}

/// A 16-bit float, held by its bit pattern.
#[derive(Clone, Copy, Debug, PartialEq, Eq, Structural)]
pub struct F16 {
    pub bits: u16,
}

impl FixedWidth for F16 {
    open spec fn zero_value() -> Self {
        F16 { bits: 0 }
    }

    fn zero() -> (r: Self) {
        F16 { bits: 0 }
    }
}

/// A 32-bit float, held by its bit pattern.
#[derive(Clone, Copy, Debug, PartialEq, Eq, Structural)]
pub struct F32 {
    pub bits: u32,
}

impl FixedWidth for F32 {
    open spec fn zero_value() -> Self {
        F32 { bits: 0 }
    }

    fn zero() -> (r: Self) {
        F32 { bits: 0 }
    }
}

/// A 64-bit float, held by its bit pattern.
#[derive(Clone, Copy, Debug, PartialEq, Eq, Structural)]
pub struct F64 {
    pub bits: u64,
}

impl FixedWidth for F64 {
    open spec fn zero_value() -> Self {
        F64 { bits: 0 }
    }

    fn zero() -> (r: Self) {
        F64 { bits: 0 }
    }
}

/// A 256-bit integer in two's complement, split into its high and low halves.
#[derive(Clone, Copy, Debug, PartialEq, Eq, Structural)]
pub struct I256 {
    pub high: i128,
    pub low: u128,
}

impl FixedWidth for I256 {
    open spec fn zero_value() -> Self {
        I256 { high: 0, low: 0 }
    }

    fn zero() -> (r: Self) {
        I256 { high: 0, low: 0 }
    }
}

impl FixedWidth for i128 {
    open spec fn zero_value() -> Self {
        0
    }

    fn zero() -> (r: Self) {
        0
    }
}

/// Integers of every width stand for themselves.
pub proof fn lemma_integers(a: u8, b: u16, c: u32, d: u64, e: i8, f: i16, g: i32, h: i64)
    ensures
        a.as_int() == a as int,
        b.as_int() == b as int,
        c.as_int() == c as int,
        d.as_int() == d as int,
        e.as_int() == e as int,
        f.as_int() == f as int,
        g.as_int() == g as int,
        h.as_int() == h as int,
        u8::zero_value().as_int() == 0,
        u16::zero_value().as_int() == 0,
        u32::zero_value().as_int() == 0,
        u64::zero_value().as_int() == 0,
        i8::zero_value().as_int() == 0,
        i16::zero_value().as_int() == 0,
        i32::zero_value().as_int() == 0,
        i64::zero_value().as_int() == 0,
{
}

} // verus!
