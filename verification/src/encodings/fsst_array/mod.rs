//! Strings compressed by replacing frequent byte sequences with one-byte codes.

pub mod codec;
pub mod compress;

use vstd::prelude::*;

use crate::arrays::varbin::VarBinArray;
use crate::dtype::DType;
use crate::error::{VortexError, VortexResult};
use codec::decoded;

verus! {

/// The largest number of symbols; the code behind the last one announces a literal byte.
pub const MAX_SYMBOLS: usize = 255;

/// An array of strings compressed with one symbol table.
pub struct FSSTArray {
    pub dtype: DType,
    pub symbols: Vec<u64>,
    pub symbol_lengths: Vec<u8>,
    pub codes: VarBinArray,
    pub uncompressed_lengths: Vec<i32>,
}

impl FSSTArray {
    /// The parts fit each other.
    pub open spec fn wf(self) -> bool {
        &&& self.codes.wf()
        &&& fsst_parts_error(
            self.dtype,
            self.symbols@.len(),
            self.symbol_lengths@.len(),
            self.codes,
            self.uncompressed_lengths@.len(),
        ) is None
    }

    /// The rows that the codes stand for; `None` for a null row.
    pub open spec fn decoded_rows(self) -> Seq<Option<Seq<u8>>> {
        self.codes.rows().map_values(
            |row: Option<Seq<u8>>|
                match row {
                    Some(codes) => decoded(self.symbols@, self.symbol_lengths@, codes),
                    None => None,
                },
        )
    }

    /// Puts the parts together.
    pub fn try_new(
        dtype: DType,
        symbols: Vec<u64>,
        symbol_lengths: Vec<u8>,
        codes: VarBinArray,
        uncompressed_lengths: Vec<i32>,
    ) -> (r: VortexResult<FSSTArray>)
        requires
            codes.wf(),
        ensures
            match fsst_parts_error(
                dtype,
                symbols@.len(),
                symbol_lengths@.len(),
                codes,
                uncompressed_lengths@.len(),
            ) {
                Some(e) => r == Err::<FSSTArray, VortexError>(e),
                None => r == Ok::<FSSTArray, VortexError>(
                    FSSTArray { dtype, symbols, symbol_lengths, codes, uncompressed_lengths },
                ) && r->Ok_0.wf(),
            },
    {
        match dtype {
            DType::Utf8(_) | DType::Binary(_) => {},
            _ => return Err(VortexError::FsstDType),
        }
        match codes.dtype {
            DType::Binary(_) => {},
            _ => return Err(VortexError::FsstDType),
        }
        if dtype.nullability() != codes.dtype.nullability() {
            return Err(VortexError::FsstDType);
        }
        if symbols.len() > MAX_SYMBOLS || symbols.len() != symbol_lengths.len() {
            return Err(VortexError::FsstSymbolTable);
        }
        if uncompressed_lengths.len() != codes.len() {
            return Err(VortexError::FsstLengths);
        }
        Ok(FSSTArray { dtype, symbols, symbol_lengths, codes, uncompressed_lengths })
    }

    /// The compressed rows.
    pub fn codes(&self) -> (r: &VarBinArray)
        ensures
            *r == self.codes,
    {
        &self.codes
    }
}

/// Why the parts of a compressed array do not fit each other, if they do not.
pub open spec fn fsst_parts_error(
    dtype: DType,
    symbols: nat,
    symbol_lengths: nat,
    codes: VarBinArray,
    uncompressed_lengths: nat,
) -> Option<VortexError> {
    if !(dtype is Utf8 || dtype is Binary) || !(codes.dtype is Binary) || dtype.nullability_spec()
        != codes.dtype.nullability_spec() {
        Some(VortexError::FsstDType)
    } else if symbols > MAX_SYMBOLS || symbols != symbol_lengths {
        Some(VortexError::FsstSymbolTable)
    } else if uncompressed_lengths != codes.rows().len() {
        Some(VortexError::FsstLengths)
    } else {
        None
    }
}

/// Parts make an array exactly if the rows are strings or binary values, the codes are binary and as
/// nullable, there are at most 255 symbols and one length for each, and one uncompressed length for
/// each row. If not, the error tells which of these fails first.
pub proof fn lemma_fsst_parts(
    dtype: DType,
    symbols: nat,
    symbol_lengths: nat,
    codes: VarBinArray,
    uncompressed_lengths: nat,
)
    ensures
        ({
            let e = fsst_parts_error(dtype, symbols, symbol_lengths, codes, uncompressed_lengths);
            let types = (dtype is Utf8 || dtype is Binary) && codes.dtype is Binary
                && dtype.nullability_spec() == codes.dtype.nullability_spec();
            let table = symbols <= 255 && symbols == symbol_lengths;
            let lengths = uncompressed_lengths == codes.rows().len();
            &&& e is None <==> types && table && lengths
            &&& e == Some(VortexError::FsstDType) <==> !types
            &&& e == Some(VortexError::FsstSymbolTable) <==> types && !table
            &&& e == Some(VortexError::FsstLengths) <==> types && table && !lengths
        }),
{
}

/// The rows that an array stands for: null where it has no codes, and otherwise what the codes stand
/// for with the symbol table of the array.
pub proof fn lemma_decoded_row(array: FSSTArray, i: int)
    requires
        0 <= i < array.codes.rows().len(),
    ensures
        array.decoded_rows().len() == array.codes.rows().len(),
        array.codes.rows()[i] is None ==> array.decoded_rows()[i] is None,
        array.codes.rows()[i] matches Some(codes) ==> array.decoded_rows()[i] == decoded(
            array.symbols@,
            array.symbol_lengths@,
            codes,
        ),
{
}

} // verus!
