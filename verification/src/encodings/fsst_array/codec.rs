//! The compressor of the `fsst` crate.

use vstd::prelude::*;

use fsst::Compressor;

verus! {

/// The compressor of the `fsst` crate, which holds a symbol table.
#[verifier::external_type_specification]
#[verifier::external_body]
pub struct ExCompressor(Compressor);

/// The codes that a compressor gives for a row.
pub uninterp spec fn fsst_codes(compressor: Compressor, row: Seq<u8>) -> Seq<u8>;

/// The symbols of a compressor, each as its bytes in little-endian order.
pub uninterp spec fn fsst_symbols(compressor: Compressor) -> Seq<u64>;

/// The length in bytes of each symbol of a compressor.
pub uninterp spec fn fsst_symbol_lengths(compressor: Compressor) -> Seq<u8>;

/// Whether training on the lines can give the compressor.
pub uninterp spec fn fsst_trained_on(lines: Seq<Seq<u8>>, compressor: Compressor) -> bool;

/// The bytes of each line.
pub open spec fn line_bytes(lines: Seq<&[u8]>) -> Seq<Seq<u8>> {
    lines.map_values(|line: &[u8]| line@)
}

/// The number of bytes of all lines together.
pub open spec fn total_len(lines: Seq<Seq<u8>>) -> nat
    decreases lines.len(),
{
    if lines.len() == 0 {
        0
    } else {
        total_len(lines.drop_last()) + lines.last().len()
    }
}

/// The code that announces a literal byte.
pub const ESCAPE_CODE: u8 = 255;

/// The largest number of bytes of a symbol.
pub const MAX_SYMBOL_LENGTH: u8 = 8;

/// Byte `i` of a symbol.
pub open spec fn symbol_byte(symbol: u64, i: int) -> u8 {
    ((symbol >> ((8 * i) as u64)) & 0xff) as u8
}

/// The bytes of a symbol of the given length.
pub open spec fn symbol_bytes(symbol: u64, length: u8) -> Seq<u8> {
    Seq::new(length as nat, |i: int| symbol_byte(symbol, i))
}

/// What codes stand for: each is replaced by its symbol, and the byte behind an escape is taken as
/// it is. `None` if there is a code without a symbol, or nothing behind an escape.
pub open spec fn decoded(symbols: Seq<u64>, lengths: Seq<u8>, codes: Seq<u8>) -> Option<Seq<u8>>
    decreases codes.len(),
{
    if codes.len() == 0 {
        Some(Seq::empty())
    } else if codes[0] == ESCAPE_CODE {
        if codes.len() == 1 {
            None
        } else {
            match decoded(symbols, lengths, codes.skip(2)) {
                Some(rest) => Some(seq![codes[1]] + rest),
                None => None,
            }
        }
    } else if codes[0] >= symbols.len() {
        None
    } else {
        match decoded(symbols, lengths, codes.skip(1)) {
            Some(rest) => Some(
                symbol_bytes(symbols[codes[0] as int], lengths[codes[0] as int]) + rest,
            ),
            None => None,
        }
    }
}

/// Codes are read from the front: an escape stands for the byte behind it, and any other code for
/// the bytes of its symbol, of which there are as many as its length says. What the rest stands for
/// follows.
pub proof fn lemma_decoded(symbols: Seq<u64>, lengths: Seq<u8>, code: u8, byte: u8, rest: Seq<u8>)
    requires
        decoded(symbols, lengths, rest) is Some,
    ensures
        decoded(symbols, lengths, Seq::empty()) == Some(Seq::<u8>::empty()),
        decoded(symbols, lengths, seq![255u8, byte] + rest) == Some(
            seq![byte] + decoded(symbols, lengths, rest)->0,
        ),
        code != 255 && code >= symbols.len() ==> decoded(symbols, lengths, seq![code] + rest)
            is None,
        decoded(symbols, lengths, seq![255u8]) is None,
        code != 255 && code < symbols.len() ==> {
            let out = decoded(symbols, lengths, seq![code] + rest);
            let n = lengths[code as int];
            &&& out is Some
            &&& out->0.len() == n + decoded(symbols, lengths, rest)->0.len()
            &&& out->0.skip(n as int) == decoded(symbols, lengths, rest)->0
            &&& forall|i: int|
                0 <= i < n ==> #[trigger] out->0[i] == symbol_byte(symbols[code as int], i)
        },
{
    let escaped = seq![255u8, byte] + rest;
    assert(escaped.skip(2) =~= rest);
    assert(escaped[1] == byte);
    let coded = seq![code] + rest;
    assert(coded.skip(1) =~= rest);
    assert(seq![255u8].len() == 1);
    if code != 255 && code < symbols.len() {
        let n = lengths[code as int];
        let out = decoded(symbols, lengths, coded);
        assert(out->0.skip(n as int) =~= decoded(symbols, lengths, rest)->0);
    }
}

/// The bytes of a symbol are its digits to the base 256, the lowest one first.
pub proof fn lemma_symbol_digits(symbol: u64)
    ensures
        symbol == symbol_byte(symbol, 0) + symbol_byte(symbol, 1) * 0x100 + symbol_byte(symbol, 2)
            * 0x1_0000 + symbol_byte(symbol, 3) * 0x100_0000 + symbol_byte(symbol, 4)
            * 0x1_0000_0000 + symbol_byte(symbol, 5) * 0x100_0000_0000 + symbol_byte(symbol, 6)
            * 0x1_0000_0000_0000 + symbol_byte(symbol, 7) * 0x100_0000_0000_0000,
{
    let a = ((symbol >> 0u64) & 0xff) as u8;
    let b = ((symbol >> 8u64) & 0xff) as u8;
    let c = ((symbol >> 16u64) & 0xff) as u8;
    let d = ((symbol >> 24u64) & 0xff) as u8;
    let e = ((symbol >> 32u64) & 0xff) as u8;
    let f = ((symbol >> 40u64) & 0xff) as u8;
    let g = ((symbol >> 48u64) & 0xff) as u8;
    let h = ((symbol >> 56u64) & 0xff) as u8;
    assert(symbol == a + b * 0x100 + c * 0x1_0000 + d * 0x100_0000 + e * 0x1_0000_0000 + f
        * 0x100_0000_0000 + g * 0x1_0000_0000_0000 + h * 0x100_0000_0000_0000) by (bit_vector)
        requires
            a == ((symbol >> 0u64) & 0xff) as u8,
            b == ((symbol >> 8u64) & 0xff) as u8,
            c == ((symbol >> 16u64) & 0xff) as u8,
            d == ((symbol >> 24u64) & 0xff) as u8,
            e == ((symbol >> 32u64) & 0xff) as u8,
            f == ((symbol >> 40u64) & 0xff) as u8,
            g == ((symbol >> 48u64) & 0xff) as u8,
            h == ((symbol >> 56u64) & 0xff) as u8,
    ;
}

/// The lines together have the bytes of each line.
pub proof fn lemma_total_len(lines: Seq<Seq<u8>>, line: Seq<u8>)
    ensures
        total_len(Seq::<Seq<u8>>::empty()) == 0,
        total_len(lines.push(line)) == total_len(lines) + line.len(),
{
    assert(lines.push(line).drop_last() =~= lines);
}

/// No symbol is said to be longer than a symbol can be.
pub open spec fn lengths_fit(lengths: Seq<u8>) -> bool {
    forall|i: int| 0 <= i < lengths.len() ==> #[trigger] lengths[i] <= MAX_SYMBOL_LENGTH
}

/// The length of a symbol is that of its bytes without the zeros that it is padded with; a symbol
/// of zeros alone has one byte. Such a symbol does not end in a zero byte, unless that is all.
pub open spec fn is_trimmed(symbol: u64, length: u8) -> bool {
    &&& 1 <= length <= MAX_SYMBOL_LENGTH
    &&& length > 1 ==> symbol_byte(symbol, length - 1) != 0
    &&& forall|i: int| length <= i < MAX_SYMBOL_LENGTH ==> #[trigger] symbol_byte(symbol, i) == 0
}

/// Every symbol of a table has the length of its bytes without padding.
pub open spec fn is_trimmed_table(symbols: Seq<u64>, lengths: Seq<u8>) -> bool {
    &&& symbols.len() == lengths.len()
    &&& forall|i: int| 0 <= i < symbols.len() ==> #[trigger] is_trimmed(symbols[i], lengths[i])
}

/// Whether no symbol of a compressor is said to be longer than a symbol can be.
pub fn has_fitting_lengths(compressor: &Compressor) -> (b: bool)
    ensures
        b == lengths_fit(fsst_symbol_lengths(*compressor)),
{
    let lengths = symbol_lengths(compressor);
    let mut i: usize = 0;
    while i < lengths.len()
        invariant
            i <= lengths@.len(),
            lengths@ == fsst_symbol_lengths(*compressor),
            forall|k: int| 0 <= k < i ==> #[trigger] lengths@[k] <= MAX_SYMBOL_LENGTH,
        decreases lengths@.len() - i,
    {
        if lengths[i] > MAX_SYMBOL_LENGTH {
            return false;
        }
        i = i + 1;
    }
    true
}

/// Compresses a row.
///
/// Trusted: `Compressor::compress` of the `fsst` crate. The same compressor gives the same codes
/// for the same bytes, and at most two bytes of output for each byte of input. The output buffer
/// of twice the input has to be one that can be allocated, and no symbol may be said to be longer
/// than eight bytes.
///
/// Where the symbols have the lengths of their bytes without padding, the codes stand for the row:
/// a symbol is only put in place of bytes that equal all of its own, and any other byte is escaped.
/// Nothing is said of what the codes stand for with other tables. A compressor can be rebuilt from
/// a table with a symbol that ends in a zero byte, and such a symbol can be put in place of fewer
/// bytes at the end of a row, where the compressor pads with zeros.
#[verifier::external_body]
pub(crate) fn compress_row(compressor: &Compressor, row: &[u8]) -> (r: Vec<u8>)
    requires
        2 * row@.len() <= isize::MAX,
        lengths_fit(fsst_symbol_lengths(*compressor)),
    ensures
        r@ == fsst_codes(*compressor, row@),
        r@.len() <= 2 * row@.len(),
        is_trimmed_table(fsst_symbols(*compressor), fsst_symbol_lengths(*compressor)) ==> decoded(
            fsst_symbols(*compressor),
            fsst_symbol_lengths(*compressor),
            r@,
        ) == Some(row@),
{
    compressor.compress(row)
}

/// Trains a compressor.
///
/// Trusted: `Compressor::train` of the `fsst` crate. What it gives is one of the compressors that
/// training on these lines can give; which one may depend on the width of the machine's words.
/// The length that it notes for each symbol is that of the symbol's bytes without padding. The
/// lengths of the lines are added up.
#[verifier::external_body]
pub(crate) fn train(lines: &Vec<&[u8]>) -> (r: Compressor)
    requires
        total_len(line_bytes(lines@)) <= usize::MAX,
    ensures
        fsst_trained_on(line_bytes(lines@), r),
        is_trimmed_table(fsst_symbols(r), fsst_symbol_lengths(r)),
{
    Compressor::train(lines)
}

/// The symbol table of a compressor.
///
/// Trusted: `Compressor::symbol_table` of the `fsst` crate, with each symbol as the number that
/// `Symbol::to_u64` gives. There are at most 255 symbols, because their number is held in a byte.
#[verifier::external_body]
pub(crate) fn symbol_table(compressor: &Compressor) -> (r: Vec<u64>)
    ensures
        r@ == fsst_symbols(*compressor),
        r@.len() <= 255,
{
    compressor.symbol_table().iter().map(|symbol| symbol.to_u64()).collect()
}

/// The lengths of a compressor's symbols.
///
/// Trusted: `Compressor::symbol_lengths` of the `fsst` crate, which gives one length for each
/// symbol of `Compressor::symbol_table`.
#[verifier::external_body]
pub(crate) fn symbol_lengths(compressor: &Compressor) -> (r: Vec<u8>)
    ensures
        r@ == fsst_symbol_lengths(*compressor),
        r@.len() == fsst_symbols(*compressor).len(),
{
    compressor.symbol_lengths().to_vec()
}

} // verus!
