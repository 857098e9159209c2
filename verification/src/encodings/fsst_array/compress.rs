//! Compressing arrays of strings.
//!
//! A compressor is trained on the rows that are not null, and then compresses them one by one. How
//! wide the offsets of the compressed rows have to be is decided before anything is compressed,
//! from how large the output can become at worst.

use vstd::prelude::*;

use fsst::Compressor;

use super::codec::{
    compress_row, decoded, fsst_codes, fsst_symbol_lengths, fsst_symbols, fsst_trained_on,
    has_fitting_lengths, is_trimmed, is_trimmed_table, lengths_fit, line_bytes, symbol_lengths,
    symbol_table, total_len, train, MAX_SYMBOL_LENGTH,
};
use super::FSSTArray;
use crate::arrays::primitive::pvalues_of;
use crate::arrays::varbin::{OffsetPType, VarBinArray, VarBinBuilder};
use crate::arrays::varbinview::VarBinViewArray;
use crate::dtype::{DType, PType};
use crate::error::VortexResult;
use crate::mask::{count_true, Mask};
use crate::native::IntegerPType;
use crate::optimizer::kernels::ExecutionCtx;

verus! {

/// At worst, each byte of input becomes an escape and a literal.
pub const FSST_PER_BYTE_OVERHEAD: usize = 2;

/// At worst, each row takes this much on top.
pub const FSST_PER_ROW_OVERHEAD: usize = 7;

/// The rows that are not null.
pub open spec fn present(rows: Seq<Option<Seq<u8>>>) -> Seq<Seq<u8>>
    decreases rows.len(),
{
    if rows.len() == 0 {
        Seq::empty()
    } else {
        match rows.last() {
            Some(row) => present(rows.drop_last()).push(row),
            None => present(rows.drop_last()),
        }
    }
}

/// The largest output that compressing rows can have, with room to spare for each row.
pub open spec fn worst_case(total_input_bytes: int, non_null: int) -> int {
    FSST_PER_BYTE_OVERHEAD * total_input_bytes + FSST_PER_ROW_OVERHEAD * non_null
}

/// Whether the output of compressing this many bytes in this many rows can be addressed by 32-bit
/// offsets, whatever the bytes are.
pub fn fsst_output_fits_in_i32_offsets(total_input_bytes: usize, non_null: usize) -> (b: bool)
    ensures
        b == (worst_case(total_input_bytes as int, non_null as int) <= i32::MAX),
{
    let bytes = match total_input_bytes.checked_mul(FSST_PER_BYTE_OVERHEAD) {
        Some(bytes) => bytes,
        None => usize::MAX,
    };
    let rows = match non_null.checked_mul(FSST_PER_ROW_OVERHEAD) {
        Some(rows) => rows,
        None => usize::MAX,
    };
    let worst: usize = bytes.saturating_add(rows);
    worst <= i32::MAX as usize
}

/// The codes of a row; `None` for a null row.
pub open spec fn compressed_row(compressor: Compressor, row: Option<Seq<u8>>) -> Option<Seq<u8>> {
    match row {
        Some(bytes) => Some(fsst_codes(compressor, bytes)),
        None => None,
    }
}

/// The codes of a row stand for the row, if the symbols have the lengths of their bytes without
/// padding.
pub open spec fn round_trips(compressor: Compressor, row: Option<Seq<u8>>) -> bool {
    is_trimmed_table(fsst_symbols(compressor), fsst_symbol_lengths(compressor)) ==> (
    row matches Some(bytes) ==> decoded(
        fsst_symbols(compressor),
        fsst_symbol_lengths(compressor),
        fsst_codes(compressor, bytes),
    ) == Some(bytes))
}

/// The number of bytes of a row; zero for a null row.
pub open spec fn row_length(row: Option<Seq<u8>>) -> int {
    match row {
        Some(bytes) => bytes.len() as int,
        None => 0,
    }
}

/// The bytes of the rows that are not null, all together.
pub open spec fn total_bytes(rows: Seq<Option<Seq<u8>>>) -> nat {
    total_len(present(rows))
}

/// The rows can be compressed: no row is longer than a 32-bit length can say, and the output can
/// be held in memory, however large it becomes.
pub open spec fn compressible(rows: Seq<Option<Seq<u8>>>) -> bool {
    &&& rows.len() < usize::MAX
    &&& forall|i: int| 0 <= i < rows.len() ==> row_length(#[trigger] rows[i]) <= i32::MAX
    &&& FSST_PER_BYTE_OVERHEAD * total_bytes(rows) <= isize::MAX
}

/// The array that compressing rows gives.
pub open spec fn is_compressed(
    dtype: DType,
    rows: Seq<Option<Seq<u8>>>,
    compressor: Compressor,
    offsets: PType,
    array: FSSTArray,
) -> bool {
    &&& array.wf()
    &&& array.dtype == dtype
    &&& array.symbols@ == fsst_symbols(compressor)
    &&& array.symbol_lengths@ == fsst_symbol_lengths(compressor)
    &&& array.codes.dtype == DType::Binary(dtype.nullability_spec())
    &&& array.codes.offsets.buffer.ptype_spec() == offsets
    &&& array.codes.rows() == rows.map_values(
        |row: Option<Seq<u8>>| compressed_row(compressor, row),
    )
    &&& array.uncompressed_lengths@.len() == rows.len()
    &&& forall|i: int|
        0 <= i < rows.len() ==> #[trigger] array.uncompressed_lengths@[i] == row_length(rows[i])
    &&& forall|i: int| 0 <= i < rows.len() ==> #[trigger] round_trips(compressor, rows[i])
}

/// Decompressing what compressing gave, with the symbol table that the array holds, gives back the
/// rows. This is so for every compressor whose symbols have the lengths of their bytes without
/// padding, and so for every trained one.
pub proof fn lemma_decompressed_rows(
    dtype: DType,
    rows: Seq<Option<Seq<u8>>>,
    compressor: Compressor,
    offsets: PType,
    array: FSSTArray,
)
    requires
        is_compressed(dtype, rows, compressor, offsets, array),
        is_trimmed_table(fsst_symbols(compressor), fsst_symbol_lengths(compressor)),
    ensures
        array.decoded_rows() == rows,
{
    assert forall|i: int| 0 <= i < rows.len() implies array.decoded_rows()[i] == rows[i] by {
        assert(round_trips(compressor, rows[i]));
        assert(array.codes.rows()[i] == compressed_row(compressor, rows[i]));
    }
    assert(array.decoded_rows() =~= rows);
}

/// What training sees are the rows that are not null, in their order.
pub proof fn lemma_present(rows: Seq<Option<Seq<u8>>>, row: Seq<u8>)
    ensures
        present(Seq::<Option<Seq<u8>>>::empty()) == Seq::<Seq<u8>>::empty(),
        present(rows.push(Some(row))) == present(rows).push(row),
        present(rows.push(None)) == present(rows),
{
    assert(rows.push(Some(row)).drop_last() =~= rows);
    assert(rows.push(None).drop_last() =~= rows);
}

/// The bytes to compress are those of the rows that are not null, and null rows add none.
pub proof fn lemma_total_bytes(rows: Seq<Option<Seq<u8>>>, row: Seq<u8>)
    ensures
        total_bytes(Seq::<Option<Seq<u8>>>::empty()) == 0,
        total_bytes(rows.push(Some(row))) == total_bytes(rows) + row.len(),
        total_bytes(rows.push(None)) == total_bytes(rows),
{
    lemma_total_push(rows, Some(row));
    lemma_total_push(rows, None);
}

/// Offsets have 32 bits exactly as long as two bytes of output for each byte of input and seven for
/// each row that is not null stay within the largest 32-bit offset, and 64 bits beyond that. More
/// input never needs narrower offsets.
pub proof fn lemma_offset_width(total: int, non_null: int, more: nat)
    ensures
        worst_case(total, non_null) == 2 * total + 7 * non_null,
        offset_ptype(total, non_null) is I32 <==> 2 * total + 7 * non_null <= 0x7fff_ffff,
        offset_ptype(total, non_null) is I64 <==> 2 * total + 7 * non_null > 0x7fff_ffff,
        offset_ptype(total, non_null) is I64 ==> offset_ptype(total + more, non_null) is I64
            && offset_ptype(total, non_null + more) is I64,
{
}

/// What compressing gives, row by row: a null row stays null and has no length, and any other row
/// has its codes and its length. The type is that of the rows, the codes are binary and as nullable
/// as the rows, and the symbol table is that of the compressor.
pub proof fn lemma_compressed_row(
    dtype: DType,
    rows: Seq<Option<Seq<u8>>>,
    compressor: Compressor,
    offsets: PType,
    array: FSSTArray,
    i: int,
)
    requires
        is_compressed(dtype, rows, compressor, offsets, array),
        0 <= i < rows.len(),
    ensures
        array.wf(),
        array.dtype == dtype,
        array.codes.dtype is Binary,
        array.codes.dtype.nullability_spec() == dtype.nullability_spec(),
        array.codes.offsets.buffer.ptype_spec() == offsets,
        array.symbols@ == fsst_symbols(compressor),
        array.symbol_lengths@ == fsst_symbol_lengths(compressor),
        array.codes.rows().len() == rows.len(),
        array.uncompressed_lengths@.len() == rows.len(),
        rows[i] is None ==> array.codes.rows()[i] is None && array.uncompressed_lengths@[i] == 0,
        rows[i] matches Some(row) ==> {
            &&& array.codes.rows()[i] == Some(fsst_codes(compressor, row))
            &&& array.uncompressed_lengths@[i] == row.len()
        },
{
    assert(array.uncompressed_lengths@[i] == row_length(rows[i]));
    assert(array.codes.rows()[i] == compressed_row(compressor, rows[i]));
}

/// Symbols that have the lengths of their bytes are no longer than a symbol can be.
proof fn lemma_trimmed_fits(symbols: Seq<u64>, lengths: Seq<u8>)
    requires
        is_trimmed_table(symbols, lengths),
    ensures
        lengths_fit(lengths),
{
    assert forall|i: int| 0 <= i < lengths.len() implies #[trigger] lengths[i]
        <= MAX_SYMBOL_LENGTH by {
        assert(is_trimmed(symbols[i], lengths[i]));
    }
}

/// One more row adds its own bytes.
proof fn lemma_total_push(rows: Seq<Option<Seq<u8>>>, row: Option<Seq<u8>>)
    ensures
        total_bytes(rows.push(row)) == total_bytes(rows) + row_length(row),
{
    assert(rows.push(row).drop_last() =~= rows);
    assert(rows.push(row).last() == row);
    if let Some(bytes) = row {
        assert(present(rows).push(bytes).drop_last() =~= present(rows));
    }
}

/// Some of the rows have no more bytes than all of them.
proof fn lemma_total_prefix(rows: Seq<Option<Seq<u8>>>, k: int)
    requires
        0 <= k <= rows.len(),
    ensures
        total_bytes(rows.take(k)) <= total_bytes(rows),
    decreases rows.len() - k,
{
    if k < rows.len() {
        lemma_total_prefix(rows, k + 1);
        assert(rows.take(k + 1) =~= rows.take(k).push(rows[k]));
        lemma_total_push(rows.take(k), rows[k]);
    } else {
        assert(rows.take(k) =~= rows);
    }
}

/// Collects compressed rows.
struct FsstSink<'c, O: OffsetPType> {
    builder: VarBinBuilder<O>,
    uncompressed_lengths: Vec<i32>,
    compressor: &'c Compressor,
    rows: Ghost<Seq<Option<Seq<u8>>>>,
}

impl<'c, O: OffsetPType> FsstSink<'c, O> {
    /// What has been collected are the codes and the lengths of the rows so far.
    spec fn wf(self) -> bool {
        &&& self.builder.wf()
        &&& self.builder.rows() == self.rows@.map_values(
            |row: Option<Seq<u8>>| compressed_row(*self.compressor, row),
        )
        &&& self.builder.data_len() <= FSST_PER_BYTE_OVERHEAD * total_bytes(self.rows@)
        &&& self.uncompressed_lengths@.len() == self.rows@.len()
        &&& forall|i: int|
            0 <= i < self.rows@.len() ==> #[trigger] self.uncompressed_lengths@[i] == row_length(
                self.rows@[i],
            )
        &&& lengths_fit(fsst_symbol_lengths(*self.compressor))
        &&& forall|i: int|
            0 <= i < self.rows@.len() ==> #[trigger] round_trips(*self.compressor, self.rows@[i])
    }

    /// A sink without rows that has room for `len` of them.
    fn with_capacity(len: usize, compressor: &'c Compressor) -> (r: Self)
        requires
            len < usize::MAX,
            lengths_fit(fsst_symbol_lengths(*compressor)),
        ensures
            r.wf(),
            r.rows@ == Seq::<Option<Seq<u8>>>::empty(),
            r.compressor == compressor,
    {
        let r = FsstSink {
            builder: VarBinBuilder::<O>::with_capacity(len),
            uncompressed_lengths: Vec::with_capacity(len),
            compressor,
            rows: Ghost(Seq::empty()),
        };
        assert(r.builder.rows() =~= r.rows@.map_values(
            |row: Option<Seq<u8>>| compressed_row(*compressor, row),
        ));
        r
    }

    /// Compresses a row and collects its codes and its length.
    fn emit(&mut self, row: Option<&[u8]>)
        requires
            old(self).wf(),
            row matches Some(bytes) ==> {
                &&& bytes@.len() <= i32::MAX
                &&& FSST_PER_BYTE_OVERHEAD * (total_bytes(old(self).rows@) + bytes@.len())
                    <= isize::MAX
                &&& FSST_PER_BYTE_OVERHEAD * (total_bytes(old(self).rows@) + bytes@.len())
                    <= O::max_offset()
            },
            FSST_PER_BYTE_OVERHEAD * total_bytes(old(self).rows@) <= O::max_offset(),
        ensures
            final(self).wf(),
            final(self).rows@ == old(self).rows@.push(slice_row(row)),
            final(self).compressor == old(self).compressor,
    {
        let ghost before = *self;
        let ghost c = *self.compressor;
        proof {
            lemma_total_push(before.rows@, slice_row(row));
        }
        match row {
            None => {
                self.builder.append_null();
                self.uncompressed_lengths.push(0);
            },
            Some(bytes) => {
                self.uncompressed_lengths.push(bytes.len() as i32);
                let codes = compress_row(self.compressor, bytes);
                self.builder.append_value(codes.as_slice());
            },
        }
        self.rows = Ghost(self.rows@.push(slice_row(row)));
        assert(self.builder.rows() =~= self.rows@.map_values(
            |row: Option<Seq<u8>>| compressed_row(c, row),
        ));
    }

    /// Makes an array of what has been collected.
    fn finish(self, dtype: DType) -> (r: VortexResult<FSSTArray>)
        requires
            self.wf(),
            dtype is Utf8 || dtype is Binary,
            dtype.nullability_spec() is NonNullable ==> forall|i: int|
                0 <= i < self.rows@.len() ==> (#[trigger] self.rows@[i]) is Some,
        ensures
            r matches Ok(array) && is_compressed(
                dtype,
                self.rows@,
                *self.compressor,
                O::ptype_spec(),
                array,
            ),
    {
        proof {
            assert forall|i: int| 0 <= i < self.builder.rows().len() implies (
            #[trigger] self.builder.rows()[i]) == compressed_row(*self.compressor, self.rows@[i]) by {}
        }
        let codes = self.builder.finish(DType::Binary(dtype.nullability()));
        FSSTArray::try_new(
            dtype,
            symbol_table(self.compressor),
            symbol_lengths(self.compressor),
            codes,
            self.uncompressed_lengths,
        )
    }
}

/// The bytes of a row; `None` for a null row.
spec fn slice_row(row: Option<&[u8]>) -> Option<Seq<u8>> {
    match row {
        Some(bytes) => Some(bytes@),
        None => None,
    }
}

/// Compresses the rows of an array of views, with offsets of type `O`.
fn compress_views<O: OffsetPType>(
    strings: &VarBinViewArray,
    mask: &Mask,
    compressor: &Compressor,
) -> (r: VortexResult<FSSTArray>)
    requires
        strings.wf(),
        mask.wf(),
        mask@ == strings.validity.bits(strings.rows().len()),
        compressible(strings.rows()),
        lengths_fit(fsst_symbol_lengths(*compressor)),
        FSST_PER_BYTE_OVERHEAD * total_bytes(strings.rows()) <= O::max_offset(),
    ensures
        r matches Ok(array) && is_compressed(
            strings.dtype,
            strings.rows(),
            *compressor,
            O::ptype_spec(),
            array,
        ),
{
    let ghost rows = strings.rows();
    let n: usize = strings.len();
    let mut sink = FsstSink::<O>::with_capacity(n, compressor);
    let mut i: usize = 0;
    assert(rows.take(0) =~= sink.rows@);
    while i < n
        invariant
            strings.wf(),
            rows == strings.rows(),
            n == rows.len(),
            mask@ == strings.validity.bits(rows.len()),
            compressible(rows),
            FSST_PER_BYTE_OVERHEAD * total_bytes(rows) <= O::max_offset(),
            i <= n,
            sink.wf(),
            sink.compressor == compressor,
            sink.rows@ == rows.take(i as int),
        decreases n - i,
    {
        proof {
            lemma_total_prefix(rows, i as int);
            lemma_total_prefix(rows, i + 1);
            assert(rows.take(i + 1) =~= rows.take(i as int).push(rows[i as int]));
            lemma_total_push(rows.take(i as int), rows[i as int]);
            assert(row_length(rows[i as int]) <= i32::MAX);
            assert(rows[i as int] == strings.row(i as int));
        }
        let row = if mask.value(i) {
            assert(strings.views@[i as int].wf(strings.buffers@));
            Some(strings.view_bytes(&strings.views[i]))
        } else {
            None
        };
        sink.emit(row);
        i = i + 1;
    }
    assert(rows.take(i as int) =~= rows);
    proof {
        if strings.dtype.nullability_spec() is NonNullable {
            assert forall|k: int| 0 <= k < rows.len() implies (#[trigger] rows[k]) is Some by {
                assert(rows[k] == strings.row(k));
            }
        }
    }
    sink.finish(strings.dtype.clone())
}

/// The bytes of all views that the mask selects, all together.
fn total_view_bytes(strings: &VarBinViewArray, mask: &Mask) -> (r: usize)
    requires
        strings.wf(),
        mask@ == strings.validity.bits(strings.rows().len()),
        total_bytes(strings.rows()) <= usize::MAX,
    ensures
        r == total_bytes(strings.rows()),
{
    let ghost rows = strings.rows();
    let n: usize = strings.len();
    let mut total: usize = 0;
    let mut i: usize = 0;
    while i < n
        invariant
            strings.wf(),
            rows == strings.rows(),
            n == rows.len(),
            mask@ == strings.validity.bits(rows.len()),
            total_bytes(rows) <= usize::MAX,
            i <= n,
            total == total_bytes(rows.take(i as int)),
        decreases n - i,
    {
        proof {
            lemma_total_prefix(rows, i + 1);
            assert(rows.take(i + 1) =~= rows.take(i as int).push(rows[i as int]));
            lemma_total_push(rows.take(i as int), rows[i as int]);
            assert(rows[i as int] == strings.row(i as int));
            if strings.validity.valid_at(i as int) {
                assert(strings.views@[i as int].wf(strings.buffers@));
            }
        }
        if mask.value(i) {
            total = total + strings.views[i].len() as usize;
        }
        i = i + 1;
    }
    assert(rows.take(i as int) =~= rows);
    total
}

/// The offset type for an output of at most the given size: 32 bits if that suffices.
pub open spec fn offset_ptype(total_input_bytes: int, non_null: int) -> PType {
    if worst_case(total_input_bytes, non_null) <= i32::MAX {
        PType::I32
    } else {
        PType::I64
    }
}

/// Compresses an array of views.
pub fn fsst_compress(
    strings: &VarBinViewArray,
    compressor: &Compressor,
    ctx: &mut ExecutionCtx,
) -> (r: VortexResult<FSSTArray>)
    requires
        strings.wf(),
        compressible(strings.rows()),
        lengths_fit(fsst_symbol_lengths(*compressor)),
    ensures
        r matches Ok(array) && is_compressed(
            strings.dtype,
            strings.rows(),
            *compressor,
            offset_ptype(
                total_bytes(strings.rows()) as int,
                count_true(strings.validity.bits(strings.rows().len())) as int,
            ),
            array,
        ),
        *final(ctx) == *old(ctx),
{
    let mask = strings.validity.execute_mask(strings.len());
    let non_null: usize = mask.true_count();
    let total_input_bytes: usize = total_view_bytes(strings, &mask);
    if fsst_output_fits_in_i32_offsets(total_input_bytes, non_null) {
        compress_views::<i32>(strings, &mask, compressor)
    } else {
        compress_views::<i64>(strings, &mask, compressor)
    }
}

/// Compresses an array of views; `None` if a symbol of the compressor is said to be longer than a
/// symbol can be.
pub fn try_fsst_compress(
    strings: &VarBinViewArray,
    compressor: &Compressor,
    ctx: &mut ExecutionCtx,
) -> (r: Option<VortexResult<FSSTArray>>)
    requires
        strings.wf(),
        compressible(strings.rows()),
    ensures
        r is Some == lengths_fit(fsst_symbol_lengths(*compressor)),
        r matches Some(r) ==> (r matches Ok(array) && is_compressed(
            strings.dtype,
            strings.rows(),
            *compressor,
            offset_ptype(
                total_bytes(strings.rows()) as int,
                count_true(strings.validity.bits(strings.rows().len())) as int,
            ),
            array,
        )),
        *final(ctx) == *old(ctx),
{
    if has_fitting_lengths(compressor) {
        Some(fsst_compress(strings, compressor, ctx))
    } else {
        None
    }
}

/// Trains a compressor on the rows of an array of views that are not null.
pub fn fsst_train_compressor(strings: &VarBinViewArray, ctx: &mut ExecutionCtx) -> (r: VortexResult<
    Compressor,
>)
    requires
        strings.wf(),
        total_bytes(strings.rows()) <= usize::MAX,
    ensures
        r matches Ok(compressor) && {
            &&& fsst_trained_on(present(strings.rows()), compressor)
            &&& is_trimmed_table(fsst_symbols(compressor), fsst_symbol_lengths(compressor))
            &&& lengths_fit(fsst_symbol_lengths(compressor))
        },
        *final(ctx) == *old(ctx),
{
    let mask = strings.validity.execute_mask(strings.len());
    let lines = view_lines(strings, &mask);
    let compressor = train(&lines);
    proof {
        lemma_trimmed_fits(fsst_symbols(compressor), fsst_symbol_lengths(compressor));
    }
    Ok(compressor)
}

/// The rows of an array of views that are not null.
pub fn view_lines<'a>(strings: &'a VarBinViewArray, mask: &Mask) -> (lines: Vec<&'a [u8]>)
    requires
        strings.wf(),
        mask@ == strings.validity.bits(strings.rows().len()),
    ensures
        line_bytes(lines@) == present(strings.rows()),
{
    let ghost rows = strings.rows();
    let n: usize = strings.len();
    let mut lines: Vec<&'a [u8]> = Vec::with_capacity(n);
    let mut i: usize = 0;
    assert(line_bytes(lines@) =~= present(rows.take(0)));
    while i < n
        invariant
            strings.wf(),
            rows == strings.rows(),
            n == rows.len(),
            mask@ == strings.validity.bits(rows.len()),
            i <= n,
            line_bytes(lines@) == present(rows.take(i as int)),
        decreases n - i,
    {
        proof {
            assert(rows.take(i + 1).drop_last() =~= rows.take(i as int));
            assert(rows.take(i + 1).last() == strings.row(i as int));
            if strings.validity.valid_at(i as int) {
                assert(strings.views@[i as int].wf(strings.buffers@));
            }
        }
        if mask.value(i) {
            let line = strings.view_bytes(&strings.views[i]);
            let ghost before = lines@;
            lines.push(line);
            assert(line_bytes(lines@) =~= line_bytes(before).push(line@));
        }
        i = i + 1;
    }
    assert(rows.take(i as int) =~= rows);
    lines
}

/// The rows between offsets; `None` for a row that the mask does not select.
fn varbin_rows<'a, I: IntegerPType>(off: &[I], bytes: &'a [u8], mask: &Mask) -> (r: Vec<
    Option<&'a [u8]>,
>)
    requires
        off@.len() == mask@.len() + 1,
        0 <= off@[0].as_int(),
        off@.last().as_int() <= bytes@.len(),
        forall|i: int, j: int|
            0 <= i <= j < off@.len() ==> #[trigger] off@[i].as_int() <= #[trigger] off@[j].as_int(),
    ensures
        r@.len() == mask@.len(),
        forall|i: int|
            0 <= i < r@.len() ==> slice_row(#[trigger] r@[i]) == (if mask@[i] {
                Some(bytes@.subrange(off@[i].as_int(), off@[i + 1].as_int()))
            } else {
                None
            }),
{
    let n: usize = mask.len();
    let mut out: Vec<Option<&'a [u8]>> = Vec::with_capacity(n);
    let mut i: usize = 0;
    while i < n
        invariant
            n == mask@.len(),
            off@.len() == n + 1,
            0 <= off@[0].as_int(),
            off@.last().as_int() <= bytes@.len(),
            forall|i: int, j: int|
                0 <= i <= j < off@.len() ==> #[trigger] off@[i].as_int()
                    <= #[trigger] off@[j].as_int(),
            i <= n,
            out@.len() == i,
            forall|k: int|
                0 <= k < i ==> slice_row(#[trigger] out@[k]) == (if mask@[k] {
                    Some(bytes@.subrange(off@[k].as_int(), off@[k + 1].as_int()))
                } else {
                    None
                }),
        decreases n - i,
    {
        if mask.value(i) {
            proof {
                assert(off@[0].as_int() <= off@[i as int].as_int());
                assert(off@[i as int].as_int() <= off@[i + 1].as_int());
                assert(off@[i + 1].as_int() <= off@[off@.len() - 1].as_int());
                assert(bytes@.len() == bytes.len());
            }
            match (off[i].to_usize(), off[i + 1].to_usize()) {
                (Some(from), Some(to)) => {
                    out.push(Some(vstd::slice::slice_subrange(bytes, from, to)));
                },
                _ => {
                    assert(false);
                },
            }
        } else {
            out.push(None);
        }
        i = i + 1;
    }
    out
}

/// The rows of an array with offsets of type `I`; `None` for a null row.
fn typed_rows<'a, I: IntegerPType>(strings: &'a VarBinArray, mask: &Mask) -> (r: Vec<
    Option<&'a [u8]>,
>)
    requires
        strings.wf(),
        strings.offsets.buffer.ptype_spec() == I::ptype_spec(),
        mask@ == strings.validity.bits(strings.rows().len()),
    ensures
        slice_rows(r@) == strings.rows(),
{
    let off = strings.offsets.as_slice::<I>();
    proof {
        assert(pvalues_of(off@).len() == off@.len());
        assert forall|i: int| 0 <= i < off@.len() implies #[trigger] strings.offset(i)
            == off@[i].as_int() by {
            off@[i].lemma_tagged();
            assert(pvalues_of(off@)[i] == off@[i].pvalue());
        }
        assert forall|i: int, j: int| 0 <= i <= j < off@.len() implies #[trigger] off@[i].as_int()
            <= #[trigger] off@[j].as_int() by {
            assert(strings.offset(i) <= strings.offset(j));
        }
        assert(strings.offset(0) == off@[0].as_int());
        assert(strings.offset(strings.len_spec()) == off@[off@.len() - 1].as_int());
    }
    let r = varbin_rows(off, strings.bytes.as_slice(), mask);
    proof {
        assert forall|i: int| 0 <= i < r@.len() implies slice_row(#[trigger] r@[i])
            == strings.rows()[i] by {
            assert(strings.offset(i) == off@[i].as_int());
            assert(strings.offset(i + 1) == off@[i + 1].as_int());
        }
        assert(slice_rows(r@) =~= strings.rows());
    }
    r
}

/// The bytes of each row.
spec fn slice_rows(rows: Seq<Option<&[u8]>>) -> Seq<Option<Seq<u8>>> {
    rows.map_values(|row: Option<&[u8]>| slice_row(row))
}

/// The rows of an array; `None` for a null row.
fn rows_of<'a>(strings: &'a VarBinArray, mask: &Mask) -> (r: Vec<Option<&'a [u8]>>)
    requires
        strings.wf(),
        mask@ == strings.validity.bits(strings.rows().len()),
    ensures
        slice_rows(r@) == strings.rows(),
{
    match strings.offsets.buffer.ptype() {
        PType::U8 => typed_rows::<u8>(strings, mask),
        PType::U16 => typed_rows::<u16>(strings, mask),
        PType::U32 => typed_rows::<u32>(strings, mask),
        PType::U64 => typed_rows::<u64>(strings, mask),
        PType::I8 => typed_rows::<i8>(strings, mask),
        PType::I16 => typed_rows::<i16>(strings, mask),
        PType::I32 => typed_rows::<i32>(strings, mask),
        PType::I64 => typed_rows::<i64>(strings, mask),
        _ => vstd::pervasive::unreached(),
    }
}

/// The rows of an array have no more bytes than lie between its first and last offset.
proof fn lemma_offsets_bound_total(strings: VarBinArray, k: int)
    requires
        strings.wf(),
        0 <= k <= strings.rows().len(),
    ensures
        total_bytes(strings.rows().take(k)) <= strings.offset(k) - strings.offset(0),
    decreases k,
{
    let rows = strings.rows();
    if k > 0 {
        lemma_offsets_bound_total(strings, k - 1);
        assert(rows.take(k) =~= rows.take(k - 1).push(rows[k - 1]));
        lemma_total_push(rows.take(k - 1), rows[k - 1]);
        assert(rows[k - 1] == strings.row(k - 1));
        assert(strings.offset(0) <= strings.offset(k - 1));
        assert(strings.offset(k - 1) <= strings.offset(k));
        assert(strings.offset(k) <= strings.offset(strings.len_spec()));
    }
}

/// Compresses the rows of an array, with offsets of type `O`.
fn compress_varbin<O: OffsetPType>(
    strings: &VarBinArray,
    mask: &Mask,
    compressor: &Compressor,
) -> (r: VortexResult<FSSTArray>)
    requires
        strings.wf(),
        mask@ == strings.validity.bits(strings.rows().len()),
        compressible(strings.rows()),
        lengths_fit(fsst_symbol_lengths(*compressor)),
        FSST_PER_BYTE_OVERHEAD * total_bytes(strings.rows()) <= O::max_offset(),
    ensures
        r matches Ok(array) && is_compressed(
            strings.dtype,
            strings.rows(),
            *compressor,
            O::ptype_spec(),
            array,
        ),
{
    let ghost rows = strings.rows();
    let list = rows_of(strings, mask);
    assert(slice_rows(list@).len() == list@.len());
    let mut sink = FsstSink::<O>::with_capacity(list.len(), compressor);
    let mut i: usize = 0;
    assert(rows.take(0) =~= sink.rows@);
    while i < list.len()
        invariant
            rows == slice_rows(list@),
            rows.len() == list@.len(),
            compressible(rows),
            FSST_PER_BYTE_OVERHEAD * total_bytes(rows) <= O::max_offset(),
            i <= list@.len(),
            sink.wf(),
            sink.compressor == compressor,
            sink.rows@ == rows.take(i as int),
        decreases list@.len() - i,
    {
        proof {
            lemma_total_prefix(rows, i as int);
            lemma_total_prefix(rows, i + 1);
            assert(rows.take(i + 1) =~= rows.take(i as int).push(rows[i as int]));
            lemma_total_push(rows.take(i as int), rows[i as int]);
            assert(row_length(rows[i as int]) <= i32::MAX);
            assert(rows[i as int] == slice_row(list@[i as int]));
        }
        sink.emit(list[i]);
        i = i + 1;
    }
    assert(rows.take(i as int) =~= rows);
    proof {
        if strings.dtype.nullability_spec() is NonNullable {
            assert forall|k: int| 0 <= k < rows.len() implies (#[trigger] rows[k]) is Some by {
                assert(rows[k] == strings.row(k));
            }
        }
    }
    sink.finish(strings.dtype.clone())
}

/// The number of bytes between the first and the last offset of an array.
fn total_offset_bytes(strings: &VarBinArray) -> (r: usize)
    requires
        strings.wf(),
    ensures
        r == strings.offset(strings.len_spec()) - strings.offset(0),
        total_bytes(strings.rows()) <= r,
{
    let n: usize = strings.len();
    proof {
        strings.offsets.buffer.lemma_ptypes();
        assert(strings.offset(0) <= strings.offset(strings.len_spec()));
        assert(strings.bytes@.len() == strings.bytes.len());
        lemma_offsets_bound_total(*strings, n as int);
        assert(strings.rows().take(n as int) =~= strings.rows());
    }
    match (
        strings.offsets.buffer.value_at(0).to_usize(),
        strings.offsets.buffer.value_at(n).to_usize(),
    ) {
        (Some(first), Some(last)) => last - first,
        _ => vstd::pervasive::unreached(),
    }
}

/// Compresses an array of strings held one behind the other.
#[verifier::spinoff_prover]
pub fn fsst_compress_varbin(
    strings: &VarBinArray,
    compressor: &Compressor,
    ctx: &mut ExecutionCtx,
) -> (r: VortexResult<FSSTArray>)
    requires
        strings.wf(),
        compressible(strings.rows()),
        lengths_fit(fsst_symbol_lengths(*compressor)),
    ensures
        r matches Ok(array) && is_compressed(
            strings.dtype,
            strings.rows(),
            *compressor,
            offset_ptype(
                strings.offset(strings.len_spec()) - strings.offset(0),
                count_true(strings.validity.bits(strings.rows().len())) as int,
            ),
            array,
        ),
        *final(ctx) == *old(ctx),
{
    let mask = strings.validity.execute_mask(strings.len());
    let total_input_bytes: usize = total_offset_bytes(strings);
    let non_null: usize = mask.true_count();
    if fsst_output_fits_in_i32_offsets(total_input_bytes, non_null) {
        compress_varbin::<i32>(strings, &mask, compressor)
    } else {
        compress_varbin::<i64>(strings, &mask, compressor)
    }
}

/// Compresses an array of strings held one behind the other; `None` if a symbol of the compressor
/// is said to be longer than a symbol can be.
pub fn try_fsst_compress_varbin(
    strings: &VarBinArray,
    compressor: &Compressor,
    ctx: &mut ExecutionCtx,
) -> (r: Option<VortexResult<FSSTArray>>)
    requires
        strings.wf(),
        compressible(strings.rows()),
    ensures
        r is Some == lengths_fit(fsst_symbol_lengths(*compressor)),
        r matches Some(r) ==> (r matches Ok(array) && is_compressed(
            strings.dtype,
            strings.rows(),
            *compressor,
            offset_ptype(
                strings.offset(strings.len_spec()) - strings.offset(0),
                count_true(strings.validity.bits(strings.rows().len())) as int,
            ),
            array,
        )),
        *final(ctx) == *old(ctx),
{
    if has_fitting_lengths(compressor) {
        Some(fsst_compress_varbin(strings, compressor, ctx))
    } else {
        None
    }
}

/// Trains a compressor on the rows of an array that are not null.
pub fn fsst_train_compressor_varbin(strings: &VarBinArray, ctx: &mut ExecutionCtx) -> (r:
    VortexResult<Compressor>)
    requires
        strings.wf(),
    ensures
        r matches Ok(compressor) && {
            &&& fsst_trained_on(present(strings.rows()), compressor)
            &&& is_trimmed_table(fsst_symbols(compressor), fsst_symbol_lengths(compressor))
            &&& lengths_fit(fsst_symbol_lengths(compressor))
        },
        *final(ctx) == *old(ctx),
{
    let ghost rows = strings.rows();
    let n: usize = strings.len();
    let mask = strings.validity.execute_mask(n);
    let list = rows_of(strings, &mask);
    assert(slice_rows(list@).len() == list@.len());
    let mut lines: Vec<&[u8]> = Vec::with_capacity(list.len());
    let mut i: usize = 0;
    assert(line_bytes(lines@) =~= present(rows.take(0)));
    while i < list.len()
        invariant
            rows == slice_rows(list@),
            rows.len() == list@.len(),
            i <= list@.len(),
            line_bytes(lines@) == present(rows.take(i as int)),
        decreases list@.len() - i,
    {
        proof {
            assert(rows.take(i + 1).drop_last() =~= rows.take(i as int));
            assert(rows.take(i + 1).last() == slice_row(list@[i as int]));
        }
        if let Some(line) = list[i] {
            let ghost before = lines@;
            lines.push(line);
            assert(line_bytes(lines@) =~= line_bytes(before).push(line@));
        }
        i = i + 1;
    }
    proof {
        assert(rows.take(i as int) =~= rows);
        lemma_offsets_bound_total(*strings, n as int);
        assert(strings.rows().take(n as int) =~= strings.rows());
        assert(strings.bytes@.len() == strings.bytes.len());
    }
    let compressor = train(&lines);
    proof {
        lemma_trimmed_fits(fsst_symbols(compressor), fsst_symbol_lengths(compressor));
    }
    Ok(compressor)
}

} // verus!
