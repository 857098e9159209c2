//! Taking rows of a filtered array without filtering it first.
//!
//! The indices are ranks into the filtered rows. Each is translated into a position of the
//! unfiltered child, and the child is read there.

use vstd::prelude::*;

use super::gather::{
    contiguous_sequential_take_range, lemma_scan_errors, take_filtered_values,
    take_filtered_values_nullable,
};
use super::rank::{
    first_rank_error, gathered, lemma_first_bad_rank, lemma_no_error_in_bounds, nullable_ranks, position_of, translated,
    translates, u64_ints, valid_ranks, value_of,
};
use super::translate::{translate_nullable_ranks_fast, translate_ranks_fast};
use crate::array::construct::without_stats;
use crate::array::vtable::{ArrayView, Decimal, Filter, Primitive};
use crate::array::{
    in_bounds, row_index, row_indices, taken_row, taken_rows, ArrayData, ArrayId, ArrayRef,
};
use crate::arrays::decimal::{
    decimal_row, decimals_of, DecimalArray, DecimalType, NativeDecimalType,
};
use crate::arrays::dict::take::TakeExecute;
use crate::arrays::primitive::execute::has_negative;
use crate::arrays::primitive::{primitive_row, pvalues_of, NativePType, PrimitiveArray};
use crate::dtype::{DType, Nullability, PType};
use crate::error::{VortexError, VortexResult};
use crate::mask::{
    count_true, is_contiguous, lemma_count_full, lemma_positions_contiguous, lemma_positions_sound, select,
    true_positions, Mask,
};
use crate::native::{FixedWidth, IntegerPType, F16, F32, F64, I256};
use crate::optimizer::kernels::ExecutionCtx;
use crate::optimizer::rules::{declined, Reduced};
use crate::scalar::{PValue, ScalarValue};
use crate::validity::Validity;

verus! {

/// The ranks that index values stand for when none is null.
pub open spec fn value_ranks(values: Seq<PValue>) -> Seq<Option<int>> {
    values.map_values(|v: PValue| v.as_int())
}

/// The ranks that index values stand for: none where `bits` is false.
pub open spec fn masked_ranks(values: Seq<PValue>, bits: Seq<bool>) -> Seq<Option<int>> {
    Seq::new(
        values.len(),
        |i: int|
            if bits[i] {
                values[i].as_int()
            } else {
                None
            },
    )
}

/// Tagging index values does not change the ranks that they stand for.
proof fn lemma_tagged_ranks<P: IntegerPType>(values: Seq<P>)
    ensures
        valid_ranks(values) == value_ranks(pvalues_of(values)),
        forall|bits: Seq<bool>|
            nullable_ranks(values, bits) == #[trigger] masked_ranks(pvalues_of(values), bits),
{
    assert forall|i: int| 0 <= i < values.len() implies (#[trigger] pvalues_of(values)[i]).as_int()
        == Some(values[i].as_int()) by {
        values[i].lemma_tagged();
    }
    assert(valid_ranks(values) =~= value_ranks(pvalues_of(values)));
    assert forall|bits: Seq<bool>|
        nullable_ranks(values, bits) == #[trigger] masked_ranks(pvalues_of(values), bits) by {
        assert(nullable_ranks(values, bits) =~= masked_ranks(pvalues_of(values), bits));
    }
}

/// A mask without a false bit leaves every rank in place.
proof fn lemma_unmasked_ranks(values: Seq<PValue>, bits: Seq<bool>)
    requires
        bits.len() == values.len(),
        forall|i: int| 0 <= i < bits.len() ==> #[trigger] bits[i],
    ensures
        masked_ranks(values, bits) == value_ranks(values),
{
    assert(masked_ranks(values, bits) =~= value_ranks(values));
}

/// The rows of an index array hold the ranks that its values and validity stand for.
proof fn lemma_row_ranks(indices: PrimitiveArray)
    ensures
        row_indices(indices.rows()) == masked_ranks(
            indices.buffer.pvalues(),
            indices.validity.bits(indices.buffer.pvalues().len()),
        ),
        indices.buffer.ptype_spec().is_int_spec() ==> forall|i: int|
            0 <= i < indices.rows().len() ==> ((#[trigger] row_indices(indices.rows())[i]) is Some
                <==> indices.validity.valid_at(i)),
{
    indices.buffer.lemma_ptypes();
    let bits = indices.validity.bits(indices.buffer.pvalues().len());
    assert forall|i: int| 0 <= i < indices.rows().len() implies #[trigger] row_indices(
        indices.rows(),
    )[i] == masked_ranks(indices.buffer.pvalues(), bits)[i] by {
        assert(row_indices(indices.rows())[i] == row_index(indices.rows()[i]));
    }
    assert(row_indices(indices.rows()) =~= masked_ranks(indices.buffer.pvalues(), bits));
}

/// Translates index values of type `P` without nulls.
fn translate_typed_indices<P: IntegerPType>(
    filter: &Mask,
    indices: &PrimitiveArray,
    filtered_len: usize,
) -> (r: VortexResult<Vec<u64>>)
    requires
        filter.wf(),
        filtered_len == count_true(filter@),
        filtered_len > 0,
        indices.buffer.ptype_spec() == P::ptype_spec(),
    ensures
        translates(
            value_ranks(indices.buffer.pvalues()),
            true_positions(filter@),
            filtered_len,
            r,
        ),
{
    let ranks = indices.as_slice::<P>();
    proof {
        lemma_tagged_ranks(ranks@);
    }
    translate_ranks_fast(filter, ranks, filtered_len)
}

/// Translates index values without nulls into positions of the unfiltered array.
fn translate_indices_fast(
    filter: &Mask,
    indices: &PrimitiveArray,
    filtered_len: usize,
) -> (r: VortexResult<Vec<u64>>)
    requires
        filter.wf(),
        filtered_len == count_true(filter@),
        filtered_len > 0,
        indices.buffer.ptype_spec().is_int_spec(),
    ensures
        translates(
            value_ranks(indices.buffer.pvalues()),
            true_positions(filter@),
            filtered_len,
            r,
        ),
{
    match indices.buffer.ptype() {
        PType::U8 => translate_typed_indices::<u8>(filter, indices, filtered_len),
        PType::U16 => translate_typed_indices::<u16>(filter, indices, filtered_len),
        PType::U32 => translate_typed_indices::<u32>(filter, indices, filtered_len),
        PType::U64 => translate_typed_indices::<u64>(filter, indices, filtered_len),
        PType::I8 => translate_typed_indices::<i8>(filter, indices, filtered_len),
        PType::I16 => translate_typed_indices::<i16>(filter, indices, filtered_len),
        PType::I32 => translate_typed_indices::<i32>(filter, indices, filtered_len),
        PType::I64 => translate_typed_indices::<i64>(filter, indices, filtered_len),
        _ => vstd::pervasive::unreached(),
    }
}

/// Translates index values of type `P` that are null where the validity says so.
fn translate_typed_nullable_indices<P: IntegerPType>(
    filter: &Mask,
    indices: &PrimitiveArray,
    indices_validity: &Mask,
    filtered_len: usize,
) -> (r: VortexResult<Vec<u64>>)
    requires
        filter.wf(),
        filtered_len == count_true(filter@),
        filtered_len > 0,
        indices.buffer.ptype_spec() == P::ptype_spec(),
        indices_validity.wf(),
        indices_validity@.len() == indices.buffer.pvalues().len(),
    ensures
        translates(
            masked_ranks(indices.buffer.pvalues(), indices_validity@),
            true_positions(filter@),
            filtered_len,
            r,
        ),
{
    let ranks = indices.as_slice::<P>();
    proof {
        lemma_tagged_ranks(ranks@);
        assert(pvalues_of(ranks@).len() == ranks@.len());
    }
    translate_nullable_ranks_fast(filter, ranks, indices_validity, filtered_len)
}

/// Translates index values into positions of the unfiltered array, and nulls into zero.
fn translate_nullable_indices_fast(
    filter: &Mask,
    indices: &PrimitiveArray,
    indices_validity: &Mask,
    filtered_len: usize,
) -> (r: VortexResult<Vec<u64>>)
    requires
        filter.wf(),
        filtered_len == count_true(filter@),
        filtered_len > 0,
        indices.buffer.ptype_spec().is_int_spec(),
        indices_validity.wf(),
        indices_validity@.len() == indices.buffer.pvalues().len(),
    ensures
        translates(
            masked_ranks(indices.buffer.pvalues(), indices_validity@),
            true_positions(filter@),
            filtered_len,
            r,
        ),
{
    match indices.buffer.ptype() {
        PType::U8 => translate_typed_nullable_indices::<u8>(
            filter,
            indices,
            indices_validity,
            filtered_len,
        ),
        PType::U16 => translate_typed_nullable_indices::<u16>(
            filter,
            indices,
            indices_validity,
            filtered_len,
        ),
        PType::U32 => translate_typed_nullable_indices::<u32>(
            filter,
            indices,
            indices_validity,
            filtered_len,
        ),
        PType::U64 => translate_typed_nullable_indices::<u64>(
            filter,
            indices,
            indices_validity,
            filtered_len,
        ),
        PType::I8 => translate_typed_nullable_indices::<i8>(
            filter,
            indices,
            indices_validity,
            filtered_len,
        ),
        PType::I16 => translate_typed_nullable_indices::<i16>(
            filter,
            indices,
            indices_validity,
            filtered_len,
        ),
        PType::I32 => translate_typed_nullable_indices::<i32>(
            filter,
            indices,
            indices_validity,
            filtered_len,
        ),
        PType::I64 => translate_typed_nullable_indices::<i64>(
            filter,
            indices,
            indices_validity,
            filtered_len,
        ),
        _ => vstd::pervasive::unreached(),
    }
}

/// A copy of the values in `start..end`.
fn copy_range<T: FixedWidth>(values: &[T], start: usize, end: usize) -> (r: Vec<T>)
    requires
        start <= end <= values@.len(),
    ensures
        r@ == values@.subrange(start as int, end as int),
{
    let mut out: Vec<T> = Vec::with_capacity(end - start);
    let mut i: usize = start;
    while i < end
        invariant
            start <= i <= end <= values@.len(),
            out@ == values@.subrange(start as int, i as int),
        decreases end - i,
    {
        out.push(values[i]);
        i = i + 1;
        assert(out@ =~= values@.subrange(start as int, i as int));
    }
    out
}

/// In a contiguous filter, ranks in sequence gather one run of values.
proof fn lemma_run_gathered<T: FixedWidth>(
    ranks: Seq<Option<int>>,
    bits: Seq<bool>,
    values: Seq<T>,
)
    requires
        is_contiguous(bits),
        bits.len() == values.len(),
        ranks.len() <= count_true(bits),
        forall|i: int| 0 <= i < ranks.len() ==> (#[trigger] ranks[i]) == Some(i),
    ensures
        true_positions(bits).first() + ranks.len() <= values.len(),
        values.subrange(
            true_positions(bits).first(),
            true_positions(bits).first() + ranks.len(),
        ) == gathered(ranks, true_positions(bits), values),
{
    let positions = true_positions(bits);
    let start = positions.first();
    lemma_positions_contiguous(bits);
    lemma_positions_sound(bits);
    assert(positions[positions.len() - 1] == start + (positions.len() - 1));
    assert forall|i: int| 0 <= i < ranks.len() implies #[trigger] value_of(
        ranks[i],
        positions,
        values,
    ) == values[start + i] by {
        assert(ranks[i] == Some(i));
        assert(positions[i] == start + i);
    }
    assert(values.subrange(start, start + ranks.len()) =~= gathered(ranks, positions, values));
}

/// The outcome of gathering tagged values: `out` holds the value of each rank that is not null.
pub open spec fn gathers_tagged<T>(
    ranks: Seq<Option<int>>,
    positions: Seq<int>,
    values: Seq<T>,
    out: Seq<T>,
) -> bool {
    &&& out.len() == ranks.len()
    &&& forall|i: int|
        0 <= i < ranks.len() && (#[trigger] ranks[i]) is Some ==> out[i]
            == values[positions[ranks[i]->0]]
}

/// The outcome of a take from primitive values: an array of the gathered values under the given
/// validity, or the error of the first bad rank.
pub open spec fn gathers_primitive(
    ranks: Seq<Option<int>>,
    positions: Seq<int>,
    child: PrimitiveArray,
    n: usize,
    validity: Validity,
    r: VortexResult<ArrayRef>,
) -> bool {
    match first_rank_error(ranks, n) {
        Some(e) => r == Err::<ArrayRef, VortexError>(e),
        None => {
            &&& r matches Ok(array)
            &&& array.wf()
            &&& without_stats(array)
            &&& array.inner.data matches ArrayData::Primitive(taken)
            &&& taken.validity == validity
            &&& taken.buffer.ptype_spec() == child.buffer.ptype_spec()
            &&& gathers_tagged(ranks, positions, child.buffer.pvalues(), taken.buffer.pvalues())
        },
    }
}

/// Gathering values and tagging them is gathering tagged values.
proof fn lemma_pvalues_gathered<T: NativePType>(
    ranks: Seq<Option<int>>,
    positions: Seq<int>,
    values: Seq<T>,
)
    requires
        forall|k: int|
            0 <= k < positions.len() ==> 0 <= #[trigger] positions[k] < values.len(),
        forall|i: int|
            0 <= i < ranks.len() && (#[trigger] ranks[i]) is Some ==> 0 <= ranks[i]->0
                < positions.len(),
    ensures
        gathers_tagged(
            ranks,
            positions,
            pvalues_of(values),
            pvalues_of(gathered(ranks, positions, values)),
        ),
{
    let out = gathered(ranks, positions, values);
    assert forall|i: int| 0 <= i < ranks.len() && (#[trigger] ranks[i]) is Some implies pvalues_of(
        out,
    )[i] == pvalues_of(values)[positions[ranks[i]->0]] by {
        assert(out[i] == value_of(ranks[i], positions, values));
        assert(0 <= positions[ranks[i]->0] < values.len());
    }
}

/// Takes primitive values without null ranks.
fn take_primitive_fast_path_all_valid<T: NativePType, P: IntegerPType>(
    child: &PrimitiveArray,
    filter: &Mask,
    filtered_len: usize,
    ranks: &[P],
    output_validity: Validity,
) -> (r: VortexResult<ArrayRef>)
    requires
        child.buffer.ptype_spec() == T::ptype_spec(),
        filter.wf(),
        filter@.len() == child.buffer.pvalues().len(),
        filtered_len == count_true(filter@),
        filtered_len > 0,
        output_validity.wf(ranks@.len()),
    ensures
        gathers_primitive(
            valid_ranks(ranks@),
            true_positions(filter@),
            *child,
            filtered_len,
            output_validity,
            r,
        ),
{
    let ghost rs = valid_ranks(ranks@);
    let ghost positions = true_positions(filter@);
    let values = child.as_slice::<T>();
    assert(pvalues_of(values@).len() == values@.len());
    proof {
        lemma_positions_sound(filter@);
        lemma_scan_errors(rs, filtered_len);
    }
    let range = match contiguous_sequential_take_range(filter, ranks, filtered_len) {
        Ok(range) => range,
        Err(e) => return Err(e),
    };
    if let Some((start, end)) = range {
        proof {
            lemma_run_gathered(rs, filter@, values@);
            lemma_no_error_in_bounds(rs, filtered_len);
            lemma_pvalues_gathered(rs, positions, values@);
        }
        return Ok(PrimitiveArray::new(copy_range(values, start, end), output_validity).into_array());
    }
    let taken = match take_filtered_values(values, filter, ranks, filtered_len) {
        Ok(taken) => taken,
        Err(e) => return Err(e),
    };
    proof {
        lemma_no_error_in_bounds(rs, filtered_len);
        lemma_pvalues_gathered(rs, positions, values@);
    }
    Ok(PrimitiveArray::new(taken, output_validity).into_array())
}

/// Takes primitive values with null ranks.
fn take_primitive_fast_path_nullable<T: NativePType, P: IntegerPType>(
    child: &PrimitiveArray,
    filter: &Mask,
    filtered_len: usize,
    ranks: &[P],
    indices_validity: &Mask,
    output_validity: Validity,
) -> (r: VortexResult<ArrayRef>)
    requires
        child.buffer.ptype_spec() == T::ptype_spec(),
        filter.wf(),
        filter@.len() == child.buffer.pvalues().len(),
        filtered_len == count_true(filter@),
        filtered_len > 0,
        indices_validity.wf(),
        indices_validity@.len() == ranks@.len(),
        output_validity.wf(ranks@.len()),
    ensures
        gathers_primitive(
            nullable_ranks(ranks@, indices_validity@),
            true_positions(filter@),
            *child,
            filtered_len,
            output_validity,
            r,
        ),
{
    let ghost rs = nullable_ranks(ranks@, indices_validity@);
    let values = child.as_slice::<T>();
    assert(pvalues_of(values@).len() == values@.len());
    let taken = match take_filtered_values_nullable(
        values,
        filter,
        ranks,
        indices_validity,
        filtered_len,
    ) {
        Ok(taken) => taken,
        Err(e) => return Err(e),
    };
    proof {
        lemma_positions_sound(filter@);
        lemma_no_error_in_bounds(rs, filtered_len);
        lemma_pvalues_gathered(rs, true_positions(filter@), values@);
    }
    Ok(PrimitiveArray::new(taken, output_validity).into_array())
}

/// Takes primitive values of type `T` by index values of type `P`.
fn take_primitive_fast_path_typed<T: NativePType, P: IntegerPType>(
    child: &PrimitiveArray,
    filter: &Mask,
    filtered_len: usize,
    indices: &PrimitiveArray,
    indices_validity: &Mask,
    output_validity: Validity,
) -> (r: VortexResult<ArrayRef>)
    requires
        child.buffer.ptype_spec() == T::ptype_spec(),
        indices.buffer.ptype_spec() == P::ptype_spec(),
        filter.wf(),
        filter@.len() == child.buffer.pvalues().len(),
        filtered_len == count_true(filter@),
        filtered_len > 0,
        indices_validity.wf(),
        indices_validity@.len() == indices.buffer.pvalues().len(),
        output_validity.wf(indices_validity@.len()),
    ensures
        gathers_primitive(
            masked_ranks(indices.buffer.pvalues(), indices_validity@),
            true_positions(filter@),
            *child,
            filtered_len,
            output_validity,
            r,
        ),
{
    let ranks = indices.as_slice::<P>();
    proof {
        lemma_tagged_ranks(ranks@);
        assert(pvalues_of(ranks@).len() == ranks@.len());
    }
    if indices_validity.all_true() {
        proof {
            lemma_count_full(indices_validity@);
            lemma_unmasked_ranks(indices.buffer.pvalues(), indices_validity@);
        }
        return take_primitive_fast_path_all_valid::<T, P>(
            child,
            filter,
            filtered_len,
            ranks,
            output_validity,
        );
    }
    take_primitive_fast_path_nullable::<T, P>(
        child,
        filter,
        filtered_len,
        ranks,
        indices_validity,
        output_validity,
    )
}

/// Takes primitive values of type `T` by index values of any integer type.
fn take_primitive_fast_path_by_index<T: NativePType>(
    child: &PrimitiveArray,
    filter: &Mask,
    filtered_len: usize,
    indices: &PrimitiveArray,
    indices_validity: &Mask,
    output_validity: Validity,
) -> (r: VortexResult<ArrayRef>)
    requires
        child.buffer.ptype_spec() == T::ptype_spec(),
        indices.buffer.ptype_spec().is_int_spec(),
        filter.wf(),
        filter@.len() == child.buffer.pvalues().len(),
        filtered_len == count_true(filter@),
        filtered_len > 0,
        indices_validity.wf(),
        indices_validity@.len() == indices.buffer.pvalues().len(),
        output_validity.wf(indices_validity@.len()),
    ensures
        gathers_primitive(
            masked_ranks(indices.buffer.pvalues(), indices_validity@),
            true_positions(filter@),
            *child,
            filtered_len,
            output_validity,
            r,
        ),
{
    match indices.buffer.ptype() {
        PType::U8 => take_primitive_fast_path_typed::<T, u8>(
            child,
            filter,
            filtered_len,
            indices,
            indices_validity,
            output_validity,
        ),
        PType::U16 => take_primitive_fast_path_typed::<T, u16>(
            child,
            filter,
            filtered_len,
            indices,
            indices_validity,
            output_validity,
        ),
        PType::U32 => take_primitive_fast_path_typed::<T, u32>(
            child,
            filter,
            filtered_len,
            indices,
            indices_validity,
            output_validity,
        ),
        PType::U64 => take_primitive_fast_path_typed::<T, u64>(
            child,
            filter,
            filtered_len,
            indices,
            indices_validity,
            output_validity,
        ),
        PType::I8 => take_primitive_fast_path_typed::<T, i8>(
            child,
            filter,
            filtered_len,
            indices,
            indices_validity,
            output_validity,
        ),
        PType::I16 => take_primitive_fast_path_typed::<T, i16>(
            child,
            filter,
            filtered_len,
            indices,
            indices_validity,
            output_validity,
        ),
        PType::I32 => take_primitive_fast_path_typed::<T, i32>(
            child,
            filter,
            filtered_len,
            indices,
            indices_validity,
            output_validity,
        ),
        PType::I64 => take_primitive_fast_path_typed::<T, i64>(
            child,
            filter,
            filtered_len,
            indices,
            indices_validity,
            output_validity,
        ),
        _ => vstd::pervasive::unreached(),
    }
}

/// The outcome of a take from decimal values: an array of the gathered values under the given
/// validity, or the error of the first bad rank.
pub open spec fn gathers_decimal(
    ranks: Seq<Option<int>>,
    positions: Seq<int>,
    child: DecimalArray,
    n: usize,
    validity: Validity,
    r: VortexResult<ArrayRef>,
) -> bool {
    match first_rank_error(ranks, n) {
        Some(e) => r == Err::<ArrayRef, VortexError>(e),
        None => {
            &&& r matches Ok(array)
            &&& array.wf()
            &&& without_stats(array)
            &&& array.inner.data matches ArrayData::Decimal(taken)
            &&& taken.validity == validity
            &&& taken.decimal_dtype == child.decimal_dtype
            &&& taken.buffer.values_type_spec() == child.buffer.values_type_spec()
            &&& gathers_tagged(ranks, positions, child.buffer.decimals(), taken.buffer.decimals())
        },
    }
}

/// Gathering values and tagging them is gathering tagged values.
proof fn lemma_decimals_gathered<T: NativeDecimalType>(
    ranks: Seq<Option<int>>,
    positions: Seq<int>,
    values: Seq<T>,
)
    requires
        forall|k: int|
            0 <= k < positions.len() ==> 0 <= #[trigger] positions[k] < values.len(),
        forall|i: int|
            0 <= i < ranks.len() && (#[trigger] ranks[i]) is Some ==> 0 <= ranks[i]->0
                < positions.len(),
    ensures
        gathers_tagged(
            ranks,
            positions,
            decimals_of(values),
            decimals_of(gathered(ranks, positions, values)),
        ),
{
    let out = gathered(ranks, positions, values);
    assert forall|i: int| 0 <= i < ranks.len() && (#[trigger] ranks[i]) is Some implies decimals_of(
        out,
    )[i] == decimals_of(values)[positions[ranks[i]->0]] by {
        assert(out[i] == value_of(ranks[i], positions, values));
        assert(0 <= positions[ranks[i]->0] < values.len());
    }
}

/// Takes decimal values of type `T` by index values of type `P`.
fn take_decimal_fast_path_typed<T: NativeDecimalType, P: IntegerPType>(
    child: &DecimalArray,
    filter: &Mask,
    filtered_len: usize,
    indices: &PrimitiveArray,
    indices_validity: &Mask,
    output_validity: Validity,
) -> (r: VortexResult<ArrayRef>)
    requires
        child.buffer.values_type_spec() == T::decimal_type_spec(),
        indices.buffer.ptype_spec() == P::ptype_spec(),
        filter.wf(),
        filter@.len() == child.buffer.decimals().len(),
        filtered_len == count_true(filter@),
        filtered_len > 0,
        indices_validity.wf(),
        indices_validity@.len() == indices.buffer.pvalues().len(),
        output_validity.wf(indices_validity@.len()),
    ensures
        gathers_decimal(
            masked_ranks(indices.buffer.pvalues(), indices_validity@),
            true_positions(filter@),
            *child,
            filtered_len,
            output_validity,
            r,
        ),
{
    let ranks = indices.as_slice::<P>();
    let values = child.as_slice::<T>();
    let decimal_dtype = child.decimal_dtype;
    let ghost rs = masked_ranks(indices.buffer.pvalues(), indices_validity@);
    let ghost positions = true_positions(filter@);
    proof {
        lemma_positions_sound(filter@);
        lemma_tagged_ranks(ranks@);
        assert(pvalues_of(ranks@).len() == ranks@.len());
        assert(decimals_of(values@).len() == values@.len());
    }
    if indices_validity.all_true() {
        proof {
            lemma_count_full(indices_validity@);
            lemma_unmasked_ranks(indices.buffer.pvalues(), indices_validity@);
            lemma_scan_errors(valid_ranks(ranks@), filtered_len);
        }
        let range = match contiguous_sequential_take_range(filter, ranks, filtered_len) {
            Ok(range) => range,
            Err(e) => return Err(e),
        };
        if let Some((start, end)) = range {
            proof {
                lemma_run_gathered(rs, filter@, values@);
                lemma_no_error_in_bounds(rs, filtered_len);
                lemma_decimals_gathered(rs, positions, values@);
            }
            return Ok(
                DecimalArray::new(
                    copy_range(values, start, end),
                    decimal_dtype,
                    output_validity,
                ).into_array(),
            );
        }
        let taken = match take_filtered_values(values, filter, ranks, filtered_len) {
            Ok(taken) => taken,
            Err(e) => return Err(e),
        };
        proof {
            lemma_no_error_in_bounds(rs, filtered_len);
            lemma_decimals_gathered(rs, positions, values@);
        }
        return Ok(DecimalArray::new(taken, decimal_dtype, output_validity).into_array());
    }
    let taken = match take_filtered_values_nullable(
        values,
        filter,
        ranks,
        indices_validity,
        filtered_len,
    ) {
        Ok(taken) => taken,
        Err(e) => return Err(e),
    };
    proof {
        lemma_no_error_in_bounds(rs, filtered_len);
        lemma_decimals_gathered(rs, positions, values@);
    }
    Ok(DecimalArray::new(taken, decimal_dtype, output_validity).into_array())
}

/// Takes decimal values of type `T` by index values of any integer type.
fn take_decimal_fast_path_by_index<T: NativeDecimalType>(
    child: &DecimalArray,
    filter: &Mask,
    filtered_len: usize,
    indices: &PrimitiveArray,
    indices_validity: &Mask,
    output_validity: Validity,
) -> (r: VortexResult<ArrayRef>)
    requires
        child.buffer.values_type_spec() == T::decimal_type_spec(),
        indices.buffer.ptype_spec().is_int_spec(),
        filter.wf(),
        filter@.len() == child.buffer.decimals().len(),
        filtered_len == count_true(filter@),
        filtered_len > 0,
        indices_validity.wf(),
        indices_validity@.len() == indices.buffer.pvalues().len(),
        output_validity.wf(indices_validity@.len()),
    ensures
        gathers_decimal(
            masked_ranks(indices.buffer.pvalues(), indices_validity@),
            true_positions(filter@),
            *child,
            filtered_len,
            output_validity,
            r,
        ),
{
    match indices.buffer.ptype() {
        PType::U8 => take_decimal_fast_path_typed::<T, u8>(
            child,
            filter,
            filtered_len,
            indices,
            indices_validity,
            output_validity,
        ),
        PType::U16 => take_decimal_fast_path_typed::<T, u16>(
            child,
            filter,
            filtered_len,
            indices,
            indices_validity,
            output_validity,
        ),
        PType::U32 => take_decimal_fast_path_typed::<T, u32>(
            child,
            filter,
            filtered_len,
            indices,
            indices_validity,
            output_validity,
        ),
        PType::U64 => take_decimal_fast_path_typed::<T, u64>(
            child,
            filter,
            filtered_len,
            indices,
            indices_validity,
            output_validity,
        ),
        PType::I8 => take_decimal_fast_path_typed::<T, i8>(
            child,
            filter,
            filtered_len,
            indices,
            indices_validity,
            output_validity,
        ),
        PType::I16 => take_decimal_fast_path_typed::<T, i16>(
            child,
            filter,
            filtered_len,
            indices,
            indices_validity,
            output_validity,
        ),
        PType::I32 => take_decimal_fast_path_typed::<T, i32>(
            child,
            filter,
            filtered_len,
            indices,
            indices_validity,
            output_validity,
        ),
        PType::I64 => take_decimal_fast_path_typed::<T, i64>(
            child,
            filter,
            filtered_len,
            indices,
            indices_validity,
            output_validity,
        ),
        _ => vstd::pervasive::unreached(),
    }
}

/// Whether the values of a child can be gathered straight from its buffer.
pub open spec fn has_plain_values(child: ArrayRef) -> bool {
    match child.inner.data {
        ArrayData::Primitive(a) => a.validity.no_nulls_spec(),
        ArrayData::Decimal(a) => a.validity.no_nulls_spec(),
        _ => false,
    }
}

/// The type of what a take from a filtered array gives: that of the child, nullable as far as the
/// indices are, and as far as the child is unless its values are gathered from its buffer.
pub open spec fn filter_take_dtype(child: ArrayRef, nullability: Nullability) -> DType {
    if has_plain_values(child) {
        child.dtype_spec().with_nullability_spec(nullability)
    } else {
        child.dtype_spec().union_nullability_spec(nullability)
    }
}

/// The encoding of what a take from a filtered array gives.
pub open spec fn filter_take_id(child: ArrayRef) -> ArrayId {
    if has_plain_values(child) {
        child.id_spec()
    } else {
        ArrayId::Dict
    }
}

/// The array that a take of `ranks` from a filtered array gives.
pub open spec fn is_filter_take(
    array: ArrayRef,
    ranks: Seq<Option<int>>,
    nullability: Nullability,
    taken: ArrayRef,
) -> bool {
    &&& taken.wf()
    &&& taken.rows() == taken_rows(ranks, array.rows())
    &&& taken.len_spec() == ranks.len()
    &&& taken.dtype_spec() == filter_take_dtype(array.slot(0), nullability)
    &&& taken.id_spec() == filter_take_id(array.slot(0))
    &&& without_stats(taken)
}

/// The outcome of a take of `ranks` from a filtered array.
pub open spec fn takes_filtered(
    array: ArrayRef,
    ranks: Seq<Option<int>>,
    nullability: Nullability,
    r: VortexResult<ArrayRef>,
) -> bool {
    match first_rank_error(ranks, array.len_spec()) {
        Some(e) => r == Err::<ArrayRef, VortexError>(e),
        None => r is Ok && is_filter_take(array, ranks, nullability, r->Ok_0),
    }
}

/// What the parts of a filtered array have to do with each other.
pub proof fn lemma_filter_parts(array: &ArrayRef)
    requires
        array.wf(),
        array.id_spec() == ArrayId::Filter,
    ensures
        array.slot(0).wf(),
        array.slot(0).rows().len() == array.slot(0).len_spec(),
        array.filter_mask_spec().wf(),
        array.filter_mask_spec()@.len() == array.slot(0).len_spec(),
        array.len_spec() == count_true(array.filter_mask_spec()@),
        array.dtype_spec() == array.slot(0).dtype_spec(),
{
    let child = array.slot(0);
    ArrayRef::lemma_rows(&child);
}

/// The row that a rank into filtered rows selects is the child's row at its position.
proof fn lemma_filtered_row(array: ArrayRef, k: int)
    requires
        array.wf(),
        array.id_spec() == ArrayId::Filter,
        0 <= k < array.len_spec(),
    ensures
        array.rows()[k] == array.slot(0).rows()[true_positions(array.filter_mask_spec()@)[k]],
        0 <= true_positions(array.filter_mask_spec()@)[k] < array.slot(0).rows().len(),
{
    let child = array.slot(0);
    ArrayRef::lemma_rows(&child);
    lemma_positions_sound(array.filter_mask_spec()@);
    assert(array.rows() == select(child.rows(), array.filter_mask_spec()@));
}

/// Takes straight from the buffer of a primitive child without nulls; `None` for other children.
fn take_primitive_fast_path(
    array: ArrayView<'_, Filter>,
    indices: &PrimitiveArray,
    indices_validity: &Mask,
) -> (r: VortexResult<Option<ArrayRef>>)
    requires
        array.wf(),
        array.array_spec().wf(),
        array.array_spec().len_spec() > 0,
        indices.wf(),
        indices.buffer.ptype_spec().is_int_spec(),
        indices_validity.wf(),
        indices_validity@ == indices.validity.bits(indices.buffer.pvalues().len()),
        indices.validity is NonNullable ==> indices_validity is AllTrue,
    ensures
        if array.array_spec().slot(0).id_spec() == ArrayId::Primitive && has_plain_values(
            array.array_spec().slot(0),
        ) {
            match first_rank_error(row_indices(indices.rows()), array.array_spec().len_spec()) {
                Some(e) => r == Err::<Option<ArrayRef>, VortexError>(e),
                None => {
                    &&& r matches Ok(Some(taken))
                    &&& is_filter_take(
                        array.array_spec(),
                        row_indices(indices.rows()),
                        indices.validity.nullability_spec(),
                        taken,
                    )
                },
            }
        } else {
            r == Ok::<Option<ArrayRef>, VortexError>(None)
        },
{
    let ghost parent = array.array_spec();
    let ghost ranks = row_indices(indices.rows());
    proof {
        array.lemma_view_data();
        lemma_row_ranks(*indices);
        lemma_filter_parts(&parent);
    }
    let child = match &array.child().inner.data {
        ArrayData::Primitive(child) => child,
        _ => return Ok(None),
    };
    if !child.validity.no_nulls() {
        return Ok(None);
    }
    let output_validity = Validity::from_mask(
        indices_validity.clone(),
        indices.validity.nullability(),
    );
    let filter = array.filter_mask();
    let filtered_len: usize = array.len();
    let taken = match child.buffer.ptype() {
        PType::U8 => take_primitive_fast_path_by_index::<u8>(
            child,
            filter,
            filtered_len,
            indices,
            indices_validity,
            output_validity,
        ),
        PType::U16 => take_primitive_fast_path_by_index::<u16>(
            child,
            filter,
            filtered_len,
            indices,
            indices_validity,
            output_validity,
        ),
        PType::U32 => take_primitive_fast_path_by_index::<u32>(
            child,
            filter,
            filtered_len,
            indices,
            indices_validity,
            output_validity,
        ),
        PType::U64 => take_primitive_fast_path_by_index::<u64>(
            child,
            filter,
            filtered_len,
            indices,
            indices_validity,
            output_validity,
        ),
        PType::I8 => take_primitive_fast_path_by_index::<i8>(
            child,
            filter,
            filtered_len,
            indices,
            indices_validity,
            output_validity,
        ),
        PType::I16 => take_primitive_fast_path_by_index::<i16>(
            child,
            filter,
            filtered_len,
            indices,
            indices_validity,
            output_validity,
        ),
        PType::I32 => take_primitive_fast_path_by_index::<i32>(
            child,
            filter,
            filtered_len,
            indices,
            indices_validity,
            output_validity,
        ),
        PType::I64 => take_primitive_fast_path_by_index::<i64>(
            child,
            filter,
            filtered_len,
            indices,
            indices_validity,
            output_validity,
        ),
        PType::F16 => take_primitive_fast_path_by_index::<F16>(
            child,
            filter,
            filtered_len,
            indices,
            indices_validity,
            output_validity,
        ),
        PType::F32 => take_primitive_fast_path_by_index::<F32>(
            child,
            filter,
            filtered_len,
            indices,
            indices_validity,
            output_validity,
        ),
        PType::F64 => take_primitive_fast_path_by_index::<F64>(
            child,
            filter,
            filtered_len,
            indices,
            indices_validity,
            output_validity,
        ),
    };
    match taken {
        Ok(taken) => {
            proof {
                lemma_no_error_in_bounds(ranks, filtered_len);
                let n = ranks.len();
                assert(output_validity.bits(n) == indices_validity@);
                assert forall|i: int| 0 <= i < n implies #[trigger] taken.rows()[i] == taken_rows(
                    ranks,
                    parent.rows(),
                )[i] by {
                    assert(output_validity.bits(n)[i] == indices_validity@[i]);
                    assert(taken_rows(ranks, parent.rows())[i] == taken_row(
                        ranks[i],
                        parent.rows(),
                    ));
                    if let Some(k) = ranks[i] {
                        lemma_filtered_row(parent, k);
                        let position = true_positions(filter@)[k];
                        assert(parent.slot(0).rows()[position] == primitive_row(
                            child.buffer.pvalues()[position],
                            true,
                        ));
                    }
                }
                assert(taken.rows() =~= taken_rows(ranks, parent.rows()));
            }
            Ok(Some(taken))
        },
        Err(e) => Err(e),
    }
}

/// Takes straight from the buffer of a decimal child without nulls; `None` for other children.
fn take_decimal_fast_path(
    array: ArrayView<'_, Filter>,
    indices: &PrimitiveArray,
    indices_validity: &Mask,
) -> (r: VortexResult<Option<ArrayRef>>)
    requires
        array.wf(),
        array.array_spec().wf(),
        array.array_spec().len_spec() > 0,
        indices.wf(),
        indices.buffer.ptype_spec().is_int_spec(),
        indices_validity.wf(),
        indices_validity@ == indices.validity.bits(indices.buffer.pvalues().len()),
        indices.validity is NonNullable ==> indices_validity is AllTrue,
    ensures
        if array.array_spec().slot(0).id_spec() == ArrayId::Decimal && has_plain_values(
            array.array_spec().slot(0),
        ) {
            match first_rank_error(row_indices(indices.rows()), array.array_spec().len_spec()) {
                Some(e) => r == Err::<Option<ArrayRef>, VortexError>(e),
                None => {
                    &&& r matches Ok(Some(taken))
                    &&& is_filter_take(
                        array.array_spec(),
                        row_indices(indices.rows()),
                        indices.validity.nullability_spec(),
                        taken,
                    )
                },
            }
        } else {
            r == Ok::<Option<ArrayRef>, VortexError>(None)
        },
{
    let ghost parent = array.array_spec();
    let ghost ranks = row_indices(indices.rows());
    proof {
        array.lemma_view_data();
        lemma_row_ranks(*indices);
        lemma_filter_parts(&parent);
    }
    let child = match &array.child().inner.data {
        ArrayData::Decimal(child) => child,
        _ => return Ok(None),
    };
    if !child.validity.no_nulls() {
        return Ok(None);
    }
    let output_validity = Validity::from_mask(
        indices_validity.clone(),
        indices.validity.nullability(),
    );
    let filter = array.filter_mask();
    let filtered_len: usize = array.len();
    let taken = match child.buffer.values_type() {
        DecimalType::I8 => take_decimal_fast_path_by_index::<i8>(
            child,
            filter,
            filtered_len,
            indices,
            indices_validity,
            output_validity,
        ),
        DecimalType::I16 => take_decimal_fast_path_by_index::<i16>(
            child,
            filter,
            filtered_len,
            indices,
            indices_validity,
            output_validity,
        ),
        DecimalType::I32 => take_decimal_fast_path_by_index::<i32>(
            child,
            filter,
            filtered_len,
            indices,
            indices_validity,
            output_validity,
        ),
        DecimalType::I64 => take_decimal_fast_path_by_index::<i64>(
            child,
            filter,
            filtered_len,
            indices,
            indices_validity,
            output_validity,
        ),
        DecimalType::I128 => take_decimal_fast_path_by_index::<i128>(
            child,
            filter,
            filtered_len,
            indices,
            indices_validity,
            output_validity,
        ),
        DecimalType::I256 => take_decimal_fast_path_by_index::<I256>(
            child,
            filter,
            filtered_len,
            indices,
            indices_validity,
            output_validity,
        ),
    };
    match taken {
        Ok(taken) => {
            proof {
                lemma_no_error_in_bounds(ranks, filtered_len);
                let n = ranks.len();
                assert(output_validity.bits(n) == indices_validity@);
                assert forall|i: int| 0 <= i < n implies #[trigger] taken.rows()[i] == taken_rows(
                    ranks,
                    parent.rows(),
                )[i] by {
                    assert(output_validity.bits(n)[i] == indices_validity@[i]);
                    assert(taken_rows(ranks, parent.rows())[i] == taken_row(
                        ranks[i],
                        parent.rows(),
                    ));
                    if let Some(k) = ranks[i] {
                        lemma_filtered_row(parent, k);
                        let position = true_positions(filter@)[k];
                        assert(parent.slot(0).rows()[position] == decimal_row(
                            child.buffer.decimals()[position],
                            true,
                        ));
                    }
                }
                assert(taken.rows() =~= taken_rows(ranks, parent.rows()));
            }
            Ok(Some(taken))
        },
        Err(e) => Err(e),
    }
}

/// Translated codes select from the child what the ranks select from the filtered rows.
proof fn lemma_translated_codes(
    array: ArrayRef,
    indices: PrimitiveArray,
    codes: PrimitiveArray,
    positions: Seq<u64>,
    bits: Seq<bool>,
)
    requires
        array.wf(),
        array.id_spec() == ArrayId::Filter,
        indices.buffer.ptype_spec().is_int_spec(),
        bits == indices.validity.bits(indices.buffer.pvalues().len()),
        first_rank_error(row_indices(indices.rows()), array.len_spec()) is None,
        u64_ints(positions) == translated(
            row_indices(indices.rows()),
            true_positions(array.filter_mask_spec()@),
        ),
        codes.buffer.pvalues() == pvalues_of(positions),
        codes.validity.bits(bits.len()) == bits,
    ensures
        taken_rows(row_indices(codes.rows()), array.slot(0).rows()) == taken_rows(
            row_indices(indices.rows()),
            array.rows(),
        ),
        in_bounds(row_indices(codes.rows()), array.slot(0).rows().len()),
{
    let ranks = row_indices(indices.rows());
    let child = array.slot(0);
    let targets = true_positions(array.filter_mask_spec()@);
    let new_codes = row_indices(codes.rows());
    lemma_row_ranks(indices);
    lemma_no_error_in_bounds(ranks, array.len_spec());
    assert(u64_ints(positions).len() == ranks.len());
    assert forall|i: int| 0 <= i < ranks.len() implies taken_row(
        #[trigger] new_codes[i],
        child.rows(),
    ) == taken_row(ranks[i], array.rows()) && (new_codes[i] matches Some(k) ==> 0 <= k
        < child.rows().len()) by {
        assert(new_codes[i] == row_index(codes.rows()[i]));
        assert(codes.validity.bits(bits.len())[i] == bits[i]);
        assert(u64_ints(positions)[i] == position_of(ranks[i], targets));
        if let Some(k) = ranks[i] {
            lemma_filtered_row(array, k);
        }
    }
    assert(taken_rows(new_codes, child.rows()) =~= taken_rows(ranks, array.rows()));
}

/// Takes the rows at the given ranks from a filtered array.
///
/// The values of a child without nulls are gathered straight from its buffer. Otherwise the ranks
/// are translated and the take from the child is left for later.
fn take_impl(array: ArrayView<'_, Filter>, indices: &PrimitiveArray) -> (r: VortexResult<ArrayRef>)
    requires
        array.wf(),
        array.array_spec().wf(),
        array.array_spec().len_spec() > 0,
        indices.wf(),
        indices.buffer.ptype_spec().is_int_spec(),
    ensures
        takes_filtered(
            array.array_spec(),
            row_indices(indices.rows()),
            indices.validity.nullability_spec(),
            r,
        ),
{
    let ghost parent = array.array_spec();
    let ghost ranks = row_indices(indices.rows());
    let indices_validity = indices.validity.execute_mask(indices.len());
    match take_primitive_fast_path(array, indices, &indices_validity) {
        Ok(Some(taken)) => return Ok(taken),
        Ok(None) => {},
        Err(e) => return Err(e),
    }
    match take_decimal_fast_path(array, indices, &indices_validity) {
        Ok(Some(taken)) => return Ok(taken),
        Ok(None) => {},
        Err(e) => return Err(e),
    }
    proof {
        array.lemma_view_data();
        lemma_row_ranks(*indices);
        lemma_filter_parts(&parent);
    }
    let filter = array.filter_mask();
    let translation = if indices_validity.all_true() {
        proof {
            lemma_count_full(indices_validity@);
            lemma_unmasked_ranks(indices.buffer.pvalues(), indices_validity@);
        }
        translate_indices_fast(filter, indices, array.len())
    } else {
        translate_nullable_indices_fast(filter, indices, &indices_validity, array.len())
    };
    let positions = match translation {
        Ok(positions) => positions,
        Err(e) => return Err(e),
    };
    let ghost bits = indices_validity@;
    proof {
        assert(u64_ints(positions@).len() == positions@.len());
    }
    let codes = PrimitiveArray::new(
        positions,
        Validity::from_mask(indices_validity, indices.validity.nullability()),
    );
    proof {
        lemma_translated_codes(parent, *indices, codes, positions@, bits);
    }
    array.child().take(codes.into_array())
}

/// From this many indices on, a take of nullable fixed-width rows can be better done the general
/// way.
pub const NULLABLE_FIXED_WIDTH_FULL_TAKE_FALLBACK_LEN: usize = 4096;

/// Whether a take is better done by filtering first: a large take of at least all filtered rows,
/// with nullable indices, from a fixed-width child that may have nulls.
pub open spec fn falls_back(array: ArrayRef, indices: ArrayRef) -> bool {
    &&& indices.len_spec() >= NULLABLE_FIXED_WIDTH_FULL_TAKE_FALLBACK_LEN
    &&& indices.len_spec() >= array.len_spec()
    &&& indices.dtype_spec().nullability_spec() is Nullable
    &&& array.slot(0).dtype_spec() is Decimal || array.slot(0).dtype_spec() is Primitive
    &&& !array.slot(0).no_nulls_spec()
}

/// Whether a take is better done by filtering first.
fn should_fallback_nullable_fixed_width_full_take(
    array: ArrayView<'_, Filter>,
    indices: &ArrayRef,
) -> (b: bool)
    requires
        array.wf(),
        array.array_spec().wf(),
    ensures
        b == falls_back(array.array_spec(), *indices),
{
    proof {
        array.lemma_view_data();
        lemma_filter_parts(&array.array_spec());
    }
    if indices.len() < NULLABLE_FIXED_WIDTH_FULL_TAKE_FALLBACK_LEN || indices.len() < array.len()
        || !indices.dtype().is_nullable() {
        return false;
    }
    if array.child().dtype().is_decimal() || array.child().dtype().is_primitive() {
        return !array.child().no_nulls();
    }
    false
}

/// The outcome of a take from a filtered array by an array of ranks.
pub open spec fn filter_take_outcome(array: ArrayRef, indices: ArrayRef, r: Reduced) -> bool {
    let ranks = row_indices(indices.rows());
    if array.slot(0).dtype_spec() is Bool {
        r == declined()
    } else if !(indices.dtype_spec() is Primitive) {
        r == Err::<Option<ArrayRef>, VortexError>(VortexError::InvalidIndicesDType)
    } else if falls_back(array, indices) {
        r == declined()
    } else if has_negative(ranks) {
        r == Err::<Option<ArrayRef>, VortexError>(VortexError::CastOutOfRange)
    } else {
        match first_rank_error(ranks, array.len_spec()) {
            Some(e) => r == Err::<Option<ArrayRef>, VortexError>(e),
            None => {
                &&& r matches Ok(Some(taken))
                &&& is_filter_take(array, ranks, indices.dtype_spec().nullability_spec(), taken)
            },
        }
    }
}

/// When a take from a filtered array is done, left to the general way or refused:
///
/// - Takes of booleans are left to the general way. So are takes by at least 4096 nullable indices
///   that are no fewer than the filtered rows, from fixed-width rows that may be null.
/// - Otherwise indices that are not primitive are refused, then negative ones, then those that are
///   not below the number of filtered rows.
/// - All other takes are done.
pub proof fn lemma_filter_take_decides(array: &ArrayRef, indices: &ArrayRef, r: Reduced)
    requires
        array.wf(),
        array.id_spec() == ArrayId::Filter,
        filter_take_outcome(*array, *indices, r),
    ensures
        ({
            let child = array.slot(0);
            let ranks = row_indices(indices.rows());
            let general = indices.len_spec() >= 4096 && indices.len_spec() >= array.len_spec()
                && indices.dtype_spec().nullability_spec() is Nullable && (
            child.dtype_spec() is Primitive || child.dtype_spec() is Decimal)
                && !child.no_nulls_spec();
            let negative = exists|i: int|
                0 <= i < ranks.len() && (#[trigger] ranks[i]) is Some && ranks[i]->0 < 0;
            let beyond = exists|i: int|
                0 <= i < ranks.len() && (#[trigger] ranks[i]) is Some && ranks[i]->0
                    >= array.len_spec();
            if child.dtype_spec() is Bool {
                r == Ok::<Option<ArrayRef>, VortexError>(None)
            } else if !(indices.dtype_spec() is Primitive) {
                r == Err::<Option<ArrayRef>, VortexError>(VortexError::InvalidIndicesDType)
            } else if general {
                r == Ok::<Option<ArrayRef>, VortexError>(None)
            } else if negative {
                r == Err::<Option<ArrayRef>, VortexError>(VortexError::CastOutOfRange)
            } else if beyond {
                r matches Err(VortexError::OutOfBounds { index, start, stop }) && start == 0 && stop
                    == array.len_spec() && (index == 0 || index >= array.len_spec())
            } else {
                r matches Ok(Some(_))
            }
        }),
{
    let ranks = row_indices(indices.rows());
    let n = array.len_spec();
    if first_rank_error(ranks, n) is None {
        lemma_no_error_in_bounds(ranks, n);
    } else {
        lemma_error_has_rank(ranks, n);
    }
}

/// The index that the error of a take names is that of the first code that is not below the number
/// of filtered rows.
pub proof fn lemma_filter_take_error(array: &ArrayRef, indices: &ArrayRef, r: Reduced, k: int)
    requires
        filter_take_outcome(*array, *indices, r),
        r is Err,
        indices.dtype_spec() is Primitive,
        0 <= k < indices.rows().len(),
        row_indices(indices.rows())[k] is Some,
        array.len_spec() <= row_indices(indices.rows())[k]->0 <= usize::MAX,
        forall|j: int|
            0 <= j < indices.rows().len() && (#[trigger] row_indices(indices.rows())[j]) is Some
                ==> row_indices(indices.rows())[j]->0 >= 0,
        forall|j: int|
            0 <= j < k && (#[trigger] row_indices(indices.rows())[j]) is Some ==> row_indices(
                indices.rows(),
            )[j]->0 < array.len_spec(),
    ensures
        r == Err::<Option<ArrayRef>, VortexError>(
            VortexError::OutOfBounds {
                index: row_indices(indices.rows())[k]->0 as usize,
                start: 0,
                stop: array.len_spec(),
            },
        ),
{
    lemma_first_bad_rank(row_indices(indices.rows()), array.len_spec(), k);
}

/// An error of ranks comes from a rank that is not in bounds.
proof fn lemma_error_has_rank(ranks: Seq<Option<int>>, n: usize)
    requires
        first_rank_error(ranks, n) is Some,
    ensures
        exists|k: int|
            0 <= k < ranks.len() && (#[trigger] ranks[k]) is Some && !(0 <= ranks[k]->0 < n),
        first_rank_error(ranks, n) matches Some(VortexError::OutOfBounds { index, start, stop })
            && start == 0 && stop == n && (index == 0 || index >= n),
    decreases ranks.len(),
{
    let front = ranks.drop_last();
    if first_rank_error(front, n) is Some {
        lemma_error_has_rank(front, n);
        let k = choose|k: int|
            0 <= k < front.len() && (#[trigger] front[k]) is Some && !(0 <= front[k]->0 < n);
        assert(ranks[k] == front[k]);
    } else {
        assert(ranks[ranks.len() - 1] == ranks.last());
    }
}

/// What a take from a filtered array gives: for each index the filtered row at it, null for a null
/// index. The type is that of the filtered rows. It is nullable if the indices are, and if the rows
/// are and their values are not simply copied.
pub proof fn lemma_filter_taken(array: &ArrayRef, indices: &ArrayRef, taken: &ArrayRef, i: int)
    requires
        array.wf(),
        array.id_spec() == ArrayId::Filter,
        indices.wf(),
        indices.dtype_spec() is Primitive,
        filter_take_outcome(*array, *indices, Ok(Some(*taken))),
        0 <= i < indices.len_spec(),
    ensures
        taken.wf(),
        taken.rows().len() == indices.len_spec(),
        indices.rows()[i] is None ==> taken.rows()[i] is None,
        indices.rows()[i] matches Some(ScalarValue::Primitive(p)) ==> (p.as_int() matches Some(k)
            ==> 0 <= k < array.len_spec() && taken.rows()[i] == array.rows()[k]),
        taken.dtype_spec().with_nullability_spec(array.dtype_spec().nullability_spec())
            == array.dtype_spec(),
        indices.dtype_spec().nullability_spec() is Nullable
            ==> taken.dtype_spec().nullability_spec() is Nullable,
        ({
            let copied = match array.slot(0).inner.data {
                ArrayData::Primitive(a) => a.validity is NonNullable || a.validity is AllValid,
                ArrayData::Decimal(a) => a.validity is NonNullable || a.validity is AllValid,
                _ => false,
            };
            &&& copied ==> taken.id_spec() == array.slot(0).id_spec()
            &&& !copied ==> taken.id_spec() == ArrayId::Dict
            &&& taken.dtype_spec().nullability_spec() is Nullable
                <==> indices.dtype_spec().nullability_spec() is Nullable || (!copied
                && array.dtype_spec().nullability_spec() is Nullable)
        }),
        without_stats(*taken),
{
    let ranks = row_indices(indices.rows());
    ArrayRef::lemma_rows(indices);
    ArrayRef::lemma_rows(taken);
    lemma_filter_parts(array);
    lemma_no_error_in_bounds(ranks, array.len_spec());
    assert(ranks[i] == row_index(indices.rows()[i]));
    assert(taken.rows()[i] == taken_row(ranks[i], array.rows()));
}

/// Unsigned integers are not negative.
proof fn lemma_unsigned_not_negative(indices: PrimitiveArray)
    requires
        indices.buffer.ptype_spec().is_unsigned_int_spec(),
    ensures
        !has_negative(row_indices(indices.rows())),
{
    indices.buffer.lemma_ptypes();
    let ranks = row_indices(indices.rows());
    assert forall|i: int| 0 <= i < ranks.len() && (#[trigger] ranks[i]) is Some implies ranks[i]->0
        >= 0 by {
        assert(ranks[i] == row_index(indices.rows()[i]));
    }
}

impl TakeExecute for Filter {
    open spec fn executes(array: ArrayRef, indices: ArrayRef, r: Reduced) -> bool {
        filter_take_outcome(array, indices, r)
    }

    /// Takes from the unfiltered child.
    ///
    /// Filtering booleans is cheap, so takes from them are left to the general way.
    fn take(array: ArrayView<'_, Filter>, indices: &ArrayRef, ctx: &mut ExecutionCtx) -> (r: Reduced)
        ensures
            *final(ctx) == *old(ctx),
    {
        if array.child().dtype().is_boolean() {
            return Ok(None);
        }
        let ptype = match indices.dtype() {
            DType::Primitive(ptype, _) => *ptype,
            _ => return Err(VortexError::InvalidIndicesDType),
        };
        if should_fallback_nullable_fixed_width_full_take(array, indices) {
            return Ok(None);
        }
        let executed = indices.execute_primitive();
        let unsigned_indices = if ptype.is_unsigned_int() {
            proof {
                lemma_unsigned_not_negative(executed);
            }
            executed
        } else {
            match executed.cast_to_unsigned() {
                Ok(cast) => cast,
                Err(e) => return Err(e),
            }
        };
        match take_impl(array, &unsigned_indices) {
            Ok(taken) => Ok(Some(taken)),
            Err(e) => Err(e),
        }
    }
}

} // verus!
