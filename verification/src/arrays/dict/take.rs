//! Taking rows of an array by an array of indices.
//!
//! A dictionary stands for a take of its values by its codes. An encoding that can take rows
//! without reading them implements [`TakeReduce`]; one that has to read them implements
//! [`TakeExecute`]. The adaptors turn both into rewrites of a dictionary parent.

use vstd::prelude::*;

use crate::array::construct::{canonical_id, empty_array, is_index_dtype, without_stats};
use crate::array::parent::ParentRef;
use crate::array::vtable::{ArrayView, Dict, VTable};
use crate::array::{
    in_bounds, row_index, row_indices, taken_row, taken_rows, ArrayData, ArrayId, ArrayRef, ConstantArray,
};
use crate::dtype::{DType, Nullability};
use crate::error::{VortexError, VortexResult};
use crate::kernel::ExecuteParentKernel;
use crate::matcher::Matcher;
use crate::optimizer::kernels::ExecutionCtx;
use crate::optimizer::rules::{declined, ArrayParentReduceRule, Reduced};
use crate::order::scalar_at_most_spec;
use crate::scalar::{row_fits, Row, ScalarValue};
use crate::stats::{combined_stat, inexact, respects_bound, Precision, Stat};

verus! {

/// Index values can be read as integers, if they are primitive at all.
pub open spec fn indices_readable(dtype: DType) -> bool {
    dtype matches DType::Primitive(ptype, _) ==> ptype.is_int_spec()
}

/// Taking rows of an array by looking at its structure alone.
pub trait TakeReduce: VTable {
    /// Which outcomes taking the rows at `indices` may have.
    spec fn reduces(array: ArrayRef, indices: ArrayRef, r: Reduced) -> bool;

    /// Takes the rows at `indices`; `None` if that requires reading rows.
    ///
    /// Neither the array nor the indices are empty.
    fn take(array: ArrayView<'_, Self>, indices: &ArrayRef) -> (r: Reduced)
        requires
            array.wf(),
            array.array_spec().wf(),
            array.array_spec().len_spec() > 0,
            indices.wf(),
            indices.len_spec() > 0,
        ensures
            Self::reduces(array.array_spec(), *indices, r),
            r matches Ok(Some(taken)) ==> taken.wf(),
    ;
}

/// Taking rows of an array, reading them where necessary.
pub trait TakeExecute: VTable {
    /// Which outcomes taking the rows at `indices` may have.
    spec fn executes(array: ArrayRef, indices: ArrayRef, r: Reduced) -> bool;

    /// Takes the rows at `indices`; `None` if there is no faster way than the general one.
    ///
    /// Neither the array nor the indices are empty.
    fn take(array: ArrayView<'_, Self>, indices: &ArrayRef, ctx: &mut ExecutionCtx) -> (r: Reduced)
        requires
            array.wf(),
            array.array_spec().wf(),
            array.array_spec().len_spec() > 0,
            indices.wf(),
            indices.len_spec() > 0,
            indices_readable(indices.dtype_spec()),
        ensures
            Self::executes(array.array_spec(), *indices, r),
            r matches Ok(Some(taken)) ==> taken.wf(),
    ;
}

/// The take that needs no encoding: of no rows, or from no rows.
///
/// Without rows to take from, every index has to be null.
pub open spec fn trivial_take(array: ArrayRef, indices: ArrayRef, taken: ArrayRef) -> bool {
    &&& taken.wf()
    &&& without_stats(taken)
    &&& taken.len_spec() == indices.len_spec()
    &&& if indices.len_spec() == 0 {
        &&& taken.rows() == Seq::<Row>::empty()
        &&& taken.id_spec() == canonical_id(array.dtype_spec())
        &&& taken.dtype_spec() == array.dtype_spec().union_nullability_spec(
            indices.dtype_spec().nullability_spec(),
        )
    } else {
        &&& taken.inner.data == ArrayData::Constant(ConstantArray { scalar: None })
        &&& taken.dtype_spec() == array.dtype_spec().with_nullability_spec(Nullability::Nullable)
    }
}

/// The part of a take that is the same for all encodings: `None` if there are rows on both sides.
fn precondition<V: VTable>(array: ArrayView<'_, V>, indices: &ArrayRef) -> (r: Option<ArrayRef>)
    ensures
        r is Some <==> indices.len_spec() == 0 || array.array_spec().len_spec() == 0,
        r matches Some(taken) ==> trivial_take(array.array_spec(), *indices, taken),
{
    if indices.is_empty() {
        let dtype = array.dtype().union_nullability(indices.dtype().nullability());
        return Some(empty_array(&dtype));
    }
    if array.is_empty() {
        return Some(
            ConstantArray { scalar: None }.into_array(array.dtype().as_nullable(), indices.len()),
        );
    }
    None
}

/// The statistic that all rows are the same.
pub open spec fn exactly_true() -> Option<Precision<ScalarValue>> {
    Some(Precision::Exact(ScalarValue::Bool(true)))
}

/// What is known of a statistic of taken rows, given what is known of it for the rows that they
/// were taken from.
pub open spec fn taken_stat(
    source: ArrayRef,
    target: ArrayRef,
    indices: ArrayRef,
    stat: Stat,
) -> VortexResult<Option<Precision<ScalarValue>>> {
    match stat {
        Stat::IsConstant => if indices.no_nulls_spec() && source.stats.get_spec(Stat::IsConstant)
            == exactly_true() {
            Ok(exactly_true())
        } else {
            Ok(target.stats.get_spec(stat))
        },
        Stat::Min => combined_stat(
            target.stats.get_spec(stat),
            inexact(source.stats.get_spec(stat)),
            false,
        ),
        Stat::Max => combined_stat(
            target.stats.get_spec(stat),
            inexact(source.stats.get_spec(stat)),
            true,
        ),
        _ => Ok(target.stats.get_spec(stat)),
    }
}

/// The outcome of handing statistics on to taken rows.
pub open spec fn propagates(
    source: ArrayRef,
    target: ArrayRef,
    indices: ArrayRef,
    r: VortexResult<ArrayRef>,
) -> bool {
    &&& r is Err <==> taken_stat(source, target, indices, Stat::Min) is Err || taken_stat(
        source,
        target,
        indices,
        Stat::Max,
    ) is Err
    &&& r matches Err(e) ==> e == VortexError::StatBoundsDisjoint
    &&& r matches Ok(array) ==> {
        &&& array.inner == target.inner
        &&& forall|s: Stat|
            #[trigger] array.stats.get_spec(s) == taken_stat(source, target, indices, s)->Ok_0
    }
}

/// Hands statistics of the rows that were taken from on to the taken rows.
///
/// Rows taken from a constant array by indices without nulls are constant too. The minimum and
/// maximum still bound the taken rows, but need not be among them.
pub(crate) fn propagate_take_stats(source: &ArrayRef, target: ArrayRef, indices: &ArrayRef) -> (r:
    VortexResult<ArrayRef>)
    requires
        indices.wf(),
    ensures
        propagates(*source, target, *indices, r),
{
    let mut stats = target.stats.copy();
    if indices.no_nulls() {
        let is_constant = match source.stats.get(Stat::IsConstant) {
            Some(Precision::Exact(ScalarValue::Bool(constant))) => constant,
            _ => false,
        };
        if is_constant {
            stats.set(Stat::IsConstant, Precision::Exact(ScalarValue::Bool(true)));
        }
    }
    let bounds = source.stats.inexact_bounds();
    match stats.combine_bounds(&bounds) {
        Ok(_) => Ok(ArrayRef { inner: target.inner, stats: std::sync::Arc::new(stats) }),
        Err(e) => Err(e),
    }
}

/// What an array says of its rows is true of them.
pub open spec fn stats_hold(array: ArrayRef) -> bool {
    &&& array.stats.get_spec(Stat::IsConstant) == exactly_true() ==> forall|i: int, j: int|
        0 <= i < array.rows().len() && 0 <= j < array.rows().len() ==> #[trigger] array.rows()[i]
            == #[trigger] array.rows()[j]
    &&& array.stats.get_spec(Stat::Min) matches Some(min) ==> bounds_rows(
        array.rows(),
        min.value_spec(),
        false,
    )
    &&& array.stats.get_spec(Stat::Max) matches Some(max) ==> bounds_rows(
        array.rows(),
        max.value_spec(),
        true,
    )
}

/// Every row that is not null respects the bound.
pub open spec fn bounds_rows(rows: Seq<Row>, bound: ScalarValue, upper: bool) -> bool {
    forall|i: int|
        0 <= i < rows.len() && (#[trigger] rows[i]) is Some ==> respects_bound(
            rows[i]->0,
            bound,
            upper,
        ) == Some(true)
}

/// Statistics that hold of an array and of rows taken from it still hold of the taken rows after
/// those of the array have been handed on to them.
pub proof fn lemma_propagated_stats_hold(
    source: &ArrayRef,
    target: &ArrayRef,
    indices: &ArrayRef,
    out: &ArrayRef,
)
    requires
        indices.wf(),
        is_index_dtype(indices.dtype_spec()),
        in_bounds(row_indices(indices.rows()), source.rows().len()),
        target.rows() == taken_rows(row_indices(indices.rows()), source.rows()),
        stats_hold(*source),
        stats_hold(*target),
        propagates(*source, *target, *indices, Ok(*out)),
    ensures
        out.rows() == target.rows(),
        stats_hold(*out),
{
    let codes = row_indices(indices.rows());
    ArrayRef::lemma_rows(indices);
    assert(out.rows() == target.rows());
    assert forall|i: int| 0 <= i < target.rows().len() implies (#[trigger] target.rows()[i])
        == taken_row(codes[i], source.rows()) && (indices.no_nulls_spec() ==> codes[i] is Some) by {
        if indices.no_nulls_spec() {
            assert(indices.rows()[i] is Some);
            assert(row_fits(indices.rows()[i], indices.dtype_spec()));
        }
    }
    assert forall|bound: ScalarValue, upper: bool|
        bounds_rows(source.rows(), bound, upper) implies #[trigger] bounds_rows(
        target.rows(),
        bound,
        upper,
    ) by {
        assert forall|i: int|
            0 <= i < target.rows().len() && (#[trigger] target.rows()[i]) is Some implies respects_bound(
            target.rows()[i]->0,
            bound,
            upper,
        ) == Some(true) by {
            assert(target.rows()[i] == taken_row(codes[i], source.rows()));
            assert(source.rows()[codes[i]->0] is Some);
        }
    }
}

/// What handing statistics on does, statistic by statistic:
///
/// - If the rows were taken from a constant array and no index is null, they are known to be
///   constant; otherwise nothing is learned about that.
/// - A minimum or maximum of the rows that were taken from becomes a bound of the taken rows, if
///   nothing was known of it. It never becomes known as attained.
/// - A minimum or maximum that is known as attained stays known as attained.
/// - All other statistics stay as they were, and so do the rows.
pub proof fn lemma_propagated_stats(
    source: &ArrayRef,
    target: &ArrayRef,
    indices: &ArrayRef,
    out: &ArrayRef,
    stat: Stat,
)
    requires
        propagates(*source, *target, *indices, Ok(*out)),
    ensures
        out.inner == target.inner,
        stat != Stat::IsConstant && stat != Stat::Min && stat != Stat::Max ==> out.stats.get_spec(
            stat,
        ) == target.stats.get_spec(stat),
        indices.no_nulls_spec() && source.stats.get_spec(Stat::IsConstant) == Some(
            Precision::Exact(ScalarValue::Bool(true)),
        ) ==> out.stats.get_spec(Stat::IsConstant) == Some(
            Precision::Exact(ScalarValue::Bool(true)),
        ),
        !(indices.no_nulls_spec() && source.stats.get_spec(Stat::IsConstant) == Some(
            Precision::Exact(ScalarValue::Bool(true)),
        )) ==> out.stats.get_spec(Stat::IsConstant) == target.stats.get_spec(Stat::IsConstant),
        stat == Stat::Min || stat == Stat::Max ==> match (
            source.stats.get_spec(stat),
            target.stats.get_spec(stat),
        ) {
            (None, known) => out.stats.get_spec(stat) == known,
            (Some(bound), None) => out.stats.get_spec(stat) == Some(
                Precision::Inexact(bound.value_spec()),
            ),
            (Some(bound), Some(Precision::Exact(v))) => {
                &&& out.stats.get_spec(stat) == Some(Precision::Exact(v))
                &&& stat == Stat::Max ==> scalar_at_most_spec(v, bound.value_spec()) == Some(true)
                &&& stat == Stat::Min ==> scalar_at_most_spec(bound.value_spec(), v) == Some(true)
            },
            (Some(bound), Some(Precision::Inexact(v))) => {
                &&& out.stats.get_spec(stat) == Some(Precision::Inexact(v))
                    || out.stats.get_spec(stat) == Some(Precision::Inexact(bound.value_spec()))
                &&& stat == Stat::Max ==> (out.stats.get_spec(stat) == Some(Precision::Inexact(v))
                    <== scalar_at_most_spec(v, bound.value_spec()) == Some(true))
                &&& stat == Stat::Min ==> (out.stats.get_spec(stat) == Some(Precision::Inexact(v))
                    <== scalar_at_most_spec(bound.value_spec(), v) == Some(true))
                &&& stat == Stat::Max && scalar_at_most_spec(v, bound.value_spec()) == Some(false)
                    ==> out.stats.get_spec(stat) == Some(Precision::Inexact(bound.value_spec()))
                &&& stat == Stat::Min && scalar_at_most_spec(bound.value_spec(), v) == Some(false)
                    ==> out.stats.get_spec(stat) == Some(Precision::Inexact(bound.value_spec()))
            },
        },
{
    assert(out.stats.get_spec(stat) == taken_stat(*source, *target, *indices, stat)->Ok_0);
    assert(out.stats.get_spec(Stat::IsConstant) == taken_stat(
        *source,
        *target,
        *indices,
        Stat::IsConstant,
    )->Ok_0);
    assert(taken_stat(*source, *target, *indices, Stat::Min) is Ok);
    assert(taken_stat(*source, *target, *indices, Stat::Max) is Ok);
}

/// Handing statistics on fails only if a minimum or maximum of the rows that were taken from
/// contradicts what is known of the taken rows. Rows of which nothing is known take on anything.
pub proof fn lemma_propagation_fails(
    source: &ArrayRef,
    target: &ArrayRef,
    indices: &ArrayRef,
    r: VortexResult<ArrayRef>,
)
    requires
        propagates(*source, *target, *indices, r),
    ensures
        r is Err ==> r == Err::<ArrayRef, VortexError>(VortexError::StatBoundsDisjoint),
        r is Err <==> contradicts(source, target, Stat::Min) || contradicts(
            source,
            target,
            Stat::Max,
        ),
{
}

/// What is known as attained lies beyond the bound, or what is known as a bound cannot be compared
/// with it.
pub open spec fn contradicts(source: &ArrayRef, target: &ArrayRef, stat: Stat) -> bool {
    match (source.stats.get_spec(stat), target.stats.get_spec(stat)) {
        (Some(bound), Some(Precision::Exact(v))) => if stat == Stat::Max {
            scalar_at_most_spec(v, bound.value_spec()) != Some(true)
        } else {
            scalar_at_most_spec(bound.value_spec(), v) != Some(true)
        },
        (Some(bound), Some(Precision::Inexact(v))) => if stat == Stat::Max {
            scalar_at_most_spec(v, bound.value_spec()) is None
        } else {
            scalar_at_most_spec(bound.value_spec(), v) is None
        },
        _ => false,
    }
}

/// What becomes of the outcome of an encoding's own take.
pub open spec fn finished_take(array: ArrayRef, indices: ArrayRef, taken: Reduced, r: Reduced) -> bool {
    match taken {
        Ok(Some(target)) => match r {
            Ok(Some(out)) => propagates(array, target, indices, Ok(out)),
            Ok(None) => false,
            Err(e) => propagates(array, target, indices, Err(e)),
        },
        other => r == other,
    }
}

/// The outcomes of a take by structure alone.
pub open spec fn take_reduce_outcome<V: TakeReduce>(
    array: ArrayRef,
    indices: ArrayRef,
    r: Reduced,
) -> bool {
    if indices.len_spec() == 0 || array.len_spec() == 0 {
        r matches Ok(Some(taken)) && trivial_take(array, indices, taken)
    } else {
        exists|taken: Reduced| #[trigger]
            V::reduces(array, indices, taken) && finished_take(array, indices, taken, r)
    }
}

/// The outcomes of a take that may read rows.
pub open spec fn take_execute_outcome<V: TakeExecute>(
    array: ArrayRef,
    indices: ArrayRef,
    r: Reduced,
) -> bool {
    if indices.len_spec() == 0 || array.len_spec() == 0 {
        r matches Ok(Some(taken)) && trivial_take(array, indices, taken)
    } else {
        exists|taken: Reduced| #[trigger]
            V::executes(array, indices, taken) && finished_take(array, indices, taken, r)
    }
}

/// Rows and well-formedness are a matter of the parts of an array, not of its statistics.
pub proof fn lemma_same_inner(left: &ArrayRef, right: &ArrayRef)
    requires
        left.inner == right.inner,
    ensures
        left.wf() == right.wf(),
        left.rows() == right.rows(),
{
}

/// Hands statistics on to what an encoding's own take gave.
fn finish_take(array: &ArrayRef, indices: &ArrayRef, taken: Reduced) -> (r: Reduced)
    requires
        indices.wf(),
        taken matches Ok(Some(target)) ==> target.wf(),
    ensures
        finished_take(*array, *indices, taken, r),
        r matches Ok(Some(out)) ==> out.wf(),
{
    match taken {
        Ok(Some(target)) => match propagate_take_stats(array, target, indices) {
            Ok(out) => {
                proof {
                    lemma_same_inner(&target, &out);
                }
                Ok(Some(out))
            },
            Err(e) => Err(e),
        },
        other => other,
    }
}

/// A take of no rows, or from no rows, gives the rows of the dictionary that it stands for.
pub proof fn lemma_trivial_take(parent: &ArrayRef, taken: &ArrayRef)
    requires
        parent.wf(),
        parent.id_spec() == ArrayId::Dict,
        parent.slot(0).len_spec() == 0 || parent.slot(1).len_spec() == 0,
        trivial_take(parent.slot(1), parent.slot(0), *taken),
    ensures
        taken.rows() == parent.rows(),
        taken.dtype_spec() == parent.dtype_spec(),
        taken.len_spec() == parent.len_spec(),
        taken.inner.slots@.len() == 0,
{
    let codes = parent.slot(0);
    let values = parent.slot(1);
    let indices = row_indices(codes.rows());
    ArrayRef::lemma_rows(&codes);
    ArrayRef::lemma_rows(&values);
    ArrayRef::lemma_rows(parent);
    if codes.len_spec() == 0 {
        assert(taken.rows() =~= parent.rows());
    } else {
        assert forall|i: int| 0 <= i < parent.rows().len() implies parent.rows()[i]
            == #[trigger] taken.rows()[i] by {
            assert(indices[i] is None);
        }
        assert(taken.rows() =~= parent.rows());
        assert(row_fits(codes.rows()[0], codes.dtype_spec()));
        assert(indices[0] == row_index(codes.rows()[0]));
    }
}

/// If an encoding's own take gives the rows that the indices select, so does the adaptor that
/// rewrites dictionaries with it.
pub proof fn lemma_take_reduce_rows<V: TakeReduce>(parent: &ArrayRef, r: Reduced)
    requires
        parent.wf(),
        parent.id_spec() == ArrayId::Dict,
        take_reduce_outcome::<V>(parent.slot(1), parent.slot(0), r),
        forall|taken: ArrayRef| #[trigger]
            V::reduces(parent.slot(1), parent.slot(0), Ok(Some(taken))) ==> taken.rows()
                == taken_rows(row_indices(parent.slot(0).rows()), parent.slot(1).rows()),
    ensures
        r matches Ok(Some(out)) ==> out.rows() == parent.rows(),
{
    let codes = parent.slot(0);
    let values = parent.slot(1);
    if let Ok(Some(out)) = r {
        if codes.len_spec() == 0 || values.len_spec() == 0 {
            lemma_trivial_take(parent, &out);
        } else {
            let taken = choose|taken: Reduced| #[trigger]
                V::reduces(values, codes, taken) && finished_take(values, codes, taken, r);
            if let Ok(Some(target)) = taken {
                assert(V::reduces(values, codes, Ok(Some(target))));
                lemma_same_inner(&target, &out);
            }
        }
    }
}

/// If an encoding's own take gives the rows that the indices select, so does the adaptor that
/// computes dictionaries with it.
pub proof fn lemma_take_execute_rows<V: TakeExecute>(parent: &ArrayRef, r: Reduced)
    requires
        parent.wf(),
        parent.id_spec() == ArrayId::Dict,
        take_execute_outcome::<V>(parent.slot(1), parent.slot(0), r),
        forall|taken: ArrayRef| #[trigger]
            V::executes(parent.slot(1), parent.slot(0), Ok(Some(taken))) ==> taken.rows()
                == taken_rows(row_indices(parent.slot(0).rows()), parent.slot(1).rows()),
    ensures
        r matches Ok(Some(out)) ==> out.rows() == parent.rows(),
{
    let codes = parent.slot(0);
    let values = parent.slot(1);
    if let Ok(Some(out)) = r {
        if codes.len_spec() == 0 || values.len_spec() == 0 {
            lemma_trivial_take(parent, &out);
        } else {
            let taken = choose|taken: Reduced| #[trigger]
                V::executes(values, codes, taken) && finished_take(values, codes, taken, r);
            if let Ok(Some(target)) = taken {
                assert(V::executes(values, codes, Ok(Some(target))));
                lemma_same_inner(&target, &out);
            }
        }
    }
}

/// A take by structure alone gives something if there is nothing to take, or nothing to take from,
/// or if the encoding's own take gives something whose statistics can be had. It gives the same
/// rows as that, and declines or fails only if the encoding's own take does, or if statistics
/// contradict each other.
pub proof fn lemma_take_reduce_follows<V: TakeReduce>(array: ArrayRef, indices: ArrayRef, r: Reduced)
    requires
        take_reduce_outcome::<V>(array, indices, r),
    ensures
        indices.len_spec() == 0 || array.len_spec() == 0 ==> (r matches Ok(Some(out))
            && out.rows().len() == indices.len_spec() && forall|i: int|
            0 <= i < out.rows().len() ==> (#[trigger] out.rows()[i]) is None),
        indices.len_spec() > 0 && array.len_spec() > 0 ==> match r {
            Ok(None) => V::reduces(array, indices, Ok(None)),
            Ok(Some(out)) => exists|target: ArrayRef| #[trigger]
                V::reduces(array, indices, Ok(Some(target))) && out.inner == target.inner
                    && propagates(array, target, indices, Ok(out)),
            Err(e) => V::reduces(array, indices, Err(e)) || (e == VortexError::StatBoundsDisjoint
                && exists|target: ArrayRef| #[trigger]
                V::reduces(array, indices, Ok(Some(target)))),
        },
{
    if indices.len_spec() == 0 || array.len_spec() == 0 {
        lemma_trivial_rows(array, indices, r->Ok_0->0);
    } else {
        let taken = choose|taken: Reduced| #[trigger]
            V::reduces(array, indices, taken) && finished_take(array, indices, taken, r);
        if let Ok(Some(target)) = taken {
            assert(V::reduces(array, indices, Ok(Some(target))));
        }
    }
}

/// A take that may read rows gives something if there is nothing to take, or nothing to take from,
/// or if the encoding's own take gives something whose statistics can be had. It gives the same
/// rows as that, and declines or fails only if the encoding's own take does, or if statistics
/// contradict each other.
pub proof fn lemma_take_execute_follows<V: TakeExecute>(
    array: ArrayRef,
    indices: ArrayRef,
    r: Reduced,
)
    requires
        take_execute_outcome::<V>(array, indices, r),
    ensures
        indices.len_spec() == 0 || array.len_spec() == 0 ==> (r matches Ok(Some(out))
            && out.rows().len() == indices.len_spec() && forall|i: int|
            0 <= i < out.rows().len() ==> (#[trigger] out.rows()[i]) is None),
        indices.len_spec() > 0 && array.len_spec() > 0 ==> match r {
            Ok(None) => V::executes(array, indices, Ok(None)),
            Ok(Some(out)) => exists|target: ArrayRef| #[trigger]
                V::executes(array, indices, Ok(Some(target))) && out.inner == target.inner
                    && propagates(array, target, indices, Ok(out)),
            Err(e) => V::executes(array, indices, Err(e)) || (e == VortexError::StatBoundsDisjoint
                && exists|target: ArrayRef| #[trigger]
                V::executes(array, indices, Ok(Some(target)))),
        },
{
    if indices.len_spec() == 0 || array.len_spec() == 0 {
        lemma_trivial_rows(array, indices, r->Ok_0->0);
    } else {
        let taken = choose|taken: Reduced| #[trigger]
            V::executes(array, indices, taken) && finished_take(array, indices, taken, r);
        if let Ok(Some(target)) = taken {
            assert(V::executes(array, indices, Ok(Some(target))));
        }
    }
}

/// A take of no rows gives an array without rows, and a take from no rows gives nulls only. The type
/// is that of the rows to take from, nullable as far as the indices are, and nullable in any case if
/// there is nothing to take from.
pub proof fn lemma_trivial_rows(array: ArrayRef, indices: ArrayRef, taken: ArrayRef)
    requires
        trivial_take(array, indices, taken),
    ensures
        taken.rows().len() == indices.len_spec(),
        forall|i: int| 0 <= i < taken.rows().len() ==> (#[trigger] taken.rows()[i]) is None,
        indices.len_spec() > 0 ==> taken.id_spec() == ArrayId::Constant,
        indices.len_spec() > 0 ==> taken.dtype_spec().nullability_spec() is Nullable,
        indices.len_spec() == 0 ==> (taken.dtype_spec().nullability_spec() is Nullable
            <==> array.dtype_spec().nullability_spec() is Nullable
            || indices.dtype_spec().nullability_spec() is Nullable),
        taken.dtype_spec().with_nullability_spec(array.dtype_spec().nullability_spec())
            == array.dtype_spec(),
        array.dtype_spec() is Bool && indices.len_spec() == 0 ==> taken.id_spec() == ArrayId::Bool,
        array.dtype_spec() is Primitive && indices.len_spec() == 0 ==> taken.id_spec()
            == ArrayId::Primitive,
        array.dtype_spec() is Decimal && indices.len_spec() == 0 ==> taken.id_spec()
            == ArrayId::Decimal,
        !(array.dtype_spec() is Bool || array.dtype_spec() is Primitive
            || array.dtype_spec() is Decimal) && indices.len_spec() == 0 ==> taken.id_spec()
            == ArrayId::Rows,
        forall|s: Stat| (#[trigger] taken.stats.get_spec(s)) is None,
{
    ArrayRef::lemma_rows(&taken);
}

/// The adaptor only rewrites a dictionary from its values, and declines only if the values do: a
/// dictionary that has no codes or no values is always rewritten.
pub proof fn lemma_reduce_adaptor<V: TakeReduce + Send + Sync>(
    adaptor: TakeReduceAdaptor<V>,
    array: ArrayRef,
    parent: ParentRef<'_>,
    child_idx: usize,
    r: Reduced,
)
    requires
        adaptor.allows(array, parent, child_idx, r),
    ensures
        child_idx != 1 || parent.encoding_id_spec() != ArrayId::Dict ==> r == Ok::<
            Option<ArrayRef>,
            VortexError,
        >(None),
        child_idx == 1 && parent.encoding_id_spec() == ArrayId::Dict ==> {
            let codes = parent.slots_spec()[0]->0;
            &&& codes.len_spec() == 0 || array.len_spec() == 0 ==> (r matches Ok(Some(_)))
            &&& codes.len_spec() > 0 && array.len_spec() > 0 && r == Ok::<
                Option<ArrayRef>,
                VortexError,
            >(None) ==> V::reduces(array, codes, Ok(None))
        },
{
    if child_idx == 1 && parent.encoding_id_spec() == ArrayId::Dict {
        lemma_take_reduce_follows::<V>(array, parent.slots_spec()[0]->0, r);
    }
}

/// Rewrites a dictionary whose values have an encoding that can take rows by structure alone.
#[derive(Default, Debug)]
pub struct TakeReduceAdaptor<V>(pub V);

/// Takes by structure alone, with what is the same for all encodings before and after.
fn take_reduce<V: TakeReduce>(array: ArrayView<'_, V>, codes: &ArrayRef) -> (r: Reduced)
    requires
        array.wf(),
        array.array_spec().wf(),
        codes.wf(),
    ensures
        take_reduce_outcome::<V>(array.array_spec(), *codes, r),
        r matches Ok(Some(out)) ==> out.wf(),
{
    if let Some(result) = precondition::<V>(array, codes) {
        return Ok(Some(result));
    }
    let taken = <V as TakeReduce>::take(array, codes);
    assert(V::reduces(array.array_spec(), *codes, taken));
    finish_take(array.array(), codes, taken)
}

impl<V: TakeReduce + Send + Sync> ArrayParentReduceRule<V> for TakeReduceAdaptor<V> {
    type Parent = Dict;

    /// Only dictionaries are rewritten, and only by their values, which are in slot 1.
    open spec fn allows(
        &self,
        array: ArrayRef,
        parent: ParentRef<'_>,
        child_idx: usize,
        r: Reduced,
    ) -> bool {
        if child_idx != 1 || !parent.is_encoding_spec::<Dict>() {
            r == declined()
        } else {
            take_reduce_outcome::<V>(array, parent.slots_spec()[0]->0, r)
        }
    }

    fn reduce_parent<'a>(
        &self,
        array: ArrayView<'_, V>,
        parent: ArrayView<'a, Dict>,
        child_idx: usize,
    ) -> (r: Reduced) {
        if child_idx != 1 {
            return Ok(None);
        }
        proof {
            let p = choose|p: ParentRef<'a>|
                p.wf() && p.children_wf() && #[trigger] <Self::Parent as Matcher>::yields(p, parent);
            p.lemma_wf();
            parent.lemma_view_data();
            assert(p.slots_spec()[0] is Some && p.slots_spec()[1] is Some);
        }
        let r = take_reduce(array, parent.codes());
        assert forall|p: ParentRef<'a>|
            p.wf() && p.children_wf() && #[trigger] <Self::Parent as Matcher>::yields(
                p,
                parent,
            ) implies self.allows(array.array_spec(), p, child_idx, r) by {
            p.lemma_wf();
        }
        r
    }

    fn reduce_parent_ref(
        &self,
        array: ArrayView<'_, V>,
        parent: &ParentRef<'_>,
        child_idx: usize,
    ) -> (r: Reduced) {
        if child_idx != 1 {
            return Ok(None);
        }
        let view = match parent.try_view::<Dict>() {
            Some(view) => view,
            None => return Ok(None),
        };
        let codes = match &view.slots()[0] {
            Some(codes) => codes,
            None => vstd::pervasive::unreached(),
        };
        take_reduce(array, codes)
    }
}

/// Computes a dictionary whose values have an encoding that can take rows.
#[derive(Default, Debug)]
pub struct TakeExecuteAdaptor<V>(pub V);

impl<V: TakeExecute> ExecuteParentKernel<V> for TakeExecuteAdaptor<V> {
    type Parent = Dict;

    /// Only dictionaries are computed, and only from their values, which are in slot 1.
    open spec fn allows(
        &self,
        array: ArrayRef,
        parent: ParentRef<'_>,
        child_idx: usize,
        r: Reduced,
    ) -> bool {
        if child_idx != 1 {
            r == declined()
        } else {
            take_execute_outcome::<V>(array, parent.slots_spec()[0]->0, r)
        }
    }

    fn execute_parent<'a>(
        &self,
        array: ArrayView<'_, V>,
        parent: ArrayView<'a, Dict>,
        child_idx: usize,
        ctx: &mut ExecutionCtx,
    ) -> (r: Reduced) {
        if child_idx != 1 {
            return Ok(None);
        }
        proof {
            let p = choose|p: ParentRef<'a>|
                p.wf() && p.children_wf() && #[trigger] <Self::Parent as Matcher>::yields(p, parent);
            p.lemma_wf();
            parent.lemma_view_data();
            assert(p.slots_spec()[0] is Some && p.slots_spec()[1] is Some);
        }
        let codes = parent.codes();
        let r = match precondition::<V>(array, codes) {
            Some(result) => Ok(Some(result)),
            None => {
                let taken = <V as TakeExecute>::take(array, codes, ctx);
                assert(V::executes(array.array_spec(), *codes, taken));
                finish_take(array.array(), codes, taken)
            },
        };
        assert forall|p: ParentRef<'a>|
            p.wf() && p.children_wf() && #[trigger] <Self::Parent as Matcher>::yields(
                p,
                parent,
            ) implies self.allows(array.array_spec(), p, child_idx, r) by {
            p.lemma_wf();
        }
        r
    }
}

} // verus!
