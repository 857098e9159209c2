//! Computing a parent from one of its children.

use vstd::prelude::*;

use crate::array::parent::ParentRef;
use crate::array::vtable::{ArrayView, Dict, Filter, VTable};
use crate::array::{in_bounds, row_indices, ArrayId, ArrayRef};
use crate::arrays::dict::take::{
    finished_take, lemma_propagated_stats, lemma_propagated_stats_hold, lemma_same_inner,
    lemma_take_execute_follows, lemma_trivial_take, propagates, stats_hold, take_execute_outcome, TakeExecute, TakeExecuteAdaptor,
};
use crate::arrays::filter::rank::lemma_in_bounds_no_error;
use crate::arrays::filter::take::{
    has_plain_values, lemma_filter_parts, lemma_filter_take_decides,
};
use crate::error::VortexError;
use crate::matcher::Matcher;
use crate::optimizer::kernels::ExecutionCtx;
use crate::optimizer::rules::{declined, Reduced};
use crate::scalar::ScalarValue;
use crate::stats::{Precision, Stat};

verus! {

/// A way for a child to compute its parent faster than the parent itself could.
pub trait ExecuteParentKernel<V: VTable> {
    /// The parents that the kernel is for.
    type Parent: Matcher;

    /// Which outcomes the kernel may have on a child in slot `child_idx` of a parent.
    spec fn allows(
        &self,
        array: ArrayRef,
        parent: ParentRef<'_>,
        child_idx: usize,
        r: Reduced,
    ) -> bool;

    /// Computes a matched parent of the child; `None` if the kernel is of no use there.
    fn execute_parent<'a>(
        &self,
        array: ArrayView<'_, V>,
        parent: <Self::Parent as Matcher>::Match<'a>,
        child_idx: usize,
        ctx: &mut ExecutionCtx,
    ) -> (r: Reduced)
        requires
            array.wf(),
            array.array_spec().wf(),
            exists|p: ParentRef<'a>|
                p.wf() && p.children_wf() && #[trigger] <Self::Parent as Matcher>::yields(
                    p,
                    parent,
                ),
        ensures
            forall|p: ParentRef<'a>|
                p.wf() && p.children_wf() && #[trigger] <Self::Parent as Matcher>::yields(
                    p,
                    parent,
                ) ==> self.allows(array.array_spec(), p, child_idx, r),
            r matches Ok(Some(computed)) ==> computed.wf(),
    ;
}

/// Runs a kernel on an allocated parent, if the kernel is for such parents.
fn run_kernel<V: VTable, K: ExecuteParentKernel<V>>(
    kernel: &K,
    child: ArrayView<'_, V>,
    parent: &ArrayRef,
    child_idx: usize,
    ctx: &mut ExecutionCtx,
) -> (r: Reduced)
    requires
        child.wf(),
        child.array_spec().wf(),
        ParentRef::of(parent).children_wf(),
    ensures
        if <K::Parent as Matcher>::extracts(ParentRef::of(parent)) {
            kernel.allows(child.array_spec(), ParentRef::of(parent), child_idx, r)
        } else {
            r == declined()
        },
        r matches Ok(Some(computed)) ==> computed.wf(),
{
    proof {
        ParentRef::lemma_of(parent);
    }
    match <K::Parent as Matcher>::try_match(parent) {
        Some(matched) => kernel.execute_parent(child, matched, child_idx, ctx),
        None => Ok(None),
    }
}

/// The outcomes of computing a parent from the child in slot `child_idx`: filtered values compute
/// their dictionaries, and no other child computes its parent.
pub open spec fn execute_parent_outcome(
    child: ArrayRef,
    parent: ArrayRef,
    child_idx: usize,
    r: Reduced,
) -> bool {
    if child.id_spec() == ArrayId::Filter && parent.id_spec() == ArrayId::Dict && child_idx == 1 {
        take_execute_outcome::<Filter>(child, parent.slot(0), r)
    } else {
        r == declined()
    }
}

impl ArrayRef {
    /// Computes the parent from this array, which is in its slot `child_idx`; `None` if there is
    /// no faster way than the general one.
    pub fn execute_parent(&self, parent: &ArrayRef, child_idx: usize, ctx: &mut ExecutionCtx) -> (r:
        Reduced)
        requires
            self.wf(),
            ParentRef::of(parent).children_wf(),
        ensures
            execute_parent_outcome(*self, *parent, child_idx, r),
            r matches Ok(Some(computed)) ==> computed.wf(),
    {
        proof {
            ParentRef::lemma_of(parent);
        }
        let child = match self.as_typed::<Filter>() {
            Some(child) => child,
            None => return Ok(None),
        };
        run_kernel(&TakeExecuteAdaptor(Filter), child, parent, child_idx, ctx)
    }
}

/// Only filtered values compute their parent, and only a dictionary of which they are the values.
pub proof fn lemma_only_filtered_values_compute(
    child: ArrayRef,
    parent: ArrayRef,
    child_idx: usize,
    r: Reduced,
)
    requires
        execute_parent_outcome(child, parent, child_idx, r),
        child.id_spec() != ArrayId::Filter || parent.id_spec() != ArrayId::Dict || child_idx != 1,
    ensures
        r == Ok::<Option<ArrayRef>, VortexError>(None),
{
}

/// A dictionary of filtered values is computed from them, unless the values are booleans, or there
/// are at least 4096 nullable codes that are no fewer than the values, and the values have a fixed
/// width and may be null.
pub proof fn lemma_dict_is_computed(parent: &ArrayRef, r: Reduced)
    requires
        parent.wf(),
        parent.id_spec() == ArrayId::Dict,
        parent.slot(1).id_spec() == ArrayId::Filter,
        execute_parent_outcome(parent.slot(1), *parent, 1, r),
    ensures
        ({
            let codes = parent.slot(0);
            let values = parent.slot(1);
            let child = values.slot(0);
            let general = child.dtype_spec() is Bool || (codes.len_spec() >= 4096
                && codes.len_spec() >= values.len_spec()
                && codes.dtype_spec().nullability_spec() is Nullable && (
            child.dtype_spec() is Primitive || child.dtype_spec() is Decimal)
                && !child.no_nulls_spec());
            let rows = codes.len_spec() > 0 && values.len_spec() > 0;
            &&& r is Ok
            &&& r->Ok_0 is None <==> rows && general
        }),
{
    let codes = parent.slot(0);
    let values = parent.slot(1);
    lemma_computed_dict(parent, r);
    lemma_take_execute_follows::<Filter>(values, codes, r);
    ArrayRef::lemma_rows(&codes);
    ArrayRef::lemma_rows(&values);
    if codes.len_spec() > 0 && values.len_spec() > 0 {
        let ranks = row_indices(codes.rows());
        assert(in_bounds(ranks, values.rows().len()));
        match r {
            Ok(None) => lemma_filter_take_decides(&values, &codes, Ok(None)),
            Ok(Some(_)) => {
                let target = choose|target: ArrayRef| #[trigger]
                    Filter::executes(values, codes, Ok(Some(target)));
                lemma_filter_take_decides(&values, &codes, Ok(Some(target)));
            },
            Err(_) => {},
        }
    }
}

/// What is known of filtered values is handed on to the dictionary that is computed from them: that
/// they are constant, if no code can be null, and their minimum and maximum as bounds. Nothing else
/// is known of it.
pub proof fn lemma_computed_dict_stats(parent: &ArrayRef, computed: &ArrayRef, stat: Stat)
    requires
        parent.wf(),
        parent.id_spec() == ArrayId::Dict,
        parent.slot(1).id_spec() == ArrayId::Filter,
        parent.slot(0).len_spec() > 0,
        parent.slot(1).len_spec() > 0,
        execute_parent_outcome(parent.slot(1), *parent, 1, Ok(Some(*computed))),
    ensures
        ({
            let codes = parent.slot(0);
            let known = parent.slot(1).stats.get_spec(stat);
            match stat {
                Stat::IsConstant => if codes.no_nulls_spec() && known == Some(
                    Precision::Exact(ScalarValue::Bool(true)),
                ) {
                    computed.stats.get_spec(stat) == known
                } else {
                    computed.stats.get_spec(stat) is None
                },
                Stat::Min | Stat::Max => match known {
                    Some(bound) => computed.stats.get_spec(stat) == Some(
                        Precision::Inexact(bound.value_spec()),
                    ),
                    None => computed.stats.get_spec(stat) is None,
                },
                _ => computed.stats.get_spec(stat) is None,
            }
        }),
{
    let codes = parent.slot(0);
    let values = parent.slot(1);
    lemma_take_execute_follows::<Filter>(values, codes, Ok(Some(*computed)));
    let target = choose|target: ArrayRef| #[trigger]
        Filter::executes(values, codes, Ok(Some(target))) && computed.inner == target.inner
            && propagates(values, target, codes, Ok(*computed));
    lemma_propagated_stats(&values, &target, &codes, computed, stat);
    assert(target.stats.get_spec(stat) is None);
}

/// Whether computing a dictionary of filtered values drops the nullability of the values: they
/// could be null but are known not to be, and the codes cannot be null.
pub open spec fn drops_nullability(parent: ArrayRef) -> bool {
    &&& has_plain_values(parent.slot(1).slot(0))
    &&& parent.slot(1).dtype_spec().nullability_spec() is Nullable
    &&& parent.slot(0).dtype_spec().nullability_spec() is NonNullable
}

/// Computing a dictionary of filtered values does not fail, and what it gives has the rows of the
/// dictionary. It has its type too, unless the nullability of the values is dropped. Statistics
/// that hold of the values hold of it.
pub proof fn lemma_computed_dict(parent: &ArrayRef, r: Reduced)
    requires
        parent.wf(),
        parent.id_spec() == ArrayId::Dict,
        parent.slot(1).id_spec() == ArrayId::Filter,
        execute_parent_outcome(parent.slot(1), *parent, 1, r),
    ensures
        r is Ok,
        r matches Ok(Some(computed)) ==> {
            &&& computed.rows() == parent.rows()
            &&& computed.len_spec() == parent.len_spec()
            &&& drops_nullability(*parent) || computed.dtype_spec() == parent.dtype_spec()
            &&& stats_hold(parent.slot(1)) ==> stats_hold(computed)
        },
{
    let codes = parent.slot(0);
    let values = parent.slot(1);
    let ranks = row_indices(codes.rows());
    ArrayRef::lemma_rows(&codes);
    ArrayRef::lemma_rows(&values);
    ArrayRef::lemma_rows(parent);
    lemma_filter_parts(&values);
    if codes.len_spec() == 0 || values.len_spec() == 0 {
        let computed = r->Ok_0->0;
        lemma_trivial_take(parent, &computed);
    } else {
        lemma_in_bounds_no_error(ranks, values.len_spec());
        let taken = choose|taken: Reduced| #[trigger]
            Filter::executes(values, codes, taken) && finished_take(values, codes, taken, r);
        if let Ok(Some(target)) = taken {
            if let Ok(Some(computed)) = r {
                lemma_same_inner(&target, &computed);
                if stats_hold(values) {
                    lemma_propagated_stats_hold(&values, &target, &codes, &computed);
                }
            }
        }
    }
}

} // verus!
