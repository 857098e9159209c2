//! What the optimizer leaves as it is.

use vstd::prelude::*;

use super::kernels::{kernel_outcome, KernelEntry};
use super::rules::{declined, vetted_outcome, Reduced};
use super::{
    as_rewrite, optimize_outcome, optimized, rewritable, settled, settled_after, static_outcome,
    step_outcome,
};
use crate::array::parent::{ArrayParts, ParentRef};
use crate::array::vtable::{Constant, VTable};
use crate::array::{row_index, row_indices, taken_row, ArrayId, ArrayInner, ArrayRef};
use crate::arrays::dict::take::{
    finished_take, lemma_same_inner, lemma_take_reduce_follows, lemma_trivial_take,
    take_reduce_outcome, TakeReduce,
};
use crate::dtype::DType;
use crate::error::{VortexError, VortexResult};
use crate::scalar::row_fits;

verus! {

/// Plugins come before the rules that encodings bring along: if the plugins for a child do not
/// decline, they decide.
pub proof fn lemma_plugins_first(
    entries: Seq<KernelEntry>,
    parent: ParentRef<'_>,
    k: int,
    child: ArrayRef,
    r: Reduced,
)
    requires
        0 <= k < parent.slots_spec().len(),
        parent.slots_spec()[k] == Some(child),
        !kernel_outcome(entries, child, parent, k as usize, declined()),
        step_outcome(entries, parent, k, r),
    ensures
        kernel_outcome(entries, child, parent, k as usize, r),
{
}

/// Two parents show the same metadata, whether they are allocated or not.
pub open spec fn same_metadata(left: ParentRef<'_>, right: ParentRef<'_>) -> bool {
    &&& left.encoding_id_spec() == right.encoding_id_spec()
    &&& left.dtype_spec() == right.dtype_spec()
    &&& left.len_spec() == right.len_spec()
    &&& left.slots_spec() == right.slots_spec()
}

/// The parts of an array show the same metadata before and after it is put together.
pub proof fn lemma_parts_metadata<V: VTable>(
    parts: ArrayParts<V>,
    parent: ParentRef<'_>,
    array: &ArrayRef,
)
    requires
        parts.wf(),
        parent.encoding_id_spec() == V::id_spec(),
        parent.dtype_spec() == parts.dtype,
        parent.len_spec() == parts.len,
        parent.slots_spec() == parts.slots@,
        *array.inner == (ArrayInner {
            dtype: parts.dtype,
            len: parts.len,
            data: parts.data,
            slots: parts.slots,
        }),
    ensures
        same_metadata(parent, ParentRef::of(array)),
{
    V::lemma_id(&parts.data);
    ParentRef::lemma_of(array);
}

/// The rules that encodings bring along rewrite a parent that is still under construction as they
/// rewrite it once it is allocated.
pub proof fn lemma_unallocated_step(left: ParentRef<'_>, right: ParentRef<'_>, k: int, r: Reduced)
    requires
        same_metadata(left, right),
        0 <= k,
        step_outcome(Seq::empty(), left, k, r),
    ensures
        step_outcome(Seq::empty(), right, k, r),
    decreases left.slots_spec().len() - k,
{
    if k < left.slots_spec().len() {
        if let Some(child) = left.slots_spec()[k] {
            assert forall|out: Reduced| static_outcome(child, left, k as usize, out) implies
                #[trigger] static_outcome(child, right, k as usize, out) by {
                lemma_same_vetting(left, right, child, k as usize, out);
            }
            assert forall|out: Reduced| kernel_outcome(
                Seq::<KernelEntry>::empty(),
                child,
                left,
                k as usize,
                out,
            ) implies #[trigger] kernel_outcome(
                Seq::<KernelEntry>::empty(),
                child,
                right,
                k as usize,
                out,
            ) by {}
        }
        if step_outcome(Seq::empty(), left, k + 1, r) {
            lemma_unallocated_step(left, right, k + 1, r);
        }
    }
}

proof fn lemma_same_vetting(
    left: ParentRef<'_>,
    right: ParentRef<'_>,
    child: ArrayRef,
    slot_idx: usize,
    r: Reduced,
)
    requires
        same_metadata(left, right),
        static_outcome(child, left, slot_idx, r),
    ensures
        static_outcome(child, right, slot_idx, r),
{
    if child.id_spec() == ArrayId::Constant && left.encoding_id_spec() == ArrayId::Dict && slot_idx
        == 1 {
        let outcome = choose|outcome: Reduced| #[trigger]
            take_reduce_outcome::<Constant>(child, left.slots_spec()[0]->0, outcome) && r
                == vetted_outcome(left, outcome, true);
        assert(vetted_outcome(left, outcome, true) == vetted_outcome(right, outcome, true));
        assert(take_reduce_outcome::<Constant>(child, right.slots_spec()[0]->0, outcome));
    }
}

/// `right` stands for the same rows as `left`, and its type and length are the same.
pub open spec fn same_rows(left: ArrayRef, right: ArrayRef) -> bool {
    &&& right.rows() == left.rows()
    &&& right.len_spec() == left.len_spec()
    &&& right.dtype_spec() == left.dtype_spec()
}

/// A constant rewrites a well-formed dictionary of which it is the values into an array of the
/// same rows, and never fails to.
proof fn lemma_constant_take(parent: &ArrayRef, outcome: Reduced)
    requires
        parent.wf(),
        parent.id_spec() == ArrayId::Dict,
        parent.slot(1).id_spec() == ArrayId::Constant,
        take_reduce_outcome::<Constant>(parent.slot(1), parent.slot(0), outcome),
    ensures
        outcome is Ok,
        outcome matches Ok(Some(next)) ==> {
            &&& next.wf()
            &&& same_rows(*parent, next)
            &&& next.inner.slots@.len() == 0
        },
{
    let codes = parent.slot(0);
    let values = parent.slot(1);
    let indices = row_indices(codes.rows());
    ArrayRef::lemma_rows(&codes);
    ArrayRef::lemma_rows(&values);
    ArrayRef::lemma_rows(parent);
    if codes.len_spec() == 0 || values.len_spec() == 0 {
        let next = outcome->Ok_0->0;
        lemma_trivial_take(parent, &next);
    } else {
        let taken = choose|taken: Reduced| #[trigger]
            Constant::reduces(values, codes, taken) && finished_take(
                values,
                codes,
                taken,
                outcome,
            );
        if let Ok(Some(target)) = taken {
            assert forall|i: int| 0 <= i < parent.rows().len() implies parent.rows()[i]
                == #[trigger] target.rows()[i] by {
                assert(parent.rows()[i] == taken_row(indices[i], values.rows()));
                assert(indices[i] == row_index(codes.rows()[i]));
                assert(row_fits(codes.rows()[i], codes.dtype_spec()));
            }
            assert(target.rows() =~= parent.rows());
            if let Ok(Some(next)) = outcome {
                lemma_same_inner(&target, &next);
            }
        }
    }
}

/// One rewrite by the rules that encodings bring along gives an array of the same rows and without
/// children, and never fails.
pub proof fn lemma_step_keeps_rows(array: &ArrayRef, step: Reduced)
    requires
        array.wf(),
        step_outcome(Seq::empty(), ParentRef::of(array), 0, step),
    ensures
        step is Ok,
        step matches Ok(Some(next)) ==> {
            &&& next.wf()
            &&& same_rows(*array, next)
            &&& next.inner.slots@.len() == 0
        },
{
    let parent = ParentRef::of(array);
    ParentRef::lemma_of(array);
    reveal_with_fuel(step_outcome, 4);
    if array.id_spec() == ArrayId::Dict && array.slot(1).id_spec() == ArrayId::Constant {
        let values = array.slot(1);
        assert forall|r: Reduced| #[trigger] static_outcome(values, parent, 1, r) implies r is Ok
            && (r matches Ok(Some(next)) ==> next.wf() && same_rows(*array, next)
            && next.inner.slots@.len() == 0) by {
            let outcome = choose|outcome: Reduced| #[trigger]
                take_reduce_outcome::<Constant>(values, parent.slots_spec()[0]->0, outcome) && r
                    == vetted_outcome(parent, outcome, true);
            lemma_constant_take(array, outcome);
            DType::lemma_same_refl(&array.dtype_spec());
        }
    }
}

/// Rewriting an array by the rules that encodings bring along until none applies any more gives an
/// array of the same rows and never fails, however often it is rewritten.
proof fn lemma_settled_keeps_rows(array: &ArrayRef, n: nat, r: VortexResult<ArrayRef>)
    requires
        array.wf(),
        settled_after(Seq::empty(), *array, n, r),
    ensures
        r matches Ok(out) && out.wf() && same_rows(*array, out),
    decreases n,
{
    let step = choose|step: Reduced| #[trigger]
        step_outcome(Seq::empty(), ParentRef::of(array), 0, step) && match step {
            Err(e) => n == 0 && r == Err::<ArrayRef, VortexError>(e),
            Ok(None) => n == 0 && r == Ok::<ArrayRef, VortexError>(*array),
            Ok(Some(next)) => n > 0 && settled_after(Seq::empty(), next, (n - 1) as nat, r),
        };
    lemma_step_keeps_rows(array, step);
    if let Ok(Some(next)) = step {
        lemma_settled_keeps_rows(&next, (n - 1) as nat, r);
    }
}

/// The rules that encodings bring along rewrite an array once at most.
pub proof fn lemma_rewritten_once(array: &ArrayRef, n: nat)
    requires
        array.wf(),
        rewritable(Seq::empty(), *array, n),
    ensures
        n <= 1,
{
    if n > 1 {
        let next = choose|next: ArrayRef| #[trigger]
            step_outcome(Seq::empty(), ParentRef::of(array), 0, Ok(Some(next))) && rewritable(
                Seq::empty(),
                next,
                (n - 1) as nat,
            );
        lemma_step_keeps_rows(array, Ok(Some(next)));
        ParentRef::lemma_of(&next);
    }
}

/// The rules that encodings bring along never fail, and never keep the optimizer from finishing.
pub proof fn lemma_optimize_succeeds(array: &ArrayRef, r: VortexResult<ArrayRef>)
    requires
        array.wf(),
        optimized(Seq::empty(), *array, r),
    ensures
        settled(Seq::empty(), *array, r),
        r is Ok,
{
    if rewritable(Seq::empty(), *array, u64::MAX as nat + 1) {
        lemma_rewritten_once(array, u64::MAX as nat + 1);
    }
    let n = choose|n: nat| #[trigger] settled_after(Seq::empty(), *array, n, r);
    lemma_settled_keeps_rows(array, n, r);
}

/// Optimizing an array by the rules that encodings bring along gives an array of the same rows.
pub proof fn lemma_optimized_keeps_rows(array: &ArrayRef, r: VortexResult<ArrayRef>)
    requires
        array.wf(),
        optimized(Seq::empty(), *array, r),
    ensures
        r matches Ok(out) && out.wf() && same_rows(*array, out),
{
    lemma_optimize_succeeds(array, r);
    let n = choose|n: nat| #[trigger] settled_after(Seq::empty(), *array, n, r);
    lemma_settled_keeps_rows(array, n, r);
}

/// Optimizing an array goes on until nothing applies: its children have declined to rewrite what it
/// gives.
pub proof fn lemma_settled_is_final(
    entries: Seq<KernelEntry>,
    array: &ArrayRef,
    r: VortexResult<ArrayRef>,
)
    requires
        settled(entries, *array, r),
    ensures
        r matches Ok(out) ==> step_outcome(entries, ParentRef::of(&out), 0, declined()),
{
    let n = choose|n: nat| #[trigger] settled_after(entries, *array, n, r);
    lemma_settled_after_is_final(entries, array, n, r);
}

proof fn lemma_settled_after_is_final(
    entries: Seq<KernelEntry>,
    array: &ArrayRef,
    n: nat,
    r: VortexResult<ArrayRef>,
)
    requires
        settled_after(entries, *array, n, r),
    ensures
        r matches Ok(out) ==> step_outcome(entries, ParentRef::of(&out), 0, declined()),
    decreases n,
{
    let step = choose|step: Reduced| #[trigger]
        step_outcome(entries, ParentRef::of(array), 0, step) && match step {
            Err(e) => n == 0 && r == Err::<ArrayRef, VortexError>(e),
            Ok(None) => n == 0 && r == Ok::<ArrayRef, VortexError>(*array),
            Ok(Some(next)) => n > 0 && settled_after(entries, next, (n - 1) as nat, r),
        };
    if let Ok(Some(next)) = step {
        lemma_settled_after_is_final(entries, &next, (n - 1) as nat, r);
    }
}

/// Optimizing a parent by the rules that encodings bring along, before or after it is allocated,
/// gives an array of the rows that the allocated array has.
pub proof fn lemma_optimize_keeps_rows(parent: ParentRef<'_>, array: &ArrayRef, r: Reduced)
    requires
        array.wf(),
        same_metadata(parent, ParentRef::of(array)),
        optimize_outcome(Seq::empty(), parent, r),
    ensures
        r is Ok,
        r matches Ok(Some(out)) ==> out.wf() && same_rows(*array, out),
{
    let step = choose|step: Reduced| #[trigger]
        step_outcome(Seq::empty(), parent, 0, step) && match step {
            Ok(Some(next)) => exists|out: VortexResult<ArrayRef>| #[trigger]
                optimized(Seq::empty(), next, out) && r == as_rewrite(out),
            other => r == other,
        };
    lemma_unallocated_step(parent, ParentRef::of(array), 0, step);
    lemma_step_keeps_rows(array, step);
    if let Ok(Some(next)) = step {
        let out = choose|out: VortexResult<ArrayRef>| #[trigger]
            optimized(Seq::empty(), next, out) && r == as_rewrite(out);
        lemma_optimized_keeps_rows(&next, out);
    }
}

/// The rules that encodings bring along rewrite nothing but a dictionary, and that only from the
/// constant that is its values.
pub proof fn lemma_only_constants_rewrite(
    child: ArrayRef,
    parent: ParentRef<'_>,
    slot_idx: usize,
    r: Reduced,
)
    requires
        static_outcome(child, parent, slot_idx, r),
        child.id_spec() != ArrayId::Constant || parent.encoding_id_spec() != ArrayId::Dict
            || slot_idx != 1,
    ensures
        r == Ok::<Option<ArrayRef>, VortexError>(None),
{
}

/// A dictionary of a constant is rewritten by it, unless a code may be null and the constant is not,
/// and there are both codes and values. The replacement has the rows and the type of the dictionary.
pub proof fn lemma_constant_rewrites(array: &ArrayRef, r: Reduced)
    requires
        array.wf(),
        array.id_spec() == ArrayId::Dict,
        array.slot(1).id_spec() == ArrayId::Constant,
        static_outcome(array.slot(1), ParentRef::of(array), 1, r),
    ensures
        r is Ok,
        r->Ok_0 is Some <==> array.slot(0).len_spec() == 0 || array.slot(1).len_spec() == 0
            || array.slot(0).no_nulls_spec() || array.slot(1).constant_spec() is None,
        r matches Ok(Some(out)) ==> {
            &&& out.wf()
            &&& out.rows() == array.rows()
            &&& out.dtype_spec() == array.dtype_spec()
            &&& array.slot(0).len_spec() > 0 ==> out.id_spec() == ArrayId::Constant
        },
{
    let parent = ParentRef::of(array);
    let codes = array.slot(0);
    let values = array.slot(1);
    ParentRef::lemma_of(array);
    let outcome = choose|outcome: Reduced| #[trigger]
        take_reduce_outcome::<Constant>(values, parent.slots_spec()[0]->0, outcome) && r
            == vetted_outcome(parent, outcome, true);
    lemma_constant_take(array, outcome);
    DType::lemma_same_refl(&array.dtype_spec());
    lemma_take_reduce_follows::<Constant>(values, codes, outcome);
}

/// If nothing applies to a parent, every child may have declined to rewrite it, by every plugin and
/// by the rules of its encoding.
pub proof fn lemma_every_child_declines(
    entries: Seq<KernelEntry>,
    parent: ParentRef<'_>,
    from: int,
    k: int,
)
    requires
        step_outcome(entries, parent, from, Ok(None)),
        0 <= from <= k < parent.slots_spec().len(),
        parent.slots_spec()[k] is Some,
    ensures
        kernel_outcome(entries, parent.slots_spec()[k]->0, parent, k as usize, Ok(None)),
        static_outcome(parent.slots_spec()[k]->0, parent, k as usize, Ok(None)),
    decreases k - from,
{
    if from < k {
        lemma_every_child_declines(entries, parent, from + 1, k);
    }
}

/// Any other outcome for a parent comes from a child: from a plugin for it, or, if the plugins may
/// have declined, from the rules of its encoding. The children in the slots before it may have
/// declined.
pub proof fn lemma_step_has_child(
    entries: Seq<KernelEntry>,
    parent: ParentRef<'_>,
    from: int,
    r: Reduced,
)
    requires
        step_outcome(entries, parent, from, r),
        0 <= from,
        r != Ok::<Option<ArrayRef>, VortexError>(None),
    ensures
        exists|k: int|
            {
                &&& from <= k < parent.slots_spec().len()
                &&& (#[trigger] parent.slots_spec()[k]) matches Some(child)
                &&& kernel_outcome(entries, child, parent, k as usize, r) || (kernel_outcome(
                    entries,
                    child,
                    parent,
                    k as usize,
                    Ok(None),
                ) && static_outcome(child, parent, k as usize, r))
                &&& forall|j: int|
                    from <= j < k && (#[trigger] parent.slots_spec()[j]) is Some ==> kernel_outcome(
                        entries,
                        parent.slots_spec()[j]->0,
                        parent,
                        j as usize,
                        Ok(None),
                    ) && static_outcome(parent.slots_spec()[j]->0, parent, j as usize, Ok(None))
            },
    decreases parent.slots_spec().len() - from,
{
    if from < parent.slots_spec().len() {
        let decided = parent.slots_spec()[from] matches Some(child) && (kernel_outcome(
            entries,
            child,
            parent,
            from as usize,
            r,
        ) || (kernel_outcome(entries, child, parent, from as usize, Ok(None)) && static_outcome(
            child,
            parent,
            from as usize,
            r,
        )));
        if decided {
            assert(parent.slots_spec()[from] is Some);
        } else {
            lemma_step_has_child(entries, parent, from + 1, r);
            let k = choose|k: int|
                {
                    &&& from + 1 <= k < parent.slots_spec().len()
                    &&& (#[trigger] parent.slots_spec()[k]) matches Some(child)
                    &&& kernel_outcome(entries, child, parent, k as usize, r) || (kernel_outcome(
                        entries,
                        child,
                        parent,
                        k as usize,
                        Ok(None),
                    ) && static_outcome(child, parent, k as usize, r))
                    &&& forall|j: int|
                        from + 1 <= j < k && (#[trigger] parent.slots_spec()[j]) is Some
                            ==> kernel_outcome(
                            entries,
                            parent.slots_spec()[j]->0,
                            parent,
                            j as usize,
                            Ok(None),
                        ) && static_outcome(parent.slots_spec()[j]->0, parent, j as usize, Ok(None))
                };
            assert(parent.slots_spec()[k] is Some);
        }
    }
}

/// If every child in a slot before slot `k` can only decline, and the child in slot `k` cannot, then
/// that child decides: by its plugins if they cannot all decline, else by the rules of its encoding.
pub proof fn lemma_first_child_decides(
    entries: Seq<KernelEntry>,
    parent: ParentRef<'_>,
    from: int,
    k: int,
    r: Reduced,
)
    requires
        step_outcome(entries, parent, from, r),
        0 <= from <= k < parent.slots_spec().len(),
        parent.slots_spec()[k] is Some,
        forall|j: int, out: Reduced|
            from <= j < k && parent.slots_spec()[j] is Some && (#[trigger] kernel_outcome(
                entries,
                parent.slots_spec()[j]->0,
                parent,
                j as usize,
                out,
            )) ==> out == Ok::<Option<ArrayRef>, VortexError>(None),
        forall|j: int, out: Reduced|
            from <= j < k && parent.slots_spec()[j] is Some && (#[trigger] static_outcome(
                parent.slots_spec()[j]->0,
                parent,
                j as usize,
                out,
            )) ==> out == Ok::<Option<ArrayRef>, VortexError>(None),
        !(kernel_outcome(entries, parent.slots_spec()[k]->0, parent, k as usize, Ok(None))
            && static_outcome(parent.slots_spec()[k]->0, parent, k as usize, Ok(None))),
    ensures
        r != Ok::<Option<ArrayRef>, VortexError>(None),
        kernel_outcome(entries, parent.slots_spec()[k]->0, parent, k as usize, r)
            || static_outcome(parent.slots_spec()[k]->0, parent, k as usize, r),
        !kernel_outcome(entries, parent.slots_spec()[k]->0, parent, k as usize, Ok(None))
            ==> kernel_outcome(entries, parent.slots_spec()[k]->0, parent, k as usize, r),
    decreases k - from,
{
    if from < k {
        if let Some(child) = parent.slots_spec()[from] {
            assert(kernel_outcome(entries, child, parent, from as usize, r) ==> r == Ok::<
                Option<ArrayRef>,
                VortexError,
            >(None));
            assert(static_outcome(child, parent, from as usize, r) ==> r == Ok::<
                Option<ArrayRef>,
                VortexError,
            >(None));
        }
        lemma_first_child_decides(entries, parent, from + 1, k, r);
    }
}

/// Optimizing an array by the rules that encodings bring along leaves it as it is, unless it is a
/// dictionary of a constant. Such a dictionary becomes a constant if it has codes, and none of them
/// can be null or the constant itself is null.
pub proof fn lemma_optimized_array(array: &ArrayRef, r: VortexResult<ArrayRef>)
    requires
        array.wf(),
        settled(Seq::empty(), *array, r),
    ensures
        r is Ok,
        !(array.id_spec() == ArrayId::Dict && array.slot(1).id_spec() == ArrayId::Constant) ==> r
            == Ok::<ArrayRef, VortexError>(*array),
        array.id_spec() == ArrayId::Dict && array.slot(1).id_spec() == ArrayId::Constant
            && array.slot(0).len_spec() > 0 && (array.slot(0).no_nulls_spec()
            || array.slot(1).constant_spec() is None) ==> r->Ok_0.id_spec() == ArrayId::Constant,
{
    let n = choose|n: nat| #[trigger] settled_after(Seq::empty(), *array, n, r);
    lemma_settled_keeps_rows(array, n, r);
    ParentRef::lemma_of(array);
    let parent = ParentRef::of(array);
    let step = choose|step: Reduced| #[trigger]
        step_outcome(Seq::empty(), parent, 0, step) && match step {
            Err(e) => n == 0 && r == Err::<ArrayRef, VortexError>(e),
            Ok(None) => n == 0 && r == Ok::<ArrayRef, VortexError>(*array),
            Ok(Some(next)) => n > 0 && settled_after(Seq::empty(), next, (n - 1) as nat, r),
        };
    lemma_step_keeps_rows(array, step);
    reveal_with_fuel(step_outcome, 4);
    if let Ok(Some(next)) = step {
        ParentRef::lemma_of(&next);
        if array.id_spec() == ArrayId::Dict && array.slot(1).id_spec() == ArrayId::Constant {
            assert(static_outcome(array.slot(1), parent, 1, step));
            lemma_constant_rewrites(array, step);
        }
    } else if array.id_spec() == ArrayId::Dict && array.slot(1).id_spec() == ArrayId::Constant {
        assert(static_outcome(array.slot(1), parent, 1, step));
        lemma_constant_rewrites(array, step);
    }
}

/// Optimizing a parent gives nothing exactly if its children may have declined to rewrite it. What
/// it gives otherwise is optimized all the way: its own children may have declined.
pub proof fn lemma_optimized_parent(entries: Seq<KernelEntry>, parent: ParentRef<'_>, r: Reduced)
    requires
        optimize_outcome(entries, parent, r),
    ensures
        r == Ok::<Option<ArrayRef>, VortexError>(None) ==> step_outcome(
            entries,
            parent,
            0,
            Ok(None),
        ),
        r matches Ok(Some(out)) ==> step_outcome(entries, ParentRef::of(&out), 0, Ok(None)),
        r matches Ok(Some(out)) ==> exists|next: ArrayRef| #[trigger]
            step_outcome(entries, parent, 0, Ok(Some(next))),
{
    let step = choose|step: Reduced| #[trigger]
        step_outcome(entries, parent, 0, step) && match step {
            Ok(Some(next)) => exists|out: VortexResult<ArrayRef>| #[trigger]
                optimized(entries, next, out) && r == as_rewrite(out),
            other => r == other,
        };
    if let Ok(Some(next)) = step {
        assert(step_outcome(entries, parent, 0, Ok(Some(next))));
        let out = choose|out: VortexResult<ArrayRef>| #[trigger]
            optimized(entries, next, out) && r == as_rewrite(out);
        if settled(entries, next, out) {
            lemma_settled_is_final(entries, &next, out);
        }
    }
}

} // verus!
