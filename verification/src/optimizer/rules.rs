//! Rewrite rules that look at the structure of arrays but read no row.
//!
//! An [`ArrayReduceRule`] lets an array simplify itself. An [`ArrayParentReduceRule`] lets a child
//! rewrite its parent. Rules for one encoding are collected into a [`ReduceRuleSet`] or a
//! [`ParentRuleSet`], which tries them in order; the first that rewrites wins.

use vstd::prelude::*;
use std::marker::PhantomData;

use crate::array::parent::ParentRef;
use crate::array::vtable::{ArrayView, VTable};
use crate::array::ArrayRef;
use crate::error::{VortexError, VortexResult};
use crate::matcher::Matcher;

verus! {

/// What a rule gives: a replacement, `None` if it does not apply, or an error.
pub type Reduced = VortexResult<Option<ArrayRef>>;

/// The outcome of a rule that does not apply.
pub open spec fn declined() -> Reduced {
    Ok(None)
}

/// A rule by which an array rewrites itself.
pub trait ArrayReduceRule<V: VTable>: Send + Sync + 'static {
    /// Which outcomes the rule may have on an array.
    spec fn allows(&self, array: ArrayRef, r: Reduced) -> bool;

    /// Tries to rewrite the array.
    fn reduce(&self, array: ArrayView<'_, V>) -> (r: Reduced)
        requires
            array.wf(),
            array.array_spec().wf(),
        ensures
            self.allows(array.array_spec(), r),
            r matches Ok(Some(reduced)) ==> reduced.wf(),
    ;
}

/// The outcomes of trying rules in order: the first that does not decline decides.
pub open spec fn reduce_outcome<V: VTable>(
    rules: Seq<&'static dyn ArrayReduceRule<V>>,
    array: ArrayRef,
    r: Reduced,
) -> bool
    decreases rules.len(),
{
    if rules.len() == 0 {
        r == declined()
    } else {
        ||| rules[0].allows(array, r) && r != declined()
        ||| rules[0].allows(array, declined()) && reduce_outcome(rules.drop_first(), array, r)
    }
}

/// If every rule before rule `k` can only decline, and rule `k` cannot, then rule `k` decides. And
/// if the outcome is that nothing applies, every rule may have declined.
pub proof fn lemma_first_rule_decides<V: VTable>(
    rules: Seq<&'static dyn ArrayReduceRule<V>>,
    array: ArrayRef,
    k: int,
    r: Reduced,
)
    requires
        reduce_outcome(rules, array, r),
        0 <= k < rules.len(),
    ensures
        (forall|j: int, out: Reduced|
            0 <= j < k && #[trigger] rules[j].allows(array, out) ==> out == Ok::<
                Option<ArrayRef>,
                VortexError,
            >(None)) && !rules[k].allows(array, Ok(None)) ==> rules[k].allows(array, r),
        r == Ok::<Option<ArrayRef>, VortexError>(None) ==> rules[k].allows(array, Ok(None)),
    decreases rules.len(),
{
    let rest = rules.drop_first();
    if k > 0 {
        assert(rest[k - 1] == rules[k]);
        if reduce_outcome(rest, array, r) {
            lemma_first_rule_decides(rest, array, k - 1, r);
            if forall|j: int, out: Reduced|
                0 <= j < k && #[trigger] rules[j].allows(array, out) ==> out == Ok::<
                    Option<ArrayRef>,
                    VortexError,
                >(None) {
                assert forall|j: int, out: Reduced|
                    0 <= j < k - 1 && #[trigger] rest[j].allows(array, out) implies out == Ok::<
                    Option<ArrayRef>,
                    VortexError,
                >(None) by {
                    assert(rules[j + 1].allows(array, out));
                }
            }
        }
    }
}

/// An outcome other than that nothing applies is one that some rule has, and every rule before it
/// may have declined.
pub proof fn lemma_outcome_has_rule<V: VTable>(
    rules: Seq<&'static dyn ArrayReduceRule<V>>,
    array: ArrayRef,
    r: Reduced,
)
    requires
        reduce_outcome(rules, array, r),
        r != Ok::<Option<ArrayRef>, VortexError>(None),
    ensures
        exists|k: int|
            0 <= k < rules.len() && #[trigger] rules[k].allows(array, r) && forall|j: int|
                0 <= j < k ==> #[trigger] rules[j].allows(array, Ok(None)),
    decreases rules.len(),
{
    if rules.len() > 0 {
        let rest = rules.drop_first();
        if rules[0].allows(array, r) {
            assert(rules[0].allows(array, r));
        } else {
            lemma_outcome_has_rule(rest, array, r);
            let k = choose|k: int|
                0 <= k < rest.len() && #[trigger] rest[k].allows(array, r) && forall|j: int|
                    0 <= j < k ==> #[trigger] rest[j].allows(array, Ok(None));
            assert(rules[k + 1] == rest[k]);
            assert forall|j: int| 0 <= j < k + 1 implies #[trigger] rules[j].allows(
                array,
                Ok(None),
            ) by {
                if j > 0 {
                    assert(rest[j - 1].allows(array, Ok(None)));
                }
            }
            assert(rules[k + 1].allows(array, r));
        }
    }
}

/// The rules by which arrays of one encoding rewrite themselves.
#[verifier::reject_recursive_types(V)]
pub struct ReduceRuleSet<V: VTable> {
    rules: &'static [&'static dyn ArrayReduceRule<V>],
}

impl<V: VTable> ReduceRuleSet<V> {
    /// The rules, in the order in which they are tried.
    pub closed spec fn rules_spec(self) -> Seq<&'static dyn ArrayReduceRule<V>> {
        self.rules@
    }

    /// Collects rules.
    pub fn new(rules: &'static [&'static dyn ArrayReduceRule<V>]) -> (r: Self)
        ensures
            r.rules_spec() == rules@,
    {
        ReduceRuleSet { rules }
    }

    /// Tries the rules in order; the first that rewrites the array wins.
    pub fn evaluate(&self, array: ArrayView<'_, V>) -> (r: Reduced)
        requires
            array.wf(),
            array.array_spec().wf(),
        ensures
            reduce_outcome(self.rules_spec(), array.array_spec(), r),
            r matches Ok(Some(reduced)) ==> reduced.wf(),
    {
        let ghost all = self.rules@;
        let ghost target = array.array_spec();
        let mut i: usize = 0;
        assert(all.skip(0) =~= all);
        while i < self.rules.len()
            invariant
                array.wf(),
                array.array_spec().wf(),
                all == self.rules@,
                target == array.array_spec(),
                i <= all.len(),
                forall|r: Reduced|
                    reduce_outcome(all.skip(i as int), target, r) ==> #[trigger] reduce_outcome(
                        all,
                        target,
                        r,
                    ),
            decreases all.len() - i,
        {
            assert(all.skip(i as int)[0] == all[i as int]);
            assert(all.skip(i as int).drop_first() =~= all.skip(i + 1));
            let outcome = self.rules[i].reduce(array);
            match outcome {
                Ok(None) => {},
                decided => {
                    return decided;
                },
            }
            i = i + 1;
        }
        Ok(None)
    }
}

/// A rule by which a child rewrites its parent.
///
/// A rule names the parents that it wants to see. It gets to see them as they are in
/// [`reduce_parent_ref`](Self::reduce_parent_ref), allocated or not, and through the match that its
/// matcher makes of them in [`reduce_parent`](Self::reduce_parent).
pub trait ArrayParentReduceRule<V: VTable>: Send + Sync + 'static {
    /// The parents that the rule wants to see.
    type Parent: Matcher;

    /// Which outcomes the rule may have on a child in slot `child_idx` of a parent.
    spec fn allows(
        &self,
        array: ArrayRef,
        parent: ParentRef<'_>,
        child_idx: usize,
        r: Reduced,
    ) -> bool;

    /// Tries to rewrite a matched parent of the child.
    fn reduce_parent<'a>(
        &self,
        array: ArrayView<'_, V>,
        parent: <Self::Parent as Matcher>::Match<'a>,
        child_idx: usize,
    ) -> (r: Reduced)
        requires
            array.wf(),
            array.array_spec().wf(),
            exists|p: ParentRef<'a>|
                p.wf() && p.children_wf() && #[trigger] <Self::Parent as Matcher>::yields(
                    p,
                    parent,
                ),
        ensures
            forall|p: ParentRef<'a>|
                p.wf() && p.children_wf() && #[trigger] <Self::Parent as Matcher>::yields(
                    p,
                    parent,
                ) ==> self.allows(array.array_spec(), p, child_idx, r),
            r matches Ok(Some(reduced)) ==> reduced.wf(),
    ;

    /// Tries to rewrite the parent of the child, which may not be allocated yet.
    ///
    /// A rule that has no use for a parent without a match of it hands the work to
    /// [`reduce_matched_parent`].
    fn reduce_parent_ref(
        &self,
        array: ArrayView<'_, V>,
        parent: &ParentRef<'_>,
        child_idx: usize,
    ) -> (r: Reduced)
        requires
            array.wf(),
            array.array_spec().wf(),
            parent.wf(),
            parent.children_wf(),
        ensures
            self.allows(array.array_spec(), *parent, child_idx, r),
            r matches Ok(Some(reduced)) ==> reduced.wf(),
    ;
}

/// Hands a rule the match that its matcher makes of the parent; declines if there is none.
pub fn reduce_matched_parent<V: VTable, R: ArrayParentReduceRule<V>>(
    rule: &R,
    array: ArrayView<'_, V>,
    parent: &ParentRef<'_>,
    child_idx: usize,
) -> (r: Reduced)
    requires
        array.wf(),
        array.array_spec().wf(),
        parent.wf(),
        parent.children_wf(),
    ensures
        if <R::Parent as Matcher>::extracts(*parent) {
            rule.allows(array.array_spec(), *parent, child_idx, r)
        } else {
            r == declined()
        },
        r matches Ok(Some(reduced)) ==> reduced.wf(),
{
    match <R::Parent as Matcher>::try_match_parent(parent) {
        Some(matched) => rule.reduce_parent(array, matched, child_idx),
        None => Ok(None),
    }
}

/// A parent rule with its type erased.
pub trait DynArrayParentReduceRule<V: VTable>: Send + Sync {
    /// Whether the rule wants to see the parent.
    spec fn accepts(&self, parent: ParentRef<'_>) -> bool;

    /// Which outcomes the rule may have on a child in slot `child_idx` of a parent.
    spec fn permits(
        &self,
        array: ArrayRef,
        parent: ParentRef<'_>,
        child_idx: usize,
        r: Reduced,
    ) -> bool;

    /// Whether the rule wants to see the parent.
    fn matches(&self, parent: &ParentRef<'_>) -> (b: bool)
        requires
            parent.wf(),
        ensures
            b == self.accepts(*parent),
    ;

    /// Tries to rewrite the parent of the child.
    fn reduce_parent(
        &self,
        array: ArrayView<'_, V>,
        parent: &ParentRef<'_>,
        child_idx: usize,
    ) -> (r: Reduced)
        requires
            array.wf(),
            array.array_spec().wf(),
            parent.wf(),
            parent.children_wf(),
        ensures
            self.permits(array.array_spec(), *parent, child_idx, r),
            r matches Ok(Some(reduced)) ==> reduced.wf(),
    ;
}

/// Erases the type of a parent rule. Made by [`ParentRuleSet::lift`].
#[verifier::reject_recursive_types(V)]
pub struct ParentReduceRuleAdapter<V, R> {
    rule: R,
    phantom: PhantomData<V>,
}

impl<V: VTable, R: ArrayParentReduceRule<V>> ParentReduceRuleAdapter<V, R> {
    /// The rule whose type is erased.
    pub closed spec fn rule_spec(self) -> R {
        self.rule
    }
}

impl<
    V: VTable + Send + Sync,
    R: ArrayParentReduceRule<V>,
> DynArrayParentReduceRule<V> for ParentReduceRuleAdapter<V, R> {
    open spec fn accepts(&self, parent: ParentRef<'_>) -> bool {
        <R::Parent as Matcher>::accepts(parent)
    }

    open spec fn permits(
        &self,
        array: ArrayRef,
        parent: ParentRef<'_>,
        child_idx: usize,
        r: Reduced,
    ) -> bool {
        self.rule_spec().allows(array, parent, child_idx, r)
    }

    fn matches(&self, parent: &ParentRef<'_>) -> (b: bool) {
        <R::Parent as Matcher>::matches_parent(parent)
    }

    fn reduce_parent(
        &self,
        array: ArrayView<'_, V>,
        parent: &ParentRef<'_>,
        child_idx: usize,
    ) -> (r: Reduced) {
        self.rule.reduce_parent_ref(array, parent, child_idx)
    }
}

/// A parent rule held without its type.
#[verifier::reject_recursive_types(V)]
pub struct LiftedRule<V: VTable> {
    rule: Box<dyn DynArrayParentReduceRule<V>>,
}

impl<V: VTable> LiftedRule<V> {
    /// Whether the rule wants to see the parent.
    pub closed spec fn accepts(self, parent: ParentRef<'_>) -> bool {
        self.rule.accepts(parent)
    }

    /// Which outcomes the rule may have on a child in slot `child_idx` of a parent.
    pub closed spec fn permits(
        self,
        array: ArrayRef,
        parent: ParentRef<'_>,
        child_idx: usize,
        r: Reduced,
    ) -> bool {
        self.rule.permits(array, parent, child_idx, r)
    }
}

/// A replacement as it is handed on: with `checked`, one of another length or type is refused.
pub open spec fn vetted(parent: ParentRef<'_>, reduced: ArrayRef, checked: bool) -> Reduced {
    if checked && reduced.len_spec() != parent.len_spec() {
        Err(
            VortexError::ReducedLengthMismatch {
                from: parent.encoding_id_spec(),
                to: reduced.id_spec(),
            },
        )
    } else if checked && !reduced.dtype_spec().same(parent.dtype_spec()) {
        Err(
            VortexError::ReducedDTypeMismatch {
                from: parent.encoding_id_spec(),
                to: reduced.id_spec(),
            },
        )
    } else {
        Ok(Some(reduced))
    }
}

/// What becomes of the outcome of one rule.
pub open spec fn vetted_outcome(parent: ParentRef<'_>, outcome: Reduced, checked: bool) -> Reduced {
    match outcome {
        Ok(Some(reduced)) => vetted(parent, reduced, checked),
        other => other,
    }
}

/// The outcomes of trying parent rules in order: rules that do not want to see the parent are
/// passed over, and the first that does not decline decides.
pub open spec fn parent_outcome<V: VTable>(
    rules: Seq<LiftedRule<V>>,
    child: ArrayRef,
    parent: ParentRef<'_>,
    child_idx: usize,
    checked: bool,
    r: Reduced,
) -> bool
    decreases rules.len(),
{
    if rules.len() == 0 {
        r == declined()
    } else if !rules[0].accepts(parent) {
        parent_outcome(rules.drop_first(), child, parent, child_idx, checked, r)
    } else {
        ||| exists|outcome: Reduced| #[trigger]
            rules[0].permits(child, parent, child_idx, outcome) && outcome != declined() && r
                == vetted_outcome(parent, outcome, checked)
        ||| rules[0].permits(child, parent, child_idx, declined()) && parent_outcome(
            rules.drop_first(),
            child,
            parent,
            child_idx,
            checked,
            r,
        )
    }
}

/// A replacement that the rules give is one that some rule gives which wants to see the parent.
pub proof fn lemma_replacement_has_rule<V: VTable>(
    rules: Seq<LiftedRule<V>>,
    child: ArrayRef,
    parent: ParentRef<'_>,
    child_idx: usize,
    checked: bool,
    reduced: ArrayRef,
)
    requires
        parent_outcome(rules, child, parent, child_idx, checked, Ok(Some(reduced))),
    ensures
        exists|k: int|
            0 <= k < rules.len() && rules[k].accepts(parent) && #[trigger] rules[k].permits(
                child,
                parent,
                child_idx,
                Ok(Some(reduced)),
            ),
    decreases rules.len(),
{
    if rules.len() > 0 {
        let rest = rules.drop_first();
        if rules[0].accepts(parent) && exists|outcome: Reduced| #[trigger]
            rules[0].permits(child, parent, child_idx, outcome) && outcome != declined()
                && vetted_outcome(parent, outcome, checked) == Ok::<Option<ArrayRef>, VortexError>(
                Some(reduced),
            ) {
            assert(rules[0].permits(child, parent, child_idx, Ok(Some(reduced))));
        } else {
            lemma_replacement_has_rule(rest, child, parent, child_idx, checked, reduced);
            let k = choose|k: int|
                0 <= k < rest.len() && rest[k].accepts(parent) && #[trigger] rest[k].permits(
                    child,
                    parent,
                    child_idx,
                    Ok(Some(reduced)),
                );
            assert(rules[k + 1] == rest[k]);
            assert(rules[k + 1].permits(child, parent, child_idx, Ok(Some(reduced))));
        }
    }
}

/// A checked replacement has the length and the type of the parent that it replaces.
pub proof fn lemma_checked_replacement<V: VTable>(
    rules: Seq<LiftedRule<V>>,
    child: ArrayRef,
    parent: ParentRef<'_>,
    child_idx: usize,
    reduced: ArrayRef,
)
    requires
        parent_outcome(rules, child, parent, child_idx, true, Ok(Some(reduced))),
    ensures
        reduced.len_spec() == parent.len_spec(),
        reduced.dtype_spec().same(parent.dtype_spec()),
    decreases rules.len(),
{
    if rules.len() > 0 {
        if rules[0].accepts(parent) && exists|outcome: Reduced| #[trigger]
            rules[0].permits(child, parent, child_idx, outcome) && outcome != declined()
                && vetted_outcome(parent, outcome, true) == Ok::<Option<ArrayRef>, VortexError>(
                Some(reduced),
            ) {
        } else {
            lemma_checked_replacement(rules.drop_first(), child, parent, child_idx, reduced);
        }
    }
}

/// What becomes of what a rule gives. That it does not apply and its errors are handed on. So is a
/// replacement, unless it is checked and found to be of another length or, being of the same
/// length, of another type; then an error names the two encodings.
pub proof fn lemma_vetting(parent: ParentRef<'_>, outcome: Reduced, reduced: ArrayRef, e: VortexError)
    ensures
        vetted_outcome(parent, Ok(None), true) == Ok::<Option<ArrayRef>, VortexError>(None),
        vetted_outcome(parent, Ok(None), false) == Ok::<Option<ArrayRef>, VortexError>(None),
        vetted_outcome(parent, Err(e), true) == Err::<Option<ArrayRef>, VortexError>(e),
        vetted_outcome(parent, outcome, false) == outcome,
        reduced.len_spec() == parent.len_spec() && reduced.dtype_spec().same(parent.dtype_spec())
            ==> vetted_outcome(parent, Ok(Some(reduced)), true) == Ok::<
            Option<ArrayRef>,
            VortexError,
        >(Some(reduced)),
        reduced.len_spec() != parent.len_spec() ==> vetted_outcome(
            parent,
            Ok(Some(reduced)),
            true,
        ) == Err::<Option<ArrayRef>, VortexError>(
            VortexError::ReducedLengthMismatch {
                from: parent.encoding_id_spec(),
                to: reduced.id_spec(),
            },
        ),
        reduced.len_spec() == parent.len_spec() && !reduced.dtype_spec().same(parent.dtype_spec())
            ==> vetted_outcome(parent, Ok(Some(reduced)), true) == Err::<
            Option<ArrayRef>,
            VortexError,
        >(
            VortexError::ReducedDTypeMismatch {
                from: parent.encoding_id_spec(),
                to: reduced.id_spec(),
            },
        ),
{
}

/// If every parent rule before rule `k` does not want to see the parent or can only decline, and
/// rule `k` wants to see it and cannot decline, then what rule `k` gives decides: an error or a
/// replacement that is not checked is handed on, and one that is checked is handed on if its length
/// and type are those of the parent.
pub proof fn lemma_first_parent_rule_decides<V: VTable>(
    rules: Seq<LiftedRule<V>>,
    child: ArrayRef,
    parent: ParentRef<'_>,
    child_idx: usize,
    checked: bool,
    k: int,
    r: Reduced,
)
    requires
        parent_outcome(rules, child, parent, child_idx, checked, r),
        0 <= k < rules.len(),
        forall|j: int, out: Reduced|
            0 <= j < k && rules[j].accepts(parent) && #[trigger] rules[j].permits(
                child,
                parent,
                child_idx,
                out,
            ) ==> out == Ok::<Option<ArrayRef>, VortexError>(None),
        rules[k].accepts(parent),
        !rules[k].permits(child, parent, child_idx, Ok(None)),
    ensures
        exists|out: Reduced|
            {
                &&& #[trigger] rules[k].permits(child, parent, child_idx, out)
                &&& match out {
                    Ok(Some(reduced)) => if !checked || (reduced.len_spec() == parent.len_spec()
                        && reduced.dtype_spec().same(parent.dtype_spec())) {
                        r == out
                    } else {
                        r is Err
                    },
                    Ok(None) => false,
                    Err(e) => r == out,
                }
            },
    decreases rules.len(),
{
    let rest = rules.drop_first();
    if k > 0 {
        assert(rest[k - 1] == rules[k]);
        if rules[0].accepts(parent) && exists|outcome: Reduced| #[trigger]
            rules[0].permits(child, parent, child_idx, outcome) && outcome != declined() && r
                == vetted_outcome(parent, outcome, checked) {
            let outcome = choose|outcome: Reduced| #[trigger]
                rules[0].permits(child, parent, child_idx, outcome) && outcome != declined() && r
                    == vetted_outcome(parent, outcome, checked);
            assert(false);
        }
        assert forall|j: int, out: Reduced|
            0 <= j < k - 1 && rest[j].accepts(parent) && #[trigger] rest[j].permits(
                child,
                parent,
                child_idx,
                out,
            ) implies out == Ok::<Option<ArrayRef>, VortexError>(None) by {
            assert(rules[j + 1].permits(child, parent, child_idx, out));
        }
        lemma_first_parent_rule_decides(rest, child, parent, child_idx, checked, k - 1, r);
    } else {
        let out = choose|outcome: Reduced| #[trigger]
            rules[0].permits(child, parent, child_idx, outcome) && outcome != declined() && r
                == vetted_outcome(parent, outcome, checked);
        assert(rules[k].permits(child, parent, child_idx, out));
    }
}

/// If the outcome is that nothing applies, every parent rule that wants to see the parent may have
/// declined.
pub proof fn lemma_every_parent_rule_declines<V: VTable>(
    rules: Seq<LiftedRule<V>>,
    child: ArrayRef,
    parent: ParentRef<'_>,
    child_idx: usize,
    checked: bool,
    k: int,
)
    requires
        parent_outcome(rules, child, parent, child_idx, checked, Ok(None)),
        0 <= k < rules.len(),
        rules[k].accepts(parent),
    ensures
        rules[k].permits(child, parent, child_idx, Ok(None)),
    decreases rules.len(),
{
    let rest = rules.drop_first();
    if k > 0 {
        assert(rest[k - 1] == rules[k]);
        lemma_every_parent_rule_declines(rest, child, parent, child_idx, checked, k - 1);
    }
}

/// Any other outcome comes from a rule that wants to see the parent, and every rule before it that
/// wants to see the parent may have declined.
pub proof fn lemma_outcome_has_parent_rule<V: VTable>(
    rules: Seq<LiftedRule<V>>,
    child: ArrayRef,
    parent: ParentRef<'_>,
    child_idx: usize,
    checked: bool,
    r: Reduced,
)
    requires
        parent_outcome(rules, child, parent, child_idx, checked, r),
        r != Ok::<Option<ArrayRef>, VortexError>(None),
    ensures
        exists|k: int, out: Reduced|
            {
                &&& 0 <= k < rules.len()
                &&& rules[k].accepts(parent)
                &&& #[trigger] rules[k].permits(child, parent, child_idx, out)
                &&& out matches Ok(Some(reduced)) ==> r == out || checked
                &&& !(out matches Ok(Some(_))) ==> r == out
                &&& forall|j: int|
                    0 <= j < k && #[trigger] rules[j].accepts(parent) ==> rules[j].permits(
                        child,
                        parent,
                        child_idx,
                        Ok(None),
                    )
            },
    decreases rules.len(),
{
    if rules.len() > 0 {
        let rest = rules.drop_first();
        if rules[0].accepts(parent) && exists|outcome: Reduced| #[trigger]
            rules[0].permits(child, parent, child_idx, outcome) && outcome != declined() && r
                == vetted_outcome(parent, outcome, checked) {
            let out = choose|outcome: Reduced| #[trigger]
                rules[0].permits(child, parent, child_idx, outcome) && outcome != declined() && r
                    == vetted_outcome(parent, outcome, checked);
            assert(rules[0].permits(child, parent, child_idx, out));
        } else {
            lemma_outcome_has_parent_rule(rest, child, parent, child_idx, checked, r);
            let (k, out) = choose|k: int, out: Reduced|
                {
                    &&& 0 <= k < rest.len()
                    &&& rest[k].accepts(parent)
                    &&& #[trigger] rest[k].permits(child, parent, child_idx, out)
                    &&& out matches Ok(Some(reduced)) ==> r == out || checked
                    &&& !(out matches Ok(Some(_))) ==> r == out
                    &&& forall|j: int|
                        0 <= j < k && #[trigger] rest[j].accepts(parent) ==> rest[j].permits(
                            child,
                            parent,
                            child_idx,
                            Ok(None),
                        )
                };
            assert(rules[k + 1] == rest[k]);
            assert forall|j: int|
                0 <= j < k + 1 && #[trigger] rules[j].accepts(parent) implies rules[j].permits(
                child,
                parent,
                child_idx,
                Ok(None),
            ) by {
                if j > 0 {
                    assert(rest[j - 1].accepts(parent));
                }
            }
            assert(rules[k + 1].permits(child, parent, child_idx, out));
        }
    }
}

/// The rules by which children of one encoding rewrite their parents.
#[verifier::reject_recursive_types(V)]
pub struct ParentRuleSet<V: VTable> {
    rules: Vec<LiftedRule<V>>,
}

impl<V: VTable + Send + Sync> ParentRuleSet<V> {
    /// The rules, in the order in which they are tried.
    pub closed spec fn rules_spec(self) -> Seq<LiftedRule<V>> {
        self.rules@
    }

    /// Collects rules, each lifted by [`ParentRuleSet::lift`].
    pub fn new(rules: Vec<LiftedRule<V>>) -> (r: Self)
        ensures
            r.rules_spec() == rules@,
    {
        ParentRuleSet { rules }
    }

    /// Erases the type of a rule.
    pub fn lift<R: ArrayParentReduceRule<V>>(rule: R) -> (r: LiftedRule<V>)
        ensures
            forall|parent: ParentRef<'_>|
                #[trigger] r.accepts(parent) == <R::Parent as Matcher>::accepts(parent),
            forall|array: ArrayRef, parent: ParentRef<'_>, child_idx: usize, out: Reduced|
                #[trigger] r.permits(array, parent, child_idx, out) == rule.allows(
                    array,
                    parent,
                    child_idx,
                    out,
                ),
    {
        let adapter = ParentReduceRuleAdapter { rule, phantom: PhantomData };
        let ghost erased = adapter;
        let r = LiftedRule { rule: Box::new(adapter) };
        assert forall|parent: ParentRef<'_>|
            #[trigger] r.accepts(parent) == <R::Parent as Matcher>::accepts(parent) by {
            assert(r.rule.accepts(parent) == erased.accepts(parent));
        }
        assert forall|array: ArrayRef, parent: ParentRef<'_>, child_idx: usize, out: Reduced|
            #[trigger] r.permits(array, parent, child_idx, out) == rule.allows(
                array,
                parent,
                child_idx,
                out,
            ) by {
            assert(r.rule.permits(array, parent, child_idx, out) == erased.permits(
                array,
                parent,
                child_idx,
                out,
            ));
        }
        r
    }

    /// Tries the rules in order on a child in slot `child_idx` of a parent; the first that
    /// rewrites the parent wins.
    ///
    /// With `checked`, a replacement of another length or type than the parent is an error.
    pub fn evaluate(
        &self,
        child: ArrayView<'_, V>,
        parent: &ParentRef<'_>,
        child_idx: usize,
        checked: bool,
    ) -> (r: Reduced)
        requires
            child.wf(),
            child.array_spec().wf(),
            parent.wf(),
            parent.children_wf(),
        ensures
            parent_outcome(
                self.rules_spec(),
                child.array_spec(),
                *parent,
                child_idx,
                checked,
                r,
            ),
            r matches Ok(Some(reduced)) ==> reduced.wf(),
    {
        let ghost all = self.rules@;
        let ghost target = child.array_spec();
        let mut i: usize = 0;
        assert(all.skip(0) =~= all);
        while i < self.rules.len()
            invariant
                child.wf(),
                child.array_spec().wf(),
                parent.wf(),
                parent.children_wf(),
                all == self.rules@,
                target == child.array_spec(),
                i <= all.len(),
                forall|r: Reduced|
                    parent_outcome(all.skip(i as int), target, *parent, child_idx, checked, r)
                        ==> #[trigger] parent_outcome(all, target, *parent, child_idx, checked, r),
            decreases all.len() - i,
        {
            assert(all.skip(i as int)[0] == all[i as int]);
            assert(all.skip(i as int).drop_first() =~= all.skip(i + 1));
            if self.rules[i].rule.matches(parent) {
                let outcome = self.rules[i].rule.reduce_parent(child, parent, child_idx);
                assert(all[i as int].permits(target, *parent, child_idx, outcome));
                match outcome {
                    Ok(Some(reduced)) => {
                        if checked && reduced.len() != parent.len() {
                            return Err(
                                VortexError::ReducedLengthMismatch {
                                    from: parent.encoding_id(),
                                    to: reduced.encoding_id(),
                                },
                            );
                        }
                        if checked && !reduced.dtype().equals(parent.dtype()) {
                            return Err(
                                VortexError::ReducedDTypeMismatch {
                                    from: parent.encoding_id(),
                                    to: reduced.encoding_id(),
                                },
                            );
                        }
                        return Ok(Some(reduced));
                    },
                    Ok(None) => {},
                    Err(e) => {
                        return Err(e);
                    },
                }
            }
            i = i + 1;
        }
        Ok(None)
    }
}

} // verus!
