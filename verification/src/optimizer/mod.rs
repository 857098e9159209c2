//! Rewriting arrays by their structure alone.
//!
//! Each child of an array may rewrite it, by the plugins of a session first and by the rules of
//! the child's own encoding next. What a rewrite gives is rewritten in turn, until nothing applies
//! any more.

pub mod kernels;
pub mod laws;
pub mod rules;

use vstd::prelude::*;

use crate::array::parent::ParentRef;
use crate::array::vtable::{Constant, Dict};
use crate::array::{ArrayId, ArrayRef};
use crate::arrays::dict::take::{take_reduce_outcome, TakeReduceAdaptor};
use crate::error::{VortexError, VortexResult};
use kernels::{kernel_outcome, session_entries, KernelEntry, VortexSession};
use laws::lemma_optimize_succeeds;
use rules::{declined, vetted_outcome, ArrayParentReduceRule, LiftedRule, ParentRuleSet, Reduced};

verus! {

/// The outcomes of the rules that a child's encoding brings along: constants rewrite dictionaries
/// of which they are the values, and no other child rewrites its parent.
pub open spec fn static_outcome(
    child: ArrayRef,
    parent: ParentRef<'_>,
    slot_idx: usize,
    r: Reduced,
) -> bool {
    if child.id_spec() == ArrayId::Constant && parent.encoding_id_spec() == ArrayId::Dict
        && slot_idx == 1 {
        exists|outcome: Reduced| #[trigger]
            take_reduce_outcome::<Constant>(child, parent.slots_spec()[0]->0, outcome) && r
                == vetted_outcome(parent, outcome, true)
    } else {
        r == declined()
    }
}

impl ArrayRef {
    /// Tries to rewrite the parent, in whose slot `slot_idx` this array is, by the rules of this
    /// array's encoding.
    pub fn reduce_parent(&self, parent: &ParentRef<'_>, slot_idx: usize) -> (r: Reduced)
        requires
            self.wf(),
            parent.wf(),
            parent.children_wf(),
        ensures
            static_outcome(*self, *parent, slot_idx, r),
            r matches Ok(Some(reduced)) ==> reduced.wf(),
    {
        let child = match self.as_typed::<Constant>() {
            Some(child) => child,
            None => return Ok(None),
        };
        let adaptor = TakeReduceAdaptor(Constant);
        let rule = ParentRuleSet::<Constant>::lift(adaptor);
        let mut list: Vec<LiftedRule<Constant>> = Vec::new();
        list.push(rule);
        let rules = ParentRuleSet::<Constant>::new(list);
        let r = rules.evaluate(child, parent, slot_idx, true);
        proof {
            let all = rules.rules_spec();
            assert(all[0] == rule);
            assert(rule.accepts(*parent) == (parent.encoding_id_spec() == ArrayId::Dict));
            assert(rules::parent_outcome(all.drop_first(), *self, *parent, slot_idx, true, r) ==> r
                == declined());
            assert forall|outcome: Reduced| #[trigger]
                rule.permits(*self, *parent, slot_idx, outcome) implies adaptor.allows(
                *self,
                *parent,
                slot_idx,
                outcome,
            ) by {}
        }
        r
    }
}

/// The outcomes of trying the children from slot `k` on: the first that rewrites the parent, or
/// fails, decides.
pub open spec fn step_outcome(
    entries: Seq<KernelEntry>,
    parent: ParentRef<'_>,
    k: int,
    r: Reduced,
) -> bool
    decreases parent.slots_spec().len() - k,
{
    if k >= parent.slots_spec().len() {
        r == declined()
    } else {
        match parent.slots_spec()[k] {
            None => step_outcome(entries, parent, k + 1, r),
            Some(child) => {
                ||| kernel_outcome(entries, child, parent, k as usize, r) && r != declined()
                ||| {
                    &&& kernel_outcome(entries, child, parent, k as usize, declined())
                    &&& static_outcome(child, parent, k as usize, r)
                    &&& r != declined()
                }
                ||| {
                    &&& kernel_outcome(entries, child, parent, k as usize, declined())
                    &&& static_outcome(child, parent, k as usize, declined())
                    &&& step_outcome(entries, parent, k + 1, r)
                }
            },
        }
    }
}

/// The outcomes of rewriting an array until nothing applies any more, if that takes `n` rewrites.
pub open spec fn settled_after(
    entries: Seq<KernelEntry>,
    array: ArrayRef,
    n: nat,
    r: VortexResult<ArrayRef>,
) -> bool
    decreases n,
{
    exists|step: Reduced| #[trigger]
        step_outcome(entries, ParentRef::of(&array), 0, step) && match step {
            Err(e) => n == 0 && r == Err::<ArrayRef, VortexError>(e),
            Ok(None) => n == 0 && r == Ok::<ArrayRef, VortexError>(array),
            Ok(Some(next)) => n > 0 && settled_after(entries, next, (n - 1) as nat, r),
        }
}

/// The outcomes of rewriting an array until nothing applies any more.
pub open spec fn settled(
    entries: Seq<KernelEntry>,
    array: ArrayRef,
    r: VortexResult<ArrayRef>,
) -> bool {
    exists|n: nat| #[trigger] settled_after(entries, array, n, r)
}

/// An array can be rewritten `n` times in a row.
pub open spec fn rewritable(entries: Seq<KernelEntry>, array: ArrayRef, n: nat) -> bool
    decreases n,
{
    n == 0 || exists|next: ArrayRef| #[trigger]
        step_outcome(entries, ParentRef::of(&array), 0, Ok(Some(next))) && rewritable(
            entries,
            next,
            (n - 1) as nat,
        )
}

/// The outcomes of optimizing an array: it is rewritten until nothing applies any more. Rewriting
/// that does not come to an end is given up once the rewrites can no longer be counted.
pub open spec fn optimized(
    entries: Seq<KernelEntry>,
    array: ArrayRef,
    r: VortexResult<ArrayRef>,
) -> bool {
    ||| settled(entries, array, r)
    ||| {
        &&& r == Err::<ArrayRef, VortexError>(VortexError::OptimizerDiverged)
        &&& rewritable(entries, array, u64::MAX as nat + 1)
    }
}

/// What `optimized` gives, as the outcome of a rewrite.
pub open spec fn as_rewrite(r: VortexResult<ArrayRef>) -> Reduced {
    match r {
        Ok(array) => Ok(Some(array)),
        Err(e) => Err(e),
    }
}

/// The outcomes of optimizing a parent: if one of its children rewrites it, the replacement is
/// optimized in turn.
pub open spec fn optimize_outcome(
    entries: Seq<KernelEntry>,
    parent: ParentRef<'_>,
    r: Reduced,
) -> bool {
    exists|step: Reduced| #[trigger]
        step_outcome(entries, parent, 0, step) && match step {
            Ok(Some(next)) => exists|out: VortexResult<ArrayRef>| #[trigger]
                optimized(entries, next, out) && r == as_rewrite(out),
            other => r == other,
        }
}

/// The outcomes of optimizing a parent where rewriting comes to an end.
pub open spec fn settled_outcome(
    entries: Seq<KernelEntry>,
    parent: ParentRef<'_>,
    r: Reduced,
) -> bool {
    exists|step: Reduced| #[trigger]
        step_outcome(entries, parent, 0, step) && match step {
            Ok(Some(next)) => exists|out: VortexResult<ArrayRef>| #[trigger]
                settled(entries, next, out) && r == as_rewrite(out),
            other => r == other,
        }
}

impl<'a> ParentRef<'a> {
    /// Lets the children rewrite this parent, in the order of their slots; the first that does so
    /// wins. Plugins of the session come before the rules of the child's encoding.
    fn reduce_once(&self, session: Option<&VortexSession>) -> (r: Reduced)
        requires
            self.wf(),
            self.children_wf(),
        ensures
            step_outcome(session_entries(session), *self, 0, r),
            r matches Ok(Some(reduced)) ==> reduced.wf(),
    {
        let ghost entries = session_entries(session);
        let kernels = match session {
            Some(session) => session.kernels(),
            None => None,
        };
        let slots = self.slots();
        let mut k: usize = 0;
        while k < slots.len()
            invariant
                self.wf(),
                self.children_wf(),
                slots@ == self.slots_spec(),
                k <= slots@.len(),
                entries == session_entries(session),
                match kernels {
                    Some(kernels) => entries == kernels.entries_spec(),
                    None => entries == Seq::<KernelEntry>::empty(),
                },
                forall|r: Reduced|
                    step_outcome(entries, *self, k as int, r) ==> #[trigger] step_outcome(
                        entries,
                        *self,
                        0,
                        r,
                    ),
            decreases slots@.len() - k,
        {
            if let Some(child) = &slots[k] {
                assert(self.slots_spec()[k as int] == Some(*child));
                if let Some(kernels) = kernels {
                    let outcome = kernels.reduce_parent(child, self, k);
                    match outcome {
                        Ok(None) => {},
                        decided => {
                            return decided;
                        },
                    }
                }
                assert(kernel_outcome(entries, *child, *self, k, declined()));
                let outcome = child.reduce_parent(self, k);
                match outcome {
                    Ok(None) => {},
                    decided => {
                        return decided;
                    },
                }
            }
            k = k + 1;
        }
        Ok(None)
    }

    /// Tries to rewrite this parent by the rules of its children's encodings, and optimizes what
    /// that gives; `None` if no rule applies. This always comes to an end.
    pub fn optimize(&self) -> (r: Reduced)
        requires
            self.wf(),
            self.children_wf(),
        ensures
            optimize_outcome(Seq::empty(), *self, r),
            settled_outcome(Seq::empty(), *self, r),
            r matches Ok(Some(reduced)) ==> reduced.wf(),
    {
        self.optimize_inner(None)
    }

    /// Tries to rewrite this parent by the plugins of the session and by the rules of its
    /// children's encodings, and optimizes what that gives; `None` if nothing applies.
    ///
    /// Plugins that never stop rewriting are given up as in [`ArrayRef::optimize_ctx`].
    pub fn optimize_ctx(&self, session: &VortexSession) -> (r: Reduced)
        requires
            self.wf(),
            self.children_wf(),
        ensures
            optimize_outcome(session.entries_spec(), *self, r),
            r matches Ok(Some(reduced)) ==> reduced.wf(),
    {
        self.optimize_inner(Some(session))
    }

    fn optimize_inner(&self, session: Option<&VortexSession>) -> (r: Reduced)
        requires
            self.wf(),
            self.children_wf(),
        ensures
            optimize_outcome(session_entries(session), *self, r),
            session is None ==> settled_outcome(Seq::empty(), *self, r),
            r matches Ok(Some(reduced)) ==> reduced.wf(),
    {
        let step = self.reduce_once(session);
        let ghost taken = step;
        assert(step_outcome(session_entries(session), *self, 0, taken));
        match step {
            Ok(Some(reduced)) => {
                let out = cascade(reduced, session);
                assert(optimized(session_entries(session), reduced, out));
                match out {
                    Ok(array) => Ok(Some(array)),
                    Err(e) => Err(e),
                }
            },
            other => other,
        }
    }
}

/// Optimizes what a rewrite gave.
fn cascade(reduced: ArrayRef, session: Option<&VortexSession>) -> (r: VortexResult<ArrayRef>)
    requires
        reduced.wf(),
    ensures
        optimized(session_entries(session), reduced, r),
        session is None ==> settled(Seq::empty(), reduced, r),
        r matches Ok(array) ==> array.wf(),
{
    match session {
        Some(session) => reduced.optimize_ctx(session),
        None => reduced.optimize(),
    }
}

impl ArrayRef {
    /// Rewrites the array by the rules of its children's encodings until none applies any more.
    pub fn optimize(&self) -> (r: VortexResult<ArrayRef>)
        requires
            self.wf(),
        ensures
            settled(Seq::empty(), *self, r),
            r matches Ok(array) ==> array.wf(),
    {
        let r = self.optimize_rounds(None);
        proof {
            lemma_optimize_succeeds(self, r);
        }
        r
    }

    /// Rewrites the array by the plugins of the session and the rules of its children's encodings
    /// until nothing applies any more.
    ///
    /// Plugins can keep rewriting an array forever. The rewrites are counted in 64 bits, and when
    /// the counter is full, the answer is [`VortexError::OptimizerDiverged`]. Nothing that comes to
    /// an end within that many rewrites is affected.
    pub fn optimize_ctx(&self, session: &VortexSession) -> (r: VortexResult<ArrayRef>)
        requires
            self.wf(),
        ensures
            optimized(session.entries_spec(), *self, r),
            r matches Ok(array) ==> array.wf(),
    {
        self.optimize_rounds(Some(session))
    }

    fn optimize_rounds(&self, session: Option<&VortexSession>) -> (r: VortexResult<ArrayRef>)
        requires
            self.wf(),
        ensures
            optimized(session_entries(session), *self, r),
            r matches Ok(array) ==> array.wf(),
    {
        let ghost entries = session_entries(session);
        let mut current = self.clone();
        let mut rewrites: u64 = 0;
        loop
            invariant
                current.wf(),
                entries == session_entries(session),
                forall|n: nat, r: VortexResult<ArrayRef>| #[trigger]
                    settled_after(entries, current, n, r) ==> settled_after(
                        entries,
                        *self,
                        n + rewrites as nat,
                        r,
                    ),
                forall|n: nat| #[trigger]
                    rewritable(entries, current, n) ==> rewritable(
                        entries,
                        *self,
                        n + rewrites as nat,
                    ),
            decreases u64::MAX - rewrites,
        {
            proof {
                ParentRef::lemma_of(&current);
            }
            let step = ParentRef::from_array_ref(&current).reduce_once(session);
            let ghost taken = step;
            assert(step_outcome(entries, ParentRef::of(&current), 0, taken));
            match step {
                Err(e) => {
                    assert(settled_after(entries, current, 0, Err(e)));
                    assert(settled_after(entries, *self, rewrites as nat, Err(e)));
                    return Err(e);
                },
                Ok(None) => {
                    assert(settled_after(entries, current, 0, Ok(current)));
                    assert(settled_after(entries, *self, rewrites as nat, Ok(current)));
                    return Ok(current);
                },
                Ok(Some(next)) => {
                    if rewrites == u64::MAX {
                        assert(rewritable(entries, next, 0));
                        assert(rewritable(entries, current, 1));
                        return Err(VortexError::OptimizerDiverged);
                    }
                    proof {
                        assert forall|n: nat, r: VortexResult<ArrayRef>| #[trigger]
                            settled_after(entries, next, n, r) implies settled_after(
                            entries,
                            *self,
                            n + (rewrites + 1) as nat,
                            r,
                        ) by {
                            assert(settled_after(entries, current, n + 1, r));
                        }
                        assert forall|n: nat| #[trigger] rewritable(entries, next, n) implies
                            rewritable(entries, *self, n + (rewrites + 1) as nat) by {
                            assert(rewritable(entries, current, n + 1));
                        }
                    }
                    current = next;
                    rewrites = rewrites + 1;
                },
            }
        }
    }
}

} // verus!
