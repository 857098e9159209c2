//! Parent rewrites that a session adds to the ones that encodings bring along.

use vstd::prelude::*;

use super::rules::{declined, Reduced};
use crate::array::parent::ParentRef;
use crate::array::{ArrayId, ArrayRef};
use crate::error::VortexError;

verus! {

/// A parent rewrite that is registered at run time.
pub trait ReduceParentPlugin: Send + Sync + 'static {
    /// Which outcomes the plugin may have on a child in slot `slot_idx` of a parent.
    spec fn allows(
        &self,
        child: ArrayRef,
        parent: ParentRef<'_>,
        slot_idx: usize,
        r: Reduced,
    ) -> bool;

    /// Tries to rewrite the parent of the child.
    fn reduce(&self, child: &ArrayRef, parent: &ParentRef<'_>, slot_idx: usize) -> (r: Reduced)
        requires
            child.wf(),
            parent.wf(),
            parent.children_wf(),
        ensures
            self.allows(*child, *parent, slot_idx, r),
            r matches Ok(Some(reduced)) ==> reduced.wf(),
    ;
}

/// A plugin whose type is about to be erased.
struct HeldPlugin<P> {
    plugin: P,
}

impl<P: ReduceParentPlugin> ReduceParentPlugin for HeldPlugin<P> {
    closed spec fn allows(
        &self,
        child: ArrayRef,
        parent: ParentRef<'_>,
        slot_idx: usize,
        r: Reduced,
    ) -> bool {
        self.plugin.allows(child, parent, slot_idx, r)
    }

    fn reduce(&self, child: &ArrayRef, parent: &ParentRef<'_>, slot_idx: usize) -> (r: Reduced) {
        self.plugin.reduce(child, parent, slot_idx)
    }
}

/// A plugin and the pair of encodings that it is for.
pub struct KernelEntry {
    parent: ArrayId,
    child: ArrayId,
    plugin: Box<dyn ReduceParentPlugin>,
}

impl KernelEntry {
    /// Whether the plugin is for this pair of encodings.
    pub closed spec fn is_for(self, parent: ArrayId, child: ArrayId) -> bool {
        self.parent == parent && self.child == child
    }

    /// A plugin for children of one encoding in parents of another.
    pub fn new<P: ReduceParentPlugin>(parent: ArrayId, child: ArrayId, plugin: P) -> (r: KernelEntry)
        ensures
            forall|p: ArrayId, c: ArrayId| #[trigger]
                r.is_for(p, c) == (p == parent && c == child),
            forall|a: ArrayRef, p: ParentRef<'_>, k: usize, out: Reduced| #[trigger]
                r.permits(a, p, k, out) == plugin.allows(a, p, k, out),
    {
        let held = HeldPlugin { plugin };
        let ghost erased = held;
        let r = KernelEntry { parent, child, plugin: Box::new(held) };
        assert forall|a: ArrayRef, p: ParentRef<'_>, k: usize, out: Reduced| #[trigger]
            r.permits(a, p, k, out) == plugin.allows(a, p, k, out) by {
            assert(r.plugin.allows(a, p, k, out) == erased.allows(a, p, k, out));
        }
        r
    }

    /// Which outcomes the plugin may have.
    pub closed spec fn permits(
        self,
        child: ArrayRef,
        parent: ParentRef<'_>,
        slot_idx: usize,
        r: Reduced,
    ) -> bool {
        self.plugin.allows(child, parent, slot_idx, r)
    }
}

/// The outcomes of trying plugins in order: those for other encodings are passed over, and the
/// first that does not decline decides.
pub open spec fn kernel_outcome(
    entries: Seq<KernelEntry>,
    child: ArrayRef,
    parent: ParentRef<'_>,
    slot_idx: usize,
    r: Reduced,
) -> bool
    decreases entries.len(),
{
    if entries.len() == 0 {
        r == declined()
    } else if !entries[0].is_for(parent.encoding_id_spec(), child.id_spec()) {
        kernel_outcome(entries.drop_first(), child, parent, slot_idx, r)
    } else {
        ||| entries[0].permits(child, parent, slot_idx, r) && r != declined()
        ||| entries[0].permits(child, parent, slot_idx, declined()) && kernel_outcome(
            entries.drop_first(),
            child,
            parent,
            slot_idx,
            r,
        )
    }
}

/// If every plugin before plugin `k` is for other encodings or can only decline, and plugin `k` is
/// for the encodings at hand and cannot decline, then plugin `k` decides. And if the outcome is that
/// nothing applies, every plugin for these encodings may have declined.
pub proof fn lemma_first_plugin_decides(
    entries: Seq<KernelEntry>,
    child: ArrayRef,
    parent: ParentRef<'_>,
    slot_idx: usize,
    k: int,
    r: Reduced,
)
    requires
        kernel_outcome(entries, child, parent, slot_idx, r),
        0 <= k < entries.len(),
        entries[k].is_for(parent.encoding_id_spec(), child.id_spec()),
    ensures
        (forall|j: int, out: Reduced|
            0 <= j < k && entries[j].is_for(parent.encoding_id_spec(), child.id_spec())
                && #[trigger] entries[j].permits(child, parent, slot_idx, out) ==> out == Ok::<
                Option<ArrayRef>,
                VortexError,
            >(None)) && !entries[k].permits(child, parent, slot_idx, Ok(None))
            ==> entries[k].permits(child, parent, slot_idx, r),
        r == Ok::<Option<ArrayRef>, VortexError>(None) ==> entries[k].permits(
            child,
            parent,
            slot_idx,
            Ok(None),
        ),
    decreases entries.len(),
{
    let rest = entries.drop_first();
    if k > 0 {
        assert(rest[k - 1] == entries[k]);
        if kernel_outcome(rest, child, parent, slot_idx, r) {
            lemma_first_plugin_decides(rest, child, parent, slot_idx, k - 1, r);
            if forall|j: int, out: Reduced|
                0 <= j < k && entries[j].is_for(parent.encoding_id_spec(), child.id_spec())
                    && #[trigger] entries[j].permits(child, parent, slot_idx, out) ==> out == Ok::<
                    Option<ArrayRef>,
                    VortexError,
                >(None) {
                assert forall|j: int, out: Reduced|
                    0 <= j < k - 1 && rest[j].is_for(parent.encoding_id_spec(), child.id_spec())
                        && #[trigger] rest[j].permits(child, parent, slot_idx, out) implies out
                    == Ok::<Option<ArrayRef>, VortexError>(None) by {
                    assert(entries[j + 1].permits(child, parent, slot_idx, out));
                }
            }
        }
    }
}

/// Any other outcome is one that a plugin for these encodings has, and every such plugin before it
/// may have declined.
pub proof fn lemma_outcome_has_plugin(
    entries: Seq<KernelEntry>,
    child: ArrayRef,
    parent: ParentRef<'_>,
    slot_idx: usize,
    r: Reduced,
)
    requires
        kernel_outcome(entries, child, parent, slot_idx, r),
        r != Ok::<Option<ArrayRef>, VortexError>(None),
    ensures
        exists|k: int|
            {
                &&& 0 <= k < entries.len()
                &&& entries[k].is_for(parent.encoding_id_spec(), child.id_spec())
                &&& #[trigger] entries[k].permits(child, parent, slot_idx, r)
                &&& forall|j: int|
                    0 <= j < k && #[trigger] entries[j].is_for(
                        parent.encoding_id_spec(),
                        child.id_spec(),
                    ) ==> entries[j].permits(child, parent, slot_idx, Ok(None))
            },
    decreases entries.len(),
{
    if entries.len() > 0 {
        let rest = entries.drop_first();
        if entries[0].is_for(parent.encoding_id_spec(), child.id_spec()) && entries[0].permits(
            child,
            parent,
            slot_idx,
            r,
        ) {
        } else {
            lemma_outcome_has_plugin(rest, child, parent, slot_idx, r);
            let k = choose|k: int|
                {
                    &&& 0 <= k < rest.len()
                    &&& rest[k].is_for(parent.encoding_id_spec(), child.id_spec())
                    &&& #[trigger] rest[k].permits(child, parent, slot_idx, r)
                    &&& forall|j: int|
                        0 <= j < k && #[trigger] rest[j].is_for(
                            parent.encoding_id_spec(),
                            child.id_spec(),
                        ) ==> rest[j].permits(child, parent, slot_idx, Ok(None))
                };
            assert(entries[k + 1] == rest[k]);
            assert forall|j: int|
                0 <= j < k + 1 && #[trigger] entries[j].is_for(
                    parent.encoding_id_spec(),
                    child.id_spec(),
                ) implies entries[j].permits(child, parent, slot_idx, Ok(None)) by {
                if j > 0 {
                    assert(rest[j - 1].is_for(parent.encoding_id_spec(), child.id_spec()));
                }
            }
            assert(entries[k + 1].permits(child, parent, slot_idx, r));
        }
    }
}

/// The plugins of a session.
pub struct ArrayKernels {
    entries: Vec<KernelEntry>,
}

impl ArrayKernels {
    /// The plugins, in the order in which they are tried.
    pub closed spec fn entries_spec(self) -> Seq<KernelEntry> {
        self.entries@
    }

    /// No plugins.
    pub fn new() -> (r: ArrayKernels)
        ensures
            r.entries_spec() == Seq::<KernelEntry>::empty(),
    {
        ArrayKernels { entries: Vec::new() }
    }

    /// Adds a plugin for children of one encoding in parents of another, behind those that are
    /// there.
    pub fn register_reduce_parent<P: ReduceParentPlugin>(
        &mut self,
        parent: ArrayId,
        child: ArrayId,
        plugin: P,
    )
        ensures
            final(self).entries_spec().len() == old(self).entries_spec().len() + 1,
            final(self).entries_spec().drop_last() == old(self).entries_spec(),
            forall|p: ArrayId, c: ArrayId| #[trigger]
                final(self).entries_spec().last().is_for(p, c) == (p == parent && c == child),
            forall|a: ArrayRef, p: ParentRef<'_>, k: usize, r: Reduced| #[trigger]
                final(self).entries_spec().last().permits(a, p, k, r) == plugin.allows(a, p, k, r),
    {
        let entry = KernelEntry::new(parent, child, plugin);
        self.entries.push(entry);
        assert(self.entries@.drop_last() =~= old(self).entries@);
        assert(self.entries@.last() == entry);
    }

    /// Tries the plugins for the encodings of parent and child in order; the first that rewrites
    /// the parent wins.
    pub fn reduce_parent(
        &self,
        child: &ArrayRef,
        parent: &ParentRef<'_>,
        slot_idx: usize,
    ) -> (r: Reduced)
        requires
            child.wf(),
            parent.wf(),
            parent.children_wf(),
        ensures
            kernel_outcome(self.entries_spec(), *child, *parent, slot_idx, r),
            r matches Ok(Some(reduced)) ==> reduced.wf(),
    {
        let ghost all = self.entries@;
        let mut i: usize = 0;
        assert(all.skip(0) =~= all);
        while i < self.entries.len()
            invariant
                child.wf(),
                parent.wf(),
                parent.children_wf(),
                all == self.entries@,
                i <= all.len(),
                forall|r: Reduced|
                    kernel_outcome(all.skip(i as int), *child, *parent, slot_idx, r)
                        ==> #[trigger] kernel_outcome(all, *child, *parent, slot_idx, r),
            decreases all.len() - i,
        {
            assert(all.skip(i as int)[0] == all[i as int]);
            assert(all.skip(i as int).drop_first() =~= all.skip(i + 1));
            if self.entries[i].parent == parent.encoding_id() && self.entries[i].child
                == child.encoding_id() {
                let outcome = self.entries[i].plugin.reduce(child, parent, slot_idx);
                assert(all[i as int].permits(*child, *parent, slot_idx, outcome));
                match outcome {
                    Ok(None) => {},
                    decided => {
                        return decided;
                    },
                }
            }
            i = i + 1;
        }
        Ok(None)
    }
}

/// What is registered for the run of a program.
pub struct VortexSession {
    kernels: Option<ArrayKernels>,
}

/// The plugins of a session, if there is one and it has any.
pub open spec fn session_entries(session: Option<&VortexSession>) -> Seq<KernelEntry> {
    match session {
        Some(session) => session.entries_spec(),
        None => Seq::empty(),
    }
}

impl VortexSession {
    /// The plugins of the session.
    pub closed spec fn entries_spec(self) -> Seq<KernelEntry> {
        match self.kernels {
            Some(kernels) => kernels.entries_spec(),
            None => Seq::empty(),
        }
    }

    /// A session with nothing registered.
    pub fn empty() -> (r: VortexSession)
        ensures
            r.entries_spec() == Seq::<KernelEntry>::empty(),
    {
        VortexSession { kernels: None }
    }

    /// A session with plugins.
    pub fn with_kernels(kernels: ArrayKernels) -> (r: VortexSession)
        ensures
            r.entries_spec() == kernels.entries_spec(),
    {
        VortexSession { kernels: Some(kernels) }
    }

    /// The plugins of the session, if any have been set.
    pub fn kernels(&self) -> (r: Option<&ArrayKernels>)
        ensures
            match r {
                Some(kernels) => self.entries_spec() == kernels.entries_spec(),
                None => self.entries_spec() == Seq::<KernelEntry>::empty(),
            },
    {
        match &self.kernels {
            Some(kernels) => Some(kernels),
            None => None,
        }
    }
}

/// What an execution can draw on.
pub struct ExecutionCtx {
    session: VortexSession,
}

impl ExecutionCtx {
    /// The session of the execution.
    pub closed spec fn session_spec(self) -> VortexSession {
        self.session
    }

    /// An execution within a session.
    pub fn new(session: VortexSession) -> (r: ExecutionCtx)
        ensures
            r.session_spec() == session,
    {
        ExecutionCtx { session }
    }

    /// The session of the execution.
    pub fn session(&self) -> (r: &VortexSession)
        ensures
            *r == self.session_spec(),
    {
        &self.session
    }
}

} // verus!
