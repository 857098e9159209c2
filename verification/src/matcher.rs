//! Matchers: which parents a rule wants to see.

use vstd::prelude::*;

use crate::array::parent::ParentRef;
use crate::array::vtable::{ArrayView, VTable};
use crate::array::ArrayRef;

verus! {

/// Matches arrays by their encoding.
pub trait Matcher {
    /// What a successful match gives.
    type Match<'a>;

    /// Whether the parent matches.
    spec fn accepts(parent: ParentRef<'_>) -> bool;

    /// Whether a match of the parent can be made; a matcher may accept a parent that is still
    /// under construction without being able to.
    spec fn extracts(parent: ParentRef<'_>) -> bool;

    /// Whether `matched` is what a match of the parent gives.
    spec fn yields<'a>(parent: ParentRef<'a>, matched: Self::Match<'a>) -> bool;

    /// Whether the array matches.
    fn matches(array: &ArrayRef) -> (b: bool)
        ensures
            b == Self::accepts(ParentRef::of(array)),
    {
        let parent = ParentRef::from_array_ref(array);
        Self::matches_parent(&parent)
    }

    /// Tries to match the array.
    fn try_match(array: &ArrayRef) -> (r: Option<Self::Match<'_>>)
        ensures
            r is Some == Self::extracts(ParentRef::of(array)),
            r matches Some(m) ==> Self::yields(ParentRef::of(array), m),
    {
        let parent = ParentRef::from_array_ref(array);
        Self::try_match_parent(&parent)
    }

    /// Tries to match the parent.
    ///
    /// Matchers whose match needs an allocated array give one only for such parents.
    fn try_match_parent<'a>(parent: &ParentRef<'a>) -> (r: Option<Self::Match<'a>>)
        requires
            parent.wf(),
        ensures
            r is Some == Self::extracts(*parent),
            r matches Some(m) ==> Self::yields(*parent, m),
    ;

    /// Whether the parent matches.
    fn matches_parent(parent: &ParentRef<'_>) -> (b: bool)
        requires
            parent.wf(),
        ensures
            b == Self::accepts(*parent),
    ;
}

/// Matches every allocated array.
#[derive(Debug)]
pub struct AnyArray;

impl Matcher for AnyArray {
    type Match<'a> = &'a ArrayRef;

    open spec fn accepts(parent: ParentRef<'_>) -> bool {
        parent.array_ref_spec() is Some
    }

    open spec fn extracts(parent: ParentRef<'_>) -> bool {
        parent.array_ref_spec() is Some
    }

    open spec fn yields<'a>(parent: ParentRef<'a>, matched: &'a ArrayRef) -> bool {
        parent.array_ref_spec() == Some(matched)
    }

    fn try_match_parent<'a>(parent: &ParentRef<'a>) -> (r: Option<&'a ArrayRef>) {
        parent.array_ref()
    }

    fn matches_parent(parent: &ParentRef<'_>) -> (b: bool) {
        parent.array_ref().is_some()
    }
}

/// An encoding matches parents of that encoding, and gives a view of those that are allocated.
impl<V: VTable> Matcher for V {
    type Match<'a> = ArrayView<'a, V>;

    open spec fn accepts(parent: ParentRef<'_>) -> bool {
        parent.is_encoding_spec::<V>()
    }

    open spec fn extracts(parent: ParentRef<'_>) -> bool {
        parent.array_ref_spec() is Some && parent.is_encoding_spec::<V>()
    }

    open spec fn yields<'a>(parent: ParentRef<'a>, matched: ArrayView<'a, V>) -> bool {
        matched.wf() && parent.array_ref_spec() == Some(&matched.array_spec())
    }

    fn try_match_parent<'a>(parent: &ParentRef<'a>) -> (r: Option<ArrayView<'a, V>>) {
        let r = parent.try_array_view::<V>();
        assert(r matches Some(m) ==> <V as Matcher>::yields(*parent, m));
        r
    }

    fn matches_parent(parent: &ParentRef<'_>) -> (b: bool) {
        parent.is_encoding::<V>()
    }
}

/// An encoding matches an allocated array exactly if it can give a view of it, which is if the
/// array has that encoding.
pub proof fn lemma_matches_allocated<V: VTable>(array: &ArrayRef)
    ensures
        <V as Matcher>::accepts(ParentRef::of(array)) == (array.id_spec() == V::id_spec()),
        <V as Matcher>::extracts(ParentRef::of(array)) == (array.id_spec() == V::id_spec()),
{
    ParentRef::lemma_of(array);
}

/// An encoding wants to see a parent under construction as it wants to see an allocated one: exactly
/// if the parent has that encoding. A view can be given of the allocated one only, and it is a view
/// of that array.
pub proof fn lemma_matches_parent<V: VTable>(parent: ParentRef<'_>, view: ArrayView<'_, V>)
    ensures
        <V as Matcher>::accepts(parent) <==> parent.encoding_id_spec() == V::id_spec(),
        parent.array_ref_spec() is None ==> !<V as Matcher>::extracts(parent),
        parent.array_ref_spec() is Some ==> <V as Matcher>::extracts(parent)
            == <V as Matcher>::accepts(parent),
        <V as Matcher>::yields(parent, view) ==> (parent.array_ref_spec() matches Some(array)
            && *array == view.array_spec()),
{
}

/// Every allocated array is matched as itself, and no parent under construction is.
pub proof fn lemma_matches_any(parent: ParentRef<'_>, array: &ArrayRef)
    ensures
        <AnyArray as Matcher>::accepts(parent) <==> parent.array_ref_spec() is Some,
        <AnyArray as Matcher>::extracts(parent) <==> parent.array_ref_spec() is Some,
        <AnyArray as Matcher>::accepts(ParentRef::of(array)),
        <AnyArray as Matcher>::yields(ParentRef::of(array), array),
{
    ParentRef::lemma_of(array);
}

} // verus!
