//! Statistics about the rows of an array.

use vstd::prelude::*;

use smallvec::SmallVec;

use crate::error::{VortexError, VortexResult};
use crate::order::{scalar_at_most, scalar_at_most_spec};
use crate::scalar::ScalarValue;

verus! {

/// What a statistic is about.
#[derive(Clone, Copy, Debug, PartialEq, Eq, Structural)]
pub enum Stat {
    IsConstant,
    IsSorted,
    IsStrictSorted,
    Max,
    Min,
    Sum,
    NullCount,
    UncompressedSizeInBytes,
    NaNCount,
}

/// How precise a statistic is.
#[derive(Debug, PartialEq, Eq)]
pub enum Precision<T> {
    /// The statistic is attained.
    Exact(T),
    /// The statistic is a bound.
    Inexact(T),
}

/// A statistic and its value.
#[derive(Debug, PartialEq, Eq)]
pub struct StatEntry {
    pub stat: Stat,
    pub value: Precision<ScalarValue>,
}

impl<T> Precision<T> {
    pub open spec fn value_spec(self) -> T {
        match self {
            Precision::Exact(v) => v,
            Precision::Inexact(v) => v,
        }
    }

    /// The value, whether attained or not.
    pub fn into_value(self) -> (r: T)
        ensures
            r == self.value_spec(),
    {
        match self {
            Precision::Exact(v) => v,
            Precision::Inexact(v) => v,
        }
    }
}

impl Clone for Precision<ScalarValue> {
    fn clone(&self) -> (r: Self)
        ensures
            r == *self,
    {
        match self {
            Precision::Exact(v) => Precision::Exact(v.clone()),
            Precision::Inexact(v) => Precision::Inexact(v.clone()),
        }
    }
}

/// A short list of statistics that is kept inline.
#[verifier::external_body]
pub struct StatEntries {
    items: SmallVec<[StatEntry; 4]>,
}

/// The statistics that the list holds, in order.
pub uninterp spec fn stat_entries(list: StatEntries) -> Seq<StatEntry>;

/// An empty list.
///
/// Trusted: `SmallVec::new` of the `smallvec` crate makes a vector without items.
#[verifier::external_body]
fn new_entries() -> (r: StatEntries)
    ensures
        stat_entries(r) == Seq::<StatEntry>::empty(),
{
    StatEntries { items: SmallVec::new() }
}

/// Appends an entry.
///
/// Trusted: `SmallVec::push` of the `smallvec` crate appends the item behind those that are there.
#[verifier::external_body]
fn push_entry(list: &mut StatEntries, entry: StatEntry)
    ensures
        stat_entries(*final(list)) == stat_entries(*old(list)).push(entry),
{
    list.items.push(entry)
}

/// The entries as a slice.
///
/// Trusted: `SmallVec::as_slice` of the `smallvec` crate gives a slice of all items in order.
#[verifier::external_body]
fn entries_slice(list: &StatEntries) -> (r: &[StatEntry])
    ensures
        r@ == stat_entries(*list),
{
    list.items.as_slice()
}

/// The value that the entries give for a statistic; a later entry overrides an earlier one.
pub open spec fn find_stat(entries: Seq<StatEntry>, stat: Stat) -> Option<Precision<ScalarValue>>
    decreases entries.len(),
{
    if entries.len() == 0 {
        None
    } else if entries.last().stat == stat {
        Some(entries.last().value)
    } else {
        find_stat(entries.drop_last(), stat)
    }
}

/// An appended entry overrides the entries before it.
proof fn lemma_find_push(entries: Seq<StatEntry>, entry: StatEntry)
    ensures
        forall|s: Stat|
            #[trigger] find_stat(entries.push(entry), s) == (if entry.stat == s {
                Some(entry.value)
            } else {
                find_stat(entries, s)
            }),
{
    assert(entries.push(entry).drop_last() =~= entries);
    assert(entries.push(entry).last() == entry);
}

/// Whether `value` respects a bound: from above for the maximum, from below for the minimum.
pub open spec fn respects_bound(value: ScalarValue, bound: ScalarValue, upper: bool) -> Option<
    bool,
> {
    if upper {
        scalar_at_most_spec(value, bound)
    } else {
        scalar_at_most_spec(bound, value)
    }
}

/// What is known after learning of one more bound: an exact value that respects it stays, and of
/// two bounds the tighter one counts.
pub open spec fn combined_bound(
    known: Option<Precision<ScalarValue>>,
    bound: ScalarValue,
    upper: bool,
) -> VortexResult<Precision<ScalarValue>> {
    match known {
        None => Ok(Precision::Inexact(bound)),
        Some(Precision::Exact(v)) => if respects_bound(v, bound, upper) == Some(true) {
            Ok(Precision::Exact(v))
        } else {
            Err(VortexError::StatBoundsDisjoint)
        },
        Some(Precision::Inexact(v)) => match respects_bound(v, bound, upper) {
            Some(true) => Ok(Precision::Inexact(v)),
            Some(false) => Ok(Precision::Inexact(bound)),
            None => Err(VortexError::StatBoundsDisjoint),
        },
    }
}

/// The same value, kept as a bound only.
pub open spec fn inexact(value: Option<Precision<ScalarValue>>) -> Option<Precision<ScalarValue>> {
    match value {
        None => None,
        Some(p) => Some(Precision::Inexact(p.value_spec())),
    }
}

/// What is known of a bound after learning what another set knows of it.
pub open spec fn combined_stat(
    known: Option<Precision<ScalarValue>>,
    learned: Option<Precision<ScalarValue>>,
    upper: bool,
) -> VortexResult<Option<Precision<ScalarValue>>> {
    match learned {
        None => Ok(known),
        Some(p) => match combined_bound(known, p.value_spec(), upper) {
            Ok(value) => Ok(Some(value)),
            Err(e) => Err(e),
        },
    }
}

/// Upper bounds are respected by what is at most as large, lower bounds by what is at least as
/// large.
pub proof fn lemma_respects_bound(value: ScalarValue, bound: ScalarValue)
    ensures
        respects_bound(value, bound, true) == scalar_at_most_spec(value, bound),
        respects_bound(value, bound, false) == scalar_at_most_spec(bound, value),
{
}

/// What learning of a bound does to what is known:
///
/// - If nothing was known, the bound is known, and only as a bound.
/// - A value that is attained stays so if it respects the bound; otherwise the two contradict each
///   other.
/// - Of two bounds the tighter one stays known as a bound; two that cannot be compared contradict
///   each other.
pub proof fn lemma_combined_bound(
    known: Option<Precision<ScalarValue>>,
    bound: ScalarValue,
    upper: bool,
)
    ensures
        known is None ==> combined_bound(known, bound, upper) == Ok::<
            Precision<ScalarValue>,
            VortexError,
        >(Precision::Inexact(bound)),
        known matches Some(Precision::Exact(v)) ==> combined_bound(known, bound, upper) == (if (if upper {
            scalar_at_most_spec(v, bound)
        } else {
            scalar_at_most_spec(bound, v)
        }) == Some(true) {
            Ok::<Precision<ScalarValue>, VortexError>(Precision::Exact(v))
        } else {
            Err(VortexError::StatBoundsDisjoint)
        }),
        known matches Some(Precision::Inexact(v)) ==> match if upper {
            scalar_at_most_spec(v, bound)
        } else {
            scalar_at_most_spec(bound, v)
        } {
            Some(tighter) => combined_bound(known, bound, upper) == Ok::<
                Precision<ScalarValue>,
                VortexError,
            >(
                Precision::Inexact(
                    if tighter {
                        v
                    } else {
                        bound
                    },
                ),
            ),
            None => combined_bound(known, bound, upper) == Err::<
                Precision<ScalarValue>,
                VortexError,
            >(VortexError::StatBoundsDisjoint),
        },
{
}

/// A value kept as a bound is still that value, but no longer said to be attained.
pub proof fn lemma_inexact(value: Precision<ScalarValue>)
    ensures
        inexact(Some(Precision::Exact(value.value_spec()))) == Some(
            Precision::Inexact(value.value_spec()),
        ),
        inexact(Some(Precision::Inexact(value.value_spec()))) == Some(
            Precision::Inexact(value.value_spec()),
        ),
        inexact(None) is None,
        value matches Precision::Exact(v) ==> value.value_spec() == v,
        value matches Precision::Inexact(v) ==> value.value_spec() == v,
{
}

/// The statistics of an array.
pub struct StatsSet {
    entries: StatEntries,
}

impl StatsSet {
    /// The value of a statistic, if it is known.
    pub closed spec fn get_spec(self, stat: Stat) -> Option<Precision<ScalarValue>> {
        find_stat(stat_entries(self.entries), stat)
    }

    /// A set without statistics.
    pub fn new() -> (r: StatsSet)
        ensures
            forall|s: Stat| (#[trigger] r.get_spec(s)) is None,
    {
        StatsSet { entries: new_entries() }
    }

    /// The value of a statistic, if it is known.
    pub fn get(&self, stat: Stat) -> (r: Option<Precision<ScalarValue>>)
        ensures
            r == self.get_spec(stat),
    {
        let entries = entries_slice(&self.entries);
        let ghost all = stat_entries(self.entries);
        let mut i: usize = entries.len();
        assert(all.take(i as int) =~= all);
        while i > 0
            invariant
                i <= all.len(),
                entries@ == all,
                all == stat_entries(self.entries),
                find_stat(all, stat) == find_stat(all.take(i as int), stat),
            decreases i,
        {
            i = i - 1;
            assert(all.take(i + 1).drop_last() =~= all.take(i as int));
            if entries[i].stat == stat {
                return Some(entries[i].value.clone());
            }
        }
        None
    }

    /// Sets a statistic and leaves the others as they are.
    pub fn set(&mut self, stat: Stat, value: Precision<ScalarValue>)
        ensures
            forall|s: Stat|
                #[trigger] final(self).get_spec(s) == (if s == stat {
                    Some(value)
                } else {
                    old(self).get_spec(s)
                }),
    {
        let mut kept = new_entries();
        let entries = entries_slice(&self.entries);
        let ghost all = stat_entries(self.entries);
        let mut i: usize = 0;
        while i < entries.len()
            invariant
                i <= all.len(),
                entries@ == all,
                forall|s: Stat|
                    s != stat ==> #[trigger] find_stat(stat_entries(kept), s) == find_stat(
                        all.take(i as int),
                        s,
                    ),
            decreases all.len() - i,
        {
            proof {
                lemma_find_push(all.take(i as int), all[i as int]);
                assert(all.take(i as int).push(all[i as int]) =~= all.take(i + 1));
            }
            if entries[i].stat != stat {
                let entry = StatEntry { stat: entries[i].stat, value: entries[i].value.clone() };
                proof {
                    lemma_find_push(stat_entries(kept), entry);
                }
                push_entry(&mut kept, entry);
            }
            i = i + 1;
        }
        assert(all.take(i as int) =~= all);
        let entry = StatEntry { stat, value };
        proof {
            lemma_find_push(stat_entries(kept), entry);
        }
        push_entry(&mut kept, entry);
        self.entries = kept;
    }

    /// Learns of one more bound on the maximum if `upper`, else on the minimum.
    pub fn combine_bound(&mut self, stat: Stat, bound: ScalarValue, upper: bool) -> (r: VortexResult<
        (),
    >)
        ensures
            match combined_bound(old(self).get_spec(stat), bound, upper) {
                Err(e) => {
                    &&& r == Err::<(), VortexError>(e)
                    &&& forall|s: Stat| #[trigger]
                        final(self).get_spec(s) == old(self).get_spec(s)
                },
                Ok(value) => {
                    &&& r is Ok
                    &&& forall|s: Stat| #[trigger]
                        final(self).get_spec(s) == (if s == stat {
                            Some(value)
                        } else {
                            old(self).get_spec(s)
                        })
                },
            },
    {
        let (known, exact) = match self.get(stat) {
            None => {
                self.set(stat, Precision::Inexact(bound));
                return Ok(());
            },
            Some(Precision::Exact(v)) => (v, true),
            Some(Precision::Inexact(v)) => (v, false),
        };
        let respected = if upper {
            scalar_at_most(&known, &bound)
        } else {
            scalar_at_most(&bound, &known)
        };
        match respected {
            Some(true) => Ok(()),
            Some(false) => if exact {
                Err(VortexError::StatBoundsDisjoint)
            } else {
                self.set(stat, Precision::Inexact(bound));
                Ok(())
            },
            None => Err(VortexError::StatBoundsDisjoint),
        }
    }

    /// The minimum and maximum, kept as bounds only.
    pub fn inexact_bounds(&self) -> (r: StatsSet)
        ensures
            forall|s: Stat|
                #[trigger] r.get_spec(s) == (if s == Stat::Min || s == Stat::Max {
                    inexact(self.get_spec(s))
                } else {
                    None
                }),
    {
        let mut bounds = new_entries();
        if let Some(value) = self.get(Stat::Min) {
            let entry = StatEntry { stat: Stat::Min, value: Precision::Inexact(value.into_value()) };
            proof {
                lemma_find_push(stat_entries(bounds), entry);
            }
            push_entry(&mut bounds, entry);
        }
        if let Some(value) = self.get(Stat::Max) {
            let entry = StatEntry { stat: Stat::Max, value: Precision::Inexact(value.into_value()) };
            proof {
                lemma_find_push(stat_entries(bounds), entry);
            }
            push_entry(&mut bounds, entry);
        }
        StatsSet { entries: bounds }
    }

    /// Learns of the bounds on minimum and maximum that `other` knows.
    pub fn combine_bounds(&mut self, other: &StatsSet) -> (r: VortexResult<()>)
        ensures
            r is Err <==> combined_stat(old(self).get_spec(Stat::Min), other.get_spec(Stat::Min), false)
                is Err || combined_stat(
                old(self).get_spec(Stat::Max),
                other.get_spec(Stat::Max),
                true,
            ) is Err,
            r matches Err(e) ==> e == VortexError::StatBoundsDisjoint,
            r is Ok ==> forall|s: Stat|
                #[trigger] final(self).get_spec(s) == (if s == Stat::Min || s == Stat::Max {
                    combined_stat(old(self).get_spec(s), other.get_spec(s), s == Stat::Max)->Ok_0
                } else {
                    old(self).get_spec(s)
                }),
    {
        if let Some(value) = other.get(Stat::Min) {
            match self.combine_bound(Stat::Min, value.into_value(), false) {
                Ok(_) => {},
                Err(e) => return Err(e),
            }
        }
        if let Some(value) = other.get(Stat::Max) {
            match self.combine_bound(Stat::Max, value.into_value(), true) {
                Ok(_) => {},
                Err(e) => return Err(e),
            }
        }
        Ok(())
    }

    /// A copy of the set.
    pub fn copy(&self) -> (r: StatsSet)
        ensures
            forall|s: Stat| #[trigger] r.get_spec(s) == self.get_spec(s),
    {
        let mut copied = new_entries();
        let entries = entries_slice(&self.entries);
        let ghost all = stat_entries(self.entries);
        let mut i: usize = 0;
        assert(all.take(0) =~= stat_entries(copied));
        while i < entries.len()
            invariant
                i <= all.len(),
                entries@ == all,
                stat_entries(copied) == all.take(i as int),
            decreases all.len() - i,
        {
            push_entry(
                &mut copied,
                StatEntry { stat: entries[i].stat, value: entries[i].value.clone() },
            );
            i = i + 1;
            assert(stat_entries(copied) =~= all.take(i as int));
        }
        assert(all.take(i as int) =~= all);
        StatsSet { entries: copied }
    }
}

} // verus!
