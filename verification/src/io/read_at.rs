//! Reading ranges of objects from an object store.
//!
//! A read of a range is one request to the store, or two: if hedging is configured and the first
//! request has not been answered within a delay, a second one is made, and whichever is answered
//! first counts. What to do at each turn of a read is decided here. Making requests and waiting
//! for them is up to the caller.

use vstd::prelude::*;
use std::ops::Range;

verus! {

/// How many requests are made at the same time unless configured otherwise.
pub const DEFAULT_CONCURRENCY: usize = 192;

/// When a second request is made for a range that has not been answered.
#[derive(Clone, Copy, Debug, PartialEq, Eq, Structural)]
pub struct ObjectStoreReadHedgeConfig {
    /// How long to wait for the first request. Without a delay there is no second request.
    pub delay_nanos: u128,
    /// The shortest range that gets a second request.
    pub min_bytes: usize,
    /// The longest range that gets a second request.
    pub max_bytes: usize,
}

impl ObjectStoreReadHedgeConfig {
    pub open spec fn applies_to_spec(self, length: usize) -> bool {
        self.delay_nanos > 0 && self.min_bytes <= length <= self.max_bytes
    }

    /// Whether a range of this length may get a second request.
    pub fn applies_to(self, length: usize) -> (b: bool)
        ensures
            b == self.applies_to_spec(length),
    {
        self.delay_nanos > 0 && length >= self.min_bytes && length <= self.max_bytes
    }
}

/// Counts the requests that are made to an object store.
///
/// A read of a range can take more than one request, so these counters tell more than counting
/// reads would. They wrap around.
#[derive(Clone, Copy, Debug, PartialEq, Eq, Structural)]
pub struct ObjectStoreReadStats {
    requests_started: u64,
    requests_completed: u64,
    bytes_started: u64,
    max_bytes_started: u64,
    hedge_requests_started: u64,
    hedge_wins: u64,
    total_completed_nanos: u64,
    max_completed_nanos: u64,
}

/// The counters at one moment.
#[derive(Clone, Copy, Debug, PartialEq, Eq, Structural)]
pub struct ObjectStoreReadStatsSnapshot {
    pub requests_started: u64,
    pub requests_completed: u64,
    pub bytes_started: u64,
    pub max_bytes_started: u64,
    pub hedge_requests_started: u64,
    pub hedge_wins: u64,
    pub total_completed_nanos: u64,
    pub max_completed_nanos: u64,
}

impl Default for ObjectStoreReadStatsSnapshot {
    fn default() -> (r: Self)
        ensures
            r == no_requests(),
    {
        ObjectStoreReadStatsSnapshot {
            requests_started: 0,
            requests_completed: 0,
            bytes_started: 0,
            max_bytes_started: 0,
            hedge_requests_started: 0,
            hedge_wins: 0,
            total_completed_nanos: 0,
            max_completed_nanos: 0,
        }
    }
}

/// The counters before any request.
pub open spec fn no_requests() -> ObjectStoreReadStatsSnapshot {
    ObjectStoreReadStatsSnapshot {
        requests_started: 0,
        requests_completed: 0,
        bytes_started: 0,
        max_bytes_started: 0,
        hedge_requests_started: 0,
        hedge_wins: 0,
        total_completed_nanos: 0,
        max_completed_nanos: 0,
    }
}

/// The sum of two counters, wrapped around.
pub open spec fn counted(counter: u64, more: u64) -> u64 {
    if counter + more > u64::MAX {
        (counter + more - 0x1_0000_0000_0000_0000) as u64
    } else {
        (counter + more) as u64
    }
}

/// The larger of two numbers.
pub open spec fn larger(left: u64, right: u64) -> u64 {
    if left >= right {
        left
    } else {
        right
    }
}

/// A number of nanoseconds, cut off where it exceeds a counter.
pub open spec fn cut_off(nanos: u128) -> u64 {
    if nanos > u64::MAX {
        u64::MAX
    } else {
        nanos as u64
    }
}

/// The counters after a request for `length` bytes has been started.
pub open spec fn after_start(
    s: ObjectStoreReadStatsSnapshot,
    length: usize,
    is_hedge: bool,
) -> ObjectStoreReadStatsSnapshot {
    ObjectStoreReadStatsSnapshot {
        requests_started: counted(s.requests_started, 1),
        bytes_started: counted(s.bytes_started, length as u64),
        max_bytes_started: larger(s.max_bytes_started, length as u64),
        hedge_requests_started: if is_hedge {
            counted(s.hedge_requests_started, 1)
        } else {
            s.hedge_requests_started
        },
        ..s
    }
}

/// The counters after a request has been completed.
pub open spec fn after_complete(
    s: ObjectStoreReadStatsSnapshot,
    elapsed_nanos: u128,
) -> ObjectStoreReadStatsSnapshot {
    ObjectStoreReadStatsSnapshot {
        requests_completed: counted(s.requests_completed, 1),
        total_completed_nanos: counted(s.total_completed_nanos, cut_off(elapsed_nanos)),
        max_completed_nanos: larger(s.max_completed_nanos, cut_off(elapsed_nanos)),
        ..s
    }
}

/// The counters after a second request has been answered first.
pub open spec fn after_hedge_win(s: ObjectStoreReadStatsSnapshot) -> ObjectStoreReadStatsSnapshot {
    ObjectStoreReadStatsSnapshot { hedge_wins: counted(s.hedge_wins, 1), ..s }
}

impl Default for ObjectStoreReadStats {
    fn default() -> (r: Self)
        ensures
            r.snapshot_spec() == no_requests(),
    {
        ObjectStoreReadStats {
            requests_started: 0,
            requests_completed: 0,
            bytes_started: 0,
            max_bytes_started: 0,
            hedge_requests_started: 0,
            hedge_wins: 0,
            total_completed_nanos: 0,
            max_completed_nanos: 0,
        }
    }
}

impl ObjectStoreReadStats {
    pub closed spec fn snapshot_spec(self) -> ObjectStoreReadStatsSnapshot {
        ObjectStoreReadStatsSnapshot {
            requests_started: self.requests_started,
            requests_completed: self.requests_completed,
            bytes_started: self.bytes_started,
            max_bytes_started: self.max_bytes_started,
            hedge_requests_started: self.hedge_requests_started,
            hedge_wins: self.hedge_wins,
            total_completed_nanos: self.total_completed_nanos,
            max_completed_nanos: self.max_completed_nanos,
        }
    }

    /// The counters at this moment.
    pub fn snapshot(&self) -> (r: ObjectStoreReadStatsSnapshot)
        ensures
            r == self.snapshot_spec(),
    {
        ObjectStoreReadStatsSnapshot {
            requests_started: self.requests_started,
            requests_completed: self.requests_completed,
            bytes_started: self.bytes_started,
            max_bytes_started: self.max_bytes_started,
            hedge_requests_started: self.hedge_requests_started,
            hedge_wins: self.hedge_wins,
            total_completed_nanos: self.total_completed_nanos,
            max_completed_nanos: self.max_completed_nanos,
        }
    }

    /// Counts a request for `length` bytes.
    pub fn record_start(&mut self, length: usize, is_hedge: bool)
        ensures
            final(self).snapshot_spec() == after_start(
                old(self).snapshot_spec(),
                length,
                is_hedge,
            ),
    {
        self.requests_started = self.requests_started.wrapping_add(1);
        self.bytes_started = self.bytes_started.wrapping_add(length as u64);
        update_max(&mut self.max_bytes_started, length as u64);
        if is_hedge {
            self.hedge_requests_started = self.hedge_requests_started.wrapping_add(1);
        }
    }

    /// Counts a request that was answered in full.
    pub fn record_complete(&mut self, elapsed_nanos: u128)
        ensures
            final(self).snapshot_spec() == after_complete(
                old(self).snapshot_spec(),
                elapsed_nanos,
            ),
    {
        self.requests_completed = self.requests_completed.wrapping_add(1);
        let nanos: u64 = if elapsed_nanos > u64::MAX as u128 {
            u64::MAX
        } else {
            elapsed_nanos as u64
        };
        self.total_completed_nanos = self.total_completed_nanos.wrapping_add(nanos);
        update_max(&mut self.max_completed_nanos, nanos);
    }

    /// Counts a second request that was answered before the first.
    pub fn record_hedge_win(&mut self)
        ensures
            final(self).snapshot_spec() == after_hedge_win(old(self).snapshot_spec()),
    {
        self.hedge_wins = self.hedge_wins.wrapping_add(1);
    }
}

/// Raises the target to the value, if that is larger.
fn update_max(target: &mut u64, value: u64)
    ensures
        *final(target) == larger(*old(target), value),
{
    if value > *target {
        *target = value;
    }
}

/// A maximum after it has been raised to each of the values in turn.
pub open spec fn raised(start: u64, values: Seq<u64>) -> u64
    decreases values.len(),
{
    if values.len() == 0 {
        start
    } else {
        larger(raised(start, values.drop_last()), values.last())
    }
}

/// However often a maximum is raised, it ends as the largest of its first value and all values that
/// it was raised to. It never goes down on the way, and a value that does not exceed it leaves it
/// as it is.
pub proof fn lemma_raised(start: u64, values: Seq<u64>)
    ensures
        start <= raised(start, values),
        forall|i: int| 0 <= i < values.len() ==> #[trigger] values[i] <= raised(start, values),
        raised(start, values) == start || values.contains(raised(start, values)),
        forall|i: int, j: int|
            0 <= i <= j <= values.len() ==> #[trigger] raised(start, values.take(i))
                <= #[trigger] raised(start, values.take(j)),
        forall|i: int|
            0 <= i < values.len() && values[i] <= raised(start, values.take(i)) ==> raised(
                start,
                #[trigger] values.take(i + 1),
            ) == raised(start, values.take(i)),
    decreases values.len(),
{
    if values.len() > 0 {
        let before = values.drop_last();
        lemma_raised(start, before);
        assert forall|i: int| 0 <= i < values.len() implies #[trigger] values[i] <= raised(
            start,
            values,
        ) by {
            if i < before.len() {
                assert(before[i] == values[i]);
            }
        }
        if raised(start, values) == values.last() {
            assert(values[values.len() - 1] == raised(start, values));
        } else if raised(start, values) != start {
            let i = choose|i: int| 0 <= i < before.len() && before[i] == raised(start, before);
            assert(values[i] == raised(start, values));
        }
        assert forall|i: int, j: int| 0 <= i <= j <= values.len() implies #[trigger] raised(
            start,
            values.take(i),
        ) <= #[trigger] raised(start, values.take(j)) by {
            assert(values.take(values.len() as int) =~= values);
            assert(before.take(before.len() as int) =~= before);
            if i < values.len() {
                assert(values.take(i) =~= before.take(i));
            }
            if j < values.len() {
                assert(values.take(j) =~= before.take(j));
            }
        }
    }
    assert forall|i: int|
        0 <= i < values.len() && values[i] <= raised(start, values.take(i)) implies raised(
        start,
        #[trigger] values.take(i + 1),
    ) == raised(start, values.take(i)) by {
        assert(values.take(i + 1).drop_last() =~= values.take(i));
        assert(values.take(i + 1).last() == values[i]);
    }
}

/// In which order a maximum is raised to values makes no difference in the end. Readers that share
/// counters hold them one at a time, so what several of them do at once comes in some order.
pub proof fn lemma_raised_in_any_order(start: u64, left: Seq<u64>, right: Seq<u64>)
    requires
        left.to_multiset() == right.to_multiset(),
    ensures
        raised(start, left) == raised(start, right),
{
    lemma_none_beyond(start, left, right);
    lemma_none_beyond(start, right, left);
}

/// Raising a maximum to values in one order gives no more than raising it in another.
proof fn lemma_none_beyond(start: u64, left: Seq<u64>, right: Seq<u64>)
    requires
        left.to_multiset() == right.to_multiset(),
    ensures
        raised(start, left) <= raised(start, right),
{
    broadcast use vstd::seq_lib::group_to_multiset_ensures;

    lemma_raised(start, left);
    lemma_raised(start, right);
    let v = raised(start, left);
    if v != start {
        assert(left.contains(v));
        assert(left.to_multiset().count(v) > 0);
        assert(right.to_multiset().count(v) > 0);
        assert(right.contains(v));
        let i = choose|i: int| 0 <= i < right.len() && right[i] == v;
        assert(right[i] <= raised(start, right));
    }
}

/// The counters after requests of the given lengths have been started.
pub open spec fn after_starts(
    s: ObjectStoreReadStatsSnapshot,
    starts: Seq<(usize, bool)>,
) -> ObjectStoreReadStatsSnapshot
    decreases starts.len(),
{
    if starts.len() == 0 {
        s
    } else {
        after_start(after_starts(s, starts.drop_last()), starts.last().0, starts.last().1)
    }
}

/// The largest request that is counted is the largest that was ever started.
pub proof fn lemma_largest_start(s: ObjectStoreReadStatsSnapshot, starts: Seq<(usize, bool)>)
    ensures
        after_starts(s, starts).max_bytes_started == raised(
            s.max_bytes_started,
            starts.map_values(|start: (usize, bool)| start.0 as u64),
        ),
    decreases starts.len(),
{
    let lengths = starts.map_values(|start: (usize, bool)| start.0 as u64);
    if starts.len() > 0 {
        lemma_largest_start(s, starts.drop_last());
        assert(lengths.drop_last() =~= starts.drop_last().map_values(
            |start: (usize, bool)| start.0 as u64,
        ));
    }
}

/// The counters after requests have been completed in the given times.
pub open spec fn after_completes(
    s: ObjectStoreReadStatsSnapshot,
    elapsed_nanos: Seq<u128>,
) -> ObjectStoreReadStatsSnapshot
    decreases elapsed_nanos.len(),
{
    if elapsed_nanos.len() == 0 {
        s
    } else {
        after_complete(after_completes(s, elapsed_nanos.drop_last()), elapsed_nanos.last())
    }
}

/// The longest time that is counted is the longest that a completed request ever took.
pub proof fn lemma_longest_complete(s: ObjectStoreReadStatsSnapshot, elapsed_nanos: Seq<u128>)
    ensures
        after_completes(s, elapsed_nanos).max_completed_nanos == raised(
            s.max_completed_nanos,
            elapsed_nanos.map_values(|nanos: u128| cut_off(nanos)),
        ),
    decreases elapsed_nanos.len(),
{
    let times = elapsed_nanos.map_values(|nanos: u128| cut_off(nanos));
    if elapsed_nanos.len() > 0 {
        lemma_longest_complete(s, elapsed_nanos.drop_last());
        assert(times.drop_last() =~= elapsed_nanos.drop_last().map_values(
            |nanos: u128| cut_off(nanos),
        ));
    }
}

/// The largest number of a counter, and one more: where counters wrap around.
pub open spec fn wrap() -> int {
    0x1_0000_0000_0000_0000
}

/// The bytes of all requests together.
pub open spec fn sum_of_lengths(starts: Seq<(usize, bool)>) -> nat
    decreases starts.len(),
{
    if starts.len() == 0 {
        0
    } else {
        sum_of_lengths(starts.drop_last()) + starts.last().0 as nat
    }
}

/// How many of the requests are second ones.
pub open spec fn second_requests(starts: Seq<(usize, bool)>) -> nat {
    starts.filter(|start: (usize, bool)| start.1).len()
}

/// Starting requests counts each of them, its bytes, and the second ones among them once more. What
/// has been completed or won stays as it is.
pub proof fn lemma_counted_starts(s: ObjectStoreReadStatsSnapshot, starts: Seq<(usize, bool)>)
    ensures
        ({
            let after = after_starts(s, starts);
            &&& after.requests_started == (s.requests_started + starts.len()) % wrap()
            &&& after.bytes_started == (s.bytes_started + sum_of_lengths(starts)) % wrap()
            &&& after.hedge_requests_started == (s.hedge_requests_started + second_requests(
                starts,
            )) % wrap()
            &&& after.requests_completed == s.requests_completed
            &&& after.hedge_wins == s.hedge_wins
            &&& after.total_completed_nanos == s.total_completed_nanos
            &&& after.max_completed_nanos == s.max_completed_nanos
        }),
    decreases starts.len(),
{
    reveal(Seq::filter);
    if starts.len() > 0 {
        lemma_counted_starts(s, starts.drop_last());
    }
}

/// All times together, each cut off where it exceeds a counter.
pub open spec fn sum_of_times(elapsed_nanos: Seq<u128>) -> nat
    decreases elapsed_nanos.len(),
{
    if elapsed_nanos.len() == 0 {
        0
    } else if elapsed_nanos.last() > u64::MAX {
        sum_of_times(elapsed_nanos.drop_last()) + u64::MAX as nat
    } else {
        sum_of_times(elapsed_nanos.drop_last()) + elapsed_nanos.last() as nat
    }
}

/// Completing requests counts each of them and its time. What has been started or won stays as it
/// is.
pub proof fn lemma_counted_completes(s: ObjectStoreReadStatsSnapshot, elapsed_nanos: Seq<u128>)
    ensures
        ({
            let after = after_completes(s, elapsed_nanos);
            &&& after.requests_completed == (s.requests_completed + elapsed_nanos.len()) % wrap()
            &&& after.total_completed_nanos == (s.total_completed_nanos + sum_of_times(
                elapsed_nanos,
            )) % wrap()
            &&& after.requests_started == s.requests_started
            &&& after.bytes_started == s.bytes_started
            &&& after.max_bytes_started == s.max_bytes_started
            &&& after.hedge_requests_started == s.hedge_requests_started
            &&& after.hedge_wins == s.hedge_wins
        }),
    decreases elapsed_nanos.len(),
{
    if elapsed_nanos.len() > 0 {
        lemma_counted_completes(s, elapsed_nanos.drop_last());
    }
}

/// A second request that is answered first counts as that and as nothing else.
pub proof fn lemma_counted_win(s: ObjectStoreReadStatsSnapshot)
    ensures
        ({
            let after = after_hedge_win(s);
            &&& after.hedge_wins == (s.hedge_wins + 1) % wrap()
            &&& after.requests_started == s.requests_started
            &&& after.requests_completed == s.requests_completed
            &&& after.bytes_started == s.bytes_started
            &&& after.max_bytes_started == s.max_bytes_started
            &&& after.hedge_requests_started == s.hedge_requests_started
            &&& after.total_completed_nanos == s.total_completed_nanos
            &&& after.max_completed_nanos == s.max_completed_nanos
        }),
{
}

/// With a delay, the ranges that may get a second request are those between the two bounds, both
/// included: between two such lengths every length is one, and none is shorter or longer than the
/// bounds. Without a delay there are none.
pub proof fn lemma_hedged_lengths(config: ObjectStoreReadHedgeConfig, a: usize, b: usize, c: usize)
    ensures
        config.delay_nanos == 0 ==> !config.applies_to_spec(a),
        a < config.min_bytes || a > config.max_bytes ==> !config.applies_to_spec(a),
        config.delay_nanos > 0 && config.min_bytes <= config.max_bytes ==> {
            &&& config.applies_to_spec(config.min_bytes)
            &&& config.applies_to_spec(config.max_bytes)
        },
        config.applies_to_spec(a) && a <= b <= c && config.applies_to_spec(c)
            ==> config.applies_to_spec(b),
{
}

/// Which reads are worth joining into one request.
#[derive(Clone, Copy, Debug, PartialEq, Eq, Structural)]
pub struct CoalesceConfig {
    /// The largest gap between two ranges that is read along.
    pub distance: u64,
    /// The largest range that is read at once.
    pub max_size: u64,
}

/// How a range is to be read.
#[derive(Debug, PartialEq, Eq)]
pub struct ReadPlan {
    /// The bytes of the object.
    pub range: Range<u64>,
    /// How long to wait before a second request; `None` if there is to be none.
    pub hedge_delay_nanos: Option<u128>,
}

/// A source that reads ranges of an object by means of a backend, and counts requests in `S`.
pub struct ObjectStoreReadAt<B, S> {
    pub backend: B,
    pub uri: String,
    pub concurrency: usize,
    pub coalesce_config: Option<CoalesceConfig>,
    pub hedge_config: Option<ObjectStoreReadHedgeConfig>,
    pub stats: Option<S>,
}

impl<B, S> ObjectStoreReadAt<B, S> {
    /// A source that joins reads as configured, makes no second requests and counts nothing.
    pub fn new(backend: B, uri: String, coalesce_config: CoalesceConfig) -> (r: Self)
        ensures
            r == (ObjectStoreReadAt::<B, S> {
                backend,
                uri,
                concurrency: DEFAULT_CONCURRENCY,
                coalesce_config: Some(coalesce_config),
                hedge_config: None,
                stats: None,
            }),
    {
        ObjectStoreReadAt {
            backend,
            uri,
            concurrency: DEFAULT_CONCURRENCY,
            coalesce_config: Some(coalesce_config),
            hedge_config: None,
            stats: None,
        }
    }

    /// Sets how many requests are made at the same time.
    pub fn with_concurrency(self, concurrency: usize) -> (r: Self)
        ensures
            r == (ObjectStoreReadAt { concurrency, ..self }),
    {
        ObjectStoreReadAt { concurrency, ..self }
    }

    /// Sets which reads are joined.
    pub fn with_coalesce_config(self, config: CoalesceConfig) -> (r: Self)
        ensures
            r == (ObjectStoreReadAt { coalesce_config: Some(config), ..self }),
    {
        ObjectStoreReadAt { coalesce_config: Some(config), ..self }
    }

    /// Sets when second requests are made.
    pub fn with_hedge_config(self, config: ObjectStoreReadHedgeConfig) -> (r: Self)
        ensures
            r == (ObjectStoreReadAt { hedge_config: Some(config), ..self }),
    {
        ObjectStoreReadAt { hedge_config: Some(config), ..self }
    }

    /// Sets where requests are counted.
    pub fn with_stats(self, stats: S) -> (r: Self)
        ensures
            r == (ObjectStoreReadAt { stats: Some(stats), ..self }),
    {
        ObjectStoreReadAt { stats: Some(stats), ..self }
    }

    /// The location of the object; every source of this kind has one.
    pub fn uri(&self) -> (r: Option<&String>)
        ensures
            r == Some(&self.uri),
    {
        Some(&self.uri)
    }

    /// Which reads are joined.
    pub fn coalesce_config(&self) -> (r: Option<CoalesceConfig>)
        ensures
            r == self.coalesce_config,
    {
        self.coalesce_config
    }

    /// How many requests are made at the same time.
    pub fn concurrency(&self) -> (r: usize)
        ensures
            r == self.concurrency,
    {
        self.concurrency
    }

    /// How a range is to be read. Where `can_wait` is false there are no timers, and so no second
    /// requests.
    pub fn plan(&self, offset: u64, length: usize, can_wait: bool) -> (r: ReadPlan)
        requires
            offset + length <= u64::MAX,
        ensures
            r.range.start == offset,
            r.range.end == offset + length,
            r.hedge_delay_nanos == (match self.hedge_config {
                Some(config) => if can_wait && config.applies_to_spec(length) {
                    Some(config.delay_nanos)
                } else {
                    None
                },
                None => None,
            }),
    {
        let hedge_delay_nanos = match self.hedge_config {
            Some(config) => if can_wait && config.applies_to(length) {
                Some(config.delay_nanos)
            } else {
                None
            },
            None => None,
        };
        ReadPlan { range: offset..(offset + length as u64), hedge_delay_nanos }
    }
}

/// Counts a request that has been answered, if it was answered in full.
pub fn record_answer<T, E>(
    stats: &mut ObjectStoreReadStats,
    answer: &Result<T, E>,
    elapsed_nanos: u128,
)
    ensures
        final(stats).snapshot_spec() == (if answer is Ok {
            after_complete(old(stats).snapshot_spec(), elapsed_nanos)
        } else {
            old(stats).snapshot_spec()
        }),
{
    if answer.is_ok() {
        stats.record_complete(elapsed_nanos);
    }
}

} // verus!
