//! What to do at each turn of a read that may take a second request.

use vstd::prelude::*;

use super::read_at::{
    after_hedge_win, after_start, wrap, ObjectStoreReadStats, ObjectStoreReadStatsSnapshot,
};

verus! {

/// How far a read has come.
#[derive(Clone, Copy, Debug, PartialEq, Eq, Structural)]
pub enum ReadPhase {
    /// Nothing has been requested.
    Idle,
    /// The first request has not been answered.
    Primary,
    /// The first request has not been answered within the delay, and a buffer for the answer to a
    /// second one is being allocated.
    Preparing,
    /// Neither request has been answered.
    Racing,
    /// The read is over.
    Finished,
}

/// What can happen to a read.
#[derive(Clone, Copy, Debug, PartialEq, Eq, Structural)]
pub enum ReadEvent {
    /// The read begins.
    Begin,
    /// The delay has passed.
    DelayElapsed,
    /// The buffer for the answer to a second request has been allocated.
    HedgeAllocated,
    /// The buffer for the answer to a second request cannot be had.
    AllocationFailed,
    /// The first request has been answered, or has failed.
    PrimaryAnswered,
    /// The second request has been answered, or has failed.
    HedgeAnswered,
}

/// What is to be done next.
#[derive(Clone, Copy, Debug, PartialEq, Eq, Structural)]
pub enum ReadAction {
    /// Make the first request.
    RequestPrimary,
    /// Allocate a buffer for the answer to a second request.
    AllocateHedge,
    /// Make the second request.
    RequestHedge,
    /// End the read with the outcome of the first request.
    ReturnPrimary,
    /// End the read with the outcome of the second request.
    ReturnHedge,
    /// End the read with the error of the allocation.
    ReturnAllocationError,
    /// Wait for what happens next.
    Wait,
}

/// The next phase and what is to be done, for a read that may take a second request or not.
pub open spec fn advance_spec(phase: ReadPhase, event: ReadEvent, hedged: bool) -> (
    ReadPhase,
    ReadAction,
) {
    match (phase, event) {
        (ReadPhase::Idle, ReadEvent::Begin) => (ReadPhase::Primary, ReadAction::RequestPrimary),
        (ReadPhase::Primary, ReadEvent::DelayElapsed) => if hedged {
            (ReadPhase::Preparing, ReadAction::AllocateHedge)
        } else {
            (ReadPhase::Primary, ReadAction::Wait)
        },
        (ReadPhase::Preparing, ReadEvent::HedgeAllocated) => (
            ReadPhase::Racing,
            ReadAction::RequestHedge,
        ),
        (ReadPhase::Preparing, ReadEvent::AllocationFailed) => (
            ReadPhase::Finished,
            ReadAction::ReturnAllocationError,
        ),
        (ReadPhase::Primary, ReadEvent::PrimaryAnswered) => (
            ReadPhase::Finished,
            ReadAction::ReturnPrimary,
        ),
        (ReadPhase::Racing, ReadEvent::PrimaryAnswered) => (
            ReadPhase::Finished,
            ReadAction::ReturnPrimary,
        ),
        (ReadPhase::Racing, ReadEvent::HedgeAnswered) => (
            ReadPhase::Finished,
            ReadAction::ReturnHedge,
        ),
        (other, _) => (other, ReadAction::Wait),
    }
}

/// The next phase and what is to be done, for a read that may take a second request or not.
pub fn advance(phase: ReadPhase, event: ReadEvent, hedged: bool) -> (r: (ReadPhase, ReadAction))
    ensures
        r == advance_spec(phase, event, hedged),
{
    match (phase, event) {
        (ReadPhase::Idle, ReadEvent::Begin) => (ReadPhase::Primary, ReadAction::RequestPrimary),
        (ReadPhase::Primary, ReadEvent::DelayElapsed) => if hedged {
            (ReadPhase::Preparing, ReadAction::AllocateHedge)
        } else {
            (ReadPhase::Primary, ReadAction::Wait)
        },
        (ReadPhase::Preparing, ReadEvent::HedgeAllocated) => (
            ReadPhase::Racing,
            ReadAction::RequestHedge,
        ),
        (ReadPhase::Preparing, ReadEvent::AllocationFailed) => (
            ReadPhase::Finished,
            ReadAction::ReturnAllocationError,
        ),
        (ReadPhase::Primary, ReadEvent::PrimaryAnswered) => (
            ReadPhase::Finished,
            ReadAction::ReturnPrimary,
        ),
        (ReadPhase::Racing, ReadEvent::PrimaryAnswered) => (
            ReadPhase::Finished,
            ReadAction::ReturnPrimary,
        ),
        (ReadPhase::Racing, ReadEvent::HedgeAnswered) => (
            ReadPhase::Finished,
            ReadAction::ReturnHedge,
        ),
        (other, _) => (other, ReadAction::Wait),
    }
}

/// The counters after an action of a read of `length` bytes.
pub open spec fn after_action(
    s: ObjectStoreReadStatsSnapshot,
    action: ReadAction,
    length: usize,
) -> ObjectStoreReadStatsSnapshot {
    match action {
        ReadAction::RequestPrimary => after_start(s, length, false),
        ReadAction::RequestHedge => after_start(s, length, true),
        ReadAction::ReturnHedge => after_hedge_win(s),
        _ => s,
    }
}

/// Counts an action of a read of `length` bytes. A request is to be counted when it is made.
pub fn record_action(stats: &mut ObjectStoreReadStats, action: ReadAction, length: usize)
    ensures
        final(stats).snapshot_spec() == after_action(old(stats).snapshot_spec(), action, length),
{
    match action {
        ReadAction::RequestPrimary => stats.record_start(length, false),
        ReadAction::RequestHedge => stats.record_start(length, true),
        ReadAction::ReturnHedge => stats.record_hedge_win(),
        _ => {},
    }
}

/// The phase after a sequence of events.
pub open spec fn phase_after(events: Seq<ReadEvent>, hedged: bool) -> ReadPhase
    decreases events.len(),
{
    if events.len() == 0 {
        ReadPhase::Idle
    } else {
        advance_spec(phase_after(events.drop_last(), hedged), events.last(), hedged).0
    }
}

/// What a sequence of events causes to be done.
pub open spec fn actions_of(events: Seq<ReadEvent>, hedged: bool) -> Seq<ReadAction>
    decreases events.len(),
{
    if events.len() == 0 {
        Seq::empty()
    } else {
        actions_of(events.drop_last(), hedged).push(
            advance_spec(phase_after(events.drop_last(), hedged), events.last(), hedged).1,
        )
    }
}

/// How often an action occurs.
pub open spec fn times(actions: Seq<ReadAction>, action: ReadAction) -> nat
    decreases actions.len(),
{
    if actions.len() == 0 {
        0
    } else if actions.last() == action {
        times(actions.drop_last(), action) + 1
    } else {
        times(actions.drop_last(), action)
    }
}

/// How often a read is ended.
pub open spec fn endings(actions: Seq<ReadAction>) -> nat {
    times(actions, ReadAction::ReturnPrimary) + times(actions, ReadAction::ReturnHedge) + times(
        actions,
        ReadAction::ReturnAllocationError,
    )
}

/// Whatever happens in whatever order, a read makes one request at first and at most one more, and
/// that only if it may. It is ended at most once, exactly if it has come to its end, and with the
/// outcome of the second request only if that was made.
pub proof fn lemma_bounded_requests(events: Seq<ReadEvent>, hedged: bool)
    ensures
        times(actions_of(events, hedged), ReadAction::RequestPrimary) == (if phase_after(
            events,
            hedged,
        ) is Idle {
            0nat
        } else {
            1nat
        }),
        times(actions_of(events, hedged), ReadAction::RequestHedge) <= 1,
        phase_after(events, hedged) is Racing ==> times(
            actions_of(events, hedged),
            ReadAction::RequestHedge,
        ) == 1,
        phase_after(events, hedged) is Idle || phase_after(events, hedged) is Primary
            || phase_after(events, hedged) is Preparing ==> times(
            actions_of(events, hedged),
            ReadAction::RequestHedge,
        ) == 0,
        !hedged ==> times(actions_of(events, hedged), ReadAction::RequestHedge) == 0
            && !(phase_after(events, hedged) is Preparing),
        endings(actions_of(events, hedged)) == (if phase_after(events, hedged) is Finished {
            1nat
        } else {
            0nat
        }),
        times(actions_of(events, hedged), ReadAction::ReturnHedge) <= times(
            actions_of(events, hedged),
            ReadAction::RequestHedge,
        ),
    decreases events.len(),
{
    if events.len() > 0 {
        let before = actions_of(events.drop_last(), hedged);
        lemma_bounded_requests(events.drop_last(), hedged);
        let action = advance_spec(
            phase_after(events.drop_last(), hedged),
            events.last(),
            hedged,
        ).1;
        assert(before.push(action).drop_last() =~= before);
        assert(before.push(action).last() == action);
    }
}

/// How far a read has come shows in what it has done so far.
proof fn lemma_phase_shows(events: Seq<ReadEvent>, hedged: bool)
    ensures
        ({
            let done = actions_of(events, hedged);
            let first = times(done, ReadAction::RequestPrimary);
            let allocated = times(done, ReadAction::AllocateHedge);
            let second = times(done, ReadAction::RequestHedge);
            let ended = endings(done);
            match phase_after(events, hedged) {
                ReadPhase::Idle => first == 0 && allocated == 0 && second == 0 && ended == 0,
                ReadPhase::Primary => first == 1 && allocated == 0 && second == 0 && ended == 0,
                ReadPhase::Preparing => first == 1 && allocated == 1 && second == 0 && ended == 0
                    && hedged,
                ReadPhase::Racing => first == 1 && allocated == 1 && second == 1 && ended == 0
                    && hedged,
                ReadPhase::Finished => first == 1 && ended == 1,
            }
        }),
    decreases events.len(),
{
    if events.len() > 0 {
        let before = actions_of(events.drop_last(), hedged);
        lemma_phase_shows(events.drop_last(), hedged);
        let action = advance_spec(
            phase_after(events.drop_last(), hedged),
            events.last(),
            hedged,
        ).1;
        assert(before.push(action).drop_last() =~= before);
        assert(before.push(action).last() == action);
    }
}

/// What a read does next follows from what it has done so far:
///
/// - It makes the first request when it begins, once.
/// - When the delay passes, a read that may take a second request and has not ended goes for a
///   buffer, once. It makes the second request as soon as it has the buffer, and ends with the
///   error if the buffer cannot be had.
/// - The first answer ends the read with the outcome of the request that was answered. Only while
///   a buffer is being allocated no answer is looked at.
/// - In all other cases it waits. A read that has ended does nothing any more.
pub proof fn lemma_next_action(events: Seq<ReadEvent>, event: ReadEvent, hedged: bool)
    ensures
        ({
            let done = actions_of(events, hedged);
            let first = times(done, ReadAction::RequestPrimary);
            let allocated = times(done, ReadAction::AllocateHedge);
            let second = times(done, ReadAction::RequestHedge);
            let over = endings(done) > 0;
            let allocating = allocated == 1 && second == 0 && !over;
            let after = actions_of(events.push(event), hedged);
            &&& after.drop_last() == done
            &&& after.last() == (match event {
                ReadEvent::Begin => if first == 0 {
                    ReadAction::RequestPrimary
                } else {
                    ReadAction::Wait
                },
                ReadEvent::DelayElapsed => if hedged && first == 1 && allocated == 0 && !over {
                    ReadAction::AllocateHedge
                } else {
                    ReadAction::Wait
                },
                ReadEvent::HedgeAllocated => if allocating {
                    ReadAction::RequestHedge
                } else {
                    ReadAction::Wait
                },
                ReadEvent::AllocationFailed => if allocating {
                    ReadAction::ReturnAllocationError
                } else {
                    ReadAction::Wait
                },
                ReadEvent::PrimaryAnswered => if first == 1 && !allocating && !over {
                    ReadAction::ReturnPrimary
                } else {
                    ReadAction::Wait
                },
                ReadEvent::HedgeAnswered => if second == 1 && !over {
                    ReadAction::ReturnHedge
                } else {
                    ReadAction::Wait
                },
            })
        }),
{
    lemma_phase_shows(events, hedged);
    assert(events.push(event).drop_last() =~= events);
    assert(events.push(event).last() == event);
    let done = actions_of(events, hedged);
    let action = advance_spec(phase_after(events, hedged), event, hedged).1;
    assert(done.push(action).drop_last() =~= done);
}

/// The first answer ends a read: with the outcome of the first request if that was answered, and
/// with that of the second request if both were out and the second was answered.
pub proof fn lemma_first_answer_ends(events: Seq<ReadEvent>, hedged: bool)
    ensures
        ({
            let done = actions_of(events, hedged);
            let second = times(done, ReadAction::RequestHedge);
            &&& times(done, ReadAction::RequestPrimary) == 1 && endings(done) == 0 && times(
                done,
                ReadAction::AllocateHedge,
            ) == second ==> {
                let answered = events.push(ReadEvent::PrimaryAnswered);
                &&& phase_after(answered, hedged) is Finished
                &&& actions_of(answered, hedged).last() is ReturnPrimary
                &&& endings(actions_of(answered, hedged)) == 1
            }
            &&& second == 1 && endings(done) == 0 ==> {
                let answered = events.push(ReadEvent::HedgeAnswered);
                &&& phase_after(answered, hedged) is Finished
                &&& actions_of(answered, hedged).last() is ReturnHedge
                &&& endings(actions_of(answered, hedged)) == 1
            }
        }),
{
    let primary = events.push(ReadEvent::PrimaryAnswered);
    let hedge = events.push(ReadEvent::HedgeAnswered);
    lemma_next_action(events, ReadEvent::PrimaryAnswered, hedged);
    lemma_next_action(events, ReadEvent::HedgeAnswered, hedged);
    lemma_phase_shows(events, hedged);
    lemma_phase_shows(primary, hedged);
    lemma_phase_shows(hedge, hedged);
    assert(primary.drop_last() =~= events);
    assert(hedge.drop_last() =~= events);
}

/// A read whose first request is answered before the delay has passed is over then, and never makes
/// a second request, whatever else happens.
pub proof fn lemma_prompt_answer(events: Seq<ReadEvent>, hedged: bool, i: int, j: int)
    requires
        0 <= i < j < events.len(),
        events[i] is Begin,
        events[j] is PrimaryAnswered,
        forall|k: int| 0 <= k < j ==> !((#[trigger] events[k]) is DelayElapsed),
    ensures
        phase_after(events, hedged) is Finished,
        endings(actions_of(events, hedged)) == 1,
        times(actions_of(events, hedged), ReadAction::ReturnPrimary) == 1,
        times(actions_of(events, hedged), ReadAction::RequestHedge) == 0,
    decreases events.len(),
{
    let front = events.drop_last();
    let before = actions_of(front, hedged);
    let action = advance_spec(phase_after(front, hedged), events.last(), hedged).1;
    assert(before.push(action).drop_last() =~= before);
    assert(before.push(action).last() == action);
    if j < front.len() {
        assert forall|k: int| 0 <= k < j implies !((#[trigger] front[k]) is DelayElapsed) by {
            assert(front[k] == events[k]);
        }
        lemma_prompt_answer(front, hedged, i, j);
    } else {
        assert forall|k: int| 0 <= k < front.len() implies !((#[trigger] front[k]) is DelayElapsed) by {
            assert(front[k] == events[k]);
        }
        lemma_before_delay(front, hedged);
        assert(front[i] == events[i]);
    }
}

/// Before the delay has passed, a read has begun or not, or has been answered.
proof fn lemma_before_delay(events: Seq<ReadEvent>, hedged: bool)
    requires
        forall|k: int| 0 <= k < events.len() ==> !((#[trigger] events[k]) is DelayElapsed),
    ensures
        times(actions_of(events, hedged), ReadAction::RequestHedge) == 0,
        times(actions_of(events, hedged), ReadAction::ReturnHedge) == 0,
        times(actions_of(events, hedged), ReadAction::ReturnAllocationError) == 0,
        match phase_after(events, hedged) {
            ReadPhase::Idle => forall|k: int|
                0 <= k < events.len() ==> !((#[trigger] events[k]) is Begin),
            ReadPhase::Primary => endings(actions_of(events, hedged)) == 0,
            ReadPhase::Finished => times(actions_of(events, hedged), ReadAction::ReturnPrimary)
                == 1,
            _ => false,
        },
    decreases events.len(),
{
    if events.len() > 0 {
        let front = events.drop_last();
        let before = actions_of(front, hedged);
        assert forall|k: int| 0 <= k < front.len() implies !((#[trigger] front[k]) is DelayElapsed) by {
            assert(front[k] == events[k]);
        }
        lemma_before_delay(front, hedged);
        lemma_phase_shows(front, hedged);
        assert(!(events[events.len() - 1] is DelayElapsed));
        let action = advance_spec(phase_after(front, hedged), events.last(), hedged).1;
        assert(before.push(action).drop_last() =~= before);
        assert(before.push(action).last() == action);
        if phase_after(events, hedged) is Idle {
            assert forall|k: int| 0 <= k < events.len() implies !((#[trigger] events[k]) is Begin) by {
                if k < front.len() {
                    assert(front[k] == events[k]);
                }
            }
        }
    }
}

/// The counters after a sequence of actions.
pub open spec fn after_actions(
    s: ObjectStoreReadStatsSnapshot,
    actions: Seq<ReadAction>,
    length: usize,
) -> ObjectStoreReadStatsSnapshot
    decreases actions.len(),
{
    if actions.len() == 0 {
        s
    } else {
        after_action(after_actions(s, actions.drop_last(), length), actions.last(), length)
    }
}

/// As long as no counter wraps around, the counters tell how often each action occurred.
pub proof fn lemma_counted_actions(
    s: ObjectStoreReadStatsSnapshot,
    actions: Seq<ReadAction>,
    length: usize,
)
    requires
        s.requests_started + times(actions, ReadAction::RequestPrimary) + times(
            actions,
            ReadAction::RequestHedge,
        ) <= u64::MAX,
        s.hedge_requests_started + times(actions, ReadAction::RequestHedge) <= u64::MAX,
        s.hedge_wins + times(actions, ReadAction::ReturnHedge) <= u64::MAX,
    ensures
        after_actions(s, actions, length).requests_started == s.requests_started + times(
            actions,
            ReadAction::RequestPrimary,
        ) + times(actions, ReadAction::RequestHedge),
        after_actions(s, actions, length).hedge_requests_started == s.hedge_requests_started
            + times(actions, ReadAction::RequestHedge),
        after_actions(s, actions, length).hedge_wins == s.hedge_wins + times(
            actions,
            ReadAction::ReturnHedge,
        ),
        after_actions(s, actions, length).requests_completed == s.requests_completed,
    decreases actions.len(),
{
    if actions.len() > 0 {
        lemma_counted_actions(s, actions.drop_last(), length);
    }
}

/// Each request of a read counts for all bytes of the range, and the largest request is no smaller
/// than the range once a request has been made. Actions say nothing of completed requests.
pub proof fn lemma_counted_bytes(
    s: ObjectStoreReadStatsSnapshot,
    actions: Seq<ReadAction>,
    length: usize,
)
    ensures
        ({
            let after = after_actions(s, actions, length);
            let requests = times(actions, ReadAction::RequestPrimary) + times(
                actions,
                ReadAction::RequestHedge,
            );
            &&& after.bytes_started == (s.bytes_started + requests * length) % wrap()
            &&& after.max_bytes_started == (if requests > 0 && length > s.max_bytes_started {
                length as u64
            } else {
                s.max_bytes_started
            })
            &&& after.requests_completed == s.requests_completed
            &&& after.total_completed_nanos == s.total_completed_nanos
            &&& after.max_completed_nanos == s.max_completed_nanos
        }),
    decreases actions.len(),
{
    if actions.len() > 0 {
        let front = actions.drop_last();
        let before = times(front, ReadAction::RequestPrimary) + times(
            front,
            ReadAction::RequestHedge,
        );
        lemma_counted_bytes(s, front, length);
        assert((before + 1) * length == before * length + length) by (nonlinear_arith);
    } else {
        assert(0 * length == 0) by (nonlinear_arith);
    }
}

/// As long as no counter wraps around, a read keeps it true that no more second requests were
/// answered first than were made, and that no more of them were made than requests in all. A read
/// of its own accounts for at most two requests.
pub proof fn lemma_counters_ordered(
    s: ObjectStoreReadStatsSnapshot,
    events: Seq<ReadEvent>,
    hedged: bool,
    length: usize,
)
    requires
        s.hedge_wins <= s.hedge_requests_started <= s.requests_started,
        s.requests_started + 2 <= u64::MAX,
    ensures
        ({
            let after = after_actions(s, actions_of(events, hedged), length);
            &&& after.hedge_wins <= after.hedge_requests_started <= after.requests_started
            &&& after.requests_started <= s.requests_started + 2
        }),
{
    lemma_bounded_requests(events, hedged);
    lemma_counted_actions(s, actions_of(events, hedged), length);
}

} // verus!
