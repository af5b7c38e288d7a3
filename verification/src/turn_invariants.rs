//! What holds of every turn, whatever happens in it: the slots are looked
//! after, nobody waits in vain, and nothing is cached, shared or returned that
//! did not come from the router.

use vstd::prelude::*;
use crate::abort::aborted;
use crate::call::ToolCallView;
use crate::coordinator::{
    returned, transition, CallActionView, CallEventView, CallPlanView, CallStateView,
};
use crate::error::FunctionCallErrorView;
use crate::response::{cache_eligible, ResponseInputItemView};
use crate::turn_model::{after, answers, begun, lawful, run, Participant, Turn};

verus! {

/// Whether a call in this state leads: it has registered a slot and has not
/// yet published in it.
pub open spec fn leads(state: CallStateView) -> bool {
    match state {
        CallStateView::Dispatching { leader } => leader,
        CallStateView::Classifying { leader, .. } => leader,
        CallStateView::Publishing { .. } => true,
        _ => false,
    }
}

/// The action that a call in this state waits on is the one that the state
/// stands for, and a call that leads or follows holds its slot.
pub open spec fn in_step(turn: Turn, call: Participant) -> bool {
    &&& leads(call.state) ==> turn.in_flight is Some && call.slot == turn.in_flight
    &&& match call.state {
        CallStateView::Start => call.pending is None,
        CallStateView::CheckTurnCache => call.pending == Some(CallActionView::LookupTurnCache),
        CallStateView::CheckSessionCache => call.pending matches Some(
            CallActionView::LookupSessionCache { .. },
        ),
        CallStateView::Promoting { .. } => call.pending matches Some(CallActionView::Store { .. }),
        CallStateView::JoinSingleFlight => call.pending == Some(CallActionView::JoinSingleFlight),
        CallStateView::Following => call.pending == Some(CallActionView::AwaitLeader)
            && call.slot is Some && call.slot->0 < turn.slots.len(),
        CallStateView::Dispatching { .. } => call.pending matches Some(
            CallActionView::Dispatch { .. },
        ),
        CallStateView::Classifying { .. } => call.pending matches Some(
            CallActionView::Store { .. },
        ),
        CallStateView::Publishing { .. } => call.pending matches Some(CallActionView::Publish(_)),
        CallStateView::Done => call.pending is None,
    }
}

/// The slots are looked after: a slot is open only while it is registered,
/// a slot is registered only while its leader is at work, and no slot has two
/// leaders. This holds of every turn, whatever happens in it.
pub open spec fn looked_after(turn: Turn) -> bool {
    &&& turn.in_flight is Some ==> turn.in_flight->0 < turn.slots.len()
        && turn.slots[turn.in_flight->0 as int] is None
    &&& forall|slot: int|
        0 <= slot < turn.slots.len() && (#[trigger] turn.slots[slot]) is None ==> turn.in_flight
            == Some(slot as nat)
    &&& forall|i: int| 0 <= i < turn.calls.len() ==> in_step(turn, #[trigger] turn.calls[i])
    &&& forall|i: int, j: int|
        0 <= i < turn.calls.len() && 0 <= j < turn.calls.len() && leads(
            (#[trigger] turn.calls[i]).state,
        ) && leads((#[trigger] turn.calls[j]).state) ==> i == j
    &&& turn.in_flight is Some ==> exists|i: int|
        0 <= i < turn.calls.len() && leads((#[trigger] turn.calls[i]).state)
}

/// Before any call has begun, the slots are looked after.
pub proof fn lemma_looked_after_at_first(plan: CallPlanView, calls: Seq<ToolCallView>)
    ensures
        looked_after(begun(plan, calls)),
{
}

/// Every step keeps the slots looked after: whether a call is answered, is
/// cancelled or fails, and in whatever order the calls take their steps.
pub proof fn lemma_looked_after_step(turn: Turn, who: int, event: CallEventView)
    requires
        looked_after(turn),
        answers(turn, who, event),
    ensures
        looked_after(after(turn, who, event)),
{
    let next = after(turn, who, event);
    let before = turn.calls[who];
    assert(in_step(turn, before));
    assert(in_step(next, next.calls[who]));
    assert forall|i: int| 0 <= i < next.calls.len() implies in_step(
        next,
        #[trigger] next.calls[i],
    ) by {
        if i != who {
            assert(next.calls[i] == turn.calls[i]);
            assert(in_step(turn, turn.calls[i]));
            if leads(turn.calls[i].state) && leads(before.state) {
                assert(i == who);
            }
        }
    }
    assert forall|i: int, j: int|
        0 <= i < next.calls.len() && 0 <= j < next.calls.len() && leads(
            (#[trigger] next.calls[i]).state,
        ) && leads((#[trigger] next.calls[j]).state) implies i == j by {
        assert(in_step(turn, turn.calls[i]));
        assert(in_step(turn, turn.calls[j]));
    }
    assert forall|slot: int|
        0 <= slot < next.slots.len() && (#[trigger] next.slots[slot]) is None
            implies next.in_flight == Some(slot as nat) by {
        if slot < turn.slots.len() && turn.slots[slot] is None {
            assert(turn.in_flight == Some(slot as nat));
        }
    }
    if next.in_flight is Some {
        if leads(next.calls[who].state) {
            assert(leads(next.calls[who].state));
        } else {
            let leader = choose|i: int|
                0 <= i < turn.calls.len() && leads((#[trigger] turn.calls[i]).state);
            assert(in_step(turn, turn.calls[leader]));
            assert(leader != who);
            assert(next.calls[leader] == turn.calls[leader]);
            assert(leads(next.calls[leader].state));
        }
    }
}

/// The slots are looked after throughout every run.
pub proof fn lemma_looked_after_run(turn: Turn, schedule: Seq<(int, CallEventView)>)
    requires
        looked_after(turn),
        lawful(turn, schedule),
    ensures
        looked_after(run(turn, schedule)),
    decreases schedule.len(),
{
    if schedule.len() > 0 {
        lemma_looked_after_run(turn, schedule.drop_last());
        lemma_looked_after_step(
            run(turn, schedule.drop_last()),
            schedule.last().0,
            schedule.last().1,
        );
    }
}

/// Nobody waits in vain. In a turn whose slots are looked after, every call
/// that has not returned can take its next step without being cancelled, with
/// one exception: a follower whose leader has not published yet. That
/// leader is still at work, and, not being a follower, can itself take its
/// next step. So no call is ever stuck behind a leader that has left.
pub proof fn lemma_nobody_waits_in_vain(turn: Turn, who: int)
    requires
        looked_after(turn),
        0 <= who < turn.calls.len(),
        !(turn.calls[who].state is Done),
    ensures
        (exists|event: CallEventView| #[trigger] answers(turn, who, event) && !(event is Cancelled))
            || (turn.calls[who].state is Following && exists|leader: int|
            0 <= leader < turn.calls.len() && leads((#[trigger] turn.calls[leader]).state)
                && turn.calls[leader].slot == turn.calls[who].slot && exists|event: CallEventView|
                #[trigger] answers(turn, leader, event) && !(event is Cancelled)),
{
    let call = turn.calls[who];
    assert(in_step(turn, call));
    match call.state {
        CallStateView::Start => {
            assert(answers(turn, who, CallEventView::Begin));
        },
        CallStateView::CheckTurnCache => {
            assert(answers(turn, who, CallEventView::TurnCacheLookup(turn.turn_tier)));
        },
        CallStateView::CheckSessionCache => {
            assert(answers(turn, who, CallEventView::SessionCacheLookup(None)));
        },
        CallStateView::Promoting { .. } => {
            assert(answers(turn, who, CallEventView::Stored));
        },
        CallStateView::JoinSingleFlight => {
            assert(answers(turn, who, CallEventView::Joined { leader: turn.in_flight is None }));
        },
        CallStateView::Following => {
            let slot = call.slot->0 as int;
            if turn.slots[slot] is Some {
                assert(answers(turn, who, CallEventView::LeaderResolved(turn.slots[slot]->0)));
            } else {
                assert(turn.in_flight == Some(slot as nat));
                let leader = choose|i: int|
                    0 <= i < turn.calls.len() && leads((#[trigger] turn.calls[i]).state);
                assert(in_step(turn, turn.calls[leader]));
                lemma_leader_can_step(turn, leader);
            }
        },
        CallStateView::Dispatching { .. } => {
            assert(answers(
                turn,
                who,
                CallEventView::Dispatched(Err(FunctionCallErrorView::Other(Seq::empty()))),
            ));
        },
        CallStateView::Classifying { .. } => {
            assert(answers(turn, who, CallEventView::Stored));
        },
        CallStateView::Publishing { .. } => {
            assert(answers(turn, who, CallEventView::Published));
        },
        CallStateView::Done => {},
    }
}

/// A leader can always take its next step: it waits for the router, for a
/// store or for its own publishing, never for another call.
proof fn lemma_leader_can_step(turn: Turn, leader: int)
    requires
        looked_after(turn),
        0 <= leader < turn.calls.len(),
        leads(turn.calls[leader].state),
    ensures
        exists|event: CallEventView| #[trigger] answers(turn, leader, event) && !(event is Cancelled),
{
    assert(in_step(turn, turn.calls[leader]));
    match turn.calls[leader].state {
        CallStateView::Dispatching { .. } => {
            assert(answers(
                turn,
                leader,
                CallEventView::Dispatched(Err(FunctionCallErrorView::Other(Seq::empty()))),
            ));
        },
        CallStateView::Classifying { .. } => {
            assert(answers(turn, leader, CallEventView::Stored));
        },
        _ => {
            assert(answers(turn, leader, CallEventView::Published));
        },
    }
}

/// The router has returned `result` in this turn.
pub open spec fn from_router(turn: Turn, result: ResponseInputItemView) -> bool {
    exists|run: int|
        0 <= run < turn.dispatched.len() && #[trigger] turn.dispatched[run] == Ok::<
            ResponseInputItemView,
            FunctionCallErrorView,
        >(result)
}

/// The router has failed with `error` in this turn.
pub open spec fn failed_with(turn: Turn, error: FunctionCallErrorView) -> bool {
    exists|run: int|
        0 <= run < turn.dispatched.len() && #[trigger] turn.dispatched[run] == Err::<
            ResponseInputItemView,
            FunctionCallErrorView,
        >(error)
}

/// `result` is a result of the router in this turn that can be reused.
pub open spec fn reusable(turn: Turn, result: ResponseInputItemView) -> bool {
    from_router(turn, result) && cache_eligible(result)
}

/// `outcome` is what a call of the turn came to: a result of the router, the
/// abort answer of the call, or a failure of the router.
pub open spec fn accounted_for(
    turn: Turn,
    call: ToolCallView,
    outcome: Result<ResponseInputItemView, FunctionCallErrorView>,
) -> bool {
    match outcome {
        Ok(result) => from_router(turn, result) || exists|elapsed: Seq<char>|
            result == #[trigger] aborted(call, elapsed),
        Err(error) => failed_with(turn, error),
    }
}

/// `outcome` is what a call of the turn came to, addressed to the call.
pub open spec fn answered(
    turn: Turn,
    call: ToolCallView,
    outcome: Result<ResponseInputItemView, FunctionCallErrorView>,
) -> bool {
    exists|raw: Result<ResponseInputItemView, FunctionCallErrorView>|
        #[trigger] accounted_for(turn, call, raw) && outcome == returned(call, raw)
}

/// What a call holds, is about to store or publish, or has returned comes
/// from the router.
pub open spec fn well_sourced(turn: Turn, call: Participant) -> bool {
    &&& match call.state {
        CallStateView::Promoting { hit } => reusable(turn, hit),
        CallStateView::Classifying { result, .. } => reusable(turn, result),
        CallStateView::Publishing { outcome } => accounted_for(turn, call.call, outcome),
        _ => true,
    }
    &&& match call.pending {
        Some(CallActionView::Store { result, .. }) => reusable(turn, result),
        Some(CallActionView::Publish(Some(result))) => reusable(turn, result),
        _ => true,
    }
    &&& match call.returned {
        Some(outcome) => answered(turn, call.call, outcome),
        None => true,
    }
}

/// Nothing is made up: whatever the tiers hold and whatever was published
/// is a result of the router that can be reused, and whatever a call has
/// returned is a result of the router under the call's id, the call's own
/// abort answer, or a failure of the router. In particular no abort answer
/// and no result that cannot be reused is ever stored or shared. This holds
/// of every turn that began with nothing cached, whatever happens in it.
pub open spec fn sound(turn: Turn) -> bool {
    &&& turn.turn_tier matches Some(result) ==> reusable(turn, result)
    &&& turn.session_tier matches Some(result) ==> reusable(turn, result)
    &&& forall|slot: int|
        0 <= slot < turn.slots.len() ==> ((#[trigger] turn.slots[slot]) matches Some(Some(result))
            ==> reusable(turn, result))
    &&& forall|i: int| 0 <= i < turn.calls.len() ==> well_sourced(turn, #[trigger] turn.calls[i])
}

/// Before any call has begun, nothing is made up.
pub proof fn lemma_sound_at_first(plan: CallPlanView, calls: Seq<ToolCallView>)
    ensures
        sound(begun(plan, calls)),
{
}

/// What the router has returned stays returned.
proof fn lemma_router_results_stay(turn: Turn, who: int, event: CallEventView)
    ensures
        forall|result: ResponseInputItemView|
            from_router(turn, result) ==> from_router(after(turn, who, event), result),
        forall|error: FunctionCallErrorView|
            failed_with(turn, error) ==> failed_with(after(turn, who, event), error),
        forall|call: ToolCallView, outcome: Result<ResponseInputItemView, FunctionCallErrorView>|
            accounted_for(turn, call, outcome) ==> accounted_for(
                after(turn, who, event),
                call,
                outcome,
            ),
        forall|call: ToolCallView, outcome: Result<ResponseInputItemView, FunctionCallErrorView>|
            answered(turn, call, outcome) ==> answered(after(turn, who, event), call, outcome),
{
    let next = after(turn, who, event);
    assert forall|result: ResponseInputItemView| from_router(turn, result) implies from_router(
        next,
        result,
    ) by {
        let run = choose|run: int|
            0 <= run < turn.dispatched.len() && #[trigger] turn.dispatched[run] == Ok::<
                ResponseInputItemView,
                FunctionCallErrorView,
            >(result);
        assert(next.dispatched[run] == turn.dispatched[run]);
    }
    assert forall|error: FunctionCallErrorView| failed_with(turn, error) implies failed_with(
        next,
        error,
    ) by {
        let run = choose|run: int|
            0 <= run < turn.dispatched.len() && #[trigger] turn.dispatched[run] == Err::<
                ResponseInputItemView,
                FunctionCallErrorView,
            >(error);
        assert(next.dispatched[run] == turn.dispatched[run]);
    }
    assert forall|call: ToolCallView, outcome: Result<ResponseInputItemView, FunctionCallErrorView>|
        answered(turn, call, outcome) implies answered(next, call, outcome) by {
        let raw = choose|raw: Result<ResponseInputItemView, FunctionCallErrorView>|
            #[trigger] accounted_for(turn, call, raw) && outcome == returned(call, raw);
        assert(accounted_for(next, call, raw));
    }
}

/// Every step keeps everything accounted for: whether a call is answered,
/// is cancelled or fails, and in whatever order the calls take their steps.
pub proof fn lemma_sound_step(turn: Turn, who: int, event: CallEventView)
    requires
        sound(turn),
        answers(turn, who, event),
    ensures
        sound(after(turn, who, event)),
{
    let next = after(turn, who, event);
    let before = turn.calls[who];
    lemma_router_results_stay(turn, who, event);
    assert(well_sourced(turn, before));
    if event is Dispatched && before.pending is Some && before.pending->0 is Dispatch {
        assert(next.dispatched[turn.dispatched.len() as int] == event->Dispatched_0);
    }
    if before.pending == Some(CallActionView::AwaitLeader) && event is LeaderResolved {
        assert(turn.slots[before.slot->0 as int] is Some);
    }
    let step = transition(before.call, turn.plan, before.state, event);
    if step.1 is Some && step.1->0 is Return {
        let outcome = step.1->0->Return_0;
        let raw: Result<ResponseInputItemView, FunctionCallErrorView> = match (
            before.state,
            event,
        ) {
            (_, CallEventView::TurnCacheLookup(Some(hit))) => Ok(hit),
            (_, CallEventView::SessionCacheLookup(Some(hit))) => Ok(hit),
            (CallStateView::Promoting { hit }, _) => Ok(hit),
            (_, CallEventView::LeaderResolved(Some(result))) => Ok(result),
            (_, CallEventView::Cancelled { elapsed }) => Ok(aborted(before.call, elapsed)),
            (_, CallEventView::Dispatched(outcome)) => outcome,
            (CallStateView::Classifying { result, .. }, _) => Ok(result),
            (CallStateView::Publishing { outcome }, _) => outcome,
            _ => Ok(aborted(before.call, Seq::empty())),
        };
        assert(outcome == returned(before.call, raw));
        assert(accounted_for(next, before.call, raw));
        assert(answered(next, before.call, outcome));
    }
    assert(well_sourced(next, next.calls[who]));
    assert forall|i: int| 0 <= i < next.calls.len() implies well_sourced(
        next,
        #[trigger] next.calls[i],
    ) by {
        if i != who {
            assert(next.calls[i] == turn.calls[i]);
            assert(well_sourced(turn, turn.calls[i]));
        }
    }
    assert forall|slot: int| 0 <= slot < next.slots.len() implies ((
    #[trigger] next.slots[slot]) matches Some(Some(result)) ==> reusable(next, result)) by {
        if slot < turn.slots.len() {
            assert(turn.slots[slot] matches Some(Some(result)) ==> reusable(turn, result));
        }
    }
}

/// Nothing is made up throughout every run.
pub proof fn lemma_sound_run(turn: Turn, schedule: Seq<(int, CallEventView)>)
    requires
        sound(turn),
        lawful(turn, schedule),
    ensures
        sound(run(turn, schedule)),
    decreases schedule.len(),
{
    if schedule.len() > 0 {
        lemma_sound_run(turn, schedule.drop_last());
        lemma_sound_step(run(turn, schedule.drop_last()), schedule.last().0, schedule.last().1);
    }
}

} // verus!
