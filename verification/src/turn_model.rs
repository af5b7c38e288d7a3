//! A turn as a whole: several calls of one key under way at once, together
//! with the tiers and the slots that they share.
//!
//! The model takes the calls one step at a time, in any order. A step is one
//! call's pending action together with the answer that the shared state
//! gives to it.

use vstd::prelude::*;
use crate::call::ToolCallView;
use crate::coordinator::{
    transition, CallActionView, CallEventView, CallPlanView, CallStateView,
};
use crate::error::FunctionCallErrorView;
use crate::response::ResponseInputItemView;

verus! {

/// One call of the turn.
pub struct Participant {
    pub call: ToolCallView,
    pub state: CallStateView,
    /// The action that waits for its answer; none before the call begins and
    /// after it has returned.
    pub pending: Option<CallActionView>,
    /// The slot that the call leads or follows.
    pub slot: Option<nat>,
    /// What the call returned.
    pub returned: Option<Result<ResponseInputItemView, FunctionCallErrorView>>,
}

/// The calls of one key and what they share.
pub struct Turn {
    /// The plan of each of the calls: they are calls of one tool and one key.
    pub plan: CallPlanView,
    pub calls: Seq<Participant>,
    /// What the turn tier holds under the key.
    pub turn_tier: Option<ResponseInputItemView>,
    /// What the session tier holds under the key.
    pub session_tier: Option<ResponseInputItemView>,
    /// The slot that is registered under the key, while a leader is at work.
    pub in_flight: Option<nat>,
    /// Every slot that was ever registered, with what was published in it.
    pub slots: Seq<Option<Option<ResponseInputItemView>>>,
    /// What the router returned, once for each time it ran the call.
    pub dispatched: Seq<Result<ResponseInputItemView, FunctionCallErrorView>>,
}

/// A call that has not begun.
pub open spec fn waiting(call: ToolCallView) -> Participant {
    Participant { call, state: CallStateView::Start, pending: None, slot: None, returned: None }
}

/// The turn before any of `calls` has begun, with nothing cached under the
/// key.
pub open spec fn begun(plan: CallPlanView, calls: Seq<ToolCallView>) -> Turn {
    Turn {
        plan,
        calls: calls.map_values(|call: ToolCallView| waiting(call)),
        turn_tier: None,
        session_tier: None,
        in_flight: None,
        slots: Seq::empty(),
        dispatched: Seq::empty(),
    }
}

/// Whether `event` tells the follower `who` what was published in its slot.
pub open spec fn resolves(turn: Turn, who: int, event: CallEventView) -> bool {
    match turn.calls[who].slot {
        Some(slot) => {
            &&& slot < turn.slots.len()
            &&& turn.slots[slot as int] is Some
            &&& event == CallEventView::LeaderResolved(turn.slots[slot as int]->0)
        },
        None => false,
    }
}

/// Whether `event` can be the answer to what the call `who` waits for.
pub open spec fn answers(turn: Turn, who: int, event: CallEventView) -> bool {
    &&& 0 <= who < turn.calls.len()
    &&& match turn.calls[who].pending {
        None => turn.calls[who].state is Start && event is Begin,
        Some(CallActionView::LookupTurnCache) => event == CallEventView::TurnCacheLookup(
            turn.turn_tier,
        ),
        // An entry of the session tier may have expired.
        Some(CallActionView::LookupSessionCache { .. }) => event
            == CallEventView::SessionCacheLookup(turn.session_tier) || event
            == CallEventView::SessionCacheLookup(None),
        Some(CallActionView::Store { .. }) => event is Stored,
        Some(CallActionView::JoinSingleFlight) => event == (CallEventView::Joined {
            leader: turn.in_flight is None,
        }),
        Some(CallActionView::AwaitLeader) => event is Cancelled || resolves(turn, who, event),
        Some(CallActionView::Dispatch { .. }) => event is Cancelled || event is Dispatched,
        Some(CallActionView::Publish(_)) => event is Published,
        Some(CallActionView::Return(_)) => false,
    }
}

/// The shared state after the call `who` got `event` as its answer.
pub open spec fn shared_after(turn: Turn, who: int, event: CallEventView) -> Turn {
    match (turn.calls[who].pending, event) {
        (
            Some(CallActionView::LookupSessionCache { .. }),
            CallEventView::SessionCacheLookup(None),
        ) => Turn { session_tier: None, ..turn },
        (Some(CallActionView::Store { result, turn: in_turn, session, max_entries }), _) => Turn {
            turn_tier: if in_turn {
                Some(result)
            } else {
                turn.turn_tier
            },
            session_tier: if !session {
                turn.session_tier
            } else if max_entries > 0 {
                Some(result)
            } else {
                None
            },
            ..turn
        },
        (Some(CallActionView::JoinSingleFlight), _) => if turn.in_flight is None {
            Turn { in_flight: Some(turn.slots.len()), slots: turn.slots.push(None), ..turn }
        } else {
            turn
        },
        (Some(CallActionView::Dispatch { .. }), CallEventView::Dispatched(outcome)) => Turn {
            dispatched: turn.dispatched.push(outcome),
            ..turn
        },
        (Some(CallActionView::Publish(shared)), _) => Turn {
            in_flight: None,
            slots: match turn.calls[who].slot {
                Some(slot) if slot < turn.slots.len() => turn.slots.update(
                    slot as int,
                    Some(shared),
                ),
                _ => turn.slots,
            },
            ..turn
        },
        _ => turn,
    }
}

/// The call `who` after it got `event` as its answer.
pub open spec fn call_after(turn: Turn, who: int, event: CallEventView) -> Participant {
    let before = turn.calls[who];
    let step = transition(before.call, turn.plan, before.state, event);
    Participant {
        call: before.call,
        state: step.0,
        pending: match step.1 {
            Some(CallActionView::Return(_)) => None,
            Some(action) => Some(action),
            None => before.pending,
        },
        slot: if before.pending == Some(CallActionView::JoinSingleFlight) {
            shared_after(turn, who, event).in_flight
        } else {
            before.slot
        },
        returned: match step.1 {
            Some(CallActionView::Return(outcome)) => Some(outcome),
            _ => before.returned,
        },
    }
}

/// The turn after the call `who` got `event` as its answer.
pub open spec fn after(turn: Turn, who: int, event: CallEventView) -> Turn {
    let shared = shared_after(turn, who, event);
    Turn { calls: turn.calls.update(who, call_after(turn, who, event)), ..shared }
}

/// The turn after the steps of `schedule`, each a call and its answer, taken
/// in order.
pub open spec fn run(turn: Turn, schedule: Seq<(int, CallEventView)>) -> Turn
    decreases schedule.len(),
{
    if schedule.len() == 0 {
        turn
    } else {
        let earlier = run(turn, schedule.drop_last());
        after(earlier, schedule.last().0, schedule.last().1)
    }
}

/// Along the whole schedule every step is an answer to what its call waits
/// for. Nothing else is asked: calls may be cancelled, the router may fail,
/// and the calls may take their steps in any order.
pub open spec fn lawful(turn: Turn, schedule: Seq<(int, CallEventView)>) -> bool
    decreases schedule.len(),
{
    schedule.len() == 0 || {
        &&& lawful(turn, schedule.drop_last())
        &&& answers(run(turn, schedule.drop_last()), schedule.last().0, schedule.last().1)
    }
}

/// A run neither adds nor drops a call, nor changes what a call asks for.
pub proof fn lemma_run_keeps_the_calls(turn: Turn, schedule: Seq<(int, CallEventView)>)
    requires
        lawful(turn, schedule),
    ensures
        run(turn, schedule).calls.len() == turn.calls.len(),
        run(turn, schedule).plan == turn.plan,
        forall|i: int|
            0 <= i < turn.calls.len() ==> (#[trigger] run(turn, schedule).calls[i]).call
                == turn.calls[i].call,
    decreases schedule.len(),
{
    if schedule.len() > 0 {
        lemma_run_keeps_the_calls(turn, schedule.drop_last());
    }
}

} // verus!
