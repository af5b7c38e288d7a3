//! What holds of every call, whatever the events that reach it.

use vstd::prelude::*;
use crate::abort::aborted;
use crate::call::ToolCallView;
use crate::coordinator::{
    transition, CallActionView, CallEventView, CallPlanView, CallStateView,
};
use crate::error::FunctionCallErrorView;
use crate::response::{cache_eligible, call_id_of, with_call_id, ResponseInputItemView};

verus! {

/// How far a call is from returning, at most: the number of steps that it
/// can still take.
pub open spec fn steps_left(state: CallStateView) -> nat {
    match state {
        CallStateView::Start => 9,
        CallStateView::CheckTurnCache => 8,
        CallStateView::CheckSessionCache => 7,
        CallStateView::Promoting { .. } => 1,
        CallStateView::JoinSingleFlight => 6,
        CallStateView::Following => 5,
        CallStateView::Dispatching { .. } => 4,
        CallStateView::Classifying { .. } => 3,
        CallStateView::Publishing { .. } => 1,
        CallStateView::Done => 0,
    }
}

/// Every step that a call takes brings it closer to its return, and a call
/// that has returned takes no step: a call never runs in circles.
pub proof fn lemma_every_step_makes_progress(
    call: ToolCallView,
    plan: CallPlanView,
    state: CallStateView,
    event: CallEventView,
)
    ensures
        transition(call, plan, state, event).1 is Some ==> steps_left(
            transition(call, plan, state, event).0,
        ) < steps_left(state),
        transition(call, plan, state, event).1 is None ==> transition(call, plan, state, event).0
            == state,
        state is Done ==> transition(call, plan, state, event).1 is None,
        (transition(call, plan, state, event).1 matches Some(CallActionView::Return(_)))
            <==> transition(call, plan, state, event).1 is Some && transition(
            call,
            plan,
            state,
            event,
        ).0 is Done,
{
}

/// Whether the call leads and has not yet come to publish: others may be
/// waiting for it.
pub open spec fn owes_publishing(state: CallStateView) -> bool {
    match state {
        CallStateView::Dispatching { leader } => leader,
        CallStateView::Classifying { leader, .. } => leader,
        _ => false,
    }
}

/// A leader never returns without telling its followers: whatever reaches
/// it, be it a result, a failure or a cancellation, its next step keeps it
/// leading or makes it publish, and only the publishing is followed by the
/// return.
pub proof fn lemma_leader_always_publishes(
    call: ToolCallView,
    plan: CallPlanView,
    state: CallStateView,
    event: CallEventView,
)
    requires
        owes_publishing(state),
        transition(call, plan, state, event).1 is Some,
    ensures
        owes_publishing(transition(call, plan, state, event).0) || (transition(
            call,
            plan,
            state,
            event,
        ).0 is Publishing && transition(call, plan, state, event).1 matches Some(
            CallActionView::Publish(_),
        )),
        !(transition(call, plan, state, event).1 matches Some(CallActionView::Return(_))),
{
}

/// A leader that is cancelled while the router is at work publishes that it
/// has nothing to share, and returns the abort answer once it has.
pub proof fn lemma_cancelled_leader_releases_followers(
    call: ToolCallView,
    plan: CallPlanView,
    elapsed: Seq<char>,
)
    ensures
        ({
            let cancelled = transition(
                call,
                plan,
                CallStateView::Dispatching { leader: true },
                CallEventView::Cancelled { elapsed },
            );
            let published = transition(call, plan, cancelled.0, CallEventView::Published);
            &&& cancelled.1 == Some(CallActionView::Publish(None))
            &&& published.0 is Done
            &&& published.1 == Some(
                CallActionView::Return(
                    Ok::<ResponseInputItemView, FunctionCallErrorView>(aborted(call, elapsed)),
                ),
            )
        }),
{
}

/// A follower that is cancelled returns the abort answer at once, and what
/// its leader publishes afterwards no longer reaches it.
pub proof fn lemma_cancelled_follower_returns_at_once(
    call: ToolCallView,
    plan: CallPlanView,
    elapsed: Seq<char>,
    late: Option<ResponseInputItemView>,
)
    ensures
        ({
            let cancelled = transition(
                call,
                plan,
                CallStateView::Following,
                CallEventView::Cancelled { elapsed },
            );
            &&& cancelled.0 is Done
            &&& cancelled.1 == Some(
                CallActionView::Return(
                    Ok::<ResponseInputItemView, FunctionCallErrorView>(aborted(call, elapsed)),
                ),
            )
            &&& transition(call, plan, cancelled.0, CallEventView::LeaderResolved(late)).1 is None
        }),
{
}

/// A cancellation stores nothing and shares nothing.
pub proof fn lemma_abort_answer_is_never_kept(
    call: ToolCallView,
    plan: CallPlanView,
    state: CallStateView,
    elapsed: Seq<char>,
)
    ensures
        ({
            let step = transition(call, plan, state, CallEventView::Cancelled { elapsed });
            &&& !(step.1 matches Some(CallActionView::Store { .. }))
            &&& !(step.1 matches Some(CallActionView::Publish(Some(_))))
        }),
{
}

/// A leader whose result cannot be reused publishes that it has nothing to
/// share. A follower that learns so goes to the router itself, not as a
/// leader, and returns what the router gives it: such a call runs once for
/// each caller.
pub proof fn lemma_followers_fall_back_to_dispatch(
    call: ToolCallView,
    plan: CallPlanView,
    leader_result: ResponseInputItemView,
    own_result: ResponseInputItemView,
)
    requires
        !cache_eligible(leader_result),
        !cache_eligible(own_result),
    ensures
        transition(
            call,
            plan,
            CallStateView::Dispatching { leader: true },
            CallEventView::Dispatched(Ok(leader_result)),
        ).1 == Some(CallActionView::Publish(None)),
        transition(call, plan, CallStateView::Following, CallEventView::LeaderResolved(None)) == (
            CallStateView::Dispatching { leader: false },
            Some(CallActionView::Dispatch { shared: plan.parallel }),
        ),
        transition(
            call,
            plan,
            CallStateView::Dispatching { leader: false },
            CallEventView::Dispatched(Ok(own_result)),
        ) == (
            CallStateView::Done,
            Some(
                CallActionView::Return(
                    Ok::<ResponseInputItemView, FunctionCallErrorView>(
                        with_call_id(own_result, call.call_id),
                    ),
                ),
            ),
        ),
{
}

/// What a step stores or shares is a result of the router that can be
/// reused, or a hit of the session tier.
pub proof fn lemma_only_reusable_results_are_kept(
    call: ToolCallView,
    plan: CallPlanView,
    leader: bool,
    outcome: Result<ResponseInputItemView, FunctionCallErrorView>,
)
    ensures
        ({
            let step = transition(
                call,
                plan,
                CallStateView::Dispatching { leader },
                CallEventView::Dispatched(outcome),
            );
            &&& step.1 matches Some(CallActionView::Store { result, .. }) ==> outcome == Ok::<
                ResponseInputItemView,
                FunctionCallErrorView,
            >(result) && cache_eligible(result)
            &&& step.1 matches Some(CallActionView::Publish(Some(result))) ==> outcome == Ok::<
                ResponseInputItemView,
                FunctionCallErrorView,
            >(result) && cache_eligible(result)
            &&& step.0 matches CallStateView::Classifying { result, .. } ==> cache_eligible(result)
        }),
{
}

/// Whatever a call returns as its result is addressed to that call: a
/// result that was cached or shared under another request's id comes back
/// under the caller's own.
pub proof fn lemma_returned_result_names_the_caller(
    call: ToolCallView,
    plan: CallPlanView,
    state: CallStateView,
    event: CallEventView,
)
    ensures
        transition(call, plan, state, event).1 matches Some(CallActionView::Return(Ok(response)))
            ==> response is Message || call_id_of(response) == Some(call.call_id),
{
}

/// A hit in either tier is returned under the caller's id with nothing else
/// changed, and the router is not asked.
pub proof fn lemma_cache_hit_is_readdressed(
    call: ToolCallView,
    plan: CallPlanView,
    hit: ResponseInputItemView,
)
    ensures
        transition(
            call,
            plan,
            CallStateView::CheckTurnCache,
            CallEventView::TurnCacheLookup(Some(hit)),
        ) == (
            CallStateView::Done,
            Some(
                CallActionView::Return(
                    Ok::<ResponseInputItemView, FunctionCallErrorView>(
                        with_call_id(hit, call.call_id),
                    ),
                ),
            ),
        ),
        transition(
            call,
            plan,
            CallStateView::Following,
            CallEventView::LeaderResolved(Some(hit)),
        ) == (
            CallStateView::Done,
            Some(
                CallActionView::Return(
                    Ok::<ResponseInputItemView, FunctionCallErrorView>(
                        with_call_id(hit, call.call_id),
                    ),
                ),
            ),
        ),
{
}

} // verus!
