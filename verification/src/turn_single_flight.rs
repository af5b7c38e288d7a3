//! Single flight: when the calls of one key run the router once.

use vstd::prelude::*;
use crate::call::ToolCallView;
use crate::coordinator::{CallActionView, CallEventView, CallPlanView, CallStateView};
use crate::error::FunctionCallErrorView;
use crate::response::{cache_eligible, with_call_id, ResponseInputItemView};
use crate::turn_invariants::leads;
use crate::turn_model::{
    after, answers, begun, lawful, lemma_run_keeps_the_calls, run, Participant, Turn,
};

verus! {

/// The result that everything in the turn derives from: what the router
/// returned when it first ran the call.
pub open spec fn the_result(turn: Turn) -> ResponseInputItemView {
    turn.dispatched[0]->Ok_0
}

/// What holds of each call of a turn in which single flight works.
pub open spec fn fits(turn: Turn, call: Participant) -> bool {
    let ran = turn.dispatched.len() == 1;
    let result = the_result(turn);
    &&& !(call.state is Done) ==> call.returned is None
    &&& leads(call.state) ==> turn.in_flight is Some && call.slot == turn.in_flight
    &&& match call.state {
        CallStateView::Start => call.pending is None,
        CallStateView::CheckTurnCache => call.pending == Some(CallActionView::LookupTurnCache),
        CallStateView::CheckSessionCache => call.pending == Some(
            CallActionView::LookupSessionCache { ttl_secs: turn.plan.settings.ttl_secs },
        ),
        CallStateView::Promoting { hit } => ran && hit == result && call.pending == Some(
            CallActionView::Store {
                result: hit,
                turn: true,
                session: false,
                max_entries: turn.plan.settings.max_entries,
            },
        ),
        CallStateView::JoinSingleFlight => call.pending == Some(CallActionView::JoinSingleFlight),
        CallStateView::Following => call.pending == Some(CallActionView::AwaitLeader)
            && call.slot is Some && call.slot->0 < turn.slots.len(),
        CallStateView::Dispatching { leader } => leader && turn.dispatched.len() == 0
            && call.pending == Some(CallActionView::Dispatch { shared: turn.plan.parallel }),
        CallStateView::Classifying { leader, result: held } => leader && ran && held == result
            && call.pending == Some(
            CallActionView::Store {
                result: held,
                turn: true,
                session: turn.plan.session_cache,
                max_entries: turn.plan.settings.max_entries,
            },
        ),
        CallStateView::Publishing { outcome } => ran && outcome == Ok::<
            ResponseInputItemView,
            FunctionCallErrorView,
        >(result) && call.pending == Some(CallActionView::Publish(Some(result)))
            && turn.turn_tier == Some(result),
        CallStateView::Done => ran && call.pending is None && call.returned == Some(
            Ok::<ResponseInputItemView, FunctionCallErrorView>(
                with_call_id(result, call.call.call_id),
            ),
        ),
    }
}

/// Single flight works in the turn: the router has run the call at most
/// once, whatever is cached, published or returned is the result of that one
/// run, and at most one call leads.
pub open spec fn single_flight(turn: Turn) -> bool {
    let result = the_result(turn);
    &&& turn.plan.turn_cache
    &&& turn.dispatched.len() <= 1
    &&& turn.dispatched.len() == 1 ==> turn.dispatched[0] is Ok && cache_eligible(result)
    &&& turn.turn_tier is Some ==> turn.dispatched.len() == 1 && turn.turn_tier == Some(result)
    &&& turn.session_tier is Some ==> turn.dispatched.len() == 1 && turn.session_tier == Some(
        result,
    )
    &&& turn.in_flight is Some ==> turn.in_flight->0 < turn.slots.len()
        && turn.slots[turn.in_flight->0 as int] is None
    &&& forall|slot: int|
        0 <= slot < turn.slots.len() && (#[trigger] turn.slots[slot]) is Some
            ==> turn.dispatched.len() == 1 && turn.slots[slot] == Some(Some(result))
    &&& forall|i: int| 0 <= i < turn.calls.len() ==> fits(turn, #[trigger] turn.calls[i])
    &&& forall|i: int, j: int|
        0 <= i < turn.calls.len() && 0 <= j < turn.calls.len() && leads(
            (#[trigger] turn.calls[i]).state,
        ) && leads((#[trigger] turn.calls[j]).state) ==> i == j
}

/// Nothing disturbs the step: the call is not cancelled, and where the
/// router is done it has a result that can be reused.
pub open spec fn calm(event: CallEventView) -> bool {
    match event {
        CallEventView::Cancelled { .. } => false,
        CallEventView::Dispatched(outcome) => outcome is Ok && cache_eligible(outcome->Ok_0),
        _ => true,
    }
}

/// The call `who` is about to join the calls in flight after the leader of
/// its key has run the call and left. Such a call saw both tiers empty before
/// the leader filled them, finds no leader to follow, and leads a second run.
pub open spec fn late_join(turn: Turn, who: int) -> bool {
    &&& turn.calls[who].pending == Some(CallActionView::JoinSingleFlight)
    &&& turn.in_flight is None
    &&& turn.dispatched.len() > 0
}

/// Before any call has begun, single flight works.
pub proof fn lemma_single_flight_at_first(plan: CallPlanView, calls: Seq<ToolCallView>)
    requires
        plan.turn_cache,
    ensures
        single_flight(begun(plan, calls)),
{
}

/// A step in which nothing disturbs and nobody joins late keeps single
/// flight working.
pub proof fn lemma_single_flight_step(turn: Turn, who: int, event: CallEventView)
    requires
        single_flight(turn),
        answers(turn, who, event),
        calm(event),
        !late_join(turn, who),
    ensures
        single_flight(after(turn, who, event)),
{
    let next = after(turn, who, event);
    let before = turn.calls[who];
    assert(fits(turn, before));
    assert(fits(next, next.calls[who]));
    assert forall|i: int| 0 <= i < next.calls.len() implies fits(next, #[trigger] next.calls[i]) by {
        if i != who {
            assert(next.calls[i] == turn.calls[i]);
            assert(fits(turn, turn.calls[i]));
            if leads(turn.calls[i].state) && leads(before.state) {
                assert(i == who);
            }
        }
    }
    assert forall|i: int, j: int|
        0 <= i < next.calls.len() && 0 <= j < next.calls.len() && leads(
            (#[trigger] next.calls[i]).state,
        ) && leads((#[trigger] next.calls[j]).state) implies i == j by {
        assert(fits(turn, turn.calls[i]));
        assert(fits(turn, turn.calls[j]));
    }
    assert forall|slot: int|
        0 <= slot < next.slots.len() && (#[trigger] next.slots[slot]) is Some
            implies next.dispatched.len() == 1 && next.slots[slot] == Some(
        Some(the_result(next)),
    ) by {
        if slot < turn.slots.len() && turn.slots[slot] is Some {
            assert(turn.slots[slot] == Some(Some(the_result(turn))));
        }
    }
}

/// Along the whole schedule every step is an answer to what its call waits
/// for, nothing disturbs, and nobody joins late.
pub open spec fn orderly(turn: Turn, schedule: Seq<(int, CallEventView)>) -> bool
    decreases schedule.len(),
{
    schedule.len() == 0 || {
        let earlier = run(turn, schedule.drop_last());
        &&& orderly(turn, schedule.drop_last())
        &&& answers(earlier, schedule.last().0, schedule.last().1)
        &&& calm(schedule.last().1)
        &&& !late_join(earlier, schedule.last().0)
    }
}

/// An orderly schedule is a lawful one.
pub proof fn lemma_orderly_is_lawful(turn: Turn, schedule: Seq<(int, CallEventView)>)
    requires
        orderly(turn, schedule),
    ensures
        lawful(turn, schedule),
    decreases schedule.len(),
{
    if schedule.len() > 0 {
        lemma_orderly_is_lawful(turn, schedule.drop_last());
    }
}

/// An orderly run keeps single flight working.
pub proof fn lemma_orderly_run(turn: Turn, schedule: Seq<(int, CallEventView)>)
    requires
        single_flight(turn),
        orderly(turn, schedule),
    ensures
        single_flight(run(turn, schedule)),
    decreases schedule.len(),
{
    if schedule.len() > 0 {
        lemma_orderly_run(turn, schedule.drop_last());
        lemma_single_flight_step(
            run(turn, schedule.drop_last()),
            schedule.last().0,
            schedule.last().1,
        );
    }
}

/// Single flight: any number of calls of one key, on a tool whose results
/// are cached for the turn, begin with nothing cached and take their steps
/// in any order. As long as no call is cancelled, the router's result can
/// be reused and no call joins late, the router runs the call at most once;
/// it has run it exactly once as soon as one call has returned; and every
/// call that has returned has that one result, addressed to itself.
pub proof fn lemma_single_flight(
    plan: CallPlanView,
    calls: Seq<ToolCallView>,
    schedule: Seq<(int, CallEventView)>,
)
    requires
        plan.turn_cache,
        orderly(begun(plan, calls), schedule),
    ensures
        ({
            let end = run(begun(plan, calls), schedule);
            &&& end.calls.len() == calls.len()
            &&& end.dispatched.len() <= 1
            &&& forall|i: int|
                0 <= i < calls.len() && (#[trigger] end.calls[i]).returned is Some ==> {
                    &&& end.dispatched.len() == 1
                    &&& end.calls[i].state is Done
                    &&& end.calls[i].returned == Some(
                        Ok::<ResponseInputItemView, FunctionCallErrorView>(
                            with_call_id(the_result(end), calls[i].call_id),
                        ),
                    )
                }
            &&& forall|i: int|
                0 <= i < calls.len() && (#[trigger] end.calls[i]).state is Done
                    ==> end.calls[i].returned is Some
        }),
{
    let start = begun(plan, calls);
    let end = run(start, schedule);
    lemma_single_flight_at_first(plan, calls);
    lemma_orderly_run(start, schedule);
    lemma_orderly_is_lawful(start, schedule);
    lemma_run_keeps_the_calls(start, schedule);
    assert forall|i: int| 0 <= i < calls.len() implies fits(end, #[trigger] end.calls[i])
        && end.calls[i].call == calls[i] by {
        assert(start.calls[i].call == calls[i]);
    }
}

/// Why a late join is set apart: two calls of one key, the second of which
/// looks into the turn tier before the first has stored its result and joins
/// only after the first has published and left. Every step is an answer to
/// what its call waits for and nothing disturbs, yet the second call finds no
/// leader, leads, and the router runs the call a second time.
pub proof fn lemma_late_join_runs_the_call_twice(
    plan: CallPlanView,
    first: ToolCallView,
    second: ToolCallView,
    result: ResponseInputItemView,
    again: ResponseInputItemView,
)
    requires
        plan.turn_cache,
        !plan.session_cache,
        cache_eligible(result),
        cache_eligible(again),
    ensures
        ({
            let t0 = begun(plan, seq![first, second]);
            let t1 = after(t0, 0, CallEventView::Begin);
            let t2 = after(t1, 1, CallEventView::Begin);
            let t3 = after(t2, 0, CallEventView::TurnCacheLookup(None));
            let t4 = after(t3, 1, CallEventView::TurnCacheLookup(None));
            let t5 = after(t4, 0, CallEventView::Joined { leader: true });
            let t6 = after(t5, 0, CallEventView::Dispatched(Ok(result)));
            let t7 = after(t6, 0, CallEventView::Stored);
            let t8 = after(t7, 0, CallEventView::Published);
            let t9 = after(t8, 1, CallEventView::Joined { leader: true });
            let t10 = after(t9, 1, CallEventView::Dispatched(Ok(again)));
            &&& answers(t0, 0, CallEventView::Begin)
            &&& answers(t1, 1, CallEventView::Begin)
            &&& answers(t2, 0, CallEventView::TurnCacheLookup(None))
            &&& answers(t3, 1, CallEventView::TurnCacheLookup(None))
            &&& answers(t4, 0, CallEventView::Joined { leader: true })
            &&& answers(t5, 0, CallEventView::Dispatched(Ok(result)))
            &&& answers(t6, 0, CallEventView::Stored)
            &&& answers(t7, 0, CallEventView::Published)
            &&& answers(t8, 1, CallEventView::Joined { leader: true })
            &&& answers(t9, 1, CallEventView::Dispatched(Ok(again)))
            &&& t8.calls[0].returned == Some(
                Ok::<ResponseInputItemView, FunctionCallErrorView>(
                    with_call_id(result, first.call_id),
                ),
            )
            &&& late_join(t8, 1)
            &&& t10.dispatched.len() == 2
        }),
{
    let t0 = begun(plan, seq![first, second]);
    let t1 = after(t0, 0, CallEventView::Begin);
    let t2 = after(t1, 1, CallEventView::Begin);
    let t3 = after(t2, 0, CallEventView::TurnCacheLookup(None));
    let t4 = after(t3, 1, CallEventView::TurnCacheLookup(None));
    let t5 = after(t4, 0, CallEventView::Joined { leader: true });
    let t6 = after(t5, 0, CallEventView::Dispatched(Ok(result)));
    let t7 = after(t6, 0, CallEventView::Stored);
    let t8 = after(t7, 0, CallEventView::Published);
    let t9 = after(t8, 1, CallEventView::Joined { leader: true });
    assert(t1.calls[0].state is CheckTurnCache);
    assert(t2.calls[1].state is CheckTurnCache);
    assert(t3.calls[0].state is JoinSingleFlight);
    assert(t4.calls[1].state is JoinSingleFlight);
    assert(t4.calls[0].state is JoinSingleFlight);
    assert(t5.calls[0].state is Dispatching);
    assert(t6.calls[0].state is Classifying);
    assert(t7.calls[0].state is Publishing);
    assert(t8.calls[0].state is Done);
    assert(t8.calls[1].pending == Some(CallActionView::JoinSingleFlight));
    assert(t8.in_flight is None);
    assert(t9.calls[1].state is Dispatching);
}

} // verus!
