//! Two calls of one key, step by step: how a follower shares its leader's
//! result, what happens when there is nothing to share, and what a
//! cancellation does to the one and to the other.

use vstd::prelude::*;
use crate::abort::aborted;
use crate::call::ToolCallView;
use crate::coordinator::{CallActionView, CallEventView, CallPlanView, CallStateView};
use crate::error::FunctionCallErrorView;
use crate::response::{cache_eligible, with_call_id, ResponseInputItemView};
use crate::turn_model::{after, answers, begun, run, waiting, Participant, Turn};
use crate::turn_single_flight::orderly;

verus! {

/// Two calls of one key, the second of which joins while the first is with
/// the router: the second follows, the router runs the call once, and each
/// call returns that one result under its own id.
pub proof fn lemma_follower_shares_the_leaders_result(
    plan: CallPlanView,
    first: ToolCallView,
    second: ToolCallView,
    result: ResponseInputItemView,
)
    requires
        plan.turn_cache,
        !plan.session_cache,
        cache_eligible(result),
    ensures
        ({
            let schedule = seq![
                (0int, CallEventView::Begin),
                (0int, CallEventView::TurnCacheLookup(None)),
                (0int, CallEventView::Joined { leader: true }),
                (1int, CallEventView::Begin),
                (1int, CallEventView::TurnCacheLookup(None)),
                (1int, CallEventView::Joined { leader: false }),
                (0int, CallEventView::Dispatched(Ok(result))),
                (0int, CallEventView::Stored),
                (0int, CallEventView::Published),
                (1int, CallEventView::LeaderResolved(Some(result))),
            ];
            let end = run(begun(plan, seq![first, second]), schedule);
            &&& orderly(begun(plan, seq![first, second]), schedule)
            &&& end.dispatched == seq![
                Ok::<ResponseInputItemView, FunctionCallErrorView>(result),
            ]
            &&& end.calls[0].returned == Some(
                Ok::<ResponseInputItemView, FunctionCallErrorView>(
                    with_call_id(result, first.call_id),
                ),
            )
            &&& end.calls[1].returned == Some(
                Ok::<ResponseInputItemView, FunctionCallErrorView>(
                    with_call_id(result, second.call_id),
                ),
            )
        }),
{
    let e0 = (0int, CallEventView::Begin);
    let e1 = (0int, CallEventView::TurnCacheLookup(None));
    let e2 = (0int, CallEventView::Joined { leader: true });
    let e3 = (1int, CallEventView::Begin);
    let e4 = (1int, CallEventView::TurnCacheLookup(None));
    let e5 = (1int, CallEventView::Joined { leader: false });
    let e6 = (0int, CallEventView::Dispatched(Ok(result)));
    let e7 = (0int, CallEventView::Stored);
    let e8 = (0int, CallEventView::Published);
    let e9 = (1int, CallEventView::LeaderResolved(Some(result)));
    let start = begun(plan, seq![first, second]);
    let s0 = Seq::<(int, CallEventView)>::empty();
    let s1 = s0.push(e0);
    let s2 = s1.push(e1);
    let s3 = s2.push(e2);
    let s4 = s3.push(e3);
    let s5 = s4.push(e4);
    let s6 = s5.push(e5);
    let s7 = s6.push(e6);
    let s8 = s7.push(e7);
    let s9 = s8.push(e8);
    let s10 = s9.push(e9);
    assert(s1.drop_last() =~= s0);
    assert(s2.drop_last() =~= s1);
    assert(s3.drop_last() =~= s2);
    assert(s4.drop_last() =~= s3);
    assert(s5.drop_last() =~= s4);
    assert(s6.drop_last() =~= s5);
    assert(s7.drop_last() =~= s6);
    assert(s8.drop_last() =~= s7);
    assert(s9.drop_last() =~= s8);
    assert(s10.drop_last() =~= s9);
    assert(s10 =~= seq![e0, e1, e2, e3, e4, e5, e6, e7, e8, e9]);
    let t0 = run(start, s0);
    assert(t0 == start);
    assert(orderly(start, s0));
    assert(start.calls.len() == 2);
    assert(start.calls[0] == waiting(first));
    assert(start.calls[1] == waiting(second));
    let t1 = run(start, s1);
    assert(t1 == after(t0, 0, e0.1));
    assert(answers(t0, 0, e0.1));
    assert(orderly(start, s1));
    let t2 = run(start, s2);
    assert(t2 == after(t1, 0, e1.1));
    assert(t1.calls[0].state is CheckTurnCache);
    assert(orderly(start, s2));
    let t3 = run(start, s3);
    assert(t3 == after(t2, 0, e2.1));
    assert(t2.calls[0].state is JoinSingleFlight);
    assert(orderly(start, s3));
    let t4 = run(start, s4);
    assert(t4 == after(t3, 1, e3.1));
    assert(t3.calls[0].state is Dispatching);
    assert(orderly(start, s4));
    let t5 = run(start, s5);
    assert(t5 == after(t4, 1, e4.1));
    assert(t4.calls[1].state is CheckTurnCache);
    assert(orderly(start, s5));
    let t6 = run(start, s6);
    assert(t6 == after(t5, 1, e5.1));
    assert(t5.calls[1].state is JoinSingleFlight);
    assert(t5.in_flight == Some(0nat));
    assert(orderly(start, s6));
    let t7 = run(start, s7);
    assert(t7 == after(t6, 0, e6.1));
    assert(t6.calls[1].state is Following);
    assert(t6.calls[0].state is Dispatching);
    assert(orderly(start, s7));
    let t8 = run(start, s8);
    assert(t8 == after(t7, 0, e7.1));
    assert(t7.calls[0].state is Classifying);
    assert(orderly(start, s8));
    let t9 = run(start, s9);
    assert(t9 == after(t8, 0, e8.1));
    assert(t8.calls[0].state is Publishing);
    assert(orderly(start, s9));
    let t10 = run(start, s10);
    assert(t10 == after(t9, 1, e9.1));
    assert(t9.calls[0].state is Done);
    assert(t9.calls[1].state is Following);
    assert(t9.calls[1].slot == Some(0nat));
    assert(t9.slots[0] == Some(Some(result)));
    assert(orderly(start, s10));
    assert(t10.dispatched =~= seq![Ok::<ResponseInputItemView, FunctionCallErrorView>(result)]);
}

/// The turn once the first of two calls leads and is with the router, and
/// the second follows it.
pub open spec fn led_and_followed(plan: CallPlanView, first: ToolCallView, second: ToolCallView) -> Turn {
    let t0 = begun(plan, seq![first, second]);
    let t1 = after(t0, 0, CallEventView::Begin);
    let t2 = after(t1, 0, CallEventView::TurnCacheLookup(None));
    let t3 = after(t2, 0, CallEventView::Joined { leader: true });
    let t4 = after(t3, 1, CallEventView::Begin);
    let t5 = after(t4, 1, CallEventView::TurnCacheLookup(None));
    after(t5, 1, CallEventView::Joined { leader: false })
}

proof fn lemma_led_and_followed(plan: CallPlanView, first: ToolCallView, second: ToolCallView)
    requires
        plan.turn_cache,
        !plan.session_cache,
    ensures
        ({
            let turn = led_and_followed(plan, first, second);
            &&& turn.plan == plan
            &&& turn.calls.len() == 2
            &&& turn.calls[0] == (Participant {
                call: first,
                state: CallStateView::Dispatching { leader: true },
                pending: Some(CallActionView::Dispatch { shared: plan.parallel }),
                slot: Some(0nat),
                returned: None,
            })
            &&& turn.calls[1] == (Participant {
                call: second,
                state: CallStateView::Following,
                pending: Some(CallActionView::AwaitLeader),
                slot: Some(0nat),
                returned: None,
            })
            &&& turn.in_flight == Some(0nat)
            &&& turn.slots == seq![None::<Option<ResponseInputItemView>>]
            &&& turn.turn_tier is None
            &&& turn.session_tier is None
            &&& turn.dispatched.len() == 0
        }),
{
    let t0 = begun(plan, seq![first, second]);
    let t1 = after(t0, 0, CallEventView::Begin);
    let t2 = after(t1, 0, CallEventView::TurnCacheLookup(None));
    let t3 = after(t2, 0, CallEventView::Joined { leader: true });
    let t4 = after(t3, 1, CallEventView::Begin);
    let t5 = after(t4, 1, CallEventView::TurnCacheLookup(None));
    let t6 = after(t5, 1, CallEventView::Joined { leader: false });
    assert(t0.calls[0] == waiting(first));
    assert(t0.calls[1] == waiting(second));
    assert(t1.calls[0].state is CheckTurnCache);
    assert(t2.calls[0].state is JoinSingleFlight);
    assert(t3.calls[0].state is Dispatching);
    assert(t3.slots =~= seq![None::<Option<ResponseInputItemView>>]);
    assert(t4.calls[1].state is CheckTurnCache);
    assert(t5.calls[1].state is JoinSingleFlight);
    assert(t6.calls[1].state is Following);
}

/// A leader whose result cannot be reused shares nothing, and its follower
/// runs the call itself: the router runs the call once for each of the two,
/// each returns what the router gave it, and nothing is cached.
pub proof fn lemma_unshared_result_runs_once_per_caller(
    plan: CallPlanView,
    first: ToolCallView,
    second: ToolCallView,
    result: ResponseInputItemView,
    again: ResponseInputItemView,
)
    requires
        plan.turn_cache,
        !plan.session_cache,
        !cache_eligible(result),
        !cache_eligible(again),
    ensures
        ({
            let t0 = led_and_followed(plan, first, second);
            let t1 = after(t0, 0, CallEventView::Dispatched(Ok(result)));
            let t2 = after(t1, 0, CallEventView::Published);
            let t3 = after(t2, 1, CallEventView::LeaderResolved(None));
            let t4 = after(t3, 1, CallEventView::Dispatched(Ok(again)));
            &&& answers(t0, 0, CallEventView::Dispatched(Ok(result)))
            &&& answers(t1, 0, CallEventView::Published)
            &&& answers(t2, 1, CallEventView::LeaderResolved(None))
            &&& answers(t3, 1, CallEventView::Dispatched(Ok(again)))
            &&& t4.dispatched.len() == 2
            &&& t4.turn_tier is None
            &&& t4.calls[0].returned == Some(
                Ok::<ResponseInputItemView, FunctionCallErrorView>(
                    with_call_id(result, first.call_id),
                ),
            )
            &&& t4.calls[1].returned == Some(
                Ok::<ResponseInputItemView, FunctionCallErrorView>(
                    with_call_id(again, second.call_id),
                ),
            )
        }),
{
    lemma_led_and_followed(plan, first, second);
    let t0 = led_and_followed(plan, first, second);
    let t1 = after(t0, 0, CallEventView::Dispatched(Ok(result)));
    let t2 = after(t1, 0, CallEventView::Published);
    let t3 = after(t2, 1, CallEventView::LeaderResolved(None));
    assert(t1.calls[0].state is Publishing);
    assert(t1.calls[0].pending == Some(CallActionView::Publish(None)));
    assert(t2.calls[0].state is Done);
    assert(t2.slots[0] == Some(None::<ResponseInputItemView>));
    assert(t2.calls[1] == t0.calls[1]);
    assert(t3.calls[1].state is Dispatching);
}

/// A leader that is cancelled while the router is at work releases its
/// follower: it publishes that it has nothing to share and returns the abort
/// answer, and the follower, no longer waiting, goes to the router itself.
pub proof fn lemma_cancelled_leader_releases_its_follower(
    plan: CallPlanView,
    first: ToolCallView,
    second: ToolCallView,
    elapsed: Seq<char>,
)
    requires
        plan.turn_cache,
        !plan.session_cache,
    ensures
        ({
            let t0 = led_and_followed(plan, first, second);
            let t1 = after(t0, 0, CallEventView::Cancelled { elapsed });
            let t2 = after(t1, 0, CallEventView::Published);
            let t3 = after(t2, 1, CallEventView::LeaderResolved(None));
            &&& answers(t0, 0, CallEventView::Cancelled { elapsed })
            &&& answers(t1, 0, CallEventView::Published)
            &&& answers(t2, 1, CallEventView::LeaderResolved(None))
            &&& t2.calls[0].returned == Some(
                Ok::<ResponseInputItemView, FunctionCallErrorView>(aborted(first, elapsed)),
            )
            &&& t2.in_flight is None
            &&& t2.turn_tier is None
            &&& t3.calls[1].state == (CallStateView::Dispatching { leader: false })
            &&& t3.calls[1].pending == Some(CallActionView::Dispatch { shared: plan.parallel })
        }),
{
    lemma_led_and_followed(plan, first, second);
    let t0 = led_and_followed(plan, first, second);
    let t1 = after(t0, 0, CallEventView::Cancelled { elapsed });
    let t2 = after(t1, 0, CallEventView::Published);
    assert(t1.calls[0].state is Publishing);
    assert(t1.calls[0].pending == Some(CallActionView::Publish(None)));
    assert(t2.calls[0].state is Done);
    assert(t2.slots[0] == Some(None::<ResponseInputItemView>));
    assert(t2.calls[1] == t0.calls[1]);
}

/// A follower that is cancelled before its leader has published returns the
/// abort answer without waiting any longer, and the leader stays at work as
/// if nothing had happened: when the leader publishes later, the follower
/// has long returned and its answer stays what it was.
pub proof fn lemma_cancelled_follower_leaves_the_leader_at_work(
    plan: CallPlanView,
    first: ToolCallView,
    second: ToolCallView,
    elapsed: Seq<char>,
    result: ResponseInputItemView,
)
    requires
        plan.turn_cache,
        !plan.session_cache,
        cache_eligible(result),
    ensures
        ({
            let t0 = led_and_followed(plan, first, second);
            let t1 = after(t0, 1, CallEventView::Cancelled { elapsed });
            let t2 = after(t1, 0, CallEventView::Dispatched(Ok(result)));
            let t3 = after(t2, 0, CallEventView::Stored);
            let t4 = after(t3, 0, CallEventView::Published);
            &&& answers(t0, 1, CallEventView::Cancelled { elapsed })
            &&& t1.calls[1].state is Done
            &&& t1.calls[1].returned == Some(
                Ok::<ResponseInputItemView, FunctionCallErrorView>(aborted(second, elapsed)),
            )
            &&& t1.calls[0] == t0.calls[0]
            &&& t1.in_flight == t0.in_flight
            &&& answers(t1, 0, CallEventView::Dispatched(Ok(result)))
            &&& answers(t2, 0, CallEventView::Stored)
            &&& answers(t3, 0, CallEventView::Published)
            &&& t4.calls[1] == t1.calls[1]
            &&& t4.calls[0].returned == Some(
                Ok::<ResponseInputItemView, FunctionCallErrorView>(
                    with_call_id(result, first.call_id),
                ),
            )
            &&& t4.dispatched.len() == 1
        }),
{
    lemma_led_and_followed(plan, first, second);
    let t0 = led_and_followed(plan, first, second);
    let t1 = after(t0, 1, CallEventView::Cancelled { elapsed });
    let t2 = after(t1, 0, CallEventView::Dispatched(Ok(result)));
    let t3 = after(t2, 0, CallEventView::Stored);
    assert(t1.calls[1].state is Done);
    assert(t2.calls[0].state is Classifying);
    assert(t3.calls[0].state is Publishing);
}

} // verus!
