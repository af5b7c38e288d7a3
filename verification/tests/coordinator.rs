use tool_coordinator::call::{ToolCall, ToolPayload};
use tool_coordinator::coordinator::{
    plan_call, CallAction, CallEvent, CallMachine, CallPlan,
};
use tool_coordinator::error::{
    fatal_from_task_failure, fatal_from_tool_error, resolve_task_outcome, CodexErr,
    FunctionCallError,
};
use tool_coordinator::response::{
    FunctionCallOutputBody, FunctionCallOutputPayload, ResponseInputItem,
};
use tool_coordinator::settings::ToolCacheSettings;
use tool_coordinator::single_flight::{Role, SingleFlightRegistry};
use tool_coordinator::turn_cache::TurnResultCache;

fn call(tool_name: &str, call_id: &str) -> ToolCall {
    ToolCall {
        tool_name: tool_name.to_string(),
        call_id: call_id.to_string(),
        payload: ToolPayload::Function { arguments: r#"{"zip":"98115"}"#.to_string() },
    }
}

fn output(call_id: &str, text: &str, success: Option<bool>) -> ResponseInputItem {
    ResponseInputItem::FunctionCallOutput {
        call_id: call_id.to_string(),
        output: FunctionCallOutputPayload {
            body: FunctionCallOutputBody::Text(text.to_string()),
            success,
        },
    }
}

fn machine(tool_name: &str, call_id: &str, parallel: bool, settings: ToolCacheSettings) -> CallMachine {
    let call = call(tool_name, call_id);
    let plan = plan_call(&call, parallel, settings);
    CallMachine::new(call, plan)
}

fn show(action: &Option<CallAction>) -> String {
    match action {
        None => "refused".to_string(),
        Some(CallAction::LookupTurnCache) => "lookup-turn".to_string(),
        Some(CallAction::LookupSessionCache { ttl_secs }) => format!("lookup-session {ttl_secs}"),
        Some(CallAction::Store { result, turn, session, max_entries }) => {
            format!("store {result:?} turn={turn} session={session} max={max_entries}")
        }
        Some(CallAction::JoinSingleFlight) => "join".to_string(),
        Some(CallAction::AwaitLeader) => "await-leader".to_string(),
        Some(CallAction::Dispatch { shared }) => format!("dispatch shared={shared}"),
        Some(CallAction::Publish(shared)) => format!("publish {shared:?}"),
        Some(CallAction::Return(outcome)) => format!("return {outcome:?}"),
    }
}

fn returned(action: Option<CallAction>) -> Result<ResponseInputItem, FunctionCallError> {
    match action {
        Some(CallAction::Return(outcome)) => outcome,
        other => panic!("not a return: {}", show(&other)),
    }
}

#[test]
fn plan_of_a_query_tool_uses_both_tiers() {
    let settings = ToolCacheSettings::default();
    let plan: CallPlan = plan_call(&call("weather", "c1"), false, settings);
    assert_eq!(plan.cache_key, r#"weather|fn|{"zip":"98115"}"#);
    assert!(!plan.parallel);
    assert!(plan.turn_cache);
    assert!(plan.session_cache);
    assert_eq!(plan.settings, settings);
}

#[test]
fn plan_follows_the_tiers_and_the_switch() {
    let on = ToolCacheSettings::default();
    let off = ToolCacheSettings { enabled: false, ..on };
    let read = plan_call(&call("read_file", "c"), true, on);
    assert!(read.parallel && read.turn_cache && !read.session_cache);
    let shell = plan_call(&call("shell", "c"), false, on);
    assert!(!shell.turn_cache && !shell.session_cache);
    let weather = plan_call(&call("weather", "c"), false, off);
    assert!(weather.turn_cache && !weather.session_cache);
}

#[test]
fn turn_cache_hit_returns_at_once_under_the_callers_id() {
    let mut m = machine("weather", "call-b", false, ToolCacheSettings::default());
    assert_eq!(show(&m.step(CallEvent::Begin)), "lookup-turn");
    let action = m.step(CallEvent::TurnCacheLookup(Some(output("call-a", "sunny", Some(true)))));
    assert_eq!(returned(action), Ok(output("call-b", "sunny", Some(true))));
    assert!(m.is_done());
}

#[test]
fn session_cache_hit_is_promoted_and_returned_under_the_callers_id() {
    let mut m = machine("weather", "call-b", false, ToolCacheSettings::default());
    m.step(CallEvent::Begin);
    assert_eq!(show(&m.step(CallEvent::TurnCacheLookup(None))), "lookup-session 120");
    let action = m.step(CallEvent::SessionCacheLookup(Some(output("call-a", "sunny", None))));
    match action {
        Some(CallAction::Store { result, turn, session, .. }) => {
            assert_eq!(result, output("call-a", "sunny", None));
            assert!(turn);
            assert!(!session);
        }
        other => panic!("unexpected {}", show(&other)),
    }
    assert_eq!(returned(m.step(CallEvent::Stored)), Ok(output("call-b", "sunny", None)));
    assert!(m.is_done());
}

#[test]
fn leader_dispatches_stores_publishes_and_returns() {
    let settings = ToolCacheSettings { enabled: true, max_entries: 7, ttl_secs: 9 };
    let mut m = machine("weather", "call-1", false, settings);
    assert_eq!(show(&m.step(CallEvent::Begin)), "lookup-turn");
    assert_eq!(show(&m.step(CallEvent::TurnCacheLookup(None))), "lookup-session 9");
    assert_eq!(show(&m.step(CallEvent::SessionCacheLookup(None))), "join");
    assert_eq!(show(&m.step(CallEvent::Joined { leader: true })), "dispatch shared=false");
    let result = output("call-1", "sunny", Some(true));
    match m.step(CallEvent::Dispatched(Ok(result.clone()))) {
        Some(CallAction::Store { result: stored, turn, session, max_entries }) => {
            assert_eq!(stored, result);
            assert!(turn);
            assert!(session);
            assert_eq!(max_entries, 7);
        }
        other => panic!("unexpected {}", show(&other)),
    }
    match m.step(CallEvent::Stored) {
        Some(CallAction::Publish(shared)) => assert_eq!(shared, Some(result.clone())),
        other => panic!("unexpected {}", show(&other)),
    }
    assert!(!m.is_done());
    assert_eq!(returned(m.step(CallEvent::Published)), Ok(result));
    assert!(m.is_done());
}

#[test]
fn follower_returns_the_leaders_result_under_its_own_id() {
    let mut m = machine("read_file", "call-2", true, ToolCacheSettings::default());
    assert_eq!(show(&m.step(CallEvent::Begin)), "lookup-turn");
    assert_eq!(show(&m.step(CallEvent::TurnCacheLookup(None))), "join");
    assert_eq!(show(&m.step(CallEvent::Joined { leader: false })), "await-leader");
    let action = m.step(CallEvent::LeaderResolved(Some(output("call-1", "contents", None))));
    assert_eq!(returned(action), Ok(output("call-2", "contents", None)));
}

#[test]
fn follower_dispatches_itself_when_the_leader_shared_nothing() {
    let mut m = machine("read_file", "call-2", true, ToolCacheSettings::default());
    m.step(CallEvent::Begin);
    m.step(CallEvent::TurnCacheLookup(None));
    m.step(CallEvent::Joined { leader: false });
    assert_eq!(show(&m.step(CallEvent::LeaderResolved(None))), "dispatch shared=true");
    let failed = output("call-2", "no such file", Some(false));
    assert_eq!(returned(m.step(CallEvent::Dispatched(Ok(failed.clone())))), Ok(failed));
    assert!(m.is_done());
}

#[test]
fn fallback_follower_stores_a_reusable_result_but_publishes_nothing() {
    let mut m = machine("read_file", "call-2", true, ToolCacheSettings::default());
    m.step(CallEvent::Begin);
    m.step(CallEvent::TurnCacheLookup(None));
    m.step(CallEvent::Joined { leader: false });
    m.step(CallEvent::LeaderResolved(None));
    let result = output("call-2", "contents", None);
    match m.step(CallEvent::Dispatched(Ok(result.clone()))) {
        Some(CallAction::Store { turn, session, .. }) => {
            assert!(turn);
            assert!(!session);
        }
        other => panic!("unexpected {}", show(&other)),
    }
    assert_eq!(returned(m.step(CallEvent::Stored)), Ok(result));
}

#[test]
fn leader_with_a_result_that_cannot_be_reused_publishes_nothing() {
    let mut m = machine("weather", "call-1", false, ToolCacheSettings::default());
    m.step(CallEvent::Begin);
    m.step(CallEvent::TurnCacheLookup(None));
    m.step(CallEvent::SessionCacheLookup(None));
    m.step(CallEvent::Joined { leader: true });
    let failed = output("call-1", "service down", Some(false));
    match m.step(CallEvent::Dispatched(Ok(failed.clone()))) {
        Some(CallAction::Publish(shared)) => assert_eq!(shared, None),
        other => panic!("unexpected {}", show(&other)),
    }
    assert_eq!(returned(m.step(CallEvent::Published)), Ok(failed));
}

#[test]
fn leader_with_a_failure_publishes_nothing_and_returns_the_failure() {
    let mut m = machine("weather", "call-1", false, ToolCacheSettings::default());
    m.step(CallEvent::Begin);
    m.step(CallEvent::TurnCacheLookup(None));
    m.step(CallEvent::SessionCacheLookup(None));
    m.step(CallEvent::Joined { leader: true });
    let failure = FunctionCallError::Other("tool exploded".to_string());
    match m.step(CallEvent::Dispatched(Err(failure.clone()))) {
        Some(CallAction::Publish(shared)) => assert_eq!(shared, None),
        other => panic!("unexpected {}", show(&other)),
    }
    assert_eq!(returned(m.step(CallEvent::Published)), Err(failure));
}

#[test]
fn cancelled_follower_returns_the_abort_answer() {
    let mut m = machine("weather", "call-2", false, ToolCacheSettings::default());
    m.step(CallEvent::Begin);
    m.step(CallEvent::TurnCacheLookup(None));
    m.step(CallEvent::SessionCacheLookup(None));
    m.step(CallEvent::Joined { leader: false });
    let action = m.step(CallEvent::Cancelled { elapsed: "0.1".to_string() });
    assert_eq!(returned(action), Ok(output("call-2", "aborted by user after 0.1s", None)));
    assert!(m.is_done());
    assert_eq!(show(&m.step(CallEvent::LeaderResolved(Some(output("call-1", "late", None))))), "refused");
    assert!(m.is_done());
}

#[test]
fn cancelled_leader_publishes_nothing_then_returns_the_abort_answer() {
    let mut m = machine("weather", "call-1", false, ToolCacheSettings::default());
    m.step(CallEvent::Begin);
    m.step(CallEvent::TurnCacheLookup(None));
    m.step(CallEvent::SessionCacheLookup(None));
    m.step(CallEvent::Joined { leader: true });
    match m.step(CallEvent::Cancelled { elapsed: "3.2".to_string() }) {
        Some(CallAction::Publish(shared)) => assert_eq!(shared, None),
        other => panic!("unexpected {}", show(&other)),
    }
    assert_eq!(
        returned(m.step(CallEvent::Published)),
        Ok(output("call-1", "aborted by user after 3.2s", None))
    );
}

#[test]
fn tool_without_tiers_goes_straight_to_the_router() {
    let mut m = machine("shell", "call-1", false, ToolCacheSettings::default());
    assert_eq!(show(&m.step(CallEvent::Begin)), "dispatch shared=false");
    let result = output("call-1", "done", Some(true));
    assert_eq!(returned(m.step(CallEvent::Dispatched(Ok(result.clone())))), Ok(result));
}

#[test]
fn tool_without_tiers_returns_the_abort_answer_when_cancelled() {
    let mut m = machine("shell", "call-1", false, ToolCacheSettings::default());
    m.step(CallEvent::Begin);
    let action = m.step(CallEvent::Cancelled { elapsed: "0.5".to_string() });
    assert_eq!(
        returned(action),
        Ok(output("call-1", "Wall time: 0.5 seconds\naborted by user", None))
    );
}

#[test]
fn parallel_tools_ask_for_the_shared_gate() {
    let mut m = machine("shell", "call-1", true, ToolCacheSettings::default());
    assert_eq!(show(&m.step(CallEvent::Begin)), "dispatch shared=true");
}

#[test]
fn session_tier_is_skipped_when_switched_off() {
    let off = ToolCacheSettings { enabled: false, max_entries: 64, ttl_secs: 120 };
    let mut m = machine("weather", "call-1", false, off);
    m.step(CallEvent::Begin);
    assert_eq!(show(&m.step(CallEvent::TurnCacheLookup(None))), "join");
    m.step(CallEvent::Joined { leader: true });
    match m.step(CallEvent::Dispatched(Ok(output("call-1", "sunny", None)))) {
        Some(CallAction::Store { turn, session, .. }) => {
            assert!(turn);
            assert!(!session);
        }
        other => panic!("unexpected {}", show(&other)),
    }
}

#[test]
fn dispatched_result_is_returned_under_the_callers_id() {
    let mut m = machine("shell", "call-1", false, ToolCacheSettings::default());
    m.step(CallEvent::Begin);
    let action = m.step(CallEvent::Dispatched(Ok(output("someone-else", "done", None))));
    assert_eq!(returned(action), Ok(output("call-1", "done", None)));
}

#[test]
fn a_message_from_the_router_is_returned_but_never_kept() {
    let mut m = machine("weather", "call-1", false, ToolCacheSettings::default());
    m.step(CallEvent::Begin);
    m.step(CallEvent::TurnCacheLookup(None));
    m.step(CallEvent::SessionCacheLookup(None));
    m.step(CallEvent::Joined { leader: true });
    let message = ResponseInputItem::Message { role: "user".to_string(), content: vec!["hi".to_string()] };
    match m.step(CallEvent::Dispatched(Ok(message.clone()))) {
        Some(CallAction::Publish(shared)) => assert_eq!(shared, None),
        other => panic!("unexpected {}", show(&other)),
    }
    assert_eq!(returned(m.step(CallEvent::Published)), Ok(message));
}

#[test]
fn events_that_are_not_awaited_are_refused_and_change_nothing() {
    let mut m = machine("weather", "call-1", false, ToolCacheSettings::default());
    assert_eq!(show(&m.step(CallEvent::Stored)), "refused");
    assert_eq!(show(&m.step(CallEvent::Published)), "refused");
    assert_eq!(show(&m.step(CallEvent::Cancelled { elapsed: "1.0".to_string() })), "refused");
    assert_eq!(show(&m.step(CallEvent::Begin)), "lookup-turn");
    assert_eq!(show(&m.step(CallEvent::Begin)), "refused");
    assert_eq!(show(&m.step(CallEvent::SessionCacheLookup(None))), "refused");
    assert_eq!(show(&m.step(CallEvent::Joined { leader: true })), "refused");
    assert_eq!(show(&m.step(CallEvent::TurnCacheLookup(None))), "lookup-session 120");
    assert!(!m.is_done());
}

#[test]
fn machine_keeps_its_call_and_plan() {
    let m = machine("weather", "call-1", true, ToolCacheSettings::default());
    assert_eq!(m.call().call_id, "call-1");
    assert_eq!(m.plan().cache_key, m.cache_key());
    assert_eq!(m.cache_key(), r#"weather|fn|{"zip":"98115"}"#);
    assert!(m.plan().parallel);
    assert!(!m.is_done());
}

/// Runs the calls one after the other against the shared parts, each to
/// its end, and counts how often the router is asked.
fn drive(
    m: &mut CallMachine,
    turn: &mut TurnResultCache,
    registry: &mut SingleFlightRegistry<u32>,
    router_result: &ResponseInputItem,
    dispatches: &mut u32,
) -> Result<ResponseInputItem, FunctionCallError> {
    let mut event = CallEvent::Begin;
    loop {
        let action = m.step(event);
        event = match action {
            Some(CallAction::LookupTurnCache) => CallEvent::TurnCacheLookup(turn.get(m.cache_key())),
            Some(CallAction::LookupSessionCache { .. }) => CallEvent::SessionCacheLookup(None),
            Some(CallAction::Store { result, turn: in_turn, .. }) => {
                if in_turn {
                    turn.insert(m.cache_key().to_string(), result);
                }
                CallEvent::Stored
            }
            Some(CallAction::JoinSingleFlight) => match registry.join_or_lead(m.cache_key(), 0) {
                Role::Leader => CallEvent::Joined { leader: true },
                Role::Follower(_) => CallEvent::Joined { leader: false },
            },
            Some(CallAction::AwaitLeader) => panic!("nobody else is at work"),
            Some(CallAction::Dispatch { .. }) => {
                *dispatches += 1;
                CallEvent::Dispatched(Ok(router_result.clone()))
            }
            Some(CallAction::Publish(_)) => {
                registry.complete(m.cache_key());
                CallEvent::Published
            }
            Some(CallAction::Return(outcome)) => return outcome,
            None => panic!("refused"),
        };
    }
}

#[test]
fn a_second_call_of_the_turn_is_answered_from_the_turn_tier() {
    let mut turn = TurnResultCache::new();
    let mut registry: SingleFlightRegistry<u32> = SingleFlightRegistry::new();
    let mut dispatches = 0;
    let result = output("call-a", "sunny", Some(true));
    let mut first = machine("weather", "call-a", false, ToolCacheSettings::default());
    let mut second = machine("weather", "call-b", false, ToolCacheSettings::default());
    assert_eq!(
        drive(&mut first, &mut turn, &mut registry, &result, &mut dispatches),
        Ok(output("call-a", "sunny", Some(true)))
    );
    assert_eq!(
        drive(&mut second, &mut turn, &mut registry, &result, &mut dispatches),
        Ok(output("call-b", "sunny", Some(true)))
    );
    assert_eq!(dispatches, 1);
    assert!(!registry.is_in_flight(r#"weather|fn|{"zip":"98115"}"#));
}

#[test]
fn a_result_that_cannot_be_reused_is_run_again_for_the_next_call() {
    let mut turn = TurnResultCache::new();
    let mut registry: SingleFlightRegistry<u32> = SingleFlightRegistry::new();
    let mut dispatches = 0;
    let result = output("call-a", "failed", Some(false));
    let mut first = machine("weather", "call-a", false, ToolCacheSettings::default());
    let mut second = machine("weather", "call-b", false, ToolCacheSettings::default());
    drive(&mut first, &mut turn, &mut registry, &result, &mut dispatches).unwrap();
    assert_eq!(
        drive(&mut second, &mut turn, &mut registry, &result, &mut dispatches),
        Ok(output("call-b", "failed", Some(false)))
    );
    assert_eq!(dispatches, 2);
}

#[test]
fn two_calls_at_once_run_the_router_once() {
    let mut turn = TurnResultCache::new();
    let mut registry: SingleFlightRegistry<u32> = SingleFlightRegistry::new();
    let mut leader = machine("weather", "call-a", false, ToolCacheSettings::default());
    let mut follower = machine("weather", "call-b", false, ToolCacheSettings::default());
    let key = leader.cache_key().to_string();

    leader.step(CallEvent::Begin);
    leader.step(CallEvent::TurnCacheLookup(turn.get(&key)));
    assert_eq!(show(&leader.step(CallEvent::SessionCacheLookup(None))), "join");
    let role = registry.join_or_lead(&key, 1);
    assert!(matches!(role, Role::Leader));
    assert_eq!(show(&leader.step(CallEvent::Joined { leader: true })), "dispatch shared=false");

    follower.step(CallEvent::Begin);
    follower.step(CallEvent::TurnCacheLookup(turn.get(&key)));
    follower.step(CallEvent::SessionCacheLookup(None));
    let slot = match registry.join_or_lead(&key, 2) {
        Role::Follower(slot) => slot,
        Role::Leader => panic!("a second leader"),
    };
    assert_eq!(slot, 1);
    assert_eq!(show(&follower.step(CallEvent::Joined { leader: false })), "await-leader");

    let result = output("call-a", "sunny", None);
    let stored = match leader.step(CallEvent::Dispatched(Ok(result.clone()))) {
        Some(CallAction::Store { result, .. }) => result,
        other => panic!("unexpected {}", show(&other)),
    };
    turn.insert(key.clone(), stored);
    let published = match leader.step(CallEvent::Stored) {
        Some(CallAction::Publish(shared)) => shared,
        other => panic!("unexpected {}", show(&other)),
    };
    registry.complete(&key);
    assert_eq!(returned(leader.step(CallEvent::Published)), Ok(output("call-a", "sunny", None)));
    assert_eq!(
        returned(follower.step(CallEvent::LeaderResolved(published))),
        Ok(output("call-b", "sunny", None))
    );
    assert_eq!(turn.get(&key), Some(result));
    assert!(!registry.is_in_flight(&key));
}

#[test]
fn router_failures_become_fatal_with_their_text() {
    assert_eq!(
        fatal_from_tool_error(FunctionCallError::Fatal("disk gone".to_string())),
        CodexErr::Fatal("disk gone".to_string())
    );
    assert_eq!(
        fatal_from_tool_error(FunctionCallError::Other("bad arguments".to_string())),
        CodexErr::Fatal("bad arguments".to_string())
    );
}

#[test]
fn a_lost_task_becomes_fatal_with_its_reason() {
    assert_eq!(
        fatal_from_task_failure("JoinError::Cancelled"),
        CodexErr::Fatal("tool task failed to receive: JoinError::Cancelled".to_string())
    );
}

#[test]
fn task_outcome_resolves_to_result_or_fatal() {
    let result = output("c", "ok", None);
    assert_eq!(resolve_task_outcome(Ok(Ok(result.clone()))), Ok(result));
    assert_eq!(
        resolve_task_outcome(Ok(Err(FunctionCallError::Fatal("f".to_string())))),
        Err(CodexErr::Fatal("f".to_string()))
    );
    assert_eq!(
        resolve_task_outcome(Ok(Err(FunctionCallError::Other("o".to_string())))),
        Err(CodexErr::Fatal("o".to_string()))
    );
    assert_eq!(
        resolve_task_outcome(Err("panicked".to_string())),
        Err(CodexErr::Fatal("tool task failed to receive: panicked".to_string()))
    );
}
