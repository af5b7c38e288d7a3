use std::collections::HashSet;
use std::time::Duration;
use tool_coordinator::rate_limits::{
    merge_rate_limit_fields, CreditsSnapshot, PlanType, RateLimitSnapshot, RateLimitWindow,
};
use tool_coordinator::response::{
    FunctionCallOutputBody, FunctionCallOutputPayload, ResponseInputItem,
};
use tool_coordinator::session::{extend_distinct, holds, SessionState};

fn sample_tool_result(call_id: &str, output: &str) -> ResponseInputItem {
    ResponseInputItem::FunctionCallOutput {
        call_id: call_id.to_string(),
        output: FunctionCallOutputPayload {
            body: FunctionCallOutputBody::Text(output.to_string()),
            success: Some(true),
        },
    }
}

fn window(used_percent: f64, window_minutes: i64, resets_at: i64) -> RateLimitWindow {
    RateLimitWindow {
        used_percent_bits: used_percent.to_bits(),
        window_minutes: Some(window_minutes),
        resets_at: Some(resets_at),
    }
}

#[test]
fn merge_mcp_tool_selection_deduplicates_and_preserves_order() {
    let mut state = SessionState::new();

    let merged = state.merge_mcp_tool_selection(vec![
        "mcp__rmcp__echo".to_string(),
        "mcp__rmcp__image".to_string(),
        "mcp__rmcp__echo".to_string(),
    ]);
    assert_eq!(
        merged,
        vec![
            "mcp__rmcp__echo".to_string(),
            "mcp__rmcp__image".to_string(),
        ]
    );

    let merged = state.merge_mcp_tool_selection(vec![
        "mcp__rmcp__image".to_string(),
        "mcp__rmcp__search".to_string(),
    ]);
    assert_eq!(
        merged,
        vec![
            "mcp__rmcp__echo".to_string(),
            "mcp__rmcp__image".to_string(),
            "mcp__rmcp__search".to_string(),
        ]
    );
}

#[test]
fn merge_mcp_tool_selection_empty_input_is_noop() {
    let mut state = SessionState::new();
    state.merge_mcp_tool_selection(vec![
        "mcp__rmcp__echo".to_string(),
        "mcp__rmcp__image".to_string(),
    ]);

    let merged = state.merge_mcp_tool_selection(Vec::new());
    assert_eq!(
        merged,
        vec![
            "mcp__rmcp__echo".to_string(),
            "mcp__rmcp__image".to_string(),
        ]
    );
    assert_eq!(
        state.get_mcp_tool_selection(),
        Some(vec![
            "mcp__rmcp__echo".to_string(),
            "mcp__rmcp__image".to_string(),
        ])
    );
}

#[test]
fn merge_mcp_tool_selection_of_nothing_selects_nothing() {
    let mut state = SessionState::new();
    assert_eq!(state.merge_mcp_tool_selection(Vec::new()), Vec::<String>::new());
    assert_eq!(state.get_mcp_tool_selection(), None);
}

#[test]
fn clear_mcp_tool_selection_removes_selection() {
    let mut state = SessionState::new();
    state.merge_mcp_tool_selection(vec!["mcp__rmcp__echo".to_string()]);

    state.clear_mcp_tool_selection();

    assert_eq!(state.get_mcp_tool_selection(), None);
}

#[test]
fn merge_connector_selection_deduplicates_entries() {
    let mut state = SessionState::new();
    let merged = state.merge_connector_selection(vec![
        "calendar".to_string(),
        "calendar".to_string(),
        "drive".to_string(),
    ]);

    assert_eq!(merged, vec!["calendar".to_string(), "drive".to_string()]);
    assert_eq!(
        merged.into_iter().collect::<HashSet<String>>(),
        HashSet::from(["calendar".to_string(), "drive".to_string()])
    );
}

#[test]
fn clear_connector_selection_removes_entries() {
    let mut state = SessionState::new();
    state.merge_connector_selection(vec!["calendar".to_string()]);

    state.clear_connector_selection();

    assert_eq!(
        state.get_connector_selection().into_iter().collect::<HashSet<String>>(),
        HashSet::new()
    );
}

#[test]
fn set_rate_limits_defaults_limit_id_to_codex_when_missing() {
    let mut state = SessionState::new();

    state.set_rate_limits(RateLimitSnapshot {
        limit_id: None,
        limit_name: None,
        primary: Some(window(12.0, 60, 100)),
        secondary: None,
        credits: None,
        plan_type: None,
    });

    assert_eq!(
        state.latest_rate_limits().as_ref().and_then(|v| v.limit_id.clone()),
        Some("codex".to_string())
    );
}

#[test]
fn set_rate_limits_defaults_to_codex_when_limit_id_missing_after_other_bucket() {
    let mut state = SessionState::new();

    state.set_rate_limits(RateLimitSnapshot {
        limit_id: Some("codex_other".to_string()),
        limit_name: Some("codex_other".to_string()),
        primary: Some(window(20.0, 60, 200)),
        secondary: None,
        credits: None,
        plan_type: None,
    });
    state.set_rate_limits(RateLimitSnapshot {
        limit_id: None,
        limit_name: None,
        primary: Some(window(30.0, 60, 300)),
        secondary: None,
        credits: None,
        plan_type: None,
    });

    assert_eq!(
        state.latest_rate_limits().as_ref().and_then(|v| v.limit_id.clone()),
        Some("codex".to_string())
    );
}

#[test]
fn set_rate_limits_carries_credits_and_plan_type_from_codex_to_codex_other() {
    let mut state = SessionState::new();

    state.set_rate_limits(RateLimitSnapshot {
        limit_id: Some("codex".to_string()),
        limit_name: Some("codex".to_string()),
        primary: Some(window(10.0, 60, 100)),
        secondary: None,
        credits: Some(CreditsSnapshot {
            has_credits: true,
            unlimited: false,
            balance: Some("50".to_string()),
        }),
        plan_type: Some(PlanType::Plus),
    });

    state.set_rate_limits(RateLimitSnapshot {
        limit_id: Some("codex_other".to_string()),
        limit_name: None,
        primary: Some(window(30.0, 120, 200)),
        secondary: None,
        credits: None,
        plan_type: None,
    });

    assert_eq!(
        state.latest_rate_limits(),
        Some(RateLimitSnapshot {
            limit_id: Some("codex_other".to_string()),
            limit_name: None,
            primary: Some(window(30.0, 120, 200)),
            secondary: None,
            credits: Some(CreditsSnapshot {
                has_credits: true,
                unlimited: false,
                balance: Some("50".to_string()),
            }),
            plan_type: Some(PlanType::Plus),
        })
    );
}

#[test]
fn merge_rate_limit_fields_prefers_what_the_snapshot_says() {
    let previous = RateLimitSnapshot {
        limit_id: Some("old".to_string()),
        limit_name: Some("old name".to_string()),
        primary: Some(window(1.0, 1, 1)),
        secondary: Some(window(2.0, 2, 2)),
        credits: Some(CreditsSnapshot { has_credits: true, unlimited: true, balance: None }),
        plan_type: Some(PlanType::Pro),
    };
    let snapshot = RateLimitSnapshot {
        limit_id: Some("new".to_string()),
        limit_name: None,
        primary: None,
        secondary: None,
        credits: Some(CreditsSnapshot {
            has_credits: false,
            unlimited: false,
            balance: Some("1".to_string()),
        }),
        plan_type: Some(PlanType::Team),
    };
    assert_eq!(merge_rate_limit_fields(Some(&previous), snapshot.clone()), snapshot);
}

#[test]
fn merge_rate_limit_fields_without_previous_only_names_the_bucket() {
    let snapshot = RateLimitSnapshot {
        limit_id: None,
        limit_name: Some("n".to_string()),
        primary: Some(window(5.5, 10, 20)),
        secondary: None,
        credits: None,
        plan_type: None,
    };
    assert_eq!(
        merge_rate_limit_fields(None, snapshot.clone()),
        RateLimitSnapshot { limit_id: Some("codex".to_string()), ..snapshot }
    );
}

#[test]
fn merge_rate_limit_fields_takes_missing_credits_and_plan_separately() {
    let previous = RateLimitSnapshot {
        limit_id: Some("codex".to_string()),
        limit_name: None,
        primary: None,
        secondary: None,
        credits: Some(CreditsSnapshot { has_credits: true, unlimited: false, balance: None }),
        plan_type: None,
    };
    let snapshot = RateLimitSnapshot {
        limit_id: Some("codex".to_string()),
        limit_name: None,
        primary: None,
        secondary: None,
        credits: None,
        plan_type: Some(PlanType::Free),
    };
    let merged = merge_rate_limit_fields(Some(&previous), snapshot);
    assert_eq!(
        merged.credits,
        Some(CreditsSnapshot { has_credits: true, unlimited: false, balance: None })
    );
    assert_eq!(merged.plan_type, Some(PlanType::Free));
}

#[test]
fn tool_result_cache_round_trip_returns_stored_output() {
    let mut state = SessionState::new();

    state.put_cached_tool_result(
        "weather|98115".to_string(),
        sample_tool_result("call-1", "ok"),
        8,
    );

    assert_eq!(
        state.get_cached_tool_result("weather|98115", Duration::from_secs(60).as_nanos()),
        Some(sample_tool_result("call-1", "ok"))
    );
}

#[test]
fn tool_result_cache_evicts_oldest_when_capacity_is_exceeded() {
    let mut state = SessionState::new();

    state.put_cached_tool_result("a".to_string(), sample_tool_result("call-a", "A"), 2);
    state.put_cached_tool_result("b".to_string(), sample_tool_result("call-b", "B"), 2);
    state.put_cached_tool_result("c".to_string(), sample_tool_result("call-c", "C"), 2);

    assert_eq!(
        state.get_cached_tool_result("a", Duration::from_secs(60).as_nanos()),
        None
    );
    assert_eq!(
        state.get_cached_tool_result("b", Duration::from_secs(60).as_nanos()),
        Some(sample_tool_result("call-b", "B"))
    );
    assert_eq!(
        state.get_cached_tool_result("c", Duration::from_secs(60).as_nanos()),
        Some(sample_tool_result("call-c", "C"))
    );
}

#[test]
fn tool_result_cache_honors_zero_age_as_disabled() {
    let mut state = SessionState::new();

    state.put_cached_tool_result(
        "weather|98115".to_string(),
        sample_tool_result("call-1", "ok"),
        8,
    );

    assert_eq!(
        state.get_cached_tool_result("weather|98115", Duration::ZERO.as_nanos()),
        None
    );
}

#[test]
fn tool_result_cache_is_empty_after_a_read_with_zero_age() {
    let mut state = SessionState::new();
    state.put_cached_tool_result("k".to_string(), sample_tool_result("call-1", "ok"), 8);
    assert_eq!(state.get_cached_tool_result("other", 0), None);
    assert_eq!(state.get_cached_tool_result("k", u128::MAX), None);
}

#[test]
fn tool_result_cache_at_given_times_expires_entries() {
    let mut state = SessionState::new();
    let second = Duration::from_secs(1).as_nanos();
    state.put_cached_tool_result_at("old".to_string(), sample_tool_result("c1", "1"), 8, 0);
    state.put_cached_tool_result_at("new".to_string(), sample_tool_result("c2", "2"), 8, 50 * second);
    assert_eq!(
        state.get_cached_tool_result_at("old", 60 * second, 60 * second),
        Some(sample_tool_result("c1", "1"))
    );
    assert_eq!(state.get_cached_tool_result_at("old", 60 * second, 60 * second + 1), None);
    assert_eq!(
        state.get_cached_tool_result_at("new", 60 * second, 110 * second),
        Some(sample_tool_result("c2", "2"))
    );
    state.evict_expired_tool_results_at(60 * second, 110 * second + 1);
    assert_eq!(state.get_cached_tool_result_at("new", u128::MAX, 0), None);
}

#[test]
fn session_starts_with_nothing() {
    let mut state = SessionState::new();
    assert_eq!(state.previous_model(), None);
    assert_eq!(state.latest_rate_limits(), None);
    assert!(!state.server_reasoning_included());
    assert!(!state.initial_context_seeded());
    assert_eq!(state.get_mcp_tool_selection(), None);
    assert!(state.get_connector_selection().is_empty());
    assert!(state.mcp_dependency_prompted().is_empty());
    assert!(state.dependency_env().is_empty());
    assert_eq!(state.get_cached_tool_result("k", u128::MAX), None);
}

#[test]
fn session_keeps_what_is_set() {
    let mut state = SessionState::new();
    state.set_previous_model(Some("gpt".to_string()));
    assert_eq!(state.previous_model(), Some("gpt".to_string()));
    state.set_previous_model(None);
    assert_eq!(state.previous_model(), None);
    state.set_server_reasoning_included(true);
    assert!(state.server_reasoning_included());
    state.set_initial_context_seeded(true);
    assert!(state.initial_context_seeded());
}

#[test]
fn dependency_prompts_are_recorded_once() {
    let mut state = SessionState::new();
    state.record_mcp_dependency_prompted(vec!["a".to_string(), "b".to_string()]);
    state.record_mcp_dependency_prompted(vec!["b".to_string(), "c".to_string(), "a".to_string()]);
    assert_eq!(state.mcp_dependency_prompted(), vec!["a", "b", "c"]);
}

#[test]
fn dependency_env_lets_the_later_value_count() {
    let mut state = SessionState::new();
    state.set_dependency_env(vec![
        ("A".to_string(), "1".to_string()),
        ("B".to_string(), "2".to_string()),
    ]);
    state.set_dependency_env(vec![("A".to_string(), "3".to_string())]);
    let env: std::collections::HashMap<String, String> = state.dependency_env().into_iter().collect();
    assert_eq!(env.len(), 2);
    assert_eq!(env.get("A"), Some(&"3".to_string()));
    assert_eq!(env.get("B"), Some(&"2".to_string()));
}

#[test]
fn extend_distinct_appends_what_is_new() {
    let mut list = vec!["x".to_string()];
    extend_distinct(&mut list, vec!["y".to_string(), "x".to_string(), "y".to_string(), "z".to_string()]);
    assert_eq!(list, vec!["x", "y", "z"]);
    assert!(holds(&list, "y"));
    assert!(!holds(&list, "w"));
    assert!(!holds(&Vec::new(), ""));
}
