use tool_coordinator::policy::{tool_supports_session_cache, tool_supports_turn_cache};
use tool_coordinator::settings::{
    settings_from_numbers, settings_from_texts, ToolCacheSettings, DEFAULT_MAX_ENTRIES,
    DEFAULT_TTL_SECS,
};

#[test]
fn cache_policy_marks_weather_as_session_cacheable() {
    assert!(tool_supports_turn_cache("weather"));
    assert!(tool_supports_session_cache("weather"));
    assert!(!tool_supports_session_cache("read_file"));
}

#[test]
fn query_tools_qualify_for_both_tiers() {
    for name in [
        "search_query",
        "image_query",
        "weather",
        "sports",
        "finance",
        "time",
        "list_mcp_resources",
        "list_mcp_resource_templates",
        "read_mcp_resource",
        "search_tool_bm25",
    ] {
        assert!(tool_supports_turn_cache(name), "{name}");
        assert!(tool_supports_session_cache(name), "{name}");
    }
}

#[test]
fn inspection_tools_qualify_for_the_turn_tier_only() {
    for name in ["read_file", "list_dir", "grep_files", "view_image"] {
        assert!(tool_supports_turn_cache(name), "{name}");
        assert!(!tool_supports_session_cache(name), "{name}");
    }
}

#[test]
fn other_tools_qualify_for_no_tier() {
    for name in ["shell", "apply_patch", "local_shell", "", "Weather", "weather ", "read_files"] {
        assert!(!tool_supports_turn_cache(name), "{name}");
        assert!(!tool_supports_session_cache(name), "{name}");
    }
}

#[test]
fn session_tier_is_within_turn_tier() {
    for name in ["weather", "read_file", "shell", "time", "view_image", "unknown"] {
        if tool_supports_session_cache(name) {
            assert!(tool_supports_turn_cache(name), "{name}");
        }
    }
}

#[test]
fn default_settings_are_on_with_64_entries_for_120_seconds() {
    let settings = ToolCacheSettings::default();
    assert_eq!(settings, ToolCacheSettings { enabled: true, max_entries: 64, ttl_secs: 120 });
    assert_eq!(DEFAULT_MAX_ENTRIES, 64);
    assert_eq!(DEFAULT_TTL_SECS, 120);
}

#[test]
fn settings_from_nothing_are_the_defaults() {
    assert_eq!(settings_from_texts(false, None, None), ToolCacheSettings::default());
    assert_eq!(settings_from_numbers(false, None, None), ToolCacheSettings::default());
}

#[test]
fn settings_read_the_numbers_that_were_set() {
    assert_eq!(
        settings_from_texts(false, Some("8"), Some("30")),
        ToolCacheSettings { enabled: true, max_entries: 8, ttl_secs: 30 }
    );
    assert_eq!(
        settings_from_texts(true, Some("0"), Some("0")),
        ToolCacheSettings { enabled: false, max_entries: 0, ttl_secs: 0 }
    );
}

#[test]
fn settings_take_a_text_that_is_no_number_as_not_set() {
    for bad in ["", " 8", "8 ", "eight", "-1", "1.5", "99999999999999999999999"] {
        assert_eq!(
            settings_from_texts(false, Some(bad), Some(bad)),
            ToolCacheSettings::default(),
            "{bad:?}"
        );
    }
}

#[test]
fn settings_switch_the_session_tier_off() {
    let settings = settings_from_texts(true, None, None);
    assert!(!settings.enabled);
    assert_eq!(settings.max_entries, 64);
    assert_eq!(settings.ttl_secs, 120);
}

#[test]
fn settings_from_numbers_keep_the_numbers() {
    assert_eq!(
        settings_from_numbers(false, Some(3), Some(7)),
        ToolCacheSettings { enabled: true, max_entries: 3, ttl_secs: 7 }
    );
    assert_eq!(
        settings_from_numbers(false, Some(u64::MAX), Some(u64::MAX)).ttl_secs,
        u64::MAX
    );
}
