use tool_coordinator::response::{
    FunctionCallOutputBody, FunctionCallOutputPayload, ResponseInputItem,
};
use tool_coordinator::session_cache::ToolResultCache;

fn result(call_id: &str, output: &str) -> ResponseInputItem {
    ResponseInputItem::FunctionCallOutput {
        call_id: call_id.to_string(),
        output: FunctionCallOutputPayload {
            body: FunctionCallOutputBody::Text(output.to_string()),
            success: Some(true),
        },
    }
}

const FOREVER: u128 = u128::MAX;

#[test]
fn put_three_with_bound_two_leaves_the_last_two() {
    let mut cache = ToolResultCache::new();
    cache.put("a".to_string(), result("r1", "1"), 2, 1);
    cache.put("b".to_string(), result("r2", "2"), 2, 2);
    cache.put("c".to_string(), result("r3", "3"), 2, 3);
    let minute: u128 = 60_000_000_000;
    assert_eq!(cache.get("a", minute, 4), None);
    assert_eq!(cache.get("b", minute, 4), Some(result("r2", "2")));
    assert_eq!(cache.get("c", minute, 4), Some(result("r3", "3")));
    assert_eq!(cache.len(), 2);
}

#[test]
fn put_then_get_with_zero_age_finds_nothing_and_empties() {
    let mut cache = ToolResultCache::new();
    cache.put("k".to_string(), result("r", "v"), 5, 10);
    cache.put("other".to_string(), result("r", "w"), 5, 10);
    assert_eq!(cache.get("k", 0, 10), None);
    assert_eq!(cache.len(), 0);
    assert_eq!(cache.get("k", FOREVER, 10), None);
    assert_eq!(cache.get("other", FOREVER, 10), None);
}

#[test]
fn put_with_bound_zero_switches_the_cache_off() {
    let mut cache = ToolResultCache::new();
    cache.put("a".to_string(), result("r", "1"), 4, 0);
    cache.put("b".to_string(), result("r", "2"), 0, 0);
    assert_eq!(cache.len(), 0);
    assert_eq!(cache.get("a", FOREVER, 0), None);
    assert_eq!(cache.get("b", FOREVER, 0), None);
}

#[test]
fn put_overwrites_and_refreshes_an_entry() {
    let mut cache = ToolResultCache::new();
    cache.put("a".to_string(), result("r1", "old"), 2, 1);
    cache.put("b".to_string(), result("r2", "b"), 2, 2);
    cache.put("a".to_string(), result("r3", "new"), 2, 3);
    assert_eq!(cache.len(), 2);
    cache.put("c".to_string(), result("r4", "c"), 2, 4);
    assert_eq!(cache.get("b", FOREVER, 4), None);
    assert_eq!(cache.get("a", FOREVER, 4), Some(result("r3", "new")));
    assert_eq!(cache.get("c", FOREVER, 4), Some(result("r4", "c")));
}

#[test]
fn reading_does_not_refresh_an_entry() {
    let mut cache = ToolResultCache::new();
    cache.put("a".to_string(), result("r1", "a"), 2, 1);
    cache.put("b".to_string(), result("r2", "b"), 2, 2);
    assert_eq!(cache.get("a", FOREVER, 3), Some(result("r1", "a")));
    cache.put("c".to_string(), result("r3", "c"), 2, 4);
    assert_eq!(cache.get("a", FOREVER, 5), None);
    assert_eq!(cache.get("b", FOREVER, 5), Some(result("r2", "b")));
}

#[test]
fn a_smaller_bound_drops_several_of_the_oldest() {
    let mut cache = ToolResultCache::new();
    for (index, key) in ["a", "b", "c", "d", "e"].iter().enumerate() {
        cache.put(key.to_string(), result("r", key), 5, index as u128);
    }
    assert_eq!(cache.len(), 5);
    cache.put("f".to_string(), result("r", "f"), 2, 9);
    assert_eq!(cache.len(), 2);
    for gone in ["a", "b", "c", "d"] {
        assert_eq!(cache.get(gone, FOREVER, 9), None, "{gone}");
    }
    assert_eq!(cache.get("e", FOREVER, 9), Some(result("r", "e")));
    assert_eq!(cache.get("f", FOREVER, 9), Some(result("r", "f")));
}

#[test]
fn bound_one_keeps_only_the_newest() {
    let mut cache = ToolResultCache::new();
    cache.put("a".to_string(), result("r", "a"), 1, 0);
    cache.put("b".to_string(), result("r", "b"), 1, 0);
    assert_eq!(cache.len(), 1);
    assert_eq!(cache.get("a", FOREVER, 0), None);
    assert_eq!(cache.get("b", FOREVER, 0), Some(result("r", "b")));
    cache.put("b".to_string(), result("r", "b2"), 1, 0);
    assert_eq!(cache.len(), 1);
    assert_eq!(cache.get("b", FOREVER, 0), Some(result("r", "b2")));
}

#[test]
fn an_entry_expires_once_its_age_exceeds_the_maximum() {
    let mut cache = ToolResultCache::new();
    cache.put("k".to_string(), result("r", "v"), 4, 100);
    assert_eq!(cache.get("k", 50, 150), Some(result("r", "v")));
    assert_eq!(cache.get("k", 50, 151), None);
    assert_eq!(cache.len(), 0);
    assert_eq!(cache.get("k", 50, 100), None);
}

#[test]
fn eviction_removes_only_the_expired_and_keeps_the_order() {
    let mut cache = ToolResultCache::new();
    cache.put("a".to_string(), result("r", "a"), 8, 10);
    cache.put("b".to_string(), result("r", "b"), 8, 40);
    cache.put("c".to_string(), result("r", "c"), 8, 20);
    cache.put("d".to_string(), result("r", "d"), 8, 50);
    cache.evict_expired(15, 60);
    assert_eq!(cache.len(), 1);
    assert_eq!(cache.get("d", FOREVER, 60), Some(result("r", "d")));
    let mut cache = ToolResultCache::new();
    cache.put("a".to_string(), result("r", "a"), 8, 10);
    cache.put("b".to_string(), result("r", "b"), 8, 40);
    cache.put("c".to_string(), result("r", "c"), 8, 20);
    cache.put("d".to_string(), result("r", "d"), 8, 50);
    cache.evict_expired(25, 60);
    assert_eq!(cache.len(), 2);
    // "b" is older in the order than "d": a bound of one drops it first.
    cache.put("e".to_string(), result("r", "e"), 2, 60);
    assert_eq!(cache.get("b", FOREVER, 60), None);
    assert_eq!(cache.get("d", FOREVER, 60), Some(result("r", "d")));
    assert_eq!(cache.get("e", FOREVER, 60), Some(result("r", "e")));
}

#[test]
fn a_clock_that_reads_earlier_than_the_entry_counts_as_age_zero() {
    let mut cache = ToolResultCache::new();
    cache.put("k".to_string(), result("r", "v"), 4, 1_000);
    assert_eq!(cache.get("k", 1, 10), Some(result("r", "v")));
}

#[test]
fn a_new_cache_and_a_cleared_cache_are_empty() {
    let mut cache = ToolResultCache::new();
    assert_eq!(cache.len(), 0);
    assert_eq!(cache.get("k", FOREVER, 0), None);
    cache.put("k".to_string(), result("r", "v"), 4, 0);
    assert_eq!(cache.len(), 1);
    cache.clear();
    assert_eq!(cache.len(), 0);
    assert_eq!(cache.get("k", FOREVER, 0), None);
}

#[test]
fn a_cached_result_is_handed_out_as_a_copy() {
    let mut cache = ToolResultCache::new();
    cache.put("k".to_string(), result("call-1", "v"), 4, 0);
    let first = cache.get("k", FOREVER, 0);
    let second = cache.get("k", FOREVER, 0);
    assert_eq!(first, second);
    assert_eq!(first, Some(result("call-1", "v")));
}
