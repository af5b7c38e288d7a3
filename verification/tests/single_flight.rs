use tool_coordinator::response::ResponseInputItem;
use tool_coordinator::single_flight::{Role, SingleFlightRegistry};
use tool_coordinator::turn_cache::TurnResultCache;

#[test]
fn first_caller_leads_and_later_callers_follow_its_slot() {
    let mut registry: SingleFlightRegistry<String> = SingleFlightRegistry::new();
    assert!(matches!(registry.join_or_lead("k", "slot-1".to_string()), Role::Leader));
    assert!(registry.is_in_flight("k"));
    for _ in 0..3 {
        match registry.join_or_lead("k", "unused".to_string()) {
            Role::Follower(slot) => assert_eq!(slot, "slot-1"),
            Role::Leader => panic!("a second leader"),
        }
    }
}

#[test]
fn keys_have_leaders_of_their_own() {
    let mut registry: SingleFlightRegistry<u8> = SingleFlightRegistry::new();
    assert!(matches!(registry.join_or_lead("a", 1), Role::Leader));
    assert!(matches!(registry.join_or_lead("b", 2), Role::Leader));
    assert!(matches!(registry.join_or_lead("a", 3), Role::Follower(1)));
    assert!(matches!(registry.join_or_lead("b", 4), Role::Follower(2)));
    registry.complete("a");
    assert!(!registry.is_in_flight("a"));
    assert!(registry.is_in_flight("b"));
    assert!(matches!(registry.join_or_lead("b", 5), Role::Follower(2)));
}

#[test]
fn a_key_can_be_led_again_once_its_leader_is_done() {
    let mut registry: SingleFlightRegistry<u8> = SingleFlightRegistry::new();
    assert!(matches!(registry.join_or_lead("k", 1), Role::Leader));
    registry.complete("k");
    assert!(!registry.is_in_flight("k"));
    assert!(matches!(registry.join_or_lead("k", 2), Role::Leader));
    assert!(matches!(registry.join_or_lead("k", 3), Role::Follower(2)));
}

#[test]
fn completing_a_key_that_is_not_in_flight_changes_nothing() {
    let mut registry: SingleFlightRegistry<u8> = SingleFlightRegistry::new();
    registry.complete("k");
    assert!(!registry.is_in_flight("k"));
    assert!(matches!(registry.join_or_lead("other", 1), Role::Leader));
    registry.complete("k");
    assert!(registry.is_in_flight("other"));
}

#[test]
fn turn_cache_holds_the_last_result_of_each_key() {
    let custom = |call_id: &str, output: &str| ResponseInputItem::CustomToolCallOutput {
        call_id: call_id.to_string(),
        output: output.to_string(),
    };
    let mut cache = TurnResultCache::new();
    assert_eq!(cache.get("k"), None);
    cache.insert("k".to_string(), custom("c1", "one"));
    cache.insert("other".to_string(), custom("c2", "two"));
    assert_eq!(cache.get("k"), Some(custom("c1", "one")));
    assert_eq!(cache.get("other"), Some(custom("c2", "two")));
    cache.insert("k".to_string(), custom("c3", "three"));
    assert_eq!(cache.get("k"), Some(custom("c3", "three")));
    assert_eq!(cache.get("missing"), None);
}
