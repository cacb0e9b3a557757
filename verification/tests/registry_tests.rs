use agent_studio::SubscriptionRegistry;

#[test]
fn subscribe_twice_is_subscribe_once() {
    let mut reg = SubscriptionRegistry::new();
    reg.subscribe(1, &"s1".to_string());
    reg.subscribe(1, &"s1".to_string());
    let subs = reg.subscribers(&"s1".to_string());
    assert_eq!(subs, vec![1]);
}

#[test]
fn publish_reaches_all_and_only_subscribers() {
    let mut reg = SubscriptionRegistry::new();
    reg.subscribe(1, &"s1".to_string());
    reg.subscribe(2, &"s1".to_string());
    reg.subscribe(3, &"s2".to_string());
    let (mut targets, event) = reg.publish(&"s1".to_string(), &"{\"step_id\":\"st1\"}".to_string());
    targets.sort();
    assert_eq!(targets, vec![1, 2]);
    assert_eq!(event, "{\"event\":\"step_update\",\"data\":{\"step_id\":\"st1\"}}");
}

#[test]
fn publish_to_unknown_session_delivers_nowhere() {
    let mut reg = SubscriptionRegistry::new();
    reg.subscribe(1, &"s1".to_string());
    let (targets, _event) = reg.publish(&"s9".to_string(), &"null".to_string());
    assert!(targets.is_empty());
}

#[test]
fn removed_connection_gets_nothing_and_blocks_nobody() {
    let mut reg = SubscriptionRegistry::new();
    reg.subscribe(1, &"s1".to_string());
    reg.subscribe(2, &"s1".to_string());
    reg.subscribe(1, &"s2".to_string());
    reg.remove_connection(1);
    let (targets_s1, _) = reg.publish(&"s1".to_string(), &"null".to_string());
    assert_eq!(targets_s1, vec![2]);
    let (targets_s2, _) = reg.publish(&"s2".to_string(), &"null".to_string());
    assert!(targets_s2.is_empty());
}

#[test]
fn unsubscribe_withdraws_one_membership() {
    let mut reg = SubscriptionRegistry::new();
    reg.subscribe(1, &"s1".to_string());
    reg.subscribe(1, &"s2".to_string());
    reg.unsubscribe(1, &"s1".to_string());
    assert!(reg.subscribers(&"s1".to_string()).is_empty());
    assert_eq!(reg.subscribers(&"s2".to_string()), vec![1]);
}

#[test]
fn a_connection_may_watch_many_sessions() {
    let mut reg = SubscriptionRegistry::new();
    reg.subscribe(7, &"s1".to_string());
    reg.subscribe(7, &"s2".to_string());
    assert_eq!(reg.subscribers(&"s1".to_string()), vec![7]);
    assert_eq!(reg.subscribers(&"s2".to_string()), vec![7]);
}
