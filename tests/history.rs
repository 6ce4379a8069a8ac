use tool_router::history::CallHistory;

#[test]
fn history_keeps_the_last_hundred_newest_first() {
    let mut h = CallHistory::new();
    for i in 0..150 {
        h.record(&format!("tool{}", i));
    }
    let recent = h.recent(100);
    assert_eq!(recent.len(), 100);
    for (j, name) in recent.iter().enumerate() {
        assert_eq!(name, &format!("tool{}", 149 - j));
    }
    assert_eq!(h.recent(1000).len(), 100);
}

#[test]
fn recent_is_capped_by_what_is_stored() {
    let mut h = CallHistory::new();
    assert!(h.recent(3).is_empty());
    h.record("a");
    h.record("b");
    assert_eq!(h.recent(3), vec!["b".to_string(), "a".to_string()]);
    assert_eq!(h.recent(1), vec!["b".to_string()]);
    assert!(h.recent(0).is_empty());
}

#[test]
fn the_hundred_and_first_call_evicts_the_first() {
    let mut h = CallHistory::new();
    for i in 0..101 {
        h.record(&format!("t{}", i));
    }
    let all = h.recent(200);
    assert_eq!(all.len(), 100);
    assert_eq!(all[0], "t100");
    assert_eq!(all[99], "t1");
}
