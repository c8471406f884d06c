use tags_lsp::progress::IndexingProgress;

#[test]
fn heartbeats_count_up_to_the_cap() {
    let mut p = IndexingProgress::new();
    let mut last = 0;
    let mut beats = 0;
    while p.may_beat() {
        let pct = p.heartbeat();
        assert!(pct > last, "percentages increase strictly");
        assert!(pct <= 99, "heartbeats never reach 100");
        last = pct;
        beats += 1;
    }
    assert_eq!(beats, 99);
    assert_eq!(last, 99);
}

#[test]
fn completion_is_the_only_hundred() {
    let mut p = IndexingProgress::new();
    let first = p.heartbeat();
    assert_eq!(first, 1);
    p.observe_exit();
    assert!(!p.may_beat());
    assert_eq!(p.completion_percentage(), 100);
}

#[test]
fn early_exit_stops_the_heartbeat() {
    let mut p = IndexingProgress::new();
    assert!(p.may_beat());
    p.heartbeat();
    p.heartbeat();
    p.observe_exit();
    assert!(!p.may_beat());
    assert_eq!(p.completion_percentage(), 100);
}
