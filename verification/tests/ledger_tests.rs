use tokotchi::ledger::{add_line, add_record, merge, session_total, total, Comp, Json, Ledger};
use tokotchi::mode::CountMode;

fn comp(i: u64, o: u64, cw: u64, cr: u64) -> Comp {
    Comp { input: i, output: o, cache_creation: cw, cache_read: cr, legacy: 0 }
}

fn legacy(n: u64) -> Comp {
    Comp { legacy: n, ..Default::default() }
}

/// Fold one raw transcript line into the scan; lines that are not JSON are skipped.
fn feed_line(scan: &mut Ledger, line: &str) {
    add_line(scan, line);
}

#[test]
fn accumulates_components_across_lines() {
    let mut scan = Ledger::new();
    feed_line(&mut scan, r#"{"sessionId":"s1","message":{"usage":{"input_tokens":10,"output_tokens":5,"cache_creation_input_tokens":2,"cache_read_input_tokens":3}}}"#);
    feed_line(&mut scan, r#"{"sessionId":"s1","message":{"usage":{"input_tokens":1,"output_tokens":1,"cache_creation_input_tokens":0,"cache_read_input_tokens":0}}}"#);
    assert_eq!(scan.get("s1"), Some(comp(11, 6, 2, 3)));
    // Raw sums all four: (10+5+2+3)+(1+1) = 22
    assert_eq!(total(&scan, CountMode::Raw), 22);
    // Subscription = input+output only = 17
    assert_eq!(total(&scan, CountMode::Subscription), 17);
}

#[test]
fn skips_lines_without_session_or_usage() {
    let mut scan = Ledger::new();
    feed_line(&mut scan, r#"{"message":{"usage":{"input_tokens":10}}}"#); // no sessionId
    feed_line(&mut scan, r#"{"sessionId":"s2"}"#); // no usage
    feed_line(&mut scan, "not json at all");
    feed_line(&mut scan, r#"{"sessionId":"s3","message":{"usage":{"input_tokens":7}}}"#);
    assert_eq!(scan.len(), 1);
    assert_eq!(scan.get("s3"), Some(comp(7, 0, 0, 0)));
}

#[test]
fn merge_prunes_nothing_and_scan_wins() {
    let mut old = Ledger::new();
    old.insert("pruned".into(), legacy(100)); // transcript gone
    old.insert("live".into(), comp(1, 1, 0, 0)); // stale, scan should overwrite
    let mut scan = Ledger::new();
    scan.insert("live".into(), comp(50, 5, 0, 0));
    scan.insert("new".into(), comp(9, 0, 0, 0));
    let merged = merge(old, scan);
    assert_eq!(merged.get("pruned"), Some(legacy(100)));
    assert_eq!(merged.get("live"), Some(comp(50, 5, 0, 0)));
    assert_eq!(merged.get("new"), Some(comp(9, 0, 0, 0)));
    // Raw: 100 (legacy) + 55 (live) + 9 (new) = 164
    assert_eq!(total(&merged, CountMode::Raw), 164);
    assert_eq!(session_total(&merged, "live", CountMode::Subscription), 55);
}

#[test]
fn usage_of_wrong_shape_counts_zero_but_opens_the_session() {
    let mut scan = Ledger::new();
    // usage present but not an object: the session appears with nothing added
    feed_line(&mut scan, r#"{"sessionId":"s4","message":{"usage":42}}"#);
    assert_eq!(scan.get("s4"), Some(comp(0, 0, 0, 0)));
    // negative / fractional / string counts read as 0
    feed_line(&mut scan, r#"{"sessionId":"s4","message":{"usage":{"input_tokens":-3,"output_tokens":2.5,"cache_read_input_tokens":"9","cache_creation_input_tokens":4}}}"#);
    assert_eq!(scan.get("s4"), Some(comp(0, 0, 4, 0)));
    // a non-string session id is ignored
    feed_line(&mut scan, r#"{"sessionId":7,"message":{"usage":{"input_tokens":1}}}"#);
    assert_eq!(scan.len(), 1);
    // a message that is not an object has no usage
    feed_line(&mut scan, r#"{"sessionId":"s5","message":[1,2]}"#);
    assert_eq!(scan.get("s5"), None);
}

#[test]
fn later_duplicate_member_wins() {
    let mut scan = Ledger::new();
    let usage = Json::Object(vec![
        ("input_tokens".to_string(), Json::Number(Some(1))),
        ("input_tokens".to_string(), Json::Number(Some(8))),
    ]);
    let doc = Json::Object(vec![
        ("sessionId".to_string(), Json::Str("d".to_string())),
        ("message".to_string(), Json::Object(vec![("usage".to_string(), usage)])),
    ]);
    add_record(&mut scan, &doc);
    assert_eq!(scan.get("d"), Some(comp(8, 0, 0, 0)));
}

#[test]
fn counts_saturate_instead_of_overflowing() {
    let mut scan = Ledger::new();
    let line = format!(r#"{{"sessionId":"big","message":{{"usage":{{"input_tokens":{}}}}}}}"#, u64::MAX);
    feed_line(&mut scan, &line);
    feed_line(&mut scan, &line);
    assert_eq!(scan.get("big"), Some(comp(u64::MAX, 0, 0, 0)));
    let mut other = Ledger::new();
    other.insert("a".into(), comp(u64::MAX, 0, 0, 0));
    other.insert("b".into(), comp(5, 0, 0, 0));
    assert_eq!(total(&other, CountMode::Subscription), u64::MAX);
}

#[test]
fn merge_twice_is_merge_once() {
    let mut old = Ledger::new();
    old.insert("x".into(), comp(1, 2, 3, 4));
    let mut scan = Ledger::new();
    scan.insert("x".into(), comp(5, 5, 5, 5));
    scan.insert("y".into(), legacy(7));
    let once = merge(old, scan);
    let mut scan2 = Ledger::new();
    scan2.insert("x".into(), comp(5, 5, 5, 5));
    scan2.insert("y".into(), legacy(7));
    let twice = merge(once, scan2);
    assert_eq!(twice.len(), 2);
    assert_eq!(twice.get("x"), Some(comp(5, 5, 5, 5)));
    assert_eq!(total(&twice, CountMode::Raw), 27);
}

#[test]
fn insert_replaces_and_totals_count_each_session_once() {
    let mut l = Ledger::new();
    l.insert("s".into(), comp(10, 0, 0, 0));
    l.insert("s".into(), comp(3, 0, 0, 0));
    assert_eq!(l.len(), 1);
    assert_eq!(total(&l, CountMode::Subscription), 3);
    assert_eq!(session_total(&l, "missing", CountMode::Raw), 0);
    let pairs = l.to_pairs();
    assert_eq!(pairs.len(), 1);
    assert_eq!(pairs[0].0, "s");
}

#[test]
fn api_total_weights_cache() {
    let mut l = Ledger::new();
    l.insert("a".into(), comp(100, 200, 1_000, 10_000));
    l.insert("b".into(), comp(0, 0, 4, 9));
    // a: 300 + 1250 + 1000; b: 0 + 5 + 0
    assert_eq!(total(&l, CountMode::Api), 2_555);
}

#[test]
fn raw_line_with_a_repeated_key_reads_its_last_value() {
    let mut scan = Ledger::new();
    feed_line(
        &mut scan,
        r#"{"sessionId":"a","sessionId":"b","message":{"usage":{"output_tokens":2,"output_tokens":9}}}"#,
    );
    assert_eq!(scan.len(), 1);
    assert_eq!(scan.get("b"), Some(comp(0, 9, 0, 0)));
}
