use tokotchi::ledger::Comp;
use tokotchi::mode::{decide, Account, CountMode};

fn comp(i: u64, o: u64, cw: u64, cr: u64, legacy: u64) -> Comp {
    Comp { input: i, output: o, cache_creation: cw, cache_read: cr, legacy }
}

#[test]
fn weights_match_the_billing_model() {
    let c = comp(100, 200, 1_000, 10_000, 0);
    assert_eq!(CountMode::Subscription.weight(&c), 300); // content only
    assert_eq!(CountMode::Raw.weight(&c), 300 + 1_000 + 10_000); // everything
    // 300 + 1000*5/4 + 10000/10 = 300 + 1250 + 1000
    assert_eq!(CountMode::Api.weight(&c), 300 + 1_250 + 1_000);
}

#[test]
fn legacy_counts_only_in_raw() {
    let c = comp(0, 0, 0, 0, 500);
    assert_eq!(CountMode::Raw.weight(&c), 500);
    assert_eq!(CountMode::Subscription.weight(&c), 0);
    assert_eq!(CountMode::Api.weight(&c), 0);
}

#[test]
fn env_override_wins_over_account() {
    let max = Account { organization_type: Some("claude_max".into()), billing_type: None };
    assert_eq!(decide(Some("api"), false, Some(&max)), CountMode::Api);
    assert_eq!(decide(Some("raw"), true, Some(&max)), CountMode::Raw);
    assert_eq!(decide(Some("sub"), false, None), CountMode::Subscription);
}

#[test]
fn auto_detection_by_plan() {
    let max = Account { organization_type: Some("claude_max".into()), billing_type: Some("stripe_subscription".into()) };
    let pro = Account { organization_type: Some("claude_pro".into()), billing_type: None };
    let console = Account { organization_type: Some("business".into()), billing_type: Some("invoice".into()) };
    assert_eq!(decide(Some("auto"), false, Some(&max)), CountMode::Subscription);
    assert_eq!(decide(None, false, Some(&pro)), CountMode::Subscription);
    assert_eq!(decide(None, false, Some(&console)), CountMode::Api); // oauth but not a plan
    assert_eq!(decide(None, true, Some(&max)), CountMode::Api); // api key beats plan
    assert_eq!(decide(None, false, None), CountMode::Raw); // no signal → legacy
}

#[test]
fn override_is_trimmed_and_case_folded() {
    assert_eq!(decide(Some("  API\t"), false, None), CountMode::Api);
    assert_eq!(decide(Some("Subscription"), false, None), CountMode::Subscription);
    assert_eq!(decide(Some("\u{3000}Raw\n"), true, None), CountMode::Raw);
    // unknown or empty words fall through to detection
    assert_eq!(decide(Some(""), true, None), CountMode::Api);
    assert_eq!(decide(Some("rawr"), false, None), CountMode::Raw);
    assert_eq!(decide(Some("apis"), false, None), CountMode::Raw);
}

#[test]
fn billing_alone_marks_a_subscription() {
    let stripe = Account { organization_type: None, billing_type: Some("stripe_subscription".into()) };
    assert_eq!(decide(None, false, Some(&stripe)), CountMode::Subscription);
    let prefix_only = Account { organization_type: Some("claudemax".into()), billing_type: None };
    assert_eq!(decide(None, false, Some(&prefix_only)), CountMode::Api);
    let empty = Account { organization_type: None, billing_type: None };
    assert_eq!(decide(None, false, Some(&empty)), CountMode::Api);
}

#[test]
fn weights_saturate() {
    let big = comp(u64::MAX, 1, u64::MAX, u64::MAX, u64::MAX);
    assert_eq!(CountMode::Raw.weight(&big), u64::MAX);
    assert_eq!(CountMode::Subscription.weight(&big), u64::MAX);
    assert_eq!(CountMode::Api.weight(&big), u64::MAX);
    // cache creation saturates at u64::MAX before the ×5/4
    let cw = comp(0, 0, u64::MAX, 0, 0);
    assert_eq!(CountMode::Api.weight(&cw), u64::MAX / 4);
    let cr = comp(0, 0, 0, 99, 0);
    assert_eq!(CountMode::Api.weight(&cr), 9);
}

#[test]
fn labels_and_cycle() {
    assert_eq!(CountMode::Raw.label(), "raw");
    assert_eq!(CountMode::Subscription.label(), "sub");
    assert_eq!(CountMode::Api.label(), "api");
    for m in [CountMode::Raw, CountMode::Subscription, CountMode::Api] {
        assert_eq!(m.next().next().next(), m);
        assert_ne!(m.next(), m);
    }
    assert_eq!(CountMode::Raw.next(), CountMode::Subscription);
}
