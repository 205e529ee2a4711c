use claude_usage_monitor::format::{
    activity_text, fmt_duration, fmt_n, fmt_remaining, quota_reset_text, session_label,
    session_reset_text, truncate, window_reset_text,
};
use claude_usage_monitor::quota::{authorization_value, quota_plan_label, Credentials};

#[test]
fn fmt_n_groups_thousands() {
    assert_eq!(fmt_n(0), "0");
    assert_eq!(fmt_n(999), "999");
    assert_eq!(fmt_n(1000), "1,000");
    assert_eq!(fmt_n(1234567), "1,234,567");
    assert_eq!(fmt_n(u64::MAX), "18,446,744,073,709,551,615");
}

#[test]
fn fmt_remaining_units() {
    assert_eq!(fmt_remaining(0), "0s");
    assert_eq!(fmt_remaining(59), "59s");
    assert_eq!(fmt_remaining(60), "1m");
    assert_eq!(fmt_remaining(3599), "59m");
    assert_eq!(fmt_remaining(3600), "1h 0m");
    assert_eq!(fmt_remaining(3 * 3600 + 25 * 60 + 7), "3h 25m");
    assert_eq!(fmt_remaining(-4000), "-4000s");
}

#[test]
fn fmt_duration_units() {
    assert_eq!(fmt_duration(5), "5s ago");
    assert_eq!(fmt_duration(-3), "-3s ago");
    assert_eq!(fmt_duration(125), "2m ago");
    assert_eq!(fmt_duration(7200), "2h ago");
    assert_eq!(fmt_duration(86400 * 3 + 5), "3d ago");
}

#[test]
fn truncate_cuts_with_ellipsis() {
    assert_eq!(truncate("short", 36), "short");
    assert_eq!(truncate("abcdef", 6), "abcdef");
    assert_eq!(truncate("abcdefg", 6), "abcde…");
    assert_eq!(truncate("ééééé", 3), "éé…");
    assert_eq!(truncate("", 0), "");
}

#[test]
fn reset_and_activity_texts() {
    assert_eq!(quota_reset_text(0), "(reset due)");
    assert_eq!(quota_reset_text(90), "resets in 1m");
    assert_eq!(session_reset_text(None), "no activity yet");
    assert_eq!(session_reset_text(Some(-5)), "session window expired");
    assert_eq!(session_reset_text(Some(7260)), "session resets in 2h 1m");
    assert_eq!(window_reset_text(None), "no activity in window");
    assert_eq!(window_reset_text(Some(-100)), "resets in 0s");
    assert_eq!(window_reset_text(Some(45)), "resets in 45s");
    assert_eq!(activity_text(None), "no activity yet");
    assert_eq!(activity_text(Some(-1)), "last activity 0s ago");
    assert_eq!(activity_text(Some(600)), "last activity 10m ago");
}

#[test]
fn session_label_takes_eight_chars() {
    assert_eq!(session_label(&None), "—");
    assert_eq!(session_label(&Some("abc".to_string())), "abc");
    assert_eq!(
        session_label(&Some("0123456789abcdef".to_string())),
        "01234567"
    );
}

#[test]
fn quota_plan_label_from_credentials() {
    assert_eq!(quota_plan_label(&None), "live plan quota");
    let c = Credentials {
        access_token: "tok".to_string(),
        subscription_type: Some("max".to_string()),
        rate_limit_tier: Some("default_max_20x".to_string()),
    };
    assert_eq!(authorization_value(&c), "Bearer tok");
    assert_eq!(quota_plan_label(&Some(c)), "max • default_max_20x");
    let c2 = Credentials {
        access_token: "t".to_string(),
        subscription_type: Some("pro".to_string()),
        rate_limit_tier: None,
    };
    assert_eq!(quota_plan_label(&Some(c2)), "pro • ");
    let c3 = Credentials {
        access_token: "t".to_string(),
        subscription_type: None,
        rate_limit_tier: Some("x".to_string()),
    };
    assert_eq!(quota_plan_label(&Some(c3)), "live plan quota");
}
