use claude_usage_monitor::app::{
    logs_report, quota_report, Action, App, ConfigField, Interval, Key, QuotaReport, Tab,
};
use claude_usage_monitor::config::{Config, PlanKind};
use claude_usage_monitor::quota::Credentials;

/// A freshly started monitor whose first refresh has reported an error.
fn app() -> App {
    let (mut a, start) = App::new(Config::default());
    assert!(start);
    a.on_error("not yet".to_string());
    a
}

fn creds(token: &str) -> Credentials {
    Credentials {
        access_token: token.to_string(),
        subscription_type: None,
        rate_limit_tier: None,
    }
}

#[test]
fn interval_minutes_and_duration() {
    assert_eq!(Interval::One.minutes(), 1);
    assert_eq!(Interval::Five.minutes(), 5);
    assert_eq!(Interval::Ten.minutes(), 10);
    assert_eq!(Interval::Ten.as_duration(), std::time::Duration::from_secs(600));
    assert_eq!(Interval::One.as_duration().as_secs(), 60);
}

#[test]
fn labels() {
    assert_eq!(ConfigField::Plan.label(), "Subscription plan");
    assert_eq!(ConfigField::CustomCost.label(), "Custom plan cost (USD/mo)");
    assert_eq!(ConfigField::Limit5h.label(), "5-hour limit (USD)");
    assert_eq!(ConfigField::LimitWeek.label(), "Weekly limit (USD)");
    assert_eq!(ConfigField::ALL.len(), 4);
    assert!(ConfigField::ALL[2] == ConfigField::Limit5h);
    assert_eq!(Tab::Limits.index(), 1);
}

#[test]
fn tabs_cycle_and_cancel_edit() {
    let mut a = app();
    assert!(a.tab == Tab::Overview);
    a.cycle_tab();
    assert!(a.tab == Tab::Limits);
    a.cycle_tab();
    assert!(a.tab == Tab::Config);
    a.selected_field = 1;
    a.activate_field();
    assert!(a.editing);
    a.edit_push('7');
    a.cycle_tab();
    assert!(a.tab == Tab::Overview);
    assert!(!a.editing);
    assert_eq!(a.edit_buffer, "");
}

#[test]
fn new_starts_the_first_refresh() {
    let (mut a, start) = App::new(Config::default());
    assert!(start);
    assert!(a.in_flight);
    assert!(a.snapshot.is_none() && a.error.is_none());
    assert!(a.credentials.is_none() && a.quota_error.is_none());
    assert!(a.interval == Interval::Five);
    assert!(a.tab == Tab::Overview);
    assert!(!a.trigger_refresh());
}

#[test]
fn refresh_schedule() {
    const MIN: u64 = 60_000_000_000;
    let mut a = app();
    assert_eq!(a.interval_minutes(), 5);
    assert!(a.trigger_refresh());
    assert!(!a.trigger_refresh());
    assert!(!a.tick(10 * MIN));
    a.on_error("boom".to_string());
    assert_eq!(a.error.as_deref(), Some("boom"));
    assert!(!a.in_flight);
    assert!(!a.tick(MIN));
    assert!(!a.tick(5 * MIN - 1));
    assert!(a.tick(5 * MIN));
    assert!(a.in_flight);
    assert_eq!(a.next_refresh_in(MIN), Some(4 * MIN));
    assert_eq!(a.next_refresh_in(6 * MIN), Some(0));
    assert_eq!(a.next_refresh_in(5 * MIN - 1), Some(1));
    assert!(!a.set_interval(Interval::One));
    assert_eq!(a.next_refresh_in(59_000_000_000), Some(1_000_000_000));
}

#[test]
fn field_selection_wraps() {
    let mut a = app();
    a.select_prev_field();
    assert_eq!(a.selected_field, 3);
    assert!(a.current_field() == ConfigField::LimitWeek);
    a.select_next_field();
    assert_eq!(a.selected_field, 0);
    a.select_next_field();
    a.select_prev_field();
    assert_eq!(a.selected_field, 0);
}

#[test]
fn plan_field_cycles_and_clears() {
    let mut a = app();
    assert!(a.activate_field());
    assert_eq!(a.config.plan, PlanKind::Pro);
    assert!(a.clear_field());
    assert_eq!(a.config.plan, PlanKind::Unset);
}

#[test]
fn amount_editing() {
    let mut a = app();
    a.select_next_field(); // custom cost
    assert!(!a.activate_field());
    assert!(a.editing);
    assert_eq!(a.edit_buffer, "");
    for c in ['1', '2', 'x', '.', '5', '.', '0'] {
        a.edit_push(c);
    }
    assert_eq!(a.edit_buffer, "12.50");
    a.edit_backspace();
    assert_eq!(a.edit_buffer, "12.5");
    // selection is frozen and clearing is refused while editing
    a.select_next_field();
    assert_eq!(a.selected_field, 1);
    assert!(!a.clear_field());
    assert!(a.edit_commit());
    assert!(!a.editing);
    assert_eq!(a.config.custom_plan_cost_usd, Some(12_500_000_000));
    // reopening shows the amount, confirming keeps it
    a.activate_field();
    assert_eq!(a.edit_buffer, "12.5");
    a.edit_commit();
    assert_eq!(a.config.custom_plan_cost_usd, Some(12_500_000_000));
    // a lone point clears the amount
    a.activate_field();
    for _ in 0..4 {
        a.edit_backspace();
    }
    a.edit_push('.');
    a.edit_commit();
    assert_eq!(a.config.custom_plan_cost_usd, None);
    assert!(!a.edit_commit());
}

#[test]
fn edit_cancel_keeps_settings() {
    let mut a = app();
    a.selected_field = 2;
    a.config.limit_5h_usd = Some(3_000_000_000);
    a.activate_field();
    assert_eq!(a.edit_buffer, "3");
    a.edit_push('9');
    a.edit_cancel();
    assert!(!a.editing);
    assert_eq!(a.config.limit_5h_usd, Some(3_000_000_000));
    // typing outside the editor does nothing
    a.edit_push('1');
    a.edit_backspace();
    assert_eq!(a.edit_buffer, "");
}

#[test]
fn save_status_messages() {
    let mut a = app();
    a.saved(Ok("/tmp/config.json".to_string()));
    assert_eq!(a.config_status.as_deref(), Some("saved → /tmp/config.json"));
    a.saved(Err("denied".to_string()));
    assert_eq!(a.config_status.as_deref(), Some("save failed: denied"));
}

#[test]
fn keys_on_the_overview() {
    let mut a = app();
    assert_eq!(a.on_key(Key::Char('x')), Action::Nothing);
    assert!(a.error.is_some() && !a.in_flight);
    assert_eq!(a.on_key(Key::Char('r')), Action::Refresh);
    assert!(a.in_flight);
    assert_eq!(a.on_key(Key::Char('r')), Action::Nothing);
    assert_eq!(a.on_key(Key::Char('1')), Action::Nothing);
    assert!(a.interval == Interval::One);
    a.on_error("again".to_string());
    assert_eq!(a.on_key(Key::Char('0')), Action::Refresh);
    assert!(a.interval == Interval::Ten);
    assert_eq!(a.on_key(Key::Char('q')), Action::Quit);
    assert_eq!(a.on_key(Key::Esc), Action::Quit);
    assert_eq!(a.on_key(Key::Char('t')), Action::Nothing);
    assert!(a.tab == Tab::Limits);
    assert_eq!(a.on_key(Key::Tab), Action::Nothing);
    assert!(a.tab == Tab::Config);
}

#[test]
fn keys_on_the_settings_tab() {
    let mut a = app();
    a.on_key(Key::Tab);
    a.on_key(Key::Tab);
    assert!(a.tab == Tab::Config);
    // refreshing and the interval keys work here too
    assert_eq!(a.on_key(Key::Char('r')), Action::Refresh);
    assert!(a.tab == Tab::Config && a.in_flight);
    assert_eq!(a.on_key(Key::Char('5')), Action::Nothing);
    assert!(a.interval == Interval::Five);
    // plan field: Enter cycles and saves, x clears and saves
    assert_eq!(a.on_key(Key::Enter), Action::Save);
    assert_eq!(a.config.plan, PlanKind::Pro);
    assert_eq!(a.on_key(Key::Char(' ')), Action::Save);
    assert_eq!(a.config.plan, PlanKind::Max5x);
    assert_eq!(a.on_key(Key::Char('x')), Action::Save);
    assert_eq!(a.config.plan, PlanKind::Unset);
    // selection
    a.on_key(Key::Char('j'));
    a.on_key(Key::Down);
    assert_eq!(a.selected_field, 2);
    a.on_key(Key::Char('k'));
    assert_eq!(a.selected_field, 1);
    a.on_key(Key::Up);
    a.on_key(Key::Up);
    assert_eq!(a.selected_field, 3);
    // editing the weekly limit
    assert_eq!(a.on_key(Key::Enter), Action::Nothing);
    assert!(a.editing);
    for c in ['4', 'q', '2', '.', '5'] {
        assert_eq!(a.on_key(Key::Char(c)), Action::Nothing);
    }
    assert_eq!(a.edit_buffer, "42.5");
    a.on_key(Key::Backspace);
    assert_eq!(a.on_key(Key::Tab), Action::Nothing);
    assert!(a.tab == Tab::Config && a.editing);
    assert_eq!(a.on_key(Key::Enter), Action::Save);
    assert_eq!(a.config.limit_week_usd, Some(42_000_000_000));
    // Esc cancels an edit, and quits outside one
    a.on_key(Key::Enter);
    a.on_key(Key::Char('9'));
    assert_eq!(a.on_key(Key::Esc), Action::Nothing);
    assert!(!a.editing);
    assert_eq!(a.config.limit_week_usd, Some(42_000_000_000));
    assert_eq!(a.on_key(Key::Delete), Action::Save);
    assert_eq!(a.config.limit_week_usd, None);
    assert_eq!(a.on_key(Key::Other), Action::Nothing);
    assert_eq!(a.on_key(Key::Esc), Action::Quit);
    assert_eq!(a.on_key(Key::Char('q')), Action::Quit);
    // 't' changes tab here as on the other tabs
    assert_eq!(a.on_key(Key::Char('t')), Action::Nothing);
    assert!(a.tab == Tab::Overview);
    // the form keys mean nothing outside the settings tab
    let sel = a.selected_field;
    assert_eq!(a.on_key(Key::Char('j')), Action::Nothing);
    assert_eq!(a.on_key(Key::Enter), Action::Nothing);
    assert_eq!(a.on_key(Key::Char('x')), Action::Nothing);
    assert_eq!(a.selected_field, sel);
}

#[test]
fn refresh_reports() {
    let mut a = app();
    a.on_logs(logs_report(None));
    assert_eq!(a.error.as_deref(), Some("could not locate the projects directory"));
    a.on_logs(logs_report(Some(Err("bad dir".to_string()))));
    assert_eq!(a.error.as_deref(), Some("bad dir"));

    match quota_report::<u8>(Err("missing file".to_string())) {
        QuotaReport::Failed(m) => assert_eq!(m, "no credentials: missing file"),
        QuotaReport::Fetched(..) => panic!("expected a failure"),
    }
    match quota_report::<u8>(Ok((creds("t"), Err("HTTP 401".to_string())))) {
        QuotaReport::Failed(m) => assert_eq!(m, "HTTP 401"),
        QuotaReport::Fetched(..) => panic!("expected a failure"),
    }
    match quota_report::<u8>(Ok((creds("tok"), Ok(7)))) {
        QuotaReport::Fetched(q, c) => {
            assert_eq!(q, 7);
            a.on_quota(c);
        }
        QuotaReport::Failed(_) => panic!("expected a quota"),
    }
    assert_eq!(a.credentials.as_ref().map(|c| c.access_token.as_str()), Some("tok"));
    assert!(a.quota_error.is_none());
    a.on_quota_error("HTTP 500".to_string());
    assert_eq!(a.quota_error.as_deref(), Some("HTTP 500"));
    assert!(a.credentials.is_some());
}
