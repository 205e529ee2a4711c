use claude_usage_monitor::amount::{fmt_opt, parse_amount};
use claude_usage_monitor::config::{
    limit_level, plan_kind_default, value_level, Config, Level, PlanKind,
};

#[test]
fn plan_labels_and_prices() {
    assert_eq!(PlanKind::Unset.label(), "—");
    assert_eq!(PlanKind::Pro.label(), "Pro");
    assert_eq!(PlanKind::Max5x.label(), "Max 5×");
    assert_eq!(PlanKind::Max20x.label(), "Max 20×");
    assert_eq!(PlanKind::Team.label(), "Team (per seat)");
    assert_eq!(PlanKind::Custom.label(), "Custom");
    assert_eq!(PlanKind::Pro.default_cost(), Some(20_000_000_000));
    assert_eq!(PlanKind::Max5x.default_cost(), Some(100_000_000_000));
    assert_eq!(PlanKind::Max20x.default_cost(), Some(200_000_000_000));
    assert_eq!(PlanKind::Team.default_cost(), Some(25_000_000_000));
    assert_eq!(PlanKind::Custom.default_cost(), None);
    assert_eq!(PlanKind::Unset.default_cost(), None);
}

#[test]
fn plan_cycle_visits_all_and_returns() {
    let mut p = PlanKind::Unset;
    let mut seen = Vec::new();
    for _ in 0..6 {
        seen.push(p);
        p = p.cycle_next();
    }
    assert_eq!(p, PlanKind::Unset);
    assert_eq!(
        seen,
        vec![
            PlanKind::Unset,
            PlanKind::Pro,
            PlanKind::Max5x,
            PlanKind::Max20x,
            PlanKind::Team,
            PlanKind::Custom
        ]
    );
}

#[test]
fn plan_from_env_str() {
    assert_eq!(PlanKind::from_env_str("pro"), PlanKind::Pro);
    assert_eq!(PlanKind::from_env_str("  PRO \n"), PlanKind::Pro);
    assert_eq!(PlanKind::from_env_str("Max-5x"), PlanKind::Max5x);
    assert_eq!(PlanKind::from_env_str("max_20x"), PlanKind::Max20x);
    assert_eq!(PlanKind::from_env_str("max20x"), PlanKind::Max20x);
    assert_eq!(PlanKind::from_env_str("Team"), PlanKind::Team);
    assert_eq!(PlanKind::from_env_str("custom"), PlanKind::Custom);
    assert_eq!(PlanKind::from_env_str("max 5x"), PlanKind::Unset);
    assert_eq!(PlanKind::from_env_str(""), PlanKind::Unset);
    assert_eq!(PlanKind::from_env_str("\u{3000}team\u{a0}"), PlanKind::Team);
    assert_eq!(plan_kind_default(), PlanKind::Unset);
    assert_eq!(PlanKind::default(), PlanKind::Unset);
}

#[test]
fn monthly_cost_of_plan() {
    let mut c = Config::default();
    assert_eq!(c.plan_monthly_usd(), None);
    c.plan = PlanKind::Max5x;
    assert_eq!(c.plan_monthly_usd(), Some(100_000_000_000));
    c.plan = PlanKind::Custom;
    assert_eq!(c.plan_monthly_usd(), None);
    c.custom_plan_cost_usd = Some(42_500_000_000);
    assert_eq!(c.plan_monthly_usd(), Some(42_500_000_000));
    c.plan = PlanKind::Pro;
    assert_eq!(c.plan_monthly_usd(), Some(20_000_000_000));
}

fn parse(s: &str) -> Option<u128> {
    parse_amount(&s.chars().collect())
}

#[test]
fn amount_text_is_shortest_decimal() {
    assert_eq!(fmt_opt(None), "");
    assert_eq!(fmt_opt(Some(0)), "0");
    assert_eq!(fmt_opt(Some(100_000_000_000)), "100");
    assert_eq!(fmt_opt(Some(12_500_000_000)), "12.5");
    assert_eq!(fmt_opt(Some(100_000_000)), "0.1");
    assert_eq!(fmt_opt(Some(1)), "0.000000001");
}

#[test]
fn amount_parse() {
    assert_eq!(parse(""), None);
    assert_eq!(parse("."), None);
    assert_eq!(parse("12"), Some(12_000_000_000));
    assert_eq!(parse("12."), Some(12_000_000_000));
    assert_eq!(parse(".5"), Some(500_000_000));
    assert_eq!(parse("007.25"), Some(7_250_000_000));
    // rounded to the nearest nano-dollar, a half upward
    assert_eq!(parse("1.1234567891"), Some(1_123_456_789));
    assert_eq!(parse("1.1234567895"), Some(1_123_456_790));
    assert_eq!(parse("1.12345678849"), Some(1_123_456_788));
    assert_eq!(parse("0.9999999999"), Some(1_000_000_000));
    assert_eq!(parse(".0000000005"), Some(1));
    assert_eq!(
        parse("999999999999999999999999999999999999999999999"),
        None
    );
}

#[test]
fn amount_round_trip() {
    for x in [0u128, 1, 5, 999_999_999, 1_000_000_000, 12_340_000_000, 123_456_789_012_345] {
        let text = fmt_opt(Some(x));
        assert_eq!(parse(&text), Some(x));
    }
}

#[test]
fn gauge_levels_on_exact_amounts() {
    let usd: u128 = 1_000_000_000;
    // against a $10 limit: high from $9, middle from $7
    assert_eq!(limit_level(9 * usd, 10 * usd), Level::High);
    assert_eq!(limit_level(9 * usd - 1, 10 * usd), Level::Mid);
    assert_eq!(limit_level(7 * usd, 10 * usd), Level::Mid);
    assert_eq!(limit_level(7 * usd - 1, 10 * usd), Level::Low);
    assert_eq!(limit_level(25 * usd, 10 * usd), Level::High);
    assert_eq!(limit_level(5, 0), Level::Low);
    // limits that are not multiples of ten
    assert_eq!(limit_level(9, 10), Level::High);
    assert_eq!(limit_level(9, 11), Level::Mid); // 90 < 99
    assert_eq!(limit_level(10, 11), Level::High); // 100 >= 99
    assert_eq!(limit_level(u128::MAX, u128::MAX), Level::High);
    // subscription value against a $20 plan
    assert_eq!(value_level(19 * usd, 20 * usd), Level::Low);
    assert_eq!(value_level(20 * usd, 20 * usd), Level::Mid);
    assert_eq!(value_level(40 * usd - 1, 20 * usd), Level::Mid);
    assert_eq!(value_level(40 * usd, 20 * usd), Level::High);
    assert_eq!(value_level(7, 0), Level::Low);
    assert_eq!(value_level(u128::MAX, u128::MAX / 2), Level::High);
}
