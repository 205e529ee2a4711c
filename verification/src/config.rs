//! The subscription plan and the optional dollar limits that the user
//! configures. Amounts of money are nano-dollars (1e-9 USD).
use vstd::prelude::*;
use crate::text::{ascii_lower_seq, trim, chars_of, trimmed, to_ascii_lowercase, same_chars};

verus! {

pub const NANOS_PER_USD: u128 = 1_000_000_000;

/// A subscription plan of the assistant's web service.
#[derive(Clone, Copy, Debug, PartialEq, Eq, Structural)]
pub enum PlanKind {
    /// No plan configured.
    Unset,
    Pro,
    Max5x,
    Max20x,
    Team,
    Custom,
}

/// The plan's display label.
pub open spec fn spec_plan_label(p: PlanKind) -> Seq<char> {
    match p {
        PlanKind::Unset => "—"@,
        PlanKind::Pro => "Pro"@,
        PlanKind::Max5x => "Max 5×"@,
        PlanKind::Max20x => "Max 20×"@,
        PlanKind::Team => "Team (per seat)"@,
        PlanKind::Custom => "Custom"@,
    }
}

/// The plan's list price per month, in nano-dollars; none for no plan and
/// for a custom plan.
pub open spec fn spec_default_cost(p: PlanKind) -> Option<u128> {
    match p {
        PlanKind::Unset => None,
        PlanKind::Pro => Some(20_000_000_000),
        PlanKind::Max5x => Some(100_000_000_000),
        PlanKind::Max20x => Some(200_000_000_000),
        PlanKind::Team => Some(25_000_000_000),
        PlanKind::Custom => None,
    }
}

/// The plan after `p` in the order in which the settings screen cycles.
pub open spec fn spec_cycle_next(p: PlanKind) -> PlanKind {
    match p {
        PlanKind::Unset => PlanKind::Pro,
        PlanKind::Pro => PlanKind::Max5x,
        PlanKind::Max5x => PlanKind::Max20x,
        PlanKind::Max20x => PlanKind::Team,
        PlanKind::Team => PlanKind::Custom,
        PlanKind::Custom => PlanKind::Unset,
    }
}

/// The plan named by an environment setting: surrounding white space is
/// ignored, letters are compared case-insensitively, and anything not
/// recognised means no plan.
pub open spec fn spec_from_env_str(s: Seq<char>) -> PlanKind {
    let t = ascii_lower_seq(trim(s));
    if t == "pro"@ {
        PlanKind::Pro
    } else if t == "max5x"@ || t == "max-5x"@ || t == "max_5x"@ {
        PlanKind::Max5x
    } else if t == "max20x"@ || t == "max-20x"@ || t == "max_20x"@ {
        PlanKind::Max20x
    } else if t == "team"@ {
        PlanKind::Team
    } else if t == "custom"@ {
        PlanKind::Custom
    } else {
        PlanKind::Unset
    }
}

fn is_word(t: &Vec<char>, w: &str) -> (b: bool)
    ensures
        b == (t@ == w@),
{
    same_chars(t, &chars_of(w))
}

impl PlanKind {
    pub fn label(self) -> (s: &'static str)
        ensures
            s@ == spec_plan_label(self),
    {
        match self {
            PlanKind::Unset => "—",
            PlanKind::Pro => "Pro",
            PlanKind::Max5x => "Max 5×",
            PlanKind::Max20x => "Max 20×",
            PlanKind::Team => "Team (per seat)",
            PlanKind::Custom => "Custom",
        }
    }

    /// Monthly list price in nano-dollars, where the plan has one.
    pub fn default_cost(self) -> (c: Option<u128>)
        ensures
            c == spec_default_cost(self),
    {
        match self {
            PlanKind::Unset => None,
            PlanKind::Pro => Some(20_000_000_000),
            PlanKind::Max5x => Some(100_000_000_000),
            PlanKind::Max20x => Some(200_000_000_000),
            PlanKind::Team => Some(25_000_000_000),
            PlanKind::Custom => None,
        }
    }

    pub fn cycle_next(self) -> (p: PlanKind)
        ensures
            p == spec_cycle_next(self),
    {
        match self {
            PlanKind::Unset => PlanKind::Pro,
            PlanKind::Pro => PlanKind::Max5x,
            PlanKind::Max5x => PlanKind::Max20x,
            PlanKind::Max20x => PlanKind::Team,
            PlanKind::Team => PlanKind::Custom,
            PlanKind::Custom => PlanKind::Unset,
        }
    }

    pub fn from_env_str(s: &str) -> (p: PlanKind)
        ensures
            p == spec_from_env_str(s@),
    {
        let raw = chars_of(s);
        let t0 = trimmed(&raw);
        let t = to_ascii_lowercase(&t0);
        if is_word(&t, "pro") {
            PlanKind::Pro
        } else if is_word(&t, "max5x") || is_word(&t, "max-5x") || is_word(&t, "max_5x") {
            PlanKind::Max5x
        } else if is_word(&t, "max20x") || is_word(&t, "max-20x") || is_word(&t, "max_20x") {
            PlanKind::Max20x
        } else if is_word(&t, "team") {
            PlanKind::Team
        } else if is_word(&t, "custom") {
            PlanKind::Custom
        } else {
            PlanKind::Unset
        }
    }
}

impl Default for PlanKind {
    fn default() -> (p: PlanKind)
        ensures
            p == PlanKind::Unset,
    {
        PlanKind::Unset
    }
}

/// The plan assumed when the configuration file names none.
pub fn plan_kind_default() -> (p: PlanKind)
    ensures
        p == PlanKind::Unset,
{
    PlanKind::Unset
}

/// Cycling through the plans visits all six and comes back to the start.
pub proof fn law_cycle_returns(p: PlanKind)
    ensures
        spec_cycle_next(spec_cycle_next(spec_cycle_next(spec_cycle_next(spec_cycle_next(
            spec_cycle_next(p),
        ))))) == p,
        spec_cycle_next(p) != p,
{
}

/// The user's settings.
pub struct Config {
    pub plan: PlanKind,
    /// Monthly cost of a custom plan, in nano-dollars; only consulted when the
    /// plan is `Custom`.
    pub custom_plan_cost_usd: Option<u128>,
    /// Dollar limit (in nano-dollars) for the five-hour window.
    pub limit_5h_usd: Option<u128>,
    /// Dollar limit (in nano-dollars) for the weekly window.
    pub limit_week_usd: Option<u128>,
}

/// The monthly subscription cost in effect: none without a plan, the
/// configured cost for a custom plan, the list price otherwise.
pub open spec fn spec_plan_monthly(c: Config) -> Option<u128> {
    match c.plan {
        PlanKind::Unset => None,
        PlanKind::Custom => c.custom_plan_cost_usd,
        other => spec_default_cost(other),
    }
}

impl Config {
    /// Effective monthly subscription cost in nano-dollars, or none when no
    /// plan is configured.
    pub fn plan_monthly_usd(&self) -> (m: Option<u128>)
        ensures
            m == spec_plan_monthly(*self),
    {
        match self.plan {
            PlanKind::Unset => None,
            PlanKind::Custom => self.custom_plan_cost_usd,
            other => other.default_cost(),
        }
    }
}

impl Default for Config {
    fn default() -> (c: Config)
        ensures
            c.plan == PlanKind::Unset,
            c.custom_plan_cost_usd is None,
            c.limit_5h_usd is None,
            c.limit_week_usd is None,
    {
        Config {
            plan: PlanKind::Unset,
            custom_plan_cost_usd: None,
            limit_5h_usd: None,
            limit_week_usd: None,
        }
    }
}


/// How far a gauge has gone, which decides its colour.
#[derive(Clone, Copy, Debug, PartialEq, Eq, Structural)]
pub enum Level {
    Low,
    Mid,
    High,
}

/// The level of spending `cost` against a limit `limit` (both in
/// nano-dollars): high from 90% of the limit, middle from 70%, low below
/// that, and low against a zero limit.
pub open spec fn spec_limit_level(cost: int, limit: int) -> Level {
    if limit == 0 {
        Level::Low
    } else if 10 * cost >= 9 * limit {
        Level::High
    } else if 10 * cost >= 7 * limit {
        Level::Mid
    } else {
        Level::Low
    }
}

/// The value of a subscription: `cost` spent at API prices against a
/// monthly price `monthly` (both in nano-dollars) is low below the price,
/// middle below twice the price, high from there; low for a free plan.
pub open spec fn spec_value_level(cost: int, monthly: int) -> Level {
    if monthly == 0 || cost < monthly {
        Level::Low
    } else if cost < 2 * monthly {
        Level::Mid
    } else {
        Level::High
    }
}

/// The smallest whole number that is at least `k` tenths of `l`.
fn tenths_ceil(l: u128, k: u128) -> (t: u128)
    requires
        1 <= k <= 9,
    ensures
        10 * t >= k * l,
        10 * (t - 1) < k * l,
{
    let q = l / 10;
    let r = l % 10;
    assert(k * q <= 9 * q) by (nonlinear_arith)
        requires
            k <= 9,
            q >= 0,
    ;
    assert(k * r <= 81) by (nonlinear_arith)
        requires
            k <= 9,
            0 <= r < 10,
    ;
    let u = (k * r + 9) / 10;
    let t = k * q + u;
    assert(k * l == 10 * (k * q) + k * r) by (nonlinear_arith)
        requires
            l == 10 * q + r,
    ;
    t
}

/// The level of spending against a limit, decided on exact amounts.
pub fn limit_level(cost: u128, limit: u128) -> (v: Level)
    ensures
        v == spec_limit_level(cost as int, limit as int),
{
    if limit == 0 {
        Level::Low
    } else if cost >= tenths_ceil(limit, 9) {
        Level::High
    } else if cost >= tenths_ceil(limit, 7) {
        Level::Mid
    } else {
        Level::Low
    }
}

/// The value level of a subscription, decided on exact amounts.
pub fn value_level(cost: u128, monthly: u128) -> (v: Level)
    ensures
        v == spec_value_level(cost as int, monthly as int),
{
    if monthly == 0 || cost < monthly {
        Level::Low
    } else if cost - monthly < monthly {
        Level::Mid
    } else {
        Level::High
    }
}


/// The monthly cost in effect is the plan's list price for each listed plan
/// (Pro $20, Max 5× $100, Max 20× $200, Team $25 per seat, in nano-dollars),
/// whatever custom cost is configured; only a custom plan uses the
/// configured cost, and no plan has none.
pub proof fn law_plan_monthly_prices(c: Config)
    ensures
        c.plan == PlanKind::Pro ==> spec_plan_monthly(c) == Some(20_000_000_000u128),
        c.plan == PlanKind::Max5x ==> spec_plan_monthly(c) == Some(100_000_000_000u128),
        c.plan == PlanKind::Max20x ==> spec_plan_monthly(c) == Some(200_000_000_000u128),
        c.plan == PlanKind::Team ==> spec_plan_monthly(c) == Some(25_000_000_000u128),
        c.plan == PlanKind::Custom ==> spec_plan_monthly(c) == c.custom_plan_cost_usd,
        c.plan == PlanKind::Unset ==> spec_plan_monthly(c) is None,
{
}

/// Each accepted spelling of a plan names it, in any ASCII case and with any
/// white space around it: "pro"; "max5x", "max-5x", "max_5x"; "max20x",
/// "max-20x", "max_20x"; "team"; "custom".
pub proof fn law_plan_spellings(s: Seq<char>)
    ensures
        ascii_lower_seq(trim(s)) == "pro"@ ==> spec_from_env_str(s) == PlanKind::Pro,
        ascii_lower_seq(trim(s)) == "max5x"@ || ascii_lower_seq(trim(s)) == "max-5x"@
            || ascii_lower_seq(trim(s)) == "max_5x"@ ==> spec_from_env_str(s) == PlanKind::Max5x,
        ascii_lower_seq(trim(s)) == "max20x"@ || ascii_lower_seq(trim(s)) == "max-20x"@
            || ascii_lower_seq(trim(s)) == "max_20x"@ ==> spec_from_env_str(s)
            == PlanKind::Max20x,
        ascii_lower_seq(trim(s)) == "team"@ ==> spec_from_env_str(s) == PlanKind::Team,
        ascii_lower_seq(trim(s)) == "custom"@ ==> spec_from_env_str(s) == PlanKind::Custom,
{
    reveal_strlit("pro");
    reveal_strlit("max5x");
    reveal_strlit("max-5x");
    reveal_strlit("max_5x");
    reveal_strlit("max20x");
    reveal_strlit("max-20x");
    reveal_strlit("max_20x");
    reveal_strlit("team");
    reveal_strlit("custom");
    assert("pro"@.len() == 3 && "max5x"@.len() == 5 && "max-5x"@.len() == 6
        && "max_5x"@.len() == 6 && "max20x"@.len() == 6 && "max-20x"@.len() == 7
        && "max_20x"@.len() == 7);
    assert("max-5x"@[3] == '-' && "max_5x"@[3] == '_' && "max20x"@[3] == '2');
    assert("max-20x"@[3] == '-' && "max_20x"@[3] == '_');
    assert("custom"@.len() == 6 && "custom"@[0] == 'c' && "team"@.len() == 4);
    assert("max-5x"@[0] == 'm' && "max_5x"@[0] == 'm' && "max20x"@[0] == 'm');
    assert("custom"@ != "max-5x"@ && "custom"@ != "max_5x"@ && "custom"@ != "max20x"@);
    assert("max5x"@ != "pro"@);
    assert("max-5x"@ != "pro"@ && "max-5x"@ != "max5x"@);
    assert("max_5x"@ != "pro"@ && "max_5x"@ != "max5x"@);
    assert("max20x"@ != "pro"@ && "max20x"@ != "max5x"@);
    assert("max20x"@ != "max-5x"@);
    assert("max20x"@ != "max_5x"@);
    assert("max-20x"@ != "pro"@ && "max-20x"@ != "max5x"@ && "max-20x"@ != "max-5x"@
        && "max-20x"@ != "max_5x"@);
    assert("max_20x"@ != "pro"@ && "max_20x"@ != "max5x"@ && "max_20x"@ != "max-5x"@
        && "max_20x"@ != "max_5x"@);
}

} // verus!
