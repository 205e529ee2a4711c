//! The interactive state of the monitor: the tab on view, the refresh
//! schedule, and the settings form with its amount editor. Every method is a
//! decision on that state; the program around it performs the refreshes,
//! the rendering and the saving of the settings that the methods call for.
use vstd::prelude::*;
use crate::amount::{buffer_ok, is_digit, amount_text, spec_parse_amount_u128, fmt_opt, parse_amount, lemma_amount_text_ok, law_amount_text_round_trip};
use crate::collect::Snapshot;
use crate::config::{Config, PlanKind, spec_cycle_next};
use crate::quota::Credentials;
use crate::text::{chars_of, push_str, string_of, owned};

verus! {

/// How often the snapshot is refreshed.
#[derive(Clone, Copy, PartialEq, Eq, Structural)]
pub enum Interval {
    One,
    Five,
    Ten,
}

pub open spec fn spec_minutes(i: Interval) -> u64 {
    match i {
        Interval::One => 1,
        Interval::Five => 5,
        Interval::Ten => 10,
    }
}

/// std's `Duration::from_secs(secs)`; no clause states more than that the
/// result is determined by `secs`, as `Duration` is opaque here.
pub uninterp spec fn duration_of_secs(secs: u64) -> std::time::Duration;

/// std: `Duration::from_secs`. The contract claims only that the result is
/// the duration of `secs` whole seconds (a function of `secs`).
#[verifier::external_body]
fn duration_from_secs(secs: u64) -> (d: std::time::Duration)
    ensures
        d == duration_of_secs(secs),
{
    std::time::Duration::from_secs(secs)
}

impl Interval {
    pub fn minutes(self) -> (m: u64)
        ensures
            m == spec_minutes(self),
    {
        match self {
            Interval::One => 1,
            Interval::Five => 5,
            Interval::Ten => 10,
        }
    }

    /// The interval as a duration of whole seconds.
    pub fn as_duration(self) -> (d: std::time::Duration)
        ensures
            d == duration_of_secs((spec_minutes(self) * 60) as u64),
    {
        duration_from_secs(self.minutes() * 60)
    }
}

/// The screens of the monitor.
#[derive(Clone, Copy, PartialEq, Eq, Structural)]
pub enum Tab {
    Overview,
    Limits,
    Config,
}

pub open spec fn spec_next_tab(t: Tab) -> Tab {
    match t {
        Tab::Overview => Tab::Limits,
        Tab::Limits => Tab::Config,
        Tab::Config => Tab::Overview,
    }
}

impl Tab {
    /// Position of the tab in the tab bar.
    pub fn index(self) -> (i: usize)
        ensures
            i == (match self {
                Tab::Overview => 0usize,
                Tab::Limits => 1usize,
                Tab::Config => 2usize,
            }),
    {
        match self {
            Tab::Overview => 0,
            Tab::Limits => 1,
            Tab::Config => 2,
        }
    }
}

/// The fields of the settings form, in display order.
#[derive(Clone, Copy, PartialEq, Eq, Structural)]
pub enum ConfigField {
    Plan,
    CustomCost,
    Limit5h,
    LimitWeek,
}

/// The form field at position `i` (0 to 3).
pub open spec fn field_at(i: int) -> ConfigField {
    if i == 0 {
        ConfigField::Plan
    } else if i == 1 {
        ConfigField::CustomCost
    } else if i == 2 {
        ConfigField::Limit5h
    } else {
        ConfigField::LimitWeek
    }
}

pub open spec fn spec_field_label(f: ConfigField) -> Seq<char> {
    match f {
        ConfigField::Plan => "Subscription plan"@,
        ConfigField::CustomCost => "Custom plan cost (USD/mo)"@,
        ConfigField::Limit5h => "5-hour limit (USD)"@,
        ConfigField::LimitWeek => "Weekly limit (USD)"@,
    }
}

impl ConfigField {
    pub const ALL: [ConfigField; 4] = [
        ConfigField::Plan,
        ConfigField::CustomCost,
        ConfigField::Limit5h,
        ConfigField::LimitWeek,
    ];

    pub fn label(self) -> (s: &'static str)
        ensures
            s@ == spec_field_label(self),
    {
        match self {
            ConfigField::Plan => "Subscription plan",
            ConfigField::CustomCost => "Custom plan cost (USD/mo)",
            ConfigField::Limit5h => "5-hour limit (USD)",
            ConfigField::LimitWeek => "Weekly limit (USD)",
        }
    }
}

/// The form field at position `i`.
fn field_at_index(i: usize) -> (f: ConfigField)
    ensures
        f == field_at(i as int),
{
    if i == 0 {
        ConfigField::Plan
    } else if i == 1 {
        ConfigField::CustomCost
    } else if i == 2 {
        ConfigField::Limit5h
    } else {
        ConfigField::LimitWeek
    }
}

/// The amount that a numeric form field holds.
pub open spec fn field_amount(c: Config, f: ConfigField) -> Option<u128> {
    match f {
        ConfigField::Plan => None,
        ConfigField::CustomCost => c.custom_plan_cost_usd,
        ConfigField::Limit5h => c.limit_5h_usd,
        ConfigField::LimitWeek => c.limit_week_usd,
    }
}

/// `c` with the numeric field `f` set to `v` (the plan field is not numeric
/// and stays as it is).
pub open spec fn with_amount(c: Config, f: ConfigField, v: Option<u128>) -> Config {
    match f {
        ConfigField::Plan => c,
        ConfigField::CustomCost => Config { custom_plan_cost_usd: v, ..c },
        ConfigField::Limit5h => Config { limit_5h_usd: v, ..c },
        ConfigField::LimitWeek => Config { limit_week_usd: v, ..c },
    }
}

/// `c` with field `f` cleared: no plan, or no amount.
pub open spec fn cleared(c: Config, f: ConfigField) -> Config {
    match f {
        ConfigField::Plan => Config { plan: PlanKind::Unset, ..c },
        _ => with_amount(c, f, None),
    }
}

/// The state of the monitor's screens.
pub struct App {
    pub snapshot: Option<Snapshot>,
    pub error: Option<String>,
    /// The credentials that the last successful quota request used.
    pub credentials: Option<Credentials>,
    /// Why the last quota request failed, when it did.
    pub quota_error: Option<String>,
    pub interval: Interval,
    pub tab: Tab,
    pub config: Config,
    pub config_status: Option<String>,
    pub selected_field: usize,
    pub editing: bool,
    pub edit_buffer: String,
    pub should_quit: bool,
    /// A refresh has been started and has not reported back.
    pub in_flight: bool,
}

/// A key as the monitor tells keys apart.
#[derive(Clone, Copy, PartialEq, Eq, Structural)]
pub enum Key {
    Esc,
    Enter,
    Backspace,
    Tab,
    Up,
    Down,
    Delete,
    Char(char),
    Other,
}

/// What the program around the state is to do after a key.
#[derive(Clone, Copy, Debug, PartialEq, Eq, Structural)]
pub enum Action {
    Nothing,
    Quit,
    /// Start a refresh.
    Refresh,
    /// Save the settings.
    Save,
}

/// The refresh state and the reports of past refreshes are as in `old`,
/// apart from the refresh flag.
pub open spec fn same_status(new: App, old: App) -> bool {
    &&& new.snapshot == old.snapshot
    &&& new.error == old.error
    &&& new.credentials == old.credentials
    &&& new.quota_error == old.quota_error
    &&& new.config_status == old.config_status
    &&& new.should_quit == old.should_quit
}

/// `new` is `old` on the next tab, with any edit abandoned.
pub open spec fn tab_cycled(old: App, new: App) -> bool {
    &&& new.same_data(&old)
    &&& new.tab == spec_next_tab(old.tab)
    &&& new.selected_field == old.selected_field
    &&& !new.editing
    &&& new.edit_buffer@.len() == 0
}

/// `new` is `old` with a refresh running; `start` tells whether it is a new
/// one that the caller is to start.
pub open spec fn refresh_triggered(old: App, new: App, start: bool) -> bool {
    &&& start == !old.in_flight
    &&& new.in_flight
    &&& same_status(new, old)
    &&& new.interval == old.interval
    &&& new.config == old.config
    &&& new.same_screen(&old)
}

/// `new` is `old` with the interval `i` and a refresh running; `start`
/// tells whether it is a new one that the caller is to start.
pub open spec fn interval_set(old: App, new: App, i: Interval, start: bool) -> bool {
    &&& start == !old.in_flight
    &&& new.in_flight
    &&& new.interval == i
    &&& same_status(new, old)
    &&& new.config == old.config
    &&& new.same_screen(&old)
}

/// `new` is `old` with the previous form field selected, unless editing.
pub open spec fn prev_selected(old: App, new: App) -> bool {
    &&& new.same_data(&old)
    &&& new.tab == old.tab
    &&& new.editing == old.editing
    &&& new.edit_buffer@ == old.edit_buffer@
    &&& new.selected_field == (if old.editing {
        old.selected_field
    } else {
        ((old.selected_field + 3) % 4) as usize
    })
}

/// `new` is `old` with the next form field selected, unless editing.
pub open spec fn next_selected(old: App, new: App) -> bool {
    &&& new.same_data(&old)
    &&& new.tab == old.tab
    &&& new.editing == old.editing
    &&& new.edit_buffer@ == old.edit_buffer@
    &&& new.selected_field == (if old.editing {
        old.selected_field
    } else {
        ((old.selected_field + 1) % 4) as usize
    })
}

/// `new` is `old` after acting on the selected field: the plan field moves
/// to the next plan (to be saved); a numeric field opens the editor on its
/// amount.
pub open spec fn field_activated(old: App, new: App, save: bool) -> bool {
    &&& new.tab == old.tab
    &&& new.selected_field == old.selected_field
    &&& same_status(new, old)
    &&& new.interval == old.interval
    &&& new.in_flight == old.in_flight
    &&& old.spec_current_field() == ConfigField::Plan ==> {
        &&& save
        &&& new.config == (Config { plan: spec_cycle_next(old.config.plan), ..old.config })
        &&& new.editing == old.editing
        &&& new.edit_buffer@ == old.edit_buffer@
    }
    &&& old.spec_current_field() != ConfigField::Plan ==> {
        &&& !save
        &&& new.config == old.config
        &&& new.editing
        &&& new.edit_buffer@ == (match field_amount(old.config, old.spec_current_field()) {
            Some(x) => amount_text(x as nat),
            None => Seq::<char>::empty(),
        })
    }
}

/// `new` is `old` with the selected field cleared (to be saved), unless
/// editing.
pub open spec fn field_cleared(old: App, new: App, save: bool) -> bool {
    &&& save == !old.editing
    &&& new.same_screen(&old)
    &&& same_status(new, old)
    &&& new.interval == old.interval
    &&& new.in_flight == old.in_flight
    &&& new.config == (if old.editing {
        old.config
    } else {
        cleared(old.config, old.spec_current_field())
    })
}

/// `new` is `old` after typing `c` into the amount editor: digits always, a
/// '.' when there is none yet; anything else, or typing while not editing,
/// is ignored.
pub open spec fn char_typed(old: App, new: App, c: char) -> bool {
    &&& new.same_data(&old)
    &&& new.tab == old.tab
    &&& new.selected_field == old.selected_field
    &&& new.editing == old.editing
    &&& new.edit_buffer@ == (if old.editing && (is_digit(c) || (c == '.'
        && !old.edit_buffer@.contains('.'))) {
        old.edit_buffer@.push(c)
    } else {
        old.edit_buffer@
    })
}

/// `new` is `old` with the last character of the amount editor deleted,
/// while editing.
pub open spec fn char_deleted(old: App, new: App) -> bool {
    &&& new.same_data(&old)
    &&& new.tab == old.tab
    &&& new.selected_field == old.selected_field
    &&& new.editing == old.editing
    &&& new.edit_buffer@ == (if old.editing && old.edit_buffer@.len() > 0 {
        old.edit_buffer@.drop_last()
    } else {
        old.edit_buffer@
    })
}

/// `new` is `old` with the amount editor closed and the settings unchanged.
pub open spec fn edit_cancelled(old: App, new: App) -> bool {
    &&& new.same_data(&old)
    &&& new.tab == old.tab
    &&& new.selected_field == old.selected_field
    &&& !new.editing
    &&& new.edit_buffer@.len() == 0
}

/// `new` is `old` with the amount editor confirmed: the selected numeric
/// field is set to the amount of the text (none for an empty text or a lone
/// '.') and the editor closes; `save` tells whether an edit was in progress.
pub open spec fn edit_committed(old: App, new: App, save: bool) -> bool {
    &&& save == old.editing
    &&& new.tab == old.tab
    &&& new.selected_field == old.selected_field
    &&& same_status(new, old)
    &&& new.interval == old.interval
    &&& new.in_flight == old.in_flight
    &&& !old.editing ==> new.config == old.config && new.edit_buffer@ == old.edit_buffer@
        && !new.editing
    &&& old.editing ==> {
        &&& new.config == with_amount(
            old.config,
            old.spec_current_field(),
            spec_parse_amount_u128(old.edit_buffer@),
        )
        &&& !new.editing
        &&& new.edit_buffer@.len() == 0
    }
}

/// What a key does. On the settings tab while an amount is being edited:
/// Esc cancels the edit, Enter confirms it (and the settings are saved),
/// Backspace deletes and a character is typed. Otherwise, on every tab: q
/// and Esc quit, r refreshes, 1, 5 and 0 set the interval to 1, 5 and 10
/// minutes, Tab and t change tab; and on the settings tab Up/k and Down/j
/// select a field, Enter and Space act on it, x and Delete clear it. Any
/// other key changes nothing.
pub open spec fn key_handled(old: App, new: App, key: Key, act: Action) -> bool {
    if old.tab == Tab::Config && old.editing {
        if key == Key::Esc {
            edit_cancelled(old, new) && act == Action::Nothing
        } else if key == Key::Enter {
            edit_committed(old, new, act == Action::Save) && (act == Action::Save || act
                == Action::Nothing)
        } else if key == Key::Backspace {
            char_deleted(old, new) && act == Action::Nothing
        } else if key is Char {
            char_typed(old, new, key->0) && act == Action::Nothing
        } else {
            new == old && act == Action::Nothing
        }
    } else if key == Key::Char('q') || key == Key::Esc {
        new == old && act == Action::Quit
    } else if key == Key::Char('r') {
        refresh_triggered(old, new, act == Action::Refresh) && (act == Action::Refresh || act
            == Action::Nothing)
    } else if key == Key::Char('1') || key == Key::Char('5') || key == Key::Char('0') {
        interval_set(
            old,
            new,
            if key == Key::Char('1') {
                Interval::One
            } else if key == Key::Char('5') {
                Interval::Five
            } else {
                Interval::Ten
            },
            act == Action::Refresh,
        ) && (act == Action::Refresh || act == Action::Nothing)
    } else if key == Key::Tab || key == Key::Char('t') {
        tab_cycled(old, new) && act == Action::Nothing
    } else if old.tab == Tab::Config && (key == Key::Up || key == Key::Char('k')) {
        prev_selected(old, new) && act == Action::Nothing
    } else if old.tab == Tab::Config && (key == Key::Down || key == Key::Char('j')) {
        next_selected(old, new) && act == Action::Nothing
    } else if old.tab == Tab::Config && (key == Key::Enter || key == Key::Char(' ')) {
        field_activated(old, new, act == Action::Save) && (act == Action::Save || act
            == Action::Nothing)
    } else if old.tab == Tab::Config && (key == Key::Char('x') || key == Key::Delete) {
        field_cleared(old, new, act == Action::Save) && (act == Action::Save || act
            == Action::Nothing)
    } else {
        new == old && act == Action::Nothing
    }
}

impl App {
    /// The form position is valid, the amount editor holds only digits and
    /// at most one '.', and it is empty when no edit is in progress.
    pub open spec fn wf(&self) -> bool {
        &&& self.selected_field < 4
        &&& buffer_ok(self.edit_buffer@)
        &&& !self.editing ==> self.edit_buffer@.len() == 0
    }

    /// Everything but the screen and form state is as in `other`.
    pub open spec fn same_data(&self, other: &App) -> bool {
        &&& self.snapshot == other.snapshot
        &&& self.error == other.error
        &&& self.credentials == other.credentials
        &&& self.quota_error == other.quota_error
        &&& self.interval == other.interval
        &&& self.config == other.config
        &&& self.config_status == other.config_status
        &&& self.should_quit == other.should_quit
        &&& self.in_flight == other.in_flight
    }

    /// The screen and form state is as in `other`.
    pub open spec fn same_screen(&self, other: &App) -> bool {
        &&& self.tab == other.tab
        &&& self.selected_field == other.selected_field
        &&& self.editing == other.editing
        &&& self.edit_buffer@ == other.edit_buffer@
    }

    pub open spec fn spec_current_field(&self) -> ConfigField {
        field_at(if self.selected_field < 3 {
            self.selected_field as int
        } else {
            3
        })
    }

    /// The monitor as it starts: five-minute refresh, overview tab, the
    /// given settings, nothing loaded yet, and the first refresh running.
    /// Returns the state and whether the caller is to start that refresh
    /// (always).
    pub fn new(config: Config) -> (r: (App, bool))
        ensures
            r.0.wf(),
            r.1,
            r.0.in_flight,
            r.0.snapshot is None,
            r.0.error is None,
            r.0.credentials is None,
            r.0.quota_error is None,
            r.0.interval == Interval::Five,
            r.0.tab == Tab::Overview,
            r.0.config == config,
            r.0.config_status is None,
            r.0.selected_field == 0,
            !r.0.editing,
            !r.0.should_quit,
    {
        let mut app = App {
            snapshot: None,
            error: None,
            credentials: None,
            quota_error: None,
            interval: Interval::Five,
            tab: Tab::Overview,
            config,
            config_status: None,
            selected_field: 0,
            editing: false,
            edit_buffer: String::new(),
            should_quit: false,
            in_flight: false,
        };
        let start = app.trigger_refresh();
        (app, start)
    }

    /// Moves to the next tab, abandoning any edit in progress.
    pub fn cycle_tab(&mut self)
        requires
            old(self).wf(),
        ensures
            final(self).wf(),
            tab_cycled(*old(self), *final(self)),
    {
        self.tab = match self.tab {
            Tab::Overview => Tab::Limits,
            Tab::Limits => Tab::Config,
            Tab::Config => Tab::Overview,
        };
        self.editing = false;
        self.edit_buffer = String::new();
    }

    pub fn interval_minutes(&self) -> (m: u64)
        ensures
            m == spec_minutes(self.interval),
    {
        self.interval.minutes()
    }

    /// Starts a refresh unless one is already running; returns whether the
    /// caller is to start one.
    pub fn trigger_refresh(&mut self) -> (start: bool)
        ensures
            refresh_triggered(*old(self), *final(self), start),
    {
        if self.in_flight {
            return false;
        }
        self.in_flight = true;
        true
    }

    /// Changes the refresh interval and refreshes; returns whether the
    /// caller is to start a refresh.
    pub fn set_interval(&mut self, i: Interval) -> (start: bool)
        ensures
            interval_set(*old(self), *final(self), i, start),
    {
        self.interval = i;
        self.trigger_refresh()
    }

    /// Nanoseconds until the next scheduled refresh, `elapsed_ns` after the
    /// last one began.
    pub fn next_refresh_in(&self, elapsed_ns: u64) -> (r: Option<u64>)
        ensures
            r == Some(
                if elapsed_ns >= spec_minutes(self.interval) * 60_000_000_000 {
                    0
                } else {
                    (spec_minutes(self.interval) * 60_000_000_000 - elapsed_ns) as u64
                },
            ),
    {
        let target = self.interval.minutes() * 60_000_000_000;
        if elapsed_ns >= target {
            Some(0)
        } else {
            Some(target - elapsed_ns)
        }
    }

    /// The periodic check, `elapsed_ns` after the last refresh began: a
    /// refresh is due when none is running and the interval has passed.
    /// Returns whether the caller is to start one.
    pub fn tick(&mut self, elapsed_ns: u64) -> (start: bool)
        ensures
            start == (!old(self).in_flight && elapsed_ns >= spec_minutes(old(self).interval)
                * 60_000_000_000),
            final(self).in_flight == (old(self).in_flight || start),
            same_status(*final(self), *old(self)),
            final(self).interval == old(self).interval,
            final(self).config == old(self).config,
            final(self).same_screen(&*old(self)),
    {
        if !self.in_flight && elapsed_ns >= self.interval.minutes() * 60_000_000_000 {
            self.trigger_refresh()
        } else {
            false
        }
    }

    /// A refresh has delivered a snapshot.
    pub fn on_snapshot(&mut self, s: Snapshot)
        ensures
            final(self).snapshot == Some(s),
            final(self).error is None,
            !final(self).in_flight,
            final(self).credentials == old(self).credentials,
            final(self).quota_error == old(self).quota_error,
            final(self).interval == old(self).interval,
            final(self).config == old(self).config,
            final(self).config_status == old(self).config_status,
            final(self).should_quit == old(self).should_quit,
            final(self).same_screen(&*old(self)),
    {
        self.snapshot = Some(s);
        self.error = None;
        self.in_flight = false;
    }

    /// A refresh has failed with the given message.
    pub fn on_error(&mut self, e: String)
        ensures
            final(self).error == Some(e),
            final(self).snapshot == old(self).snapshot,
            !final(self).in_flight,
            final(self).credentials == old(self).credentials,
            final(self).quota_error == old(self).quota_error,
            final(self).interval == old(self).interval,
            final(self).config == old(self).config,
            final(self).config_status == old(self).config_status,
            final(self).should_quit == old(self).should_quit,
            final(self).same_screen(&*old(self)),
    {
        self.error = Some(e);
        self.in_flight = false;
    }

    /// The log report of a refresh: a snapshot or the reason there is none.
    pub fn on_logs(&mut self, r: Result<Snapshot, String>)
        ensures
            match r {
                Ok(s) => final(self).snapshot == Some(s) && final(self).error is None,
                Err(e) => final(self).error == Some(e) && final(self).snapshot == old(
                    self,
                ).snapshot,
            },
            !final(self).in_flight,
            final(self).credentials == old(self).credentials,
            final(self).quota_error == old(self).quota_error,
            final(self).interval == old(self).interval,
            final(self).config == old(self).config,
            final(self).config_status == old(self).config_status,
            final(self).should_quit == old(self).should_quit,
            final(self).same_screen(&*old(self)),
    {
        match r {
            Ok(s) => self.on_snapshot(s),
            Err(e) => self.on_error(e),
        }
    }

    /// A quota request with credentials `c` has succeeded.
    pub fn on_quota(&mut self, c: Credentials)
        ensures
            final(self).credentials == Some(c),
            final(self).quota_error is None,
            final(self).snapshot == old(self).snapshot,
            final(self).error == old(self).error,
            final(self).in_flight == old(self).in_flight,
            final(self).interval == old(self).interval,
            final(self).config == old(self).config,
            final(self).config_status == old(self).config_status,
            final(self).should_quit == old(self).should_quit,
            final(self).same_screen(&*old(self)),
    {
        self.credentials = Some(c);
        self.quota_error = None;
    }

    /// A quota request has failed with the given message; the last quota
    /// and its credentials stay.
    pub fn on_quota_error(&mut self, e: String)
        ensures
            final(self).quota_error == Some(e),
            final(self).credentials == old(self).credentials,
            final(self).snapshot == old(self).snapshot,
            final(self).error == old(self).error,
            final(self).in_flight == old(self).in_flight,
            final(self).interval == old(self).interval,
            final(self).config == old(self).config,
            final(self).config_status == old(self).config_status,
            final(self).should_quit == old(self).should_quit,
            final(self).same_screen(&*old(self)),
    {
        self.quota_error = Some(e);
    }

    pub fn current_field(&self) -> (f: ConfigField)
        ensures
            f == self.spec_current_field(),
    {
        field_at_index(if self.selected_field < 3 { self.selected_field } else { 3 })
    }

    /// Selects the previous form field (wrapping round), unless editing.
    pub fn select_prev_field(&mut self)
        requires
            old(self).wf(),
        ensures
            final(self).wf(),
            prev_selected(*old(self), *final(self)),
    {
        if self.editing {
            return;
        }
        self.selected_field = (self.selected_field + 4 - 1) % 4;
    }

    /// Selects the next form field (wrapping round), unless editing.
    pub fn select_next_field(&mut self)
        requires
            old(self).wf(),
        ensures
            final(self).wf(),
            next_selected(*old(self), *final(self)),
    {
        if self.editing {
            return;
        }
        self.selected_field = (self.selected_field + 1) % 4;
    }

    /// Acts on the selected field: the plan field moves to the next plan
    /// (and the settings are to be saved); a numeric field opens the editor
    /// on its current amount. Returns whether the settings are to be saved.
    pub fn activate_field(&mut self) -> (save: bool)
        requires
            old(self).wf(),
        ensures
            final(self).wf(),
            field_activated(*old(self), *final(self), save),
    {
        let f = self.current_field();
        match f {
            ConfigField::Plan => {
                self.config.plan = self.config.plan.cycle_next();
                true
            },
            _ => {
                self.editing = true;
                let v = match f {
                    ConfigField::CustomCost => self.config.custom_plan_cost_usd,
                    ConfigField::Limit5h => self.config.limit_5h_usd,
                    _ => self.config.limit_week_usd,
                };
                self.edit_buffer = fmt_opt(v);
                proof {
                    if let Some(x) = v {
                        lemma_amount_text_ok(x as nat);
                    }
                }
                false
            },
        }
    }

    /// Clears the selected field (no plan, or no amount), unless editing.
    /// Returns whether the settings are to be saved.
    pub fn clear_field(&mut self) -> (save: bool)
        requires
            old(self).wf(),
        ensures
            final(self).wf(),
            field_cleared(*old(self), *final(self), save),
    {
        if self.editing {
            return false;
        }
        match self.current_field() {
            ConfigField::Plan => self.config.plan = PlanKind::Unset,
            ConfigField::CustomCost => self.config.custom_plan_cost_usd = None,
            ConfigField::Limit5h => self.config.limit_5h_usd = None,
            ConfigField::LimitWeek => self.config.limit_week_usd = None,
        }
        true
    }

    /// Types a character into the amount editor: digits always, a '.' when
    /// there is none yet; anything else, or typing while not editing, is
    /// ignored.
    pub fn edit_push(&mut self, c: char)
        requires
            old(self).wf(),
        ensures
            final(self).wf(),
            char_typed(*old(self), *final(self), c),
    {
        if !self.editing {
            return;
        }
        let mut v = chars_of(self.edit_buffer.as_str());
        let digit = '0' <= c && c <= '9';
        let mut has_dot = false;
        let mut i: usize = 0;
        while i < v.len()
            invariant
                i <= v.len(),
                has_dot == exists|j: int| 0 <= j < i && v@[j] == '.',
            decreases v.len() - i,
        {
            if v[i] == '.' {
                has_dot = true;
            }
            i = i + 1;
        }
        if digit || (c == '.' && !has_dot) {
            let ghost old_v = v@;
            v.push(c);
            self.edit_buffer = string_of(&v);
            proof {
                let s = v@;
                assert forall|a: int, b: int|
                    0 <= a < s.len() && 0 <= b < s.len() && #[trigger] s[a] == '.' && #[trigger] s[b]
                        == '.' implies a == b by {
                    if a < old_v.len() && b < old_v.len() {
                        assert(s[a] == old_v[a] && s[b] == old_v[b]);
                    } else if a < old_v.len() {
                        assert(s[a] == old_v[a]);
                    } else if b < old_v.len() {
                        assert(s[b] == old_v[b]);
                    }
                }
                assert forall|a: int| 0 <= a < s.len() implies is_digit(#[trigger] s[a]) || s[a]
                    == '.' by {
                    if a < old_v.len() {
                        assert(s[a] == old_v[a]);
                    }
                }
            }
        } else {
            proof {
                if c == '.' && !old(self).edit_buffer@.contains('.') {
                    assert(!has_dot);
                }
            }
        }
    }

    /// Deletes the last character of the amount editor, while editing.
    pub fn edit_backspace(&mut self)
        requires
            old(self).wf(),
        ensures
            final(self).wf(),
            char_deleted(*old(self), *final(self)),
    {
        if self.editing {
            let mut v = chars_of(self.edit_buffer.as_str());
            if v.len() > 0 {
                let ghost old_v = v@;
                v.pop();
                self.edit_buffer = string_of(&v);
                proof {
                    assert forall|a: int| 0 <= a < v@.len() implies #[trigger] v@[a] == old_v[a] by {}
                }
            }
        }
    }

    /// Leaves the amount editor without changing the settings.
    pub fn edit_cancel(&mut self)
        requires
            old(self).wf(),
        ensures
            final(self).wf(),
            edit_cancelled(*old(self), *final(self)),
    {
        self.editing = false;
        self.edit_buffer = String::new();
    }

    /// Confirms the amount editor: the selected numeric field is set to the
    /// amount that the text stands for (none for an empty text or a lone
    /// '.'), and the editor closes. Returns whether the settings are to be
    /// saved (that is, whether an edit was in progress).
    pub fn edit_commit(&mut self) -> (save: bool)
        requires
            old(self).wf(),
        ensures
            final(self).wf(),
            edit_committed(*old(self), *final(self), save),
    {
        if !self.editing {
            return false;
        }
        let v = chars_of(self.edit_buffer.as_str());
        let parsed = parse_amount(&v);
        match self.current_field() {
            ConfigField::CustomCost => self.config.custom_plan_cost_usd = parsed,
            ConfigField::Limit5h => self.config.limit_5h_usd = parsed,
            ConfigField::LimitWeek => self.config.limit_week_usd = parsed,
            ConfigField::Plan => {},
        }
        self.editing = false;
        self.edit_buffer = String::new();
        true
    }

    /// Handles a key press and says what the program is to do next (see
    /// `key_handled`).
    pub fn on_key(&mut self, key: Key) -> (act: Action)
        requires
            old(self).wf(),
        ensures
            final(self).wf(),
            key_handled(*old(self), *final(self), key, act),
    {
        if self.tab == Tab::Config && self.editing {
            return match key {
                Key::Esc => {
                    self.edit_cancel();
                    Action::Nothing
                },
                Key::Enter => {
                    if self.edit_commit() {
                        Action::Save
                    } else {
                        Action::Nothing
                    }
                },
                Key::Backspace => {
                    self.edit_backspace();
                    Action::Nothing
                },
                Key::Char(c) => {
                    self.edit_push(c);
                    Action::Nothing
                },
                _ => Action::Nothing,
            };
        }
        let on_settings = self.tab == Tab::Config;
        match key {
            Key::Esc => Action::Quit,
            Key::Tab => {
                self.cycle_tab();
                Action::Nothing
            },
            Key::Up => {
                if on_settings {
                    self.select_prev_field();
                }
                Action::Nothing
            },
            Key::Down => {
                if on_settings {
                    self.select_next_field();
                }
                Action::Nothing
            },
            Key::Enter => {
                if on_settings {
                    self.activate_key()
                } else {
                    Action::Nothing
                }
            },
            Key::Delete => {
                if on_settings {
                    self.clear_key()
                } else {
                    Action::Nothing
                }
            },
            Key::Char(c) => {
                if c == 'q' {
                    Action::Quit
                } else if c == 'r' {
                    refresh_action(self.trigger_refresh())
                } else if c == '1' {
                    refresh_action(self.set_interval(Interval::One))
                } else if c == '5' {
                    refresh_action(self.set_interval(Interval::Five))
                } else if c == '0' {
                    refresh_action(self.set_interval(Interval::Ten))
                } else if c == 't' {
                    self.cycle_tab();
                    Action::Nothing
                } else if on_settings && c == 'k' {
                    self.select_prev_field();
                    Action::Nothing
                } else if on_settings && c == 'j' {
                    self.select_next_field();
                    Action::Nothing
                } else if on_settings && c == ' ' {
                    self.activate_key()
                } else if on_settings && c == 'x' {
                    self.clear_key()
                } else {
                    Action::Nothing
                }
            },
            _ => Action::Nothing,
        }
    }

    fn activate_key(&mut self) -> (act: Action)
        requires
            old(self).wf(),
        ensures
            final(self).wf(),
            field_activated(*old(self), *final(self), act == Action::Save),
            act == Action::Save || act == Action::Nothing,
    {
        if self.activate_field() {
            Action::Save
        } else {
            Action::Nothing
        }
    }

    fn clear_key(&mut self) -> (act: Action)
        requires
            old(self).wf(),
        ensures
            final(self).wf(),
            field_cleared(*old(self), *final(self), act == Action::Save),
            act == Action::Save || act == Action::Nothing,
    {
        if self.clear_field() {
            Action::Save
        } else {
            Action::Nothing
        }
    }

    /// Records how saving the settings went: the path written to, or the
    /// reason it failed.
    pub fn saved(&mut self, outcome: Result<String, String>)
        ensures
            final(self).config_status matches Some(s) && s@ == (match outcome {
                Ok(p) => "saved → "@ + p@,
                Err(e) => "save failed: "@ + e@,
            }),
            final(self).snapshot == old(self).snapshot,
            final(self).error == old(self).error,
            final(self).credentials == old(self).credentials,
            final(self).quota_error == old(self).quota_error,
            final(self).interval == old(self).interval,
            final(self).config == old(self).config,
            final(self).should_quit == old(self).should_quit,
            final(self).in_flight == old(self).in_flight,
            final(self).same_screen(&*old(self)),
    {
        let mut out: Vec<char> = Vec::new();
        match &outcome {
            Ok(p) => {
                push_str(&mut out, "saved → ");
                push_str(&mut out, p.as_str());
            },
            Err(e) => {
                push_str(&mut out, "save failed: ");
                push_str(&mut out, e.as_str());
            },
        }
        self.config_status = Some(string_of(&out));
    }
}

/// The action for a refresh request: start one when asked to.
fn refresh_action(start: bool) -> (act: Action)
    ensures
        act == (if start {
            Action::Refresh
        } else {
            Action::Nothing
        }),
{
    if start {
        Action::Refresh
    } else {
        Action::Nothing
    }
}

/// The log half of a refresh's reports: the snapshot or the failure to make
/// one, when the projects directory was found; otherwise the reason it was
/// not.
pub fn logs_report(found: Option<Result<Snapshot, String>>) -> (r: Result<Snapshot, String>)
    ensures
        match found {
            Some(x) => r == x,
            None => r matches Err(e) && e@ == "could not locate the projects directory"@,
        },
{
    match found {
        Some(x) => x,
        None => Err(owned("could not locate the projects directory")),
    }
}

/// The quota half of a refresh's reports.
pub enum QuotaReport<Q> {
    /// The quota `Q`, fetched with these credentials.
    Fetched(Q, Credentials),
    Failed(String),
}

/// The quota report of a refresh, from its outcome: the reason the
/// credentials could not be read, or the credentials read and the result of
/// fetching the quota with them.
pub fn quota_report<Q>(outcome: Result<(Credentials, Result<Q, String>), String>) -> (r: QuotaReport<Q>)
    ensures
        match outcome {
            Err(e) => r matches QuotaReport::Failed(m) && m@ == "no credentials: "@ + e@,
            Ok((c, Ok(q))) => r == QuotaReport::Fetched(q, c),
            Ok((c, Err(e))) => r == QuotaReport::<Q>::Failed(e),
        },
{
    match outcome {
        Err(e) => {
            let mut out = chars_of("no credentials: ");
            push_str(&mut out, e.as_str());
            QuotaReport::Failed(string_of(&out))
        },
        Ok((c, Ok(q))) => QuotaReport::Fetched(q, c),
        Ok((_, Err(e))) => QuotaReport::Failed(e),
    }
}


/// Three presses of Tab bring back the tab one started on.
pub proof fn law_tabs_cycle(t: Tab)
    ensures
        spec_next_tab(spec_next_tab(spec_next_tab(t))) == t,
        spec_next_tab(t) != t,
{
}

/// Outside the editor, selecting the next field and then the previous one
/// (or the other way round) returns to the field one started on.
pub proof fn law_field_selection_round_trip(i: usize)
    requires
        i < 4,
    ensures
        ((((i + 1) % 4) as usize + 3) % 4) as usize == i,
        ((((i + 3) % 4) as usize + 1) % 4) as usize == i,
{
}

/// Opening the editor on a numeric field and confirming it unchanged leaves
/// the settings as they were.
pub proof fn law_unchanged_edit_keeps_settings(c: Config, f: ConfigField)
    requires
        f != ConfigField::Plan,
    ensures
        with_amount(
            c,
            f,
            spec_parse_amount_u128(
                match field_amount(c, f) {
                    Some(x) => amount_text(x as nat),
                    None => Seq::<char>::empty(),
                },
            ),
        ) == c,
{
    match field_amount(c, f) {
        Some(x) => {
            law_amount_text_round_trip(x as nat);
        },
        None => {},
    }
}


/// Confirming an edit sets exactly the field being edited: the custom plan
/// cost at position 1, the five-hour limit at position 2, the weekly limit
/// at position 3, each to the amount of the edited text; the other amounts
/// and the plan stay as they were (and nothing changes at position 0, the
/// plan, which is not edited as text).
pub proof fn law_commit_sets_the_edited_field(old: App, new: App, save: bool)
    requires
        old.wf(),
        old.editing,
        edit_committed(old, new, save),
    ensures
        save,
        new.config.plan == old.config.plan,
        old.selected_field == 0 ==> new.config == old.config,
        old.selected_field == 1 ==> {
            &&& new.config.custom_plan_cost_usd == spec_parse_amount_u128(old.edit_buffer@)
            &&& new.config.limit_5h_usd == old.config.limit_5h_usd
            &&& new.config.limit_week_usd == old.config.limit_week_usd
        },
        old.selected_field == 2 ==> {
            &&& new.config.limit_5h_usd == spec_parse_amount_u128(old.edit_buffer@)
            &&& new.config.custom_plan_cost_usd == old.config.custom_plan_cost_usd
            &&& new.config.limit_week_usd == old.config.limit_week_usd
        },
        old.selected_field == 3 ==> {
            &&& new.config.limit_week_usd == spec_parse_amount_u128(old.edit_buffer@)
            &&& new.config.custom_plan_cost_usd == old.config.custom_plan_cost_usd
            &&& new.config.limit_5h_usd == old.config.limit_5h_usd
        },
{
}


/// Acting on a field outside the editor: at position 0 the plan moves to
/// the next plan and the settings are to be saved; at positions 1, 2 and 3
/// the editor opens on the custom plan cost, the five-hour limit and the
/// weekly limit respectively (their decimal text, or nothing when unset),
/// with the settings unchanged.
pub proof fn law_activate_opens_the_selected_field(old: App, new: App, save: bool)
    requires
        old.wf(),
        !old.editing,
        field_activated(old, new, save),
    ensures
        old.selected_field == 0 ==> save && new.config.plan == spec_cycle_next(old.config.plan)
            && new.config.custom_plan_cost_usd == old.config.custom_plan_cost_usd
            && new.config.limit_5h_usd == old.config.limit_5h_usd
            && new.config.limit_week_usd == old.config.limit_week_usd && !new.editing,
        old.selected_field != 0 ==> !save && new.config == old.config && new.editing,
        old.selected_field == 1 ==> new.edit_buffer@ == (match old.config.custom_plan_cost_usd {
            Some(x) => amount_text(x as nat),
            None => Seq::<char>::empty(),
        }),
        old.selected_field == 2 ==> new.edit_buffer@ == (match old.config.limit_5h_usd {
            Some(x) => amount_text(x as nat),
            None => Seq::<char>::empty(),
        }),
        old.selected_field == 3 ==> new.edit_buffer@ == (match old.config.limit_week_usd {
            Some(x) => amount_text(x as nat),
            None => Seq::<char>::empty(),
        }),
{
}

/// Clearing outside the editor empties exactly the selected field (no plan
/// at position 0; no custom cost, five-hour limit or weekly limit at 1, 2,
/// 3) and leaves the others; the settings are to be saved.
pub proof fn law_clear_empties_the_selected_field(old: App, new: App, save: bool)
    requires
        old.wf(),
        !old.editing,
        field_cleared(old, new, save),
    ensures
        save,
        new.config.plan == (if old.selected_field == 0 {
            PlanKind::Unset
        } else {
            old.config.plan
        }),
        new.config.custom_plan_cost_usd == (if old.selected_field == 1 {
            None
        } else {
            old.config.custom_plan_cost_usd
        }),
        new.config.limit_5h_usd == (if old.selected_field == 2 {
            None
        } else {
            old.config.limit_5h_usd
        }),
        new.config.limit_week_usd == (if old.selected_field == 3 {
            None
        } else {
            old.config.limit_week_usd
        }),
{
}

} // verus!
