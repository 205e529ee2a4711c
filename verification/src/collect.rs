//! Turning the entries of the coding assistant's session logs into a usage snapshot:
//! which entries count, and the totals, windows, breakdowns and current
//! session that the monitor shows.
use vstd::prelude::*;
use crate::calendar::Clock;
use crate::groups::{GroupBy, groups_match, add_to_rows, sort_by_cost_desc, sorted_by_cost_desc, lemma_groups_match_reordered};
use crate::records::{Record, Filter, sum_where, sum_all, earliest, latest, any_selected, lemma_push, lemma_sum_where_le, lemma_none_selected, selects};
use crate::sessions::{Session, sessions_match, add_to_sessions, latest_session, has_session};
use crate::seen::SeenIds;
use crate::text::{owned, same_text};
use crate::usage::{Aggregate, Usage, Totals, has_room, plus, zero_totals, totals_le, short_project_name, spec_short_project_name, is_sonnet};

verus! {

/// The assistant message of a log entry, with what the totals read of it.
pub struct Message {
    pub id: Option<String>,
    pub model: Option<String>,
    pub usage: Option<Usage>,
}

/// One line of a session log, with what the totals read of it.
pub struct Entry {
    /// The entry's `type` field ("assistant" for model replies).
    pub kind: String,
    pub message: Option<Message>,
    /// When the entry was written, in nanoseconds since the Unix epoch.
    pub timestamp: Option<i128>,
    /// Working directory of the session.
    pub cwd: Option<String>,
    pub session_id: Option<String>,
}

pub open spec fn opt_int(o: Option<i128>) -> Option<int> {
    match o {
        Some(t) => Some(t as int),
        None => None,
    }
}

pub open spec fn opt_text(o: Option<String>) -> Option<Seq<char>> {
    match o {
        Some(s) => Some(s@),
        None => None,
    }
}

/// The model an entry is attributed to ("unknown" when it names none).
pub open spec fn entry_model(e: Entry) -> Seq<char> {
    match e.message {
        Some(m) => match m.model {
            Some(s) => s@,
            None => "unknown"@,
        },
        None => "unknown"@,
    }
}

/// The project an entry is attributed to ("unknown" without a directory).
pub open spec fn entry_project(e: Entry) -> Seq<char> {
    match e.cwd {
        Some(c) => spec_short_project_name(c@),
        None => "unknown"@,
    }
}

pub open spec fn entry_id(e: Entry) -> Option<Seq<char>> {
    match e.message {
        Some(m) => opt_text(m.id),
        None => None,
    }
}

pub open spec fn entry_usage(e: Entry) -> Usage {
    match e.message {
        Some(m) => match m.usage {
            Some(u) => u,
            None => arbitrary(),
        },
        None => arbitrary(),
    }
}

/// The message that an entry contributes when it counts.
pub open spec fn record_of(e: Entry) -> Record {
    Record {
        model: entry_model(e),
        usage: entry_usage(e),
        timestamp: opt_int(e.timestamp),
        project: entry_project(e),
        session: opt_text(e.session_id),
        id: entry_id(e),
    }
}

/// Some message of `rs` carries the id `id`.
pub open spec fn id_seen(rs: Seq<Record>, id: Seq<char>) -> bool {
    exists|i: int| 0 <= i < rs.len() && (#[trigger] rs[i]).id == Some(id)
}

/// An entry counts when it is an assistant reply that reports usage and is
/// not a replay of a message already counted (same message id).
pub open spec fn counts(rs: Seq<Record>, e: Entry) -> bool {
    &&& e.kind@ == "assistant"@
    &&& e.message is Some
    &&& e.message->0.usage is Some
    &&& match entry_id(e) {
        Some(id) => !id_seen(rs, id),
        None => true,
    }
}

/// The usage snapshot that the monitor displays.
pub struct Snapshot {
    pub total: Aggregate,
    pub today: Aggregate,
    pub last_hour: Aggregate,
    /// One row per model, by decreasing cost.
    pub by_model: Vec<(String, Aggregate)>,
    /// One row per project, by decreasing cost.
    pub by_project: Vec<(String, Aggregate)>,
    pub last_activity: Option<i128>,
    /// Number of session log files read.
    pub session_count: usize,
    pub computed_at: i128,
    pub window_5h: Aggregate,
    /// Earliest message inside the five-hour window; the window resets five
    /// hours after it.
    pub window_5h_start: Option<i128>,
    /// Sonnet-only slice of the five-hour window.
    pub window_5h_sonnet: Aggregate,
    pub window_5h_sonnet_start: Option<i128>,
    pub window_week: Aggregate,
    /// Earliest message inside the seven-day window.
    pub window_week_start: Option<i128>,
    /// The session with the most recent message.
    pub current_session: Aggregate,
    pub current_session_id: Option<String>,
    /// Earliest message of the current session.
    pub current_session_start: Option<i128>,
    /// Calendar month to date.
    pub month_to_date: Aggregate,
}

/// The snapshot's totals and window starts are those of the counted
/// messages `rs` at clock `c`.
pub open spec fn windows_of(s: Snapshot, rs: Seq<Record>, c: Clock) -> bool {
    &&& s.total.totals() == sum_all(rs)
    &&& s.today.totals() == sum_where(rs, Filter::Since(c.today_start as int))
    &&& s.last_hour.totals() == sum_where(rs, Filter::Since(c.hour_ago as int))
    &&& s.month_to_date.totals() == sum_where(rs, Filter::Since(c.month_start as int))
    &&& s.window_5h.totals() == sum_where(rs, Filter::Since(c.five_h_ago as int))
    &&& s.window_5h_sonnet.totals() == sum_where(rs, Filter::SonnetSince(c.five_h_ago as int))
    &&& s.window_week.totals() == sum_where(rs, Filter::Since(c.week_ago as int))
    &&& opt_int(s.window_5h_start) == earliest(rs, Filter::Since(c.five_h_ago as int))
    &&& opt_int(s.window_5h_sonnet_start) == earliest(
        rs,
        Filter::SonnetSince(c.five_h_ago as int),
    )
    &&& opt_int(s.window_week_start) == earliest(rs, Filter::Since(c.week_ago as int))
    &&& opt_int(s.last_activity) == latest(rs, Filter::Timed)
}

/// The current session of the snapshot is one whose latest message is the
/// latest of all sessions, with that session's totals and first message;
/// there is none when no timestamped message names a session.
pub open spec fn current_session_of(s: Snapshot, rs: Seq<Record>) -> bool {
    match s.current_session_id {
        None => {
            &&& forall|k: int|
                0 <= k < rs.len() ==> !((#[trigger] rs[k]).timestamp is Some
                    && rs[k].session is Some)
            &&& s.current_session.totals() == zero_totals()
            &&& s.current_session_start is None
        },
        Some(id) => {
            &&& any_selected(rs, Filter::Session(id@))
            &&& s.current_session.totals() == sum_where(rs, Filter::Session(id@))
            &&& opt_int(s.current_session_start) == earliest(rs, Filter::Session(id@))
            &&& forall|o: Seq<char>|
                #[trigger] any_selected(rs, Filter::Session(o)) ==> latest(
                    rs,
                    Filter::Session(o),
                )->0 <= latest(rs, Filter::Session(id@))->0
        },
    }
}

/// `s` is the snapshot of the counted messages `rs`, read from `files` log
/// files, at clock `c`.
pub open spec fn snapshot_of(s: Snapshot, rs: Seq<Record>, c: Clock, files: nat) -> bool {
    &&& windows_of(s, rs, c)
    &&& groups_match(s.by_model@, rs, GroupBy::Model)
    &&& sorted_by_cost_desc(s.by_model@)
    &&& groups_match(s.by_project@, rs, GroupBy::Project)
    &&& sorted_by_cost_desc(s.by_project@)
    &&& current_session_of(s, rs)
    &&& s.session_count == files
    &&& s.computed_at == c.now
}

/// The running totals and window starts of a collector.
struct Windows {
    total: Aggregate,
    today: Aggregate,
    last_hour: Aggregate,
    month_to_date: Aggregate,
    window_5h: Aggregate,
    window_5h_start: Option<i128>,
    window_5h_sonnet: Aggregate,
    window_5h_sonnet_start: Option<i128>,
    window_week: Aggregate,
    window_week_start: Option<i128>,
    last_activity: Option<i128>,
}

/// The totals and window starts are those of the counted messages `rs` at
/// clock `c`.
#[verifier::opaque]
closed spec fn windows_match(w: Windows, rs: Seq<Record>, c: Clock) -> bool {
    &&& w.total.totals() == sum_all(rs)
    &&& w.today.totals() == sum_where(rs, Filter::Since(c.today_start as int))
    &&& w.last_hour.totals() == sum_where(rs, Filter::Since(c.hour_ago as int))
    &&& w.month_to_date.totals() == sum_where(rs, Filter::Since(c.month_start as int))
    &&& w.window_5h.totals() == sum_where(rs, Filter::Since(c.five_h_ago as int))
    &&& w.window_5h_sonnet.totals() == sum_where(rs, Filter::SonnetSince(c.five_h_ago as int))
    &&& w.window_week.totals() == sum_where(rs, Filter::Since(c.week_ago as int))
    &&& opt_int(w.window_5h_start) == earliest(rs, Filter::Since(c.five_h_ago as int))
    &&& opt_int(w.window_5h_sonnet_start) == earliest(
        rs,
        Filter::SonnetSince(c.five_h_ago as int),
    )
    &&& opt_int(w.window_week_start) == earliest(rs, Filter::Since(c.week_ago as int))
    &&& opt_int(w.last_activity) == latest(rs, Filter::Timed)
}

/// `seen` holds the ids of the counted messages that carry one.
#[verifier::opaque]
closed spec fn seen_match(seen: Seq<String>, rs: Seq<Record>) -> bool {
    &&& forall|i: int| 0 <= i < seen.len() ==> id_seen(rs, (#[trigger] seen[i])@)
    &&& forall|k: int|
        0 <= k < rs.len() && (#[trigger] rs[k]).id is Some ==> exists|i: int|
            0 <= i < seen.len() && (#[trigger] seen[i])@ == rs[k].id->0
}

fn new_windows() -> (w: Windows)
    ensures
        forall|c: Clock| windows_match(w, Seq::<Record>::empty(), c),
{
    let w = Windows {
        total: Aggregate::new(),
        today: Aggregate::new(),
        last_hour: Aggregate::new(),
        month_to_date: Aggregate::new(),
        window_5h: Aggregate::new(),
        window_5h_start: None,
        window_5h_sonnet: Aggregate::new(),
        window_5h_sonnet_start: None,
        window_week: Aggregate::new(),
        window_week_start: None,
        last_activity: None,
    };
    proof {
        reveal(windows_match);
    }
    w
}

fn earlier(prev: Option<i128>, ts: i128) -> (r: Option<i128>)
    ensures
        r == Some(
            match prev {
                Some(p) => if ts < p {
                    ts
                } else {
                    p
                },
                None => ts,
            },
        ),
{
    match prev {
        Some(p) => Some(if ts < p { ts } else { p }),
        None => Some(ts),
    }
}

fn later(prev: Option<i128>, ts: i128) -> (r: Option<i128>)
    ensures
        r == Some(
            match prev {
                Some(p) => if ts > p {
                    ts
                } else {
                    p
                },
                None => ts,
            },
        ),
{
    match prev {
        Some(p) => Some(if ts > p { ts } else { p }),
        None => Some(ts),
    }
}

/// Counts message `r` into the totals and windows.
fn count_windows(
    w: &mut Windows,
    c: Clock,
    model: &str,
    u: Usage,
    ts: Option<i128>,
    Ghost(rs): Ghost<Seq<Record>>,
    Ghost(r): Ghost<Record>,
)
    requires
        windows_match(*old(w), rs, c),
        model@ == r.model,
        u == r.usage,
        opt_int(ts) == r.timestamp,
        has_room(sum_all(rs), r.model, r.usage),
    ensures
        windows_match(*final(w), rs.push(r), c),
{
    proof {
        reveal(windows_match);
        lemma_push(rs, r, Filter::All);
        lemma_push(rs, r, Filter::Timed);
        lemma_push(rs, r, Filter::Since(c.today_start as int));
        lemma_push(rs, r, Filter::Since(c.hour_ago as int));
        lemma_push(rs, r, Filter::Since(c.month_start as int));
        lemma_push(rs, r, Filter::Since(c.five_h_ago as int));
        lemma_push(rs, r, Filter::SonnetSince(c.five_h_ago as int));
        lemma_push(rs, r, Filter::Since(c.week_ago as int));
        lemma_sum_where_le(rs, Filter::Since(c.today_start as int));
        lemma_sum_where_le(rs, Filter::Since(c.hour_ago as int));
        lemma_sum_where_le(rs, Filter::Since(c.month_start as int));
        lemma_sum_where_le(rs, Filter::Since(c.five_h_ago as int));
        lemma_sum_where_le(rs, Filter::SonnetSince(c.five_h_ago as int));
        lemma_sum_where_le(rs, Filter::Since(c.week_ago as int));
    }
    w.total.add(model, u);
    if let Some(ts) = ts {
        if ts >= c.today_start {
            w.today.add(model, u);
        }
        if ts >= c.hour_ago {
            w.last_hour.add(model, u);
        }
        if ts >= c.month_start {
            w.month_to_date.add(model, u);
        }
        if ts >= c.five_h_ago {
            w.window_5h.add(model, u);
            w.window_5h_start = earlier(w.window_5h_start, ts);
            if is_sonnet(model) {
                w.window_5h_sonnet.add(model, u);
                w.window_5h_sonnet_start = earlier(w.window_5h_sonnet_start, ts);
            }
        }
        if ts >= c.week_ago {
            w.window_week.add(model, u);
            w.window_week_start = earlier(w.window_week_start, ts);
        }
        w.last_activity = later(w.last_activity, ts);
    }
}

fn id_already_seen(seen: &SeenIds, id: &String, Ghost(rs): Ghost<Seq<Record>>) -> (b: bool)
    requires
        seen.wf(),
        seen_match(seen.ids(), rs),
    ensures
        b == id_seen(rs, id@),
{
    let b = seen.contains(id);
    proof {
        reveal(seen_match);
        if b {
            let i = choose|i: int| 0 <= i < seen.ids().len() && (#[trigger] seen.ids()[i])@ == id@;
            assert(id_seen(rs, seen.ids()[i]@));
        }
        if id_seen(rs, id@) {
            let k = choose|k: int| 0 <= k < rs.len() && (#[trigger] rs[k]).id == Some(id@);
            let i = choose|i: int| 0 <= i < seen.ids().len() && (#[trigger] seen.ids()[i])@ == rs[k].id->0;
            assert(seen.ids()[i]@ == id@);
        }
    }
    b
}

/// Accumulates log entries into a snapshot.
pub struct Collector {
    clock: Clock,
    windows: Windows,
    by_model: Vec<(String, Aggregate)>,
    by_project: Vec<(String, Aggregate)>,
    by_session: Vec<Session>,
    seen_ids: SeenIds,
    session_count: usize,
    records: Ghost<Seq<Record>>,
}

impl Collector {
    /// The messages counted so far, in the order they were counted.
    pub closed spec fn records(&self) -> Seq<Record> {
        self.records@
    }

    pub closed spec fn clock(&self) -> Clock {
        self.clock
    }

    /// The number of log files begun so far.
    pub closed spec fn files(&self) -> nat {
        self.session_count as nat
    }

    /// The collector's state is that of the records it has counted.
    pub closed spec fn wf(&self) -> bool {
        &&& windows_match(self.windows, self.records@, self.clock)
        &&& groups_match(self.by_model@, self.records@, GroupBy::Model)
        &&& groups_match(self.by_project@, self.records@, GroupBy::Project)
        &&& sessions_match(self.by_session@, self.records@)
        &&& self.seen_ids.wf()
        &&& seen_match(self.seen_ids.ids(), self.records@)
    }

    /// An empty collector for snapshots at clock `clock`.
    pub fn new(clock: Clock) -> (c: Collector)
        ensures
            c.wf(),
            c.records() == Seq::<Record>::empty(),
            c.clock() == clock,
            c.files() == 0,
    {
        let c = Collector {
            clock,
            windows: new_windows(),
            by_model: Vec::new(),
            by_project: Vec::new(),
            by_session: Vec::new(),
            seen_ids: SeenIds::new(),
            session_count: 0,
            records: Ghost(Seq::empty()),
        };
        proof {
            reveal(groups_match);
            reveal(sessions_match);
            reveal(seen_match);
        }
        c
    }

    /// Notes that one more session log file is being read.
    pub fn add_file(&mut self)
        requires
            old(self).wf(),
            old(self).files() < usize::MAX,
        ensures
            final(self).wf(),
            final(self).records() == old(self).records(),
            final(self).clock() == old(self).clock(),
            final(self).files() == old(self).files() + 1,
    {
        self.session_count = self.session_count + 1;
    }

    /// Whether the entry counts, given what has been counted so far.
    pub fn entry_counts(&self, e: &Entry) -> (b: bool)
        requires
            self.wf(),
        ensures
            b == counts(self.records(), *e),
    {
        if !same_text(e.kind.as_str(), "assistant") {
            return false;
        }
        match &e.message {
            None => false,
            Some(m) => {
                if m.usage.is_none() {
                    return false;
                }
                match &m.id {
                    Some(id) => !id_already_seen(&self.seen_ids, id, Ghost(self.records@)),
                    None => true,
                }
            },
        }
    }

    /// Whether counting the entry keeps every total within its machine
    /// integer (entries that do not count always fit).
    pub fn has_room_for(&self, e: &Entry) -> (b: bool)
        requires
            self.wf(),
        ensures
            b == (counts(self.records(), *e) ==> has_room(
                sum_all(self.records()),
                record_of(*e).model,
                record_of(*e).usage,
            )),
    {
        if !self.entry_counts(e) {
            return true;
        }
        let m = match &e.message {
            Some(m) => m,
            None => {
                return true;
            },
        };
        let u = match m.usage {
            Some(u) => u,
            None => {
                return true;
            },
        };
        let model = match &m.model {
            Some(s) => s.clone(),
            None => owned("unknown"),
        };
        let t = self.windows.total;
        proof {
            reveal(windows_match);
            assert(model@ == record_of(*e).model);
            assert(u == record_of(*e).usage);
        }
        let c = crate::pricing::cost(
            crate::pricing::lookup(model.as_str()),
            u.input_tokens,
            u.output_tokens,
            u.cache_creation_input_tokens,
            u.cache_read_input_tokens,
        );
        t.input.checked_add(u.input_tokens).is_some() && t.output.checked_add(
            u.output_tokens,
        ).is_some() && t.cache_write.checked_add(u.cache_creation_input_tokens).is_some()
            && t.cache_read.checked_add(u.cache_read_input_tokens).is_some() && t.cost.checked_add(
            c,
        ).is_some() && t.messages.checked_add(1).is_some()
    }

    /// Reads one log entry: when it counts, its message is added to the
    /// totals, windows, breakdowns and sessions; otherwise nothing changes.
    pub fn add_entry(&mut self, e: &Entry)
        requires
            old(self).wf(),
            counts(old(self).records(), *e) ==> has_room(
                sum_all(old(self).records()),
                record_of(*e).model,
                record_of(*e).usage,
            ),
        ensures
            final(self).wf(),
            final(self).clock() == old(self).clock(),
            final(self).files() == old(self).files(),
            final(self).records() == (if counts(old(self).records(), *e) {
                old(self).records().push(record_of(*e))
            } else {
                old(self).records()
            }),
    {
        if !self.entry_counts(e) {
            return;
        }
        let m = match &e.message {
            Some(m) => m,
            None => {
                return;
            },
        };
        let u = match m.usage {
            Some(u) => u,
            None => {
                return;
            },
        };
        let ghost r = record_of(*e);
        let ghost rs = self.records@;
        let model = match &m.model {
            Some(s) => s.clone(),
            None => owned("unknown"),
        };
        let project = match &e.cwd {
            Some(c) => short_project_name(c.as_str()),
            None => owned("unknown"),
        };
        count_windows(&mut self.windows, self.clock, model.as_str(), u, e.timestamp, Ghost(rs), Ghost(r));
        add_to_rows(&mut self.by_model, &model, model.as_str(), u, Ghost(rs), Ghost(r), Ghost(GroupBy::Model));
        add_to_rows(&mut self.by_project, &project, model.as_str(), u, Ghost(rs), Ghost(r), Ghost(GroupBy::Project));
        match (&e.timestamp, &e.session_id) {
            (Some(ts), Some(sid)) => {
                add_to_sessions(&mut self.by_session, sid, model.as_str(), u, *ts, Ghost(rs), Ghost(r));
            },
            _ => {
                proof {
                    reveal(sessions_match);
                    let rs2 = rs.push(r);
                    assert forall|k: Seq<char>| #[trigger] sum_where(rs2, Filter::Session(k))
                        == sum_where(rs, Filter::Session(k)) && earliest(rs2, Filter::Session(k))
                        == earliest(rs, Filter::Session(k)) && latest(rs2, Filter::Session(k))
                        == latest(rs, Filter::Session(k)) by {
                        lemma_push(rs, r, Filter::Session(k));
                    }
                    assert forall|k: int|
                        0 <= k < rs2.len() && (#[trigger] rs2[k]).timestamp is Some
                            && rs2[k].session is Some implies has_session(
                        self.by_session@,
                        rs2[k].session->0,
                    ) by {
                        assert(rs2[k] == rs[k]);
                    }
                }
            },
        }
        let ghost old_seen = self.seen_ids.ids();
        match &m.id {
            Some(id) => {
                self.seen_ids.insert(id.clone());
            },
            None => {},
        }
        self.records = Ghost(rs.push(r));
        proof {
            reveal(seen_match);
            let rs2 = rs.push(r);
            assert forall|i: int| 0 <= i < self.seen_ids.ids().len() implies id_seen(
                rs2,
                (#[trigger] self.seen_ids.ids()[i])@,
            ) by {
                if i < self.seen_ids.ids().len() - 1 || entry_id(*e) is None {
                    let k = choose|k: int|
                        0 <= k < rs.len() && (#[trigger] rs[k]).id == Some(self.seen_ids.ids()[i]@);
                    assert(rs2[k] == rs[k]);
                } else {
                    assert(rs2[rs.len() as int].id == Some(self.seen_ids.ids()[i]@));
                }
            }
            assert forall|k: int|
                0 <= k < rs2.len() && (#[trigger] rs2[k]).id is Some implies exists|i: int|
                0 <= i < self.seen_ids.ids().len() && (#[trigger] self.seen_ids.ids()[i])@ == rs2[k].id->0 by {
                if k == rs.len() {
                    assert(self.seen_ids.ids()[self.seen_ids.ids().len() - 1]@ == rs2[k].id->0);
                } else {
                    assert(rs2[k] == rs[k]);
                    let i = choose|i: int|
                        0 <= i < old_seen.len() && (#[trigger] old_seen[i])@ == rs[k].id->0;
                    assert(self.seen_ids.ids()[i] == old_seen[i]);
                }
            }
            assert(windows_match(self.windows, self.records@, self.clock));
            assert(groups_match(self.by_model@, self.records@, GroupBy::Model));
            assert(groups_match(self.by_project@, self.records@, GroupBy::Project));
            assert(sessions_match(self.by_session@, self.records@));
            assert(seen_match(self.seen_ids.ids(), self.records@));
        }
    }

    /// The snapshot of everything counted.
    pub fn finish(self) -> (s: Snapshot)
        requires
            self.wf(),
        ensures
            snapshot_of(s, self.records(), self.clock(), self.files()),
    {
        let ghost rs = self.records@;
        proof {
            reveal(windows_match);
            reveal(sessions_match);
        }
        let w = self.windows;
        let by_model = sort_by_cost_desc(self.by_model);
        let by_project = sort_by_cost_desc(self.by_project);
        proof {
            lemma_groups_match_reordered(self.by_model@, by_model@, rs, GroupBy::Model);
            lemma_groups_match_reordered(self.by_project@, by_project@, rs, GroupBy::Project);
        }
        let ss = self.by_session;
        let (current_session_id, current_session, current_session_start) = match latest_session(
            &ss,
        ) {
            Some(i) => {
                proof {
                    let id = ss@[i as int].id@;
                    assert(crate::sessions::session_matches(ss@[i as int], rs));
                    assert forall|o: Seq<char>|
                        #[trigger] any_selected(rs, Filter::Session(o)) implies latest(
                        rs,
                        Filter::Session(o),
                    )->0 <= latest(rs, Filter::Session(id))->0 by {
                        let w = choose|w: int|
                            0 <= w < rs.len() && #[trigger] selects(Filter::Session(o), rs[w]);
                        let j = choose|j: int|
                            0 <= j < ss.len() && (#[trigger] ss@[j]).id@ == rs[w].session->0;
                        assert(crate::sessions::session_matches(ss@[j], rs));
                    }
                    assert(any_selected(rs, Filter::Session(id))) by {
                        if !any_selected(rs, Filter::Session(id)) {
                            lemma_none_selected(rs, Filter::Session(id));
                        }
                    }
                }
                (Some(ss[i].id.clone()), ss[i].totals, Some(ss[i].first))
            },
            None => {
                proof {
                    assert forall|k: int| 0 <= k < rs.len() implies !((#[trigger] rs[k]).timestamp is Some
                        && rs[k].session is Some) by {
                        if rs[k].timestamp is Some && rs[k].session is Some {
                            let j = choose|j: int|
                                0 <= j < ss.len() && (#[trigger] ss@[j]).id@ == rs[k].session->0;
                        }
                    }
                }
                (None, Aggregate::new(), None)
            },
        };
        Snapshot {
            total: w.total,
            today: w.today,
            last_hour: w.last_hour,
            by_model,
            by_project,
            last_activity: w.last_activity,
            session_count: self.session_count,
            computed_at: self.clock.now,
            window_5h: w.window_5h,
            window_5h_start: w.window_5h_start,
            window_5h_sonnet: w.window_5h_sonnet,
            window_5h_sonnet_start: w.window_5h_sonnet_start,
            window_week: w.window_week,
            window_week_start: w.window_week_start,
            current_session,
            current_session_id,
            current_session_start,
            month_to_date: w.month_to_date,
        }
    }
}

/// A message that counted is not counted again: once an entry with a
/// message id has been read, reading it (or any entry with the same message
/// id) again changes nothing.
pub proof fn law_replay_counted_once(rs: Seq<Record>, e: Entry, e2: Entry)
    requires
        counts(rs, e),
        entry_id(e) is Some,
        entry_id(e2) == entry_id(e),
    ensures
        !counts(rs.push(record_of(e)), e2),
{
    let rs2 = rs.push(record_of(e));
    assert(rs2[rs.len() as int].id == entry_id(e));
}

/// The rows of the by-model and the by-project breakdowns each add up to
/// the snapshot's totals.
pub proof fn law_snapshot_breakdowns_add_up(s: Snapshot, rs: Seq<Record>, c: Clock, files: nat)
    requires
        snapshot_of(s, rs, c, files),
    ensures
        crate::groups::sum_rows(s.by_model@) == s.total.totals(),
        crate::groups::sum_rows(s.by_project@) == s.total.totals(),
{
    crate::groups::law_breakdown_adds_up(s.by_model@, rs, GroupBy::Model);
    crate::groups::law_breakdown_adds_up(s.by_project@, rs, GroupBy::Project);
}

proof fn lemma_plus_mono(a: Totals, b: Totals, model: Seq<char>, u: Usage)
    requires
        totals_le(a, b),
    ensures
        totals_le(plus(a, model, u), plus(b, model, u)),
        totals_le(a, plus(b, model, u)),
{
}

proof fn lemma_sum_where_mono(rs: Seq<Record>, f1: Filter, f2: Filter)
    requires
        forall|r: Record| #[trigger] selects(f1, r) ==> selects(f2, r),
    ensures
        totals_le(sum_where(rs, f1), sum_where(rs, f2)),
    decreases rs.len(),
{
    if rs.len() > 0 {
        lemma_sum_where_mono(rs.drop_last(), f1, f2);
        let r = rs.last();
        lemma_plus_mono(sum_where(rs.drop_last(), f1), sum_where(rs.drop_last(), f2), r.model, r.usage);
    }
}

proof fn lemma_earliest_in_window(rs: Seq<Record>, lo: int)
    ensures
        earliest(rs, Filter::Since(lo)) matches Some(t) ==> t >= lo,
    decreases rs.len(),
{
    if rs.len() > 0 {
        lemma_earliest_in_window(rs.drop_last(), lo);
    }
}

/// The windows of a snapshot nest: the last hour lies within the last five
/// hours, which lie within the last week, the Sonnet slice lies within the
/// five-hour window, and every window lies within the all-time totals. The
/// window starts lie inside their windows, so a window resets no earlier
/// than now.
pub proof fn law_windows_nested(s: Snapshot, rs: Seq<Record>, c: Clock, files: nat, now: int)
    requires
        snapshot_of(s, rs, c, files),
        crate::calendar::spec_clock_at(now, c),
    ensures
        totals_le(s.last_hour.totals(), s.window_5h.totals()),
        totals_le(s.window_5h.totals(), s.window_week.totals()),
        totals_le(s.window_5h_sonnet.totals(), s.window_5h.totals()),
        totals_le(s.window_week.totals(), s.total.totals()),
        totals_le(s.today.totals(), s.total.totals()),
        totals_le(s.month_to_date.totals(), s.total.totals()),
        s.window_5h_start matches Some(t) ==> t >= c.five_h_ago && t + 5 * 3_600_000_000_000 >= now,
        s.window_week_start matches Some(t) ==> t >= c.week_ago && t + 7 * 86_400_000_000_000 >= now,
{
    lemma_sum_where_mono(rs, Filter::Since(c.hour_ago as int), Filter::Since(c.five_h_ago as int));
    lemma_sum_where_mono(rs, Filter::Since(c.five_h_ago as int), Filter::Since(c.week_ago as int));
    lemma_sum_where_mono(rs, Filter::SonnetSince(c.five_h_ago as int), Filter::Since(c.five_h_ago as int));
    lemma_sum_where_le(rs, Filter::Since(c.week_ago as int));
    lemma_sum_where_le(rs, Filter::Since(c.today_start as int));
    lemma_sum_where_le(rs, Filter::Since(c.month_start as int));
    lemma_earliest_in_window(rs, c.five_h_ago as int);
    lemma_earliest_in_window(rs, c.week_ago as int);
}


proof fn lemma_all_selected(rs: Seq<Record>, f: Filter)
    requires
        forall|k: int| 0 <= k < rs.len() ==> selects(f, #[trigger] rs[k]),
    ensures
        sum_where(rs, f) == sum_all(rs),
    decreases rs.len(),
{
    if rs.len() > 0 {
        assert forall|k: int| 0 <= k < rs.drop_last().len() implies selects(
            f,
            #[trigger] rs.drop_last()[k],
        ) by {
            assert(rs.drop_last()[k] == rs[k]);
        }
        lemma_all_selected(rs.drop_last(), f);
        assert(selects(f, rs[rs.len() - 1]));
    }
}

/// Month to date counts every message timestamped at or after midnight UTC
/// on the first of the current month, however long ago that is (also before
/// the seven-day window): its totals are those of exactly those messages,
/// and when every message is that recent they are the all-time totals.
pub proof fn law_month_to_date(s: Snapshot, rs: Seq<Record>, c: Clock, files: nat)
    requires
        snapshot_of(s, rs, c, files),
    ensures
        s.month_to_date.totals() == sum_where(rs, Filter::Since(c.month_start as int)),
        (forall|k: int|
            0 <= k < rs.len() ==> (#[trigger] rs[k]).timestamp is Some && rs[k].timestamp->0
                >= c.month_start) ==> s.month_to_date.totals() == s.total.totals(),
{
    if forall|k: int|
        0 <= k < rs.len() ==> (#[trigger] rs[k]).timestamp is Some && rs[k].timestamp->0
            >= c.month_start {
        assert forall|k: int| 0 <= k < rs.len() implies selects(
            Filter::Since(c.month_start as int),
            #[trigger] rs[k],
        ) by {}
        lemma_all_selected(rs, Filter::Since(c.month_start as int));
    }
}


/// What each window of a snapshot taken at the instant `now` (nanoseconds)
/// holds: the messages of the last hour, of the last five hours (and the
/// Sonnet ones among them), of the last seven days, since midnight UTC, and
/// since the start of the calendar month, each bound included; each
/// window's start is its earliest message, and the last activity is the
/// latest message.
pub proof fn law_windows_by_time(s: Snapshot, rs: Seq<Record>, c: Clock, files: nat, now: int)
    requires
        snapshot_of(s, rs, c, files),
        crate::calendar::spec_clock_at(now, c),
    ensures
        s.total.totals() == sum_where(rs, Filter::All),
        s.last_hour.totals() == sum_where(rs, Filter::Since(now - 3_600_000_000_000)),
        s.window_5h.totals() == sum_where(rs, Filter::Since(now - 18_000_000_000_000)),
        s.window_5h_sonnet.totals() == sum_where(
            rs,
            Filter::SonnetSince(now - 18_000_000_000_000),
        ),
        s.window_week.totals() == sum_where(rs, Filter::Since(now - 604_800_000_000_000)),
        s.today.totals() == sum_where(
            rs,
            Filter::Since(now - now % 86_400_000_000_000),
        ),
        s.month_to_date.totals() == sum_where(
            rs,
            Filter::Since(crate::calendar::spec_first_of_month(now)),
        ),
        opt_int(s.window_5h_start) == earliest(rs, Filter::Since(now - 18_000_000_000_000)),
        opt_int(s.window_5h_sonnet_start) == earliest(
            rs,
            Filter::SonnetSince(now - 18_000_000_000_000),
        ),
        opt_int(s.window_week_start) == earliest(rs, Filter::Since(now - 604_800_000_000_000)),
        opt_int(s.last_activity) == latest(rs, Filter::Timed),
        s.computed_at == now,
{
}

proof fn lemma_latest_bounds(rs: Seq<Record>, f: Filter, k: int)
    requires
        0 <= k < rs.len(),
        selects(f, rs[k]),
        rs[k].timestamp is Some,
    ensures
        latest(rs, f) is Some,
        rs[k].timestamp->0 <= latest(rs, f)->0,
    decreases rs.len(),
{
    if k < rs.len() - 1 {
        assert(rs.drop_last()[k] == rs[k]);
        lemma_latest_bounds(rs.drop_last(), f, k);
    }
}

/// The current session is that of the most recent message: when some
/// timestamped message names a session there is a current session, and no
/// timestamped message of any session is later than the current session's
/// latest message.
pub proof fn law_current_session_is_latest(s: Snapshot, rs: Seq<Record>, c: Clock, files: nat, k: int)
    requires
        snapshot_of(s, rs, c, files),
        0 <= k < rs.len(),
        rs[k].timestamp is Some,
        rs[k].session is Some,
    ensures
        s.current_session_id is Some,
        latest(rs, Filter::Session(s.current_session_id->0@)) is Some,
        rs[k].timestamp->0 <= latest(rs, Filter::Session(s.current_session_id->0@))->0,
{
    let o = rs[k].session->0;
    lemma_latest_bounds(rs, Filter::Session(o), k);
    if s.current_session_id is Some {
        let id = s.current_session_id->0@;
        assert(selects(Filter::Session(o), rs[k]));
        assert(any_selected(rs, Filter::Session(o)));
        let j = choose|j: int| 0 <= j < rs.len() && #[trigger] selects(Filter::Session(id), rs[j]);
        lemma_latest_bounds(rs, Filter::Session(id), j);
    }
}


/// Only assistant replies that report usage count: an entry that counts is
/// of type "assistant" and carries a message with a usage report.
pub proof fn law_only_assistant_usage_counts(rs: Seq<Record>, e: Entry)
    requires
        counts(rs, e),
    ensures
        e.kind@ == "assistant"@,
        e.message is Some,
        e.message->0.usage is Some,
{
}

} // verus!
