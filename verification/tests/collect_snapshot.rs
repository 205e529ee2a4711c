use claude_usage_monitor::calendar::{
    clock_at, first_of_month, reset_in, secs_until, Clock, FIVE_HOURS_NANOS, WEEK_NANOS,
};
use claude_usage_monitor::collect::{Collector, Entry, Message, Snapshot};
use claude_usage_monitor::seen::{hash_of, SeenIds};
use claude_usage_monitor::usage::Usage;

const S: i128 = 1_000_000_000;
const NOW: i128 = 1_710_506_096 * S + 500_000_000; // 2024-03-15 12:34:56.5 UTC

fn usage(i: u64, o: u64) -> Usage {
    Usage {
        input_tokens: i,
        output_tokens: o,
        cache_creation_input_tokens: 0,
        cache_read_input_tokens: 0,
    }
}

fn entry(
    kind: &str,
    id: Option<&str>,
    model: Option<&str>,
    u: Option<Usage>,
    ts: Option<i128>,
    cwd: Option<&str>,
    sid: Option<&str>,
) -> Entry {
    Entry {
        kind: kind.to_string(),
        message: Some(Message {
            id: id.map(|s| s.to_string()),
            model: model.map(|s| s.to_string()),
            usage: u,
        }),
        timestamp: ts,
        cwd: cwd.map(|s| s.to_string()),
        session_id: sid.map(|s| s.to_string()),
    }
}

fn run(clock: Clock, files: usize, es: &[Entry]) -> Snapshot {
    let mut c = Collector::new(clock);
    for _ in 0..files {
        c.add_file();
    }
    for e in es {
        assert!(c.has_room_for(e));
        c.add_entry(e);
    }
    c.finish()
}

#[test]
fn clock_bounds_at_a_known_instant() {
    let c = clock_at(NOW);
    assert_eq!(c.now, NOW);
    assert_eq!(c.today_start, 1_710_460_800 * S);
    assert_eq!(c.hour_ago, NOW - 3600 * S);
    assert_eq!(c.five_h_ago, NOW - 5 * 3600 * S);
    assert_eq!(c.week_ago, NOW - 7 * 86400 * S);
    assert_eq!(c.month_start, 1_709_251_200 * S);
}

#[test]
fn clock_before_the_epoch() {
    let now = -3600 * S + 1; // 1969-12-31 23:00:00.000000001 UTC
    let c = clock_at(now);
    assert_eq!(c.today_start, -86400 * S);
    assert_eq!(first_of_month(now), -2_678_400 * S);
}

#[test]
fn first_of_month_at_month_start_is_itself() {
    assert_eq!(first_of_month(1_709_251_200 * S), 1_709_251_200 * S);
}

#[test]
fn empty_log_gives_empty_snapshot() {
    let s = run(clock_at(NOW), 0, &[]);
    assert_eq!(s.total.messages, 0);
    assert_eq!(s.session_count, 0);
    assert_eq!(s.computed_at, NOW);
    assert!(s.by_model.is_empty());
    assert!(s.current_session_id.is_none());
    assert!(s.last_activity.is_none());
}

#[test]
fn only_assistant_entries_with_usage_count() {
    let es = vec![
        entry("user", Some("a"), Some("opus"), Some(usage(1, 1)), Some(NOW), None, None),
        entry("assistant", Some("b"), Some("opus"), None, Some(NOW), None, None),
        Entry {
            kind: "assistant".to_string(),
            message: None,
            timestamp: Some(NOW),
            cwd: None,
            session_id: None,
        },
        entry("assistant", Some("c"), Some("opus"), Some(usage(2, 3)), Some(NOW), None, None),
    ];
    let s = run(clock_at(NOW), 2, &es);
    assert_eq!(s.total.messages, 1);
    assert_eq!(s.total.input, 2);
    assert_eq!(s.total.output, 3);
    assert_eq!(s.session_count, 2);
}

#[test]
fn replayed_message_ids_count_once() {
    let e = entry("assistant", Some("msg_1"), Some("sonnet-4"), Some(usage(100, 10)), Some(NOW), Some("/p/a"), Some("s1"));
    let no_id = entry("assistant", None, Some("sonnet-4"), Some(usage(1, 1)), Some(NOW), Some("/p/a"), Some("s1"));
    let s = run(clock_at(NOW), 1, &[e.clone_entry(), e.clone_entry(), no_id.clone_entry(), no_id]);
    assert_eq!(s.total.messages, 3);
    assert_eq!(s.total.input, 102);
}

trait CloneEntry {
    fn clone_entry(&self) -> Entry;
}

impl CloneEntry for Entry {
    fn clone_entry(&self) -> Entry {
        Entry {
            kind: self.kind.clone(),
            message: self.message.as_ref().map(|m| Message {
                id: m.id.clone(),
                model: m.model.clone(),
                usage: m.usage,
            }),
            timestamp: self.timestamp,
            cwd: self.cwd.clone(),
            session_id: self.session_id.clone(),
        }
    }
}

#[test]
fn windows_select_by_time() {
    let c = clock_at(NOW);
    let es = vec![
        // 30 minutes ago, sonnet
        entry("assistant", Some("1"), Some("sonnet-4"), Some(usage(1, 0)), Some(NOW - 1800 * S), None, None),
        // 3 hours ago, opus
        entry("assistant", Some("2"), Some("opus-4"), Some(usage(10, 0)), Some(NOW - 3 * 3600 * S), None, None),
        // 2 days ago (this month)
        entry("assistant", Some("3"), Some("opus-4"), Some(usage(100, 0)), Some(NOW - 2 * 86400 * S), None, None),
        // 20 days ago (last month)
        entry("assistant", Some("4"), Some("opus-4"), Some(usage(1000, 0)), Some(NOW - 20 * 86400 * S), None, None),
        // no timestamp
        entry("assistant", Some("5"), Some("opus-4"), Some(usage(10000, 0)), None, None, None),
    ];
    let s = run(c, 1, &es);
    assert_eq!(s.total.input, 11111);
    assert_eq!(s.last_hour.input, 1);
    assert_eq!(s.today.input, 11);
    assert_eq!(s.window_5h.input, 11);
    assert_eq!(s.window_5h_sonnet.input, 1);
    assert_eq!(s.window_week.input, 111);
    assert_eq!(s.month_to_date.input, 111);
    assert_eq!(s.window_5h_start, Some(NOW - 3 * 3600 * S));
    assert_eq!(s.window_5h_sonnet_start, Some(NOW - 1800 * S));
    assert_eq!(s.window_week_start, Some(NOW - 2 * 86400 * S));
    assert_eq!(s.last_activity, Some(NOW - 1800 * S));
}

#[test]
fn breakdowns_sorted_by_cost_and_add_up() {
    let es = vec![
        entry("assistant", Some("1"), Some("haiku"), Some(usage(1000, 0)), Some(NOW), Some("/w/alpha"), None),
        entry("assistant", Some("2"), Some("opus"), Some(usage(1000, 0)), Some(NOW), Some("/w/beta/"), None),
        entry("assistant", Some("3"), None, Some(usage(5, 5)), Some(NOW), None, None),
        entry("assistant", Some("4"), Some("haiku"), Some(usage(1000, 0)), Some(NOW), Some("/w/alpha"), None),
    ];
    let s = run(clock_at(NOW), 1, &es);
    let names: Vec<&str> = s.by_model.iter().map(|(n, _)| n.as_str()).collect();
    assert_eq!(names, vec!["opus", "haiku", "unknown"]);
    assert_eq!(s.by_model[1].1.messages, 2);
    let projects: Vec<&str> = s.by_project.iter().map(|(n, _)| n.as_str()).collect();
    assert_eq!(projects, vec!["beta", "alpha", "unknown"]);
    let sum: u128 = s.by_model.iter().map(|(_, a)| a.cost).sum();
    assert_eq!(sum, s.total.cost);
    let msgs: u64 = s.by_project.iter().map(|(_, a)| a.messages).sum();
    assert_eq!(msgs, s.total.messages);
}

#[test]
fn current_session_is_latest_active() {
    let es = vec![
        entry("assistant", Some("1"), Some("m"), Some(usage(1, 0)), Some(NOW - 100 * S), None, Some("older")),
        entry("assistant", Some("2"), Some("m"), Some(usage(2, 0)), Some(NOW - 50 * S), None, Some("newer")),
        entry("assistant", Some("3"), Some("m"), Some(usage(4, 0)), Some(NOW - 200 * S), None, Some("newer")),
        entry("assistant", Some("4"), Some("m"), Some(usage(8, 0)), None, None, Some("untimed")),
    ];
    let s = run(clock_at(NOW), 1, &es);
    assert_eq!(s.current_session_id.as_deref(), Some("newer"));
    assert_eq!(s.current_session.input, 6);
    assert_eq!(s.current_session_start, Some(NOW - 200 * S));
}

#[test]
fn room_check_refuses_overflow() {
    let mut c = Collector::new(clock_at(NOW));
    let big = entry("assistant", Some("1"), Some("m"), Some(usage(u64::MAX, 0)), None, None, None);
    assert!(c.has_room_for(&big));
    c.add_entry(&big);
    let more = entry("assistant", Some("2"), Some("m"), Some(usage(1, 0)), None, None, None);
    assert!(!c.has_room_for(&more));
    let replay = entry("assistant", Some("1"), Some("m"), Some(usage(1, 0)), None, None, None);
    assert!(c.has_room_for(&replay));
    assert!(!c.entry_counts(&replay));
}

#[test]
fn seconds_until_and_reset_times() {
    let s: i128 = 1_000_000_000;
    assert_eq!(secs_until(0, 90 * s, 0), 90);
    assert_eq!(secs_until(90 * s, 0, 0), -90);
    // toward zero on both sides
    assert_eq!(secs_until(0, 1_999_999_999, 0), 1);
    assert_eq!(secs_until(1_999_999_999, 0, 0), -1);
    assert_eq!(secs_until(0, 0, 2_500_000_000), 2);
    // held within i64
    assert_eq!(secs_until(i128::MIN, i128::MAX, 0), i64::MAX);
    assert_eq!(secs_until(i128::MAX, i128::MIN, 0), i64::MIN);
    assert_eq!(secs_until(0, i128::MAX, i64::MAX), i64::MAX);
    let now = 1_710_506_096 * s;
    assert_eq!(reset_in(None, FIVE_HOURS_NANOS, now), None);
    assert_eq!(reset_in(Some(now - 3600 * s), FIVE_HOURS_NANOS, now), Some(4 * 3600));
    assert_eq!(reset_in(Some(now - 8 * 86_400 * s), WEEK_NANOS, now), Some(-86_400));
}

#[test]
fn seen_ids_find_exactly_what_was_added() {
    assert_eq!(hash_of(""), 0);
    assert_eq!(hash_of("ab"), 97 * 31 + 98);
    // "Aa" and "BB" share a hash; only the one added is found
    assert_eq!(hash_of("Aa"), hash_of("BB"));
    let mut s = SeenIds::new();
    assert!(!s.contains(&"Aa".to_string()));
    s.insert("Aa".to_string());
    assert!(s.contains(&"Aa".to_string()));
    assert!(!s.contains(&"BB".to_string()));
    s.insert("BB".to_string());
    assert!(s.contains(&"BB".to_string()));
    assert!(!s.contains(&"msg_1".to_string()));
}
