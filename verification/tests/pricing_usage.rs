use claude_usage_monitor::pricing::{cost, lookup, Pricing};
use claude_usage_monitor::usage::{is_sonnet, short_project_name, Aggregate, Usage};

fn rates(p: Pricing) -> (u32, u32, u32, u32) {
    (p.input, p.output, p.cache_write, p.cache_read)
}

#[test]
fn lookup_picks_family_case_insensitively() {
    assert_eq!(rates(lookup("opus-4-1-20250805")), (15000, 75000, 18750, 1500));
    assert_eq!(rates(lookup("Model-HAIKU-3-5")), (1000, 5000, 1250, 100));
    assert_eq!(rates(lookup("sonnet-4-5")), (3000, 15000, 3750, 300));
    assert_eq!(rates(lookup("gpt-4")), (0, 0, 0, 0));
    assert_eq!(rates(lookup("")), (0, 0, 0, 0));
}

#[test]
fn lookup_prefers_opus_then_haiku_then_sonnet() {
    assert_eq!(rates(lookup("sonnet-opus")), (15000, 75000, 18750, 1500));
    assert_eq!(rates(lookup("sonnet-haiku")), (1000, 5000, 1250, 100));
}

#[test]
fn cost_is_exact_in_nano_dollars() {
    // one million Opus input tokens cost $15
    assert_eq!(cost(lookup("opus"), 1_000_000, 0, 0, 0), 15_000_000_000);
    // 1000 in, 2000 out, 3000 cache write, 4000 cache read on Sonnet:
    // 3000*1000 + 15000*2000 + 3750*3000 + 300*4000
    assert_eq!(cost(lookup("sonnet"), 1000, 2000, 3000, 4000), 45_450_000);
    assert_eq!(cost(lookup("unknown-model"), 5, 5, 5, 5), 0);
    // the largest token counts do not overflow
    assert_eq!(
        cost(lookup("opus"), u64::MAX, 0, 0, 0),
        (u64::MAX as u128) * 15000
    );
}

#[test]
fn aggregate_add_counts_tokens_cost_and_messages() {
    let mut a = Aggregate::new();
    let u = Usage {
        input_tokens: 10,
        output_tokens: 20,
        cache_creation_input_tokens: 30,
        cache_read_input_tokens: 40,
    };
    a.add("haiku", u);
    a.add("haiku", u);
    assert_eq!(a.input, 20);
    assert_eq!(a.output, 40);
    assert_eq!(a.cache_write, 60);
    assert_eq!(a.cache_read, 80);
    assert_eq!(a.messages, 2);
    assert_eq!(a.cost, 2 * (1000 * 10 + 5000 * 20 + 1250 * 30 + 100 * 40));
    assert_eq!(a.total_tokens(), 200);
    let d = Aggregate::default();
    assert_eq!(d.messages, 0);
    assert_eq!(d.total_tokens(), 0);
}

#[test]
fn sonnet_detection() {
    assert!(is_sonnet("sonnet-4"));
    assert!(is_sonnet("BIG-SONNET"));
    assert!(!is_sonnet("opus-4"));
    assert!(!is_sonnet("sonne"));
}

#[test]
fn project_name_is_last_path_component() {
    assert_eq!(short_project_name("/home/me/work/project"), "project");
    assert_eq!(short_project_name("/home/me/work/project/"), "project");
    assert_eq!(short_project_name("/home/me/work/project/."), "project");
    assert_eq!(short_project_name("relative/dir"), "dir");
    assert_eq!(short_project_name("plain"), "plain");
    assert_eq!(short_project_name(".hidden"), ".hidden");
}

#[test]
fn project_name_falls_back_to_whole_path() {
    assert_eq!(short_project_name("/"), "/");
    assert_eq!(short_project_name(""), "");
    assert_eq!(short_project_name("/home/.."), "/home/..");
    assert_eq!(short_project_name("."), ".");
}
