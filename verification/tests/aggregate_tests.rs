use twitch_discord_summarizer::aggregate::trigger::Trigger;
use twitch_discord_summarizer::aggregate::window::{estimate_tokens, Window};
use twitch_discord_summarizer::aggregate::{is_summary_command, AggregateCfg, Aggregator};
use twitch_discord_summarizer::clock::{Duration, Instant};

#[test]
fn fires_on_volume_threshold() {
    let t = Trigger::new(Duration::from_secs(3600), 100);
    assert!(!t.should_fire(50, Instant::now()));
    assert!(t.should_fire(100, Instant::now()));
}

#[test]
fn fires_on_manual_request_even_when_empty() {
    let mut t = Trigger::new(Duration::from_secs(3600), 100);
    assert!(!t.should_fire(0, Instant::now()));
    t.request_manual();
    assert!(t.should_fire(0, Instant::now()));
}

#[test]
fn fires_on_interval_only_with_content() {
    let t = Trigger::new(Duration::from_secs(0), 0);
    // Interval elapsed (0s) but no content -> no fire.
    assert!(!t.should_fire(0, Instant::now()));
    // Interval elapsed with content -> fire.
    assert!(t.should_fire(1, Instant::now()));
}

#[test]
fn record_clears_manual() {
    let mut t = Trigger::new(Duration::from_secs(3600), 0);
    t.request_manual();
    t.record_fire(Instant::now());
    assert!(!t.should_fire(0, Instant::now()));
}

#[test]
fn trigger_interval_fires_only_after_it_elapses() {
    let t0 = Instant::from_nanos(1_000_000_000_000);
    let t = Trigger::new_at(Duration::from_secs(60), 1000, t0);
    assert!(!t.should_fire(5, t0.plus(Duration::from_secs(59))));
    assert!(t.should_fire(5, t0.plus(Duration::from_secs(60))));
    // No content: the interval alone never fires.
    assert!(!t.should_fire(0, t0.plus(Duration::from_secs(600))));
}

#[test]
fn evicts_oldest_when_over_token_budget() {
    // Budget ~ 5 tokens. Each 8-char message ~ 2 tokens.
    let mut w = Window::new(Duration::from_secs(3600), 5);
    w.push_transcript("aaaabbbb"); // ~2
    w.push_transcript("ccccdddd"); // ~2
    w.push_transcript("eeeeffff"); // ~2 -> total 6 > 5, evicts the first
    let delta = w.render_delta();
    assert!(!delta.contains("aaaabbbb"), "oldest should be evicted");
    assert!(delta.contains("eeeeffff"));
}

#[test]
fn delta_then_mark_summarized() {
    let mut w = Window::new(Duration::from_secs(3600), 10_000);
    w.push_chat("alice", "ola");
    w.push_transcript("falando agora");
    assert!(w.has_unsummarized());
    let d = w.render_delta();
    assert!(d.contains("[chat] alice: ola"));
    assert!(d.contains("[fala] falando agora"));
    w.mark_summarized();
    assert!(!w.has_unsummarized());
    assert_eq!(w.unsummarized_tokens(), 0);
    assert_eq!(w.render_delta(), "");
}

#[test]
fn token_estimate_is_a_quarter_at_least_one() {
    assert_eq!(estimate_tokens(""), 1);
    assert_eq!(estimate_tokens("abcd"), 1);
    assert_eq!(estimate_tokens("abcdefg"), 1);
    assert_eq!(estimate_tokens("aaaabbbb"), 2);
}

#[test]
fn delta_renders_lines_in_order() {
    let mut w = Window::new(Duration::from_secs(3600), 10_000);
    w.push_chat("bob", "primeiro");
    w.push_transcript("segundo");
    assert_eq!(w.render_delta(), "[chat] bob: primeiro\n[fala] segundo\n");
    assert_eq!(w.unsummarized_tokens(), 2 + 1);
}

#[test]
fn window_evicts_entries_older_than_max_age() {
    let mut w = Window::new(Duration::from_secs(60), 10_000);
    let t0 = Instant::from_nanos(5_000_000_000_000);
    w.push_at(
        twitch_discord_summarizer::aggregate::window::Source::Chat,
        "ana",
        "velho",
        t0,
        t0,
    );
    let later = t0.plus(Duration::from_secs(61));
    w.push_at(
        twitch_discord_summarizer::aggregate::window::Source::Chat,
        "ana",
        "novo",
        later,
        later,
    );
    let d = w.render_delta();
    assert!(!d.contains("velho"));
    assert!(d.contains("novo"));
}

#[test]
fn summary_commands_are_recognised() {
    assert!(is_summary_command("!summary"));
    assert!(is_summary_command("  !Resumo  "));
    assert!(is_summary_command("!resumo por favor"));
    assert!(!is_summary_command("!resumos"));
    assert!(!is_summary_command("quero um !resumo"));
}

fn cfg() -> AggregateCfg {
    AggregateCfg {
        channel: "gaules".to_string(),
        summary_interval: Duration::from_secs(3600),
        window_max_secs: Duration::from_secs(3600),
        window_max_tokens: 100,
    }
}

#[test]
fn aggregator_summary_cycle() {
    let mut a = Aggregator::new(&cfg());
    assert!(!a.summary_on_shutdown());
    assert_eq!(a.begin_summary(true), None);
    a.on_chat("alice", "ola");
    assert!(a.summary_on_shutdown());
    assert!(a.summary_on_status(false));
    assert!(!a.summary_on_status(true));
    // Spending blocked: nothing to summarize.
    assert_eq!(a.begin_summary(false), None);
    assert_eq!(a.begin_summary(true).as_deref(), Some("[chat] alice: ola\n"));
    a.finish_summary("resumo um".to_string());
    assert_eq!(a.prior_summary(), "resumo um");
    assert!(!a.summary_on_shutdown());
    assert_eq!(a.begin_summary(true), None);
}

#[test]
fn aggregator_manual_command_fires_on_tick() {
    let mut a = Aggregator::new(&cfg());
    let now = Instant::now();
    a.on_chat("alice", "oi");
    assert!(!a.summary_on_tick(now));
    a.on_chat("bob", "!resumo");
    assert!(a.summary_on_tick(Instant::now()));
    a.record_fire(Instant::now());
    assert!(!a.summary_on_tick(Instant::now()));
}

#[test]
fn aggregator_volume_threshold_is_sixty_percent() {
    // Budget 100 tokens: the threshold is 60.
    let mut a = Aggregator::new(&cfg());
    let long = "x".repeat(236); // 59 tokens
    a.on_transcript(&long);
    assert!(!a.summary_on_tick(Instant::now()));
    a.on_transcript("abcd"); // 1 more token: 60
    assert!(a.summary_on_tick(Instant::now()));
}
