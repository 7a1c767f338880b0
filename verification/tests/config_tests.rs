use cc_demon::config::{format_size, log_file_path, GatewayConfig, PathsConfig};
use cc_demon::output::{parse_destination, split_message, Destination};
use cc_demon::schedule::{format_duration, parse_datetime, should_run_once, should_run_recurring};
use cc_demon::session::SessionConfig;
use cc_demon::gateway::is_chat_allowed;

#[test]
fn test_paths_under_base_dir() {
    let p = PathsConfig { base_dir: Some("/srv/demon".to_string()) };
    assert_eq!(p.base_dir(), "/srv/demon");
    assert_eq!(p.config_file(), "/srv/demon/config.toml");
    assert_eq!(p.jobs_file(), "/srv/demon/jobs.toml");
    assert_eq!(p.output_dir(), "/srv/demon/output");
    assert_eq!(p.logs_dir(), "/srv/demon/logs");
    assert_eq!(p.pid_file(), "/srv/demon/demon.pid");
    assert_eq!(p.agents_file(), "/srv/demon/agents.toml");
    assert_eq!(p.tasks_file(), "/srv/demon/tasks.toml");
    assert_eq!(p.task_outputs_dir(), "/srv/demon/task-outputs");
}

#[test]
fn test_log_file_path_name() {
    assert!(log_file_path().ends_with("logs/demon.jsonl"));
}

#[test]
fn test_format_size_units() {
    assert_eq!(format_size(0), "0 bytes");
    assert_eq!(format_size(512), "512 bytes");
    assert_eq!(format_size(1024), "1.00 KB");
    assert_eq!(format_size(2048), "2.00 KB");
    assert_eq!(format_size(1536), "1.50 KB");
    assert_eq!(format_size(1535), "1.50 KB");
    assert_eq!(format_size(3 * 1024 * 1024 / 2), "1.50 MB");
    assert_eq!(format_size(5 * 1024 * 1024 * 1024), "5.00 GB");
}

#[test]
fn test_format_size_rounds_ties_to_even() {
    // 1152/1024 is exactly 1.125 and 1408/1024 exactly 1.375: the tie goes
    // to the even hundredth, as two-decimal formatting of these exact
    // quotients does.
    assert_eq!(format_size(1152), "1.12 KB");
    assert_eq!(format_size(1408), "1.38 KB");
}

#[test]
fn test_format_duration_units() {
    assert_eq!(format_duration(45), "45s");
    assert_eq!(format_duration(125), "2m 5s");
    assert_eq!(format_duration(7260), "2h 1m");
    assert_eq!(format_duration(-45), "45s");
}

#[test]
fn test_parse_destination_forms() {
    assert!(matches!(parse_destination("file"), Destination::File));
    assert!(matches!(parse_destination("telegram:123"), Destination::Telegram(123)));
    assert!(matches!(
        parse_destination("telegram:-1001234567890"),
        Destination::Telegram(-1001234567890)
    ));
    assert!(matches!(parse_destination("telegram:abc"), Destination::Unknown));
    assert!(matches!(parse_destination("telegram:"), Destination::Unknown));
    assert!(matches!(parse_destination("webhook:x"), Destination::Unknown));
}

#[test]
fn test_parse_destination_full_i64_range() {
    assert!(matches!(
        parse_destination("telegram:9223372036854775807"),
        Destination::Telegram(9223372036854775807)
    ));
    assert!(matches!(
        parse_destination("telegram:-9223372036854775808"),
        Destination::Telegram(-9223372036854775808)
    ));
    assert!(matches!(
        parse_destination("telegram:9223372036854775808"),
        Destination::Unknown
    ));
    assert!(matches!(
        parse_destination("telegram:-9223372036854775809"),
        Destination::Unknown
    ));
    assert!(matches!(parse_destination("telegram:0000123"), Destination::Telegram(123)));
    assert!(matches!(parse_destination("telegram:+77"), Destination::Telegram(77)));
    assert!(matches!(parse_destination("telegram:+"), Destination::Unknown));
    assert!(matches!(
        parse_destination("telegram:00000000000000000000009"),
        Destination::Telegram(9)
    ));
}

#[test]
fn test_split_message_respects_limit() {
    let chunks = split_message("aaaa bbbb\ncccc dddd\neeee", 10);
    for c in &chunks {
        assert!(c.chars().count() <= 10);
    }
    let joined: String = chunks.concat();
    assert_eq!(joined, "aaaa bbbb\ncccc dddd\neeee");
}

#[test]
fn test_session_config_defaults() {
    let c = SessionConfig::default();
    assert_eq!(c.session_name, "cc-demon-session");
    assert_eq!(c.poll_interval_ms, 200);
    assert_eq!(c.response_timeout_secs, 300);
    assert_eq!(c.startup_timeout_secs, 60);
    assert_eq!(c.compact_interval_secs, 3600);
    assert_eq!(c.max_restart_attempts, 3);
    assert_eq!(c.model, "sonnet");
    assert_eq!(c.max_turns, 100);
    assert_eq!(c.max_budget_cents, 1000);
}

#[test]
fn test_gateway_config_defaults() {
    let g = GatewayConfig::default();
    assert!(!g.enabled);
    assert_eq!(g.default_model, "sonnet");
    assert_eq!(g.max_turns, 10);
    assert_eq!(g.max_budget_cents, 500);
    assert_eq!(g.tmux_session_name, "cc-demon-gateway");
    assert_eq!(g.session_timeout_secs, 3600);
    assert!(!g.use_persistent_session);
}

#[test]
fn test_session_args_shape() {
    let c = SessionConfig::default();
    let args = cc_demon::session::build_session_args(&c);
    assert_eq!(
        &args[..7],
        &[
            "-p",
            "--input-format",
            "stream-json",
            "--output-format",
            "stream-json",
            "--verbose",
            "--model"
        ]
    );
    assert_eq!(args[7], "sonnet");
    assert_eq!(args[8], "--max-turns");
    assert_eq!(args[9], "100");
    assert_eq!(args[10], "--max-budget-usd");
    assert_eq!(args[11], "10.00");
}

#[test]
fn test_session_config_for_gateway_scaling() {
    let mut g = GatewayConfig::default();
    g.max_turns = 10;
    g.max_budget_cents = 500;
    g.tmux_session_name = "gw".to_string();
    let c = cc_demon::gateway::session_config_for_gateway(&g);
    assert_eq!(c.session_name, "gw");
    assert_eq!(c.response_timeout_secs, 10 * 30 + 60);
    assert_eq!(c.max_turns, 100);
    assert_eq!(c.max_budget_cents, 5000);
}

#[test]
fn test_chat_allow_list() {
    let allowed = vec![5i64, -7i64];
    assert!(is_chat_allowed(&allowed, 5));
    assert!(is_chat_allowed(&allowed, -7));
    assert!(!is_chat_allowed(&allowed, 8));
}

#[test]
fn test_firing_windows() {
    assert!(should_run_once(100, 100));
    assert!(should_run_once(130, 100));
    assert!(should_run_once(70, 100));
    assert!(!should_run_once(131, 100));
    assert!(!should_run_once(69, 100));

    // An every-second schedule always has an occurrence within the window.
    assert!(should_run_recurring("* * * * * *", 1_700_000_000));
    // An unparseable expression never fires.
    assert!(!should_run_recurring("not a cron line", 1_700_000_000));
    // The largest admitted instant lies beyond every schedulable year and
    // simply has no occurrence.
    assert!(!should_run_recurring(
        "* * * * * *",
        cc_demon::schedule::MAX_SCHEDULE_INSTANT_SECS - 1
    ));
}

#[test]
fn test_parse_datetime_forms() {
    // 2026-02-04T15:44:00+07:00 is 2026-02-04T08:44:00Z.
    let t = parse_datetime("2026-02-04T15:44:00+07:00").unwrap();
    let u = parse_datetime("2026-02-04T08:44:00Z").unwrap();
    assert_eq!(t, u);
    assert_eq!(t, 1770194640);
    assert!(parse_datetime("not a datetime").is_none());
}
