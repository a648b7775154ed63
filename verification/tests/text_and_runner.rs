use fincrime_core::runner::{
    chrono_tick, command_kind, effective_database, has_flag, ipc_action, parse_arg, parse_signed_arg,
    resolution_or_default, run_label, runner_config, stamp_from_clock, summary_quarters, text_arg, IpcAction,
    IpcInput, PlayerCommandKind,
};
use fincrime_core::text::{decimal_string, hyphenated_id, parse_i64, parse_u64, str_eq};

fn args(v: &[&str]) -> Vec<String> {
    v.iter().map(|s| s.to_string()).collect()
}

const SAMPLES: &[&str] = &[
    "", "0", "7", "42", "+42", "-42", "+", "-", "007", "18446744073709551615",
    "18446744073709551616", "9223372036854775807", "9223372036854775808",
    "-9223372036854775808", "-9223372036854775809", " 1", "1 ", "1a", "a1", "++1", "+-1",
    "٣", "99999999999999999999999",
];

#[test]
fn parse_u64_agrees_with_std() {
    for s in SAMPLES {
        assert_eq!(parse_u64(s), s.parse::<u64>().ok(), "input {s:?}");
    }
}

#[test]
fn parse_i64_agrees_with_std() {
    for s in SAMPLES {
        assert_eq!(parse_i64(s), s.parse::<i64>().ok(), "input {s:?}");
    }
}

#[test]
fn decimal_string_agrees_with_to_string() {
    for n in [0u64, 1, 9, 10, 99, 100, 12345, u64::MAX, u64::MAX - 1, 1 << 40] {
        assert_eq!(decimal_string(n), n.to_string());
        assert_eq!(parse_u64(&decimal_string(n)), Some(n));
    }
}

#[test]
fn str_eq_compares_text() {
    assert!(str_eq("credit", "credit"));
    assert!(!str_eq("credit", "credits"));
    assert!(!str_eq("", "a"));
    assert!(str_eq("", ""));
    assert!(str_eq("café", "café"));
}

#[test]
fn hyphenated_ids() {
    assert_eq!(hyphenated_id("X", "y", 3), "X-y-3");
}

#[test]
fn parse_arg_reads_flag_value() {
    let a = args(&["sim-runner", "--seed", "12345", "--ticks", "730"]);
    assert_eq!(parse_arg(&a, "--seed", 42), 12345);
    assert_eq!(parse_arg(&a, "--ticks", 365), 730);
    assert_eq!(parse_arg(&a, "--missing", 9), 9);
}

#[test]
fn parse_arg_falls_back_on_bad_or_missing_value() {
    let a = args(&["sim-runner", "--seed", "abc", "--seed", "5"]);
    // The first occurrence decides; its value does not parse.
    assert_eq!(parse_arg(&a, "--seed", 42), 42);
    let a = args(&["sim-runner", "--seed"]);
    assert_eq!(parse_arg(&a, "--seed", 42), 42);
}

#[test]
fn signed_flag_reads_negative_value() {
    let a = args(&["sim-runner", "--ticks", "-5"]);
    assert_eq!(parse_arg(&a, "--ticks", 365), 365);
    assert_eq!(parse_signed_arg(&a, "--ticks", 0), -5);
    assert_eq!(parse_signed_arg(&a, "--missing", 7), 7);
    let a = args(&["sim-runner", "--ticks", "-9223372036854775809"]);
    assert_eq!(parse_signed_arg(&a, "--ticks", 3), 3);
    let a = args(&["sim-runner", "--ticks", "-9223372036854775808"]);
    assert_eq!(parse_signed_arg(&a, "--ticks", 3), i64::MIN);
}

#[test]
fn text_arg_and_has_flag() {
    let a = args(&["sim-runner", "--db", "run.db", "--ipc-mode"]);
    assert_eq!(text_arg(&a, "--db", ":memory:"), "run.db");
    assert_eq!(text_arg(&a, "--data-dir", "./data"), "./data");
    assert!(has_flag(&a, "--ipc-mode"));
    assert!(!has_flag(&a, "--ticks"));
    // A trailing flag has no value.
    assert_eq!(text_arg(&a, "--ipc-mode", "none"), "none");
}

#[test]
fn clock_stamp() {
    assert_eq!(stamp_from_clock(Some(1700000000)), 1700000000);
    assert_eq!(stamp_from_clock(None), 0);
    assert!(chrono_tick() > 1_600_000_000);
}

#[test]
fn database_and_run_names() {
    assert_eq!(
        effective_database(":memory:", 99),
        "file:simrun_99?mode=memory&cache=shared"
    );
    assert_eq!(effective_database("run.db", 99), "run.db");
    assert_eq!(run_label(42, 1700000000), "run-42-1700000000");
}

#[test]
fn ipc_actions() {
    assert_eq!(ipc_action(&IpcInput::EndOfInput), IpcAction::Stop);
    assert_eq!(ipc_action(&IpcInput::Quit), IpcAction::Stop);
    assert_eq!(ipc_action(&IpcInput::Unreadable), IpcAction::ReportError);
    assert_eq!(ipc_action(&IpcInput::GetState), IpcAction::Report);
    assert_eq!(
        ipc_action(&IpcInput::Tick { count: 3 }),
        IpcAction::AdvanceThenReport { count: 3 }
    );
    assert_eq!(
        ipc_action(&IpcInput::Command { cmd: "resolve_complaint".to_string() }),
        IpcAction::ApplyThenReport { command: PlayerCommandKind::ResolveComplaint }
    );
    assert_eq!(
        ipc_action(&IpcInput::Command { cmd: "launch_rocket".to_string() }),
        IpcAction::ApplyThenReport { command: PlayerCommandKind::Unknown }
    );
    assert_eq!(command_kind("resolve_complaint"), PlayerCommandKind::ResolveComplaint);
}

#[test]
fn resolution_default() {
    assert_eq!(resolution_or_default(None), "explanation_only");
    assert_eq!(resolution_or_default(Some("refund".to_string())), "refund");
}

#[test]
fn summary_lists_last_four_quarters() {
    assert_eq!(summary_quarters(0), (0, 0));
    assert_eq!(summary_quarters(3), (0, 3));
    assert_eq!(summary_quarters(4), (0, 4));
    assert_eq!(summary_quarters(9), (5, 9));
}

#[test]
fn runner_config_defaults_and_flags() {
    let c = runner_config(&args(&["sim-runner"]));
    assert_eq!((c.seed, c.ticks, c.ipc_mode), (42, 365, false));
    assert_eq!((c.db.as_str(), c.data_dir.as_str()), (":memory:", "./data"));
    let c = runner_config(&args(&[
        "sim-runner", "--ticks", "0", "--ipc-mode", "--seed", "7", "--db", "x.db", "--data-dir", "d",
    ]));
    assert_eq!((c.seed, c.ticks, c.ipc_mode), (7, 0, true));
    assert_eq!((c.db.as_str(), c.data_dir.as_str()), ("x.db", "d"));
}
