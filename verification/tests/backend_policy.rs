//! Default-app policy, URLs, supervisor messages and the log ring.

use desktop_core::backend::{
    base_url_of, choose_default_app, is_truthy_flag, log_line_format, port_in_use_message,
    run_fallback_url, run_sse_url, spawn_failure_fatal, startup_exhausted_message, startup_step,
    startup_timeout_message, AttemptOutcome, BackendCore, LogRing, StartAction,
};
use desktop_core::types::BackendStartConfig;

#[test]
fn picks_product_validator_search_if_present() {
    let apps = vec!["reports".to_string(), "product_validator_search".to_string()];
    assert_eq!(
        choose_default_app(&apps).as_deref(),
        Some("product_validator_search")
    );
}

#[test]
fn falls_back_to_non_auxiliary_app() {
    let apps = vec![
        "reports".to_string(),
        "tests".to_string(),
        "demo_agent".to_string(),
    ];
    assert_eq!(choose_default_app(&apps).as_deref(), Some("demo_agent"));
}

#[test]
fn falls_back_to_first_when_only_aux_apps_exist() {
    let apps = vec!["reports".to_string(), "tests".to_string()];
    assert_eq!(choose_default_app(&apps).as_deref(), Some("reports"));
}

#[test]
fn no_apps_means_no_default() {
    let apps: Vec<String> = Vec::new();
    assert_eq!(choose_default_app(&apps), None);
}

#[test]
fn run_urls_extend_the_base() {
    assert_eq!(run_fallback_url("http://127.0.0.1:9000"), "http://127.0.0.1:9000/run");
    assert_eq!(run_sse_url("http://127.0.0.1:9000"), "http://127.0.0.1:9000/run_sse");
    assert_eq!(base_url_of("127.0.0.1", 8765), "http://127.0.0.1:8765");
}

#[test]
fn truthy_flag_accepts_known_values_case_folded() {
    for v in ["1", "true", "TRUE", "yes", "On"] {
        assert!(is_truthy_flag(v), "{v} should be truthy");
    }
    for v in ["", "0", "false", "off", "yess"] {
        assert!(!is_truthy_flag(v), "{v} should not be truthy");
    }
}

#[test]
fn spawn_failure_detects_missing_launcher() {
    assert!(spawn_failure_fatal("No such file or directory (os error 2)"));
    assert!(!spawn_failure_fatal("permission denied"));
}

#[test]
fn port_collision_records_error_and_next_port_wins() {
    // The supervisor's decision trail for a pre-bound port: the attempt on
    // 9000 records an error, the attempt on 9001 succeeds and the status
    // reflects the bound port.
    let mut core = BackendCore::new(".".to_string());
    let force = core.apply_config(Some(BackendStartConfig {
        host: Some("127.0.0.1".to_string()),
        port: Some(9000),
        repo_root: None,
        force_restart: None,
    }));
    assert!(!force);
    let recorded = core.record_startup_failure(port_in_use_message(9000, "127.0.0.1"));
    assert_eq!(
        recorded,
        "Port 9000 is already in use on host 127.0.0.1. Trying next port."
    );
    core.port = 9001;
    let status = core.status_snapshot(true, true);
    assert_eq!(status.port, 9001);
    assert_eq!(status.base_url, "http://127.0.0.1:9001");
    assert!(status.last_error.is_some());
}

#[test]
fn startup_timeout_message_names_the_address() {
    assert_eq!(
        startup_timeout_message("127.0.0.1", 9000),
        "Backend did not become healthy at http://127.0.0.1:9000 within startup timeout."
    );
}

#[test]
fn log_ring_keeps_the_last_two_hundred_lines() {
    let mut ring = LogRing::new();
    for i in 0..205 {
        ring.push_line(log_line_format("stdout", &format!("line-{i}")));
    }
    let tail = ring.tail(40);
    let lines: Vec<&str> = tail.split('\n').collect();
    assert_eq!(lines.len(), 40);
    assert_eq!(lines[0], "[stdout] line-165");
    assert_eq!(lines[39], "[stdout] line-204");
    let full = ring.tail(1000);
    assert_eq!(full.split('\n').count(), 200);
    assert!(full.starts_with("[stdout] line-5"));
}

#[test]
fn error_tail_composition() {
    let mut ring = LogRing::new();
    assert_eq!(
        ring.compose_error_with_tail("boom".to_string()),
        "boom",
        "no logs means the bare message"
    );
    ring.push_line("[stderr] one".to_string());
    ring.push_line("[stderr] two".to_string());
    assert_eq!(
        ring.compose_error_with_tail("boom".to_string()),
        "boom\nRecent backend logs:\n[stderr] one\n[stderr] two"
    );
}

#[test]
fn startup_steps_decide_retry_fatal_and_start() {
    let mut core = BackendCore::new(".".to_string());
    core.port = 9000;

    let action = startup_step(&mut core, 9000, AttemptOutcome::PortUnavailable);
    assert_eq!(
        action,
        StartAction::Retry(
            "Port 9000 is already in use on host 127.0.0.1. Trying next port.".to_string()
        )
    );

    let action = startup_step(
        &mut core,
        9001,
        AttemptOutcome::SpawnFailed("No such file or directory (os error 2)".to_string()),
    );
    assert!(matches!(action, StartAction::Fatal(m) if m.starts_with("`uv` not found.")));

    core.logs.push_line("[stderr] crash".to_string());
    let action = startup_step(
        &mut core,
        9001,
        AttemptOutcome::ExitedDuringStartup("exit status: 1".to_string()),
    );
    let expected = "Backend exited during startup (status: exit status: 1).\nRecent backend logs:\n[stderr] crash";
    assert_eq!(action, StartAction::Retry(expected.to_string()));

    let action = startup_step(&mut core, 9002, AttemptOutcome::Healthy);
    assert_eq!(action, StartAction::Started);
    assert_eq!(core.port, 9002);
    assert_eq!(core.status_snapshot(true, true).base_url, "http://127.0.0.1:9002");

    assert_eq!(
        startup_exhausted_message(Some("kept error".to_string())),
        "kept error"
    );
    assert_eq!(
        startup_exhausted_message(None),
        "Failed to start ADK web backend after retries. Check logs and API keys."
    );
}
