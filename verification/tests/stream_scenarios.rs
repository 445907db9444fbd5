//! End-to-end runs through the streaming machine: the happy SSE path,
//! tool round trips, the non-streaming fallback, cancellation, progress
//! and event ordering.

use desktop_core::stream::{
    fallback_failed_message, progress_snapshot, run_sse_status_message, sse_fallback_allowed,
    sse_stream_failed_message, FrontendEvent, StreamOutcome, StreamSession, StreamState,
    ToolPhase,
};

fn is_progress(e: &FrontendEvent) -> bool {
    matches!(e, FrontendEvent::Progress { .. })
}

fn percent_of(e: &FrontendEvent) -> Option<u8> {
    match e {
        FrontendEvent::Progress { percent, .. } => Some(*percent),
        _ => None,
    }
}

#[test]
fn happy_sse_path() {
    let mut run = StreamSession::new();
    let mut events = run.open();
    events.extend(run.sse_connected());
    events.extend(run.feed_chunk("data: {\"content\":{\"role\":\"model\",\"parts\":[{\"text\":\"Hel\"}]}}\n\n"));
    events.extend(run.feed_chunk("data: {\"content\":{\"role\":\"model\",\"parts\":[{\"text\":\"Hello\"}]}}\n\n"));
    events.extend(run.feed_chunk("data: [DONE]\n\n"));
    assert!(run.is_done_seen());
    events.extend(run.flush_end());
    let (closing, outcome) = run.finish_stream(false);
    events.extend(closing);

    assert_eq!(outcome, StreamOutcome::Completed);
    assert!(matches!(events[0], FrontendEvent::Open));

    let raw_count = events
        .iter()
        .filter(|e| matches!(e, FrontendEvent::Raw { .. }))
        .count();
    assert_eq!(raw_count, 2);

    let texts: Vec<&str> = events
        .iter()
        .filter_map(|e| match e {
            FrontendEvent::Message { text, .. } => Some(text.as_str()),
            _ => None,
        })
        .collect();
    assert_eq!(texts, vec!["Hel", "Hello"], "a message only when the text changed");

    let dones: Vec<usize> = events
        .iter()
        .enumerate()
        .filter_map(|(i, e)| match e {
            FrontendEvent::Done { usage } => {
                assert!(usage.is_none());
                Some(i)
            }
            _ => None,
        })
        .collect();
    assert_eq!(dones.len(), 1, "exactly one closing event");
    // after the closing event nothing but the final progress report
    for e in &events[dones[0] + 1..] {
        assert!(is_progress(e));
    }
    assert_eq!(percent_of(events.last().unwrap()), Some(100));
}

#[test]
fn tool_round_trip() {
    let mut frame = String::from("data: {\"content\":{\"parts\":[");
    frame.push_str("{\"functionCall\":{\"name\":\"brave_search\",\"args\":{\"query\":\"x\"}}},");
    frame.push_str("{\"functionResponse\":{\"name\":\"brave_search\",\"response\":[{\"a\":1},{\"a\":2}]}}");
    frame.push_str("]}}\n\n");
    let frame = frame.as_str();
    let mut run = StreamSession::new();
    let mut events = run.open();
    events.extend(run.sse_connected());
    events.extend(run.feed_chunk(frame));

    let tools: Vec<&FrontendEvent> = events
        .iter()
        .filter(|e| matches!(e, FrontendEvent::Tool { .. }))
        .collect();
    assert_eq!(tools.len(), 2);
    match tools[0] {
        FrontendEvent::Tool { phase, name, query, detail } => {
            assert_eq!(*phase, ToolPhase::Start);
            assert_eq!(name, "brave_search");
            assert_eq!(query.as_deref(), Some("x"));
            assert_eq!(detail.as_deref(), Some("query: x"));
        }
        _ => unreachable!(),
    }
    match tools[1] {
        FrontendEvent::Tool { phase, name, detail, .. } => {
            assert_eq!(*phase, ToolPhase::Done);
            assert_eq!(name, "brave_search");
            assert_eq!(detail.as_deref(), Some("2 items returned"));
        }
        _ => unreachable!(),
    }
    let last_percent = events
        .iter()
        .rev()
        .find_map(percent_of)
        .expect("a progress report");
    assert!((25..=88).contains(&last_percent));
}

#[test]
fn sse_unsupported_falls_back_to_run() {
    // /run_sse answered 405; /run answered with a JSON event list.
    assert!(sse_fallback_allowed(405));
    assert!(!sse_fallback_allowed(500));

    let mut run = StreamSession::new();
    let mut events = run.open();
    let body = "{\"events\":[{\"content\":{\"role\":\"model\",\"parts\":[{\"text\":\"ok\"}]}}]}";
    events.extend(run.fallback_events(body).expect("fallback parses"));
    let (closing, outcome) = run.finish_stream(false);
    events.extend(closing);

    assert_eq!(outcome, StreamOutcome::Completed);
    assert!(matches!(events[0], FrontendEvent::Open));
    assert_eq!(
        events
            .iter()
            .filter(|e| matches!(e, FrontendEvent::Raw { .. }))
            .count(),
        1
    );
    let texts: Vec<&str> = events
        .iter()
        .filter_map(|e| match e {
            FrontendEvent::Message { text, .. } => Some(text.as_str()),
            _ => None,
        })
        .collect();
    assert_eq!(texts, vec!["ok"]);
    assert!(events.iter().any(|e| matches!(e, FrontendEvent::Done { .. })));
}

#[test]
fn fallback_rejects_shapeless_payloads() {
    let mut run = StreamSession::new();
    let _ = run.open();
    let err = run.fallback_events("not json at all").unwrap_err();
    assert!(err.starts_with("Failed to parse fallback /run response."), "{err}");
    let err = run.fallback_events("{\"unexpected\":true}").unwrap_err();
    assert_eq!(err, "Unexpected /run response shape: object(keys=[unexpected])");
}

#[test]
fn cancellation_reports_error_then_done() {
    let mut run = StreamSession::new();
    let mut events = run.open();
    events.extend(run.sse_connected());
    // a partial frame arrives: no terminating blank line, so no message yet
    let mid = run.feed_chunk("data: {\"content\":{\"role\":\"model\",\"parts\":[{\"text\":\"partial\"}]}}\n");
    assert!(mid.is_empty(), "an unterminated frame emits nothing");
    let (closing, outcome) = run.finish_stream(true);
    events.extend(closing);

    assert_eq!(outcome, StreamOutcome::Failed);
    let n = events.len();
    assert!(matches!(
        &events[n - 3],
        FrontendEvent::Error { message, retryable: false } if message == "Run cancelled."
    ));
    assert!(matches!(&events[n - 2], FrontendEvent::Done { .. }));
    assert!(is_progress(&events[n - 1]));
}

#[test]
fn upstream_error_fails_the_run() {
    let mut run = StreamSession::new();
    let _ = run.open();
    let _ = run.sse_connected();
    let events = run.feed_chunk("data: {\"error\":{\"message\":\"quota exceeded\"}}\n\n");
    assert!(events.iter().any(|e| matches!(
        e,
        FrontendEvent::Error { message, retryable: true } if message == "quota exceeded"
    )));
    let (_, outcome) = run.finish_stream(false);
    assert_eq!(outcome, StreamOutcome::Failed);
}

#[test]
fn crlf_frames_and_split_chunks_are_accepted() {
    let mut run = StreamSession::new();
    let _ = run.open();
    let _ = run.sse_connected();
    let mut events = run.feed_chunk("data: {\"content\":{\"role\":\"model\",");
    events.extend(run.feed_chunk("\"parts\":[{\"text\":\"joined\"}]}}\r\n\r\n"));
    let texts: Vec<&str> = events
        .iter()
        .filter_map(|e| match e {
            FrontendEvent::Message { text, .. } => Some(text.as_str()),
            _ => None,
        })
        .collect();
    assert_eq!(texts, vec!["joined"], "chunk splits and CRLF separators both work");
}

#[test]
fn meta_emitted_once_per_invocation_id() {
    let mut run = StreamSession::new();
    let _ = run.open();
    let mut events = run.feed_chunk("data: {\"invocationId\":\"abc\"}\n\ndata: {\"invocationId\":\"abc\"}\n\n");
    events.extend(run.feed_chunk("data: {\"invocationId\":\"def\"}\n\n"));
    let metas: Vec<&str> = events
        .iter()
        .filter_map(|e| match e {
            FrontendEvent::Meta { invocation_id } => Some(invocation_id.as_str()),
            _ => None,
        })
        .collect();
    assert_eq!(metas, vec!["abc", "def"]);
}

#[test]
fn usage_metadata_is_captured_into_done() {
    let mut run = StreamSession::new();
    let _ = run.open();
    let _ = run.feed_chunk("data: {\"usageMetadata\":{\"tokens\":12}}\n\n");
    let (closing, _) = run.finish_stream(false);
    let usage_present = closing.iter().find_map(|e| match e {
        FrontendEvent::Done { usage } => Some(usage.is_some()),
        _ => None,
    });
    assert_eq!(usage_present, Some(true));
}

#[test]
fn progress_inference_matches_the_table() {
    let mut state = StreamState::init();
    assert_eq!(progress_snapshot(&state, false), (12, "Understanding request".to_string()));
    state.saw_model_text = true;
    assert_eq!(progress_snapshot(&state, false), (90, "Finalizing response".to_string()));
    state.saw_model_text = false;
    state.tools_started = 2;
    state.tools_completed = 1;
    // 25 + round(55 * 1/2) = 53
    assert_eq!(progress_snapshot(&state, false), (53, "Running tools (1/2)".to_string()));
    state.tools_completed = 2;
    assert_eq!(
        progress_snapshot(&state, false),
        (88, "Summarizing tool output".to_string())
    );
    state.saw_model_text = true;
    assert_eq!(progress_snapshot(&state, false), (92, "Synthesizing report".to_string()));
    assert_eq!(progress_snapshot(&state, true), (100, "Complete".to_string()));
}

#[test]
fn progress_is_monotone_across_a_successful_text_only_run() {
    let mut run = StreamSession::new();
    let mut events = run.open();
    events.extend(run.sse_connected());
    events.extend(run.feed_chunk("data: {\"content\":{\"role\":\"model\",\"parts\":[{\"text\":\"a\"}]}}\n\n"));
    events.extend(run.feed_chunk("data: {\"content\":{\"role\":\"model\",\"parts\":[{\"text\":\"ab\"}]}}\n\n"));
    let (closing, outcome) = run.finish_stream(false);
    events.extend(closing);
    assert_eq!(outcome, StreamOutcome::Completed);
    let percents: Vec<u8> = events.iter().filter_map(percent_of).collect();
    let mut sorted = percents.clone();
    sorted.sort_unstable();
    assert_eq!(percents, sorted, "progress never decreases: {percents:?}");
}

#[test]
fn transport_failure_messages() {
    assert_eq!(
        run_sse_status_message(405, ""),
        "/run_sse returned 405"
    );
    assert_eq!(
        run_sse_status_message(500, "  oh no  "),
        "/run_sse returned 500 | backend: oh no"
    );
    assert_eq!(
        sse_stream_failed_message("/run_sse returned 500"),
        "SSE stream failed: /run_sse returned 500"
    );
    assert_eq!(
        fallback_failed_message(405, 500, "boom"),
        "Streaming failed with HTTP 405 and fallback /run returned 500 | backend: boom"
    );
}

#[test]
fn transport_failure_closes_the_stream() {
    let mut run = StreamSession::new();
    let mut events = run.open();
    events.extend(run.fail_with_error(
        sse_stream_failed_message("/run_sse returned 500"),
        true,
    ));
    let n = events.len();
    assert!(matches!(
        &events[n - 2],
        FrontendEvent::Error { message, retryable: true }
            if message == "SSE stream failed: /run_sse returned 500"
    ));
    assert!(matches!(&events[n - 1], FrontendEvent::Done { usage: None }));
}

#[test]
fn multi_data_line_frames_join_with_newlines() {
    // one frame split over two data: lines; the payload is their join
    let mut run = StreamSession::new();
    let _ = run.open();
    let mut events = run.feed_chunk("data: {\"content\":{\"role\":\"model\",\n");
    events.extend(run.feed_chunk("data: \"parts\":[{\"text\":\"two lines\"}]}}\n\n"));
    let texts: Vec<&str> = events
        .iter()
        .filter_map(|e| match e {
            FrontendEvent::Message { text, .. } => Some(text.as_str()),
            _ => None,
        })
        .collect();
    assert_eq!(texts, vec!["two lines"]);
}

#[test]
fn non_json_payloads_are_dropped_silently() {
    let mut run = StreamSession::new();
    let _ = run.open();
    let events = run.feed_chunk("data: this is not json\n\nretry: 3000\n\n");
    assert!(events.is_empty(), "invalid payloads and non-data lines emit nothing");
    assert!(!run.is_done_seen());
}

#[test]
fn replay_degradation_is_reported_as_an_info_tool_event() {
    let mut run = StreamSession::new();
    let _ = run.open();
    let long_error = "e".repeat(300);
    let events = run.replay_degraded(&long_error);
    match &events[0] {
        FrontendEvent::Tool { phase, name, detail, .. } => {
            assert_eq!(*phase, ToolPhase::Info);
            assert_eq!(name, "context_replay");
            let detail = detail.as_deref().expect("detail");
            assert!(detail.starts_with("Replay degraded: eee"));
            assert!(detail.ends_with("..."), "long errors are truncated");
            assert_eq!(detail.chars().count(), "Replay degraded: ".len() + 240 + 3);
        }
        other => panic!("expected an info tool event, got {other:?}"),
    }
}
