//! The local session store against a real in-memory SQLite database.

use std::time::{SystemTime, UNIX_EPOCH};

use desktop_core::session_store::{infer_title_from_message, parse_phase, SessionStore};
use desktop_core::types::{
    RunMode, SessionCreateInput, SessionListInput, SessionMessageAppendInput, SessionPhase,
};

fn memory_store() -> SessionStore {
    SessionStore::from_path(":memory:".to_string()).expect("open in-memory store")
}

fn clock_ms() -> u128 {
    SystemTime::now()
        .duration_since(UNIX_EPOCH)
        .expect("clock")
        .as_millis()
}

/// Busy-waits until the millisecond clock has advanced, so that two
/// writes get distinct timestamps.
fn wait_next_millisecond() {
    let start = clock_ms();
    loop {
        if clock_ms() > start {
            return;
        }
    }
}

#[test]
fn session_crud_and_message_ordering() {
    let store = memory_store();
    let session = store
        .create_session(&SessionCreateInput {
            app_name: "product_validator_search".to_string(),
            user_id: "u1".to_string(),
            session_id: None,
        })
        .expect("session should be created");

    store
        .message_append(&SessionMessageAppendInput {
            session_id: session.id.clone(),
            role: "user".to_string(),
            text: "hello".to_string(),
            status: "done".to_string(),
            created_at_ms: Some(10),
        })
        .expect("first message");
    store
        .message_append(&SessionMessageAppendInput {
            session_id: session.id.clone(),
            role: "assistant".to_string(),
            text: "world".to_string(),
            status: "done".to_string(),
            created_at_ms: Some(20),
        })
        .expect("second message");

    let sessions = store
        .list_sessions(&SessionListInput {
            app_name: "product_validator_search".to_string(),
            user_id: "u1".to_string(),
        })
        .expect("list sessions");
    assert_eq!(sessions.len(), 1);
    assert_eq!(sessions[0].title, "hello");
    assert_eq!(sessions[0].phase, SessionPhase::IdeaInput);

    let messages = store.messages_get(&session.id).expect("messages");
    assert_eq!(messages.len(), 2);
    assert_eq!(messages[0].text, "hello");
    assert_eq!(messages[1].text, "world");
    assert!(messages[0].id.starts_with("msg-"));
    assert_eq!(messages[0].id.chars().count(), 40, "msg- plus a 36-character id");
    assert!(session.id.starts_with("desktop-"));
}

#[test]
fn replay_window_keeps_last_twenty_and_drops_current_duplicate() {
    let store = memory_store();
    let session = store
        .create_session(&SessionCreateInput {
            app_name: "product_validator_search".to_string(),
            user_id: "u1".to_string(),
            session_id: Some("s1".to_string()),
        })
        .expect("session create");

    for index in 0..25 {
        store
            .message_append(&SessionMessageAppendInput {
                session_id: session.id.clone(),
                role: "user".to_string(),
                text: format!("message-{index}"),
                status: "done".to_string(),
                created_at_ms: Some(index),
            })
            .expect("append");
    }

    let replay = store
        .replay_messages(&session.id, "message-24", 20)
        .expect("replay");
    assert_eq!(replay.len(), 20);
    assert_eq!(replay.first().map(|m| m.text.as_str()), Some("message-4"));
    assert_eq!(replay.last().map(|m| m.text.as_str()), Some("message-23"));
}

#[test]
fn delete_session_removes_messages_via_cascade() {
    let store = memory_store();
    let session = store
        .create_session(&SessionCreateInput {
            app_name: "product_validator_search".to_string(),
            user_id: "u1".to_string(),
            session_id: None,
        })
        .expect("session create");

    store
        .message_append(&SessionMessageAppendInput {
            session_id: session.id.clone(),
            role: "user".to_string(),
            text: "hello".to_string(),
            status: "done".to_string(),
            created_at_ms: Some(10),
        })
        .expect("append");

    assert!(store.delete_session(&session.id).expect("delete should work"));
    let messages = store.messages_get(&session.id).expect("messages read");
    assert!(messages.is_empty());
}

#[test]
fn create_then_list_orders_most_recently_updated_first() {
    let store = memory_store();
    let input = |id: Option<&str>| SessionCreateInput {
        app_name: "product_validator_search".to_string(),
        user_id: "u1".to_string(),
        session_id: id.map(|s| s.to_string()),
    };
    let s1 = store.create_session(&input(Some("s1"))).expect("create s1");
    wait_next_millisecond();
    let s2 = store.create_session(&input(Some("s2"))).expect("create s2");
    assert!(s1.created_at_ms < s2.created_at_ms);

    let list_input = SessionListInput {
        app_name: "product_validator_search".to_string(),
        user_id: "u1".to_string(),
    };
    let listed = store.list_sessions(&list_input).expect("list");
    let ids: Vec<&str> = listed.iter().map(|s| s.id.as_str()).collect();
    assert_eq!(ids, vec!["s2", "s1"]);

    wait_next_millisecond();
    store
        .message_append(&SessionMessageAppendInput {
            session_id: "s1".to_string(),
            role: "user".to_string(),
            text: "bump".to_string(),
            status: "done".to_string(),
            created_at_ms: None,
        })
        .expect("append bumps the session");
    let listed = store.list_sessions(&list_input).expect("list again");
    let ids: Vec<&str> = listed.iter().map(|s| s.id.as_str()).collect();
    assert_eq!(ids, vec!["s1", "s2"]);
}

#[test]
fn idempotent_create_returns_the_existing_row() {
    let store = memory_store();
    let input = SessionCreateInput {
        app_name: "app".to_string(),
        user_id: "u".to_string(),
        session_id: Some("same-id".to_string()),
    };
    let first = store.create_session(&input).expect("first create");
    store
        .message_append(&SessionMessageAppendInput {
            session_id: "same-id".to_string(),
            role: "user".to_string(),
            text: "title me".to_string(),
            status: "done".to_string(),
            created_at_ms: Some(1),
        })
        .expect("append");
    let second = store.create_session(&input).expect("second create is a no-op");
    assert_eq!(second.id, first.id);
    assert_eq!(second.title, "title me", "the existing row is returned");
}

#[test]
fn title_inference_rules() {
    // Appending a first user message titles the session with its text.
    assert_eq!(
        infer_title_from_message("user", "hello"),
        Some("hello".to_string())
    );
    // Non-user messages never title a session.
    assert_eq!(infer_title_from_message("assistant", "hello"), None);
    assert_eq!(infer_title_from_message("USER", "hello"), Some("hello".to_string()));
    // Blank text never titles a session.
    assert_eq!(infer_title_from_message("user", "   "), None);
    // Whitespace runs collapse.
    assert_eq!(
        infer_title_from_message("user", "  a \t b\nc  "),
        Some("a b c".to_string())
    );
    // A long message is cut to 56 code points plus the ellipsis: 59.
    let long = "x".repeat(200);
    let title = infer_title_from_message("user", &long).expect("title");
    assert_eq!(title.chars().count(), 59);
    assert!(title.ends_with("..."));
}

#[test]
fn title_set_only_by_first_user_message() {
    let store = memory_store();
    store
        .create_session(&SessionCreateInput {
            app_name: "app".to_string(),
            user_id: "u".to_string(),
            session_id: Some("t1".to_string()),
        })
        .expect("create");
    store
        .message_append(&SessionMessageAppendInput {
            session_id: "t1".to_string(),
            role: "assistant".to_string(),
            text: "not a title".to_string(),
            status: "done".to_string(),
            created_at_ms: Some(1),
        })
        .expect("append assistant");
    store
        .message_append(&SessionMessageAppendInput {
            session_id: "t1".to_string(),
            role: "user".to_string(),
            text: "hello".to_string(),
            status: "done".to_string(),
            created_at_ms: Some(2),
        })
        .expect("append user");
    store
        .message_append(&SessionMessageAppendInput {
            session_id: "t1".to_string(),
            role: "user".to_string(),
            text: "second".to_string(),
            status: "done".to_string(),
            created_at_ms: Some(3),
        })
        .expect("append second user");
    let listed = store
        .list_sessions(&SessionListInput {
            app_name: "app".to_string(),
            user_id: "u".to_string(),
        })
        .expect("list");
    assert_eq!(listed[0].title, "hello", "the first user message wins");
}

#[test]
fn phase_get_set_and_validation() {
    let store = memory_store();
    store
        .create_session(&SessionCreateInput {
            app_name: "app".to_string(),
            user_id: "u".to_string(),
            session_id: Some("p1".to_string()),
        })
        .expect("create");

    let state = store.phase_get("p1").expect("phase");
    assert_eq!(state.phase, SessionPhase::IdeaInput);
    assert!(!state.read_only);

    store.phase_get("missing").expect_err("missing session fails");
    assert_eq!(
        store.phase_get("missing").unwrap_err(),
        "Session 'missing' was not found."
    );

    store.validate_run_mode("p1", RunMode::Idea).expect("idea allowed");
    let err = store.validate_run_mode("p1", RunMode::Approve).unwrap_err();
    assert_eq!(
        err,
        "Run mode 'approve' is not allowed while phase is 'idea_input'."
    );

    store
        .phase_set("p1", SessionPhase::Completed, true)
        .expect("phase set");
    let err = store.validate_run_mode("p1", RunMode::Idea).unwrap_err();
    assert_eq!(err, "Session is read-only in phase 'completed'.");
    store
        .phase_set("missing", SessionPhase::Running, true)
        .expect_err("missing session fails");
}

#[test]
fn parse_phase_accepts_folded_names_and_rejects_unknown() {
    assert_eq!(parse_phase("idea_input"), Ok(SessionPhase::IdeaInput));
    assert_eq!(parse_phase("  RUNNING "), Ok(SessionPhase::Running));
    assert_eq!(
        parse_phase("bogus"),
        Err("Unknown session phase 'bogus'.".to_string())
    );
}

#[test]
fn replay_skips_incomplete_and_blank_messages() {
    let store = memory_store();
    store
        .create_session(&SessionCreateInput {
            app_name: "app".to_string(),
            user_id: "u".to_string(),
            session_id: Some("r1".to_string()),
        })
        .expect("create");
    let append = |role: &str, text: &str, status: &str, at: i64| {
        store
            .message_append(&SessionMessageAppendInput {
                session_id: "r1".to_string(),
                role: role.to_string(),
                text: text.to_string(),
                status: status.to_string(),
                created_at_ms: Some(at),
            })
            .expect("append");
    };
    append("user", "keep me", "done", 1);
    append("assistant", "  reply  ", " DONE ", 2);
    append("user", "pending", "streaming", 3);
    append("user", "   ", "done", 4);

    let replay = store.replay_messages("r1", "something else", 20).expect("replay");
    let texts: Vec<&str> = replay.iter().map(|m| m.text.as_str()).collect();
    assert_eq!(texts, vec!["keep me", "reply"], "statuses fold, texts trim");
}
