//! Event interpretation: text, tools, sources, invocation ids, payload
//! shapes.

use desktop_core::json::JsonValue;
use desktop_core::stream::{
    extract_event_source, extract_invocation_id, extract_model_text, extract_run_events,
    extract_tool_signals, summarize_json_shape, summarize_response_shape, ToolPhase,
};

fn obj(entries: Vec<(&str, JsonValue)>) -> JsonValue {
    JsonValue::Obj(
        entries
            .into_iter()
            .map(|(k, v)| (k.to_string(), v))
            .collect(),
    )
}

fn s(text: &str) -> JsonValue {
    JsonValue::Str(text.to_string())
}

#[test]
fn extracts_only_model_text() {
    let model_event = obj(vec![(
        "content",
        obj(vec![
            ("role", s("model")),
            ("parts", JsonValue::Arr(vec![obj(vec![("text", s("Hello"))])])),
        ]),
    )]);
    let tool_event = obj(vec![(
        "content",
        obj(vec![
            ("role", s("user")),
            ("parts", JsonValue::Arr(vec![obj(vec![("text", s("Tool output"))])])),
        ]),
    )]);

    assert_eq!(extract_model_text(&model_event), Some("Hello".to_string()));
    assert_eq!(extract_model_text(&tool_event), None);
}

#[test]
fn extracts_tool_calls_and_queries() {
    let event = obj(vec![(
        "content",
        obj(vec![(
            "parts",
            JsonValue::Arr(vec![
                obj(vec![(
                    "functionCall",
                    obj(vec![
                        ("name", s("brave_search")),
                        ("args", obj(vec![("query", s("interview handoff tools"))])),
                    ]),
                )]),
                obj(vec![(
                    "functionResponse",
                    obj(vec![
                        ("name", s("brave_search")),
                        ("response", JsonValue::Arr(vec![obj(vec![("title", s("A"))])])),
                    ]),
                )]),
            ]),
        )]),
    )]);

    let signals = extract_tool_signals(&event);
    assert_eq!(signals.len(), 2);
    assert_eq!(signals[0].phase, ToolPhase::Start);
    assert_eq!(signals[0].name, "brave_search");
    assert_eq!(signals[0].query, Some("interview handoff tools".to_string()));
    assert_eq!(signals[1].phase, ToolPhase::Done);
    assert_eq!(signals[1].name, "brave_search");
}

#[test]
fn extracts_event_source() {
    let event = obj(vec![("author", s("reddit_summary_agent"))]);
    assert_eq!(
        extract_event_source(&event),
        Some("reddit_summary_agent".to_string())
    );
}

#[test]
fn extracts_invocation_id_from_common_shapes() {
    let direct = obj(vec![("invocationId", s("abc"))]);
    let snake = obj(vec![("invocation_id", s("def"))]);
    let nested = obj(vec![("metadata", obj(vec![("invocationId", s("ghi"))]))]);
    assert_eq!(extract_invocation_id(&direct), Some("abc".to_string()));
    assert_eq!(extract_invocation_id(&snake), Some("def".to_string()));
    assert_eq!(extract_invocation_id(&nested), Some("ghi".to_string()));
}

#[test]
fn extracts_events_from_wrapped_run_payload() {
    let wrapped = obj(vec![(
        "events",
        JsonValue::Arr(vec![obj(vec![("id", s("a"))]), obj(vec![("id", s("b"))])]),
    )]);
    let extracted = extract_run_events(wrapped).expect("events should exist");
    assert_eq!(extracted.len(), 2);
}

#[test]
fn tool_detail_summarizes_response_shapes() {
    assert_eq!(
        summarize_response_shape(&JsonValue::Arr(vec![JsonValue::Null, JsonValue::Null])),
        Some("2 items returned".to_string())
    );
    assert_eq!(
        summarize_response_shape(&obj(vec![("a", JsonValue::Null)])),
        Some("1 fields returned".to_string())
    );
    assert_eq!(
        summarize_response_shape(&JsonValue::Null),
        Some("no payload".to_string())
    );
    assert_eq!(summarize_response_shape(&s("plain")), None);
}

#[test]
fn json_shape_summary() {
    assert_eq!(
        summarize_json_shape(&JsonValue::Arr(vec![JsonValue::Null])),
        "array(len=1)"
    );
    assert_eq!(
        summarize_json_shape(&obj(vec![("a", JsonValue::Null), ("b", JsonValue::Null)])),
        "object(keys=[a, b])"
    );
    assert_eq!(summarize_json_shape(&s("x")), "string");
    assert_eq!(summarize_json_shape(&JsonValue::Null), "null");
}

#[test]
fn concatenates_all_text_parts() {
    let event = obj(vec![
        (
            "content",
            obj(vec![(
                "parts",
                JsonValue::Arr(vec![
                    obj(vec![("text", s("Hel"))]),
                    obj(vec![("text", s("lo"))]),
                ]),
            )]),
        ),
        ("author", s("model")),
    ]);
    assert_eq!(extract_model_text(&event), Some("Hello".to_string()));
}
