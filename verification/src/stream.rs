//! The streaming bridge: interprets upstream agent events and produces the
//! normalized frontend event stream.
//!
//! Everything here is pure logic over [`JsonValue`] documents and strings;
//! the HTTP transport that feeds it lives outside the library. The
//! [`StreamSession`] machine guarantees the frontend event ordering: a
//! stream opens with `Open`, emits `Done` exactly once, and after `Done`
//! nothing but the final progress report follows.

use vstd::prelude::*;

use crate::json::{json_parse_of, parse_json, spec_get, JsonValue};
use crate::sse::{flush_frame, lines_fold, lines_view, split_lines, SseParser};
use crate::text::{
    dec_str, is_ws, lower_seq, normalize_spec, trim_seq, truncate_spec, contains_seq,
    starts_with_seq,
};
use crate::text::{
    lower_str, normalize_text, push_char, str_contains, str_eq, str_starts_with, trim_str,
    truncate, usize_to_string,
};

verus! {

/// Phase of a tool event: a call started, a response arrived, or an
/// informational note.
#[derive(Debug, Clone, Copy, PartialEq, Eq, Structural)]
pub enum ToolPhase {
    Start,
    Done,
    Info,
}

/// Outcome of one streaming run.
#[derive(Debug, Clone, Copy, PartialEq, Eq, Structural)]
pub enum StreamOutcome {
    Completed,
    Failed,
}

/// One tool call or response detected in an upstream event.
#[derive(Debug, PartialEq)]
pub struct ToolSignal {
    pub phase: ToolPhase,
    pub name: String,
    pub query: Option<String>,
    pub detail: Option<String>,
}

/// The mathematical shape of a tool signal.
pub ghost struct ToolSignalModel {
    pub phase: ToolPhase,
    pub name: Seq<char>,
    pub query: Option<Seq<char>>,
    pub detail: Option<Seq<char>>,
}

/// View of an optional owned string.
pub open spec fn opt_view(o: Option<String>) -> Option<Seq<char>> {
    match o {
        Some(s) => Some(s@),
        None => None,
    }
}

impl View for ToolSignal {
    type V = ToolSignalModel;

    open spec fn view(&self) -> ToolSignalModel {
        ToolSignalModel {
            phase: self.phase,
            name: self.name@,
            query: opt_view(self.query),
            detail: opt_view(self.detail),
        }
    }
}

/// A normalized frontend stream event.
#[derive(Debug, PartialEq)]
pub enum FrontendEvent {
    /// The stream has started.
    Open,
    /// A new upstream invocation id was seen.
    Meta { invocation_id: String },
    /// Pass-through of the upstream event document.
    Raw { event: JsonValue },
    /// The accumulated model text changed.
    Message { text: String, source: Option<String> },
    /// A tool call started, finished, or reported something.
    Tool { phase: ToolPhase, name: String, query: Option<String>, detail: Option<String> },
    /// Progress inference changed.
    Progress { percent: u8, stage: String, tools_completed: usize, tools_total: usize },
    /// An upstream or transport error.
    Error { message: String, retryable: bool },
    /// Always the closing event of a stream, with the last captured usage.
    Done { usage: Option<JsonValue> },
}

/// The mathematical shape of a frontend event.
pub ghost enum EventModel {
    Open,
    Meta { invocation_id: Seq<char> },
    Raw { event: JsonValue },
    Message { text: Seq<char>, source: Option<Seq<char>> },
    Tool { phase: ToolPhase, name: Seq<char>, query: Option<Seq<char>>, detail: Option<Seq<char>> },
    Progress { percent: int, stage: Seq<char>, tools_completed: int, tools_total: int },
    Error { message: Seq<char>, retryable: bool },
    Done { usage: Option<JsonValue> },
}

impl View for FrontendEvent {
    type V = EventModel;

    open spec fn view(&self) -> EventModel {
        match self {
            FrontendEvent::Open => EventModel::Open,
            FrontendEvent::Meta { invocation_id } => EventModel::Meta {
                invocation_id: invocation_id@,
            },
            FrontendEvent::Raw { event } => EventModel::Raw { event: *event },
            FrontendEvent::Message { text, source } => EventModel::Message {
                text: text@,
                source: opt_view(*source),
            },
            FrontendEvent::Tool { phase, name, query, detail } => EventModel::Tool {
                phase: *phase,
                name: name@,
                query: opt_view(*query),
                detail: opt_view(*detail),
            },
            FrontendEvent::Progress { percent, stage, tools_completed, tools_total } => {
                EventModel::Progress {
                    percent: *percent as int,
                    stage: stage@,
                    tools_completed: *tools_completed as int,
                    tools_total: *tools_total as int,
                }
            },
            FrontendEvent::Error { message, retryable } => EventModel::Error {
                message: message@,
                retryable: *retryable,
            },
            FrontendEvent::Done { usage } => EventModel::Done { usage: *usage },
        }
    }
}

/// Views of a list of events.
pub open spec fn events_view(v: Seq<FrontendEvent>) -> Seq<EventModel> {
    Seq::new(v.len(), |i: int| v[i]@)
}

/// Interpretation state of one streaming run.
#[derive(Debug)]
pub struct StreamState {
    pub last_model_text: String,
    pub saw_model_text: bool,
    pub saw_error: bool,
    pub tools_started: usize,
    pub tools_completed: usize,
    pub last_progress_percent: Option<u8>,
    pub last_progress_stage: Option<String>,
    pub last_invocation_id: Option<String>,
}

/// The mathematical shape of the interpretation state.
pub ghost struct StateModel {
    pub last_model_text: Seq<char>,
    pub saw_model_text: bool,
    pub saw_error: bool,
    pub tools_started: int,
    pub tools_completed: int,
    pub last_progress_percent: Option<u8>,
    pub last_progress_stage: Option<Seq<char>>,
    pub last_invocation_id: Option<Seq<char>>,
}

impl View for StreamState {
    type V = StateModel;

    open spec fn view(&self) -> StateModel {
        StateModel {
            last_model_text: self.last_model_text@,
            saw_model_text: self.saw_model_text,
            saw_error: self.saw_error,
            tools_started: self.tools_started as int,
            tools_completed: self.tools_completed as int,
            last_progress_percent: self.last_progress_percent,
            last_progress_stage: match self.last_progress_stage {
                Some(s) => Some(s@),
                None => None,
            },
            last_invocation_id: match self.last_invocation_id {
                Some(s) => Some(s@),
                None => None,
            },
        }
    }
}

impl StreamState {
    /// The state at the start of a run: nothing seen yet.
    pub fn init() -> (r: StreamState)
        ensures
            r@ == init_state(),
    {
        let r = StreamState {
            last_model_text: String::new(),
            saw_model_text: false,
            saw_error: false,
            tools_started: 0,
            tools_completed: 0,
            last_progress_percent: None,
            last_progress_stage: None,
            last_invocation_id: None,
        };
        proof {
            assert(r@.last_model_text =~= init_state().last_model_text);
        }
        r
    }
}

/// The initial interpretation state.
pub open spec fn init_state() -> StateModel {
    StateModel {
        last_model_text: Seq::empty(),
        saw_model_text: false,
        saw_error: false,
        tools_started: 0,
        tools_completed: 0,
        last_progress_percent: None,
        last_progress_stage: None,
        last_invocation_id: None,
    }
}

/// Progress percentage while tools are running: `25 + 55·completed/total`,
/// rounded to the nearest integer (half away from zero) and capped at 88.
pub open spec fn tools_percent(completed: int, total: int) -> int {
    let p = 25 + (110 * completed + total) / (2 * total);
    if p > 88 {
        88
    } else {
        p
    }
}

/// Inferred progress percentage of a run.
pub open spec fn progress_percent(st: StateModel, done: bool) -> int {
    if done {
        100
    } else if st.tools_started > 0 {
        let total = if st.tools_started >= st.tools_completed {
            st.tools_started
        } else {
            st.tools_completed
        };
        let completed = if st.tools_completed <= total {
            st.tools_completed
        } else {
            total
        };
        if completed < total {
            tools_percent(completed, total)
        } else if st.saw_model_text {
            92
        } else {
            88
        }
    } else if st.saw_model_text {
        90
    } else {
        12
    }
}

/// Inferred progress stage label of a run.
pub open spec fn progress_stage(st: StateModel, done: bool) -> Seq<char> {
    if done {
        "Complete"@
    } else if st.tools_started > 0 {
        let total = if st.tools_started >= st.tools_completed {
            st.tools_started
        } else {
            st.tools_completed
        };
        let completed = if st.tools_completed <= total {
            st.tools_completed
        } else {
            total
        };
        if completed < total {
            "Running tools ("@ + dec_str(completed) + "/"@ + dec_str(total) + ")"@
        } else if st.saw_model_text {
            "Synthesizing report"@
        } else {
            "Summarizing tool output"@
        }
    } else if st.saw_model_text {
        "Finalizing response"@
    } else {
        "Understanding request"@
    }
}

/// Computes the progress snapshot of a state.
pub fn progress_snapshot(state: &StreamState, done: bool) -> (r: (u8, String))
    ensures
        r.0 as int == progress_percent(state@, done),
        r.1@ == progress_stage(state@, done),
{
    if done {
        return (100, String::from_str("Complete"));
    }
    if state.tools_started > 0 {
        let total = if state.tools_started >= state.tools_completed {
            state.tools_started
        } else {
            state.tools_completed
        };
        let completed = if state.tools_completed <= total {
            state.tools_completed
        } else {
            total
        };
        if completed < total {
            let num = 110u128 * (completed as u128) + (total as u128);
            let den = 2u128 * (total as u128);
            let p128 = 25u128 + num / den;
            proof {
                assert(num / den <= 56) by (nonlinear_arith)
                    requires
                        num == 110 * (completed as u128) + total,
                        den == 2 * (total as u128),
                        0 <= (completed as u128) < (total as u128),
                ;
            }
            let praw = p128 as u8;
            let percent: u8 = if praw > 88 {
                88
            } else {
                praw
            };
            let mut stage = String::from_str("Running tools (");
            stage = stage.concat(usize_to_string(completed).as_str());
            stage = stage.concat("/");
            stage = stage.concat(usize_to_string(total).as_str());
            stage = stage.concat(")");
            proof {
                assert(percent as int == progress_percent(state@, done));
                assert(stage@ =~= progress_stage(state@, done));
            }
            return (percent, stage);
        }
        if state.saw_model_text {
            return (92, String::from_str("Synthesizing report"));
        }
        return (88, String::from_str("Summarizing tool output"));
    }
    if state.saw_model_text {
        return (90, String::from_str("Finalizing response"));
    }
    (12, String::from_str("Understanding request"))
}

/// The character sequence of a string-valued document, if it is one.
pub open spec fn spec_str_of(o: Option<JsonValue>) -> Option<Seq<char>> {
    match o {
        Some(JsonValue::Str(s)) => Some(s@),
        _ => None,
    }
}

/// Trims; an all-whitespace or absent text becomes `None`.
pub open spec fn nonempty_trim(o: Option<Seq<char>>) -> Option<Seq<char>> {
    match o {
        Some(s) => if trim_seq(s).len() > 0 {
            Some(trim_seq(s))
        } else {
            None
        },
        None => None,
    }
}

/// The first of two options that is present.
pub open spec fn opt_or<A>(a: Option<A>, b: Option<A>) -> Option<A> {
    match a {
        Some(x) => Some(x),
        None => b,
    }
}

/// Trims a string-document field and keeps it only when non-empty.
fn nonempty_trimmed_str(v: Option<&JsonValue>) -> (r: Option<String>)
    ensures
        opt_view(r) == nonempty_trim(
            spec_str_of(
                match v {
                    Some(x) => Some(*x),
                    None => None,
                },
            ),
        ),
{
    match v {
        Some(x) => match x.as_str_opt() {
            Some(s) => {
                let t = trim_str(s);
                if t.unicode_len() > 0 {
                    Some(String::from_str(t))
                } else {
                    None
                }
            },
            None => None,
        },
        None => None,
    }
}

/// The `author` or `source` field of an event, trimmed, when it is a
/// non-empty string; `author` wins when both are strings.
pub open spec fn spec_event_source(ev: JsonValue) -> Option<Seq<char>> {
    nonempty_trim(
        opt_or(
            spec_str_of(spec_get(ev, "author"@)),
            spec_str_of(spec_get(ev, "source"@)),
        ),
    )
}

/// Extracts the source label of an event.
pub fn extract_event_source(event: &JsonValue) -> (r: Option<String>)
    ensures
        opt_view(r) == spec_event_source(*event),
{
    let author = event.get("author");
    let is_author_str = match author {
        Some(a) => matches!(a, JsonValue::Str(_)),
        None => false,
    };
    if is_author_str {
        nonempty_trimmed_str(author)
    } else {
        nonempty_trimmed_str(event.get("source"))
    }
}

/// A field of a field: `v.outer.inner`, when `v.outer` is an object.
pub open spec fn spec_get2(v: JsonValue, outer: Seq<char>, inner: Seq<char>) -> Option<JsonValue> {
    match spec_get(v, outer) {
        Some(m) => spec_get(m, inner),
        None => None,
    }
}

/// The upstream invocation id: the first of `invocationId`,
/// `invocation_id`, `metadata.invocationId`, `metadata.invocation_id`
/// that is a string with non-empty trimmed text, trimmed.
pub open spec fn spec_invocation_id(ev: JsonValue) -> Option<Seq<char>> {
    opt_or(
        nonempty_trim(spec_str_of(spec_get(ev, "invocationId"@))),
        opt_or(
            nonempty_trim(spec_str_of(spec_get(ev, "invocation_id"@))),
            opt_or(
                nonempty_trim(spec_str_of(spec_get2(ev, "metadata"@, "invocationId"@))),
                nonempty_trim(spec_str_of(spec_get2(ev, "metadata"@, "invocation_id"@))),
            ),
        ),
    )
}

/// Field of a nested object, by reference.
fn get2<'a>(v: &'a JsonValue, outer: &str, inner: &str) -> (r: Option<&'a JsonValue>)
    ensures
        r matches Some(x) ==> spec_get2(*v, outer@, inner@) == Some(*x),
        r is None ==> spec_get2(*v, outer@, inner@) is None,
{
    match v.get(outer) {
        Some(m) => m.get(inner),
        None => None,
    }
}

/// Extracts the invocation id of an event.
pub fn extract_invocation_id(event: &JsonValue) -> (r: Option<String>)
    ensures
        opt_view(r) == spec_invocation_id(*event),
{
    let c1 = nonempty_trimmed_str(event.get("invocationId"));
    if c1.is_some() {
        return c1;
    }
    let c2 = nonempty_trimmed_str(event.get("invocation_id"));
    if c2.is_some() {
        return c2;
    }
    let c3 = nonempty_trimmed_str(get2(event, "metadata", "invocationId"));
    if c3.is_some() {
        return c3;
    }
    nonempty_trimmed_str(get2(event, "metadata", "invocation_id"))
}

/// Concatenation of the `text` string fields of a part list.
pub open spec fn parts_text(parts: Seq<JsonValue>) -> Seq<char>
    decreases parts.len(),
{
    if parts.len() == 0 {
        Seq::empty()
    } else {
        (match spec_str_of(spec_get(parts[0], "text"@)) {
            Some(t) => t,
            None => Seq::empty(),
        }) + parts_text(parts.drop_first())
    }
}

proof fn lemma_parts_text_push(parts: Seq<JsonValue>, x: JsonValue)
    ensures
        parts_text(parts.push(x)) == parts_text(parts) + (match spec_str_of(
            spec_get(x, "text"@),
        ) {
            Some(t) => t,
            None => Seq::empty(),
        }),
    decreases parts.len(),
{
    let piece = (match spec_str_of(spec_get(x, "text"@)) {
        Some(t) => t,
        None => Seq::<char>::empty(),
    });
    if parts.len() == 0 {
        assert(parts.push(x)[0] == x);
        assert(parts.push(x).drop_first() =~= Seq::<JsonValue>::empty());
        assert(parts =~= Seq::<JsonValue>::empty());
        assert(parts_text(Seq::<JsonValue>::empty()) == Seq::<char>::empty());
        assert(parts_text(parts.push(x)) == piece + Seq::<char>::empty());
        assert(piece + Seq::<char>::empty() =~= Seq::<char>::empty() + piece);
        assert(parts_text(parts.push(x)) =~= parts_text(parts) + piece);
    } else {
        assert(parts.push(x).drop_first() =~= parts.drop_first().push(x));
        lemma_parts_text_push(parts.drop_first(), x);
        assert(parts.push(x)[0] == parts[0]);
        let piece0 = (match spec_str_of(spec_get(parts[0], "text"@)) {
            Some(t) => t,
            None => Seq::<char>::empty(),
        });
        assert(parts_text(parts.push(x)) == piece0 + parts_text(parts.push(x).drop_first()));
        assert(parts_text(parts.push(x).drop_first()) == parts_text(parts.drop_first()) + piece);
        assert(parts_text(parts) == piece0 + parts_text(parts.drop_first()));
        assert(piece0 + (parts_text(parts.drop_first()) + piece) =~= (piece0 + parts_text(
            parts.drop_first(),
        )) + piece);
    }
}

/// Whether the event carries model text: its `content.role` is `model` or
/// `assistant`, or the role is absent and the event's `author` is.
pub open spec fn spec_is_model_event(ev: JsonValue, content: JsonValue) -> bool {
    let role = spec_str_of(spec_get(content, "role"@));
    let author = spec_str_of(spec_get(ev, "author"@));
    (role matches Some(r) && (r == "model"@ || r == "assistant"@)) || (role is None && (
    author matches Some(a) && (a == "model"@ || a == "assistant"@)))
}

/// The model text of an event: the concatenated `text` parts of its
/// content when the event comes from the model and the result is
/// non-empty.
pub open spec fn spec_model_text(ev: JsonValue) -> Option<Seq<char>> {
    match spec_get(ev, "content"@) {
        Some(content) => if spec_is_model_event(ev, content) {
            match spec_get(content, "parts"@) {
                Some(JsonValue::Arr(parts)) => if parts_text(parts@).len() > 0 {
                    Some(parts_text(parts@))
                } else {
                    None
                },
                _ => None,
            }
        } else {
            None
        },
        None => None,
    }
}

/// Tests a string-valued field against two expected labels.
fn field_is_either(v: Option<&JsonValue>, a: &str, b: &str) -> (r: bool)
    ensures
        r == (spec_str_of(
            match v {
                Some(x) => Some(*x),
                None => None,
            },
        ) matches Some(s) && (s == a@ || s == b@)),
{
    match v {
        Some(x) => match x.as_str_opt() {
            Some(s) => str_eq(s, a) || str_eq(s, b),
            None => false,
        },
        None => false,
    }
}

/// Extracts the concatenated model text of an event.
pub fn extract_model_text(event: &JsonValue) -> (r: Option<String>)
    ensures
        opt_view(r) == spec_model_text(*event),
{
    let content = match event.get("content") {
        Some(c) => c,
        None => {
            return None;
        },
    };
    let role_opt = content.get("role");
    let role_is_str = match role_opt {
        Some(x) => matches!(x, JsonValue::Str(_)),
        None => false,
    };
    let is_model = if role_is_str {
        field_is_either(role_opt, "model", "assistant")
    } else {
        field_is_either(event.get("author"), "model", "assistant")
    };
    if !is_model {
        return None;
    }
    let parts = match content.get("parts") {
        Some(JsonValue::Arr(parts)) => parts,
        _ => {
            return None;
        },
    };
    let n = parts.len();
    let mut out = String::new();
    let mut i: usize = 0;
    while i < n
        invariant
            n == parts@.len(),
            i <= n,
            out@ == parts_text(parts@.take(i as int)),
        decreases n - i,
    {
        match parts[i].get("text") {
            Some(t) => match t.as_str_opt() {
                Some(s) => {
                    out = out.concat(s);
                },
                None => {},
            },
            None => {},
        }
        proof {
            assert(parts@.take(i + 1 as int) =~= parts@.take(i as int).push(parts@[i as int]));
            lemma_parts_text_push(parts@.take(i as int), parts@[i as int]);
        }
        i += 1;
    }
    proof {
        assert(parts@.take(n as int) =~= parts@);
    }
    if out.as_str().unicode_len() == 0 {
        None
    } else {
        Some(out)
    }
}

/// The upstream error message: `event.error` when it is a string, else
/// `event.error.message` when that is a string.
pub open spec fn spec_error_message(ev: JsonValue) -> Option<Seq<char>> {
    match spec_get(ev, "error"@) {
        Some(JsonValue::Str(s)) => Some(s@),
        Some(other) => spec_str_of(spec_get(other, "message"@)),
        None => None,
    }
}

/// Keys of the first entries (up to the given count), joined by `, `.
pub open spec fn keys_join(entries: Seq<(String, JsonValue)>) -> Seq<char>
    decreases entries.len(),
{
    if entries.len() == 0 {
        Seq::empty()
    } else if entries.len() == 1 {
        entries[0].0@
    } else {
        entries[0].0@ + ", "@ + keys_join(entries.drop_first())
    }
}

/// Builds the joined key list of the first `max` entries.
fn join_keys(entries: &Vec<(String, JsonValue)>, max: usize) -> (r: String)
    ensures
        r@ == keys_join(
            if entries@.len() <= max {
                entries@
            } else {
                entries@.take(max as int)
            },
        ),
{
    let n = entries.len();
    let count = if n <= max {
        n
    } else {
        max
    };
    let ghost capped = if entries@.len() <= max {
        entries@
    } else {
        entries@.take(max as int)
    };
    proof {
        assert(capped.len() == count);
        assert forall|k: int| 0 <= k < count implies capped[k] == entries@[k] by {}
    }
    let mut out = String::new();
    if count == 0 {
        proof {
            assert(keys_join(capped) == Seq::<char>::empty());
        }
        return out;
    }
    let mut i: usize = 0;
    proof {
        assert(capped.skip(0) =~= capped);
        assert(out@ + keys_join(capped) =~= keys_join(capped));
    }
    while i < count
        invariant
            count <= entries@.len(),
            capped.len() == count,
            0 < count,
            forall|k: int| 0 <= k < count ==> capped[k] == entries@[k],
            i <= count,
            keys_join(capped) == out@ + keys_join(capped.skip(i as int)),
        decreases count - i,
    {
        proof {
            assert(capped.skip(i as int)[0] == capped[i as int]);
            assert(capped.skip(i as int).drop_first() =~= capped.skip(i + 1 as int));
        }
        out = out.concat(entries[i].0.as_str());
        if i + 1 < count {
            out = out.concat(", ");
            proof {
                assert(capped.skip(i as int).len() >= 2);
                assert(keys_join(capped) =~= out@ + keys_join(capped.skip(i + 1 as int)));
            }
        } else {
            proof {
                assert(capped.skip(i as int).len() == 1);
                assert(keys_join(capped.skip(i as int)) == capped[i as int].0@);
                assert(capped.skip(i + 1 as int) =~= Seq::<(String, JsonValue)>::empty());
                assert(keys_join(capped) =~= out@ + keys_join(capped.skip(i + 1 as int)));
            }
        }
        i += 1;
    }
    proof {
        assert(capped.skip(count as int) =~= Seq::<(String, JsonValue)>::empty());
        assert(keys_join(capped) =~= out@);
    }
    out
}

/// A one-line description of a document's shape.
pub open spec fn spec_json_shape(v: JsonValue) -> Seq<char> {
    match v {
        JsonValue::Arr(items) => "array(len="@ + dec_str(items@.len() as int) + ")"@,
        JsonValue::Obj(entries) => "object(keys=["@ + keys_join(
            if entries@.len() <= 10 {
                entries@
            } else {
                entries@.take(10)
            },
        ) + "])"@,
        JsonValue::Str(_) => "string"@,
        JsonValue::Num(_) => "number"@,
        JsonValue::Bool(_) => "bool"@,
        JsonValue::Null => "null"@,
    }
}

/// Describes a document's shape in one line.
pub fn summarize_json_shape(value: &JsonValue) -> (r: String)
    ensures
        r@ == spec_json_shape(*value),
{
    match value {
        JsonValue::Arr(items) => {
            let mut out = String::from_str("array(len=");
            out = out.concat(usize_to_string(items.len()).as_str());
            out = out.concat(")");
            proof {
                assert(out@ =~= spec_json_shape(*value));
            }
            out
        },
        JsonValue::Obj(entries) => {
            let mut out = String::from_str("object(keys=[");
            out = out.concat(join_keys(entries, 10).as_str());
            out = out.concat("])");
            proof {
                assert(out@ =~= spec_json_shape(*value));
            }
            out
        },
        JsonValue::Str(_) => String::from_str("string"),
        JsonValue::Num(_) => String::from_str("number"),
        JsonValue::Bool(_) => String::from_str("bool"),
        JsonValue::Null => String::from_str("null"),
    }
}

/// A key under which search queries are found: `q`, `query`, `queries`,
/// or any key containing `query`, case-folded.
pub open spec fn looks_like_query(k: Seq<char>) -> bool {
    let l = lower_seq(k);
    l == "q"@ || l == "query"@ || l == "queries"@ || contains_seq(l, "query"@)
}

/// Runtime test for [`looks_like_query`].
fn is_query_key(k: &str) -> (r: bool)
    ensures
        r == looks_like_query(k@),
{
    let l = lower_str(k);
    str_eq(l.as_str(), "q") || str_eq(l.as_str(), "query") || str_eq(l.as_str(), "queries")
        || str_contains(l.as_str(), "query")
}

/// Pushes the non-empty trimmed query strings of a list: plain strings,
/// and the `q` string field of objects.
pub open spec fn queries_from_list(items: Seq<JsonValue>, acc: Seq<Seq<char>>) -> Seq<Seq<char>>
    decreases items.len(),
{
    if items.len() == 0 {
        acc
    } else {
        let acc2 = match items[0] {
            JsonValue::Str(s) => if trim_seq(s@).len() > 0 {
                acc.push(trim_seq(s@))
            } else {
                acc
            },
            JsonValue::Obj(_) => match nonempty_trim(spec_str_of(spec_get(items[0], "q"@))) {
                Some(q) => acc.push(q),
                None => acc,
            },
            _ => acc,
        };
        queries_from_list(items.drop_first(), acc2)
    }
}

/// Query strings collected from a document: values of query-like keys,
/// found by a recursive scan limited to depth 5, stopping once four
/// queries were found before a scan step.
pub open spec fn collect_q(v: JsonValue, acc: Seq<Seq<char>>, depth: int) -> Seq<Seq<char>>
    decreases 6 - depth, 1int, 0int,
{
    if depth > 5 || acc.len() >= 4 {
        acc
    } else {
        match v {
            JsonValue::Obj(entries) => scan_entries(entries@, acc, depth),
            JsonValue::Arr(items) => scan_items(items@, acc, depth),
            _ => acc,
        }
    }
}

/// Scans the entries of an object for query-like keys.
pub open spec fn scan_entries(
    entries: Seq<(String, JsonValue)>,
    acc: Seq<Seq<char>>,
    depth: int,
) -> Seq<Seq<char>>
    decreases 6 - depth, 0int, entries.len(),
{
    if depth > 5 || entries.len() == 0 {
        acc
    } else {
        let acc2 = if looks_like_query(entries[0].0@) {
            match entries[0].1 {
                JsonValue::Str(s) => if trim_seq(s@).len() > 0 {
                    acc.push(trim_seq(s@))
                } else {
                    acc
                },
                JsonValue::Arr(items) => queries_from_list(items@, acc),
                _ => acc,
            }
        } else {
            collect_q(entries[0].1, acc, depth + 1)
        };
        scan_entries(entries.drop_first(), acc2, depth)
    }
}

/// Scans the items of an array, one level deeper each.
pub open spec fn scan_items(items: Seq<JsonValue>, acc: Seq<Seq<char>>, depth: int) -> Seq<
    Seq<char>,
>
    decreases 6 - depth, 0int, items.len(),
{
    if depth > 5 || items.len() == 0 {
        acc
    } else {
        scan_items(items.drop_first(), collect_q(items[0], acc, depth + 1), depth)
    }
}

/// Views of a list of owned strings.
pub open spec fn strs_view(v: Seq<String>) -> Seq<Seq<char>> {
    Seq::new(v.len(), |i: int| v[i]@)
}

proof fn lemma_strs_view_push(prev: Seq<String>, cur: Seq<String>, s: String)
    requires
        cur == prev.push(s),
    ensures
        strs_view(cur) == strs_view(prev).push(s@),
{
    assert(strs_view(cur) =~= strs_view(prev).push(s@));
}

/// Pushes the trimmed query strings of a query-valued list.
fn collect_from_list(items: &Vec<JsonValue>, out: &mut Vec<String>)
    ensures
        strs_view(final(out)@) == queries_from_list(items@, strs_view(old(out)@)),
{
    let n = items.len();
    let mut i: usize = 0;
    proof {
        assert(items@.skip(0) =~= items@);
    }
    while i < n
        invariant
            n == items@.len(),
            i <= n,
            queries_from_list(items@.skip(i as int), strs_view(out@)) == queries_from_list(
                items@,
                strs_view(old(out)@),
            ),
        decreases n - i,
    {
        proof {
            assert(items@.skip(i as int)[0] == items@[i as int]);
            assert(items@.skip(i as int).drop_first() =~= items@.skip(i + 1 as int));
        }
        let ghost prev = out@;
        match &items[i] {
            JsonValue::Str(s) => {
                let t = trim_str(s.as_str());
                if t.unicode_len() > 0 {
                    out.push(String::from_str(t));
                    proof {
                        lemma_strs_view_push(prev, out@, out@[prev.len() as int]);
                    }
                }
            },
            JsonValue::Obj(_) => {
                match items[i].get("q") {
                    Some(q) => match q.as_str_opt() {
                        Some(qs) => {
                            let t = trim_str(qs);
                            if t.unicode_len() > 0 {
                                out.push(String::from_str(t));
                                proof {
                                    lemma_strs_view_push(prev, out@, out@[prev.len() as int]);
                                }
                            }
                        },
                        None => {},
                    },
                    None => {},
                }
            },
            _ => {},
        }
        i += 1;
    }
    proof {
        assert(items@.skip(n as int) =~= Seq::<JsonValue>::empty());
    }
}

/// Collects query strings out of a document.
pub fn collect_queries(v: &JsonValue, out: &mut Vec<String>, depth: usize)
    requires
        depth <= 6,
    ensures
        strs_view(final(out)@) == collect_q(*v, strs_view(old(out)@), depth as int),
    decreases 6 - depth, 1int, 0int,
{
    if depth > 5 || out.len() >= 4 {
        return;
    }
    match v {
        JsonValue::Obj(entries) => {
            let n = entries.len();
            let mut i: usize = 0;
            proof {
                assert(entries@.skip(0) =~= entries@);
            }
            while i < n
                invariant
                    depth <= 5,
                    n == entries@.len(),
                    i <= n,
                    scan_entries(entries@.skip(i as int), strs_view(out@), depth as int)
                        == scan_entries(entries@, strs_view(old(out)@), depth as int),
                decreases n - i,
            {
                proof {
                    assert(entries@.skip(i as int)[0] == entries@[i as int]);
                    assert(entries@.skip(i as int).drop_first() =~= entries@.skip(i + 1 as int));
                }
                let ghost prev = out@;
                if is_query_key(entries[i].0.as_str()) {
                    match &entries[i].1 {
                        JsonValue::Str(s) => {
                            let t = trim_str(s.as_str());
                            if t.unicode_len() > 0 {
                                out.push(String::from_str(t));
                                proof {
                                    lemma_strs_view_push(prev, out@, out@[prev.len() as int]);
                                }
                            }
                        },
                        JsonValue::Arr(items) => {
                            collect_from_list(items, out);
                        },
                        _ => {},
                    }
                } else {
                    collect_queries(&entries[i].1, out, depth + 1);
                }
                i += 1;
            }
            proof {
                assert(entries@.skip(n as int) =~= Seq::<(String, JsonValue)>::empty());
            }
        },
        JsonValue::Arr(items) => {
            let n = items.len();
            let mut i: usize = 0;
            proof {
                assert(items@.skip(0) =~= items@);
            }
            while i < n
                invariant
                    depth <= 5,
                    n == items@.len(),
                    i <= n,
                    scan_items(items@.skip(i as int), strs_view(out@), depth as int)
                        == scan_items(items@, strs_view(old(out)@), depth as int),
                decreases n - i,
            {
                proof {
                    assert(items@.skip(i as int)[0] == items@[i as int]);
                    assert(items@.skip(i as int).drop_first() =~= items@.skip(i + 1 as int));
                }
                collect_queries(&items[i], out, depth + 1);
                i += 1;
            }
            proof {
                assert(items@.skip(n as int) =~= Seq::<JsonValue>::empty());
            }
        },
        _ => {},
    }
}

/// The extracted search query: the first two collected query strings,
/// joined by ` | ` and truncated to 180 code points.
pub open spec fn spec_search_query(args: JsonValue) -> Option<Seq<char>> {
    let qs = collect_q(args, Seq::empty(), 0);
    if qs.len() == 0 {
        None
    } else {
        let joined = if qs.len() == 1 {
            qs[0]
        } else {
            qs[0] + " | "@ + qs[1]
        };
        Some(truncate_spec(joined, 180))
    }
}

/// Extracts the search query of a tool call's arguments.
pub fn extract_search_query(args: &JsonValue) -> (r: Option<String>)
    ensures
        opt_view(r) == spec_search_query(*args),
{
    let mut queries: Vec<String> = Vec::new();
    proof {
        assert(strs_view(queries@) =~= Seq::<Seq<char>>::empty());
    }
    collect_queries(args, &mut queries, 0);
    if queries.len() == 0 {
        return None;
    }
    let joined = if queries.len() == 1 {
        let q0: &String = &queries[0];
        q0.clone()
    } else {
        let mut j = queries[0].clone();
        j = j.concat(" | ");
        j = j.concat(queries[1].as_str());
        j
    };
    proof {
        assert(strs_view(queries@)[0] == queries@[0]@);
        if queries@.len() > 1 {
            assert(strs_view(queries@)[1] == queries@[1]@);
        }
    }
    Some(truncate(joined.as_str(), 180))
}

/// The argument summary: the query when one was found, else the first
/// four keys of the argument object.
pub open spec fn spec_summarize_args(args: JsonValue) -> Option<Seq<char>> {
    match spec_search_query(args) {
        Some(q) => Some("query: "@ + q),
        None => match args {
            JsonValue::Obj(entries) => if entries@.len() == 0 {
                None
            } else {
                Some(
                    "args: "@ + keys_join(
                        if entries@.len() <= 4 {
                            entries@
                        } else {
                            entries@.take(4)
                        },
                    ),
                )
            },
            _ => None,
        },
    }
}

/// Summarizes a tool call's arguments.
pub fn summarize_args(args: &JsonValue) -> (r: Option<String>)
    ensures
        opt_view(r) == spec_summarize_args(*args),
{
    match extract_search_query(args) {
        Some(q) => {
            let mut out = String::from_str("query: ");
            out = out.concat(q.as_str());
            Some(out)
        },
        None => match args {
            JsonValue::Obj(entries) => {
                if entries.len() == 0 {
                    None
                } else {
                    let mut out = String::from_str("args: ");
                    out = out.concat(join_keys(entries, 4).as_str());
                    Some(out)
                }
            },
            _ => None,
        },
    }
}

/// The response summary: item count for arrays, field count for objects,
/// `no payload` for null.
pub open spec fn spec_response_shape(resp: JsonValue) -> Option<Seq<char>> {
    match resp {
        JsonValue::Arr(items) => Some(dec_str(items@.len() as int) + " items returned"@),
        JsonValue::Obj(entries) => Some(dec_str(entries@.len() as int) + " fields returned"@),
        JsonValue::Null => Some("no payload"@),
        _ => None,
    }
}

/// Summarizes the shape of a tool response.
pub fn summarize_response_shape(response: &JsonValue) -> (r: Option<String>)
    ensures
        opt_view(r) == spec_response_shape(*response),
{
    match response {
        JsonValue::Arr(items) => {
            let mut out = usize_to_string(items.len());
            out = out.concat(" items returned");
            Some(out)
        },
        JsonValue::Obj(entries) => {
            let mut out = usize_to_string(entries.len());
            out = out.concat(" fields returned");
            Some(out)
        },
        JsonValue::Null => Some(String::from_str("no payload")),
        _ => None,
    }
}

/// The tool name of a call or response document: its `name` string field,
/// or `tool`.
pub open spec fn spec_tool_name(f: JsonValue) -> Seq<char> {
    match spec_str_of(spec_get(f, "name"@)) {
        Some(n) => n,
        None => "tool"@,
    }
}

/// The `start` signal of a function call document.
pub open spec fn spec_start_signal(f: JsonValue) -> ToolSignalModel {
    let args = opt_or(spec_get(f, "args"@), spec_get(f, "arguments"@));
    ToolSignalModel {
        phase: ToolPhase::Start,
        name: spec_tool_name(f),
        query: match args {
            Some(a) => spec_search_query(a),
            None => None,
        },
        detail: match args {
            Some(a) => spec_summarize_args(a),
            None => None,
        },
    }
}

/// The `done` signal of a function response document.
pub open spec fn spec_done_signal(f: JsonValue) -> ToolSignalModel {
    ToolSignalModel {
        phase: ToolPhase::Done,
        name: spec_tool_name(f),
        query: None,
        detail: match spec_get(f, "response"@) {
            Some(r) => spec_response_shape(r),
            None => None,
        },
    }
}

/// The signals of one part: a `start` for its function call, then a
/// `done` for its function response, either under both spellings.
pub open spec fn spec_part_signals(part: JsonValue) -> Seq<ToolSignalModel> {
    let fc = opt_or(spec_get(part, "functionCall"@), spec_get(part, "function_call"@));
    let fr = opt_or(spec_get(part, "functionResponse"@), spec_get(part, "function_response"@));
    (match fc {
        Some(f) => seq![spec_start_signal(f)],
        None => Seq::empty(),
    }) + (match fr {
        Some(f) => seq![spec_done_signal(f)],
        None => Seq::empty(),
    })
}

/// All signals of a part list, in order.
pub open spec fn spec_parts_signals(parts: Seq<JsonValue>) -> Seq<ToolSignalModel>
    decreases parts.len(),
{
    if parts.len() == 0 {
        Seq::empty()
    } else {
        spec_part_signals(parts[0]) + spec_parts_signals(parts.drop_first())
    }
}

/// The tool signals of an event: per part of its content, a `start` for a
/// function call and a `done` for a function response.
pub open spec fn spec_tool_signals(ev: JsonValue) -> Seq<ToolSignalModel> {
    match spec_get(ev, "content"@) {
        Some(content) => match spec_get(content, "parts"@) {
            Some(JsonValue::Arr(parts)) => spec_parts_signals(parts@),
            _ => Seq::empty(),
        },
        None => Seq::empty(),
    }
}

/// Views of a list of tool signals.
pub open spec fn signals_view(v: Seq<ToolSignal>) -> Seq<ToolSignalModel> {
    Seq::new(v.len(), |i: int| v[i]@)
}

/// The tool name of a call or response document.
fn tool_name(f: &JsonValue) -> (r: String)
    ensures
        r@ == spec_tool_name(*f),
{
    match f.get("name") {
        Some(n) => match n.as_str_opt() {
            Some(s) => String::from_str(s),
            None => String::from_str("tool"),
        },
        None => String::from_str("tool"),
    }
}

proof fn lemma_parts_signals_push(parts: Seq<JsonValue>, x: JsonValue)
    ensures
        spec_parts_signals(parts.push(x)) == spec_parts_signals(parts) + spec_part_signals(x),
    decreases parts.len(),
{
    if parts.len() == 0 {
        assert(parts.push(x)[0] == x);
        assert(parts.push(x).drop_first() =~= Seq::<JsonValue>::empty());
        assert(parts =~= Seq::<JsonValue>::empty());
        assert(spec_parts_signals(Seq::<JsonValue>::empty()) == Seq::<ToolSignalModel>::empty());
        assert(spec_parts_signals(parts.push(x)) == spec_part_signals(x) + Seq::<
            ToolSignalModel,
        >::empty());
        assert(spec_part_signals(x) + Seq::<ToolSignalModel>::empty() =~= Seq::<
            ToolSignalModel,
        >::empty() + spec_part_signals(x));
    } else {
        assert(parts.push(x).drop_first() =~= parts.drop_first().push(x));
        lemma_parts_signals_push(parts.drop_first(), x);
        assert(parts.push(x)[0] == parts[0]);
        assert(spec_parts_signals(parts.push(x)) == spec_part_signals(parts[0]) + (
        spec_parts_signals(parts.drop_first()) + spec_part_signals(x)));
        assert(spec_part_signals(parts[0]) + (spec_parts_signals(parts.drop_first())
            + spec_part_signals(x)) =~= (spec_part_signals(parts[0]) + spec_parts_signals(
            parts.drop_first(),
        )) + spec_part_signals(x));
    }
}

/// Extracts the tool signals of an event.
pub fn extract_tool_signals(event: &JsonValue) -> (r: Vec<ToolSignal>)
    ensures
        signals_view(r@) == spec_tool_signals(*event),
{
    let mut out: Vec<ToolSignal> = Vec::new();
    proof {
        assert(signals_view(out@) =~= Seq::<ToolSignalModel>::empty());
    }
    let content = match event.get("content") {
        Some(c) => c,
        None => {
            return out;
        },
    };
    let parts = match content.get("parts") {
        Some(JsonValue::Arr(parts)) => parts,
        _ => {
            return out;
        },
    };
    let n = parts.len();
    let mut i: usize = 0;
    proof {
        assert(parts@.take(0) =~= Seq::<JsonValue>::empty());
    }
    while i < n
        invariant
            n == parts@.len(),
            i <= n,
            signals_view(out@) == spec_parts_signals(parts@.take(i as int)),
        decreases n - i,
    {
        let part = &parts[i];
        let ghost prev = out@;
        let fc = match part.get("functionCall") {
            Some(f) => Some(f),
            None => part.get("function_call"),
        };
        match fc {
            Some(f) => {
                let name = tool_name(f);
                let args = match f.get("args") {
                    Some(a) => Some(a),
                    None => f.get("arguments"),
                };
                let (query, detail) = match args {
                    Some(a) => (extract_search_query(a), summarize_args(a)),
                    None => (None, None),
                };
                out.push(ToolSignal { phase: ToolPhase::Start, name, query, detail });
                proof {
                    assert(signals_view(out@) =~= signals_view(prev).push(
                        out@[prev.len() as int]@,
                    ));
                }
            },
            None => {},
        }
        let ghost prev2 = out@;
        let fr = match part.get("functionResponse") {
            Some(f) => Some(f),
            None => part.get("function_response"),
        };
        match fr {
            Some(f) => {
                let name = tool_name(f);
                let detail = match f.get("response") {
                    Some(resp) => summarize_response_shape(resp),
                    None => None,
                };
                out.push(ToolSignal { phase: ToolPhase::Done, name, query: None, detail });
                proof {
                    assert(signals_view(out@) =~= signals_view(prev2).push(
                        out@[prev2.len() as int]@,
                    ));
                }
            },
            None => {},
        }
        proof {
            assert(parts@.take(i + 1 as int) =~= parts@.take(i as int).push(parts@[i as int]));
            lemma_parts_signals_push(parts@.take(i as int), parts@[i as int]);
            assert(signals_view(out@) =~= spec_parts_signals(parts@.take(i + 1 as int)));
        }
        i += 1;
    }
    proof {
        assert(parts@.take(n as int) =~= parts@);
    }
    out
}

/// The event list of a run payload: the payload itself when it is an
/// array, else the value of the first of `events`, `response`, `result`,
/// `items` that is an array.
pub open spec fn arr_of(o: Option<JsonValue>) -> Option<Seq<JsonValue>> {
    match o {
        Some(JsonValue::Arr(items)) => Some(items@),
        _ => None,
    }
}

pub open spec fn spec_run_events(v: JsonValue) -> Option<Seq<JsonValue>> {
    match v {
        JsonValue::Arr(items) => Some(items@),
        JsonValue::Obj(_) => opt_or(
            arr_of(spec_get(v, "events"@)),
            opt_or(
                arr_of(spec_get(v, "response"@)),
                opt_or(arr_of(spec_get(v, "result"@)), arr_of(spec_get(v, "items"@))),
            ),
        ),
        _ => None,
    }
}

/// Whether the document has an array under the key.
fn has_arr_at(v: &JsonValue, key: &str) -> (r: bool)
    ensures
        r == (spec_get(*v, key@) matches Some(JsonValue::Arr(_))),
{
    match v.get(key) {
        Some(x) => matches!(x, JsonValue::Arr(_)),
        None => false,
    }
}

/// Whether a payload carries an event list.
fn run_events_present(v: &JsonValue) -> (r: bool)
    ensures
        r == (spec_run_events(*v) is Some),
{
    if matches!(v, JsonValue::Arr(_)) {
        return true;
    }
    if !matches!(v, JsonValue::Obj(_)) {
        return false;
    }
    has_arr_at(v, "events") || has_arr_at(v, "response") || has_arr_at(v, "result")
        || has_arr_at(v, "items")
}

/// Splits a run payload into its event list.
pub fn extract_run_events(v: JsonValue) -> (r: Option<Vec<JsonValue>>)
    ensures
        match r {
            Some(items) => spec_run_events(v) == Some(items@),
            None => spec_run_events(v) is None,
        },
{
    if matches!(&v, JsonValue::Arr(_)) {
        match v {
            JsonValue::Arr(items) => {
                return Some(items);
            },
            _ => {
                return None;
            },
        }
    }
    if !matches!(&v, JsonValue::Obj(_)) {
        return None;
    }
    let key: &str = if has_arr_at(&v, "events") {
        "events"
    } else if has_arr_at(&v, "response") {
        "response"
    } else if has_arr_at(&v, "result") {
        "result"
    } else if has_arr_at(&v, "items") {
        "items"
    } else {
        return None;
    };
    match v.take_field(key) {
        Some(JsonValue::Arr(items)) => Some(items),
        _ => None,
    }
}

/// Extracts the error message of an event.
pub fn extract_error_message(event: &JsonValue) -> (r: Option<String>)
    ensures
        opt_view(r) == spec_error_message(*event),
{
    match event.get("error") {
        Some(err) => match err.as_str_opt() {
            Some(s) => Some(String::from_str(s)),
            None => match err.get("message") {
                Some(m) => match m.as_str_opt() {
                    Some(s) => Some(String::from_str(s)),
                    None => None,
                },
                None => None,
            },
        },
        None => None,
    }
}

proof fn lemma_events_view_push(prev: Seq<FrontendEvent>, cur: Seq<FrontendEvent>, e: EventModel)
    requires
        cur.len() == prev.len() + 1,
        forall|k: int| 0 <= k < prev.len() ==> cur[k] == prev[k],
        cur[cur.len() - 1]@ == e,
    ensures
        events_view(cur) == events_view(prev).push(e),
{
    assert(events_view(cur) =~= events_view(prev).push(e));
}

/// Tool counters after one signal: a start increments the started count, a
/// done increments the completed count and lifts the started count up to
/// it; counters saturate at the machine limit.
pub open spec fn counts_after_signal(started: int, completed: int, phase: ToolPhase) -> (
    int,
    int,
) {
    if phase == ToolPhase::Start {
        (if started == usize::MAX as int {
            started
        } else {
            started + 1
        }, completed)
    } else if phase == ToolPhase::Done {
        let c = if completed == usize::MAX as int {
            completed
        } else {
            completed + 1
        };
        if c > started {
            (c, c)
        } else {
            (started, c)
        }
    } else {
        (started, completed)
    }
}

/// Result of folding tool signals into the counters.
pub ghost struct ToolsFold {
    pub started: int,
    pub completed: int,
    pub events: Seq<EventModel>,
}

/// Folds tool signals left to right: counters updated per signal, one tool
/// event emitted per signal.
pub open spec fn apply_signals(started: int, completed: int, signals: Seq<ToolSignalModel>) -> ToolsFold
    decreases signals.len(),
{
    if signals.len() == 0 {
        ToolsFold { started, completed, events: Seq::empty() }
    } else {
        let s0 = signals[0];
        let (s2, c2) = counts_after_signal(started, completed, s0.phase);
        let rest = apply_signals(s2, c2, signals.drop_first());
        ToolsFold {
            started: rest.started,
            completed: rest.completed,
            events: seq![
                EventModel::Tool {
                    phase: s0.phase,
                    name: s0.name,
                    query: s0.query,
                    detail: s0.detail,
                },
            ] + rest.events,
        }
    }
}

/// State and event of the progress report: emitted only when the inferred
/// (percent, stage) pair changed since the last report.
pub ghost struct ProgressStep {
    pub state: StateModel,
    pub event: Option<EventModel>,
}

pub open spec fn spec_progress_step(st: StateModel, done: bool) -> ProgressStep {
    let p = progress_percent(st, done);
    let g = progress_stage(st, done);
    let changed = (match st.last_progress_percent {
        Some(q) => q as int != p,
        None => true,
    }) || (match st.last_progress_stage {
        Some(s) => s != g,
        None => true,
    });
    if changed {
        ProgressStep {
            state: StateModel {
                last_progress_percent: Some(p as u8),
                last_progress_stage: Some(g),
                ..st
            },
            event: Some(
                EventModel::Progress {
                    percent: p,
                    stage: g,
                    tools_completed: st.tools_completed,
                    tools_total: st.tools_started,
                },
            ),
        }
    } else {
        ProgressStep { state: st, event: None }
    }
}

/// Progress percentages are always between 0 and 100.
pub proof fn lemma_progress_percent_bounds(st: StateModel, done: bool)
    requires
        0 <= st.tools_started,
        0 <= st.tools_completed,
    ensures
        0 <= progress_percent(st, done) <= 100,
{
    if !done && st.tools_started > 0 {
        let total = if st.tools_started >= st.tools_completed {
            st.tools_started
        } else {
            st.tools_completed
        };
        let completed = if st.tools_completed <= total {
            st.tools_completed
        } else {
            total
        };
        if completed < total {
            assert((110 * completed + total) / (2 * total) >= 0) by (nonlinear_arith)
                requires
                    0 <= completed,
                    0 < total,
            ;
        }
    }
}

/// Emits a progress event when the inferred progress changed.
pub fn emit_progress_if_changed(state: &mut StreamState, done: bool) -> (r: Option<FrontendEvent>)
    ensures
        final(state)@ == spec_progress_step(old(state)@, done).state,
        (match r {
            Some(e) => Some(e@),
            None => None,
        }) == spec_progress_step(old(state)@, done).event,
{
    let (percent, stage) = progress_snapshot(state, done);
    let percent_same = match state.last_progress_percent {
        Some(q) => q == percent,
        None => false,
    };
    let stage_same = match &state.last_progress_stage {
        Some(s) => str_eq(s.as_str(), stage.as_str()),
        None => false,
    };
    if percent_same && stage_same {
        proof {
            assert(state@.last_progress_stage == Some(progress_stage(old(state)@, done)));
        }
        return None;
    }
    state.last_progress_percent = Some(percent);
    let stage2 = stage.clone();
    state.last_progress_stage = Some(stage);
    let e = FrontendEvent::Progress {
        percent,
        stage: stage2,
        tools_completed: state.tools_completed,
        tools_total: state.tools_started,
    };
    Some(e)
}

/// Everything one upstream event produces: the next interpretation state,
/// the frontend events in order, and the captured usage value.
pub ghost struct ProcessOut {
    pub state: StateModel,
    pub events: Seq<EventModel>,
    pub usage: Option<JsonValue>,
}

/// Interpretation of one upstream event, by the rules of the streaming
/// bridge: a meta event for a new invocation id; the raw pass-through; an
/// error event when the event reports an error; one tool event per signal;
/// a message event when the accumulated model text changed; usage capture;
/// and a progress report when the inferred progress changed.
pub open spec fn spec_process_event(
    st: StateModel,
    ev: JsonValue,
    usage: Option<JsonValue>,
) -> ProcessOut {
    // meta
    let inv = spec_invocation_id(ev);
    let meta_new = inv matches Some(id) && st.last_invocation_id != Some(id);
    let st1 = if meta_new {
        StateModel { last_invocation_id: Some(inv->0), ..st }
    } else {
        st
    };
    let e1: Seq<EventModel> = if meta_new {
        seq![EventModel::Meta { invocation_id: inv->0 }]
    } else {
        Seq::empty()
    };
    // raw pass-through
    let e2: Seq<EventModel> = seq![EventModel::Raw { event: ev }];
    // error
    let err = spec_error_message(ev);
    let st2 = if err is Some {
        StateModel { saw_error: true, ..st1 }
    } else {
        st1
    };
    let e3: Seq<EventModel> = match err {
        Some(m) => seq![EventModel::Error { message: m, retryable: true }],
        None => Seq::empty(),
    };
    // tools
    let tf = apply_signals(st2.tools_started, st2.tools_completed, spec_tool_signals(ev));
    let st3 = StateModel { tools_started: tf.started, tools_completed: tf.completed, ..st2 };
    let e4 = tf.events;
    // model text
    let norm = match spec_model_text(ev) {
        Some(full) => trim_seq(full),
        None => Seq::empty(),
    };
    let msg_new = norm.len() > 0 && norm != st3.last_model_text;
    let st4 = if msg_new {
        StateModel { saw_model_text: true, last_model_text: norm, ..st3 }
    } else {
        st3
    };
    let e5: Seq<EventModel> = if msg_new {
        seq![EventModel::Message { text: norm, source: spec_event_source(ev) }]
    } else {
        Seq::empty()
    };
    // usage capture
    let usage2 = match spec_get(ev, "usageMetadata"@) {
        Some(u) => Some(u),
        None => usage,
    };
    // progress report
    let ps = spec_progress_step(st4, false);
    let e6: Seq<EventModel> = match ps.event {
        Some(e) => seq![e],
        None => Seq::empty(),
    };
    ProcessOut { state: ps.state, events: e1 + e2 + e3 + e4 + e5 + e6, usage: usage2 }
}

/// Interprets one upstream event, pushing the produced frontend events.
///
/// The caller hands the event twice (two equal parses of the payload): one
/// is passed through as the raw event, the other is consumed for the usage
/// capture.
#[verifier::rlimit(100)]
pub fn process_event(
    state: &mut StreamState,
    event: JsonValue,
    event_copy: JsonValue,
    usage: &mut Option<JsonValue>,
) -> (r: Vec<FrontendEvent>)
    requires
        event_copy == event,
    ensures
        final(state)@ == spec_process_event(old(state)@, event, *old(usage)).state,
        events_view(r@) == spec_process_event(old(state)@, event, *old(usage)).events,
        *final(usage) == spec_process_event(old(state)@, event, *old(usage)).usage,
{
    let ghost target = spec_process_event(old(state)@, event, *old(usage));
    let mut out: Vec<FrontendEvent> = Vec::new();
    proof {
        assert(events_view(out@) =~= Seq::<EventModel>::empty());
    }
    // meta
    match extract_invocation_id(&event) {
        Some(id) => {
            let id_same = match &state.last_invocation_id {
                Some(prev) => str_eq(prev.as_str(), id.as_str()),
                None => false,
            };
            if !id_same {
                state.last_invocation_id = Some(id.clone());
                let ghost prev = out@;
                out.push(FrontendEvent::Meta { invocation_id: id });
                proof {
                    lemma_events_view_push(prev, out@, out@[prev.len() as int]@);
                }
            }
        },
        None => {},
    }
    let ghost e1 = events_view(out@);
    // raw pass-through
    {
        let ghost prev = out@;
        out.push(FrontendEvent::Raw { event: event_copy });
        proof {
            lemma_events_view_push(prev, out@, out@[prev.len() as int]@);
        }
    }
    // error
    match extract_error_message(&event) {
        Some(message) => {
            state.saw_error = true;
            let ghost prev = out@;
            out.push(FrontendEvent::Error { message, retryable: true });
            proof {
                lemma_events_view_push(prev, out@, out@[prev.len() as int]@);
            }
        },
        None => {},
    }
    let ghost e123 = events_view(out@);
    // tools
    let signals = extract_tool_signals(&event);
    let n = signals.len();
    let ghost started0 = state@.tools_started;
    let ghost completed0 = state@.tools_completed;
    let ghost all_signals = signals_view(signals@);
    let mut i: usize = 0;
    proof {
        assert(all_signals.skip(0) =~= all_signals);
        assert(events_view(out@) =~= e123 + Seq::<EventModel>::empty());
    }
    while i < n
        invariant
            n == signals@.len(),
            i <= n,
            all_signals == signals_view(signals@),
            apply_signals(started0, completed0, all_signals) == {
                let rest = apply_signals(
                    state@.tools_started,
                    state@.tools_completed,
                    all_signals.skip(i as int),
                );
                ToolsFold {
                    started: rest.started,
                    completed: rest.completed,
                    events: events_view(out@).skip(e123.len() as int) + rest.events,
                }
            },
            events_view(out@).take(e123.len() as int) == e123,
            events_view(out@).len() >= e123.len(),
            state@ == (StateModel {
                tools_started: state@.tools_started,
                tools_completed: state@.tools_completed,
                ..old_after_error(old(state)@, event)
            }),
            0 <= state@.tools_started,
            0 <= state@.tools_completed,
        decreases n - i,
    {
        let sig = &signals[i];
        proof {
            assert(all_signals.skip(i as int)[0] == all_signals[i as int]);
            assert(all_signals[i as int] == signals@[i as int]@);
            assert(all_signals.skip(i as int).drop_first() =~= all_signals.skip(i + 1 as int));
        }
        match sig.phase {
            ToolPhase::Start => {
                if state.tools_started != usize::MAX {
                    state.tools_started = state.tools_started + 1;
                }
            },
            ToolPhase::Done => {
                if state.tools_completed != usize::MAX {
                    state.tools_completed = state.tools_completed + 1;
                }
                if state.tools_completed > state.tools_started {
                    state.tools_started = state.tools_completed;
                }
            },
            ToolPhase::Info => {},
        }
        let ghost prev = out@;
        out.push(
            FrontendEvent::Tool {
                phase: sig.phase,
                name: sig.name.clone(),
                query: match &sig.query {
                    Some(q) => Some(q.clone()),
                    None => None,
                },
                detail: match &sig.detail {
                    Some(d) => Some(d.clone()),
                    None => None,
                },
            },
        );
        proof {
            lemma_events_view_push(prev, out@, out@[prev.len() as int]@);
            assert(out@[prev.len() as int]@ == EventModel::Tool {
                phase: all_signals[i as int].phase,
                name: all_signals[i as int].name,
                query: all_signals[i as int].query,
                detail: all_signals[i as int].detail,
            });
            assert(events_view(out@).take(e123.len() as int) =~= e123);
            assert(events_view(out@).skip(e123.len() as int) =~= events_view(prev).skip(
                e123.len() as int,
            ).push(out@[prev.len() as int]@));
            assert(events_view(out@).skip(e123.len() as int) + apply_signals(
                state@.tools_started,
                state@.tools_completed,
                all_signals.skip(i + 1 as int),
            ).events =~= events_view(prev).skip(e123.len() as int) + (seq![
                out@[prev.len() as int]@,
            ] + apply_signals(
                state@.tools_started,
                state@.tools_completed,
                all_signals.skip(i + 1 as int),
            ).events));
        }
        i += 1;
    }
    proof {
        assert(all_signals.skip(n as int) =~= Seq::<ToolSignalModel>::empty());
        assert(apply_signals(state@.tools_started, state@.tools_completed, all_signals.skip(n as int)).events
            =~= Seq::<EventModel>::empty());
        assert(events_view(out@).skip(e123.len() as int) + Seq::<EventModel>::empty()
            =~= events_view(out@).skip(e123.len() as int));
        assert(events_view(out@) =~= events_view(out@).take(e123.len() as int) + events_view(
            out@,
        ).skip(e123.len() as int));
    }
    // model text
    match extract_model_text(&event) {
        Some(full) => {
            let trimmed = trim_str(full.as_str());
            if trimmed.unicode_len() > 0 && !str_eq(trimmed, state.last_model_text.as_str()) {
                let text = String::from_str(trimmed);
                let source = extract_event_source(&event);
                state.saw_model_text = true;
                state.last_model_text = String::from_str(trimmed);
                let ghost prev = out@;
                out.push(FrontendEvent::Message { text, source });
                proof {
                    lemma_events_view_push(prev, out@, out@[prev.len() as int]@);
                }
            }
        },
        None => {},
    }
    // usage capture
    match event.take_field("usageMetadata") {
        Some(u) => {
            *usage = Some(u);
        },
        None => {},
    }
    // progress report
    match emit_progress_if_changed(state, false) {
        Some(e) => {
            let ghost prev = out@;
            out.push(e);
            proof {
                lemma_events_view_push(prev, out@, out@[prev.len() as int]@);
            }
        },
        None => {},
    }
    proof {
        assert(events_view(out@) =~= target.events);
    }
    out
}

/// The state after the meta and error steps, with the tool counters left
/// open (helper for the tool-loop invariant).
pub open spec fn old_after_error(st: StateModel, ev: JsonValue) -> StateModel {
    let inv = spec_invocation_id(ev);
    let meta_new = inv matches Some(id) && st.last_invocation_id != Some(id);
    let st1 = if meta_new {
        StateModel { last_invocation_id: Some(inv->0), ..st }
    } else {
        st
    };
    if spec_error_message(ev) is Some {
        StateModel { saw_error: true, ..st1 }
    } else {
        st1
    }
}

/// Events that may appear between a stream's opening and its close.
pub open spec fn mid_only(evs: Seq<EventModel>) -> bool {
    forall|i: int|
        0 <= i < evs.len() ==> !((#[trigger] evs[i]) is Open) && !(evs[i] is Done)
}

proof fn lemma_mid_concat(a: Seq<EventModel>, b: Seq<EventModel>)
    requires
        mid_only(a),
        mid_only(b),
    ensures
        mid_only(a + b),
{
    assert forall|i: int| 0 <= i < (a + b).len() implies !((#[trigger] (a + b)[i]) is Open) && !((
    a + b)[i] is Done) by {
        if i < a.len() {
            assert((a + b)[i] == a[i]);
        } else {
            assert((a + b)[i] == b[i - a.len()]);
        }
    }
}

proof fn lemma_mid_signals(started: int, completed: int, signals: Seq<ToolSignalModel>)
    ensures
        mid_only(apply_signals(started, completed, signals).events),
    decreases signals.len(),
{
    if signals.len() > 0 {
        let (s2, c2) = counts_after_signal(started, completed, signals[0].phase);
        lemma_mid_signals(s2, c2, signals.drop_first());
        lemma_mid_concat(
            seq![
                EventModel::Tool {
                    phase: signals[0].phase,
                    name: signals[0].name,
                    query: signals[0].query,
                    detail: signals[0].detail,
                },
            ],
            apply_signals(s2, c2, signals.drop_first()).events,
        );
    }
}

proof fn lemma_mid_process(st: StateModel, ev: JsonValue, usage: Option<JsonValue>)
    ensures
        mid_only(spec_process_event(st, ev, usage).events),
{
    let inv = spec_invocation_id(ev);
    let meta_new = inv matches Some(id) && st.last_invocation_id != Some(id);
    let st1 = if meta_new {
        StateModel { last_invocation_id: Some(inv->0), ..st }
    } else {
        st
    };
    let e1: Seq<EventModel> = if meta_new {
        seq![EventModel::Meta { invocation_id: inv->0 }]
    } else {
        Seq::empty()
    };
    let e2: Seq<EventModel> = seq![EventModel::Raw { event: ev }];
    let err = spec_error_message(ev);
    let st2 = if err is Some {
        StateModel { saw_error: true, ..st1 }
    } else {
        st1
    };
    let e3: Seq<EventModel> = match err {
        Some(m) => seq![EventModel::Error { message: m, retryable: true }],
        None => Seq::<EventModel>::empty(),
    };
    let tf = apply_signals(st2.tools_started, st2.tools_completed, spec_tool_signals(ev));
    lemma_mid_signals(st2.tools_started, st2.tools_completed, spec_tool_signals(ev));
    let st3 = StateModel { tools_started: tf.started, tools_completed: tf.completed, ..st2 };
    let norm = match spec_model_text(ev) {
        Some(full) => trim_seq(full),
        None => Seq::<char>::empty(),
    };
    let msg_new = norm.len() > 0 && norm != st3.last_model_text;
    let st4 = if msg_new {
        StateModel { saw_model_text: true, last_model_text: norm, ..st3 }
    } else {
        st3
    };
    let e5: Seq<EventModel> = if msg_new {
        seq![EventModel::Message { text: norm, source: spec_event_source(ev) }]
    } else {
        Seq::<EventModel>::empty()
    };
    let ps = spec_progress_step(st4, false);
    let e6: Seq<EventModel> = match ps.event {
        Some(e) => seq![e],
        None => Seq::<EventModel>::empty(),
    };
    lemma_mid_concat(e1, e2);
    lemma_mid_concat(e1 + e2, e3);
    lemma_mid_concat(e1 + e2 + e3, tf.events);
    lemma_mid_concat(e1 + e2 + e3 + tf.events, e5);
    lemma_mid_concat(e1 + e2 + e3 + tf.events + e5, e6);
}

/// Result of interpreting a list of events.
pub ghost struct EventsFold {
    pub state: StateModel,
    pub usage: Option<JsonValue>,
    pub events: Seq<EventModel>,
}

/// Interprets upstream events left to right.
pub open spec fn events_fold(
    st: StateModel,
    usage: Option<JsonValue>,
    evs: Seq<JsonValue>,
) -> EventsFold
    decreases evs.len(),
{
    if evs.len() == 0 {
        EventsFold { state: st, usage, events: Seq::empty() }
    } else {
        let p = spec_process_event(st, evs[0], usage);
        let rest = events_fold(p.state, p.usage, evs.drop_first());
        EventsFold { state: rest.state, usage: rest.usage, events: p.events + rest.events }
    }
}

proof fn lemma_mid_events_fold(st: StateModel, usage: Option<JsonValue>, evs: Seq<JsonValue>)
    ensures
        mid_only(events_fold(st, usage, evs).events),
    decreases evs.len(),
{
    if evs.len() > 0 {
        let p = spec_process_event(st, evs[0], usage);
        lemma_mid_process(st, evs[0], usage);
        lemma_mid_events_fold(p.state, p.usage, evs.drop_first());
        lemma_mid_concat(p.events, events_fold(p.state, p.usage, evs.drop_first()).events);
    }
}

/// Result of handling one frame payload or a chunk of them.
pub ghost struct RunFold {
    pub state: StateModel,
    pub usage: Option<JsonValue>,
    pub done: bool,
    pub events: Seq<EventModel>,
}

/// Handling of one frame payload: trimmed; empty payloads are skipped; the
/// exact payload `[DONE]` ends the stream; other payloads parse as JSON
/// (silently dropped when invalid) and their events are interpreted.
pub open spec fn frame_step(
    st: StateModel,
    usage: Option<JsonValue>,
    payload: Seq<char>,
) -> RunFold {
    let t = trim_seq(payload);
    if t.len() == 0 {
        RunFold { state: st, usage, done: false, events: Seq::empty() }
    } else if t == "[DONE]"@ {
        RunFold { state: st, usage, done: true, events: Seq::empty() }
    } else {
        match json_parse_of(t) {
            None => RunFold { state: st, usage, done: false, events: Seq::empty() },
            Some(v) => {
                let evs = match spec_run_events(v) {
                    Some(items) => items,
                    None => seq![v],
                };
                let ef = events_fold(st, usage, evs);
                RunFold { state: ef.state, usage: ef.usage, done: false, events: ef.events }
            },
        }
    }
}

/// Handling of a list of frame payloads; payloads after a `[DONE]` are
/// not interpreted.
pub open spec fn frames_fold(
    st: StateModel,
    usage: Option<JsonValue>,
    frames: Seq<Seq<char>>,
) -> RunFold
    decreases frames.len(),
{
    if frames.len() == 0 {
        RunFold { state: st, usage, done: false, events: Seq::empty() }
    } else {
        let f = frame_step(st, usage, frames[0]);
        if f.done {
            f
        } else {
            let rest = frames_fold(f.state, f.usage, frames.drop_first());
            RunFold {
                state: rest.state,
                usage: rest.usage,
                done: rest.done,
                events: f.events + rest.events,
            }
        }
    }
}

proof fn lemma_mid_frame_step(st: StateModel, usage: Option<JsonValue>, payload: Seq<char>)
    ensures
        mid_only(frame_step(st, usage, payload).events),
{
    let t = trim_seq(payload);
    if t.len() > 0 && t != "[DONE]"@ {
        match json_parse_of(t) {
            None => {},
            Some(v) => {
                let evs = match spec_run_events(v) {
                    Some(items) => items,
                    None => seq![v],
                };
                lemma_mid_events_fold(st, usage, evs);
            },
        }
    }
}

proof fn lemma_mid_frames_fold(st: StateModel, usage: Option<JsonValue>, frames: Seq<Seq<char>>)
    ensures
        mid_only(frames_fold(st, usage, frames).events),
    decreases frames.len(),
{
    if frames.len() > 0 {
        let f = frame_step(st, usage, frames[0]);
        lemma_mid_frame_step(st, usage, frames[0]);
        if !f.done {
            lemma_mid_frames_fold(f.state, f.usage, frames.drop_first());
            lemma_mid_concat(
                f.events,
                frames_fold(f.state, f.usage, frames.drop_first()).events,
            );
        }
    }
}

/// Interprets the events of one frame payload.
fn run_frame(state: &mut StreamState, usage: &mut Option<JsonValue>, payload: &str) -> (r: (
    Vec<FrontendEvent>,
    bool,
))
    ensures
        ({
            let f = frame_step(old(state)@, *old(usage), payload@);
            &&& final(state)@ == f.state
            &&& *final(usage) == f.usage
            &&& r.1 == f.done
            &&& events_view(r.0@) == f.events
        }),
{
    let ghost target = frame_step(old(state)@, *old(usage), payload@);
    let trimmed = trim_str(payload);
    let mut out: Vec<FrontendEvent> = Vec::new();
    proof {
        assert(events_view(out@) =~= Seq::<EventModel>::empty());
    }
    if trimmed.unicode_len() == 0 {
        return (out, false);
    }
    proof {
        reveal_strlit("[DONE]");
    }
    if str_eq(trimmed, "[DONE]") {
        return (out, true);
    }
    let parsed = parse_json(trimmed);
    let parsed2 = parse_json(trimmed);
    let v = match parsed {
        Some(v) => v,
        None => {
            return (out, false);
        },
    };
    let v2 = match parsed2 {
        Some(v2) => v2,
        None => {
            return (out, false);
        },
    };
    let (mut evs, mut evs2) = if run_events_present(&v) {
        let items = match extract_run_events(v) {
            Some(items) => items,
            None => {
                proof {
                    assert(false);
                }
                Vec::new()
            },
        };
        let items2 = match extract_run_events(v2) {
            Some(items2) => items2,
            None => {
                proof {
                    assert(false);
                }
                Vec::new()
            },
        };
        (items, items2)
    } else {
        let mut a: Vec<JsonValue> = Vec::new();
        let mut b: Vec<JsonValue> = Vec::new();
        a.push(v);
        b.push(v2);
        (a, b)
    };
    let ghost all = evs@;
    proof {
        assert(evs@ =~= evs2@);
        assert(all.skip(0) =~= all);
    }
    while evs.len() > 0
        invariant
            evs@ == evs2@,
            events_fold(state@, *usage, evs@).state == events_fold(
                old(state)@,
                *old(usage),
                all,
            ).state,
            events_fold(state@, *usage, evs@).usage == events_fold(
                old(state)@,
                *old(usage),
                all,
            ).usage,
            events_view(out@) + events_fold(state@, *usage, evs@).events == events_fold(
                old(state)@,
                *old(usage),
                all,
            ).events,
        decreases evs@.len(),
    {
        let ghost pre_evs = evs@;
        let ghost stp = state@;
        let ghost up = *usage;
        let e = evs.remove(0);
        let e2 = evs2.remove(0);
        proof {
            assert(evs@ =~= pre_evs.drop_first());
            assert(evs2@ =~= pre_evs.drop_first());
        }
        let mut produced = process_event(state, e, e2, usage);
        proof {
            assert(state@ == spec_process_event(stp, pre_evs[0], up).state);
            assert(*usage == spec_process_event(stp, pre_evs[0], up).usage);
        }
        let ghost outpre = events_view(out@);
        let ghost prodv = events_view(produced@);
        out.append(&mut produced);
        proof {
            assert(events_view(out@) =~= outpre + prodv);
            assert((outpre + prodv) + events_fold(state@, *usage, evs@).events =~= outpre + (
            prodv + events_fold(state@, *usage, evs@).events));
        }
    }
    proof {
        assert(evs@ =~= Seq::<JsonValue>::empty());
        assert(events_fold(state@, *usage, evs@).events =~= Seq::<EventModel>::empty());
        assert(events_view(out@) + Seq::<EventModel>::empty() =~= events_view(out@));
    }
    (out, false)
}

/// Appending mid-stream events to an open, unfinished trace keeps its
/// structure.
proof fn lemma_trace_extend_mid(pre: Seq<EventModel>, add: Seq<EventModel>)
    requires
        pre.len() > 0,
        pre[0] is Open,
        forall|i: int| 1 <= i < pre.len() ==> !((#[trigger] pre[i]) is Open),
        forall|i: int| 0 <= i < pre.len() ==> !((#[trigger] pre[i]) is Done),
        mid_only(add),
    ensures
        (pre + add).len() > 0,
        (pre + add)[0] is Open,
        forall|i: int| 1 <= i < (pre + add).len() ==> !((#[trigger] (pre + add)[i]) is Open),
        forall|i: int| 0 <= i < (pre + add).len() ==> !((#[trigger] (pre + add)[i]) is Done),
{
    assert((pre + add)[0] == pre[0]);
    assert forall|i: int| 1 <= i < (pre + add).len() implies !((#[trigger] (pre
        + add)[i]) is Open) by {
        if i < pre.len() {
            assert((pre + add)[i] == pre[i]);
        } else {
            assert((pre + add)[i] == add[i - pre.len()]);
            assert(!((add[i - pre.len()]) is Open));
        }
    }
    assert forall|i: int| 0 <= i < (pre + add).len() implies !((#[trigger] (pre
        + add)[i]) is Done) by {
        if i < pre.len() {
            assert((pre + add)[i] == pre[i]);
        } else {
            assert((pre + add)[i] == add[i - pre.len()]);
            assert(!((add[i - pre.len()]) is Done));
        }
    }
}

/// Appending the closing events to an open, unfinished trace makes a
/// finished trace.
proof fn lemma_trace_finish(pre: Seq<EventModel>, add: Seq<EventModel>, done_off: int)
    requires
        pre.len() > 0,
        pre[0] is Open,
        forall|i: int| 1 <= i < pre.len() ==> !((#[trigger] pre[i]) is Open),
        forall|i: int| 0 <= i < pre.len() ==> !((#[trigger] pre[i]) is Done),
        0 <= done_off < add.len(),
        add[done_off] is Done,
        forall|i: int| 0 <= i < add.len() ==> !((#[trigger] add[i]) is Open),
        forall|i: int| 0 <= i < add.len() && i != done_off ==> !((#[trigger] add[i]) is Done),
        forall|i: int| done_off < i < add.len() ==> ((#[trigger] add[i]) is Progress),
    ensures
        (pre + add).len() > 0,
        (pre + add)[0] is Open,
        forall|i: int| 1 <= i < (pre + add).len() ==> !((#[trigger] (pre + add)[i]) is Open),
        (pre + add)[pre.len() + done_off] is Done,
        forall|i: int|
            0 <= i < (pre + add).len() && i != pre.len() + done_off ==> !((#[trigger] (pre
                + add)[i]) is Done),
        forall|i: int|
            pre.len() + done_off < i < (pre + add).len() ==> ((#[trigger] (pre
                + add)[i]) is Progress),
{
    assert((pre + add)[0] == pre[0]);
    assert forall|i: int| 1 <= i < (pre + add).len() implies !((#[trigger] (pre
        + add)[i]) is Open) by {
        if i < pre.len() {
            assert((pre + add)[i] == pre[i]);
        } else {
            assert((pre + add)[i] == add[i - pre.len()]);
            assert(!((add[i - pre.len()]) is Open));
        }
    }
    assert forall|i: int|
        0 <= i < (pre + add).len() && i != pre.len() + done_off implies !((#[trigger] (pre
        + add)[i]) is Done) by {
        if i < pre.len() {
            assert((pre + add)[i] == pre[i]);
        } else {
            assert((pre + add)[i] == add[i - pre.len()]);
            assert(!((add[i - pre.len()]) is Done));
        }
    }
    assert forall|i: int| pre.len() + done_off < i < (pre + add).len() implies ((#[trigger] (pre
        + add)[i]) is Progress) by {
        assert((pre + add)[i] == add[i - pre.len()]);
    }
    assert((pre + add)[pre.len() + done_off] == add[done_off]);
}

/// One streaming run: interprets the SSE byte stream and produces the
/// normalized frontend event sequence.
///
/// The `emitted` trace records every event handed out; the structural
/// invariant [`StreamSession::wf`] guarantees the frontend ordering: the
/// first event of an opened stream is `Open`, `Done` is emitted exactly
/// once, on finish, and nothing but the final progress report follows it.
pub struct StreamSession {
    pub state: StreamState,
    pub usage: Option<JsonValue>,
    pub parser: SseParser,
    pub opened: bool,
    pub finished: bool,
    pub done_seen: bool,
    pub emitted: Ghost<Seq<EventModel>>,
    pub done_at: Ghost<int>,
}

impl StreamSession {
    /// The structural trace invariant of a streaming run.
    pub open spec fn wf(self) -> bool {
        &&& (!self.opened ==> self.emitted@.len() == 0 && !self.finished)
        &&& (self.opened ==> self.emitted@.len() > 0 && self.emitted@[0] is Open)
        &&& (forall|i: int|
            1 <= i < self.emitted@.len() ==> !((#[trigger] self.emitted@[i]) is Open))
        &&& (!self.finished ==> (forall|i: int|
            0 <= i < self.emitted@.len() ==> !((#[trigger] self.emitted@[i]) is Done)))
        &&& (self.finished ==> {
            &&& self.opened
            &&& 0 <= self.done_at@ < self.emitted@.len()
            &&& self.emitted@[self.done_at@] is Done
            &&& (forall|i: int|
                0 <= i < self.emitted@.len() && i != self.done_at@ ==> !((
                #[trigger] self.emitted@[i]) is Done))
            &&& (forall|i: int|
                self.done_at@ < i < self.emitted@.len() ==> ((
                #[trigger] self.emitted@[i]) is Progress))
        })
    }

    /// A run that has not started.
    pub fn new() -> (r: StreamSession)
        ensures
            r.wf(),
            !r.opened,
            !r.finished,
            !r.done_seen,
            r.state@ == init_state(),
            r.usage is None,
            r.parser.line_buffer@ =~= Seq::<char>::empty(),
            lines_view(r.parser.data_lines@) =~= Seq::<Seq<char>>::empty(),
            r.emitted@ =~= Seq::<EventModel>::empty(),
    {
        StreamSession {
            state: StreamState::init(),
            usage: None,
            parser: SseParser::new(),
            opened: false,
            finished: false,
            done_seen: false,
            emitted: Ghost(Seq::empty()),
            done_at: Ghost(0),
        }
    }

    /// Opens the stream: the opening event and the initial progress
    /// report.
    pub fn open(&mut self) -> (r: Vec<FrontendEvent>)
        requires
            old(self).wf(),
            !old(self).opened,
        ensures
            final(self).wf(),
            final(self).opened,
            !final(self).finished,
            final(self).done_seen == old(self).done_seen,
            final(self).state == old(self).state,
            final(self).usage == old(self).usage,
            final(self).parser == old(self).parser,
            events_view(r@) =~= seq![
                EventModel::Open,
                EventModel::Progress {
                    percent: 5,
                    stage: "Rehydrating context"@,
                    tools_completed: 0,
                    tools_total: 0,
                },
            ],
            final(self).emitted@ == old(self).emitted@ + events_view(r@),
    {
        self.opened = true;
        let mut out: Vec<FrontendEvent> = Vec::new();
        out.push(FrontendEvent::Open);
        out.push(
            FrontendEvent::Progress {
                percent: 5,
                stage: String::from_str("Rehydrating context"),
                tools_completed: 0,
                tools_total: 0,
            },
        );
        proof {
            self.emitted@ = self.emitted@ + events_view(out@);
            assert(events_view(out@) =~= seq![
                EventModel::Open,
                EventModel::Progress {
                    percent: 5,
                    stage: "Rehydrating context"@,
                    tools_completed: 0,
                    tools_total: 0,
                },
            ]);
            assert(self.emitted@.len() == old(self).emitted@.len() + 2);
            assert(self.emitted@[0] is Open);
        }
        out
    }

    /// Reports a degraded history replay as an informational tool event.
    pub fn replay_degraded(&mut self, err: &str) -> (r: Vec<FrontendEvent>)
        requires
            old(self).wf(),
            old(self).opened,
            !old(self).finished,
        ensures
            final(self).wf(),
            final(self).opened,
            !final(self).finished,
            final(self).done_seen == old(self).done_seen,
            final(self).state == old(self).state,
            final(self).usage == old(self).usage,
            final(self).parser == old(self).parser,
            events_view(r@) =~= seq![
                EventModel::Tool {
                    phase: ToolPhase::Info,
                    name: "context_replay"@,
                    query: None,
                    detail: Some("Replay degraded: "@ + truncate_spec(err@, 240)),
                },
            ],
            final(self).emitted@ == old(self).emitted@ + events_view(r@),
    {
        let mut detail = String::from_str("Replay degraded: ");
        detail = detail.concat(truncate(err, 240).as_str());
        let mut out: Vec<FrontendEvent> = Vec::new();
        out.push(
            FrontendEvent::Tool {
                phase: ToolPhase::Info,
                name: String::from_str("context_replay"),
                query: None,
                detail: Some(detail),
            },
        );
        proof {
            assert(mid_only(events_view(out@)));
            lemma_trace_extend_mid(old(self).emitted@, events_view(out@));
            self.emitted@ = self.emitted@ + events_view(out@);
        }
        out
    }

    /// Reports the initial interpretation progress once the stream
    /// connection succeeded.
    pub fn sse_connected(&mut self) -> (r: Vec<FrontendEvent>)
        requires
            old(self).wf(),
            old(self).opened,
            !old(self).finished,
        ensures
            final(self).wf(),
            final(self).opened,
            !final(self).finished,
            final(self).done_seen == old(self).done_seen,
            final(self).usage == old(self).usage,
            final(self).parser == old(self).parser,
            final(self).state@ == spec_progress_step(old(self).state@, false).state,
            events_view(r@) == (match spec_progress_step(old(self).state@, false).event {
                Some(e) => seq![e],
                None => Seq::<EventModel>::empty(),
            }),
            final(self).emitted@ == old(self).emitted@ + events_view(r@),
    {
        let mut out: Vec<FrontendEvent> = Vec::new();
        match emit_progress_if_changed(&mut self.state, false) {
            Some(e) => {
                out.push(e);
                proof {
                    assert(events_view(out@) =~= seq![out@[0]@]);
                }
            },
            None => {
                proof {
                    assert(events_view(out@) =~= Seq::<EventModel>::empty());
                }
            },
        }
        proof {
            assert(mid_only(events_view(out@)));
            lemma_trace_extend_mid(old(self).emitted@, events_view(out@));
            self.emitted@ = self.emitted@ + events_view(out@);
        }
        out
    }

    /// Feeds one chunk of SSE stream text: completed frames are parsed
    /// and their events interpreted; a `[DONE]` payload marks the end of
    /// the stream and later frames of the chunk are not interpreted.
    pub fn feed_chunk(&mut self, chunk: &str) -> (r: Vec<FrontendEvent>)
        requires
            old(self).wf(),
            old(self).opened,
            !old(self).finished,
            !old(self).done_seen,
        ensures
            final(self).wf(),
            final(self).opened,
            !final(self).finished,
            ({
                let all = old(self).parser.line_buffer@ + chunk@;
                let split = split_lines(all);
                let pfold = lines_fold(lines_view(old(self).parser.data_lines@), split.0);
                let run = frames_fold(old(self).state@, old(self).usage, pfold.1);
                &&& final(self).parser.line_buffer@ == split.1
                &&& lines_view(final(self).parser.data_lines@) == pfold.0
                &&& final(self).state@ == run.state
                &&& final(self).usage == run.usage
                &&& final(self).done_seen == run.done
                &&& events_view(r@) == run.events
                &&& final(self).emitted@ == old(self).emitted@ + run.events
            }),
    {
        let ghost all = self.parser.line_buffer@ + chunk@;
        let ghost dl0 = lines_view(self.parser.data_lines@);
        let frames = self.parser.feed_chunk(chunk);
        let ghost fv = lines_view(frames@);
        let ghost target = frames_fold(old(self).state@, old(self).usage, fv);
        let mut out: Vec<FrontendEvent> = Vec::new();
        let n = frames.len();
        let mut i: usize = 0;
        proof {
            assert(fv.skip(0) =~= fv);
            assert(events_view(out@) =~= Seq::<EventModel>::empty());
        }
        while i < n
            invariant
                n == frames@.len(),
                i <= n,
                fv == lines_view(frames@),
                all == old(self).parser.line_buffer@ + chunk@,
                dl0 == lines_view(old(self).parser.data_lines@),
                !self.done_seen,
                old(self).wf(),
                old(self).opened,
                !old(self).finished,
                self.opened,
                !self.finished,
                self.parser.line_buffer@ == split_lines(all).1,
                lines_view(self.parser.data_lines@) == lines_fold(dl0, split_lines(all).0).0,
                fv == lines_fold(dl0, split_lines(all).0).1,
                target == frames_fold(old(self).state@, old(self).usage, fv),
                ({
                    let rest = frames_fold(self.state@, self.usage, fv.skip(i as int));
                    &&& target.state == rest.state
                    &&& target.usage == rest.usage
                    &&& target.done == rest.done
                    &&& target.events == events_view(out@) + rest.events
                }),
                self.emitted@ == old(self).emitted@,
                self.done_at@ == old(self).done_at@,
            decreases n - i,
        {
            proof {
                assert(fv.skip(i as int)[0] == fv[i as int]);
                assert(fv[i as int] == frames@[i as int]@);
                assert(fv.skip(i as int).drop_first() =~= fv.skip(i + 1 as int));
            }
            let (mut produced, done) = run_frame(&mut self.state, &mut self.usage, frames[i].as_str());
            let ghost outpre = events_view(out@);
            let ghost prodv = events_view(produced@);
            out.append(&mut produced);
            proof {
                assert(events_view(out@) =~= outpre + prodv);
            }
            if done {
                self.done_seen = true;
                proof {
                    lemma_mid_frames_fold(old(self).state@, old(self).usage, fv);
                    assert(events_view(out@) =~= target.events);
                    lemma_trace_extend_mid(old(self).emitted@, events_view(out@));
                    self.emitted@ = self.emitted@ + events_view(out@);
                }
                return out;
            }
            proof {
                assert((outpre + prodv) + frames_fold(
                    self.state@,
                    self.usage,
                    fv.skip(i + 1 as int),
                ).events =~= outpre + (prodv + frames_fold(
                    self.state@,
                    self.usage,
                    fv.skip(i + 1 as int),
                ).events));
            }
            i += 1;
        }
        proof {
            assert(fv.skip(n as int) =~= Seq::<Seq<char>>::empty());
            assert(frames_fold(self.state@, self.usage, fv.skip(n as int)).events =~= Seq::<
                EventModel,
            >::empty());
            assert(events_view(out@) + Seq::<EventModel>::empty() =~= events_view(out@));
            lemma_mid_frames_fold(old(self).state@, old(self).usage, fv);
            assert(events_view(out@) =~= target.events);
            lemma_trace_extend_mid(old(self).emitted@, events_view(out@));
            self.emitted@ = self.emitted@ + events_view(out@);
        }
        out
    }

    /// Flushes the residual buffered frame once the byte stream closed.
    pub fn flush_end(&mut self) -> (r: Vec<FrontendEvent>)
        requires
            old(self).wf(),
            old(self).opened,
            !old(self).finished,
        ensures
            final(self).wf(),
            final(self).opened,
            !final(self).finished,
            ({
                let frame = flush_frame(
                    lines_view(old(self).parser.data_lines@),
                    old(self).parser.line_buffer@,
                );
                if old(self).done_seen {
                    &&& final(self).state == old(self).state
                    &&& final(self).usage == old(self).usage
                    &&& events_view(r@) =~= Seq::<EventModel>::empty()
                    &&& final(self).emitted@ == old(self).emitted@
                } else {
                    match frame {
                        Some(payload) => {
                            let f = frame_step(old(self).state@, old(self).usage, payload);
                            &&& final(self).state@ == f.state
                            &&& final(self).usage == f.usage
                            &&& events_view(r@) == f.events
                            &&& final(self).emitted@ == old(self).emitted@ + f.events
                        },
                        None => {
                            &&& final(self).state == old(self).state
                            &&& final(self).usage == old(self).usage
                            &&& events_view(r@) =~= Seq::<EventModel>::empty()
                            &&& final(self).emitted@ == old(self).emitted@
                        },
                    }
                }
            }),
    {
        let mut out: Vec<FrontendEvent> = Vec::new();
        proof {
            assert(events_view(out@) =~= Seq::<EventModel>::empty());
        }
        if self.done_seen {
            return out;
        }
        let frame = self.parser.flush();
        match frame {
            Some(payload) => {
                let (produced, _ignored_done) = run_frame(
                    &mut self.state,
                    &mut self.usage,
                    payload.as_str(),
                );
                proof {
                    lemma_mid_frame_step(old(self).state@, old(self).usage, payload@);
                    lemma_trace_extend_mid(old(self).emitted@, events_view(produced@));
                    self.emitted@ = self.emitted@ + events_view(produced@);
                }
                produced
            },
            None => out,
        }
    }

    /// Closes the stream: an error event when the run was cancelled, the
    /// closing event with the captured usage, and the final progress
    /// report. The run completed when it was not cancelled and no
    /// upstream error was seen.
    pub fn finish_stream(&mut self, cancelled: bool) -> (r: (Vec<FrontendEvent>, StreamOutcome))
        requires
            old(self).wf(),
            old(self).opened,
            !old(self).finished,
        ensures
            final(self).wf(),
            final(self).finished,
            events_view(r.0@) == (if cancelled {
                seq![EventModel::Error { message: "Run cancelled."@, retryable: false }]
            } else {
                Seq::<EventModel>::empty()
            }) + seq![EventModel::Done { usage: old(self).usage }] + (match spec_progress_step(
                old(self).state@,
                true,
            ).event {
                Some(e) => seq![e],
                None => Seq::<EventModel>::empty(),
            }),
            final(self).emitted@ == old(self).emitted@ + events_view(r.0@),
            r.1 == (if cancelled || old(self).state@.saw_error {
                StreamOutcome::Failed
            } else {
                StreamOutcome::Completed
            }),
    {
        let mut out: Vec<FrontendEvent> = Vec::new();
        if cancelled {
            out.push(
                FrontendEvent::Error {
                    message: String::from_str("Run cancelled."),
                    retryable: false,
                },
            );
        }
        let mut usage_taken: Option<JsonValue> = None;
        core::mem::swap(&mut usage_taken, &mut self.usage);
        let ghost done_idx = out@.len() as int;
        out.push(FrontendEvent::Done { usage: usage_taken });
        match emit_progress_if_changed(&mut self.state, true) {
            Some(e) => {
                out.push(e);
            },
            None => {},
        }
        let outcome = if cancelled || self.state.saw_error {
            StreamOutcome::Failed
        } else {
            StreamOutcome::Completed
        };
        proof {
            self.done_at@ = old(self).emitted@.len() as int + done_idx;
            assert(forall|i: int|
                0 <= i < events_view(out@).len() ==> !((#[trigger] events_view(
                    out@,
                )[i]) is Open));
            assert(events_view(out@)[done_idx] is Done);
            assert(forall|i: int|
                0 <= i < events_view(out@).len() && i != done_idx ==> !(#[trigger] events_view(
                    out@,
                )[i] is Done));
            assert(forall|i: int|
                done_idx < i < events_view(out@).len() ==> (#[trigger] events_view(
                    out@,
                )[i] is Progress));
            lemma_trace_finish(old(self).emitted@, events_view(out@), done_idx);
            self.emitted@ = self.emitted@ + events_view(out@);
            assert(events_view(out@) =~= (if cancelled {
                seq![EventModel::Error { message: "Run cancelled."@, retryable: false }]
            } else {
                Seq::<EventModel>::empty()
            }) + seq![EventModel::Done { usage: old(self).usage }] + (match spec_progress_step(
                old(self).state@,
                true,
            ).event {
                Some(e) => seq![e],
                None => Seq::<EventModel>::empty(),
            }));
        }
        self.finished = true;
        (out, outcome)
    }

    /// Fails the stream: the error event, then the closing event with no
    /// usage.
    pub fn fail_with_error(&mut self, message: String, retryable: bool) -> (r: Vec<
        FrontendEvent,
    >)
        requires
            old(self).wf(),
            old(self).opened,
            !old(self).finished,
        ensures
            final(self).wf(),
            final(self).finished,
            events_view(r@) =~= seq![
                EventModel::Error { message: message@, retryable },
                EventModel::Done { usage: None },
            ],
            final(self).emitted@ == old(self).emitted@ + events_view(r@),
    {
        let mut out: Vec<FrontendEvent> = Vec::new();
        out.push(FrontendEvent::Error { message, retryable });
        out.push(FrontendEvent::Done { usage: None });
        proof {
            self.done_at@ = old(self).emitted@.len() as int + 1;
            assert(events_view(out@)[1] is Done);
            assert(!(events_view(out@)[0] is Done));
            assert(!(events_view(out@)[0] is Open));
            assert(!(events_view(out@)[1] is Open));
            lemma_trace_finish(old(self).emitted@, events_view(out@), 1);
            self.emitted@ = self.emitted@ + events_view(out@);
        }
        self.finished = true;
        out
    }

    /// Interprets a non-streaming `/run` response body: the initial
    /// progress report, then each extracted event. Fails when the body is
    /// not JSON or has no event list.
    pub fn fallback_events(&mut self, body: &str) -> (r: Result<Vec<FrontendEvent>, String>)
        requires
            old(self).wf(),
            old(self).opened,
            !old(self).finished,
        ensures
            final(self).wf(),
            final(self).opened,
            !final(self).finished,
            ({
                match json_parse_of(body@) {
                    None => {
                        &&& r matches Err(m) && m@ == "Failed to parse fallback /run response. Body: "@
                            + truncate_spec(body@, 500)
                        &&& final(self).state == old(self).state
                        &&& final(self).usage == old(self).usage
                        &&& final(self).emitted@ == old(self).emitted@
                    },
                    Some(v) => {
                        match spec_run_events(v) {
                            None => {
                                &&& r matches Err(m) && m@ == "Unexpected /run response shape: "@
                                    + spec_json_shape(v)
                                &&& final(self).state == old(self).state
                                &&& final(self).usage == old(self).usage
                                &&& final(self).emitted@ == old(self).emitted@
                            },
                            Some(items) => {
                                let ps = spec_progress_step(old(self).state@, false);
                                let pe: Seq<EventModel> = match ps.event {
                                    Some(e) => seq![e],
                                    None => Seq::<EventModel>::empty(),
                                };
                                let ef = events_fold(ps.state, old(self).usage, items);
                                &&& r matches Ok(evs) && events_view(evs@) == pe + ef.events
                                &&& final(self).state@ == ef.state
                                &&& final(self).usage == ef.usage
                                &&& final(self).emitted@ == old(self).emitted@ + pe + ef.events
                            },
                        }
                    },
                }
            }),
    {
        let parsed = parse_json(body);
        let parsed2 = parse_json(body);
        let v = match parsed {
            Some(v) => v,
            None => {
                let mut m = String::from_str("Failed to parse fallback /run response. Body: ");
                m = m.concat(truncate(body, 500).as_str());
                return Err(m);
            },
        };
        let v2 = match parsed2 {
            Some(v2) => v2,
            None => {
                proof {
                    assert(false);
                }
                return Err(String::new());
            },
        };
        let shape = summarize_json_shape(&v);
        let (mut evs, mut evs2) = match extract_run_events(v) {
            Some(items) => {
                let items2 = match extract_run_events(v2) {
                    Some(items2) => items2,
                    None => {
                        proof {
                            assert(false);
                        }
                        Vec::new()
                    },
                };
                (items, items2)
            },
            None => {
                let mut m = String::from_str("Unexpected /run response shape: ");
                m = m.concat(shape.as_str());
                return Err(m);
            },
        };
        let mut out: Vec<FrontendEvent> = Vec::new();
        match emit_progress_if_changed(&mut self.state, false) {
            Some(e) => {
                out.push(e);
                proof {
                    assert(events_view(out@) =~= seq![out@[0]@]);
                }
            },
            None => {
                proof {
                    assert(events_view(out@) =~= Seq::<EventModel>::empty());
                }
            },
        }
        let ghost pe = events_view(out@);
        let ghost st1 = self.state@;
        let ghost u1 = self.usage;
        let ghost all = evs@;
        proof {
            assert(evs@ =~= evs2@);
            assert(all.skip(0) =~= all);
            assert(events_view(out@).take(pe.len() as int) =~= pe);
            assert(events_view(out@).skip(pe.len() as int) =~= Seq::<EventModel>::empty());
        }
        while evs.len() > 0
            invariant
                evs@ == evs2@,
                self.opened == old(self).opened,
                self.finished == old(self).finished,
                self.done_seen == old(self).done_seen,
                self.parser == old(self).parser,
                self.emitted == old(self).emitted,
                self.done_at == old(self).done_at,
                pe.len() <= events_view(out@).len(),
                events_view(out@).take(pe.len() as int) == pe,
                events_fold(self.state@, self.usage, evs@).state == events_fold(
                    st1,
                    u1,
                    all,
                ).state,
                events_fold(self.state@, self.usage, evs@).usage == events_fold(
                    st1,
                    u1,
                    all,
                ).usage,
                events_view(out@).skip(pe.len() as int) + events_fold(
                    self.state@,
                    self.usage,
                    evs@,
                ).events == events_fold(st1, u1, all).events,
            decreases evs@.len(),
        {
            let ghost pre_evs = evs@;
            let ghost stp = self.state@;
            let ghost up = self.usage;
            let e = evs.remove(0);
            let e2 = evs2.remove(0);
            proof {
                assert(evs@ =~= pre_evs.drop_first());
                assert(evs2@ =~= pre_evs.drop_first());
            }
            let mut produced = process_event(&mut self.state, e, e2, &mut self.usage);
            proof {
                assert(self.state@ == spec_process_event(stp, pre_evs[0], up).state);
                assert(self.usage == spec_process_event(stp, pre_evs[0], up).usage);
            }
            let ghost outpre = out@;
            let ghost prodv = events_view(produced@);
            out.append(&mut produced);
            proof {
                assert(events_view(out@) =~= events_view(outpre) + prodv);
                assert(events_view(out@).take(pe.len() as int) =~= events_view(outpre).take(
                    pe.len() as int,
                ));
                assert(events_view(out@).skip(pe.len() as int) =~= events_view(outpre).skip(
                    pe.len() as int,
                ) + prodv);
                assert((events_view(outpre).skip(pe.len() as int) + prodv) + events_fold(
                    self.state@,
                    self.usage,
                    evs@,
                ).events =~= events_view(outpre).skip(pe.len() as int) + (prodv + events_fold(
                    self.state@,
                    self.usage,
                    evs@,
                ).events));
            }
        }
        proof {
            assert(evs@ =~= Seq::<JsonValue>::empty());
            assert(events_fold(self.state@, self.usage, evs@).events =~= Seq::<
                EventModel,
            >::empty());
            assert(events_view(out@).skip(pe.len() as int) + Seq::<EventModel>::empty()
                =~= events_view(out@).skip(pe.len() as int));
            assert(events_view(out@) =~= events_view(out@).take(pe.len() as int) + events_view(
                out@,
            ).skip(pe.len() as int));
            lemma_mid_events_fold(st1, u1, all);
            match spec_progress_step(old(self).state@, false).event {
                Some(e) => {
                    assert(!(e is Open) && !(e is Done));
                    assert(mid_only(pe));
                },
                None => {
                    assert(mid_only(pe));
                },
            }
            lemma_mid_concat(pe, events_fold(st1, u1, all).events);
            assert(events_view(out@) =~= pe + events_fold(st1, u1, all).events);
            lemma_trace_extend_mid(old(self).emitted@, events_view(out@));
            self.emitted@ = self.emitted@ + events_view(out@);
            assert(self.emitted@ =~= old(self).emitted@ + pe + events_fold(
                st1,
                u1,
                all,
            ).events);
        }
        Ok(out)
    }

    /// Whether the `[DONE]` sentinel has been seen.
    pub fn is_done_seen(&self) -> (r: bool)
        ensures
            r == self.done_seen,
    {
        self.done_seen
    }
}

/// Once a stream has finished, its trace opens with the opening event,
/// holds exactly one closing event, and after the closing event nothing
/// but the final progress report follows.
pub proof fn lemma_stream_event_ordering(m: StreamSession)
    requires
        m.wf(),
        m.finished,
    ensures
        m.emitted@.len() > 0,
        m.emitted@[0] is Open,
        exists|d: int|
            {
                &&& 0 <= d < m.emitted@.len()
                &&& (#[trigger] m.emitted@[d]) is Done
                &&& forall|j: int|
                    0 <= j < m.emitted@.len() && j != d ==> !((#[trigger] m.emitted@[j]) is Done)
                &&& forall|j: int| d < j < m.emitted@.len() ==> m.emitted@[j] is Progress
            },
{
    let d = m.done_at@;
    assert({
        &&& 0 <= d < m.emitted@.len()
        &&& (#[trigger] m.emitted@[d]) is Done
        &&& forall|j: int|
            0 <= j < m.emitted@.len() && j != d ==> !((#[trigger] m.emitted@[j]) is Done)
        &&& forall|j: int| d < j < m.emitted@.len() ==> m.emitted@[j] is Progress
    });
}

} // verus!

use crate::session_store::{new_uuid, ReplayMessage};

verus! {

/// Whether an HTTP status is a success.
pub fn is_success_status(status: u16) -> (r: bool)
    ensures
        r == (200 <= status < 300),
{
    200 <= status && status < 300
}

/// Whether a failed `/run_sse` status means streaming is unsupported and
/// the non-streaming fallback applies.
pub fn sse_fallback_allowed(status: u16) -> (r: bool)
    ensures
        r == (status == 404 || status == 405 || status == 501),
{
    status == 404 || status == 405 || status == 501
}

/// An optional `| backend:` suffix carrying a truncated body excerpt,
/// absent when the body is blank.
pub open spec fn spec_backend_excerpt(body: Seq<char>, max: int) -> Seq<char> {
    if trim_seq(body).len() == 0 {
        Seq::empty()
    } else {
        " | backend: "@ + truncate_spec(body, max)
    }
}

/// Builds the optional backend excerpt suffix.
fn backend_excerpt(body: &str, max: usize) -> (r: String)
    ensures
        r@ == spec_backend_excerpt(body@, max as int),
{
    let t = trim_str(body);
    if t.unicode_len() == 0 {
        String::new()
    } else {
        let mut out = String::from_str(" | backend: ");
        out = out.concat(truncate(body, max).as_str());
        proof {
            assert(out@ =~= " | backend: "@ + truncate_spec(body@, max as int));
        }
        out
    }
}

/// The failure detail of a rejected `/run_sse` request.
pub fn run_sse_status_message(status: u16, body: &str) -> (r: String)
    ensures
        r@ == "/run_sse returned "@ + dec_str(status as int) + spec_backend_excerpt(body@, 800),
{
    let mut out = String::from_str("/run_sse returned ");
    out = out.concat(usize_to_string(status as usize).as_str());
    out = out.concat(backend_excerpt(body, 800).as_str());
    proof {
        assert(out@ =~= "/run_sse returned "@ + dec_str(status as int) + spec_backend_excerpt(
            body@,
            800,
        ));
    }
    out
}

/// The stream error reported when the SSE transport fails.
pub fn sse_stream_failed_message(detail: &str) -> (r: String)
    ensures
        r@ == "SSE stream failed: "@ + detail@,
{
    String::from_str("SSE stream failed: ").concat(detail)
}

/// The stream error reported when streaming was unsupported and the
/// non-streaming fallback failed too.
pub fn fallback_failed_message(sse_status: u16, run_status: u16, body: &str) -> (r: String)
    ensures
        r@ == "Streaming failed with HTTP "@ + dec_str(sse_status as int)
            + " and fallback /run returned "@ + dec_str(run_status as int) + spec_backend_excerpt(
            body@,
            800,
        ),
{
    let mut out = String::from_str("Streaming failed with HTTP ");
    out = out.concat(usize_to_string(sse_status as usize).as_str());
    out = out.concat(" and fallback /run returned ");
    out = out.concat(usize_to_string(run_status as usize).as_str());
    out = out.concat(backend_excerpt(body, 800).as_str());
    proof {
        assert(out@ =~= "Streaming failed with HTTP "@ + dec_str(sse_status as int)
            + " and fallback /run returned "@ + dec_str(run_status as int) + spec_backend_excerpt(
            body@,
            800,
        ));
    }
    out
}

/// The failure of the disposable execution-session create call.
pub fn adk_session_failed_message(status: u16, body: &str) -> (r: String)
    ensures
        r@ == "Failed to create ADK execution session (HTTP "@ + dec_str(status as int) + ")"@
            + spec_backend_excerpt(body@, 500),
{
    let mut out = String::from_str("Failed to create ADK execution session (HTTP ");
    out = out.concat(usize_to_string(status as usize).as_str());
    out = out.concat(")");
    out = out.concat(backend_excerpt(body, 500).as_str());
    proof {
        assert(out@ =~= "Failed to create ADK execution session (HTTP "@ + dec_str(
            status as int,
        ) + ")"@ + spec_backend_excerpt(body@, 500));
    }
    out
}

/// The failure of one history replay request that got an error status.
pub fn replay_status_message(index: usize, total: usize, status: u16, body: &str) -> (r: String)
    ensures
        r@ == "Replay request "@ + dec_str(index as int) + " of "@ + dec_str(total as int)
            + " returned "@ + dec_str(status as int) + spec_backend_excerpt(body@, 500),
{
    let mut out = String::from_str("Replay request ");
    out = out.concat(usize_to_string(index).as_str());
    out = out.concat(" of ");
    out = out.concat(usize_to_string(total).as_str());
    out = out.concat(" returned ");
    out = out.concat(usize_to_string(status as usize).as_str());
    out = out.concat(backend_excerpt(body, 500).as_str());
    proof {
        assert(out@ =~= "Replay request "@ + dec_str(index as int) + " of "@ + dec_str(
            total as int,
        ) + " returned "@ + dec_str(status as int) + spec_backend_excerpt(body@, 500));
    }
    out
}

/// The failure of one history replay request that could not be sent.
pub fn replay_send_message(index: usize, total: usize, detail: &str) -> (r: String)
    ensures
        r@ == "Failed replay request "@ + dec_str(index as int) + " of "@ + dec_str(total as int)
            + ": "@ + detail@,
{
    let mut out = String::from_str("Failed replay request ");
    out = out.concat(usize_to_string(index).as_str());
    out = out.concat(" of ");
    out = out.concat(usize_to_string(total).as_str());
    out = out.concat(": ");
    out = out.concat(detail);
    proof {
        assert(out@ =~= "Failed replay request "@ + dec_str(index as int) + " of "@ + dec_str(
            total as int,
        ) + ": "@ + detail@);
    }
    out
}

/// The text a history message is replayed with: user messages verbatim,
/// model output prefixed as a previous assistant response, anything else
/// prefixed as previous context.
pub open spec fn spec_replay_text(role: Seq<char>, text: Seq<char>) -> Seq<char> {
    let r = trim_seq(lower_seq(role));
    if r == "user"@ {
        text
    } else if r == "assistant"@ || r == "model"@ {
        "Previous assistant response:\n"@ + text
    } else {
        "Previous context:\n"@ + text
    }
}

/// Builds the replayed form of a history message.
pub fn replay_text(message: &ReplayMessage) -> (r: String)
    ensures
        r@ == spec_replay_text(message.role@, message.text@),
{
    let lowered = lower_str(message.role.as_str());
    let role = trim_str(lowered.as_str());
    if str_eq(role, "user") {
        return message.text.clone();
    }
    if str_eq(role, "assistant") || str_eq(role, "model") {
        let out = String::from_str("Previous assistant response:\n").concat(
            message.text.as_str(),
        );
        return out;
    }
    String::from_str("Previous context:\n").concat(message.text.as_str())
}

/// A fresh disposable execution-session id with the `adk-` prefix.
pub fn new_adk_session_id() -> (r: String)
    ensures
        r@.len() == 40,
        r@.take(4) == "adk-"@,
{
    let mut id = String::from_str("adk-");
    id = id.concat(new_uuid().as_str());
    proof {
        reveal_strlit("adk-");
        assert(id@.take(4) =~= "adk-"@);
    }
    id
}

/// Within one run in which no tool call starts after another completes —
/// the tool total stays fixed while completions and model text only
/// accumulate — the inferred progress percentage never decreases, and a
/// finished run reports 100. (When a new tool call starts after model
/// text was seen, the percentage may drop; the claim is restricted to
/// runs without that.)
pub proof fn lemma_progress_monotone(s1: StateModel, s2: StateModel)
    requires
        0 <= s1.tools_completed <= s1.tools_started,
        0 <= s2.tools_completed <= s2.tools_started,
        s1.tools_started == s2.tools_started,
        s1.tools_completed <= s2.tools_completed,
        s1.saw_model_text ==> s2.saw_model_text,
    ensures
        progress_percent(s1, false) <= progress_percent(s2, false),
        progress_percent(s1, false) <= 100,
        progress_percent(s2, true) == 100,
{
    lemma_progress_percent_bounds(s1, false);
    let t = s1.tools_started;
    if t > 0 {
        let c1 = s1.tools_completed;
        let c2 = s2.tools_completed;
        if c2 < t {
            assert((110 * c1 + t) / (2 * t) <= (110 * c2 + t) / (2 * t)) by (nonlinear_arith)
                requires
                    0 <= c1 <= c2,
                    0 < t,
            ;
        } else if c1 < t {
            assert((110 * c1 + t) / (2 * t) <= 56) by (nonlinear_arith)
                requires
                    0 <= c1 < t,
            ;
        }
    }
}

} // verus!
