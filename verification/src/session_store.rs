//! The local session store: sessions, messages and the phase lifecycle,
//! persisted in an embedded SQLite database through `rusqlite`.
//!
//! The database calls stand behind trusted wrappers that promise nothing
//! about what the database returns; every decision on the returned rows —
//! parsing, ordering, title inference, the replay window, the run-mode
//! gate — is verified logic on plain values.

use vstd::prelude::*;

use crate::text::{lower_seq, normalize_spec, squash_spec, starts_with_seq, trim_seq};
use crate::text::{lower_str, normalize_text, squash_ws, str_eq, trim_str};
use crate::types::run_mode_as_str;
use crate::types::{
    RunMode, SessionCreateInput, SessionListInput, SessionMessage, SessionMessageAppendInput,
    SessionMeta, SessionPhase, SessionPhaseState,
};

verus! {

/// A value read from a database row.
#[derive(Debug, PartialEq)]
pub enum DbValue {
    Null,
    Int(i64),
    Text(String),
}

/// A parameter bound into a statement.
#[derive(Debug)]
pub enum DbParam {
    Null,
    Int(i64),
    Text(String),
}

#[verifier::external_type_specification]
#[verifier::external_body]
pub struct ExConnection(rusqlite::Connection);

#[verifier::external_type_specification]
#[verifier::external_body]
pub struct ExSqlValue(rusqlite::types::Value);

#[verifier::external_type_specification]
#[verifier::external_body]
pub struct ExSqlRow<'a>(rusqlite::Row<'a>);

/// Relies on the shape of `rusqlite::types::Value`: binds a parameter as
/// the matching SQL value, one arm per variant.
#[verifier::external_body]
fn to_sql_value(p: &DbParam) -> rusqlite::types::Value {
    match p {
        DbParam::Null => rusqlite::types::Value::Null,
        DbParam::Int(v) => rusqlite::types::Value::Integer(*v),
        DbParam::Text(s) => rusqlite::types::Value::Text(s.clone()),
    }
}

/// Relies on `rusqlite::Connection::open`: opens (creating when missing)
/// the database at the given path.
#[verifier::external_body]
fn db_open(path: &str) -> (r: Result<rusqlite::Connection, String>) {
    rusqlite::Connection::open(path).map_err(|e| e.to_string())
}

/// Relies on `rusqlite::Connection::execute`: runs one SQL statement with
/// the given parameters; an `Ok` result counts the rows the statement
/// changed.
#[verifier::external_body]
fn db_execute(conn: &rusqlite::Connection, sql: &str, params: &Vec<DbParam>) -> (r: Result<
    usize,
    String,
>) {
    let vals: Vec<rusqlite::types::Value> = params.iter().map(to_sql_value).collect();
    conn.execute(sql, rusqlite::params_from_iter(vals)).map_err(|e| e.to_string())
}

/// Relies on `rusqlite::Connection::execute_batch`: runs a batch of SQL
/// statements.
#[verifier::external_body]
fn db_execute_batch(conn: &rusqlite::Connection, sql: &str) -> (r: Result<(), String>) {
    conn.execute_batch(sql).map_err(|e| e.to_string())
}

/// Relies on the shape of `rusqlite::types::ValueRef` through
/// `Row::get_ref`: reads a row's columns as plain values, one arm per
/// variant (integers and text; other SQL types read as null).
#[verifier::external_body]
fn row_values(row: &rusqlite::Row<'_>, cols: usize) -> Vec<DbValue> {
    (0..cols).map(|i| match row.get_ref(i) {
        Ok(rusqlite::types::ValueRef::Integer(v)) => DbValue::Int(v),
        Ok(rusqlite::types::ValueRef::Text(t)) => DbValue::Text(
            String::from_utf8_lossy(t).into_owned(),
        ),
        _ => DbValue::Null,
    }).collect()
}

/// Relies on `rusqlite`'s `prepare` and `query`: runs one SQL query and
/// hands every row back as plain values.
#[verifier::external_body]
fn db_query(conn: &rusqlite::Connection, sql: &str, params: &Vec<DbParam>) -> (r: Result<
    Vec<Vec<DbValue>>,
    String,
>) {
    let vals: Vec<rusqlite::types::Value> = params.iter().map(to_sql_value).collect();
    let mut stmt = conn.prepare(sql).map_err(|e| e.to_string())?;
    let cols = stmt.column_count();
    let mut rows = stmt.query(rusqlite::params_from_iter(vals)).map_err(|e| e.to_string())?;
    let mut out: Vec<Vec<DbValue>> = Vec::new();
    while let Some(row) = rows.next().map_err(|e| e.to_string())? {
        out.push(row_values(row, cols));
    }
    Ok(out)
}

/// Relies on `std::time::SystemTime::now` and `duration_since`: the
/// current wall-clock time in milliseconds since the Unix epoch.
#[verifier::external_body]
fn now_ms() -> (r: i64) {
    let elapsed = std::time::SystemTime::now().duration_since(
        std::time::SystemTime::UNIX_EPOCH,
    ).unwrap_or_default();
    elapsed.as_millis() as i64
}

/// Relies on `uuid::Uuid::new_v4` and its `Display` form: a fresh random
/// v4 UUID in the hyphenated form, which is 36 characters long.
#[verifier::external_body]
pub(crate) fn new_uuid() -> (r: String)
    ensures
        r@.len() == 36,
{
    uuid::Uuid::new_v4().to_string()
}

/// One message of the replay window.
#[derive(Debug, PartialEq)]
pub struct ReplayMessage {
    pub role: String,
    pub text: String,
}

/// The mathematical shape of a replay message.
pub ghost struct ReplayModel {
    pub role: Seq<char>,
    pub text: Seq<char>,
}

impl View for ReplayMessage {
    type V = ReplayModel;

    open spec fn view(&self) -> ReplayModel {
        ReplayModel { role: self.role@, text: self.text@ }
    }
}

/// Views of a replay message list.
pub open spec fn replays_view(v: Seq<ReplayMessage>) -> Seq<ReplayModel> {
    Seq::new(v.len(), |i: int| v[i]@)
}

/// The canonical phase of a raw phase column: matched after ASCII case
/// folding and trimming.
pub open spec fn spec_parse_phase(raw: Seq<char>) -> Option<SessionPhase> {
    let t = trim_seq(lower_seq(raw));
    if t == "idea_input"@ {
        Some(SessionPhase::IdeaInput)
    } else if t == "awaiting_approval"@ {
        Some(SessionPhase::AwaitingApproval)
    } else if t == "running"@ {
        Some(SessionPhase::Running)
    } else if t == "completed"@ {
        Some(SessionPhase::Completed)
    } else if t == "failed"@ {
        Some(SessionPhase::Failed)
    } else {
        None
    }
}

/// Parses a stored phase name; an unknown name is an error naming the
/// offending value.
pub fn parse_phase(raw: &str) -> (r: Result<SessionPhase, String>)
    ensures
        (match r {
            Ok(p) => spec_parse_phase(raw@) == Some(p),
            Err(m) => spec_parse_phase(raw@) is None && m@ == "Unknown session phase '"@
                + trim_seq(lower_seq(raw@)) + "'."@,
        }),
{
    let lowered = lower_str(raw);
    let t = trim_str(lowered.as_str());
    if str_eq(t, "idea_input") {
        Ok(SessionPhase::IdeaInput)
    } else if str_eq(t, "awaiting_approval") {
        Ok(SessionPhase::AwaitingApproval)
    } else if str_eq(t, "running") {
        Ok(SessionPhase::Running)
    } else if str_eq(t, "completed") {
        Ok(SessionPhase::Completed)
    } else if str_eq(t, "failed") {
        Ok(SessionPhase::Failed)
    } else {
        let mut m = String::from_str("Unknown session phase '");
        m = m.concat(t);
        m = m.concat("'.");
        proof {
            assert(m@ =~= "Unknown session phase '"@ + trim_seq(lower_seq(raw@)) + "'."@);
        }
        Err(m)
    }
}

/// The title inferred from a message: only a `user` message with
/// non-blank text titles its session; the text is whitespace-normalized
/// and cut to 56 code points with a `...` suffix when longer.
pub open spec fn spec_infer_title(role: Seq<char>, text: Seq<char>) -> Option<Seq<char>> {
    if normalize_spec(role) != "user"@ {
        None
    } else {
        let normalized = squash_spec(text);
        if normalized.len() == 0 {
            None
        } else if normalized.len() <= 56 {
            Some(normalized)
        } else {
            Some(normalized.take(56) + seq!['.', '.', '.'])
        }
    }
}

/// Infers a session title from an appended message.
pub fn infer_title_from_message(role: &str, text: &str) -> (r: Option<String>)
    ensures
        (match r {
            Some(t) => spec_infer_title(role@, text@) == Some(t@),
            None => spec_infer_title(role@, text@) is None,
        }),
{
    let role_norm = normalize_text(role);
    if !str_eq(role_norm.as_str(), "user") {
        return None;
    }
    let normalized = squash_ws(text);
    let n = normalized.as_str().unicode_len();
    if n == 0 {
        None
    } else if n <= 56 {
        Some(normalized)
    } else {
        let head = normalized.as_str().substring_char(0, 56);
        let mut out = String::from_str(head);
        out = out.concat("...");
        proof {
            reveal_strlit("...");
            assert("..."@ =~= seq!['.', '.', '.']);
            assert(out@ =~= squash_spec(text@).take(56) + seq!['.', '.', '.']);
        }
        Some(out)
    }
}

/// A message is replayed when its status normalizes to `done` and its
/// trimmed text is non-empty.
pub open spec fn spec_replay_keep(m: SessionMessage) -> bool {
    &&& trim_seq(lower_seq(m.status@)) == "done"@
    &&& trim_seq(m.text@).len() > 0
}

/// The kept replay entries of a message list: completed, non-blank
/// messages, each with its text trimmed.
pub open spec fn kept_models(msgs: Seq<SessionMessage>) -> Seq<ReplayModel>
    decreases msgs.len(),
{
    if msgs.len() == 0 {
        Seq::empty()
    } else {
        let rest = kept_models(msgs.drop_first());
        if spec_replay_keep(msgs[0]) {
            seq![ReplayModel { role: msgs[0].role@, text: trim_seq(msgs[0].text@) }] + rest
        } else {
            rest
        }
    }
}

proof fn lemma_kept_models_push(msgs: Seq<SessionMessage>, x: SessionMessage)
    ensures
        kept_models(msgs.push(x)) == kept_models(msgs) + (if spec_replay_keep(x) {
            seq![ReplayModel { role: x.role@, text: trim_seq(x.text@) }]
        } else {
            Seq::<ReplayModel>::empty()
        }),
    decreases msgs.len(),
{
    let piece: Seq<ReplayModel> = if spec_replay_keep(x) {
        seq![ReplayModel { role: x.role@, text: trim_seq(x.text@) }]
    } else {
        Seq::<ReplayModel>::empty()
    };
    if msgs.len() == 0 {
        assert(msgs.push(x)[0] == x);
        assert(msgs.push(x).drop_first() =~= Seq::<SessionMessage>::empty());
        assert(msgs =~= Seq::<SessionMessage>::empty());
        assert(kept_models(Seq::<SessionMessage>::empty()) == Seq::<ReplayModel>::empty());
        assert(kept_models(msgs.push(x)) =~= kept_models(msgs) + piece);
    } else {
        assert(msgs.push(x).drop_first() =~= msgs.drop_first().push(x));
        lemma_kept_models_push(msgs.drop_first(), x);
        assert(msgs.push(x)[0] == msgs[0]);
        if spec_replay_keep(msgs[0]) {
            let head = seq![
                ReplayModel { role: msgs[0].role@, text: trim_seq(msgs[0].text@) },
            ];
            assert(kept_models(msgs.push(x)) == head + (kept_models(msgs.drop_first())
                + piece));
            assert(head + (kept_models(msgs.drop_first()) + piece) =~= (head + kept_models(
                msgs.drop_first(),
            )) + piece);
        } else {
            assert(kept_models(msgs.push(x)) == kept_models(msgs.drop_first()) + piece);
        }
    }
}

/// The replay window over the kept entries: drop the last one when it is
/// the user message about to be re-sent; keep at most the last `max`.
pub open spec fn spec_replay_window(
    kept: Seq<ReplayModel>,
    current_text: Seq<char>,
    max: int,
) -> Seq<ReplayModel> {
    let dropped = if kept.len() > 0 && normalize_spec(kept.last().text) == normalize_spec(
        current_text,
    ) && normalize_spec(kept.last().role) == "user"@ {
        kept.drop_last()
    } else {
        kept
    };
    if dropped.len() > max {
        dropped.skip(dropped.len() - max)
    } else {
        dropped
    }
}

/// The replay filter over an already loaded message list: keeps the
/// completed, non-blank messages with trimmed text, drops the trailing
/// duplicate of the text about to be sent, and returns at most the last
/// `max_messages` entries.
pub fn replay_filter(messages: &Vec<SessionMessage>, current_text: &str, max_messages: usize) -> (r:
    Vec<ReplayMessage>)
    ensures
        replays_view(r@) == spec_replay_window(
            kept_models(messages@),
            current_text@,
            max_messages as int,
        ),
{
    let n = messages.len();
    let mut kept: Vec<ReplayMessage> = Vec::new();
    let mut i: usize = 0;
    proof {
        assert(messages@.take(0) =~= Seq::<SessionMessage>::empty());
        assert(replays_view(kept@) =~= kept_models(messages@.take(0)));
    }
    while i < n
        invariant
            n == messages@.len(),
            i <= n,
            replays_view(kept@) == kept_models(messages@.take(i as int)),
        decreases n - i,
    {
        let m = &messages[i];
        let status_norm = lower_str(m.status.as_str());
        let status_trim = trim_str(status_norm.as_str());
        let ghost kpre = kept@;
        if str_eq(status_trim, "done") {
            let text_trim = trim_str(m.text.as_str());
            if text_trim.unicode_len() > 0 {
                kept.push(
                    ReplayMessage { role: m.role.clone(), text: String::from_str(text_trim) },
                );
            }
        }
        proof {
            assert(messages@.take(i + 1 as int) =~= messages@.take(i as int).push(
                messages@[i as int],
            ));
            lemma_kept_models_push(messages@.take(i as int), messages@[i as int]);
            if kept@.len() == kpre.len() + 1 {
                assert(replays_view(kept@) =~= replays_view(kpre).push(
                    kept@[kpre.len() as int]@,
                ));
            }
            assert(replays_view(kept@) =~= kept_models(messages@.take(i + 1 as int)));
        }
        i += 1;
    }
    proof {
        assert(messages@.take(n as int) =~= messages@);
    }
    // drop the trailing message when it repeats the one about to be sent
    let klen = kept.len();
    if klen > 0 {
        let last_norm = normalize_text(kept[klen - 1].text.as_str());
        let cur_norm = normalize_text(current_text);
        let role_norm = normalize_text(kept[klen - 1].role.as_str());
        if str_eq(last_norm.as_str(), cur_norm.as_str()) && str_eq(role_norm.as_str(), "user") {
            let ghost kpre = kept@;
            let _ = kept.pop();
            proof {
                assert(kpre.last() == kpre[kpre.len() - 1]);
                assert(replays_view(kept@) =~= replays_view(kpre).drop_last());
            }
        } else {
            proof {
                assert(kept@.last() == kept@[kept@.len() - 1]);
            }
        }
    }
    // keep at most the last `max_messages`
    if kept.len() > max_messages {
        let start = kept.len() - max_messages;
        let mut out: Vec<ReplayMessage> = Vec::new();
        let mut j: usize = start;
        let ghost kfinal = kept@;
        proof {
            assert(replays_view(out@) =~= replays_view(kfinal).subrange(
                start as int,
                start as int,
            ));
        }
        while j < kept.len()
            invariant
                kfinal == kept@,
                start <= j <= kept@.len(),
                replays_view(out@) == replays_view(kept@).subrange(start as int, j as int),
            decreases kept@.len() - j,
        {
            let entry = ReplayMessage {
                role: kept[j].role.clone(),
                text: kept[j].text.clone(),
            };
            let ghost opre = out@;
            proof {
                assert(entry@ == kfinal[j as int]@);
            }
            out.push(entry);
            proof {
                assert(replays_view(out@) =~= replays_view(opre).push(kfinal[j as int]@));
                assert(replays_view(opre).push(kfinal[j as int]@) =~= replays_view(
                    kfinal,
                ).subrange(start as int, j + 1 as int));
            }
            j += 1;
        }
        proof {
            assert(replays_view(kept@).subrange(start as int, kept@.len() as int)
                =~= replays_view(kept@).skip(start as int));
        }
        out
    } else {
        kept
    }
}

} // verus!

use vstd::multiset::Multiset;
use vstd::prelude::*;
use vstd::seq_lib::*;

verus! {

broadcast use vstd::seq_lib::group_to_multiset_ensures;

/// The session of a raw database row of the `sessions` table, when the
/// row is well-formed: eight columns of the expected types with a known
/// phase name.
pub open spec fn row_session(row: Seq<DbValue>) -> Option<SessionMeta> {
    if row.len() == 8 && row[0] is Text && row[1] is Text && row[2] is Text && row[3] is Text
        && row[4] is Text && row[5] is Int && row[6] is Int && row[7] is Int && spec_parse_phase(
        row[4]->Text_0@,
    ) is Some {
        Some(
            SessionMeta {
                id: row[0]->Text_0,
                title: row[1]->Text_0,
                app_name: row[2]->Text_0,
                user_id: row[3]->Text_0,
                phase: spec_parse_phase(row[4]->Text_0@)->0,
                read_only: row[5]->Int_0 != 0,
                created_at_ms: row[6]->Int_0,
                updated_at_ms: row[7]->Int_0,
            },
        )
    } else {
        None
    }
}

/// Rebuilds a session from a raw row.
pub fn session_from_row(row: Vec<DbValue>) -> (r: Result<SessionMeta, String>)
    ensures
        (match r {
            Ok(m) => row_session(row@) == Some(m),
            Err(_) => row_session(row@) is None,
        }),
{
    let mut row = row;
    if row.len() != 8 {
        return Err(String::from_str("Malformed session row."));
    }
    let ghost row0 = row@;
    let c0 = row.remove(0);
    let c1 = row.remove(0);
    let c2 = row.remove(0);
    let c3 = row.remove(0);
    let c4 = row.remove(0);
    let c5 = row.remove(0);
    let c6 = row.remove(0);
    let c7 = row.remove(0);
    proof {
        assert(c0 == row0[0] && c1 == row0[1] && c2 == row0[2] && c3 == row0[3] && c4 == row0[4]
            && c5 == row0[5] && c6 == row0[6] && c7 == row0[7]);
    }
    match (c0, c1, c2, c3, c4, c5, c6, c7) {
        (
            DbValue::Text(id),
            DbValue::Text(title),
            DbValue::Text(app_name),
            DbValue::Text(user_id),
            DbValue::Text(phase_raw),
            DbValue::Int(read_only_raw),
            DbValue::Int(created_at_ms),
            DbValue::Int(updated_at_ms),
        ) => {
            let phase = match parse_phase(phase_raw.as_str()) {
                Ok(p) => p,
                Err(e) => {
                    return Err(e);
                },
            };
            Ok(
                SessionMeta {
                    id,
                    title,
                    app_name,
                    user_id,
                    phase,
                    read_only: read_only_raw != 0,
                    created_at_ms,
                    updated_at_ms,
                },
            )
        },
        _ => Err(String::from_str("Malformed session row.")),
    }
}

/// The message of a raw database row of the `messages` table.
pub open spec fn row_message(row: Seq<DbValue>) -> Option<SessionMessage> {
    if row.len() == 6 && row[0] is Text && row[1] is Text && row[2] is Text && row[3] is Text
        && row[4] is Text && row[5] is Int {
        Some(
            SessionMessage {
                id: row[0]->Text_0,
                session_id: row[1]->Text_0,
                role: row[2]->Text_0,
                text: row[3]->Text_0,
                status: row[4]->Text_0,
                created_at_ms: row[5]->Int_0,
            },
        )
    } else {
        None
    }
}

/// Rebuilds a message from a raw row.
pub fn message_from_row(row: Vec<DbValue>) -> (r: Result<SessionMessage, String>)
    ensures
        (match r {
            Ok(m) => row_message(row@) == Some(m),
            Err(_) => row_message(row@) is None,
        }),
{
    let mut row = row;
    if row.len() != 6 {
        return Err(String::from_str("Malformed message row."));
    }
    let ghost row0 = row@;
    let c0 = row.remove(0);
    let c1 = row.remove(0);
    let c2 = row.remove(0);
    let c3 = row.remove(0);
    let c4 = row.remove(0);
    let c5 = row.remove(0);
    proof {
        assert(c0 == row0[0] && c1 == row0[1] && c2 == row0[2] && c3 == row0[3] && c4 == row0[4]
            && c5 == row0[5]);
    }
    match (c0, c1, c2, c3, c4, c5) {
        (
            DbValue::Text(id),
            DbValue::Text(session_id),
            DbValue::Text(role),
            DbValue::Text(text),
            DbValue::Text(status),
            DbValue::Int(created_at_ms),
        ) => Ok(SessionMessage { id, session_id, role, text, status, created_at_ms }),
        _ => Err(String::from_str("Malformed message row.")),
    }
}

/// Session `a` sorts at or before `b`: more recently updated first, and
/// among equally updated sessions the more recently created first.
pub open spec fn sess_le(a: SessionMeta, b: SessionMeta) -> bool {
    a.updated_at_ms > b.updated_at_ms || (a.updated_at_ms == b.updated_at_ms && a.created_at_ms
        >= b.created_at_ms)
}

/// The list is sorted most recently updated first.
pub open spec fn sessions_sorted(s: Seq<SessionMeta>) -> bool {
    forall|i: int, j: int| 0 <= i < j < s.len() ==> sess_le(#[trigger] s[i], #[trigger] s[j])
}

/// Runtime test for [`sess_le`].
fn sess_before(a: &SessionMeta, b: &SessionMeta) -> (r: bool)
    ensures
        r == sess_le(*a, *b),
{
    a.updated_at_ms > b.updated_at_ms || (a.updated_at_ms == b.updated_at_ms && a.created_at_ms
        >= b.created_at_ms)
}

/// Sorts sessions most recently updated first (ties broken by creation
/// time, newest first). The result holds exactly the given sessions.
pub fn sort_sessions(input: Vec<SessionMeta>) -> (r: Vec<SessionMeta>)
    ensures
        sessions_sorted(r@),
        r@.to_multiset() == input@.to_multiset(),
{
    let mut rest = input;
    let mut out: Vec<SessionMeta> = Vec::new();
    let ghost orig = rest@;
    proof {
        assert(out@.to_multiset().add(rest@.to_multiset()) =~= orig.to_multiset());
    }
    while rest.len() > 0
        invariant
            out@.to_multiset().add(rest@.to_multiset()) == orig.to_multiset(),
            sessions_sorted(out@),
            forall|i: int, j: int|
                0 <= i < out@.len() && 0 <= j < rest@.len() ==> sess_le(
                    #[trigger] out@[i],
                    #[trigger] rest@[j],
                ),
        decreases rest@.len(),
    {
        // find the first entry of the remaining list
        let n = rest.len();
        let mut best: usize = 0;
        let mut k: usize = 1;
        while k < n
            invariant
                n == rest@.len(),
                best < k <= n,
                forall|j: int| 0 <= j < k ==> sess_le(rest@[best as int], #[trigger] rest@[j]),
            decreases n - k,
        {
            if !sess_before(&rest[best], &rest[k]) {
                proof {
                    assert(sess_le(rest@[k as int], rest@[best as int]));
                    assert forall|j: int| 0 <= j < k + 1 implies sess_le(
                        rest@[k as int],
                        #[trigger] rest@[j],
                    ) by {
                        if j < k {
                            assert(sess_le(rest@[best as int], rest@[j]));
                        }
                    }
                }
                best = k;
            }
            k += 1;
        }
        let ghost rpre = rest@;
        let ghost opre = out@;
        let picked = rest.remove(best);
        out.push(picked);
        proof {
            assert(picked == rpre[best as int]);
            assert(rest@ =~= rpre.remove(best as int));
            assert(rpre.remove(best as int).to_multiset() =~= rpre.to_multiset().remove(
                rpre[best as int],
            ));
            assert(out@.to_multiset() =~= opre.to_multiset().insert(picked));
            assert(out@.to_multiset().add(rest@.to_multiset()) =~= orig.to_multiset());
            assert(out@ =~= opre.push(picked));
            assert forall|i: int, j: int| 0 <= i < j < out@.len() implies sess_le(
                #[trigger] out@[i],
                #[trigger] out@[j],
            ) by {
                if j < out@.len() - 1 {
                    assert(sess_le(opre[i], opre[j]));
                } else {
                    if i < out@.len() - 1 {
                        assert(sess_le(opre[i], rpre[best as int]));
                    }
                }
            }
            assert forall|i: int, j: int|
                0 <= i < out@.len() && 0 <= j < rest@.len() implies sess_le(
                #[trigger] out@[i],
                #[trigger] rest@[j],
            ) by {
                let jorig: int = if j < best {
                    j
                } else {
                    j + 1
                };
                assert(rest@[j] == rpre[jorig]);
                if i < out@.len() - 1 {
                    assert(sess_le(opre[i], rpre[jorig]));
                } else {
                    assert(sess_le(rpre[best as int], rpre[jorig]));
                }
            }
        }
    }
    proof {
        assert(rest@.to_multiset() =~= Seq::<SessionMeta>::empty().to_multiset());
        assert(out@.to_multiset().add(Multiset::<SessionMeta>::empty()) =~= out@.to_multiset());
    }
    out
}

} // verus!

verus! {

/// The (phase, run mode) pairs in which a new run may start.
pub open spec fn spec_run_mode_allowed(phase: SessionPhase, run_mode: RunMode) -> bool {
    (phase == SessionPhase::IdeaInput && run_mode == RunMode::Idea) || (phase
        == SessionPhase::AwaitingApproval && run_mode == RunMode::EditPlan) || (phase
        == SessionPhase::AwaitingApproval && run_mode == RunMode::Approve)
}

/// The canonical name of a phase.
pub open spec fn spec_phase_name(phase: SessionPhase) -> Seq<char> {
    match phase {
        SessionPhase::IdeaInput => "idea_input"@,
        SessionPhase::AwaitingApproval => "awaiting_approval"@,
        SessionPhase::Running => "running"@,
        SessionPhase::Completed => "completed"@,
        SessionPhase::Failed => "failed"@,
    }
}

/// The canonical name of a run mode.
pub open spec fn spec_run_mode_name(run_mode: RunMode) -> Seq<char> {
    match run_mode {
        RunMode::Idea => "idea"@,
        RunMode::EditPlan => "edit_plan"@,
        RunMode::Approve => "approve"@,
    }
}

/// Decides whether a run may start from the given session state: rejected
/// exactly when the session is read-only (first) or the (phase, run mode)
/// pair is outside the allowed matrix, each with its own message.
pub fn validate_decision(state: SessionPhaseState, run_mode: RunMode) -> (r: Result<
    SessionPhaseState,
    String,
>)
    ensures
        (match r {
            Ok(st) => st == state && !state.read_only && spec_run_mode_allowed(
                state.phase,
                run_mode,
            ),
            Err(m) => {
                &&& state.read_only || !spec_run_mode_allowed(state.phase, run_mode)
                &&& m@ == (if state.read_only {
                    "Session is read-only in phase '"@ + spec_phase_name(state.phase) + "'."@
                } else {
                    "Run mode '"@ + spec_run_mode_name(run_mode)
                        + "' is not allowed while phase is '"@ + spec_phase_name(state.phase)
                        + "'."@
                })
            },
        }),
{
    if state.read_only {
        let mut m = String::from_str("Session is read-only in phase '");
        m = m.concat(state.phase.as_str());
        m = m.concat("'.");
        proof {
            assert(m@ =~= "Session is read-only in phase '"@ + spec_phase_name(state.phase)
                + "'."@);
        }
        return Err(m);
    }
    if !crate::is_run_mode_allowed(state.phase, run_mode) {
        let mut m = String::from_str("Run mode '");
        m = m.concat(run_mode_as_str(run_mode));
        m = m.concat("' is not allowed while phase is '");
        m = m.concat(state.phase.as_str());
        m = m.concat("'.");
        proof {
            assert(m@ =~= "Run mode '"@ + spec_run_mode_name(run_mode)
                + "' is not allowed while phase is '"@ + spec_phase_name(state.phase) + "'."@);
        }
        return Err(m);
    }
    Ok(state)
}

/// The local session store: a path and an open connection to the
/// database there.
pub struct SessionStore {
    path: String,
    conn: rusqlite::Connection,
}

impl SessionStore {
    /// The path this store was opened at.
    pub closed spec fn spec_path(&self) -> Seq<char> {
        self.path@
    }

    /// Opens (creating when missing) the store at the given path, turns
    /// foreign keys on, selects write-ahead journaling, and creates the
    /// schema.
    pub fn from_path(db_path: String) -> (r: Result<SessionStore, String>) {
        let conn = match db_open(db_path.as_str()) {
            Ok(c) => c,
            Err(e) => {
                let mut m = String::from_str("Failed to open local session DB: ");
                m = m.concat(e.as_str());
                return Err(m);
            },
        };
        let no_params: Vec<DbParam> = Vec::new();
        if let Err(e) = db_execute(&conn, "PRAGMA foreign_keys = ON", &no_params) {
            let mut m = String::from_str("Failed to enable foreign keys on local session DB: ");
            m = m.concat(e.as_str());
            return Err(m);
        }
        if let Err(e) = db_query(&conn, "PRAGMA journal_mode = WAL", &no_params) {
            let mut m = String::from_str("Failed to set WAL mode on local session DB: ");
            m = m.concat(e.as_str());
            return Err(m);
        }
        let schema =
            "
            CREATE TABLE IF NOT EXISTS sessions (
                id TEXT PRIMARY KEY,
                title TEXT NOT NULL DEFAULT '',
                app_name TEXT NOT NULL,
                user_id TEXT NOT NULL,
                phase TEXT NOT NULL,
                read_only INTEGER NOT NULL DEFAULT 0,
                created_at_ms INTEGER NOT NULL,
                updated_at_ms INTEGER NOT NULL
            );

            CREATE INDEX IF NOT EXISTS idx_sessions_owner
                ON sessions(app_name, user_id, updated_at_ms DESC);

            CREATE TABLE IF NOT EXISTS messages (
                id TEXT PRIMARY KEY,
                session_id TEXT NOT NULL,
                role TEXT NOT NULL,
                text TEXT NOT NULL,
                status TEXT NOT NULL,
                created_at_ms INTEGER NOT NULL,
                FOREIGN KEY(session_id) REFERENCES sessions(id) ON DELETE CASCADE
            );

            CREATE INDEX IF NOT EXISTS idx_messages_session_created
                ON messages(session_id, created_at_ms ASC);
            ";
        if let Err(e) = db_execute_batch(&conn, schema) {
            let mut m = String::from_str("Failed to initialize local session DB schema: ");
            m = m.concat(e.as_str());
            return Err(m);
        }
        Ok(SessionStore { path: db_path, conn })
    }

    /// The path this store was opened at.
    pub fn db_path(&self) -> (r: String)
        ensures
            r@ == self.spec_path(),
    {
        self.path.clone()
    }

    /// Loads one session row by id.
    fn get_session(&self, session_id: &str) -> (r: Result<Option<SessionMeta>, String>)
        ensures
            (match r {
                Ok(Some(m)) => exists|row: Seq<DbValue>| row_session(row) == Some(m),
                _ => true,
            }),
    {
        let mut params: Vec<DbParam> = Vec::new();
        params.push(DbParam::Text(String::from_str(session_id)));
        let mut rows = match db_query(
            &self.conn,
            "SELECT id, title, app_name, user_id, phase, read_only, created_at_ms, updated_at_ms\n             FROM sessions\n             WHERE id = ?1",
            &params,
        ) {
            Ok(rows) => rows,
            Err(e) => {
                let mut m = String::from_str("Failed to load session: ");
                m = m.concat(e.as_str());
                return Err(m);
            },
        };
        if rows.len() == 0 {
            return Ok(None);
        }
        let row = rows.remove(0);
        let ghost rowg = row@;
        match session_from_row(row) {
            Ok(m) => {
                proof {
                    assert(row_session(rowg) == Some(m));
                }
                Ok(Some(m))
            },
            Err(e) => {
                let mut m = String::from_str("Failed to load session: ");
                m = m.concat(e.as_str());
                Err(m)
            },
        }
    }

    /// Creates a session with the given or a generated id; creating an
    /// existing id again is a no-op and returns the existing row. The
    /// returned session carries the requested id: the given one, or a
    /// generated `desktop-` id when none was given.
    pub fn create_session(&self, input: &SessionCreateInput) -> (r: Result<SessionMeta, String>)
        ensures
            (match r {
                Ok(m) => (match input.session_id {
                    Some(given) => m.id@ == given@,
                    None => m.id@.len() == 44 && m.id@.take(8) == "desktop-"@,
                }),
                Err(_) => true,
            }),
    {
        let id: String = match &input.session_id {
            Some(given) => given.clone(),
            None => {
                let mut id = String::from_str("desktop-");
                id = id.concat(new_uuid().as_str());
                proof {
                    reveal_strlit("desktop-");
                    assert(id@.take(8) =~= "desktop-"@);
                }
                id
            },
        };
        let now = now_ms();
        let mut params: Vec<DbParam> = Vec::new();
        params.push(DbParam::Text(id.clone()));
        params.push(DbParam::Text(input.app_name.clone()));
        params.push(DbParam::Text(input.user_id.clone()));
        params.push(DbParam::Text(String::from_str(SessionPhase::IdeaInput.as_str())));
        params.push(DbParam::Int(now));
        if let Err(e) = db_execute(
            &self.conn,
            "INSERT OR IGNORE INTO sessions (id, title, app_name, user_id, phase, read_only, created_at_ms, updated_at_ms)\n             VALUES (?1, '', ?2, ?3, ?4, 0, ?5, ?5)",
            &params,
        ) {
            let mut m = String::from_str("Failed to create session in local DB: ");
            m = m.concat(e.as_str());
            return Err(m);
        }
        match self.get_session(id.as_str()) {
            Ok(Some(m)) => {
                if str_eq(m.id.as_str(), id.as_str()) {
                    Ok(m)
                } else {
                    Err(String::from_str("Created session could not be loaded from local DB."))
                }
            },
            Ok(None) => Err(
                String::from_str("Created session could not be loaded from local DB."),
            ),
            Err(e) => Err(e),
        }
    }

    /// Lists the sessions of an app and user, most recently updated
    /// first.
    pub fn list_sessions(&self, input: &SessionListInput) -> (r: Result<Vec<SessionMeta>, String>)
        ensures
            (match r {
                Ok(list) => sessions_sorted(list@),
                Err(_) => true,
            }),
    {
        let mut params: Vec<DbParam> = Vec::new();
        params.push(DbParam::Text(input.app_name.clone()));
        params.push(DbParam::Text(input.user_id.clone()));
        let rows = match db_query(
            &self.conn,
            "SELECT id, title, app_name, user_id, phase, read_only, created_at_ms, updated_at_ms\n                 FROM sessions\n                 WHERE app_name = ?1 AND user_id = ?2\n                 ORDER BY updated_at_ms DESC, created_at_ms DESC",
            &params,
        ) {
            Ok(rows) => rows,
            Err(e) => {
                let mut m = String::from_str("Failed to query session list: ");
                m = m.concat(e.as_str());
                return Err(m);
            },
        };
        let mut rows = rows;
        let mut out: Vec<SessionMeta> = Vec::new();
        while rows.len() > 0
            decreases rows@.len(),
        {
            let row = rows.remove(0);
            match session_from_row(row) {
                Ok(m) => {
                    out.push(m);
                },
                Err(e) => {
                    let mut msg = String::from_str("Failed to parse session list row: ");
                    msg = msg.concat(e.as_str());
                    return Err(msg);
                },
            }
        }
        Ok(sort_sessions(out))
    }

    /// Deletes a session; its messages go with it. Returns whether a row
    /// was removed.
    pub fn delete_session(&self, session_id: &str) -> (r: Result<bool, String>)
        ensures
            r matches Err(m) ==> starts_with_seq(
                m@,
                "Failed to delete session '"@ + session_id@ + "': "@,
            ),
    {
        let mut params: Vec<DbParam> = Vec::new();
        params.push(DbParam::Text(String::from_str(session_id)));
        match db_execute(&self.conn, "DELETE FROM sessions WHERE id = ?1", &params) {
            Ok(deleted) => Ok(deleted > 0),
            Err(e) => {
                let mut m = String::from_str("Failed to delete session '");
                m = m.concat(session_id);
                m = m.concat("': ");
                m = m.concat(e.as_str());
                proof {
                    assert(m@.take(("Failed to delete session '"@ + session_id@ + "': "@).len() as int)
                        =~= "Failed to delete session '"@ + session_id@ + "': "@);
                }
                Err(m)
            },
        }
    }

    /// The messages of a session, in insertion order.
    pub fn messages_get(&self, session_id: &str) -> (r: Result<Vec<SessionMessage>, String>)
        ensures
            r matches Err(m) ==> starts_with_seq(m@, "Failed to query messages: "@)
                || starts_with_seq(m@, "Failed to parse message row: "@),
    {
        let mut params: Vec<DbParam> = Vec::new();
        params.push(DbParam::Text(String::from_str(session_id)));
        let rows = match db_query(
            &self.conn,
            "SELECT id, session_id, role, text, status, created_at_ms\n                 FROM messages\n                 WHERE session_id = ?1\n                 ORDER BY created_at_ms ASC, rowid ASC",
            &params,
        ) {
            Ok(rows) => rows,
            Err(e) => {
                let mut m = String::from_str("Failed to query messages: ");
                m = m.concat(e.as_str());
                proof {
                    assert(m@.take("Failed to query messages: "@.len() as int)
                        =~= "Failed to query messages: "@);
                }
                return Err(m);
            },
        };
        let mut rows = rows;
        let mut out: Vec<SessionMessage> = Vec::new();
        while rows.len() > 0
            decreases rows@.len(),
        {
            let row = rows.remove(0);
            match message_from_row(row) {
                Ok(m) => {
                    out.push(m);
                },
                Err(e) => {
                    let mut msg = String::from_str("Failed to parse message row: ");
                    msg = msg.concat(e.as_str());
                    proof {
                        assert(msg@.take("Failed to parse message row: "@.len() as int)
                            =~= "Failed to parse message row: "@);
                    }
                    return Err(msg);
                },
            }
        }
        Ok(out)
    }

    /// Appends a message to an existing session, bumps the session's
    /// update time, and sets the session title when this message titles
    /// it (first non-blank user message of an untitled session).
    pub fn message_append(&self, input: &SessionMessageAppendInput) -> (r: Result<
        SessionMessage,
        String,
    >)
        ensures
            (match r {
                Ok(m) => {
                    &&& m.session_id == input.session_id
                    &&& m.role == input.role
                    &&& m.text == input.text
                    &&& m.status == input.status
                    &&& (input.created_at_ms matches Some(t) ==> m.created_at_ms == t)
                    &&& m.id@.len() == 40
                    &&& m.id@.take(4) == "msg-"@
                },
                Err(_) => true,
            }),
    {
        let mut params: Vec<DbParam> = Vec::new();
        params.push(DbParam::Text(input.session_id.clone()));
        let exists_rows = match db_query(
            &self.conn,
            "SELECT id FROM sessions WHERE id = ?1",
            &params,
        ) {
            Ok(rows) => rows,
            Err(e) => {
                let mut m = String::from_str(
                    "Failed to verify session before appending message: ",
                );
                m = m.concat(e.as_str());
                return Err(m);
            },
        };
        if exists_rows.len() == 0 {
            let mut m = String::from_str("Cannot append message: session '");
            m = m.concat(input.session_id.as_str());
            m = m.concat("' does not exist in local DB.");
            return Err(m);
        }
        let mut id = String::from_str("msg-");
        id = id.concat(new_uuid().as_str());
        proof {
            reveal_strlit("msg-");
            assert(id@.take(4) =~= "msg-"@);
        }
        let created_at_ms: i64 = match input.created_at_ms {
            Some(t) => t,
            None => now_ms(),
        };
        let message = SessionMessage {
            id,
            session_id: input.session_id.clone(),
            role: input.role.clone(),
            text: input.text.clone(),
            status: input.status.clone(),
            created_at_ms,
        };
        let mut params: Vec<DbParam> = Vec::new();
        params.push(DbParam::Text(message.id.clone()));
        params.push(DbParam::Text(message.session_id.clone()));
        params.push(DbParam::Text(message.role.clone()));
        params.push(DbParam::Text(message.text.clone()));
        params.push(DbParam::Text(message.status.clone()));
        params.push(DbParam::Int(message.created_at_ms));
        if let Err(e) = db_execute(
            &self.conn,
            "INSERT INTO messages (id, session_id, role, text, status, created_at_ms)\n             VALUES (?1, ?2, ?3, ?4, ?5, ?6)",
            &params,
        ) {
            let mut m = String::from_str("Failed to append message: ");
            m = m.concat(e.as_str());
            return Err(m);
        }
        let title_candidate = infer_title_from_message(
            message.role.as_str(),
            message.text.as_str(),
        );
        let update_time = now_ms();
        let mut params: Vec<DbParam> = Vec::new();
        match title_candidate {
            Some(t) => params.push(DbParam::Text(t)),
            None => params.push(DbParam::Null),
        }
        params.push(DbParam::Int(update_time));
        params.push(DbParam::Text(input.session_id.clone()));
        if let Err(e) = db_execute(
            &self.conn,
            "UPDATE sessions\n             SET title = CASE WHEN TRIM(title) = '' AND ?1 IS NOT NULL THEN ?1 ELSE title END,\n                 updated_at_ms = ?2\n             WHERE id = ?3",
            &params,
        ) {
            let mut m = String::from_str(
                "Failed to update session metadata after message append: ",
            );
            m = m.concat(e.as_str());
            return Err(m);
        }
        Ok(message)
    }

    /// The phase and read-only flag of a session: the stored phase parsed
    /// per [`spec_parse_phase`]; `Session '<id>' was not found.` when no
    /// row matches; else a read, shape or phase-parse error.
    pub fn phase_get(&self, session_id: &str) -> (r: Result<SessionPhaseState, String>)
        ensures
            (match r {
                Ok(st) => exists|raw: Seq<char>| #[trigger] spec_parse_phase(raw) == Some(
                    st.phase,
                ),
                Err(m) => {
                    ||| m@ == "Session '"@ + session_id@ + "' was not found."@
                    ||| starts_with_seq(m@, "Failed to read session phase: "@)
                    ||| m@ == "Malformed session phase row."@
                    ||| starts_with_seq(m@, "Unknown session phase '"@)
                },
            }),
    {
        let mut params: Vec<DbParam> = Vec::new();
        params.push(DbParam::Text(String::from_str(session_id)));
        let mut rows = match db_query(
            &self.conn,
            "SELECT phase, read_only FROM sessions WHERE id = ?1",
            &params,
        ) {
            Ok(rows) => rows,
            Err(e) => {
                let mut m = String::from_str("Failed to read session phase: ");
                m = m.concat(e.as_str());
                proof {
                    assert(m@.take("Failed to read session phase: "@.len() as int)
                        =~= "Failed to read session phase: "@);
                }
                return Err(m);
            },
        };
        if rows.len() == 0 {
            let mut m = String::from_str("Session '");
            m = m.concat(session_id);
            m = m.concat("' was not found.");
            proof {
                assert(m@ =~= "Session '"@ + session_id@ + "' was not found."@);
            }
            return Err(m);
        }
        let mut row = rows.remove(0);
        if row.len() != 2 {
            return Err(String::from_str("Malformed session phase row."));
        }
        let c0 = row.remove(0);
        let c1 = row.remove(0);
        match (c0, c1) {
            (DbValue::Text(phase_raw), DbValue::Int(read_only_raw)) => {
                let phase = match parse_phase(phase_raw.as_str()) {
                    Ok(p) => p,
                    Err(e) => {
                        proof {
                            assert(e@.take("Unknown session phase '"@.len() as int)
                                =~= "Unknown session phase '"@);
                        }
                        return Err(e);
                    },
                };
                Ok(SessionPhaseState { phase, read_only: read_only_raw != 0 })
            },
            _ => Err(String::from_str("Malformed session phase row.")),
        }
    }

    /// Writes a session's phase and read-only flag and bumps its update
    /// time; `Session '<id>' was not found.` when no row matched, else a
    /// database error.
    pub fn phase_set(&self, session_id: &str, phase: SessionPhase, read_only: bool) -> (r: Result<
        SessionPhaseState,
        String,
    >)
        ensures
            (match r {
                Ok(st) => st == (SessionPhaseState { phase, read_only }),
                Err(m) => m@ == "Session '"@ + session_id@ + "' was not found."@
                    || starts_with_seq(m@, "Failed to update session phase: "@),
            }),
    {
        let mut params: Vec<DbParam> = Vec::new();
        params.push(DbParam::Text(String::from_str(phase.as_str())));
        params.push(DbParam::Int(if read_only { 1 } else { 0 }));
        params.push(DbParam::Int(now_ms()));
        params.push(DbParam::Text(String::from_str(session_id)));
        let updated = match db_execute(
            &self.conn,
            "UPDATE sessions\n                 SET phase = ?1, read_only = ?2, updated_at_ms = ?3\n                 WHERE id = ?4",
            &params,
        ) {
            Ok(n) => n,
            Err(e) => {
                let mut m = String::from_str("Failed to update session phase: ");
                m = m.concat(e.as_str());
                proof {
                    assert(m@.take("Failed to update session phase: "@.len() as int)
                        =~= "Failed to update session phase: "@);
                }
                return Err(m);
            },
        };
        if updated == 0 {
            let mut m = String::from_str("Session '");
            m = m.concat(session_id);
            m = m.concat("' was not found.");
            proof {
                assert(m@ =~= "Session '"@ + session_id@ + "' was not found."@);
            }
            return Err(m);
        }
        Ok(SessionPhaseState { phase, read_only })
    }

    /// Gates a run request: fetches the session's phase and rejects
    /// read-only sessions and disallowed (phase, run mode) pairs.
    pub fn validate_run_mode(&self, session_id: &str, run_mode: RunMode) -> (r: Result<
        SessionPhaseState,
        String,
    >)
        ensures
            (match r {
                Ok(st) => !st.read_only && spec_run_mode_allowed(st.phase, run_mode),
                Err(_) => true,
            }),
    {
        let state = match self.phase_get(session_id) {
            Ok(st) => st,
            Err(e) => {
                return Err(e);
            },
        };
        validate_decision(state, run_mode)
    }

    /// The replay window of a session: its completed, non-blank messages
    /// with trimmed text, without a trailing duplicate of the text about
    /// to be sent, at most the last `max_messages` of them.
    pub fn replay_messages(&self, session_id: &str, current_text: &str, max_messages: usize) -> (r:
        Result<Vec<ReplayMessage>, String>)
        ensures
            (match r {
                Ok(list) => exists|msgs: Seq<SessionMessage>|
                    replays_view(list@) == spec_replay_window(
                        #[trigger] kept_models(msgs),
                        current_text@,
                        max_messages as int,
                    ),
                Err(_) => true,
            }),
    {
        let messages = match self.messages_get(session_id) {
            Ok(msgs) => msgs,
            Err(e) => {
                return Err(e);
            },
        };
        let r = replay_filter(&messages, current_text, max_messages);
        proof {
            assert(replays_view(r@) == spec_replay_window(
                kept_models(messages@),
                current_text@,
                max_messages as int,
            ));
        }
        Ok(r)
    }
}

} // verus!
