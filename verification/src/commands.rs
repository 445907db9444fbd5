//! Decisions of the command surface: input validation and the exact
//! acknowledgement and error wording the frontend sees.

use vstd::prelude::*;

use crate::text::trim_seq;
use crate::text::trim_str;
use crate::types::Ack;

verus! {

/// History replay re-sends at most this many messages.
pub const REPLAY_DEPTH: usize = 20;

/// A run request must carry non-blank message text.
pub fn stream_text_precheck(text: &str) -> (r: Result<(), String>)
    ensures
        (match r {
            Ok(()) => trim_seq(text@).len() > 0,
            Err(m) => trim_seq(text@).len() == 0 && m@ == "Message text is required."@,
        }),
{
    if trim_str(text).unicode_len() == 0 {
        Err(String::from_str("Message text is required."))
    } else {
        Ok(())
    }
}

/// The per-request event channel name: `agent-stream:<request id>`.
pub fn event_channel_name(request_id: &str) -> (r: String)
    ensures
        r@ == "agent-stream:"@ + request_id@,
{
    String::from_str("agent-stream:").concat(request_id)
}

/// Acknowledges a session delete, saying whether a row was removed.
pub fn ack_deleted(deleted: bool) -> (r: Ack)
    ensures
        r.ok,
        r.message matches Some(m) && m@ == (if deleted {
            "Session deleted"@
        } else {
            "Session not found"@
        }),
{
    Ack {
        ok: true,
        message: Some(
            if deleted {
                String::from_str("Session deleted")
            } else {
                String::from_str("Session not found")
            },
        ),
    }
}

/// Acknowledges a started stream.
pub fn ack_stream_started() -> (r: Ack)
    ensures
        r.ok,
        r.message matches Some(m) && m@ == "Stream started"@,
{
    Ack { ok: true, message: Some(String::from_str("Stream started")) }
}

/// Acknowledges a cancel request; never fails, whether or not a stream
/// was active for the request.
pub fn ack_cancel(found: bool) -> (r: Ack)
    ensures
        r.ok,
        r.message matches Some(m) && m@ == (if found {
            "Cancelled stream"@
        } else {
            "No active stream for request"@
        }),
{
    Ack {
        ok: true,
        message: Some(
            if found {
                String::from_str("Cancelled stream")
            } else {
                String::from_str("No active stream for request")
            },
        ),
    }
}

/// Acknowledges stored credentials.
pub fn ack_keys_saved() -> (r: Ack)
    ensures
        r.ok,
        r.message matches Some(m) && m@ == "Keys saved to OS keychain"@,
{
    Ack { ok: true, message: Some(String::from_str("Keys saved to OS keychain")) }
}

/// Acknowledges cleared credentials.
pub fn ack_keys_cleared() -> (r: Ack)
    ensures
        r.ok,
        r.message matches Some(m) && m@ == "Keys cleared"@,
{
    Ack { ok: true, message: Some(String::from_str("Keys cleared")) }
}

/// The broadcast message when the backend exited and no error was
/// recorded.
pub fn backend_exited_default_message() -> (r: String)
    ensures
        r@ == "Local backend process exited unexpectedly."@,
{
    String::from_str("Local backend process exited unexpectedly.")
}

/// The failure when the backend cannot recover before listing apps.
pub fn backend_unavailable_message() -> (r: String)
    ensures
        r@ == "Backend is unavailable; failed to recover before listing apps."@,
{
    String::from_str("Backend is unavailable; failed to recover before listing apps.")
}

/// The failure when a stream is requested with no running backend.
pub fn backend_not_running_message() -> (r: String)
    ensures
        r@ == "Backend is not running. Start backend before streaming."@,
{
    String::from_str("Backend is not running. Start backend before streaming.")
}

/// The failure when the backend stayed unhealthy after a restart.
pub fn backend_unhealthy_message() -> (r: String)
    ensures
        r@ == "Backend is unhealthy and restart failed. Please restart the desktop app."@,
{
    String::from_str("Backend is unhealthy and restart failed. Please restart the desktop app.")
}

} // verus!
