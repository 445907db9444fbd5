//! The backend supervisor core: host/port selection, the default-app
//! policy, the bounded log ring, and the exact wording of every status
//! and error the supervisor reports.
//!
//! Spawning, health polling and HTTP belong to the shell around the
//! library; the decisions on their outcomes are verified here.

use vstd::prelude::*;

use crate::sse::{join_nl, lines_view};
use crate::text::{contains_seq, dec_str, lower_seq};
use crate::text::{lower_str, push_char, str_contains, str_eq, usize_to_string};
use crate::types::{BackendStartConfig, BackendStatus};

verus! {

/// Renders a port number in decimal.
pub fn port_to_string(port: u16) -> (r: String)
    ensures
        r@ == dec_str(port as int),
{
    usize_to_string(port as usize)
}

/// The base URL of a backend at a host and port.
pub open spec fn spec_base_url(host: Seq<char>, port: int) -> Seq<char> {
    "http://"@ + host + ":"@ + dec_str(port)
}

/// Builds `http://<host>:<port>`.
pub fn base_url_of(host: &str, port: u16) -> (r: String)
    ensures
        r@ == spec_base_url(host@, port as int),
{
    let mut out = String::from_str("http://");
    out = out.concat(host);
    out = out.concat(":");
    out = out.concat(port_to_string(port).as_str());
    proof {
        assert(out@ =~= spec_base_url(host@, port as int));
    }
    out
}

/// The URL of the non-streaming run endpoint.
pub fn run_fallback_url(base_url: &str) -> (r: String)
    ensures
        r@ == base_url@ + "/run"@,
{
    String::from_str(base_url).concat("/run")
}

/// The URL of the streaming run endpoint.
pub fn run_sse_url(base_url: &str) -> (r: String)
    ensures
        r@ == base_url@ + "/run_sse"@,
{
    String::from_str(base_url).concat("/run_sse")
}

/// The app preferred by default: the exact name `product_validator_search`
/// when present; else the first app that is not auxiliary (`reports`,
/// `tests`, `desktop`); else the first app; none when there are no apps.
pub open spec fn spec_choose_default_app(apps: Seq<Seq<char>>) -> Option<Seq<char>> {
    if apps.len() == 0 {
        None
    } else if exists|i: int| 0 <= i < apps.len() && apps[i] == "product_validator_search"@ {
        Some("product_validator_search"@)
    } else if exists|i: int| 0 <= i < apps.len() && !spec_is_aux_app(apps[i]) {
        Some(apps[first_non_aux(apps, 0)])
    } else {
        Some(apps[0])
    }
}

/// An auxiliary app name, never chosen by default.
pub open spec fn spec_is_aux_app(name: Seq<char>) -> bool {
    name == "reports"@ || name == "tests"@ || name == "desktop"@
}

/// Index of the first non-auxiliary name at or after `from`.
pub open spec fn first_non_aux(apps: Seq<Seq<char>>, from: int) -> int
    decreases apps.len() - from,
{
    if from < 0 || from >= apps.len() {
        apps.len() as int
    } else if !spec_is_aux_app(apps[from]) {
        from
    } else {
        first_non_aux(apps, from + 1)
    }
}

/// Runtime test for an auxiliary app name.
fn is_aux_app(name: &str) -> (r: bool)
    ensures
        r == spec_is_aux_app(name@),
{
    str_eq(name, "reports") || str_eq(name, "tests") || str_eq(name, "desktop")
}

/// Picks the default app from the backend's app list.
pub fn choose_default_app(apps: &Vec<String>) -> (r: Option<String>)
    ensures
        (match r {
            Some(name) => spec_choose_default_app(lines_view(apps@)) == Some(name@),
            None => spec_choose_default_app(lines_view(apps@)) is None,
        }),
{
    let ghost m = lines_view(apps@);
    let n = apps.len();
    if n == 0 {
        return None;
    }
    // exact preferred name
    let mut i: usize = 0;
    while i < n
        invariant
            n == apps@.len(),
            m == lines_view(apps@),
            i <= n,
            forall|k: int| 0 <= k < i ==> #[trigger] m[k] != "product_validator_search"@,
        decreases n - i,
    {
        if str_eq(apps[i].as_str(), "product_validator_search") {
            proof {
                assert(0 <= i < m.len() && m[i as int] == "product_validator_search"@);
            }
            return Some(String::from_str("product_validator_search"));
        }
        i += 1;
    }
    // first non-auxiliary name
    let mut j: usize = 0;
    while j < n
        invariant
            n == apps@.len(),
            m == lines_view(apps@),
            j <= n,
            forall|k: int| 0 <= k < n ==> #[trigger] m[k] != "product_validator_search"@,
            forall|k: int| 0 <= k < j ==> spec_is_aux_app(#[trigger] m[k]),
            first_non_aux(m, 0) == first_non_aux(m, j as int),
        decreases n - j,
    {
        if !is_aux_app(apps[j].as_str()) {
            proof {
                assert(first_non_aux(m, j as int) == j);
            }
            return Some(apps[j].clone());
        }
        j += 1;
    }
    Some(apps[0].clone())
}

/// A truthy environment flag: `1`, `true`, `yes` or `on`, case-folded.
pub open spec fn spec_truthy_flag(v: Seq<char>) -> bool {
    let l = lower_seq(v);
    l == "1"@ || l == "true"@ || l == "yes"@ || l == "on"@
}

/// Decides whether an environment flag value counts as enabled.
pub fn is_truthy_flag(v: &str) -> (r: bool)
    ensures
        r == spec_truthy_flag(v@),
{
    let l = lower_str(v);
    str_eq(l.as_str(), "1") || str_eq(l.as_str(), "true") || str_eq(l.as_str(), "yes") || str_eq(
        l.as_str(),
        "on",
    )
}

/// Whether a spawn failure is fatal: the runtime launcher is not on the
/// path when the error names a missing file.
pub fn spawn_failure_fatal(err: &str) -> (r: bool)
    ensures
        r == contains_seq(err@, "No such file or directory"@),
{
    str_contains(err, "No such file or directory")
}

/// The fixed message for a missing runtime launcher.
pub fn uv_missing_message() -> (r: String)
    ensures
        r@ == "`uv` not found. Install uv and ensure it is on PATH before starting desktop backend."@,
{
    String::from_str(
        "`uv` not found. Install uv and ensure it is on PATH before starting desktop backend.",
    )
}

/// The message recorded when a port cannot be bound.
pub fn port_in_use_message(port: u16, host: &str) -> (r: String)
    ensures
        r@ == "Port "@ + dec_str(port as int) + " is already in use on host "@ + host@
            + ". Trying next port."@,
{
    let mut out = String::from_str("Port ");
    out = out.concat(port_to_string(port).as_str());
    out = out.concat(" is already in use on host ");
    out = out.concat(host);
    out = out.concat(". Trying next port.");
    proof {
        assert(out@ =~= "Port "@ + dec_str(port as int) + " is already in use on host "@ + host@
            + ". Trying next port."@);
    }
    out
}

/// The message for a child that exited while starting up.
pub fn startup_exit_message(status_text: &str) -> (r: String)
    ensures
        r@ == "Backend exited during startup (status: "@ + status_text@ + ")."@,
{
    let mut out = String::from_str("Backend exited during startup (status: ");
    out = out.concat(status_text);
    out = out.concat(").");
    proof {
        assert(out@ =~= "Backend exited during startup (status: "@ + status_text@ + ")."@);
    }
    out
}

/// The message for a child that never became healthy.
pub fn startup_timeout_message(host: &str, port: u16) -> (r: String)
    ensures
        r@ == "Backend did not become healthy at "@ + spec_base_url(host@, port as int)
            + " within startup timeout."@,
{
    let mut out = String::from_str("Backend did not become healthy at ");
    out = out.concat(base_url_of(host, port).as_str());
    out = out.concat(" within startup timeout.");
    proof {
        assert(out@ =~= "Backend did not become healthy at "@ + spec_base_url(
            host@,
            port as int,
        ) + " within startup timeout."@);
    }
    out
}

/// The message for a child whose state could not be inspected.
pub fn startup_inspect_message(err: &str) -> (r: String)
    ensures
        r@ == "Failed to inspect backend process during startup: "@ + err@,
{
    String::from_str("Failed to inspect backend process during startup: ").concat(err)
}

/// The message for a child that exited after it had been running.
pub fn exited_unexpectedly_message(status_text: &str) -> (r: String)
    ensures
        r@ == "Local backend process exited unexpectedly (status: "@ + status_text@ + ")."@,
{
    let mut out = String::from_str("Local backend process exited unexpectedly (status: ");
    out = out.concat(status_text);
    out = out.concat(").");
    proof {
        assert(out@ =~= "Local backend process exited unexpectedly (status: "@ + status_text@
            + ")."@);
    }
    out
}

/// The message when every startup retry failed without a recorded error.
pub fn retries_exhausted_message() -> (r: String)
    ensures
        r@ == "Failed to start ADK web backend after retries. Check logs and API keys."@,
{
    String::from_str("Failed to start ADK web backend after retries. Check logs and API keys.")
}

/// One log line as recorded in the ring: the stream tag in brackets, a
/// space, the line.
pub fn log_line_format(stream: &str, line: &str) -> (r: String)
    ensures
        r@ == "["@ + stream@ + "] "@ + line@,
{
    let mut out = String::from_str("[");
    out = out.concat(stream);
    out = out.concat("] ");
    out = out.concat(line);
    proof {
        assert(out@ =~= "["@ + stream@ + "] "@ + line@);
    }
    out
}

/// An error message composed with the log tail: the base message, and —
/// when any lines were recorded — the last (up to) 40 of them in
/// chronological order under a `Recent backend logs:` banner.
pub open spec fn spec_composed_error(logs: Seq<Seq<char>>, base: Seq<char>) -> Seq<char> {
    let tail = if logs.len() == 0 {
        Seq::<char>::empty()
    } else if logs.len() <= 40 {
        join_nl(logs)
    } else {
        join_nl(logs.skip(logs.len() - 40))
    };
    if tail.len() == 0 {
        base
    } else {
        base + "\nRecent backend logs:\n"@ + tail
    }
}

/// The bounded ring of recent backend log lines: at most 200 lines, the
/// oldest evicted first.
pub struct LogRing {
    lines: Vec<String>,
}

impl LogRing {
    /// The recorded lines, oldest first.
    pub closed spec fn model(&self) -> Seq<Seq<char>> {
        lines_view(self.lines@)
    }

    /// The ring never holds more than 200 lines.
    pub closed spec fn wf(&self) -> bool {
        self.lines@.len() <= 200
    }

    /// An empty ring.
    pub fn new() -> (r: LogRing)
        ensures
            r.wf(),
            r.model() =~= Seq::<Seq<char>>::empty(),
    {
        LogRing { lines: Vec::new() }
    }

    /// Records a line, evicting the oldest when the ring is full.
    pub fn push_line(&mut self, line: String)
        requires
            old(self).wf(),
        ensures
            final(self).wf(),
            final(self).model() == (if old(self).model().len() >= 200 {
                old(self).model().drop_first().push(line@)
            } else {
                old(self).model().push(line@)
            }),
    {
        if self.lines.len() >= 200 {
            let _ = self.lines.remove(0);
            proof {
                assert(lines_view(self.lines@) =~= lines_view(old(self).lines@).drop_first());
            }
        }
        let ghost pre = lines_view(self.lines@);
        self.lines.push(line);
        proof {
            assert(lines_view(self.lines@) =~= pre.push(line@));
        }
    }

    /// Clears the ring.
    pub fn clear(&mut self)
        ensures
            final(self).wf(),
            final(self).model() =~= Seq::<Seq<char>>::empty(),
    {
        self.lines = Vec::new();
    }

    /// The last (up to) `limit` lines, oldest first, joined by newlines;
    /// empty when nothing was recorded.
    pub fn tail(&self, limit: usize) -> (r: String)
        ensures
            r@ == (if self.model().len() == 0 {
                Seq::<char>::empty()
            } else if self.model().len() <= limit {
                join_nl(self.model())
            } else {
                join_nl(self.model().skip(self.model().len() - limit))
            }),
    {
        let n = self.lines.len();
        if n == 0 {
            return String::new();
        }
        let start: usize = if n <= limit {
            0
        } else {
            n - limit
        };
        let ghost m = lines_view(self.lines@);
        let ghost want = m.skip(start as int);
        if start == n {
            proof {
                assert(m.skip(n as int) =~= Seq::<Seq<char>>::empty());
            }
            return String::new();
        }
        let mut out = String::new();
        let mut i: usize = start;
        proof {
            if start == 0 {
                assert(m.skip(0) =~= m);
            }
            assert(out@ + join_nl(want) =~= join_nl(want));
            assert(want =~= m.skip(start as int));
        }
        while i < n
            invariant
                n == self.lines@.len(),
                m == lines_view(self.lines@),
                want == m.skip(start as int),
                start <= i <= n,
                start < n,
                join_nl(want) == out@ + join_nl(m.skip(i as int)),
            decreases n - i,
        {
            proof {
                assert(m.skip(i as int)[0] == m[i as int]);
                assert(m.skip(i as int).drop_first() =~= m.skip(i + 1 as int));
            }
            out = out.concat(self.lines[i].as_str());
            if i + 1 < n {
                push_char(&mut out, '\n');
                proof {
                    assert(m.skip(i as int).len() >= 2);
                    assert(join_nl(want) =~= out@ + join_nl(m.skip(i + 1 as int)));
                }
            } else {
                proof {
                    assert(m.skip(i as int).len() == 1);
                    assert(join_nl(m.skip(i as int)) == m[i as int]);
                    assert(m.skip(i + 1 as int) =~= Seq::<Seq<char>>::empty());
                    assert(join_nl(want) =~= out@ + join_nl(m.skip(i + 1 as int)));
                }
            }
            i += 1;
        }
        proof {
            assert(m.skip(n as int) =~= Seq::<Seq<char>>::empty());
            assert(join_nl(want) =~= out@);
        }
        out
    }

    /// Composes an error with the last 40 log lines when any were
    /// recorded.
    pub fn compose_error_with_tail(&self, base_message: String) -> (r: String)
        ensures
            r@ == spec_composed_error(self.model(), base_message@),
    {
        let tail = self.tail(40);
        if tail.as_str().unicode_len() == 0 {
            return base_message;
        }
        let mut out = base_message;
        out = out.concat("\nRecent backend logs:\n");
        out = out.concat(tail.as_str());
        proof {
            assert(out@ =~= base_message@ + "\nRecent backend logs:\n"@ + tail@);
        }
        out
    }
}

/// The supervisor's externally visible state, without the child handle
/// (which lives with the process runner around the library).
pub struct BackendCore {
    pub host: String,
    pub port: u16,
    pub repo_root: String,
    pub app_name: Option<String>,
    pub last_error: Option<String>,
    pub logs: LogRing,
}

impl BackendCore {
    /// A supervisor core with the default loopback host and port.
    pub fn new(repo_root: String) -> (r: BackendCore)
        ensures
            r.host@ == "127.0.0.1"@,
            r.port == 8765,
            r.repo_root == repo_root,
            r.app_name is None,
            r.last_error is None,
            r.logs.wf(),
            r.logs.model() =~= Seq::<Seq<char>>::empty(),
    {
        BackendCore {
            host: String::from_str("127.0.0.1"),
            port: 8765,
            repo_root,
            app_name: None,
            last_error: None,
            logs: LogRing::new(),
        }
    }

    /// Merges the configured overrides; the result says whether a restart
    /// was forced.
    pub fn apply_config(&mut self, config: Option<BackendStartConfig>) -> (force_restart: bool)
        ensures
            ({
                match config {
                    None => {
                        &&& *final(self) == *old(self)
                        &&& !force_restart
                    },
                    Some(cfg) => {
                        &&& final(self).host == (match cfg.host {
                            Some(h) => h,
                            None => old(self).host,
                        })
                        &&& final(self).port == (match cfg.port {
                            Some(p) => p,
                            None => old(self).port,
                        })
                        &&& final(self).repo_root == (match cfg.repo_root {
                            Some(rr) => rr,
                            None => old(self).repo_root,
                        })
                        &&& final(self).app_name == old(self).app_name
                        &&& final(self).last_error == old(self).last_error
                        &&& final(self).logs == old(self).logs
                        &&& force_restart == (cfg.force_restart == Some(true))
                    },
                }
            }),
    {
        match config {
            None => false,
            Some(cfg) => {
                match cfg.host {
                    Some(h) => {
                        self.host = h;
                    },
                    None => {},
                }
                match cfg.port {
                    Some(p) => {
                        self.port = p;
                    },
                    None => {},
                }
                match cfg.repo_root {
                    Some(rr) => {
                        self.repo_root = rr;
                    },
                    None => {},
                }
                match cfg.force_restart {
                    Some(f) => f,
                    None => false,
                }
            },
        }
    }

    /// The base URL of the supervised backend.
    pub fn base_url(&self) -> (r: String)
        ensures
            r@ == spec_base_url(self.host@, self.port as int),
    {
        base_url_of(self.host.as_str(), self.port)
    }

    /// The chosen app name.
    pub fn app_name(&self) -> (r: Option<String>)
        ensures
            (match r {
                Some(n) => self.app_name matches Some(x) && x@ == n@,
                None => self.app_name is None,
            }),
    {
        match &self.app_name {
            Some(n) => Some(n.clone()),
            None => None,
        }
    }

    /// Replaces the chosen app name.
    pub fn set_app_name(&mut self, app_name: Option<String>)
        ensures
            *final(self) == (BackendCore { app_name, ..*old(self) }),
    {
        self.app_name = app_name;
    }

    /// Resets the supervisor after a stop: no app, no error, empty logs.
    pub fn stop_reset(&mut self)
        ensures
            final(self).host == old(self).host,
            final(self).port == old(self).port,
            final(self).repo_root == old(self).repo_root,
            final(self).app_name is None,
            final(self).last_error is None,
            final(self).logs.wf(),
            final(self).logs.model() =~= Seq::<Seq<char>>::empty(),
    {
        self.app_name = None;
        self.last_error = None;
        self.logs.clear();
    }

    /// The status snapshot reported to the frontend.
    pub fn status_snapshot(&self, running: bool, health: bool) -> (r: BackendStatus)
        ensures
            r.running == running,
            r.health == health,
            r.port == self.port,
            r.host@ == self.host@,
            r.base_url@ == spec_base_url(self.host@, self.port as int),
            (match r.app_name {
                Some(n) => self.app_name matches Some(x) && x@ == n@,
                None => self.app_name is None,
            }),
            (match r.last_error {
                Some(e) => self.last_error matches Some(x) && x@ == e@,
                None => self.last_error is None,
            }),
    {
        BackendStatus {
            running,
            port: self.port,
            health,
            app_name: match &self.app_name {
                Some(n) => Some(n.clone()),
                None => None,
            },
            host: self.host.clone(),
            base_url: self.base_url(),
            last_error: match &self.last_error {
                Some(e) => Some(e.clone()),
                None => None,
            },
        }
    }

    /// Records a failed startup attempt: the message composed with the
    /// recent log tail becomes the last error and is returned.
    pub fn record_startup_failure(&mut self, base_message: String) -> (r: String)
        ensures
            final(self).host == old(self).host,
            final(self).port == old(self).port,
            final(self).repo_root == old(self).repo_root,
            final(self).app_name == old(self).app_name,
            final(self).logs == old(self).logs,
            r@ == spec_composed_error(old(self).logs.model(), base_message@),
            final(self).last_error matches Some(e) && e@ == r@,
    {
        let detailed = self.logs.compose_error_with_tail(base_message);
        let copy = detailed.clone();
        self.last_error = Some(detailed);
        copy
    }

    /// Records an unexpected child exit: the exit message composed with
    /// the recent log tail becomes the last error and the chosen app is
    /// dropped.
    pub fn record_child_exit(&mut self, status_text: &str)
        ensures
            final(self).host == old(self).host,
            final(self).port == old(self).port,
            final(self).repo_root == old(self).repo_root,
            final(self).app_name is None,
            final(self).logs == old(self).logs,
            final(self).last_error matches Some(e) && e@ == spec_composed_error(
                old(self).logs.model(),
                "Local backend process exited unexpectedly (status: "@ + status_text@ + ")."@,
            ),
    {
        let base = exited_unexpectedly_message(status_text);
        let detailed = self.logs.compose_error_with_tail(base);
        self.app_name = None;
        self.last_error = Some(detailed);
    }
}

/// What one startup attempt reported back to the supervisor.
#[derive(Debug)]
pub enum AttemptOutcome {
    /// The candidate port could not be bound.
    PortUnavailable,
    /// The child could not be spawned; the error text.
    SpawnFailed(String),
    /// The child answered its health check.
    Healthy,
    /// The child exited before becoming healthy; its exit status text.
    ExitedDuringStartup(String),
    /// The child stayed alive but never became healthy.
    TimedOut,
    /// The child's state could not be inspected; the error text.
    InspectFailed(String),
}

/// What the supervisor does after one startup attempt.
#[derive(Debug, PartialEq)]
pub enum StartAction {
    /// The backend is up on the recorded port.
    Started,
    /// Try the next port, keeping this as the pending startup error.
    Retry(String),
    /// Give up at once with this message.
    Fatal(String),
}

/// A failed attempt that is recorded: the supervisor keeps everything but
/// its last error, which becomes the base message composed with the log
/// tail; the same text is the pending retry error.
pub open spec fn startup_step_records(
    pre: BackendCore,
    post: BackendCore,
    r: StartAction,
    base: Seq<char>,
) -> bool {
    &&& post.host == pre.host
    &&& post.port == pre.port
    &&& post.repo_root == pre.repo_root
    &&& post.app_name == pre.app_name
    &&& post.logs == pre.logs
    &&& post.last_error matches Some(e) && e@ == spec_composed_error(pre.logs.model(), base)
    &&& r matches StartAction::Retry(m) && m@ == spec_composed_error(pre.logs.model(), base)
}

/// The startup decision for one attempt on a candidate port: an unbindable
/// port or a non-fatal spawn error retries with its message; a spawn error
/// naming a missing file is fatal (the runtime launcher is not on the
/// path); a healthy child records the bound port and starts; an exit,
/// timeout or inspection failure records the composed error and retries.
pub fn startup_step(core: &mut BackendCore, candidate_port: u16, outcome: AttemptOutcome) -> (r:
    StartAction)
    ensures
        (match outcome {
            AttemptOutcome::PortUnavailable => {
                &&& *final(core) == *old(core)
                &&& (r matches StartAction::Retry(m) && m@ == "Port "@ + dec_str(
                    candidate_port as int,
                ) + " is already in use on host "@ + old(core).host@ + ". Trying next port."@)
            },
            AttemptOutcome::SpawnFailed(e) => {
                &&& *final(core) == *old(core)
                &&& (if contains_seq(e@, "No such file or directory"@) {
                    r matches StartAction::Fatal(m) && m@
                        == "`uv` not found. Install uv and ensure it is on PATH before starting desktop backend."@
                } else {
                    r matches StartAction::Retry(m) && m@ == e@
                })
            },
            AttemptOutcome::Healthy => {
                &&& *final(core) == (BackendCore { port: candidate_port, ..*old(core) })
                &&& r is Started
            },
            AttemptOutcome::ExitedDuringStartup(st) => startup_step_records(
                *old(core),
                *final(core),
                r,
                "Backend exited during startup (status: "@ + st@ + ")."@,
            ),
            AttemptOutcome::TimedOut => startup_step_records(
                *old(core),
                *final(core),
                r,
                "Backend did not become healthy at "@ + spec_base_url(
                    old(core).host@,
                    candidate_port as int,
                ) + " within startup timeout."@,
            ),
            AttemptOutcome::InspectFailed(e) => startup_step_records(
                *old(core),
                *final(core),
                r,
                "Failed to inspect backend process during startup: "@ + e@,
            ),
        }),
{
    match outcome {
        AttemptOutcome::PortUnavailable => {
            StartAction::Retry(port_in_use_message(candidate_port, core.host.as_str()))
        },
        AttemptOutcome::SpawnFailed(e) => {
            if spawn_failure_fatal(e.as_str()) {
                StartAction::Fatal(uv_missing_message())
            } else {
                StartAction::Retry(e)
            }
        },
        AttemptOutcome::Healthy => {
            core.port = candidate_port;
            StartAction::Started
        },
        AttemptOutcome::ExitedDuringStartup(st) => {
            let msg = core.record_startup_failure(startup_exit_message(st.as_str()));
            StartAction::Retry(msg)
        },
        AttemptOutcome::TimedOut => {
            let base = startup_timeout_message(core.host.as_str(), candidate_port);
            let msg = core.record_startup_failure(base);
            StartAction::Retry(msg)
        },
        AttemptOutcome::InspectFailed(e) => {
            let msg = core.record_startup_failure(startup_inspect_message(e.as_str()));
            StartAction::Retry(msg)
        },
    }
}

/// The error a start reports once every retry is exhausted: the pending
/// startup error, or the fixed retries message when no attempt recorded
/// one.
pub fn startup_exhausted_message(pending: Option<String>) -> (r: String)
    ensures
        (match pending {
            Some(e) => r@ == e@,
            None => r@
                == "Failed to start ADK web backend after retries. Check logs and API keys."@,
        }),
{
    match pending {
        Some(e) => e,
        None => retries_exhausted_message(),
    }
}

} // verus!
