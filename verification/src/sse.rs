//! Server-sent-events framing: splits a byte-chunked text stream into
//! frames of `data:` lines.
//!
//! Lines are separated by `\n` with an optional trailing `\r`. `data:`
//! lines accumulate; an empty line completes a frame whose payload is the
//! accumulated line bodies joined by `\n`. The parser knows nothing of the
//! payloads' meaning.

use vstd::prelude::*;

use crate::text::{starts_with_seq, str_starts_with, ws_prefix_len};
use crate::text::{push_char, scan_non_ws};

verus! {

/// Index of the first newline, or the length when there is none.
pub open spec fn first_nl(s: Seq<char>) -> int
    decreases s.len(),
{
    if s.len() == 0 {
        0
    } else if s[0] == '\n' {
        0
    } else {
        1 + first_nl(s.drop_first())
    }
}

pub proof fn lemma_first_nl(s: Seq<char>)
    ensures
        0 <= first_nl(s) <= s.len(),
        forall|k: int| 0 <= k < first_nl(s) ==> s[k] != '\n',
        first_nl(s) < s.len() ==> s[first_nl(s)] == '\n',
    decreases s.len(),
{
    if s.len() > 0 && s[0] != '\n' {
        lemma_first_nl(s.drop_first());
        assert forall|k: int| 0 <= k < first_nl(s) implies s[k] != '\n' by {
            if k > 0 {
                assert(s.drop_first()[k - 1] != '\n');
            }
        }
    }
}

proof fn lemma_first_nl_from_scan(s: Seq<char>, m: int)
    requires
        0 <= m <= s.len(),
        forall|k: int| 0 <= k < m ==> s[k] != '\n',
        m < s.len() ==> s[m] == '\n',
    ensures
        first_nl(s) == m,
    decreases s.len(),
{
    if m > 0 {
        assert(s[0] != '\n');
        lemma_first_nl_from_scan(s.drop_first(), m - 1);
    }
}

/// The complete lines of a buffer (text before each newline), and the
/// remainder after the last newline.
pub open spec fn split_lines(s: Seq<char>) -> (Seq<Seq<char>>, Seq<char>)
    decreases s.len(),
    via split_lines_decreases
{
    if first_nl(s) == s.len() {
        (Seq::empty(), s)
    } else {
        let i = first_nl(s);
        let rest = split_lines(s.skip(i + 1));
        (seq![s.take(i)] + rest.0, rest.1)
    }
}

#[via_fn]
proof fn split_lines_decreases(s: Seq<char>) {
    lemma_first_nl(s);
}

/// A line with a trailing carriage return removed.
pub open spec fn strip_cr(line: Seq<char>) -> Seq<char> {
    if line.len() > 0 && line[line.len() - 1] == '\r' {
        line.drop_last()
    } else {
        line
    }
}

/// The body of a `data:` line: what follows the prefix, with leading
/// whitespace removed; `None` for other lines.
pub open spec fn data_body(line: Seq<char>) -> Option<Seq<char>> {
    if starts_with_seq(line, "data:"@) {
        let rest = line.skip(5);
        Some(rest.skip(ws_prefix_len(rest)))
    } else {
        None
    }
}

/// Data lines joined by `\n`.
pub open spec fn join_nl(lines: Seq<Seq<char>>) -> Seq<char>
    decreases lines.len(),
{
    if lines.len() == 0 {
        Seq::empty()
    } else if lines.len() == 1 {
        lines[0]
    } else {
        lines[0] + seq!['\n'] + join_nl(lines.drop_first())
    }
}

/// One line's effect on the accumulated data lines: an empty line (after
/// `\r` stripping) completes a frame when lines were accumulated; a
/// `data:` line accumulates; anything else is ignored.
pub open spec fn line_step(dl: Seq<Seq<char>>, line: Seq<char>) -> (
    Seq<Seq<char>>,
    Option<Seq<char>>,
) {
    let l = strip_cr(line);
    if l.len() == 0 {
        if dl.len() == 0 {
            (dl, None)
        } else {
            (Seq::empty(), Some(join_nl(dl)))
        }
    } else {
        match data_body(l) {
            Some(d) => (dl.push(d), None),
            None => (dl, None),
        }
    }
}

/// The effect of a line list: the final accumulated data lines and the
/// completed frame payloads, in order.
pub open spec fn lines_fold(dl: Seq<Seq<char>>, lines: Seq<Seq<char>>) -> (
    Seq<Seq<char>>,
    Seq<Seq<char>>,
)
    decreases lines.len(),
{
    if lines.len() == 0 {
        (dl, Seq::empty())
    } else {
        let step = line_step(dl, lines[0]);
        let rest = lines_fold(step.0, lines.drop_first());
        (
            rest.0,
            (match step.1 {
                Some(f) => seq![f],
                None => Seq::<Seq<char>>::empty(),
            }) + rest.1,
        )
    }
}

/// The residual frame at end of stream: the whole remaining buffer is
/// trimmed and, when it is a `data:` line, accumulated; the frame is the
/// accumulated lines, if any.
pub open spec fn flush_frame(dl: Seq<Seq<char>>, buffer: Seq<char>) -> Option<Seq<char>> {
    let t = crate::text::trim_seq(buffer);
    let dl2 = if t.len() > 0 {
        match data_body(t) {
            Some(d) => dl.push(d),
            None => dl,
        }
    } else {
        dl
    };
    if dl2.len() == 0 {
        None
    } else {
        Some(join_nl(dl2))
    }
}

/// Views of a list of owned strings.
pub open spec fn lines_view(v: Seq<String>) -> Seq<Seq<char>> {
    Seq::new(v.len(), |i: int| v[i]@)
}

proof fn lemma_lines_view_push(prev: Seq<String>, cur: Seq<String>, s: Seq<char>)
    requires
        cur.len() == prev.len() + 1,
        forall|k: int| 0 <= k < prev.len() ==> cur[k] == prev[k],
        cur[cur.len() - 1]@ == s,
    ensures
        lines_view(cur) == lines_view(prev).push(s),
{
    assert(lines_view(cur) =~= lines_view(prev).push(s));
}

/// Incremental SSE frame parser.
pub struct SseParser {
    pub line_buffer: String,
    pub data_lines: Vec<String>,
}

impl SseParser {
    /// A parser with nothing buffered.
    pub fn new() -> (r: SseParser)
        ensures
            r.line_buffer@ =~= Seq::<char>::empty(),
            lines_view(r.data_lines@) =~= Seq::<Seq<char>>::empty(),
    {
        SseParser { line_buffer: String::new(), data_lines: Vec::new() }
    }

    /// Feeds one chunk of stream text; returns the payloads of the frames
    /// the chunk completed, in order.
    pub fn feed_chunk(&mut self, chunk: &str) -> (r: Vec<String>)
        ensures
            ({
                let all = old(self).line_buffer@ + chunk@;
                let split = split_lines(all);
                let fold = lines_fold(lines_view(old(self).data_lines@), split.0);
                &&& final(self).line_buffer@ == split.1
                &&& lines_view(final(self).data_lines@) == fold.0
                &&& lines_view(r@) == fold.1
            }),
    {
        let ghost all = self.line_buffer@ + chunk@;
        let ghost dl0 = lines_view(self.data_lines@);
        let mut buf = String::new();
        core::mem::swap(&mut buf, &mut self.line_buffer);
        let buf2 = buf.concat(chunk);
        self.line_buffer = buf2;
        let mut frames: Vec<String> = Vec::new();
        proof {
            assert(self.line_buffer@ == all);
            assert(lines_view(frames@) =~= Seq::<Seq<char>>::empty());
            lemma_first_nl(all);
        }
        loop
            invariant
                all == old(self).line_buffer@ + chunk@,
                dl0 == lines_view(old(self).data_lines@),
                ({
                    let split = split_lines(all);
                    let fold = lines_fold(dl0, split.0);
                    let here = split_lines(self.line_buffer@);
                    let hfold = lines_fold(lines_view(self.data_lines@), here.0);
                    &&& here.1 == split.1
                    &&& hfold.0 == fold.0
                    &&& lines_view(frames@) + hfold.1 == fold.1
                }),
            decreases self.line_buffer@.len(),
        {
            let nl = match find_newline(self.line_buffer.as_str()) {
                Some(i) => i,
                None => {
                    proof {
                        lemma_first_nl_from_scan(
                            self.line_buffer@,
                            self.line_buffer@.len() as int,
                        );
                        let here0 = split_lines(self.line_buffer@).0;
                        assert(here0 =~= Seq::<Seq<char>>::empty());
                        assert(lines_fold(lines_view(self.data_lines@), here0).0 == lines_view(
                            self.data_lines@,
                        ));
                        assert(lines_fold(lines_view(self.data_lines@), here0).1 =~= Seq::<
                            Seq<char>,
                        >::empty());
                        assert(lines_view(frames@) + lines_fold(
                            lines_view(self.data_lines@),
                            here0,
                        ).1 =~= lines_view(frames@));
                    }
                    return frames;
                },
            };
            proof {
                lemma_first_nl_from_scan(self.line_buffer@, nl as int);
            }
            let line_len = self.line_buffer.as_str().unicode_len();
            let line = String::from_str(self.line_buffer.as_str().substring_char(0, nl));
            let rest = String::from_str(
                self.line_buffer.as_str().substring_char(nl + 1, line_len),
            );
            let ghost pre = self.line_buffer@;
            self.line_buffer = rest;
            proof {
                assert(line@ =~= pre.take(nl as int));
                assert(self.line_buffer@ =~= pre.skip(nl + 1));
            }
            // strip a trailing carriage return
            let lline = line.as_str().unicode_len();
            let stripped: &str = if lline > 0 && line.as_str().get_char(lline - 1) == '\r' {
                let s = line.as_str().substring_char(0, lline - 1);
                proof {
                    assert(s@ =~= strip_cr(line@));
                }
                s
            } else {
                line.as_str()
            };
            let slen = stripped.unicode_len();
            let ghost dl_pre = lines_view(self.data_lines@);
            if slen == 0 {
                if self.data_lines.len() > 0 {
                    let payload = join_data_lines(&self.data_lines);
                    self.data_lines = Vec::new();
                    let ghost fprev = frames@;
                    frames.push(payload);
                    proof {
                        lemma_lines_view_push(fprev, frames@, frames@[fprev.len() as int]@);
                        assert(lines_view(self.data_lines@) =~= Seq::<Seq<char>>::empty());
                        assert(lines_view(fprev).push(join_nl(dl_pre)) + lines_fold(
                            Seq::<Seq<char>>::empty(),
                            split_lines(self.line_buffer@).0,
                        ).1 =~= lines_view(fprev) + (seq![join_nl(dl_pre)] + lines_fold(
                            Seq::<Seq<char>>::empty(),
                            split_lines(self.line_buffer@).0,
                        ).1));
                    }
                }
            } else {
                if str_starts_with(stripped, "data:") {
                    proof {
                        reveal_strlit("data:");
                    }
                    let after = stripped.substring_char(5, slen);
                    let body_start = scan_non_ws(after, 0);
                    let body = String::from_str(
                        after.substring_char(body_start, slen - 5),
                    );
                    proof {
                        crate::text::lemma_ws_prefix_len_from_scan(
                            after@,
                            body_start as int,
                        );
                        assert(after@ =~= strip_cr(line@).skip(5));
                        assert(body@ =~= data_body(strip_cr(line@))->0);
                    }
                    let ghost dprev = self.data_lines@;
                    self.data_lines.push(body);
                    proof {
                        lemma_lines_view_push(
                            dprev,
                            self.data_lines@,
                            self.data_lines@[dprev.len() as int]@,
                        );
                    }
                } else {
                    proof {
                        assert(data_body(strip_cr(line@)) is None);
                    }
                }
            }
            proof {
                let here = split_lines(pre);
                assert(here.0[0] == pre.take(nl as int));
                assert(here.0.drop_first() =~= split_lines(pre.skip(nl + 1)).0);
                assert(lines_view(frames@) + lines_fold(
                    lines_view(self.data_lines@),
                    split_lines(self.line_buffer@).0,
                ).1 =~= lines_view(frames@) + lines_fold(
                    lines_view(self.data_lines@),
                    split_lines(self.line_buffer@).0,
                ).1);
            }
        }
    }

    /// Flushes the residual buffer at end of stream; returns the last
    /// frame's payload, if any.
    pub fn flush(&mut self) -> (r: Option<String>)
        ensures
            (match r {
                Some(s) => Some(s@),
                None => None,
            }) == flush_frame(
                lines_view(old(self).data_lines@),
                old(self).line_buffer@,
            ),
            lines_view(final(self).data_lines@) =~= Seq::<Seq<char>>::empty(),
    {
        let trimmed = String::from_str(crate::text::trim_str(self.line_buffer.as_str()));
        let tlen = trimmed.as_str().unicode_len();
        if tlen > 0 {
            if str_starts_with(trimmed.as_str(), "data:") {
                proof {
                    reveal_strlit("data:");
                }
                let after = trimmed.as_str().substring_char(5, tlen);
                let body_start = scan_non_ws(after, 0);
                let body = String::from_str(after.substring_char(body_start, tlen - 5));
                proof {
                    crate::text::lemma_ws_prefix_len_from_scan(after@, body_start as int);
                    assert(after@ =~= crate::text::trim_seq(old(self).line_buffer@).skip(5));
                    assert(body@ =~= data_body(crate::text::trim_seq(old(self).line_buffer@))->0);
                }
                let ghost dprev = self.data_lines@;
                self.data_lines.push(body);
                proof {
                    lemma_lines_view_push(
                        dprev,
                        self.data_lines@,
                        self.data_lines@[dprev.len() as int]@,
                    );
                }
            }
        }
        if self.data_lines.len() == 0 {
            self.data_lines = Vec::new();
            proof {
                assert(lines_view(self.data_lines@) =~= Seq::<Seq<char>>::empty());
            }
            None
        } else {
            let payload = join_data_lines(&self.data_lines);
            self.data_lines = Vec::new();
            proof {
                assert(lines_view(self.data_lines@) =~= Seq::<Seq<char>>::empty());
            }
            Some(payload)
        }
    }
}

/// First newline in the string, if any.
fn find_newline(s: &str) -> (r: Option<usize>)
    ensures
        r matches Some(i) ==> i < s@.len() && s@[i as int] == '\n' && (forall|k: int|
            0 <= k < i ==> s@[k] != '\n'),
        r is None ==> forall|k: int| 0 <= k < s@.len() ==> s@[k] != '\n',
{
    let len = s.unicode_len();
    let mut i: usize = 0;
    while i < len
        invariant
            len == s@.len(),
            i <= len,
            forall|k: int| 0 <= k < i ==> s@[k] != '\n',
        decreases len - i,
    {
        if s.get_char(i) == '\n' {
            return Some(i);
        }
        i += 1;
    }
    None
}

/// Joins the accumulated data lines with `\n`.
fn join_data_lines(lines: &Vec<String>) -> (r: String)
    requires
        lines@.len() > 0,
    ensures
        r@ == join_nl(lines_view(lines@)),
{
    let ghost m = lines_view(lines@);
    let n = lines.len();
    let mut out = String::new();
    let mut i: usize = 0;
    proof {
        assert(m.skip(0) =~= m);
        assert(out@ + join_nl(m) =~= join_nl(m));
    }
    while i < n
        invariant
            n == lines@.len(),
            m == lines_view(lines@),
            0 < n,
            i <= n,
            join_nl(m) == out@ + join_nl(m.skip(i as int)),
        decreases n - i,
    {
        proof {
            assert(m.skip(i as int)[0] == m[i as int]);
            assert(m.skip(i as int).drop_first() =~= m.skip(i + 1 as int));
        }
        out = out.concat(lines[i].as_str());
        if i + 1 < n {
            push_char(&mut out, '\n');
            proof {
                assert(m.skip(i as int).len() >= 2);
                assert(join_nl(m) =~= out@ + join_nl(m.skip(i + 1 as int)));
            }
        } else {
            proof {
                assert(m.skip(i as int).len() == 1);
                assert(join_nl(m.skip(i as int)) == m[i as int]);
                assert(m.skip(i + 1 as int) =~= Seq::<Seq<char>>::empty());
                assert(join_nl(m) =~= out@ + join_nl(m.skip(i + 1 as int)));
            }
        }
        i += 1;
    }
    proof {
        assert(m.skip(n as int) =~= Seq::<Seq<char>>::empty());
        assert(join_nl(m) =~= out@);
    }
    out
}

} // verus!
