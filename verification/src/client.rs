//! The client side of one run: consumes the push stream line by line,
//! accumulates the artifact, and tracks the run's phase and the "a run is
//! active" flag the interface reads.
//!
//! The stream and build work happen elsewhere; every decision they need is
//! here.  A chunk of stream text is split into lines; each `data:` line
//! contributes its token to the artifact until the sentinel arrives, which
//! finishes the artifact without being appended.  A stream that closes
//! without a sentinel still finishes the run.

use vstd::prelude::*;
use crate::artifact::{accumulated, decoded_tokens, Accumulator};
use crate::event::{lines_of, parse_line, sentinel_text};
use crate::gateway::prompt_body;
use crate::phase::{is_terminal, Phase};
use crate::relay::published_lines;

verus! {

/// What one published line does to the artifact state `(text, finished)`:
/// a line without the `data:` label changes nothing; a data line is
/// ignored once finished; the sentinel finishes; any other token is
/// appended.
pub open spec fn consume_line(a: Seq<char>, fin: bool, l: Seq<char>) -> (Seq<char>, bool) {
    match parse_line(l) {
        None => (a, fin),
        Some(t) => if fin {
            (a, fin)
        } else if t == sentinel_text() {
            (a, true)
        } else {
            (a + t, fin)
        },
    }
}

/// The artifact state after consuming a sequence of lines, in order.
pub open spec fn consume_lines(a: Seq<char>, fin: bool, ls: Seq<Seq<char>>) -> (Seq<char>, bool)
    decreases ls.len(),
{
    if ls.len() == 0 {
        (a, fin)
    } else {
        let s1 = consume_line(a, fin, ls[0]);
        consume_lines(s1.0, s1.1, ls.drop_first())
    }
}

/// The client's whole state for one run.
pub struct ClientRun {
    /// The artifact being reassembled.
    pub acc: Accumulator,
    /// The phase the interface observes.
    pub phase: Phase,
    /// Whether a run is active; while set, no new run may start.
    pub running: bool,
}

impl ClientRun {
    /// Begins a run for a prompt: the artifact is empty, the phase is
    /// `Sending`, the run is active, and the returned text is the JSON
    /// submission body to send.
    pub fn start(prompt: &str) -> (r: (ClientRun, String))
        ensures
            r.0.acc.text@ == Seq::<char>::empty(),
            !r.0.acc.finished,
            r.0.phase is Sending,
            r.0.running,
            r.1@ == prompt_body(prompt@),
    {
        let body = crate::gateway::encode_prompt_body(prompt);
        (ClientRun { acc: Accumulator::new(), phase: Phase::Sending, running: true }, body)
    }

    /// The stream answered: the run is now streaming.
    pub fn on_stream_opened(&mut self)
        requires
            old(self).phase is Sending,
        ensures
            final(self).phase is Streaming,
            final(self).acc == old(self).acc,
            final(self).running == old(self).running,
    {
        self.phase = Phase::Streaming;
    }

    /// Consumes one published line.
    pub fn on_line(&mut self, line: &str)
        requires
            old(self).phase is Streaming,
        ensures
            (final(self).acc.text@, final(self).acc.finished) == consume_line(
                old(self).acc.text@,
                old(self).acc.finished,
                line@,
            ),
            final(self).phase == old(self).phase,
            final(self).running == old(self).running,
    {
        match crate::event::strip_data_prefix(line) {
            None => (),
            Some(t) => self.acc.push_token(t.as_str()),
        }
    }

    /// Consumes one chunk of stream text: its lines, in order.
    pub fn on_chunk(&mut self, chunk: &str)
        requires
            old(self).phase is Streaming,
        ensures
            (final(self).acc.text@, final(self).acc.finished) == consume_lines(
                old(self).acc.text@,
                old(self).acc.finished,
                lines_of(chunk@),
            ),
            final(self).phase == old(self).phase,
            final(self).running == old(self).running,
    {
        let lines = crate::event::split_lines(chunk);
        let ghost ls = lines_of(chunk@);
        let ghost a0 = self.acc.text@;
        let ghost f0 = self.acc.finished;
        let n: usize = lines.len();
        let mut i: usize = 0;
        proof {
            assert(ls.skip(0) =~= ls);
        }
        while i < n
            invariant
                old(self).phase is Streaming,
                self.phase == old(self).phase,
                self.running == old(self).running,
                n == lines.len(),
                lines.deep_view() == ls,
                0 <= i <= n,
                consume_lines(a0, f0, ls) == consume_lines(
                    self.acc.text@,
                    self.acc.finished,
                    ls.skip(i as int),
                ),
                a0 == old(self).acc.text@,
                f0 == old(self).acc.finished,
            decreases n - i,
        {
            proof {
                assert(ls.skip(i as int)[0] == ls[i as int]);
                assert(ls.skip(i as int).drop_first() =~= ls.skip(i as int + 1));
            }
            self.on_line(lines[i].as_str());
            i = i + 1;
        }
        proof {
            assert(ls.skip(n as int) =~= Seq::<Seq<char>>::empty());
        }
    }

    /// The stream closed.  After the sentinel that is the natural end of a
    /// successful run; without one the transport broke off mid-stream, and
    /// the run is incomplete — an error, not a success.  Either way the
    /// run is no longer active.
    pub fn on_close(&mut self)
        requires
            old(self).phase is Streaming,
        ensures
            old(self).acc.finished ==> final(self).phase is Done,
            !old(self).acc.finished ==> (final(self).phase matches Phase::Error(m) && m@
                == crate::fault::error_text(crate::fault::RunError::StreamTransportFailure)),
            final(self).acc == old(self).acc,
            !final(self).running,
    {
        if self.acc.finished {
            self.phase = Phase::Done;
        } else {
            self.phase = crate::fault::phase_of_error(
                &crate::fault::RunError::StreamTransportFailure,
            );
        }
        self.running = false;
    }

    /// An unrecoverable failure: the run ends in `Error` with the message,
    /// the artifact is left as it was, and the run is no longer active.
    pub fn on_failure(&mut self, msg: String)
        requires
            !is_terminal(old(self).phase),
        ensures
            final(self).phase matches Phase::Error(m) && m@ == msg@,
            final(self).acc == old(self).acc,
            !final(self).running,
    {
        self.phase = Phase::Error(msg);
        self.running = false;
    }
}

/// Consuming lines composes: taking a stream in two chunks, split at any
/// line boundary, leaves exactly the state of consuming it whole — so how
/// the transport happens to chunk the stream cannot change the artifact.
pub proof fn lemma_consume_lines_append(
    a: Seq<char>,
    fin: bool,
    ls1: Seq<Seq<char>>,
    ls2: Seq<Seq<char>>,
)
    ensures
        consume_lines(a, fin, ls1 + ls2) == consume_lines(
            consume_lines(a, fin, ls1).0,
            consume_lines(a, fin, ls1).1,
            ls2,
        ),
    decreases ls1.len(),
{
    if ls1.len() == 0 {
        assert(ls1 + ls2 =~= ls2);
    } else {
        let s1 = consume_line(a, fin, ls1[0]);
        lemma_consume_lines_append(s1.0, s1.1, ls1.drop_first(), ls2);
        assert((ls1 + ls2)[0] == ls1[0]);
        assert((ls1 + ls2).drop_first() =~= ls1.drop_first() + ls2);
    }
}

/// Consuming a published stream rebuilds exactly the accumulated artifact:
/// for any fragment payloads, a client that consumes the relay's published
/// lines ends finished, with the text the payloads accumulate to appended
/// to whatever it had.
pub proof fn lemma_stream_round_trip(a: Seq<char>, ps: Seq<Option<Seq<char>>>)
    ensures
        consume_lines(a, false, published_lines(ps)) == (
            a + accumulated(decoded_tokens(ps)),
            true,
        ),
    decreases ps.len(),
{
    crate::event::lemma_line_round_trip(sentinel_text());
    let sline = crate::event::data_prefix() + sentinel_text();
    if ps.len() == 0 {
        assert(published_lines(ps) == seq![sline]);
        assert(consume_line(a, false, sline) == (a, true));
        assert(seq![sline].drop_first() =~= Seq::<Seq<char>>::empty());
        assert(consume_lines(a, true, seq![sline].drop_first()) == (a, true));
        assert(consume_lines(a, false, seq![sline]) == (a, true));
        assert(a + accumulated(decoded_tokens(ps)) =~= a);
    } else {
        let rest = ps.drop_first();
        match ps[0] {
            None => {
                lemma_stream_round_trip(a, rest);
                assert(published_lines(ps) == published_lines(rest));
                assert(decoded_tokens(ps) == decoded_tokens(rest));
            },
            Some(t) => {
                if t == sentinel_text() {
                    assert(published_lines(ps) == seq![sline]);
                    assert(consume_line(a, false, sline) == (a, true));
                    assert(seq![sline].drop_first() =~= Seq::<Seq<char>>::empty());
                    assert(consume_lines(a, true, seq![sline].drop_first()) == (a, true));
                    assert(consume_lines(a, false, seq![sline]) == (a, true));
                    assert(decoded_tokens(ps)[0] == t);
                    assert(accumulated(decoded_tokens(ps)) == Seq::<char>::empty());
                    assert(a + accumulated(decoded_tokens(ps)) =~= a);
                } else {
                    crate::event::lemma_line_round_trip(t);
                    lemma_stream_round_trip(a + t, rest);
                    let dline = crate::event::data_prefix() + t;
                    let ls = published_lines(ps);
                    assert(ls == seq![dline] + published_lines(rest));
                    assert(ls[0] == dline);
                    assert(consume_line(a, false, dline) == (a + t, false));
                    assert(ls.drop_first() =~= published_lines(rest));
                    assert(consume_lines(a, false, ls) == consume_lines(
                        a + t,
                        false,
                        published_lines(rest),
                    ));
                    assert(decoded_tokens(ps) == seq![t] + decoded_tokens(rest));
                    assert(decoded_tokens(ps)[0] == t);
                    assert(decoded_tokens(ps).drop_first() =~= decoded_tokens(rest));
                    assert(accumulated(decoded_tokens(ps)) == t + accumulated(
                        decoded_tokens(rest),
                    ));
                    assert((a + t) + accumulated(decoded_tokens(rest)) =~= a + (t + accumulated(
                        decoded_tokens(rest),
                    )));
                }
            },
        }
    }
}

} // verus!
