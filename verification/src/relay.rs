//! The relay's decisions: the single prompt slot, the published line
//! stream, and the staged downloadable archive.
//!
//! The relay holds one process-wide "current prompt" slot with
//! last-writer-wins semantics and no request correlation: opening a stream
//! always reads the most recently submitted prompt, or a default
//! placeholder when none was submitted.  Tokens produced for that prompt
//! are republished as `data:` lines, and the stream ends with exactly one
//! sentinel line.

use vstd::prelude::*;
use crate::event::{data_prefix, sentinel_text};
use crate::gateway::payloads_of;

verus! {

/// The placeholder prompt used when a stream is opened before any
/// submission.
pub open spec fn default_prompt_text() -> Seq<char> {
    "Write a rust program"@
}

/// The acknowledgement text returned to a submitter.
pub open spec fn ack_text() -> Seq<char> {
    "Prompt received"@
}

/// The relay's whole mutable state: the current prompt slot and the staged
/// downloadable archive, if any.
pub struct Relay {
    /// The most recently submitted prompt; `None` until the first
    /// submission.
    pub prompt: Option<String>,
    /// The downloadable artifact bundle, once one has been staged.
    pub archive: Option<Vec<u8>>,
    /// How many prompts have been submitted; doubles as the identifier of
    /// the latest submission.
    pub latest_run: u64,
}

impl Relay {
    /// A fresh relay: no prompt submitted, no archive staged.
    pub fn new() -> (r: Relay)
        ensures
            r.prompt is None,
            r.archive is None,
            r.latest_run == 0,
    {
        Relay { prompt: None, archive: None, latest_run: 0 }
    }

    /// Stores a prompt as "the current prompt" and acknowledges at once.
    /// Submission never starts generation, and a later submission simply
    /// overwrites the slot: last writer wins.
    pub fn submit(&mut self, prompt: String) -> (ack: String)
        requires
            old(self).latest_run < u64::MAX,
        ensures
            final(self).prompt matches Some(p) && p@ == prompt@,
            final(self).archive == old(self).archive,
            final(self).latest_run == old(self).latest_run + 1,
            ack@ == ack_text(),
    {
        self.prompt = Some(prompt);
        self.latest_run = self.latest_run + 1;
        String::from_str("Prompt received")
    }

    /// Stores a prompt and hands back the identifier of this submission,
    /// for a caller that wants its stream tied to its own prompt rather
    /// than to whatever was submitted last.
    pub fn submit_correlated(&mut self, prompt: String) -> (run: u64)
        requires
            old(self).latest_run < u64::MAX,
        ensures
            final(self).prompt matches Some(p) && p@ == prompt@,
            final(self).archive == old(self).archive,
            final(self).latest_run == old(self).latest_run + 1,
            run == final(self).latest_run,
    {
        self.prompt = Some(prompt);
        self.latest_run = self.latest_run + 1;
        self.latest_run
    }

    /// The prompt of submission `run`, or nothing when a later submission
    /// has already overwritten the slot.  A stream opened with its own
    /// submission's identifier therefore observes that submission's prompt
    /// or fails openly — never another caller's prompt.
    pub fn correlated_prompt(&self, run: u64) -> (p: Option<String>)
        ensures
            p matches Some(q) ==> run == self.latest_run && (self.prompt matches Some(c) && q@
                == c@),
            p is None <==> (run != self.latest_run || self.prompt is None),
    {
        if run == self.latest_run {
            match &self.prompt {
                Some(q) => Some(q.clone()),
                None => None,
            }
        } else {
            None
        }
    }

    /// The prompt a newly opened stream works on: the current slot, or the
    /// default placeholder when nothing was ever submitted.  The slot is
    /// read, not consumed.
    pub fn current_prompt(&self) -> (p: String)
        ensures
            self.prompt matches Some(q) ==> p@ == q@,
            self.prompt is None ==> p@ == default_prompt_text(),
    {
        match &self.prompt {
            Some(q) => q.clone(),
            None => String::from_str("Write a rust program"),
        }
    }

    /// Stages the downloadable archive served to later fetches.
    pub fn stage_archive(&mut self, bytes: Vec<u8>)
        ensures
            final(self).archive matches Some(a) && a@ == bytes@,
            final(self).prompt == old(self).prompt,
            final(self).latest_run == old(self).latest_run,
    {
        self.archive = Some(bytes);
    }

    /// Serves the staged archive: its bytes when one has been staged, and
    /// nothing — the not-found answer — before any staging.
    pub fn fetch_artifact_archive(&self) -> (r: Option<&Vec<u8>>)
        ensures
            r matches Some(a) ==> self.archive matches Some(b) && a@ == b@,
            r is None <==> self.archive is None,
    {
        match &self.archive {
            Some(a) => Some(a),
            None => None,
        }
    }
}

/// The lines a stream publishes for a sequence of fragment payloads: one
/// `data:` line per decoded token before the first sentinel payload,
/// undecodable fragments skipped, and exactly one final sentinel line.
pub open spec fn published_lines(ps: Seq<Option<Seq<char>>>) -> Seq<Seq<char>>
    decreases ps.len(),
{
    if ps.len() == 0 {
        seq![data_prefix() + sentinel_text()]
    } else {
        match ps[0] {
            None => published_lines(ps.drop_first()),
            Some(t) => if t == sentinel_text() {
                seq![data_prefix() + sentinel_text()]
            } else {
                seq![data_prefix() + t] + published_lines(ps.drop_first())
            },
        }
    }
}

/// Every published line is a data line, and the last one is the sentinel
/// line: the stream always closes with exactly one end-of-generation
/// marker.
pub proof fn lemma_published_lines_shape(ps: Seq<Option<Seq<char>>>)
    ensures
        published_lines(ps).len() >= 1,
        published_lines(ps).last() == data_prefix() + sentinel_text(),
        forall|i: int|
            0 <= i < published_lines(ps).len() ==> crate::event::parse_line(
                #[trigger] published_lines(ps)[i],
            ) is Some,
    decreases ps.len(),
{
    crate::event::lemma_line_round_trip(sentinel_text());
    if ps.len() == 0 {
    } else {
        match ps[0] {
            None => lemma_published_lines_shape(ps.drop_first()),
            Some(t) => {
                if t == sentinel_text() {
                } else {
                    lemma_published_lines_shape(ps.drop_first());
                    crate::event::lemma_line_round_trip(t);
                    assert(forall|i: int|
                        1 <= i < published_lines(ps).len() ==> published_lines(ps)[i]
                            == published_lines(ps.drop_first())[i - 1]);
                }
            },
        }
    }
}

/// Runs one stream over a sequence of raw fragments: decodes each, stops at
/// the first sentinel payload, republishes every earlier token as one
/// `data:` line, and ends the stream with exactly one sentinel line.
pub fn publish_fragments(frags: &Vec<String>) -> (r: Vec<String>)
    ensures
        r.deep_view() == published_lines(payloads_of(frags.deep_view())),
{
    let ghost ps = payloads_of(frags.deep_view());
    let mut r: Vec<String> = Vec::new();
    let n: usize = frags.len();
    let mut i: usize = 0;
    proof {
        assert(ps.skip(0) =~= ps);
        assert(Seq::<Seq<char>>::empty() + published_lines(ps) =~= published_lines(ps));
    }
    while i < n
        invariant
            n == frags.len(),
            ps == payloads_of(frags.deep_view()),
            0 <= i <= n,
            published_lines(ps) == r.deep_view() + published_lines(ps.skip(i as int)),
        decreases n - i,
    {
        proof {
            assert(ps.skip(i as int)[0] == ps[i as int]);
            assert(ps.skip(i as int).drop_first() =~= ps.skip(i as int + 1));
        }
        let ghost r0 = r.deep_view();
        let d = crate::gateway::parse_fragment(frags[i].as_str());
        match d {
            None => (),
            Some(t) => {
                let line = crate::event::format_data_line(t.as_str());
                if crate::event::is_sentinel(t.as_str()) {
                    r.push(line);
                    proof {
                        assert(published_lines(ps.skip(i as int)) == seq![
                            data_prefix() + sentinel_text(),
                        ]);
                        assert(r.deep_view() =~= r0 + seq![data_prefix() + sentinel_text()]);
                    }
                    return r;
                } else {
                    r.push(line);
                    proof {
                        assert(r.deep_view() =~= r0 + seq![data_prefix() + t@]);
                        assert((r0 + seq![data_prefix() + t@]) + published_lines(
                            ps.skip(i as int + 1),
                        ) =~= r0 + (seq![data_prefix() + t@] + published_lines(
                            ps.skip(i as int + 1),
                        )));
                    }
                }
            },
        }
        i = i + 1;
    }
    proof {
        assert(ps.skip(n as int) =~= Seq::<Option<Seq<char>>>::empty());
    }
    let ghost r1 = r.deep_view();
    let sline = crate::event::format_data_line("__DOWNLOAD__");
    r.push(sline);
    proof {
        assert(r.deep_view() =~= r1 + seq![data_prefix() + sentinel_text()]);
    }
    r
}

} // verus!
