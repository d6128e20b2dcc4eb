//! Artifact accumulation: tokens arriving from the stream are concatenated,
//! in arrival order, into the final source text.
//!
//! Order is the only guarantee: no reordering and no deduplication.  A token
//! equal to the reserved sentinel is never appended; it finishes the
//! artifact, and everything after it is ignored.  A fragment that could not
//! be decoded contributes nothing and does not fail the run.

use vstd::prelude::*;
use crate::event::sentinel_text;

verus! {

/// Plain concatenation of a sequence of token texts, in order.
pub open spec fn concat_all(ts: Seq<Seq<char>>) -> Seq<char>
    decreases ts.len(),
{
    if ts.len() == 0 {
        Seq::<char>::empty()
    } else {
        ts[0] + concat_all(ts.drop_first())
    }
}

/// The artifact text produced by a token sequence: the concatenation of the
/// tokens before the first sentinel, and nothing at or after it.
pub open spec fn accumulated(ts: Seq<Seq<char>>) -> Seq<char>
    decreases ts.len(),
{
    if ts.len() == 0 {
        Seq::<char>::empty()
    } else if ts[0] == sentinel_text() {
        Seq::<char>::empty()
    } else {
        ts[0] + accumulated(ts.drop_first())
    }
}

/// The tokens carried by a sequence of decode results: undecodable
/// fragments (`None`) are skipped, the rest keep their order.
pub open spec fn decoded_tokens(fs: Seq<Option<Seq<char>>>) -> Seq<Seq<char>>
    decreases fs.len(),
{
    if fs.len() == 0 {
        Seq::<Seq<char>>::empty()
    } else {
        match fs[0] {
            Some(t) => seq![t] + decoded_tokens(fs.drop_first()),
            None => decoded_tokens(fs.drop_first()),
        }
    }
}

/// The in-progress artifact of one run: the text accumulated so far and
/// whether the sentinel has been observed.
pub struct Accumulator {
    /// Token texts appended so far, in arrival order.
    pub text: String,
    /// Whether the sentinel has been seen; once set, no token is appended.
    pub finished: bool,
}

impl Accumulator {
    /// A fresh, empty accumulator.
    pub fn new() -> (r: Accumulator)
        ensures
            r.text@ == Seq::<char>::empty(),
            !r.finished,
    {
        Accumulator { text: String::new(), finished: false }
    }

    /// Feeds one token: appended in order unless the artifact is already
    /// finished or the token is the sentinel, which only finishes it.  A
    /// sentinel token is never appended, wherever it arrives.
    pub fn push_token(&mut self, t: &str)
        ensures
            final(self).finished == (old(self).finished || t@ == sentinel_text()),
            final(self).text@ == if old(self).finished || t@ == sentinel_text() {
                old(self).text@
            } else {
                old(self).text@ + t@
            },
    {
        if self.finished {
            return;
        }
        if crate::event::is_sentinel(t) {
            self.finished = true;
        } else {
            self.text.append(t);
        }
    }
}

/// Rebuilds the artifact text of a whole token sequence: the concatenation,
/// in order, of the tokens before the first sentinel.
pub fn accumulate(tokens: &Vec<String>) -> (r: String)
    ensures
        r@ == accumulated(tokens.deep_view()),
{
    let mut acc = Accumulator::new();
    let n: usize = tokens.len();
    let mut i: usize = 0;
    proof {
        assert(tokens.deep_view().skip(0) =~= tokens.deep_view());
        assert(Seq::<char>::empty() + accumulated(tokens.deep_view()) =~= accumulated(
            tokens.deep_view(),
        ));
    }
    while i < n
        invariant
            n == tokens.len(),
            0 <= i <= n,
            acc.finished ==> acc.text@ == accumulated(tokens.deep_view()),
            !acc.finished ==> accumulated(tokens.deep_view()) == acc.text@ + accumulated(
                tokens.deep_view().skip(i as int),
            ),
        decreases n - i,
    {
        proof {
            lemma_accumulated_step(tokens.deep_view(), i as int);
            assert(acc.text@ + Seq::<char>::empty() =~= acc.text@);
            assert(forall|a: Seq<char>, b: Seq<char>, c: Seq<char>|
                (a + b) + c =~= a + (b + c));
        }
        acc.push_token(tokens[i].as_str());
        i = i + 1;
    }
    proof {
        if !acc.finished {
            assert(tokens.deep_view().skip(n as int) =~= Seq::<Seq<char>>::empty());
            assert(acc.text@ =~= acc.text@ + Seq::<char>::empty());
        }
    }
    acc.text
}

/// Unfolds one step of `accumulated` at position `i` of a longer sequence.
proof fn lemma_accumulated_step(ts: Seq<Seq<char>>, i: int)
    requires
        0 <= i < ts.len(),
    ensures
        ts[i] != sentinel_text() ==> accumulated(ts.skip(i)) == ts[i] + accumulated(
            ts.skip(i + 1),
        ),
        ts[i] == sentinel_text() ==> accumulated(ts.skip(i)) == Seq::<char>::empty(),
{
    assert(ts.skip(i)[0] == ts[i]);
    assert(ts.skip(i).drop_first() =~= ts.skip(i + 1));
}

/// For every token sequence free of the sentinel, accumulation yields
/// exactly the concatenation of all tokens, in order.
pub proof fn lemma_accumulate_no_sentinel(ts: Seq<Seq<char>>)
    requires
        forall|i: int| 0 <= i < ts.len() ==> ts[i] != sentinel_text(),
    ensures
        accumulated(ts) == concat_all(ts),
    decreases ts.len(),
{
    if ts.len() > 0 {
        lemma_accumulate_no_sentinel(ts.drop_first());
    }
}

/// Sentinel suppression: a token equal to the sentinel is never part of the
/// artifact text, wherever it stands in the stream — the artifact equals
/// what the tokens before it alone produce.
pub proof fn lemma_sentinel_suppressed(ts: Seq<Seq<char>>, i: int)
    requires
        0 <= i < ts.len(),
        ts[i] == sentinel_text(),
    ensures
        accumulated(ts) == accumulated(ts.subrange(0, i)),
    decreases i,
{
    if i == 0 {
        assert(ts.subrange(0, 0) =~= Seq::<Seq<char>>::empty());
    } else if ts[0] == sentinel_text() {
        assert(ts.subrange(0, i)[0] == ts[0]);
    } else {
        lemma_sentinel_suppressed(ts.drop_first(), i - 1);
        assert(ts.subrange(0, i)[0] == ts[0]);
        assert(ts.subrange(0, i).drop_first() =~= ts.drop_first().subrange(0, i - 1));
    }
}

/// Feeds one fragment-decode result: an undecodable fragment (`None`) is
/// skipped without failing anything; a decoded token is accumulated as
/// usual.
pub fn push_decoded(acc: &mut Accumulator, d: &Option<String>)
    ensures
        d matches Some(t) ==> final(acc).finished == (old(acc).finished || t@
            == sentinel_text()) && final(acc).text@ == (if old(acc).finished || t@
            == sentinel_text() {
            old(acc).text@
        } else {
            old(acc).text@ + t@
        }),
        d is None ==> *final(acc) == *old(acc),
{
    match d {
        Some(t) => acc.push_token(t.as_str()),
        None => (),
    }
}

/// Rebuilds the artifact from a stream of fragment-decode results:
/// undecodable fragments are skipped, the decoded tokens accumulate as if
/// the bad fragments had never arrived.
pub fn accumulate_fragments(frags: &Vec<Option<String>>) -> (r: String)
    ensures
        r@ == accumulated(decoded_tokens(frags.deep_view())),
{
    let mut acc = Accumulator::new();
    let n: usize = frags.len();
    let mut i: usize = 0;
    proof {
        assert(frags.deep_view().skip(0) =~= frags.deep_view());
        assert(Seq::<char>::empty() + accumulated(decoded_tokens(frags.deep_view()))
            =~= accumulated(decoded_tokens(frags.deep_view())));
    }
    while i < n
        invariant
            n == frags.len(),
            0 <= i <= n,
            acc.finished ==> acc.text@ == accumulated(decoded_tokens(frags.deep_view())),
            !acc.finished ==> accumulated(decoded_tokens(frags.deep_view())) == acc.text@
                + accumulated(decoded_tokens(frags.deep_view().skip(i as int))),
        decreases n - i,
    {
        proof {
            lemma_decoded_step(frags.deep_view(), i as int);
            if frags.deep_view()[i as int] is Some {
                lemma_accumulated_first(
                    frags.deep_view()[i as int].unwrap(),
                    decoded_tokens(frags.deep_view().skip(i as int + 1)),
                );
            }
            assert(acc.text@ + Seq::<char>::empty() =~= acc.text@);
            assert(forall|a: Seq<char>, b: Seq<char>, c: Seq<char>|
                (a + b) + c =~= a + (b + c));
        }
        push_decoded(&mut acc, &frags[i]);
        i = i + 1;
    }
    proof {
        if !acc.finished {
            assert(frags.deep_view().skip(n as int) =~= Seq::<Option<Seq<char>>>::empty());
            assert(acc.text@ =~= acc.text@ + Seq::<char>::empty());
        }
    }
    acc.text
}

/// Unfolds one step of `decoded_tokens` at position `i` of a longer
/// sequence.
proof fn lemma_decoded_step(fs: Seq<Option<Seq<char>>>, i: int)
    requires
        0 <= i < fs.len(),
    ensures
        fs[i] matches Some(t) ==> decoded_tokens(fs.skip(i)) == seq![t] + decoded_tokens(
            fs.skip(i + 1),
        ),
        fs[i] is None ==> decoded_tokens(fs.skip(i)) == decoded_tokens(fs.skip(i + 1)),
{
    assert(fs.skip(i)[0] == fs[i]);
    assert(fs.skip(i).drop_first() =~= fs.skip(i + 1));
}

/// Unfolds `accumulated` on a sequence whose head token is known.
proof fn lemma_accumulated_first(t: Seq<char>, rest: Seq<Seq<char>>)
    ensures
        t != sentinel_text() ==> accumulated(seq![t] + rest) == t + accumulated(rest),
        t == sentinel_text() ==> accumulated(seq![t] + rest) == Seq::<char>::empty(),
{
    assert((seq![t] + rest)[0] == t);
    assert((seq![t] + rest).drop_first() =~= rest);
}

/// Unfolds one step of accumulating decode results at position `i`: what
/// one decode result does to the tokens and the artifact of the rest.
pub proof fn lemma_fragment_step(ps: Seq<Option<Seq<char>>>, i: int)
    requires
        0 <= i < ps.len(),
    ensures
        ps[i] matches Some(t) ==> decoded_tokens(ps.skip(i)) == seq![t] + decoded_tokens(
            ps.skip(i + 1),
        ),
        ps[i] is None ==> decoded_tokens(ps.skip(i)) == decoded_tokens(ps.skip(i + 1)),
        ps[i] matches Some(t) ==> (t != sentinel_text() ==> accumulated(
            decoded_tokens(ps.skip(i)),
        ) == t + accumulated(decoded_tokens(ps.skip(i + 1)))),
        ps[i] matches Some(t) ==> (t == sentinel_text() ==> accumulated(
            decoded_tokens(ps.skip(i)),
        ) == Seq::<char>::empty()),
{
    lemma_decoded_step(ps, i);
    if ps[i] is Some {
        lemma_accumulated_first(ps[i].unwrap(), decoded_tokens(ps.skip(i + 1)));
    }
}

/// Malformed-fragment resilience: a stream with one undecodable fragment
/// among decodable, sentinel-free ones yields exactly the concatenation of
/// the decodable tokens.
pub proof fn lemma_malformed_fragment_resilience(fs: Seq<Option<Seq<char>>>, j: int)
    requires
        0 <= j < fs.len(),
        fs[j] is None,
        forall|i: int|
            0 <= i < fs.len() && i != j ==> fs[i] is Some && fs[i].unwrap() != sentinel_text(),
    ensures
        accumulated(decoded_tokens(fs)) == concat_all(decoded_tokens(fs.remove(j))),
{
    lemma_decoded_skips_none(fs, j);
    let rest = fs.remove(j);
    assert(forall|i: int|
        0 <= i < rest.len() ==> rest[i] is Some && rest[i].unwrap() != sentinel_text());
    lemma_decoded_all_some(rest);
    lemma_accumulate_no_sentinel(decoded_tokens(rest));
}

/// Removing a `None` entry does not change which tokens are decoded.
proof fn lemma_decoded_skips_none(fs: Seq<Option<Seq<char>>>, j: int)
    requires
        0 <= j < fs.len(),
        fs[j] is None,
    ensures
        decoded_tokens(fs) == decoded_tokens(fs.remove(j)),
    decreases j,
{
    if j == 0 {
        assert(fs.remove(0) =~= fs.drop_first());
    } else {
        lemma_decoded_skips_none(fs.drop_first(), j - 1);
        assert(fs.remove(j)[0] == fs[0]);
        assert(fs.remove(j).drop_first() =~= fs.drop_first().remove(j - 1));
    }
}

/// On a sequence of only decoded fragments, every token survives: the
/// decoded tokens are no more and no fewer than the payloads.
proof fn lemma_decoded_all_some(fs: Seq<Option<Seq<char>>>)
    requires
        forall|i: int| 0 <= i < fs.len() ==> fs[i] is Some,
    ensures
        decoded_tokens(fs).len() == fs.len(),
        forall|i: int| 0 <= i < fs.len() ==> decoded_tokens(fs)[i] == fs[i].unwrap(),
    decreases fs.len(),
{
    if fs.len() > 0 {
        lemma_decoded_all_some(fs.drop_first());
    }
}

} // verus!
