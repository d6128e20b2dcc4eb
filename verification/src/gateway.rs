//! The boundary to the generative backend's wire format.
//!
//! Each raw fragment pushed by the backend is expected to be one
//! self-describing JSON object whose `response` field carries the token
//! text.  Decoding a fragment and encoding the submission body are done by
//! `serde_json`; what they return is named here, and everything built on
//! those names is verified.

use vstd::prelude::*;
use crate::artifact::{accumulated, decoded_tokens};

verus! {

/// The token text carried by one raw fragment: `Some` exactly when the
/// fragment is a JSON object whose `response` field is a string, `None` for
/// a fragment that does not decode.  Decoding depends on the fragment text
/// alone.
pub uninterp spec fn fragment_payload(s: Seq<char>) -> Option<Seq<char>>;

/// The JSON submission body that carries a prompt to the relay: one object
/// with the prompt under its `prompt` field.  Encoding depends on the
/// prompt text alone.
pub uninterp spec fn prompt_body(p: Seq<char>) -> Seq<char>;

/// Relies on `serde_json::from_str`, `Value::get` and `Value::as_str`:
/// parses one raw fragment and extracts its `response` string field;
/// parsing is a function of the fragment text alone.
#[verifier::external_body]
pub(crate) fn parse_fragment(s: &str) -> (r: Option<String>)
    ensures
        r.deep_view() == fragment_payload(s@),
{
    match serde_json::from_str::<serde_json::Value>(s) {
        Ok(v) => match v.get("response") {
            Some(f) => match f.as_str() {
                Some(t) => Some(t.to_owned()),
                None => None,
            },
            None => None,
        },
        Err(_) => None,
    }
}

/// The payloads of a sequence of raw fragments, in order.
pub open spec fn payloads_of(fs: Seq<Seq<char>>) -> Seq<Option<Seq<char>>> {
    fs.map_values(|f: Seq<char>| fragment_payload(f))
}

/// Reassembles the artifact of a whole raw fragment stream: each fragment
/// is decoded, undecodable fragments are skipped, and the decoded tokens
/// before the first sentinel are concatenated in arrival order.
pub fn accumulate_raw(frags: &Vec<String>) -> (r: String)
    ensures
        r@ == accumulated(decoded_tokens(payloads_of(frags.deep_view()))),
{
    let mut acc = crate::artifact::Accumulator::new();
    let n: usize = frags.len();
    let mut i: usize = 0;
    proof {
        assert(payloads_of(frags.deep_view()).skip(0) =~= payloads_of(frags.deep_view()));
        assert(Seq::<char>::empty() + accumulated(decoded_tokens(payloads_of(frags.deep_view())))
            =~= accumulated(decoded_tokens(payloads_of(frags.deep_view()))));
    }
    while i < n
        invariant
            n == frags.len(),
            0 <= i <= n,
            acc.finished ==> acc.text@ == accumulated(decoded_tokens(payloads_of(frags.deep_view()))),
            !acc.finished ==> accumulated(decoded_tokens(payloads_of(frags.deep_view())))
                == acc.text@ + accumulated(
                decoded_tokens(payloads_of(frags.deep_view()).skip(i as int)),
            ),
        decreases n - i,
    {
        let d = parse_fragment(frags[i].as_str());
        proof {
            crate::artifact::lemma_fragment_step(payloads_of(frags.deep_view()), i as int);
            assert(acc.text@ + Seq::<char>::empty() =~= acc.text@);
            assert(forall|a: Seq<char>, b: Seq<char>, c: Seq<char>|
                (a + b) + c =~= a + (b + c));
        }
        crate::artifact::push_decoded(&mut acc, &d);
        i = i + 1;
    }
    proof {
        if !acc.finished {
            assert(payloads_of(frags.deep_view()).skip(n as int) =~= Seq::<
                Option<Seq<char>>,
            >::empty());
            assert(acc.text@ =~= acc.text@ + Seq::<char>::empty());
        }
    }
    acc.text
}

/// Relies on `serde_json::to_string` on a one-entry, string-keyed object:
/// builds the JSON submission body carrying the prompt under its `prompt`
/// field.  Serializing a string-keyed object of one string cannot fail, and
/// the encoding depends on the prompt text alone.
#[verifier::external_body]
pub(crate) fn encode_prompt_body(prompt: &str) -> (r: String)
    ensures
        r@ == prompt_body(prompt@),
{
    let mut m = serde_json::Map::new();
    m.insert(String::from("prompt"), serde_json::Value::String(prompt.to_owned()));
    serde_json::to_string(&serde_json::Value::Object(m)).unwrap_or_default()
}

} // verus!
