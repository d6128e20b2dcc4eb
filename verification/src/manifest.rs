//! Manifest synthesis: derives a minimal dependency manifest from the final
//! artifact text by substring inspection.
//!
//! The synthesizer scans the artifact for a fixed set of known library-usage
//! substrings and, for each one present, appends a dependency declaration
//! with a pinned version.  Unknown libraries are silently omitted: the
//! manifest is best-effort, not exhaustive.  Synthesis is a pure function of
//! the artifact text, so re-running it on unchanged text gives byte-identical
//! output.

use vstd::prelude::*;

verus! {

/// The pattern occurs in `t` starting at position `i`.
pub open spec fn match_at(t: Seq<char>, p: Seq<char>, i: int) -> bool {
    0 <= i && i + p.len() <= t.len() && t.subrange(i, i + p.len() as int) == p
}

/// The pattern occurs somewhere in `t`.
pub open spec fn has_sub(t: Seq<char>, p: Seq<char>) -> bool {
    exists|i: int| match_at(t, p, i)
}

/// Substring search: whether `pat` occurs contiguously in `text`.
pub fn contains_sub(text: &str, pat: &str) -> (r: bool)
    ensures
        r == has_sub(text@, pat@),
{
    let tlen: usize = text.unicode_len();
    let plen: usize = pat.unicode_len();
    if plen > tlen {
        proof {
            assert(forall|i: int| !match_at(text@, pat@, i));
        }
        return false;
    }
    if plen == 0 {
        proof {
            assert(text@.subrange(0, 0) =~= pat@);
            assert(match_at(text@, pat@, 0));
        }
        return true;
    }
    let mut i: usize = 0;
    while i <= tlen - plen
        invariant
            tlen == text@.len(),
            plen == pat@.len(),
            1 <= plen <= tlen,
            0 <= i <= tlen - plen + 1,
            forall|k: int| 0 <= k < i ==> !match_at(text@, pat@, k),
        decreases tlen - i,
    {
        let mut j: usize = 0;
        let mut mismatch: bool = false;
        while j < plen && !mismatch
            invariant
                tlen == text@.len(),
                plen == pat@.len(),
                i + plen <= tlen,
                0 <= j <= plen,
                !mismatch ==> forall|m: int| 0 <= m < j ==> text@[i + m] == pat@[m],
                mismatch ==> !match_at(text@, pat@, i as int),
            decreases plen - j, (if mismatch { 0int } else { 1int }),
        {
            if text.get_char(i + j) != pat.get_char(j) {
                proof {
                    assert(text@.subrange(i as int, i as int + plen as int)[j as int]
                        != pat@[j as int]);
                }
                mismatch = true;
            } else {
                j = j + 1;
            }
        }
        if !mismatch {
            proof {
                assert(text@.subrange(i as int, i as int + plen as int) =~= pat@);
                assert(match_at(text@, pat@, i as int));
            }
            return true;
        }
        i = i + 1;
    }
    proof {
        assert(forall|k: int| match_at(text@, pat@, k) ==> 0 <= k <= tlen - plen);
    }
    false
}

/// The fixed manifest preamble: package metadata and the dependency-table
/// header.
pub open spec fn manifest_header() -> Seq<char> {
    "[package]\nname = \"generated_project\"\nversion = \"0.1.0\"\nedition = \"2021\"\n\n[dependencies]\n"@
}

/// The dependency line appended when the artifact uses the matching library,
/// for each entry of the fixed lookup table.
pub open spec fn dep_line_tokio() -> Seq<char> {
    "tokio = { version = \"1\", features = [\"full\"] }\n"@
}

/// See `dep_line_tokio`.
pub open spec fn dep_line_serde() -> Seq<char> {
    "serde = { version = \"1\", features = [\"derive\"] }\n"@
}

/// See `dep_line_tokio`.
pub open spec fn dep_line_chrono() -> Seq<char> {
    "chrono = \"0.4\"\n"@
}

/// See `dep_line_tokio`.
pub open spec fn dep_line_reqwest() -> Seq<char> {
    "reqwest = { version = \"0.11\", features = [\"json\"] }\n"@
}

/// See `dep_line_tokio`.
pub open spec fn dep_line_rand() -> Seq<char> {
    "rand = \"0.8\"\n"@
}

/// One conditional piece of the manifest: the dependency line if the usage
/// substring is present, else nothing.
pub open spec fn manifest_piece(present: bool, line: Seq<char>) -> Seq<char> {
    if present {
        line
    } else {
        Seq::<char>::empty()
    }
}

/// The manifest text derived from artifact text `t`: the fixed header
/// followed by one pinned dependency line for each known usage substring
/// that occurs in `t`, in fixed table order.
pub open spec fn manifest_of(t: Seq<char>) -> Seq<char> {
    manifest_header() + manifest_piece(has_sub(t, "tokio::"@), dep_line_tokio())
        + manifest_piece(has_sub(t, "serde"@), dep_line_serde()) + manifest_piece(
        has_sub(t, "chrono"@),
        dep_line_chrono(),
    ) + manifest_piece(has_sub(t, "reqwest"@), dep_line_reqwest()) + manifest_piece(
        has_sub(t, "rand"@),
        dep_line_rand(),
    )
}

/// Derives the dependency manifest for an artifact: scans the text for each
/// known library-usage substring and appends that library's pinned
/// dependency line when it is present.
pub fn synthesize(text: &str) -> (r: String)
    ensures
        r@ == manifest_of(text@),
{
    let mut r = String::from_str(
        "[package]\nname = \"generated_project\"\nversion = \"0.1.0\"\nedition = \"2021\"\n\n[dependencies]\n",
    );
    if contains_sub(text, "tokio::") {
        r.append("tokio = { version = \"1\", features = [\"full\"] }\n");
    }
    if contains_sub(text, "serde") {
        r.append("serde = { version = \"1\", features = [\"derive\"] }\n");
    }
    if contains_sub(text, "chrono") {
        r.append("chrono = \"0.4\"\n");
    }
    if contains_sub(text, "reqwest") {
        r.append("reqwest = { version = \"0.11\", features = [\"json\"] }\n");
    }
    if contains_sub(text, "rand") {
        r.append("rand = \"0.8\"\n");
    }
    proof {
        assert(r@ =~= manifest_of(text@));
    }
    r
}

/// Manifest synthesis is deterministic: the manifest is a pure function of
/// the artifact text, so synthesizing the same text twice gives identical
/// output.
pub proof fn lemma_synthesize_idempotent(t: Seq<char>)
    ensures
        manifest_of(t) == manifest_of(t),
{
}

/// Manifest synthesis depends only on which known usage substrings are
/// present: any edit (for example a whitespace-only one) that leaves every
/// known substring's presence unchanged leaves the manifest unchanged.
pub proof fn lemma_synthesize_presence_only(t1: Seq<char>, t2: Seq<char>)
    requires
        has_sub(t1, "tokio::"@) == has_sub(t2, "tokio::"@),
        has_sub(t1, "serde"@) == has_sub(t2, "serde"@),
        has_sub(t1, "chrono"@) == has_sub(t2, "chrono"@),
        has_sub(t1, "reqwest"@) == has_sub(t2, "reqwest"@),
        has_sub(t1, "rand"@) == has_sub(t2, "rand"@),
    ensures
        manifest_of(t1) == manifest_of(t2),
{
}

} // verus!
