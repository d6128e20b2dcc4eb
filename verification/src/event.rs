//! Stream events: the line framing of the push stream and the reserved
//! end-of-generation sentinel.
//!
//! Each unit pushed to a client is one line of the form `data:<token>`.  The
//! literal token `__DOWNLOAD__` is reserved: it signals end-of-generation and
//! must never be treated as content.

use vstd::prelude::*;

verus! {

/// The reserved end-of-generation marker, as a sequence of characters.
pub open spec fn sentinel_text() -> Seq<char> {
    "__DOWNLOAD__"@
}

/// The label that prefixes every published stream line.
pub open spec fn data_prefix() -> Seq<char> {
    "data:"@
}

/// What a client extracts from one published line: the token after the
/// `data:` label, or nothing when the line is not a data line.
pub open spec fn parse_line(l: Seq<char>) -> Option<Seq<char>> {
    if l.len() >= data_prefix().len() && l.subrange(0, data_prefix().len() as int)
        == data_prefix() {
        Some(l.subrange(data_prefix().len() as int, l.len() as int))
    } else {
        None
    }
}

/// Character-by-character string equality.
pub fn str_eq(a: &str, b: &str) -> (r: bool)
    ensures
        r == (a@ == b@),
{
    let alen: usize = a.unicode_len();
    let blen: usize = b.unicode_len();
    if alen != blen {
        proof {
            assert(a@ != b@) by {
                assert(a@.len() != b@.len());
            }
        }
        return false;
    }
    let mut i: usize = 0;
    while i < alen
        invariant
            alen == a@.len(),
            alen == b@.len(),
            0 <= i <= alen,
            forall|j: int| 0 <= j < i ==> a@[j] == b@[j],
        decreases alen - i,
    {
        if a.get_char(i) != b.get_char(i) {
            return false;
        }
        i = i + 1;
    }
    proof {
        assert(a@ =~= b@);
    }
    true
}

/// Whether a token is the reserved end-of-generation marker.
pub fn is_sentinel(s: &str) -> (r: bool)
    ensures
        r == (s@ == sentinel_text()),
{
    str_eq(s, "__DOWNLOAD__")
}

/// Formats one token as a published stream line: `data:` followed by the
/// token text.
pub fn format_data_line(token: &str) -> (l: String)
    ensures
        l@ == data_prefix() + token@,
{
    let mut l = String::from_str("data:");
    l.append(token);
    l
}

/// Extracts the token of one published line: the text after the `data:`
/// label, or `None` for a line that carries no payload.
pub fn strip_data_prefix(line: &str) -> (r: Option<String>)
    ensures
        r.deep_view() == parse_line(line@),
{
    proof {
        reveal_strlit("data:");
    }
    let len: usize = line.unicode_len();
    if len < 5 {
        return None;
    }
    let head = line.substring_char(0, 5);
    if str_eq(head, "data:") {
        let tail = line.substring_char(5, len);
        Some(tail.to_owned())
    } else {
        None
    }
}

/// The position of the first line feed in `s`, or `s.len()` when there is
/// none.
pub open spec fn first_nl(s: Seq<char>) -> int
    decreases s.len(),
{
    if s.len() == 0 {
        0
    } else if s[0] == '\n' {
        0
    } else {
        1 + first_nl(s.drop_first())
    }
}

/// A carriage return just before a line feed belongs to the line ending,
/// not to the line.
pub open spec fn strip_cr(l: Seq<char>) -> Seq<char> {
    if l.len() > 0 && l[l.len() - 1] == '\r' {
        l.drop_last()
    } else {
        l
    }
}

/// Bounds and meaning of `first_nl`: it points at the first line feed, and
/// at the end when there is none.
pub proof fn lemma_first_nl(s: Seq<char>)
    ensures
        0 <= first_nl(s) <= s.len(),
        first_nl(s) < s.len() ==> s[first_nl(s)] == '\n',
        forall|j: int| 0 <= j < first_nl(s) ==> s[j] != '\n',
    decreases s.len(),
{
    if s.len() > 0 && s[0] != '\n' {
        lemma_first_nl(s.drop_first());
        assert(forall|j: int| 1 <= j < first_nl(s) ==> s[j] == s.drop_first()[j - 1]);
    }
}

/// The lines of a text, as `str::lines` reads it: split at each line feed,
/// a carriage return before a line feed dropped, and no empty final line
/// after a trailing line feed.
pub open spec fn lines_of(s: Seq<char>) -> Seq<Seq<char>>
    decreases s.len(),
    via lines_of_decreases
{
    if s.len() == 0 {
        Seq::<Seq<char>>::empty()
    } else if first_nl(s) == s.len() {
        seq![s]
    } else {
        seq![strip_cr(s.subrange(0, first_nl(s)))] + lines_of(
            s.subrange(first_nl(s) + 1, s.len() as int),
        )
    }
}

#[via_fn]
proof fn lines_of_decreases(s: Seq<char>) {
    lemma_first_nl(s);
}

/// Splits a chunk of stream text into its lines: one entry per line-feed-
/// terminated line, with a carriage return before the line feed dropped,
/// and a last entry for trailing text not ended by a line feed.
pub fn split_lines(s: &str) -> (r: Vec<String>)
    ensures
        r.deep_view() == lines_of(s@),
{
    let len: usize = s.unicode_len();
    let mut r: Vec<String> = Vec::new();
    let mut start: usize = 0;
    let mut i: usize = 0;
    proof {
        assert(s@.subrange(0, len as int) =~= s@);
        assert(Seq::<Seq<char>>::empty() + lines_of(s@) =~= lines_of(s@));
    }
    while i < len
        invariant
            len == s@.len(),
            0 <= start <= i <= len,
            lines_of(s@) == r.deep_view() + lines_of(s@.subrange(start as int, len as int)),
            forall|j: int| start <= j < i ==> s@[j] != '\n',
        decreases len - i,
    {
        if s.get_char(i) == '\n' {
            let ghost rem = s@.subrange(start as int, len as int);
            proof {
                lemma_first_nl(rem);
                assert(rem[i - start] == '\n');
                assert(forall|j: int| 0 <= j < i - start ==> rem[j] != '\n');
                if first_nl(rem) < i - start {
                    assert(rem[first_nl(rem)] != '\n');
                }
                assert(first_nl(rem) == i - start);
                assert(rem.subrange(0, i - start) =~= s@.subrange(start as int, i as int));
                assert(rem.subrange(i - start + 1, rem.len() as int) =~= s@.subrange(
                    i as int + 1,
                    len as int,
                ));
            }
            let seg = if i > start && s.get_char(i - 1) == '\r' {
                proof {
                    assert(strip_cr(s@.subrange(start as int, i as int)) =~= s@.subrange(
                        start as int,
                        i as int - 1,
                    ));
                }
                s.substring_char(start, i - 1)
            } else {
                proof {
                    assert(strip_cr(s@.subrange(start as int, i as int)) =~= s@.subrange(
                        start as int,
                        i as int,
                    ));
                }
                s.substring_char(start, i)
            };
            let ghost r0 = r.deep_view();
            r.push(seg.to_owned());
            proof {
                assert(r.deep_view() =~= r0 + seq![strip_cr(s@.subrange(start as int, i as int))]);
                assert((r0 + seq![strip_cr(s@.subrange(start as int, i as int))]) + lines_of(
                    s@.subrange(i as int + 1, len as int),
                ) =~= r0 + (seq![strip_cr(s@.subrange(start as int, i as int))] + lines_of(
                    s@.subrange(i as int + 1, len as int),
                )));
            }
            start = i + 1;
        }
        i = i + 1;
    }
    let ghost rem = s@.subrange(start as int, len as int);
    proof {
        lemma_first_nl(rem);
        if rem.len() > 0 {
            if first_nl(rem) < rem.len() {
                assert(rem[first_nl(rem)] != '\n');
            }
            assert(first_nl(rem) == rem.len());
        }
    }
    if start < len {
        let seg = s.substring_char(start, len);
        let ghost r0 = r.deep_view();
        r.push(seg.to_owned());
        proof {
            assert(lines_of(rem) == seq![rem]);
            assert(r.deep_view() =~= r0 + seq![rem]);
        }
    } else {
        proof {
            assert(rem =~= Seq::<char>::empty());
            assert(r.deep_view() + lines_of(rem) =~= r.deep_view());
        }
    }
    r
}

/// Every line made by `format_data_line` parses back to exactly its token:
/// the framing of the push stream loses nothing and invents nothing.
pub proof fn lemma_line_round_trip(t: Seq<char>)
    ensures
        parse_line(data_prefix() + t) == Some(t),
{
    let l = data_prefix() + t;
    assert(l.subrange(0, data_prefix().len() as int) =~= data_prefix());
    assert(l.subrange(data_prefix().len() as int, l.len() as int) =~= t);
}

} // verus!
