//! Peeking into a downloaded flat file: gunzip it and keep the first lines
//! of its CSV text.

use vstd::prelude::*;
use crate::text::chars_of;
use crate::text::string_of_range;

verus! {

/// The UTF-8 text that gunzipping `bytes` yields, `None` where the bytes
/// are not a gzip stream or do not decompress to valid UTF-8.
pub uninterp spec fn gunzip_utf8(bytes: Seq<u8>) -> Option<Seq<char>>;

/// `flate2::read::GzDecoder` over `gz`, read to the end into a `String`
/// with `std::io::Read::read_to_string`. Claimed: the outcome is a function
/// of the bytes alone, `gunzip_utf8(gz)`; which I/O error a failure carried
/// is not kept.
#[verifier::external_body]
fn gunzip_text(gz: &[u8]) -> (r: Option<String>)
    ensures
        match r {
            Some(t) => gunzip_utf8(gz@) == Some(t@),
            None => gunzip_utf8(gz@) is None,
        },
{
    let mut decoder = flate2::read::GzDecoder::new(gz);
    let mut buf = String::new();
    match std::io::Read::read_to_string(&mut decoder, &mut buf) {
        Ok(_) => Some(buf),
        Err(_) => None,
    }
}

/// Index of the first `'\n'` in `s`, or `s.len()` when there is none.
pub open spec fn first_newline(s: Seq<char>) -> nat
    decreases s.len(),
{
    if s.len() == 0 {
        0
    } else if s[0] == '\n' {
        0
    } else {
        1 + first_newline(s.drop_first())
    }
}

/// `line` without one trailing `'\r'`.
pub open spec fn strip_cr(line: Seq<char>) -> Seq<char> {
    if line.len() > 0 && line.last() == '\r' {
        line.drop_last()
    } else {
        line
    }
}

/// The lines of `s` as `str::lines` yields them: split after each `'\n'`,
/// each line without its `"\n"` or `"\r\n"` ending, and no empty line after
/// a final line ending.
pub open spec fn lines_of(s: Seq<char>) -> Seq<Seq<char>>
    decreases s.len(),
{
    if s.len() == 0 {
        Seq::empty()
    } else {
        let j = first_newline(s);
        if j >= s.len() {
            seq![s]
        } else {
            seq![strip_cr(s.take(j as int))] + lines_of(s.skip(j + 1 as int))
        }
    }
}

/// The views of a sequence of strings.
pub open spec fn string_views(v: Seq<String>) -> Seq<Seq<char>> {
    Seq::new(v.len(), |i: int| v[i]@)
}

proof fn lemma_first_newline_bounded(s: Seq<char>)
    ensures
        first_newline(s) <= s.len(),
        first_newline(s) < s.len() ==> s[first_newline(s) as int] == '\n',
    decreases s.len(),
{
    if s.len() > 0 && s[0] != '\n' {
        lemma_first_newline_bounded(s.drop_first());
    }
}

/// A newline at `j`, with none in `[start, j)`, is the first newline of
/// the suffix at `start`; so is the end of `s` when there is none.
proof fn lemma_first_newline_at(s: Seq<char>, start: int, j: int)
    requires
        0 <= start <= j <= s.len(),
        forall|k: int| start <= k < j ==> s[k] != '\n',
        j < s.len() ==> s[j] == '\n',
    ensures
        first_newline(s.skip(start)) == j - start,
    decreases j - start,
{
    let t = s.skip(start);
    if start < j {
        lemma_first_newline_at(s, start + 1, j);
        assert(t.drop_first() =~= s.skip(start + 1));
    } else if j < s.len() {
        assert(t[0] == s[j]);
    } else {
        assert(t.len() == 0);
    }
}

/// The first `n` lines of `text` (fewer where it has fewer).
pub fn first_lines(text: &str, n: usize) -> (r: Vec<String>)
    ensures
        string_views(r@) == lines_of(text@).take(
            if n < lines_of(text@).len() { n as int } else { lines_of(text@).len() as int },
        ),
{
    let cs = chars_of(text);
    let len = cs.len();
    let ghost s = text@;
    let mut out: Vec<String> = Vec::new();
    let mut start: usize = 0;
    proof {
        assert(s.skip(0) =~= s);
        assert(string_views(out@) =~= Seq::<Seq<char>>::empty());
        assert(string_views(out@) + lines_of(s) =~= lines_of(s));
    }
    while start < len && out.len() < n
        invariant
            cs@ == s,
            len == s.len(),
            start <= len,
            out.len() <= n,
            lines_of(s) == string_views(out@) + lines_of(s.skip(start as int)),
        decreases len - start,
    {
        let mut j: usize = start;
        while j < len && cs[j] != '\n'
            invariant
                cs@ == s,
                len == s.len(),
                start <= j <= len,
                forall|k: int| start <= k < j ==> s[k] != '\n',
            decreases len - j,
        {
            j += 1;
        }
        let ghost rest = s.skip(start as int);
        proof {
            lemma_first_newline_at(s, start as int, j as int);
            assert(rest.take(j - start) =~= s.subrange(start as int, j as int));
        }
        let end: usize = if j > start && cs[j - 1] == '\r' && j < len { j - 1 } else { j };
        let line = string_of_range(&cs, start, end);
        let ghost before = string_views(out@);
        out.push(line);
        proof {
            if j < len {
                assert(line@ =~= strip_cr(rest.take(j - start)));
                assert(rest.skip(j - start + 1) =~= s.skip(j + 1));
                assert(lines_of(rest) == seq![line@] + lines_of(s.skip(j + 1)));
            } else {
                assert(line@ =~= rest);
                assert(lines_of(rest) == seq![line@]);
                assert(s.skip(len as int).len() == 0);
                assert(lines_of(s.skip(len as int)) =~= Seq::<Seq<char>>::empty());
            }
            assert(string_views(out@) =~= before + seq![line@]);
        }
        start = if j < len { j + 1 } else { len };
    }
    proof {
        let v = string_views(out@);
        let all = lines_of(s);
        if start >= len {
            assert(s.skip(start as int).len() == 0);
            assert(lines_of(s.skip(start as int)) =~= Seq::<Seq<char>>::empty());
            assert(all =~= v);
        }
        assert(all.take(v.len() as int) =~= v);
    }
    out
}

/// The first `n` lines of the text in a gzipped flat file; `None` where
/// the bytes do not gunzip to UTF-8 text.
pub fn gunzip_first_lines(gz: &[u8], n: usize) -> (r: Option<Vec<String>>)
    ensures
        match gunzip_utf8(gz@) {
            Some(t) => r matches Some(ls) && string_views(ls@) == lines_of(t).take(
                if n < lines_of(t).len() { n as int } else { lines_of(t).len() as int },
            ),
            None => r is None,
        },
{
    match gunzip_text(gz) {
        Some(t) => Some(first_lines(t.as_str(), n)),
        None => None,
    }
}

} // verus!
