//! Small rules of the ingest tools: EDGAR accession numbers and CIKs, the
//! flat-file key and output file names, and which day's flat file is safely
//! published.

use vstd::prelude::*;
use crate::dates::{chrono_date_text, chrono_ymd_of_day, date_text, is_weekend, spec_weekday_from_monday, ymd_of_day};
use crate::text::{chars_of, decimal, decimal_chars, string_of};

verus! {

/// Index just past the last `/` of `s` (0 when there is none).
pub open spec fn after_last_slash(s: Seq<char>) -> int
    decreases s.len(),
{
    if s.len() == 0 {
        0
    } else if s.last() == '/' {
        s.len() as int
    } else {
        after_last_slash(s.drop_last())
    }
}

proof fn lemma_after_last_slash(s: Seq<char>)
    ensures
        0 <= after_last_slash(s) <= s.len(),
    decreases s.len(),
{
    if s.len() > 0 {
        lemma_after_last_slash(s.drop_last());
    }
}

/// The accession number at the end of an EDGAR filing URL: the text after
/// its last `/` (the whole text when it has none).
pub fn accession_from_url(url: &str) -> (r: Option<String>)
    ensures
        r matches Some(a) && a@ == url@.skip(after_last_slash(url@)),
{
    let cs = chars_of(url);
    let mut start: usize = 0;
    let mut i: usize = 0;
    while i < cs.len()
        invariant
            i <= cs@.len(),
            cs@ == url@,
            start == after_last_slash(cs@.take(i as int)),
            start <= i,
        decreases cs@.len() - i,
    {
        assert(cs@.take(i as int + 1).drop_last() =~= cs@.take(i as int));
        if cs[i] == '/' {
            start = i + 1;
        }
        i += 1;
    }
    assert(cs@.take(cs@.len() as int) =~= cs@);
    let mut tail: Vec<char> = Vec::new();
    let mut k: usize = start;
    while k < cs.len()
        invariant
            start <= k <= cs@.len(),
            tail@ == cs@.subrange(start as int, k as int),
        decreases cs@.len() - k,
    {
        tail.push(cs[k]);
        assert(cs@.subrange(start as int, k as int + 1) =~= cs@.subrange(start as int, k as int).push(cs@[k as int]));
        k += 1;
    }
    assert(tail@ =~= url@.skip(after_last_slash(url@)));
    Some(string_of(&tail))
}

/// Number of leading `'0'` characters.
pub open spec fn leading_zeros(s: Seq<char>) -> nat
    decreases s.len(),
{
    if s.len() > 0 && s[0] == '0' {
        1 + leading_zeros(s.drop_first())
    } else {
        0
    }
}

proof fn lemma_leading_zeros(s: Seq<char>)
    ensures
        leading_zeros(s) <= s.len(),
        leading_zeros(s) < s.len() ==> s[leading_zeros(s) as int] != '0',
        forall|k: int| 0 <= k < leading_zeros(s) ==> s[k] == '0',
    decreases s.len(),
{
    if s.len() > 0 && s[0] == '0' {
        lemma_leading_zeros(s.drop_first());
        assert forall|k: int| 0 <= k < leading_zeros(s) implies s[k] == '0' by {
            if k > 0 {
                assert(s[k] == s.drop_first()[k - 1]);
            }
        }
    }
}

/// `n` zero characters.
pub open spec fn zeros(n: int) -> Seq<char> {
    Seq::new(if n > 0 { n as nat } else { 0 }, |_k: int| '0')
}

/// A CIK as EDGAR wants it: leading zeros dropped, then left-padded with
/// zeros to ten characters (longer values stay as they are).
pub open spec fn padded_cik(cik: Seq<char>) -> Seq<char> {
    let t = cik.skip(leading_zeros(cik) as int);
    zeros(10 - t.len()) + t
}

pub fn pad_cik(cik: &str) -> (r: String)
    ensures
        r@ == padded_cik(cik@),
{
    let cs = chars_of(cik);
    proof { lemma_leading_zeros(cs@); }
    let mut lo: usize = 0;
    while lo < cs.len() && cs[lo] == '0'
        invariant
            lo <= leading_zeros(cs@),
            leading_zeros(cs@) <= cs@.len(),
            leading_zeros(cs@) < cs@.len() ==> cs@[leading_zeros(cs@) as int] != '0',
            forall|k: int| 0 <= k < leading_zeros(cs@) ==> cs@[k] == '0',
        decreases cs@.len() - lo,
    {
        lo += 1;
    }
    let n = cs.len() - lo;
    let mut out: Vec<char> = Vec::new();
    let mut z: usize = n;
    while z < 10
        invariant
            n <= z <= 10 || (z == n && n >= 10),
            out@ == zeros(z - n),
        decreases 10 - z,
    {
        out.push('0');
        assert(zeros(z + 1 - n) =~= zeros(z - n).push('0'));
        z += 1;
    }
    assert(out@ =~= zeros(10 - n as int));
    let mut k: usize = lo;
    let ghost pad = out@;
    while k < cs.len()
        invariant
            lo <= k <= cs@.len(),
            out@ == pad + cs@.subrange(lo as int, k as int),
        decreases cs@.len() - k,
    {
        out.push(cs[k]);
        assert(cs@.subrange(lo as int, k as int + 1) =~= cs@.subrange(lo as int, k as int).push(cs@[k as int]));
        k += 1;
    }
    assert(lo == leading_zeros(cs@));
    assert(out@ =~= padded_cik(cik@));
    string_of(&out)
}

/// `YYYY-MM-DD.csv.gz` → `YYYY-MM-DD.parquet`: the file name with the
/// `.csv.gz` suffix replaced; `None` when it lacks that suffix.
pub fn out_file_name(file_name: &str) -> (r: Option<String>)
    ensures
        match r {
            Some(o) => {
                &&& file_name@.len() >= 7
                &&& file_name@.skip(file_name@.len() - 7) == ".csv.gz"@
                &&& o@ == file_name@.take(file_name@.len() - 7) + ".parquet"@
            },
            None => !(file_name@.len() >= 7 && file_name@.skip(file_name@.len() - 7) == ".csv.gz"@),
        },
{
    let cs = chars_of(file_name);
    let suffix = chars_of(".csv.gz");
    proof { reveal_strlit(".csv.gz"); }
    if !crate::text::chars_end_with(&cs, &suffix) {
        return None;
    }
    let stem_len = cs.len() - suffix.len();
    let mut out: Vec<char> = Vec::new();
    let mut i: usize = 0;
    while i < stem_len
        invariant
            i <= stem_len <= cs@.len(),
            out@ == cs@.take(i as int),
        decreases stem_len - i,
    {
        out.push(cs[i]);
        assert(cs@.take(i as int + 1) =~= cs@.take(i as int).push(cs@[i as int]));
        i += 1;
    }
    let mut ext = chars_of(".parquet");
    out.append(&mut ext);
    Some(string_of(&out))
}


/// The latest Monday-to-Friday day on or before `day`.
pub open spec fn weekday_on_or_before(day: int) -> int {
    let w = spec_weekday_from_monday(day);
    if w == 5 { day - 1 } else if w == 6 { day - 2 } else { day }
}

fn step_back_to_weekday(day: i32) -> (r: i32)
    requires
        day >= i32::MIN + 2,
    ensures
        r == weekday_on_or_before(day as int),
        day - 2 <= r <= day,
{
    let mut d = day;
    while is_weekend(d)
        invariant
            day - 2 <= d <= day,
            spec_weekday_from_monday(d as int) >= 5 ==> weekday_on_or_before(d as int) == weekday_on_or_before(day as int),
            spec_weekday_from_monday(d as int) < 5 ==> d == weekday_on_or_before(day as int),
            d < day ==> spec_weekday_from_monday(day as int) >= 5,
            d == day - 2 ==> spec_weekday_from_monday(day as int) == 6,
        decreases d - (day - 2),
    {
        d = d - 1;
    }
    d
}

/// The day two days back, moved back further to a weekday: the flat file
/// of that day is safely published.
pub fn most_recent_safe_weekday(today: i32) -> (r: i32)
    requires
        today >= i32::MIN + 4,
    ensures
        r == weekday_on_or_before(today - 2),
{
    step_back_to_weekday(today - 2)
}

/// From yesterday, back to the latest weekday, then one more day back to a
/// weekday again: two publication days behind.
pub fn most_recent_weekday(today: i32) -> (r: i32)
    requires
        today >= i32::MIN + 8,
    ensures
        r == weekday_on_or_before(weekday_on_or_before(today - 1) - 1),
{
    let d = step_back_to_weekday(today - 1);
    step_back_to_weekday(d - 1)
}

/// `{:0w}` formatting of a non-negative integer: zero-padded to width `w`.
pub open spec fn zero_padded(n: nat, w: int) -> Seq<char> {
    zeros(w - decimal(n).len()) + decimal(n)
}

pub(crate) fn push_zero_padded(out: &mut Vec<char>, n: u64, w: usize)
    ensures
        final(out)@ == old(out)@ + zero_padded(n as nat, w as int),
{
    let mut d = decimal_chars(n);
    let ghost start = out@;
    let mut z: usize = d.len();
    while z < w
        invariant
            d@ == decimal(n as nat),
            d@.len() <= z,
            z <= w || z == d@.len(),
            out@ == start + zeros(z - d@.len()),
        decreases w - z,
    {
        out.push('0');
        assert(zeros(z + 1 - d@.len()) =~= zeros(z - d@.len()).push('0'));
        z += 1;
    }
    assert(zeros(z - d@.len()) =~= zeros(w - d@.len()));
    out.append(&mut d);
    assert(out@ =~= start + zero_padded(n as nat, w as int));
}

/// A year as `{:04}` formats an `i32`: zero-padded to four characters,
/// the sign counted among them.
pub open spec fn year_text(y: int) -> Seq<char> {
    if y >= 0 { zero_padded(y as nat, 4) } else { "-"@ + zero_padded((-y) as nat, 3) }
}

/// The flat-file key of a day's minute aggregates:
/// `us_stocks_sip/minute_aggs_v1/<year>/<month>/<date>.csv.gz`, year padded
/// to four characters and month to two, `<date>` the date's `YYYY-MM-DD`
/// text. `None` only for a day number outside chrono's date range.
pub fn minute_aggs_key(day: i32) -> (r: Option<String>)
    ensures
        match (chrono_ymd_of_day(day), chrono_date_text(day)) {
            (Some((y, m, _)), Some(t)) =>
                r matches Some(k) && k@ == "us_stocks_sip/minute_aggs_v1/"@ + year_text(y as int) + "/"@
                    + zero_padded(m as nat, 2) + "/"@ + t + ".csv.gz"@,
            _ => r is None,
        },
{
    let (y, m, _) = match ymd_of_day(day) {
        Some(ymd) => ymd,
        None => return None,
    };
    let text = match date_text(day) {
        Some(t) => t,
        None => return None,
    };
    let mut out = chars_of("us_stocks_sip/minute_aggs_v1/");
    let ghost pre = out@;
    if y >= 0 {
        push_zero_padded(&mut out, y as u64, 4);
    } else {
        out.push('-');
        let a: u64 = (-(y as i64)) as u64;
        push_zero_padded(&mut out, a, 3);
        proof { reveal_strlit("-"); }
        assert(out@ =~= pre + year_text(y as int));
    }
    assert(out@ =~= pre + year_text(y as int));
    out.push('/');
    push_zero_padded(&mut out, m as u64, 2);
    out.push('/');
    let mut tc = chars_of(text.as_str());
    out.append(&mut tc);
    let mut ext = chars_of(".csv.gz");
    out.append(&mut ext);
    proof { reveal_strlit("/"); }
    assert(out@ =~= "us_stocks_sip/minute_aggs_v1/"@ + year_text(y as int) + "/"@
        + zero_padded(m as nat, 2) + "/"@ + text@ + ".csv.gz"@);
    Some(string_of(&out))
}


/// The weekday found is a weekday, no later than the day and at most two
/// days earlier, and searching again from it finds it again.
pub proof fn law_weekday_on_or_before(day: int)
    ensures
        spec_weekday_from_monday(weekday_on_or_before(day)) < 5,
        day - 2 <= weekday_on_or_before(day) <= day,
        weekday_on_or_before(weekday_on_or_before(day)) == weekday_on_or_before(day),
{
}

/// A padded CIK is at least ten characters long, and padding it again
/// changes nothing.
pub proof fn law_pad_cik_is_idempotent(cik: Seq<char>)
    ensures
        padded_cik(cik).len() >= 10,
        padded_cik(padded_cik(cik)) == padded_cik(cik),
{
    let t = cik.skip(leading_zeros(cik) as int);
    lemma_leading_zeros(cik);
    let p = padded_cik(cik);
    let z = zeros(10 - t.len());
    assert(p == z + t);
    lemma_leading_zeros_of_padding(z, t);
    assert(p.skip(leading_zeros(p) as int) =~= t);
}

proof fn lemma_leading_zeros_of_padding(z: Seq<char>, t: Seq<char>)
    requires
        forall|k: int| 0 <= k < z.len() ==> z[k] == '0',
        t.len() > 0 ==> t[0] != '0',
    ensures
        leading_zeros(z + t) == z.len(),
    decreases z.len(),
{
    if z.len() > 0 {
        assert((z + t).drop_first() =~= z.drop_first() + t);
        lemma_leading_zeros_of_padding(z.drop_first(), t);
    } else {
        assert(z + t =~= t);
    }
}

} // verus!
