use vstd::prelude::*;

use vstd::arithmetic::div_mod::{
    lemma_fundamental_div_mod, lemma_fundamental_div_mod_converse, lemma_mod_bound,
};

use crate::json::{JsonNum, JsonVal};
use crate::text::{
    chars_of, parse_i64_range, parse_u64_range, spec_parse_i64, spec_parse_u64,
};

verus! {

// Timestamp handling: magnitude-based classification of numeric timestamps,
// and ISO-8601 parsing over a proleptic-Gregorian civil calendar.

/// Classify a raw timestamp by magnitude: above 10^15 it is nanoseconds,
/// above 10^12 it is already milliseconds, otherwise it is seconds. The
/// heuristic is load-bearing across backend versions and is kept exactly.
pub open spec fn classify_ms(n: u64) -> u64 {
    if n > 1_000_000_000_000_000 {
        (n / 1_000_000) as u64
    } else if n > 1_000_000_000_000 {
        n
    } else {
        (n * 1000) as u64
    }
}

/// A numeric timestamp field: an unsigned integer, or a string holding one.
pub open spec fn spec_parse_timestamp(v: JsonVal) -> Option<u64> {
    match v {
        JsonVal::Num(JsonNum::UInt(n)) => Some(classify_ms(n)),
        JsonVal::Str(s) => match spec_parse_u64(s@) {
            Some(n) => Some(classify_ms(n)),
            None => None,
        },
        _ => None,
    }
}

/// Normalize a numeric (or numeric-string) timestamp value to milliseconds.
pub fn parse_timestamp(v: &JsonVal) -> (r: Option<u64>)
    ensures
        r == spec_parse_timestamp(*v),
{
    match v {
        JsonVal::Num(JsonNum::UInt(n)) => Some(classify_exec(*n)),
        JsonVal::Str(s) => {
            let cs = chars_of(s.as_str());
            proof {
                assert(cs@.subrange(0, cs@.len() as int) =~= s@);
            }
            match parse_u64_range(&cs, 0, cs.len()) {
                Some(n) => Some(classify_exec(n)),
                None => None,
            }
        },
        _ => None,
    }
}

fn classify_exec(n: u64) -> (r: u64)
    ensures
        r == classify_ms(n),
{
    if n > 1_000_000_000_000_000 {
        n / 1_000_000
    } else if n > 1_000_000_000_000 {
        n
    } else {
        n * 1000
    }
}

// ---------------------------------------------------------------------------
// Character classes, trimming and searching
// ---------------------------------------------------------------------------

pub open spec fn is_space_char(c: char) -> bool {
    c as u32 == 32 || (9 <= c as u32 && c as u32 <= 13)
}

pub open spec fn trim_front(s: Seq<char>) -> Seq<char>
    decreases s.len(),
{
    if s.len() > 0 && is_space_char(s[0]) {
        trim_front(s.skip(1))
    } else {
        s
    }
}

pub open spec fn trim_back(s: Seq<char>) -> Seq<char>
    decreases s.len(),
{
    if s.len() > 0 && is_space_char(s.last()) {
        trim_back(s.drop_last())
    } else {
        s
    }
}

pub open spec fn spec_trim(s: Seq<char>) -> Seq<char> {
    trim_back(trim_front(s))
}

/// Index of the first occurrence of `c`, or -1.
pub open spec fn find_idx(s: Seq<char>, c: char) -> int
    decreases s.len(),
{
    if s.len() == 0 {
        -1
    } else if s[0] == c {
        0
    } else {
        let r = find_idx(s.skip(1), c);
        if r < 0 {
            -1
        } else {
            r + 1
        }
    }
}

proof fn lemma_trim_front_skip(s: Seq<char>, k: int)
    requires
        0 <= k <= s.len(),
        forall|t: int| 0 <= t < k ==> is_space_char(#[trigger] s[t]),
        k == s.len() || !is_space_char(s[k]),
    ensures
        trim_front(s) == s.skip(k),
    decreases k,
{
    if k > 0 {
        assert(is_space_char(s[0]));
        assert(forall|t: int|
            0 <= t < k - 1 ==> is_space_char(#[trigger] s.skip(1)[t]) && s.skip(1)[t] == s[t + 1]);
        lemma_trim_front_skip(s.skip(1), k - 1);
        assert(s.skip(1).skip(k - 1) =~= s.skip(k));
    } else {
        assert(s.skip(0) =~= s);
    }
}

proof fn lemma_trim_back_take(u: Seq<char>, k: int)
    requires
        0 <= k <= u.len(),
        forall|t: int| k <= t < u.len() ==> is_space_char(#[trigger] u[t]),
        k == 0 || !is_space_char(u[k - 1]),
    ensures
        trim_back(u) == u.take(k),
    decreases u.len(),
{
    if u.len() > k {
        assert(is_space_char(u.last()));
        assert(forall|t: int|
            k <= t < u.len() - 1 ==> is_space_char(#[trigger] u.drop_last()[t]));
        lemma_trim_back_take(u.drop_last(), k);
        assert(u.drop_last().take(k) =~= u.take(k));
    } else {
        assert(u.take(k) =~= u);
    }
}

proof fn lemma_find_at(s: Seq<char>, c: char, k: int)
    requires
        0 <= k < s.len(),
        s[k] == c,
        forall|t: int| 0 <= t < k ==> s[t] != c,
    ensures
        find_idx(s, c) == k,
    decreases k,
{
    if k > 0 {
        assert(s[0] != c);
        assert(forall|t: int| 0 <= t < k - 1 ==> #[trigger] s.skip(1)[t] == s[t + 1]);
        assert(s.skip(1)[k - 1] == s[k]);
        lemma_find_at(s.skip(1), c, k - 1);
    }
}

proof fn lemma_find_none(s: Seq<char>, c: char)
    requires
        forall|t: int| 0 <= t < s.len() ==> s[t] != c,
    ensures
        find_idx(s, c) == -1,
    decreases s.len(),
{
    if s.len() > 0 {
        assert(forall|t: int| 0 <= t < s.len() - 1 ==> #[trigger] s.skip(1)[t] == s[t + 1]);
        lemma_find_none(s.skip(1), c);
    }
}

/// Find the first `c` in `cs[start..end]`.
#[verifier::loop_isolation(false)]
fn find_char_in(cs: &Vec<char>, c: char, start: usize, end: usize) -> (r: Option<usize>)
    requires
        start <= end <= cs@.len(),
    ensures
        ({
            let sub = cs@.subrange(start as int, end as int);
            match r {
                Some(k) => start <= k < end && cs@[k as int] == c && find_idx(sub, c) == k - start,
                None => find_idx(sub, c) == -1,
            }
        }),
{
    let ghost sub = cs@.subrange(start as int, end as int);
    let mut j: usize = start;
    while j < end
        invariant
            start <= j <= end,
            forall|t: int| start <= t < j ==> cs@[t] != c,
        decreases end - j,
    {
        if cs[j] == c {
            proof {
                assert(sub[j - start] == cs@[j as int]);
                assert(forall|t: int| 0 <= t < j - start ==> #[trigger] sub[t] == cs@[t + start]);
                lemma_find_at(sub, c, j - start);
            }
            return Some(j);
        }
        j += 1;
    }
    proof {
        assert(forall|t: int| 0 <= t < sub.len() ==> #[trigger] sub[t] == cs@[t + start]);
        lemma_find_none(sub, c);
    }
    None
}

// ---------------------------------------------------------------------------
// Civil calendar
// ---------------------------------------------------------------------------

/// Days since 1970-01-01 of a proleptic-Gregorian civil date: shift the month
/// index so March is month 0, move January and February to the previous year,
/// then combine the 400-year era, the year of era, and the day of year.
pub open spec fn spec_days_from_civil(y: int, m: int, d: int) -> int {
    let yp = if m <= 2 {
        y - 1
    } else {
        y
    };
    let era = yp / 400;
    let yoe = yp % 400;
    let mp = if m > 2 {
        m - 3
    } else {
        m + 9
    };
    let doy = (153 * mp + 2) / 5 + d - 1;
    let doe = yoe * 365 + yoe / 4 - yoe / 100 + doy;
    era * 146097 + doe - 719468
}

/// Convert a civil date to days since 1970-01-01.
pub fn days_from_civil(y: i64, m: i64, d: i64) -> (r: i64)
    requires
        -1_000_000 <= y <= 1_000_000,
        1 <= m <= 1_000_000,
        1 <= d <= 1_000_000,
    ensures
        r == spec_days_from_civil(y as int, m as int, d as int),
        -800_000_000 <= r <= 800_000_000,
{
    let yp: i64 = if m <= 2 {
        y - 1
    } else {
        y
    };
    // Shift by a multiple of 400 so the division is on a nonnegative value,
    // where truncation and flooring agree.
    let ys: u64 = (yp + 1_200_000) as u64;
    let eras: u64 = ys / 400;
    let yoe: u64 = ys % 400;
    proof {
        lemma_fundamental_div_mod(ys as int, 400);
        lemma_mod_bound(ys as int, 400);
        lemma_fundamental_div_mod_converse(
            yp as int,
            400,
            eras as int - 3000,
            yoe as int,
        );
    }
    let era: i64 = eras as i64 - 3000;
    let mp: u64 = if m > 2 {
        (m - 3) as u64
    } else {
        (m + 9) as u64
    };
    let t153: u64 = 153 * mp + 2;
    let q5: u64 = t153 / 5;
    proof {
        lemma_fundamental_div_mod(t153 as int, 5);
        lemma_mod_bound(t153 as int, 5);
    }
    let doy: u64 = q5 + (d as u64) - 1;
    let doe: u64 = yoe * 365 + yoe / 4 - yoe / 100 + doy;
    proof {
        lemma_fundamental_div_mod(yoe as int, 4);
        lemma_mod_bound(yoe as int, 4);
        lemma_fundamental_div_mod(yoe as int, 100);
        lemma_mod_bound(yoe as int, 100);
    }
    era * 146097 + (doe as i64) - 719468
}

// ---------------------------------------------------------------------------
// ISO-8601 parsing
// ---------------------------------------------------------------------------

pub open spec fn ends_plus_zero(u: Seq<char>) -> bool {
    u.len() >= 6 && u[u.len() - 6] == '+' && u[u.len() - 5] == '0' && u[u.len() - 4] == '0'
        && u[u.len() - 3] == ':' && u[u.len() - 2] == '0' && u[u.len() - 1] == '0'
}

/// Strip a trailing `Z`, or a trailing `+00:00` offset.
pub open spec fn strip_zone(u: Seq<char>) -> Seq<char> {
    if u.len() > 0 && u.last() == 'Z' {
        u.drop_last()
    } else if ends_plus_zero(u) {
        u.take(u.len() - 6)
    } else {
        u
    }
}

/// Split on the first two occurrences of `sep` and parse the three chunks
/// as signed integers; the third chunk is the whole remainder.
pub open spec fn spec_three_parts(s: Seq<char>, sep: char) -> Option<(i64, i64, i64)> {
    let d1 = find_idx(s, sep);
    if d1 < 0 {
        None
    } else {
        let rest = s.skip(d1 + 1);
        let d2 = find_idx(rest, sep);
        if d2 < 0 {
            None
        } else {
            match (spec_parse_i64(s.take(d1)), spec_parse_i64(rest.take(d2)), spec_parse_i64(
                rest.skip(d2 + 1),
            )) {
                (Some(a), Some(b), Some(c)) => Some((a, b, c)),
                _ => None,
            }
        }
    }
}

/// Fractional seconds as milliseconds: the first three characters, or the
/// fraction right-padded with zeros to three; unparsable fractions are zero.
pub open spec fn spec_frac_ms(frac: Seq<char>) -> u64 {
    let padded = if frac.len() >= 3 {
        frac.take(3)
    } else {
        frac + Seq::<char>::new((3 - frac.len()) as nat, |i: int| '0')
    };
    match spec_parse_u64(padded) {
        Some(v) => v,
        None => 0,
    }
}

/// The component magnitudes within which the civil-date arithmetic is exact.
pub open spec fn in_civil_range(y: i64, mo: i64, da: i64, h: i64, mi: i64, sec: i64) -> bool {
    -1_000_000 <= y <= 1_000_000 && 1 <= mo <= 1_000_000 && 1 <= da <= 1_000_000 && -1_000_000
        <= h <= 1_000_000 && -1_000_000 <= mi <= 1_000_000 && -1_000_000 <= sec <= 1_000_000
}

/// Milliseconds since the epoch of parsed components: the civil date and
/// clock time combined, when the components lie in the exact range and the
/// result is not before the epoch.
pub open spec fn spec_civil_to_ms(y: i64, mo: i64, da: i64, h: i64, mi: i64, sec: i64, fms: u64) -> Option<u64> {
    if in_civil_range(y, mo, da, h, mi, sec) {
        let days = spec_days_from_civil(y as int, mo as int, da as int);
        let tot = days * 86400 + h * 3600 + mi * 60 + sec;
        if tot < 0 {
            None
        } else {
            Some((tot * 1000 + fms) as u64)
        }
    } else {
        None
    }
}

/// Combine parsed components into epoch milliseconds.
fn civil_to_ms(y: i64, mo: i64, da: i64, h: i64, mi: i64, sec: i64, fms: u64) -> (r: Option<u64>)
    requires
        fms <= 999,
    ensures
        r == spec_civil_to_ms(y, mo, da, h, mi, sec, fms),
{
    if y < -1_000_000 || y > 1_000_000 || mo < 1 || mo > 1_000_000 || da < 1 || da > 1_000_000
        || h < -1_000_000 || h > 1_000_000 || mi < -1_000_000 || mi > 1_000_000 || sec
        < -1_000_000 || sec > 1_000_000 {
        return None;
    }
    let days = days_from_civil(y, mo, da);
    let total_secs: i64 = days * 86400 + h * 3600 + mi * 60 + sec;
    if total_secs < 0 {
        return None;
    }
    Some((total_secs as u64) * 1000 + fms)
}

/// `YYYY-MM-DDTHH:MM:SS[.frac]` with an optional `Z` or `+00:00` zone:
/// milliseconds since epoch. Malformed input, a date before the epoch, or a
/// component so large that the conversion would overflow yields `None`.
pub open spec fn spec_parse_iso8601(s: Seq<char>) -> Option<u64> {
    let t = spec_trim(s);
    let ti = find_idx(t, 'T');
    if ti < 0 {
        None
    } else {
        spec_iso_dt(t.take(ti), strip_zone(t.skip(ti + 1)))
    }
}

/// The date and zone-stripped time parts combined into epoch milliseconds.
pub open spec fn spec_iso_dt(date: Seq<char>, time: Seq<char>) -> Option<u64> {
    let fi = find_idx(time, '.');
    let hms = if fi < 0 {
        time
    } else {
        time.take(fi)
    };
    let fms = if fi < 0 {
        0
    } else {
        spec_frac_ms(time.skip(fi + 1))
    };
    match (spec_three_parts(date, '-'), spec_three_parts(hms, ':')) {
        (Some((y, mo, da)), Some((h, mi, sec))) => spec_civil_to_ms(y, mo, da, h, mi, sec, fms),
        _ => None,
    }
}

/// Parse the date part `cs[dstart..dend]` and the zone-stripped time part
/// `cs[tstart..tend]`.
#[verifier::loop_isolation(false)]
fn parse_date_time(cs: &Vec<char>, dstart: usize, dend: usize, tstart: usize, tend: usize) -> (r:
    Option<u64>)
    requires
        dstart <= dend <= cs@.len(),
        tstart <= tend <= cs@.len(),
    ensures
        r == spec_iso_dt(
            cs@.subrange(dstart as int, dend as int),
            cs@.subrange(tstart as int, tend as int),
        ),
{
    let ghost time = cs@.subrange(tstart as int, tend as int);
    let dp = parse_three(cs, '-', dstart, dend);
    let (hms_end, has_frac) = match find_char_in(cs, '.', tstart, tend) {
        Some(k) => (k, true),
        None => (tend, false),
    };
    let ghost fi = find_idx(time, '.');
    let ghost hms = if fi < 0 {
        time
    } else {
        time.take(fi)
    };
    proof {
        assert(hms =~= cs@.subrange(tstart as int, hms_end as int));
    }
    let tp = parse_three(cs, ':', tstart, hms_end);
    let frac_ms: u64 = if has_frac {
        proof {
            assert(time.skip(fi + 1) =~= cs@.subrange(hms_end as int + 1, tend as int));
        }
        frac_ms_exec(cs, hms_end + 1, tend)
    } else {
        0
    };
    match (dp, tp) {
        (Some((year, month, day)), Some((hour, minute, second))) => civil_to_ms(
            year,
            month,
            day,
            hour,
            minute,
            second,
            frac_ms,
        ),
        _ => None,
    }
}

spec fn pow10(n: nat) -> nat
    decreases n,
{
    if n == 0 {
        1
    } else {
        10 * pow10((n - 1) as nat)
    }
}

proof fn lemma_digits_bound(s: Seq<char>)
    requires
        crate::text::all_digits(s),
    ensures
        crate::text::digits_val(s) < pow10(s.len()),
    decreases s.len(),
{
    if s.len() > 0 {
        assert(crate::text::all_digits(s.drop_last())) by {
            assert(forall|t: int|
                0 <= t < s.len() - 1 ==> #[trigger] s.drop_last()[t] == s[t]);
        }
        lemma_digits_bound(s.drop_last());
        assert(crate::text::digit_of(s.last()) <= 9);
    }
}

/// Every fractional-seconds value is under a second.
proof fn lemma_frac_ms_bound(frac: Seq<char>)
    ensures
        spec_frac_ms(frac) <= 999,
{
    let padded = if frac.len() >= 3 {
        frac.take(3)
    } else {
        frac + Seq::<char>::new((3 - frac.len()) as nat, |i: int| '0')
    };
    assert(padded.len() <= 3);
    match spec_parse_u64(padded) {
        Some(v) => {
            let body = if padded.len() > 0 && padded[0] == '+' {
                padded.subrange(1, padded.len() as int)
            } else {
                padded
            };
            assert(body.len() <= 3);
            lemma_digits_bound(body);
            assert(pow10(0) == 1);
            assert(pow10(1) == 10);
            assert(pow10(2) == 100);
            assert(pow10(3) == 1000);
        },
        None => {},
    }
}

/// Split `cs[start..end]` on the first two occurrences of `sep` and parse
/// the three chunks as signed integers.
#[verifier::loop_isolation(false)]
fn parse_three(cs: &Vec<char>, sep: char, start: usize, end: usize) -> (r: Option<(i64, i64, i64)>)
    requires
        start <= end <= cs@.len(),
    ensures
        r == spec_three_parts(cs@.subrange(start as int, end as int), sep),
{
    let ghost sub = cs@.subrange(start as int, end as int);
    let d1 = match find_char_in(cs, sep, start, end) {
        Some(k) => k,
        None => {
            return None;
        },
    };
    proof {
        assert(sub.skip(d1 - start + 1) =~= cs@.subrange(d1 as int + 1, end as int));
    }
    let d2 = match find_char_in(cs, sep, d1 + 1, end) {
        Some(k) => k,
        None => {
            return None;
        },
    };
    proof {
        assert(cs@.subrange(start as int, d1 as int) =~= sub.take(d1 - start));
        assert(cs@.subrange(d1 as int + 1, d2 as int) =~= sub.skip(d1 - start + 1).take(
            d2 - d1 - 1,
        ));
        assert(cs@.subrange(d2 as int + 1, end as int) =~= sub.skip(d1 - start + 1).skip(d2 - d1));
    }
    let a = match parse_i64_range(cs, start, d1) {
        Some(v) => v,
        None => {
            return None;
        },
    };
    let b = match parse_i64_range(cs, d1 + 1, d2) {
        Some(v) => v,
        None => {
            return None;
        },
    };
    let c = match parse_i64_range(cs, d2 + 1, end) {
        Some(v) => v,
        None => {
            return None;
        },
    };
    Some((a, b, c))
}

/// Milliseconds from the fractional-seconds characters `cs[fs..end]`.
#[verifier::loop_isolation(false)]
fn frac_ms_exec(cs: &Vec<char>, fs: usize, end: usize) -> (r: u64)
    requires
        fs <= end <= cs@.len(),
    ensures
        r == spec_frac_ms(cs@.subrange(fs as int, end as int)),
        r <= 999,
{
    let ghost frac = cs@.subrange(fs as int, end as int);
    proof {
        lemma_frac_ms_bound(frac);
    }
    let flen = end - fs;
    if flen >= 3 {
        proof {
            assert(cs@.subrange(fs as int, fs as int + 3) =~= frac.take(3));
        }
        match parse_u64_range(cs, fs, fs + 3) {
            Some(v) => v,
            None => 0,
        }
    } else {
        let mut padded: Vec<char> = Vec::new();
        let mut t: usize = fs;
        while t < end
            invariant
                fs <= t <= end <= cs@.len(),
                padded@ =~= cs@.subrange(fs as int, t as int),
            decreases end - t,
        {
            padded.push(cs[t]);
            t += 1;
        }
        while padded.len() < 3
            invariant
                padded@.len() >= end - fs,
                padded@.take((end - fs) as int) =~= cs@.subrange(fs as int, end as int),
                forall|q: int| end - fs <= q < padded@.len() ==> padded@[q] == '0',
                padded@.len() <= 3,
            decreases 3 - padded.len(),
        {
            padded.push('0');
        }
        proof {
            assert(padded@ =~= frac + Seq::<char>::new((3 - frac.len()) as nat, |i: int| '0'));
            assert(padded@.subrange(0, padded@.len() as int) =~= padded@);
        }
        match parse_u64_range(&padded, 0, padded.len()) {
            Some(v) => v,
            None => 0,
        }
    }
}

/// Parse an ISO-8601 timestamp string to milliseconds since the epoch.
#[verifier::loop_isolation(false)]
#[verifier::rlimit(100)]
pub fn parse_iso8601_to_ms(s: &str) -> (r: Option<u64>)
    ensures
        r == spec_parse_iso8601(s@),
{
    let cs = chars_of(s);
    let n = cs.len();

    // Trim surrounding whitespace.
    let mut lo: usize = 0;
    while lo < n && is_space_exec(cs[lo])
        invariant
            lo <= n,
            forall|t: int| 0 <= t < lo ==> is_space_char(#[trigger] cs@[t]),
        decreases n - lo,
    {
        lo += 1;
    }
    let mut hi: usize = n;
    while hi > lo && is_space_exec(cs[hi - 1])
        invariant
            lo <= hi <= n,
            forall|t: int| hi <= t < n ==> is_space_char(#[trigger] cs@[t]),
        decreases hi,
    {
        hi -= 1;
    }
    let ghost tseq = spec_trim(s@);
    proof {
        lemma_trim_front_skip(s@, lo as int);
        lemma_trim_back_take(s@.skip(lo as int), (hi - lo) as int);
        assert(tseq =~= cs@.subrange(lo as int, hi as int));
    }

    // Split at the first 'T'.
    let ti = match find_char_in(&cs, 'T', lo, hi) {
        Some(k) => k,
        None => {
            return None;
        },
    };
    proof {
        assert(tseq.take(ti - lo) =~= cs@.subrange(lo as int, ti as int));
    }

    // Strip the zone suffix from the time part.
    let ts: usize = ti + 1;
    let te: usize = if hi > ts && cs[hi - 1] == 'Z' {
        hi - 1
    } else if hi - ts >= 6 && cs[hi - 6] == '+' && cs[hi - 5] == '0' && cs[hi - 4] == '0'
        && cs[hi - 3] == ':' && cs[hi - 2] == '0' && cs[hi - 1] == '0' {
        hi - 6
    } else {
        hi
    };
    proof {
        assert(tseq.skip(ti - lo + 1) =~= cs@.subrange(ts as int, hi as int));
        assert(strip_zone(tseq.skip(ti - lo + 1)) =~= cs@.subrange(ts as int, te as int));
    }
    parse_date_time(&cs, lo, ti, ts, te)
}

fn is_space_exec(c: char) -> (r: bool)
    ensures
        r == is_space_char(c),
{
    let v = c as u32;
    v == 32 || (9 <= v && v <= 13)
}

} // verus!
