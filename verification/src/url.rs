//! Data-feed URL construction.
//!
//! The feed stores one compressed file per instrument and UTC hour, at
//! `{base}/{INSTRUMENT}/{year}/{month}/{day}/{hour}h_ticks.bi5`, with the
//! instrument uppercased, the month *zero-indexed* (January is `00`, the
//! provider's convention), and the month, day and hour zero-padded to two
//! digits.

use vstd::prelude::*;

use crate::text::chars_to_string;
use crate::text::dec_chars_padded;
use crate::text::dec_val;
use crate::text::is_digit;
use crate::text::parse_dec_fixed;
use crate::text::pow10;
use crate::text::lemma_dec_chars_padded_value;
use crate::text::push_decimal_padded;
use crate::text::push_str_chars;
use crate::text::str_to_chars;
use crate::text::to_upper;
use crate::text::upper_char;
use crate::time::Date;
use crate::time::DateHour;

verus! {

/// Base URL of the data feed.
pub open spec fn base_url_chars() -> Seq<char> {
    "https://datafeed.dukascopy.com/datafeed"@
}

/// The characters of `s` with lowercase ASCII letters uppercased.
pub open spec fn upper_seq(s: Seq<char>) -> Seq<char> {
    Seq::new(s.len(), |i: int| upper_char(s[i]))
}

/// The path segments after the instrument: slash-separated four-digit
/// year, two-digit zero-indexed month, two-digit day, two-digit hour, and
/// the fixed file suffix.
pub open spec fn url_tail_chars(h: DateHour) -> Seq<char> {
    seq!['/'] + dec_chars_padded(h.date.year as int, 4) + seq!['/'] + dec_chars_padded(
        h.date.month - 1,
        2,
    ) + seq!['/'] + dec_chars_padded(h.date.day as int, 2) + seq!['/'] + dec_chars_padded(
        h.hour as int,
        2,
    ) + "h_ticks.bi5"@
}

/// The full URL of one hour file: the base, the uppercased instrument, and
/// the date segments with the zero-indexed month.
pub open spec fn url_chars(id: Seq<char>, h: DateHour) -> Seq<char> {
    base_url_chars() + seq!['/'] + upper_seq(id) + url_tail_chars(h)
}

/// Builds the URL for a specific hour's tick data.
pub fn tick_url(instrument: &str, hour: DateHour) -> (r: String)
    requires
        hour.wf(),
    ensures
        r@ == url_chars(instrument@, hour),
{
    let mut out: Vec<char> = Vec::new();
    push_str_chars(&mut out, "https://datafeed.dukascopy.com/datafeed");
    out.push('/');
    let id = str_to_chars(instrument);
    let up = to_upper(&id);
    proof {
        assert(up@ =~= upper_seq(instrument@));
    }
    let mut k: usize = 0;
    while k < up.len()
        invariant
            k <= up@.len(),
            out@ == base_url_chars() + seq!['/'] + up@.take(k as int),
        decreases up@.len() - k,
    {
        out.push(up[k]);
        proof {
            assert(base_url_chars() + seq!['/'] + up@.take(k as int) + seq![up@[k as int]] =~=
                base_url_chars() + seq!['/'] + up@.take(k + 1));
        }
        k = k + 1;
    }
    proof {
        assert(up@.take(up@.len() as int) =~= up@);
    }
    out.push('/');
    push_decimal_padded(&mut out, hour.date.year as u64, 4);
    out.push('/');
    push_decimal_padded(&mut out, hour.date.month as u64 - 1, 2);
    out.push('/');
    push_decimal_padded(&mut out, hour.date.day as u64, 2);
    out.push('/');
    push_decimal_padded(&mut out, hour.hour as u64, 2);
    push_str_chars(&mut out, "h_ticks.bi5");
    proof {
        assert(out@ =~= url_chars(instrument@, hour));
    }
    chars_to_string(&out)
}

/// The URL scheme is injective over the hour: for one instrument, two
/// hours with the same URL are the same hour. (That the URL contains the
/// uppercased instrument and the zero-indexed month is how `url_chars` is
/// built.)
pub proof fn lemma_url_injective(id: Seq<char>, h1: DateHour, h2: DateHour)
    requires
        h1.wf(),
        h2.wf(),
        url_chars(id, h1) == url_chars(id, h2),
    ensures
        h1 == h2,
{
    reveal_with_fuel(crate::text::pow10, 6);
    lemma_dec_chars_padded_value(h1.date.year as int, 4);
    lemma_dec_chars_padded_value(h1.date.month - 1, 2);
    lemma_dec_chars_padded_value(h1.date.day as int, 2);
    lemma_dec_chars_padded_value(h1.hour as int, 2);
    lemma_dec_chars_padded_value(h2.date.year as int, 4);
    lemma_dec_chars_padded_value(h2.date.month - 1, 2);
    lemma_dec_chars_padded_value(h2.date.day as int, 2);
    lemma_dec_chars_padded_value(h2.hour as int, 2);
    let u1 = url_chars(id, h1);
    let u2 = url_chars(id, h2);
    let head = base_url_chars() + seq!['/'] + upper_seq(id);
    let b = head.len();
    assert(u1.len() == u2.len());
    let y1 = dec_chars_padded(h1.date.year as int, 4);
    let y2 = dec_chars_padded(h2.date.year as int, 4);
    assert forall|i: int| 0 <= i < 4 implies y1[i] == y2[i] by {
        assert(u1[b + 1 + i] == y1[i]);
        assert(u2[b + 1 + i] == y2[i]);
    }
    assert(y1 =~= y2);
    assert(h1.date.year == h2.date.year) by {
        assert(dec_val(y1) == dec_val(y2));
    }
    let m1 = dec_chars_padded(h1.date.month - 1, 2);
    let m2 = dec_chars_padded(h2.date.month - 1, 2);
    assert forall|i: int| 0 <= i < 2 implies m1[i] == m2[i] by {
        assert(u1[b + 6 + i] == m1[i]);
        assert(u2[b + 6 + i] == m2[i]);
    }
    assert(m1 =~= m2);
    assert(h1.date.month == h2.date.month) by {
        assert(dec_val(m1) == dec_val(m2));
    }
    let d1 = dec_chars_padded(h1.date.day as int, 2);
    let d2 = dec_chars_padded(h2.date.day as int, 2);
    assert forall|i: int| 0 <= i < 2 implies d1[i] == d2[i] by {
        assert(u1[b + 9 + i] == d1[i]);
        assert(u2[b + 9 + i] == d2[i]);
    }
    assert(d1 =~= d2);
    assert(h1.date.day == h2.date.day) by {
        assert(dec_val(d1) == dec_val(d2));
    }
    let r1 = dec_chars_padded(h1.hour as int, 2);
    let r2 = dec_chars_padded(h2.hour as int, 2);
    assert forall|i: int| 0 <= i < 2 implies r1[i] == r2[i] by {
        assert(u1[b + 12 + i] == r1[i]);
        assert(u2[b + 12 + i] == r2[i]);
    }
    assert(r1 =~= r2);
    assert(h1.hour == h2.hour) by {
        assert(dec_val(r1) == dec_val(r2));
    }
}

/// The hour a feed URL names, read back from its tail: the four
/// slash-separated fields before the file suffix, with the zero-indexed
/// month raised by one. Anything that does not end in that shape denotes
/// no hour.
pub open spec fn hour_of_url(s: Seq<char>) -> Option<DateHour> {
    let n = s.len() as int;
    if n >= 25 && s[n - 25] == '/' && s[n - 20] == '/' && s[n - 17] == '/' && s[n - 14] == '/'
        && s.subrange(n - 11, n) == "h_ticks.bi5"@ && (forall|i: int|
        (n - 24 <= i < n - 20) || (n - 19 <= i < n - 17) || (n - 16 <= i < n - 14) || (n - 13 <= i
            < n - 11) ==> is_digit(#[trigger] s[i])) {
        let y = dec_val(s.subrange(n - 24, n - 20));
        let m0 = dec_val(s.subrange(n - 19, n - 17));
        let d = dec_val(s.subrange(n - 16, n - 14));
        let h = dec_val(s.subrange(n - 13, n - 11));
        let date = Date { year: y as u32, month: (m0 + 1) as u32, day: d as u32 };
        if date.valid() && h < 24 {
            Some(DateHour { date, hour: h as u32 })
        } else {
            None
        }
    } else {
        None
    }
}

/// Extracts the hour start a feed URL names, exactly as `hour_of_url`
/// specifies.
pub fn hour_from_url(url: &str) -> (r: Option<DateHour>)
    ensures
        r == hour_of_url(url@),
{
    let v = str_to_chars(url);
    let n: usize = v.len();
    if n < 25 {
        return None;
    }
    if !(v[n - 25] == '/' && v[n - 20] == '/' && v[n - 17] == '/' && v[n - 14] == '/') {
        return None;
    }
    match crate::text::expect_lit(&v, n - 11, "h_ticks.bi5") {
        Some(_) => {
            proof {
                reveal_strlit("h_ticks.bi5");
                assert(v@.subrange(n - 11, n as int) == "h_ticks.bi5"@);
            }
        },
        None => {
            proof {
                reveal_strlit("h_ticks.bi5");
                if v@.subrange(n - 11, n as int) == "h_ticks.bi5"@ {
                    assert(crate::text::lit_at(v@, n - 11, "h_ticks.bi5"@));
                }
            }
            return None;
        },
    }
    let y = match parse_dec_fixed(&v, n - 24, 4) {
        Some(x) => x,
        None => {
            return None;
        },
    };
    let m0 = match parse_dec_fixed(&v, n - 19, 2) {
        Some(x) => x,
        None => {
            return None;
        },
    };
    let d = match parse_dec_fixed(&v, n - 16, 2) {
        Some(x) => x,
        None => {
            return None;
        },
    };
    let h = match parse_dec_fixed(&v, n - 13, 2) {
        Some(x) => x,
        None => {
            return None;
        },
    };
    proof {
        crate::text::lemma_dec_val_bound(v@.subrange(n - 24, n - 20));
        crate::text::lemma_dec_val_bound(v@.subrange(n - 19, n - 17));
        crate::text::lemma_dec_val_bound(v@.subrange(n - 16, n - 14));
        crate::text::lemma_dec_val_bound(v@.subrange(n - 13, n - 11));
        reveal_with_fuel(pow10, 5);
        assert forall|i: int|
            (n - 24 <= i < n - 20) || (n - 19 <= i < n - 17) || (n - 16 <= i < n - 14) || (n - 13
                <= i < n - 11) implies is_digit(#[trigger] v@[i]) by {
            if i < n - 20 {
                assert(v@[i] == v@.subrange(n - 24, n - 20)[i - (n - 24)]);
            } else if i < n - 17 {
                assert(v@[i] == v@.subrange(n - 19, n - 17)[i - (n - 19)]);
            } else if i < n - 14 {
                assert(v@[i] == v@.subrange(n - 16, n - 14)[i - (n - 16)]);
            } else {
                assert(v@[i] == v@.subrange(n - 13, n - 11)[i - (n - 13)]);
            }
        }
    }
    let date = match Date::new(y as u32, m0 as u32 + 1, d as u32) {
        Some(dd) => dd,
        None => {
            return None;
        },
    };
    if h >= 24 {
        return None;
    }
    Some(DateHour { date, hour: h as u32 })
}

/// Reading the hour back out of a rendered URL recovers it exactly.
pub proof fn lemma_hour_from_url_round_trip(id: Seq<char>, h: DateHour)
    requires
        h.wf(),
    ensures
        hour_of_url(url_chars(id, h)) == Some(h),
{
    reveal_with_fuel(crate::text::pow10, 5);
    reveal_strlit("h_ticks.bi5");
    lemma_dec_chars_padded_value(h.date.year as int, 4);
    lemma_dec_chars_padded_value(h.date.month - 1, 2);
    lemma_dec_chars_padded_value(h.date.day as int, 2);
    lemma_dec_chars_padded_value(h.hour as int, 2);
    let s = url_chars(id, h);
    let tail = url_tail_chars(h);
    let n = s.len() as int;
    let b = n - 25;
    assert(tail.len() == 25);
    assert forall|k: int| 0 <= k < 25 implies s[b + k] == tail[k] by {
        assert(s.len() == (base_url_chars() + seq!['/'] + upper_seq(id)).len() + tail.len());
    }
    let py = dec_chars_padded(h.date.year as int, 4);
    let pm = dec_chars_padded(h.date.month - 1, 2);
    let pd = dec_chars_padded(h.date.day as int, 2);
    let ph = dec_chars_padded(h.hour as int, 2);
    assert(s[n - 25] == '/' && s[n - 20] == '/' && s[n - 17] == '/' && s[n - 14] == '/') by {
        assert(tail[0] == '/' && tail[5] == '/' && tail[8] == '/' && tail[11] == '/');
    }
    assert(s.subrange(n - 11, n) =~= "h_ticks.bi5"@) by {
        assert forall|k: int| 0 <= k < 11 implies s.subrange(n - 11, n)[k]
            == "h_ticks.bi5"@[k] by {
            assert(s.subrange(n - 11, n)[k] == s[n - 11 + k]);
            assert(s[b + (14 + k)] == tail[14 + k]);
            assert(tail[14 + k] == "h_ticks.bi5"@[k]);
        }
    }
    assert(s.subrange(n - 24, n - 20) =~= py) by {
        assert forall|k: int| 0 <= k < 4 implies s.subrange(n - 24, n - 20)[k] == py[k] by {
            assert(s.subrange(n - 24, n - 20)[k] == s[n - 24 + k]);
            assert(s[b + (1 + k)] == tail[1 + k]);
            assert(tail[1 + k] == py[k]);
        }
    }
    assert(s.subrange(n - 19, n - 17) =~= pm) by {
        assert forall|k: int| 0 <= k < 2 implies s.subrange(n - 19, n - 17)[k] == pm[k] by {
            assert(s.subrange(n - 19, n - 17)[k] == s[n - 19 + k]);
            assert(s[b + (6 + k)] == tail[6 + k]);
            assert(tail[6 + k] == pm[k]);
        }
    }
    assert(s.subrange(n - 16, n - 14) =~= pd) by {
        assert forall|k: int| 0 <= k < 2 implies s.subrange(n - 16, n - 14)[k] == pd[k] by {
            assert(s.subrange(n - 16, n - 14)[k] == s[n - 16 + k]);
            assert(s[b + (9 + k)] == tail[9 + k]);
            assert(tail[9 + k] == pd[k]);
        }
    }
    assert(s.subrange(n - 13, n - 11) =~= ph) by {
        assert forall|k: int| 0 <= k < 2 implies s.subrange(n - 13, n - 11)[k] == ph[k] by {
            assert(s.subrange(n - 13, n - 11)[k] == s[n - 13 + k]);
            assert(s[b + (12 + k)] == tail[12 + k]);
            assert(tail[12 + k] == ph[k]);
        }
    }
    assert forall|i: int|
        (n - 24 <= i < n - 20) || (n - 19 <= i < n - 17) || (n - 16 <= i < n - 14) || (n - 13 <= i
            < n - 11) implies is_digit(#[trigger] s[i]) by {
        if i < n - 20 {
            assert(s[i] == py[i - (n - 24)]);
        } else if i < n - 17 {
            assert(s[i] == pm[i - (n - 19)]);
        } else if i < n - 14 {
            assert(s[i] == pd[i - (n - 16)]);
        } else {
            assert(s[i] == ph[i - (n - 13)]);
        }
    }
}

} // verus!
