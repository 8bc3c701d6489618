//! Planning the download of a price series: the start time, the length of a
//! candle, the batches of the download and the address of each batch.
use vstd::prelude::*;
use crate::decimal::{decimal_text, i64_to_decimal};
use crate::parse::{int_error_message, int_error_text, parse_i64_prefix, parse_i64_spec, IntErrorKind};
use crate::text::{chars_of, concat, owned};

verus! {

broadcast use vstd::string::group_string_axioms;

// ---------------------------------------------------------------------------
// Start time
// ---------------------------------------------------------------------------

/// What `chrono::DateTime::parse_from_rfc3339` followed by `timestamp_millis`
/// gives for a text: the milliseconds since the Unix epoch of the instant it
/// writes, or the message of the parse error.
pub uninterp spec fn rfc3339_millis(text: Seq<char>) -> Result<i64, Seq<char>>;

/// Parses `text` with `chrono::DateTime::parse_from_rfc3339` and takes the
/// `timestamp_millis` of the result, or the text of the `ParseError`.
/// Trusted: the result is only known to be `rfc3339_millis` of the text,
/// chrono's own function of it; nothing is stated of which texts it accepts.
#[verifier::external_body]
fn parse_rfc3339_millis(text: &str) -> (res: Result<i64, String>)
    ensures
        match rfc3339_millis(text@) {
            Ok(v) => res == Ok::<i64, String>(v),
            Err(m) => res is Err && res->Err_0@ == m,
        },
{
    match chrono::DateTime::parse_from_rfc3339(text) {
        Ok(dt) => Ok(dt.timestamp_millis()),
        Err(e) => Err(e.to_string()),
    }
}

pub open spec fn start_time_spec(parsed: Result<i64, Seq<char>>) -> Result<i64, Seq<char>> {
    match parsed {
        Ok(v) => Ok(v),
        Err(m) => Err("Error: invalid date format: "@ + m),
    }
}

/// The start time from the outcome of the date parse: the instant, or the
/// message that names the date as invalid.
pub fn start_time_from(parsed: Result<i64, String>) -> (res: Result<i64, String>)
    ensures
        match parsed {
            Ok(v) => res == Ok::<i64, String>(v),
            Err(m) => res is Err && res->Err_0@ == "Error: invalid date format: "@ + m@,
        },
{
    match parsed {
        Ok(v) => Ok(v),
        Err(m) => Err(concat("Error: invalid date format: ", m.as_str())),
    }
}

/// The start of the series, in milliseconds since the epoch, from an
/// RFC 3339 date.
pub fn start_time_millis(date: &str) -> (res: Result<i64, String>)
    ensures
        match start_time_spec(rfc3339_millis(date@)) {
            Ok(v) => res == Ok::<i64, String>(v),
            Err(m) => res is Err && res->Err_0@ == m,
        },
        rfc3339_millis(date@) matches Ok(v) ==> res == Ok::<i64, String>(v),
        rfc3339_millis(date@) matches Err(m) ==> res is Err && res->Err_0@
            == "Error: invalid date format: "@ + m,
{
    proof {
        lemma_start_time(rfc3339_millis(date@));
    }
    start_time_from(parse_rfc3339_millis(date))
}

/// The start time is the parsed instant itself, unmoved, whatever it is;
/// a date that does not parse is refused with chrono's own message after a
/// fixed preface.
pub proof fn lemma_start_time(parsed: Result<i64, Seq<char>>)
    ensures
        parsed matches Ok(v) ==> start_time_spec(parsed) == Ok::<i64, Seq<char>>(v),
        parsed matches Err(m) ==> start_time_spec(parsed) == Err::<i64, Seq<char>>(
            "Error: invalid date format: "@ + m,
        ),
        start_time_spec(parsed) is Ok <==> parsed is Ok,
{
}

// ---------------------------------------------------------------------------
// Candle length
// ---------------------------------------------------------------------------

/// Why an interval such as `"4h"` has no length.
#[derive(Clone, Copy, Debug, PartialEq, Eq, Structural)]
pub enum IntervalError {
    /// The text before the unit is not an `i64`.
    Number(IntErrorKind),
    /// The unit is none of `s`, `m`, `h`, `d`, `w`.
    Unit,
}

/// The interval can be cut before its last character: it is not empty and
/// its last character takes one byte.
pub open spec fn interval_splittable(s: Seq<char>) -> bool {
    s.len() > 0 && (s.last() as u32) < 0x80
}

/// Milliseconds in one of a unit.
pub open spec fn unit_millis(u: char) -> Option<int> {
    if u == 's' {
        Some(1000)
    } else if u == 'm' {
        Some(60int * 1000)
    } else if u == 'h' {
        Some(3600int * 1000)
    } else if u == 'd' {
        Some(24int * 3600 * 1000)
    } else if u == 'w' {
        Some(7int * 24 * 3600 * 1000)
    } else {
        None
    }
}

/// The length in milliseconds of an interval: a count and a unit.
pub open spec fn interval_spec(s: Seq<char>) -> Result<int, IntervalError> {
    match parse_i64_spec(s.take(s.len() - 1)) {
        Err(k) => Err(IntervalError::Number(k)),
        Ok(n) => match unit_millis(s.last()) {
            None => Err(IntervalError::Unit),
            Some(f) => Ok(n * f),
        },
    }
}

/// The length, where there is one, fits an `i64`.
pub open spec fn interval_fits_spec(s: Seq<char>) -> bool {
    match interval_spec(s) {
        Ok(v) => i64::MIN <= v <= i64::MAX,
        Err(_) => true,
    }
}

pub open spec fn interval_error_text(e: IntervalError) -> Seq<char> {
    match e {
        IntervalError::Number(k) => "Error: failed to parse interval: "@ + int_error_text(k),
        IntervalError::Unit => "Error: failed to convert interval"@,
    }
}

/// The count and the unit of an interval, as `i128`.
fn interval_parts(interval: &str) -> (res: Result<i128, IntervalError>)
    requires
        interval_splittable(interval@),
    ensures
        match interval_spec(interval@) {
            Ok(v) => res is Ok && res->Ok_0 == v,
            Err(e) => res == Err::<i128, IntervalError>(e),
        },
{
    let cs = chars_of(interval);
    let n = cs.len();
    let num = match parse_i64_prefix(&cs, n - 1) {
        Ok(v) => v,
        Err(k) => return Err(IntervalError::Number(k)),
    };
    let unit = cs[n - 1];
    assert(interval@.last() == unit);
    let wide = num as i128;
    let v: i128 = if unit == 's' {
        wide * 1000
    } else if unit == 'm' {
        wide * 60000
    } else if unit == 'h' {
        wide * 3600000
    } else if unit == 'd' {
        wide * 86400000
    } else if unit == 'w' {
        wide * 604800000
    } else {
        return Err(IntervalError::Unit);
    };
    Ok(v)
}

/// Whether converting the interval stays within `i64`.
pub fn interval_fits(interval: &str) -> (b: bool)
    requires
        interval_splittable(interval@),
    ensures
        b == interval_fits_spec(interval@),
{
    match interval_parts(interval) {
        Ok(v) => i64::MIN as i128 <= v && v <= i64::MAX as i128,
        Err(_) => true,
    }
}

/// The text of an interval error.
pub fn interval_error_message(e: IntervalError) -> (res: String)
    ensures
        res@ == interval_error_text(e),
{
    match e {
        IntervalError::Number(k) => {
            let m = int_error_message(k);
            concat("Error: failed to parse interval: ", m.as_str())
        },
        IntervalError::Unit => owned("Error: failed to convert interval"),
    }
}

/// The length in milliseconds of an interval such as `"15m"`, or the message
/// of why it has none.
pub fn interval_millis(interval: &str) -> (res: Result<i64, String>)
    requires
        interval_splittable(interval@),
        interval_fits_spec(interval@),
    ensures
        match interval_spec(interval@) {
            Ok(v) => res is Ok && res->Ok_0 == v,
            Err(e) => res is Err && res->Err_0@ == interval_error_text(e),
        },
{
    match interval_parts(interval) {
        Ok(v) => Ok(v as i64),
        Err(e) => Err(interval_error_message(e)),
    }
}

// ---------------------------------------------------------------------------
// Batches
// ---------------------------------------------------------------------------

/// The number of candles that one request asks for.
pub open spec fn candles_per_batch() -> int {
    1500
}

/// The starts of the batches that cover `[start, end)`, `step` apart.
pub open spec fn batch_starts(start: int, end: int, step: int) -> Seq<int>
    decreases if start < end { end - start } else { 0 },
{
    if step <= 0 || start >= end {
        Seq::empty()
    } else {
        seq![start] + batch_starts(start + step, end, step)
    }
}

/// Where the walk over the batches stops: the first start at or past `end`.
pub open spec fn batch_stop(start: int, end: int, step: int) -> int
    decreases if start < end { end - start } else { 0 },
{
    if step <= 0 || start >= end {
        start
    } else {
        batch_stop(start + step, end, step)
    }
}

/// The download of `[start, end)` in batches of candles of `millis`
/// milliseconds can be walked without overflow and ends.
pub open spec fn batches_walkable(start: int, end: int, millis: int) -> bool {
    start < end ==> {
        &&& millis > 0
        &&& millis * 1500 <= i64::MAX
        &&& batch_stop(start, end, millis * 1500) <= i64::MAX
    }
}

proof fn lemma_batch_stop_bounds(start: int, end: int, step: int)
    requires
        step > 0,
    ensures
        start <= batch_stop(start, end, step),
        start < end ==> start + step <= batch_stop(start, end, step),
        batch_stop(start, end, step) >= end,
    decreases if start < end { end - start } else { 0 },
{
    if start < end {
        lemma_batch_stop_bounds(start + step, end, step);
    }
}

/// The start of every batch of 1500 candles of `millis` milliseconds, from
/// `start` until `end`.
pub fn batch_start_times(start: i64, end: i64, millis: i64) -> (res: Vec<i64>)
    requires
        batches_walkable(start as int, end as int, millis as int),
    ensures
        res@.map_values(|v: i64| v as int) == batch_starts(
            start as int,
            end as int,
            millis * candles_per_batch(),
        ),
        res.len() == 0 <==> start >= end,
        forall|i: int|
            #![trigger res@[i]]
            0 <= i < res.len() ==> res@[i] == start + i * (millis * 1500) && res@[i] < end,
        res.len() > 0 ==> res@[res.len() - 1] + millis * 1500 >= end,
{
    proof {
        if start < end {
            lemma_batches_cover(start as int, end as int, millis * 1500);
        }
    }
    let mut starts: Vec<i64> = Vec::new();
    if start >= end {
        assert(starts@.map_values(|v: i64| v as int) =~= Seq::<int>::empty());
        return starts;
    }
    let step: i64 = millis * 1500;
    let ghost total = batch_starts(start as int, end as int, step as int);
    let ghost stop = batch_stop(start as int, end as int, step as int);
    let mut cur: i64 = start;
    assert(starts@.map_values(|v: i64| v as int) + batch_starts(cur as int, end as int, step as int)
        =~= total);
    while cur < end
        invariant
            step > 0,
            step == millis * 1500,
            total == batch_starts(start as int, end as int, step as int),
            stop == batch_stop(start as int, end as int, step as int),
            stop <= i64::MAX,
            batch_stop(cur as int, end as int, step as int) == stop,
            starts@.map_values(|v: i64| v as int) + batch_starts(cur as int, end as int, step as int)
                == total,
        decreases if cur < end { end - cur } else { 0 },
    {
        proof {
            lemma_batch_stop_bounds(cur as int, end as int, step as int);
        }
        let ghost before = starts@.map_values(|v: i64| v as int);
        starts.push(cur);
        assert(starts@.map_values(|v: i64| v as int) =~= before.push(cur as int));
        assert(batch_starts(cur as int, end as int, step as int) == seq![cur as int]
            + batch_starts(cur + step, end as int, step as int));
        assert(before.push(cur as int) + batch_starts(cur + step, end as int, step as int) =~= before
            + (seq![cur as int] + batch_starts(cur + step, end as int, step as int)));
        cur = cur + step;
    }
    assert(batch_starts(cur as int, end as int, step as int) =~= Seq::<int>::empty());
    assert(starts@.map_values(|v: i64| v as int) =~= total);
    proof {
        let mapped = starts@.map_values(|v: i64| v as int);
        assert forall|i: int| #![trigger starts@[i]] 0 <= i < starts.len() implies starts@[i]
            == start + i * (millis * 1500) && starts@[i] < end by {
            assert(mapped[i] == starts@[i] as int);
            assert(total[i] == start + i * step);
        }
        if starts.len() > 0 {
            assert(mapped[starts.len() - 1] == starts@[starts.len() - 1] as int);
        }
    }
    starts
}

/// The batches cover `[start, end)` from its first instant, one step apart,
/// each starting before `end`, the last reaching `end` once a step is added;
/// there are none when `start` is not before `end`.
pub proof fn lemma_batches_cover(start: int, end: int, step: int)
    requires
        step > 0,
    ensures
        batch_starts(start, end, step).len() == 0 <==> start >= end,
        forall|i: int|
            0 <= i < batch_starts(start, end, step).len() ==> #[trigger] batch_starts(
                start,
                end,
                step,
            )[i] == start + i * step && start + i * step < end,
        batch_starts(start, end, step).len() > 0 ==> batch_starts(start, end, step).last() + step
            >= end,
    decreases if start < end { end - start } else { 0 },
{
    if start < end {
        lemma_batches_cover(start + step, end, step);
        let rest = batch_starts(start + step, end, step);
        let all = batch_starts(start, end, step);
        assert(all == seq![start] + rest);
        assert forall|i: int| 0 <= i < all.len() implies #[trigger] all[i] == start + i * step
            && start + i * step < end by {
            if i > 0 {
                assert(all[i] == rest[i - 1]);
                assert(start + step + (i - 1) * step == start + i * step) by (nonlinear_arith);
            }
        }
    }
}

// ---------------------------------------------------------------------------
// Addresses
// ---------------------------------------------------------------------------

/// The address of the candles of `symbol` at `interval` from `start_time`.
pub open spec fn klines_url_spec(symbol: Seq<char>, interval: Seq<char>, start_time: int) -> Seq<
    char,
> {
    "https://api.binance.com/api/v3/klines?symbol="@ + symbol + "&interval="@ + interval
        + "&startTime="@ + decimal_text(start_time)
}

/// The address is the fixed endpoint followed by the symbol, the interval
/// and the start time, each after its own key: the symbol and the interval
/// appear exactly as given, at fixed places, and the start time is written
/// in decimal and reads back as the same instant.
pub proof fn lemma_klines_url_parts(symbol: Seq<char>, interval: Seq<char>, start_time: i64)
    ensures
        klines_url_spec(symbol, interval, start_time as int)
            == "https://api.binance.com/api/v3/klines?symbol="@ + symbol + "&interval="@ + interval
            + "&startTime="@ + decimal_text(start_time as int),
        ({
            let url = klines_url_spec(symbol, interval, start_time as int);
            let p = "https://api.binance.com/api/v3/klines?symbol="@.len() + symbol.len()
                + "&interval="@.len();
            let q = p + interval.len() + "&startTime="@.len();
            &&& url.subrange(
                "https://api.binance.com/api/v3/klines?symbol="@.len() as int,
                ("https://api.binance.com/api/v3/klines?symbol="@.len() + symbol.len()) as int,
            ) == symbol
            &&& url.subrange(p as int, (p + interval.len()) as int) == interval
            &&& url.subrange(q as int, url.len() as int) == decimal_text(start_time as int)
            &&& parse_i64_spec(url.subrange(q as int, url.len() as int)) == Ok::<
                int,
                IntErrorKind,
            >(start_time as int)
        }),
{
    let a = "https://api.binance.com/api/v3/klines?symbol="@;
    let b = "&interval="@;
    let c = "&startTime="@;
    let d = decimal_text(start_time as int);
    let url = klines_url_spec(symbol, interval, start_time as int);
    assert(url =~= a + symbol + b + interval + c + d);
    let p = a.len() + symbol.len() + b.len();
    let q = p + interval.len() + c.len();
    assert(url.subrange(a.len() as int, (a.len() + symbol.len()) as int) =~= symbol);
    assert(url.subrange(p as int, (p + interval.len()) as int) =~= interval);
    assert(url.subrange(q as int, url.len() as int) =~= d);
    crate::decimal::lemma_decimal_parse_roundtrip(start_time);
}

/// The address of the candles of `symbol` at `interval` from `start_time`.
pub fn klines_url(symbol: &str, interval: &str, start_time: i64) -> (res: String)
    ensures
        res@ == klines_url_spec(symbol@, interval@, start_time as int),
        res@ == "https://api.binance.com/api/v3/klines?symbol="@ + symbol@ + "&interval="@
            + interval@ + "&startTime="@ + decimal_text(start_time as int),
{
    proof {
        lemma_klines_url_parts(symbol@, interval@, start_time);
    }
    let mut url = owned("https://api.binance.com/api/v3/klines?symbol=");
    url.append(symbol);
    url.append("&interval=");
    url.append(interval);
    url.append("&startTime=");
    let t = i64_to_decimal(start_time);
    url.append(t.as_str());
    url
}

/// The address of one batch of 1500 candles from `start_time`.
pub fn paged_klines_url(symbol: &str, interval: &str, start_time: i64) -> (res: String)
    ensures
        res@ == klines_url_spec(symbol@, interval@, start_time as int) + "&limit=1500"@,
        res@ == "https://api.binance.com/api/v3/klines?symbol="@ + symbol@ + "&interval="@
            + interval@ + "&startTime="@ + decimal_text(start_time as int) + "&limit=1500"@,
{
    proof {
        lemma_klines_url_parts(symbol@, interval@, start_time);
    }
    let mut url = klines_url(symbol, interval, start_time);
    url.append("&limit=1500");
    url
}

} // verus!

verus! {

/// A minute is sixty seconds, an hour sixty minutes, a day twenty-four
/// hours and a week seven days: for one count, the lengths of the intervals
/// with these units stand in these ratios. A count that is not an `i64`
/// is refused whatever the unit.
pub proof fn lemma_interval_units(count: Seq<char>)
    ensures
        match parse_i64_spec(count) {
            Ok(n) => {
                &&& interval_spec(count.push('s')) == Ok::<int, IntervalError>(n * 1000)
                &&& interval_spec(count.push('m')) == Ok::<int, IntervalError>(
                    60 * interval_spec(count.push('s'))->Ok_0,
                )
                &&& interval_spec(count.push('h')) == Ok::<int, IntervalError>(
                    60 * interval_spec(count.push('m'))->Ok_0,
                )
                &&& interval_spec(count.push('d')) == Ok::<int, IntervalError>(
                    24 * interval_spec(count.push('h'))->Ok_0,
                )
                &&& interval_spec(count.push('w')) == Ok::<int, IntervalError>(
                    7 * interval_spec(count.push('d'))->Ok_0,
                )
            },
            Err(k) => forall|u: char| #[trigger]
                interval_spec(count.push(u)) == Err::<int, IntervalError>(
                    IntervalError::Number(k),
                ),
        },
        parse_i64_spec(count) is Ok ==> forall|u: char|
            u != 's' && u != 'm' && u != 'h' && u != 'd' && u != 'w' ==> #[trigger] interval_spec(
                count.push(u),
            ) == Err::<int, IntervalError>(IntervalError::Unit),
{
    assert(count.push('s').take(count.len() as int) =~= count);
    assert(count.push('m').take(count.len() as int) =~= count);
    assert(count.push('h').take(count.len() as int) =~= count);
    assert(count.push('d').take(count.len() as int) =~= count);
    assert(count.push('w').take(count.len() as int) =~= count);
    assert forall|u: char|
        parse_i64_spec(count) is Ok && u != 's' && u != 'm' && u != 'h' && u != 'd' && u != 'w'
            implies #[trigger] interval_spec(count.push(u)) == Err::<int, IntervalError>(
        IntervalError::Unit,
    ) by {
        assert(count.push(u).take(count.len() as int) =~= count);
    }
    match parse_i64_spec(count) {
        Ok(n) => {
            assert(n * (60int * 1000) == 60 * (n * 1000)) by (nonlinear_arith);
            assert(n * (3600int * 1000) == 60 * (n * (60int * 1000))) by (nonlinear_arith);
            assert(n * (24int * 3600 * 1000) == 24 * (n * (3600int * 1000))) by (nonlinear_arith);
            assert(n * (7int * 24 * 3600 * 1000) == 7 * (n * (24int * 3600 * 1000)))
                by (nonlinear_arith);
        },
        Err(k) => {
            assert forall|u: char| #[trigger]
                interval_spec(count.push(u)) == Err::<int, IntervalError>(
                    IntervalError::Number(k),
                ) by {
                assert(count.push(u).take(count.len() as int) =~= count);
            }
        },
    }
}

} // verus!

verus! {

/// Whether the interval can be cut before its last character.
pub fn interval_can_split(interval: &str) -> (b: bool)
    ensures
        b == interval_splittable(interval@),
{
    let cs = chars_of(interval);
    cs.len() > 0 && (cs[cs.len() - 1] as u32) < 0x80
}

/// The number of batches that cover `[start, end)`, `step` apart.
pub open spec fn batch_count(start: int, end: int, step: int) -> int {
    if start < end {
        (end - start + step - 1) / step
    } else {
        0
    }
}

proof fn lemma_batch_stop_closed(start: int, end: int, step: int)
    requires
        step > 0,
    ensures
        batch_stop(start, end, step) == start + batch_count(start, end, step) * step,
    decreases if start < end { end - start } else { 0 },
{
    if start < end {
        lemma_batch_stop_closed(start + step, end, step);
        let x = end - start - 1;
        vstd::arithmetic::div_mod::lemma_div_plus_one(x, step);
        assert(batch_count(start, end, step) == 1 + x / step);
        if start + step >= end {
            vstd::arithmetic::div_mod::lemma_basic_div(x, step);
        } else {
            assert(batch_count(start + step, end, step) == x / step);
        }
        let q = x / step;
        assert((1 + q) * step == step + q * step) by (nonlinear_arith);
    }
}

/// The walk over the batches can be made exactly when the range is empty,
/// or the candle length is positive, a batch of 1500 candles fits an `i64`,
/// and the start plus the whole number of batches that cover the range
/// (rounded up) still fits an `i64`.
pub proof fn lemma_batches_walkable_closed_form(start: int, end: int, millis: int)
    ensures
        batches_walkable(start, end, millis) <==> (start >= end || (millis > 0 && millis * 1500
            <= i64::MAX && start + ((end - start + millis * 1500 - 1) / (millis * 1500)) * (
        millis * 1500) <= i64::MAX)),
{
    if start < end && millis > 0 {
        lemma_batch_stop_closed(start, end, millis * 1500);
    }
}

/// Whether `batch_start_times(start, end, millis)` can run: the walk over
/// the batches ends and stays within `i64`.
pub fn batches_can_walk(start: i64, end: i64, millis: i64) -> (b: bool)
    ensures
        b == batches_walkable(start as int, end as int, millis as int),
{
    if start >= end {
        return true;
    }
    if millis <= 0 {
        return false;
    }
    let step: i128 = millis as i128 * 1500;
    if step > i64::MAX as i128 {
        return false;
    }
    let span: i128 = end as i128 - start as i128 + step - 1;
    let count: i128 = span / step;
    proof {
        lemma_batch_stop_closed(start as int, end as int, step as int);
        assert(count * step <= span) by (nonlinear_arith)
            requires
                count == span / step,
                step > 0,
                span >= 0,
        ;
        assert(count >= 0) by (nonlinear_arith)
            requires
                count == span / step,
                step > 0,
                span >= 0,
        ;
        assert(count * step >= 0) by (nonlinear_arith)
            requires
                count >= 0,
                step > 0,
        ;
    }
    let stop: i128 = start as i128 + count * step;
    stop <= i64::MAX as i128
}

} // verus!
