//! The time-window planner: splits a requested range of history into the
//! windows that one request each can fetch.
use vstd::prelude::*;
use vstd::arithmetic::div_mod::{
    lemma_div_denominator, lemma_div_nonincreasing, lemma_div_pos_is_pos, lemma_fundamental_div_mod,
    lemma_fundamental_div_mod_converse_div,
};
use crate::instant::{Instant, rfc3339_instant};
use crate::text::{all_digits, digits_value, is_digit, lemma_digits_value_prefix};
use vstd::string::StrSliceExecFns;

verus! {

/// Number of candles the exchange returns at most for one history request.
pub const CANDLES_PER_REQUEST: i64 = 300;

#[derive(Clone, Copy, Debug, PartialEq, Eq, Structural)]
pub enum PlanError {
    /// The granularity is not a positive number of seconds, or a window of
    /// that many candles would not fit in an `i64` of seconds.
    InvalidGranularity,
    /// The end of the range is not after its start, or the planned windows
    /// would run past the largest `i64` of seconds.
    InvalidRange,
    /// A date and time is not RFC 3339 text.
    InvalidTime,
}

/// The half-open range `[start, end)` fetched by one request.
#[derive(Clone, Copy, Debug, PartialEq, Eq, Structural)]
pub struct TimeWindow {
    pub start: Instant,
    pub end: Instant,
}

/// Number of windows for a range of `duration` seconds: the truncated
/// quotient plus one, so that a range that is an exact multiple of the span
/// still gets one trailing window.
pub open spec fn num_windows(duration: int, span: int) -> int {
    duration / span + 1
}

pub open spec fn span_valid(granularity: int, max_candles: int) -> bool {
    &&& granularity > 0
    &&& max_candles > 0
    &&& granularity * max_candles <= i64::MAX
}

pub open spec fn range_valid(start: Instant, end: Instant, span: int) -> bool {
    &&& start.seconds < end.seconds
    &&& start.seconds + num_windows(end.seconds - start.seconds, span) * span <= i64::MAX
}

/// The `i`-th window of `span` seconds after `start`.
pub open spec fn window_at(start: Instant, span: int, i: int) -> TimeWindow {
    TimeWindow {
        start: Instant { seconds: (start.seconds + i * span) as i64, offset: start.offset },
        end: Instant { seconds: (start.seconds + (i + 1) * span) as i64, offset: start.offset },
    }
}

/// The windows planned for `[start, end)` with candles of `granularity`
/// seconds and at most `max_candles` candles per window.
pub open spec fn planned_windows(start: Instant, end: Instant, granularity: int, max_candles: int)
    -> Result<Seq<TimeWindow>, PlanError>
{
    let span = granularity * max_candles;
    if !span_valid(granularity, max_candles) {
        Err(PlanError::InvalidGranularity)
    } else if !range_valid(start, end, span) {
        Err(PlanError::InvalidRange)
    } else {
        Ok(
            Seq::new(
                num_windows(end.seconds - start.seconds, span) as nat,
                |i: int| window_at(start, span, i),
            ),
        )
    }
}

/// Plans the windows for `[start, end)`; see `planned_windows`.
pub fn plan_windows(start: Instant, end: Instant, granularity: i64, max_candles: i64) -> (r: Result<
    Vec<TimeWindow>,
    PlanError,
>)
    ensures
        r is Ok <==> planned_windows(start, end, granularity as int, max_candles as int) is Ok,
        r is Ok ==> planned_windows(start, end, granularity as int, max_candles as int) == Ok::<
            Seq<TimeWindow>,
            PlanError,
        >(r->Ok_0@),
        r is Err ==> planned_windows(start, end, granularity as int, max_candles as int) == Err::<
            Seq<TimeWindow>,
            PlanError,
        >(r->Err_0),
{
    if granularity <= 0 || max_candles <= 0 {
        return Err(PlanError::InvalidGranularity);
    }
    assert(0 < granularity * max_candles <= i64::MAX * i64::MAX) by (nonlinear_arith)
        requires
            0 < granularity <= i64::MAX,
            0 < max_candles <= i64::MAX,
    ;
    let span_wide: i128 = granularity as i128 * max_candles as i128;
    if span_wide > i64::MAX as i128 {
        return Err(PlanError::InvalidGranularity);
    }
    let span: i128 = span_wide;
    if end.seconds <= start.seconds {
        return Err(PlanError::InvalidRange);
    }
    let duration: i128 = end.seconds as i128 - start.seconds as i128;
    let count: i128 = duration / span + 1;
    proof {
        lemma_fundamental_div_mod(duration as int, span as int);
        assert((duration / span) * span <= duration) by (nonlinear_arith)
            requires
                duration == span * (duration / span) + duration % span,
                duration % span >= 0,
        ;
        assert(count * span == (duration / span) * span + span) by (nonlinear_arith)
            requires
                count == duration / span + 1,
        ;
    }
    let last: i128 = start.seconds as i128 + count * span;
    if last > i64::MAX as i128 {
        return Err(PlanError::InvalidRange);
    }
    let ghost spec_span = granularity * max_candles;
    let mut windows: Vec<TimeWindow> = Vec::new();
    let mut i: i128 = 0;
    let mut s: i128 = start.seconds as i128;
    while i < count
        invariant
            0 <= i <= count,
            span == spec_span,
            0 < span <= i64::MAX,
            s == start.seconds + i * span,
            start.seconds + count * span <= i64::MAX,
            windows@ =~= Seq::new(i as nat, |j: int| window_at(start, spec_span, j)),
        decreases count - i,
    {
        assert(i * span + span <= count * span && i * span >= 0) by (nonlinear_arith)
            requires
                0 <= i < count,
                span > 0,
        ;
        assert((i + 1) * span == i * span + span) by (nonlinear_arith);
        let w = TimeWindow {
            start: Instant { seconds: s as i64, offset: start.offset },
            end: Instant { seconds: (s + span) as i64, offset: start.offset },
        };
        windows.push(w);
        i = i + 1;
        s = s + span;
    }
    Ok(windows)
}

/// The digits of a granularity text: an optional leading `+` is dropped.
pub open spec fn granularity_digits(s: Seq<char>) -> Seq<char> {
    if s.len() > 0 && s[0] == '+' {
        s.drop_first()
    } else {
        s
    }
}

/// The granularity that a text names: a positive decimal number of seconds
/// that fits in an `i64`.
pub open spec fn granularity_of(s: Seq<char>) -> Option<i64> {
    let d = granularity_digits(s);
    if d.len() > 0 && all_digits(d) && 0 < digits_value(d) <= i64::MAX {
        Some(digits_value(d) as i64)
    } else {
        None
    }
}

/// Reads a granularity given as text, in seconds.
pub fn parse_granularity(text: &str) -> (r: Result<i64, PlanError>)
    ensures
        r == match granularity_of(text@) {
            Some(g) => Ok::<i64, PlanError>(g),
            None => Err(PlanError::InvalidGranularity),
        },
{
    let n = text.unicode_len();
    let first: usize = if n > 0 && text.get_char(0) == '+' {
        1
    } else {
        0
    };
    let ghost d = granularity_digits(text@);
    assert(d =~= text@.subrange(first as int, n as int));
    if first == n {
        return Err(PlanError::InvalidGranularity);
    }
    let mut value: i64 = 0;
    let mut i: usize = first;
    while i < n
        invariant
            first <= i <= n,
            n == text@.len(),
            d =~= text@.subrange(first as int, n as int),
            d == granularity_digits(text@),
            all_digits(d.subrange(0, i - first)),
            value == digits_value(d.subrange(0, i - first)),
            0 <= value,
        decreases n - i,
    {
        let c = text.get_char(i);
        if !('0' <= c && c <= '9') {
            assert(d[i - first] == c);
            assert(!all_digits(d));
            return Err(PlanError::InvalidGranularity);
        }
        let v: i64 = (c as u32 - '0' as u32) as i64;
        let ghost next = d.subrange(0, i + 1 - first);
        assert(next.drop_last() =~= d.subrange(0, i - first));
        assert(next.last() == c);
        assert(all_digits(next)) by {
            assert forall|j: int| 0 <= j < next.len() implies is_digit(#[trigger] next[j]) by {
                if j < next.len() - 1 {
                    assert(next[j] == d.subrange(0, i - first)[j]);
                }
            }
        }
        assert(digits_value(next) == value * 10 + v);
        if value > (i64::MAX - v) / 10 {
            assert(value * 10 + v > i64::MAX) by (nonlinear_arith)
                requires
                    value > (i64::MAX - v) / 10,
                    0 <= v <= 9,
            ;
            proof {
                if all_digits(d) {
                    lemma_digits_value_prefix(d, i + 1 - first);
                }
            }
            return Err(PlanError::InvalidGranularity);
        }
        value = value * 10 + v;
        i = i + 1;
    }
    assert(d.subrange(0, n - first) =~= d);
    if value == 0 {
        return Err(PlanError::InvalidGranularity);
    }
    Ok(value)
}

/// Planned windows tile the requested range: the first starts at `start`,
/// each is `granularity * max_candles` seconds long and ends where the next
/// begins, and the last reaches `end` or beyond. Their number is the
/// rounded-up quotient of the range by the span, plus one more window when
/// the span divides the range exactly; with the exchange's candles per
/// request it is the count that `calc_num_requests` gives.
pub proof fn lemma_planned_windows_tile(
    start: Instant,
    end: Instant,
    granularity: int,
    max_candles: int,
)
    requires
        span_valid(granularity, max_candles),
        range_valid(start, end, granularity * max_candles),
    ensures
        planned_windows(start, end, granularity, max_candles) matches Ok(ws) && {
            let span = granularity * max_candles;
            let d = end.seconds - start.seconds;
            &&& ws.len() == (d + span - 1) / span + (if d % span == 0 {
                1int
            } else {
                0int
            })
            &&& ws[0].start == start
            &&& forall|i: int|
                0 <= i < ws.len() ==> (#[trigger] ws[i]).end.seconds - ws[i].start.seconds == span
                    && ws[i].start.offset == start.offset && ws[i].end.offset == start.offset
            &&& forall|i: int| 0 <= i < ws.len() - 1 ==> (#[trigger] ws[i]).end == ws[i + 1].start
            &&& ws.last().end.seconds >= end.seconds
            &&& max_candles == CANDLES_PER_REQUEST ==> ws.len() == num_requests(d, granularity)
        },
{
    let span = granularity * max_candles;
    let d = end.seconds - start.seconds;
    let n = num_windows(d, span);
    let q = d / span;
    let r = d % span;
    assert(span > 0) by (nonlinear_arith)
        requires
            granularity > 0,
            max_candles > 0,
            span == granularity * max_candles,
    ;
    lemma_fundamental_div_mod(d, span);
    assert(0 <= q) by {
        lemma_div_pos_is_pos(d, span);
    }
    assert(n * span <= i64::MAX - start.seconds);
    let ws = Seq::new(n as nat, |i: int| window_at(start, span, i));
    assert forall|i: int| 0 <= i < ws.len() implies (#[trigger] ws[i]).end.seconds
        - ws[i].start.seconds == span by {
        assert(0 <= i * span && (i + 1) * span <= n * span) by (nonlinear_arith)
            requires
                0 <= i < n,
                span > 0,
        ;
        assert((i + 1) * span == i * span + span) by (nonlinear_arith);
    }
    assert(ws[0].start == start) by {
        assert(0 * span == 0);
    }
    assert(ws.last().end.seconds >= end.seconds) by {
        assert(n * span == q * span + span) by (nonlinear_arith)
            requires
                n == q + 1,
        ;
        assert(q * span == span * q) by (nonlinear_arith);
    }
    if r == 0 {
        lemma_fundamental_div_mod_converse_div(d + span - 1, span, q, span - 1);
    } else {
        lemma_fundamental_div_mod_converse_div(d + span - 1, span, q + 1, r - 1);
    }
    if max_candles == CANDLES_PER_REQUEST {
        lemma_div_denominator(d, granularity, max_candles);
    }
}

/// Number of history requests that `calc_num_requests` returns.
pub open spec fn num_requests(duration: int, candle_size: int) -> int {
    (duration / candle_size) / (CANDLES_PER_REQUEST as int) + 1
}

pub open spec fn num_requests_result(start: Seq<char>, end: Seq<char>, candle_size: int) -> Result<
    i64,
    PlanError,
> {
    match (rfc3339_instant(start), rfc3339_instant(end)) {
        (Some(s), Some(e)) => if candle_size <= 0 {
            Err(PlanError::InvalidGranularity)
        } else if e.seconds <= s.seconds {
            Err(PlanError::InvalidRange)
        } else {
            Ok(num_requests(e.seconds - s.seconds, candle_size) as i64)
        },
        _ => Err(PlanError::InvalidTime),
    }
}

/// Number of requests of `CANDLES_PER_REQUEST` candles of `candle_size`
/// seconds needed for the range between two RFC 3339 instants.
pub fn calc_num_requests(start: &str, end: &str, candle_size: i64) -> (r: Result<i64, PlanError>)
    ensures
        r == num_requests_result(start@, end@, candle_size as int),
{
    let s = match Instant::parse(start) {
        Some(t) => t,
        None => return Err(PlanError::InvalidTime),
    };
    let e = match Instant::parse(end) {
        Some(t) => t,
        None => return Err(PlanError::InvalidTime),
    };
    if candle_size <= 0 {
        return Err(PlanError::InvalidGranularity);
    }
    if e.seconds <= s.seconds {
        return Err(PlanError::InvalidRange);
    }
    let duration: i128 = e.seconds as i128 - s.seconds as i128;
    let candles: i128 = duration / (candle_size as i128);
    let n: i128 = candles / (CANDLES_PER_REQUEST as i128) + 1;
    proof {
        lemma_div_nonincreasing(duration as int, candle_size as int);
        lemma_div_nonincreasing(candles as int, 300);
    }
    Ok(n as i64)
}

} // verus!
