//! Fetching candle history: the request URL of each window, the
//! rate-limited sequencer that issues them in order, and the CSV rows of
//! what comes back.
use vstd::prelude::*;
use vstd::utf8::encode_utf8;
use crate::api::{
    decoded_from, response_kind, str_member, ApiResponse, Candlestick, ResponseDecodeError,
    ResponseKind,
};
use crate::instant::rfc3339_text;
use crate::json::{json_parse, JsonNumber, NumberValue};
use crate::instant::{rfc3339_instant, Instant};
use crate::planner::{
    granularity_of, parse_granularity, plan_windows, planned_windows, PlanError, TimeWindow,
    CANDLES_PER_REQUEST,
};
use crate::text::{decimal, decimal_string, lemma_decimal_digits};

verus! {

/// Base URL of the exchange's REST API.
pub const API_URL: &'static str = "https://api.pro.coinbase.com";

// ---- request URLs ----

/// Bytes that form-urlencoding leaves as they are.
pub open spec fn form_unchanged(b: u8) -> bool {
    b == 0x2a || b == 0x2d || b == 0x2e || b == 0x5f || (0x30 <= b <= 0x39) || (0x41 <= b <= 0x5a) || (
    0x61 <= b <= 0x7a)
}

pub open spec fn hex_upper(d: int) -> char {
    seq!['0', '1', '2', '3', '4', '5', '6', '7', '8', '9', 'A', 'B', 'C', 'D', 'E', 'F'][d]
}

/// The form-urlencoding of one byte.
pub open spec fn form_byte(b: u8) -> Seq<char> {
    if form_unchanged(b) {
        seq![b as char]
    } else if b == 0x20 {
        seq!['+']
    } else {
        seq!['%', hex_upper(b as int / 16), hex_upper(b as int % 16)]
    }
}

/// The form-urlencoding of some bytes, byte by byte.
pub open spec fn form_encoded(bytes: Seq<u8>) -> Seq<char>
    decreases bytes.len(),
{
    if bytes.len() == 0 {
        Seq::empty()
    } else {
        form_byte(bytes[0]) + form_encoded(bytes.drop_first())
    }
}

/// Relies on url's `form_urlencoded::byte_serialize`: `*`, `-`, `.`, `_`,
/// digits and ASCII letters stay, a space becomes `+`, and any other byte
/// becomes `%` and two upper-case hex digits.
#[verifier::external_body]
fn form_urlencode(bytes: &[u8]) -> (r: String)
    ensures
        r@ == form_encoded(bytes@),
{
    url::form_urlencoded::byte_serialize(bytes).collect()
}

/// The URL of the candles of `product` in `[start, end)`, with the three
/// query values form-urlencoded.
pub open spec fn history_url_text(
    product: Seq<char>,
    start: Seq<char>,
    end: Seq<char>,
    granularity: Seq<char>,
) -> Seq<char> {
    API_URL@ + "/products/"@ + product + "/candles?start="@ + form_encoded(encode_utf8(start))
        + "&end="@ + form_encoded(encode_utf8(end)) + "&granularity="@ + form_encoded(
        encode_utf8(granularity),
    )
}

/// The URL of the history request for the window `w`, if both its ends can
/// be written as RFC 3339 text.
pub open spec fn window_url(product: Seq<char>, w: TimeWindow, granularity: u64) -> Option<
    Seq<char>,
> {
    match (rfc3339_text(w.start), rfc3339_text(w.end)) {
        (Some(s), Some(e)) => Some(history_url_text(product, s, e, decimal(granularity as nat))),
        _ => None,
    }
}

/// The URL of the candles of `product_id` from `start` to `end`, with
/// candles of `granularity` seconds.
pub fn build_history_url(product_id: &str, start: &str, end: &str, granularity: &str) -> (r:
    String)
    ensures
        r@ == history_url_text(product_id@, start@, end@, granularity@),
{
    let mut url = String::new();
    url.push_str(API_URL);
    url.push_str("/products/");
    url.push_str(product_id);
    url.push_str("/candles?start=");
    let s = form_urlencode(start.as_bytes());
    url.push_str(s.as_str());
    url.push_str("&end=");
    let e = form_urlencode(end.as_bytes());
    url.push_str(e.as_str());
    url.push_str("&granularity=");
    let g = form_urlencode(granularity.as_bytes());
    url.push_str(g.as_str());
    url
}

/// The URL of the history request for `w`; `None` where an end of the
/// window cannot be written as RFC 3339 text.
pub fn history_url_for(product_id: &str, w: &TimeWindow, granularity: u64) -> (r: Option<String>)
    ensures
        r is Some <==> window_url(product_id@, *w, granularity) is Some,
        r is Some ==> window_url(product_id@, *w, granularity) == Some(r->0@),
{
    let start = match w.start.to_rfc3339() {
        Some(s) => s,
        None => return None,
    };
    let end = match w.end.to_rfc3339() {
        Some(e) => e,
        None => return None,
    };
    let g = decimal_string(granularity);
    Some(build_history_url(product_id, start.as_str(), end.as_str(), g.as_str()))
}

// ---- CSV rows ----

/// The bytes csv's writer produces for one record.
pub uninterp spec fn csv_record(fields: Seq<Seq<char>>) -> Seq<u8>;

/// The fields joined by commas.
pub open spec fn joined(fields: Seq<Seq<char>>) -> Seq<char>
    decreases fields.len(),
{
    if fields.len() == 0 {
        Seq::empty()
    } else if fields.len() == 1 {
        fields[0]
    } else {
        joined(fields.drop_last()) + seq![','] + fields.last()
    }
}

/// No field needs quotes: none holds a comma, a quote or a line break, and
/// the record has a field and is not one empty field.
pub open spec fn plain_record(fields: Seq<Seq<char>>) -> bool {
    &&& fields.len() > 0
    &&& !(fields.len() == 1 && fields[0].len() == 0)
    &&& forall|i: int, k: int|
        0 <= i < fields.len() && 0 <= k < fields[i].len() ==> {
            let c = #[trigger] fields[i][k];
            c != ',' && c != '"' && c != '\n' && c != '\r'
        }
}

/// Relies on csv's `Writer::write_record` and `Writer::into_inner` over an
/// in-memory buffer, which cannot fail: fields are separated by commas, the
/// record ends with a newline, and a field is quoted only where it holds a
/// comma, a quote or a line break; a record without a byte of field text
/// (no field, or one empty field) is written as `""`.
#[verifier::external_body]
fn write_csv_record(fields: &Vec<String>) -> (r: Vec<u8>)
    ensures
        r@ == csv_record(fields@.map_values(|f: String| f@)),
        plain_record(fields@.map_values(|f: String| f@)) ==> r@ == encode_utf8(
            joined(fields@.map_values(|f: String| f@)).push('\n'),
        ),
{
    let mut w = csv::Writer::from_writer(Vec::new());
    let _ = w.write_record(fields);
    w.into_inner().unwrap_or_default()
}

/// The text of a number as the exchange wrote it.
pub open spec fn number_text(n: NumberValue) -> Seq<char> {
    match n {
        NumberValue::PosInt(u) => decimal(u as nat),
        NumberValue::NegInt(i) => if i < 0 {
            seq!['-'] + decimal((-i) as nat)
        } else {
            decimal(i as nat)
        },
        NumberValue::Float(t) => t,
    }
}

pub fn number_string(n: &JsonNumber) -> (r: String)
    ensures
        r@ == number_text(n@),
{
    match n {
        JsonNumber::PosInt(u) => decimal_string(*u),
        JsonNumber::NegInt(i) => {
            if *i < 0 {
                let mut s = String::new();
                s.push('-');
                let magnitude: u64 = (0i128 - *i as i128) as u64;
                let digits = decimal_string(magnitude);
                s.push_str(digits.as_str());
                s
            } else {
                decimal_string(*i as u64)
            }
        },
        JsonNumber::Float(t) => t.clone(),
    }
}

/// The fields of a candle's CSV row: time, low, high, open, close, volume.
pub open spec fn candle_fields(c: Candlestick) -> Seq<Seq<char>> {
    seq![
        decimal(c.time as nat),
        number_text(c.low@),
        number_text(c.high@),
        number_text(c.open@),
        number_text(c.close@),
        number_text(c.volume@),
    ]
}

/// The CSV header row of candle history: `time,low,high,open,close,volume`.
pub fn csv_header() -> (r: Vec<u8>)
    ensures
        r@ == csv_record(seq!["time"@, "low"@, "high"@, "open"@, "close"@, "volume"@]),
        r@ == encode_utf8("time,low,high,open,close,volume\n"@),
{
    let fields = vec![
        String::from_str("time"),
        String::from_str("low"),
        String::from_str("high"),
        String::from_str("open"),
        String::from_str("close"),
        String::from_str("volume"),
    ];
    let r = write_csv_record(&fields);
    let ghost names = seq!["time"@, "low"@, "high"@, "open"@, "close"@, "volume"@];
    assert(fields@.map_values(|f: String| f@) =~= names);
    proof {
        reveal_strlit("time");
        reveal_strlit("low");
        reveal_strlit("high");
        reveal_strlit("open");
        reveal_strlit("close");
        reveal_strlit("volume");
        reveal_strlit("time,low,high,open,close,volume\n");
        assert(plain_record(names));
        reveal_with_fuel(joined, 7);
        assert(joined(names).push('\n') =~= "time,low,high,open,close,volume\n"@);
    }
    r
}

/// The number is an integer, so its text is digits after an optional sign.
pub open spec fn is_integer(n: NumberValue) -> bool {
    n is PosInt || n is NegInt
}

proof fn lemma_integer_text_plain(n: NumberValue)
    requires
        is_integer(n),
    ensures
        forall|k: int|
            0 <= k < number_text(n).len() ==> ({
                let c = #[trigger] number_text(n)[k];
                c != ',' && c != '"' && c != '\n' && c != '\r'
            }),
        number_text(n).len() > 0,
{
    match n {
        NumberValue::PosInt(u) => lemma_decimal_digits(u as nat),
        NumberValue::NegInt(i) => {
            if i < 0 {
                lemma_decimal_digits((-i) as nat);
                let t = number_text(n);
                assert forall|k: int| 0 <= k < t.len() implies ({
                    let c = #[trigger] t[k];
                    c != ',' && c != '"' && c != '\n' && c != '\r'
                }) by {
                    if k > 0 {
                        assert(t[k] == decimal((-i) as nat)[k - 1]);
                    }
                }
            } else {
                lemma_decimal_digits(i as nat);
            }
        },
        _ => {},
    }
}

/// The CSV row of a candle. Where its five values are integers no field
/// needs quotes, and the row is the six texts joined by commas.
pub fn candle_row(c: &Candlestick) -> (r: Vec<u8>)
    ensures
        r@ == csv_record(candle_fields(*c)),
        is_integer(c.low@) && is_integer(c.high@) && is_integer(c.open@) && is_integer(c.close@)
            && is_integer(c.volume@) ==> r@ == encode_utf8(joined(candle_fields(*c)).push('\n')),
{
    let fields = vec![
        decimal_string(c.time),
        number_string(&c.low),
        number_string(&c.high),
        number_string(&c.open),
        number_string(&c.close),
        number_string(&c.volume),
    ];
    let r = write_csv_record(&fields);
    assert(fields@.map_values(|f: String| f@) =~= candle_fields(*c));
    proof {
        let fs = candle_fields(*c);
        if is_integer(c.low@) && is_integer(c.high@) && is_integer(c.open@) && is_integer(c.close@)
            && is_integer(c.volume@) {
            lemma_decimal_digits(c.time as nat);
            lemma_integer_text_plain(c.low@);
            lemma_integer_text_plain(c.high@);
            lemma_integer_text_plain(c.open@);
            lemma_integer_text_plain(c.close@);
            lemma_integer_text_plain(c.volume@);
            assert(fs[0] == decimal(c.time as nat));
            assert(fs[1] == number_text(c.low@));
            assert(fs[2] == number_text(c.high@));
            assert(fs[3] == number_text(c.open@));
            assert(fs[4] == number_text(c.close@));
            assert(fs[5] == number_text(c.volume@));
            assert(plain_record(fs));
        }
    }
    r
}

// ---- the sequencer ----

/// Least time, in milliseconds, between two history requests: the exchange
/// allows one request per second.
pub const MIN_INTERVAL_MS: u64 = 1000;

/// Why a history fetch stopped.
#[derive(Debug, PartialEq, Eq)]
pub enum FetchError {
    /// The request could not be sent or its response not read.
    Transport(String),
    /// The exchange answered with an error message.
    Exchange(String),
    /// The response body could not be decoded.
    Decode(ResponseDecodeError),
    /// The response decoded to something other than candles.
    Unexpected(ResponseKind),
    /// An end of the window cannot be written as RFC 3339 text.
    InvalidWindow,
}

pub enum FetchErrorView {
    Transport(Seq<char>),
    Exchange(Seq<char>),
    Decode(ResponseDecodeError),
    Unexpected(ResponseKind),
    InvalidWindow,
}

impl View for FetchError {
    type V = FetchErrorView;

    open spec fn view(&self) -> FetchErrorView {
        match self {
            FetchError::Transport(m) => FetchErrorView::Transport(m@),
            FetchError::Exchange(m) => FetchErrorView::Exchange(m@),
            FetchError::Decode(e) => FetchErrorView::Decode(*e),
            FetchError::Unexpected(k) => FetchErrorView::Unexpected(*k),
            FetchError::InvalidWindow => FetchErrorView::InvalidWindow,
        }
    }
}

impl FetchError {
    pub fn copy(&self) -> (r: FetchError)
        ensures
            r@ == self@,
    {
        match self {
            FetchError::Transport(m) => FetchError::Transport(m.clone()),
            FetchError::Exchange(m) => FetchError::Exchange(m.clone()),
            FetchError::Decode(e) => FetchError::Decode(*e),
            FetchError::Unexpected(k) => FetchError::Unexpected(*k),
            FetchError::InvalidWindow => FetchError::InvalidWindow,
        }
    }
}

/// What the caller is to do next.
#[derive(Debug, PartialEq, Eq)]
pub enum Step {
    /// Wait this many milliseconds, then poll again.
    Wait(u64),
    /// Send a GET request to `url` for the window at `index`, then hand its
    /// outcome to `receive`.
    Request { index: usize, url: String },
    /// Every window has been fetched.
    Finished,
    /// The fetch has stopped; no further request will be issued.
    Failed(FetchError),
}

pub enum StepView {
    Wait(u64),
    Request(usize, Seq<char>),
    Finished,
    Failed(FetchErrorView),
}

impl View for Step {
    type V = StepView;

    open spec fn view(&self) -> StepView {
        match self {
            Step::Wait(ms) => StepView::Wait(*ms),
            Step::Request { index, url } => StepView::Request(*index, url@),
            Step::Finished => StepView::Finished,
            Step::Failed(e) => StepView::Failed(e@),
        }
    }
}

/// The state of a history fetch, as its contracts see it.
pub struct HistoryView {
    pub product_id: Seq<char>,
    pub granularity: i64,
    pub windows: Seq<TimeWindow>,
    pub min_interval: u64,
    /// Number of windows requested so far; the next one has this index.
    pub next: nat,
    /// A request is out and its outcome not yet received.
    pub awaiting: bool,
    /// When each request was issued, in milliseconds, in order.
    pub issue_times: Seq<u64>,
    pub error: Option<FetchErrorView>,
}

/// Drives the planned windows through the exchange one request at a time,
/// at least `min_interval` milliseconds apart. The caller performs each
/// step: it sleeps, sends the request, and hands back what came of it.
pub struct HistoryFetch {
    product_id: String,
    granularity: i64,
    windows: Vec<TimeWindow>,
    min_interval: u64,
    next: usize,
    awaiting: bool,
    last_issue: Option<u64>,
    error: Option<FetchError>,
    issue_times: Ghost<Seq<u64>>,
}

impl View for HistoryFetch {
    type V = HistoryView;

    closed spec fn view(&self) -> HistoryView {
        HistoryView {
            product_id: self.product_id@,
            granularity: self.granularity,
            windows: self.windows@,
            min_interval: self.min_interval,
            next: self.next as nat,
            awaiting: self.awaiting,
            issue_times: self.issue_times@,
            error: match self.error {
                Some(e) => Some(e@),
                None => None,
            },
        }
    }
}

/// The step `poll` takes at time `now`, and the state it leaves. After a
/// failure it only reports the failure; when every window has been
/// requested it reports the end; before `min_interval` has passed since the
/// last request it asks to wait the rest of it; else it issues the next
/// window's request, or fails where that window has no URL.
pub open spec fn poll_step(o: HistoryView, now: u64) -> (StepView, HistoryView) {
    if o.error is Some {
        (StepView::Failed(o.error->0), o)
    } else if o.next == o.windows.len() {
        (StepView::Finished, o)
    } else if o.next > 0 && now < o.issue_times.last() + o.min_interval {
        (StepView::Wait((o.issue_times.last() + o.min_interval - now) as u64), o)
    } else {
        match window_url(o.product_id, o.windows[o.next as int], o.granularity as u64) {
            None => (
                StepView::Failed(FetchErrorView::InvalidWindow),
                HistoryView { error: Some(FetchErrorView::InvalidWindow), ..o },
            ),
            Some(url) => (
                StepView::Request(o.next as usize, url),
                HistoryView {
                    next: o.next + 1,
                    awaiting: true,
                    issue_times: o.issue_times.push(now),
                    ..o
                },
            ),
        }
    }
}

/// The state after a page of candles is received for the request that is out.
pub open spec fn candles_received(o: HistoryView) -> HistoryView {
    HistoryView { awaiting: false, ..o }
}

/// The state after `k` rounds in which the fetch is polled at `times[i]` and
/// the request it issues is answered with candles.
pub open spec fn run_with_candles(o: HistoryView, times: Seq<u64>, k: nat) -> HistoryView
    decreases k,
{
    if k == 0 {
        o
    } else {
        candles_received(poll_step(run_with_candles(o, times, (k - 1) as nat), times[k - 1]).1)
    }
}

proof fn lemma_run_state(o: HistoryView, times: Seq<u64>, k: nat)
    requires
        o.next == 0,
        !o.awaiting,
        o.error is None,
        o.issue_times == Seq::<u64>::empty(),
        times.len() == o.windows.len(),
        k <= o.windows.len(),
        forall|i: int| 0 <= i < times.len() - 1 ==> times[i] + o.min_interval <= #[trigger] times[i + 1],
        forall|i: int|
            0 <= i < o.windows.len() ==> #[trigger] window_url(o.product_id, o.windows[i], o.granularity as u64) is Some,
    ensures
        run_with_candles(o, times, k) == (HistoryView {
            next: k,
            issue_times: times.take(k as int),
            ..o
        }),
    decreases k,
{
    if k > 0 {
        let j = (k - 1) as nat;
        lemma_run_state(o, times, j);
        let s = run_with_candles(o, times, j);
        assert(times.take(0) =~= Seq::<u64>::empty());
        if j > 0 {
            let i = j - 1;
            assert(times[i] + o.min_interval <= times[i + 1]);
            assert(s.issue_times.last() == times[i]);
        }
        assert(window_url(o.product_id, o.windows[j as int], o.granularity as u64) is Some);
        assert(times.take(j as int).push(times[j as int]) =~= times.take(k as int));
    } else {
        assert(times.take(0) =~= Seq::<u64>::empty());
    }
}

/// A fetch whose every request is answered with candles, polled once per
/// window at times that keep the minimum interval, requests each planned
/// window exactly once, in order, at that window's URL, and then finishes.
pub proof fn lemma_run_requests_every_window(o: HistoryView, times: Seq<u64>)
    requires
        o.next == 0,
        !o.awaiting,
        o.error is None,
        o.issue_times == Seq::<u64>::empty(),
        o.windows.len() <= usize::MAX,
        times.len() == o.windows.len(),
        forall|i: int| 0 <= i < times.len() - 1 ==> times[i] + o.min_interval <= #[trigger] times[i + 1],
        forall|i: int|
            0 <= i < o.windows.len() ==> #[trigger] window_url(o.product_id, o.windows[i], o.granularity as u64) is Some,
    ensures
        forall|k: nat|
            k < o.windows.len() ==> #[trigger] poll_step(run_with_candles(o, times, k), times[k as int]).0
                == StepView::Request(
                k as usize,
                window_url(o.product_id, o.windows[k as int], o.granularity as u64)->0,
            ),
        forall|now: u64|
            #[trigger] poll_step(run_with_candles(o, times, o.windows.len()), now).0 == StepView::Finished,
{
    assert forall|k: nat| k < o.windows.len() implies #[trigger] poll_step(
        run_with_candles(o, times, k),
        times[k as int],
    ).0 == StepView::Request(
        k as usize,
        window_url(o.product_id, o.windows[k as int], o.granularity as u64)->0,
    ) by {
        lemma_run_state(o, times, k);
        assert(window_url(o.product_id, o.windows[k as int], o.granularity as u64) is Some);
        if k > 0 {
            let i = k - 1;
            assert(times[i] + o.min_interval <= times[i + 1]);
            assert(times.take(k as int).last() == times[i]);
        }
    }
    lemma_run_state(o, times, o.windows.len());
}

/// Once a fetch has stopped, it stays stopped: whenever it is polled it
/// reports the same failure, issues no request, and its state is unchanged;
/// the pages already handed back are never taken back.
pub proof fn lemma_failure_is_final(o: HistoryView, now: u64)
    requires
        o.error is Some,
    ensures
        poll_step(o, now) == (StepView::Failed(o.error->0), o),
{
}

/// Consecutive requests are at least `min_interval` milliseconds apart.
pub open spec fn spaced(times: Seq<u64>, min_interval: u64) -> bool {
    forall|i: int|
        0 <= i < times.len() - 1 ==> times[i] + min_interval <= #[trigger] times[i + 1]
}

impl HistoryView {
    pub open spec fn wf(&self) -> bool {
        &&& self.next <= self.windows.len()
        &&& self.issue_times.len() == self.next
        &&& spaced(self.issue_times, self.min_interval)
        &&& self.awaiting ==> self.error is None && self.next > 0
        &&& self.granularity > 0
    }
}

impl HistoryFetch {
    pub closed spec fn wf(&self) -> bool {
        &&& self@.wf()
        &&& self.last_issue == (if self.next == 0 {
            None
        } else {
            Some(self.issue_times@.last())
        })
    }

    /// A fetch of `windows` in order, none requested yet.
    pub fn new(product_id: String, windows: Vec<TimeWindow>, granularity: i64, min_interval: u64) -> (r:
        HistoryFetch)
        requires
            granularity > 0,
        ensures
            r.wf(),
            r@.product_id == product_id@,
            r@.granularity == granularity,
            r@.windows == windows@,
            r@.min_interval == min_interval,
            r@.next == 0,
            r@.issue_times == Seq::<u64>::empty(),
            !r@.awaiting,
            r@.error is None,
    {
        HistoryFetch {
            product_id,
            granularity,
            windows,
            min_interval,
            next: 0,
            awaiting: false,
            last_issue: None,
            error: None,
            issue_times: Ghost(Seq::empty()),
        }
    }

    /// The fetch of the candles of `product_id` from `start` to `end`, two
    /// RFC 3339 instants, with candles of `granularity` seconds given as
    /// text: windows of `CANDLES_PER_REQUEST` candles, requested
    /// `MIN_INTERVAL_MS` apart. The granularity is read first.
    pub fn plan(product_id: &str, start: &str, end: &str, granularity: &str) -> (r: Result<
        HistoryFetch,
        PlanError,
    >)
        ensures
            match (granularity_of(granularity@), rfc3339_instant(start@), rfc3339_instant(end@)) {
                (None, _, _) => r is Err && r->Err_0 == PlanError::InvalidGranularity,
                (Some(g), Some(s), Some(e)) => match planned_windows(
                    s,
                    e,
                    g as int,
                    CANDLES_PER_REQUEST as int,
                ) {
                    Ok(ws) => r is Ok && r->Ok_0.wf() && r->Ok_0@ == HistoryView {
                        product_id: product_id@,
                        granularity: g,
                        windows: ws,
                        min_interval: MIN_INTERVAL_MS,
                        next: 0,
                        awaiting: false,
                        issue_times: Seq::empty(),
                        error: None,
                    },
                    Err(pe) => r is Err && r->Err_0 == pe,
                },
                _ => r is Err && r->Err_0 == PlanError::InvalidTime,
            },
    {
        let g = match parse_granularity(granularity) {
            Ok(g) => g,
            Err(e) => return Err(e),
        };
        let s = match Instant::parse(start) {
            Some(t) => t,
            None => return Err(PlanError::InvalidTime),
        };
        let e = match Instant::parse(end) {
            Some(t) => t,
            None => return Err(PlanError::InvalidTime),
        };
        match plan_windows(s, e, g, CANDLES_PER_REQUEST) {
            Ok(windows) => Ok(
                HistoryFetch::new(String::from_str(product_id), windows, g, MIN_INTERVAL_MS),
            ),
            Err(pe) => Err(pe),
        }
    }

    pub fn is_awaiting(&self) -> (r: bool)
        ensures
            r == self@.awaiting,
    {
        self.awaiting
    }

    /// Decides the next step at time `now`, in milliseconds. After a
    /// failure it only reports the failure; when every window has been
    /// requested it reports the end; before `min_interval` has passed since
    /// the last request it asks to wait the rest of it; else it issues the
    /// next window's request.
    pub fn poll(&mut self, now: u64) -> (r: Step)
        requires
            old(self).wf(),
            !old(self)@.awaiting,
        ensures
            final(self).wf(),
            final(self)@.product_id == old(self)@.product_id,
            final(self)@.granularity == old(self)@.granularity,
            final(self)@.windows == old(self)@.windows,
            final(self)@.min_interval == old(self)@.min_interval,
            r@ == poll_step(old(self)@, now).0,
            final(self)@ == poll_step(old(self)@, now).1,
    {
        if let Some(e) = &self.error {
            return Step::Failed(e.copy());
        }
        if self.next == self.windows.len() {
            return Step::Finished;
        }
        if let Some(t) = self.last_issue {
            if (now as u128) < t as u128 + self.min_interval as u128 {
                return Step::Wait((t as u128 + self.min_interval as u128 - now as u128) as u64);
            }
        }
        let index = self.next;
        match history_url_for(self.product_id.as_str(), &self.windows[index], self.granularity as u64) {
            None => {
                self.error = Some(FetchError::InvalidWindow);
                Step::Failed(FetchError::InvalidWindow)
            },
            Some(url) => {
                proof {
                    let times = self.issue_times@.push(now);
                    assert(spaced(times, self.min_interval)) by {
                        assert forall|i: int| 0 <= i < times.len() - 1 implies times[i]
                            + self.min_interval <= #[trigger] times[i + 1] by {
                            if i + 1 < times.len() - 1 {
                                assert(times[i + 1] == self.issue_times@[i + 1]);
                            }
                        }
                    }
                    self.issue_times = Ghost(times);
                }
                self.next = index + 1;
                self.awaiting = true;
                self.last_issue = Some(now);
                Step::Request { index, url }
            },
        }
    }

    /// Takes in the outcome of the request that is out. Candles are handed
    /// back, in the order received, for the caller to emit; anything else
    /// stops the fetch: an exchange error with its message, another shape
    /// as unexpected, a failure as it is.
    pub fn receive(&mut self, outcome: Result<ApiResponse, FetchError>) -> (r: Result<
        Vec<Candlestick>,
        FetchError,
    >)
        requires
            old(self).wf(),
            old(self)@.awaiting,
        ensures
            final(self).wf(),
            !final(self)@.awaiting,
            ({
                let o = old(self)@;
                let f = final(self)@;
                match outcome {
                    Ok(ApiResponse::Candlesticks(cs)) => r == Ok::<
                        Vec<Candlestick>,
                        FetchError,
                    >(cs) && f == HistoryView { awaiting: false, ..o },
                    _ => r is Err && f == HistoryView {
                        awaiting: false,
                        error: Some(r->Err_0@),
                        ..o
                    } && r->Err_0@ == match outcome {
                        Ok(ApiResponse::ApiError(e)) => FetchErrorView::Exchange(e.message@),
                        Ok(other) => FetchErrorView::Unexpected(other.kind()),
                        Err(e) => e@,
                    },
                }
            }),
    {
        self.awaiting = false;
        let err = match outcome {
            Ok(ApiResponse::Candlesticks(cs)) => return Ok(cs),
            Ok(ApiResponse::ApiError(e)) => FetchError::Exchange(e.message),
            Ok(other) => FetchError::Unexpected(response_kind_of(&other)),
            Err(e) => e,
        };
        self.error = Some(err.copy());
        Err(err)
    }

    /// Takes in the body of the response to the request that is out: a body
    /// that is not JSON, or JSON of no known shape, stops the fetch with a
    /// decode error; otherwise it is handled as `receive` handles the
    /// decoded response, so that a page of candles comes back whole and in
    /// order, and an exchange error stops the fetch with its message.
    pub fn receive_body(&mut self, body: &[u8]) -> (r: Result<Vec<Candlestick>, FetchError>)
        requires
            old(self).wf(),
            old(self)@.awaiting,
        ensures
            final(self).wf(),
            final(self)@ == (HistoryView {
                awaiting: false,
                error: if r is Ok {
                    None
                } else {
                    Some(r->Err_0@)
                },
                ..old(self)@
            }),
            json_parse(body@) is None ==> r is Err && r->Err_0@ == FetchErrorView::Decode(
                ResponseDecodeError::NotJson,
            ),
            json_parse(body@) matches Some(v) ==> match response_kind(v) {
                None => r is Err && r->Err_0@ == FetchErrorView::Decode(
                    ResponseDecodeError::UnknownShape,
                ),
                Some(ResponseKind::Candlesticks) => r is Ok && decoded_from(
                    ApiResponse::Candlesticks(r->Ok_0),
                    v,
                ),
                Some(ResponseKind::ApiError) => r is Err && r->Err_0@ == FetchErrorView::Exchange(
                    str_member(v, "message"@)->0,
                ),
                Some(k) => r is Err && r->Err_0@ == FetchErrorView::Unexpected(k),
            },
    {
        let outcome = match crate::api::decode_response(body) {
            Ok(resp) => Ok(resp),
            Err(e) => Err(FetchError::Decode(e)),
        };
        self.receive(outcome)
    }

    /// Reports that the request that is out failed in transport.
    pub fn transport_failed(&mut self, message: String) -> (r: FetchError)
        requires
            old(self).wf(),
            old(self)@.awaiting,
        ensures
            final(self).wf(),
            r@ == FetchErrorView::Transport(message@),
            final(self)@ == (HistoryView {
                awaiting: false,
                error: Some(FetchErrorView::Transport(message@)),
                ..old(self)@
            }),
    {
        self.awaiting = false;
        self.error = Some(FetchError::Transport(message.clone()));
        FetchError::Transport(message)
    }
}

/// The sequencer never issues a window earlier than `min_interval` after
/// the window before it: in every state that its operations reach, the
/// request for window `j` went out at least `(j - i) * min_interval`
/// milliseconds after the request for window `i`.
pub proof fn lemma_requests_spaced(f: HistoryFetch)
    requires
        f.wf(),
    ensures
        f@.issue_times.len() == f@.next,
        forall|i: int, j: int|
            0 <= i <= j < f@.issue_times.len() ==> #[trigger] f@.issue_times[i] + (j - i)
                * f@.min_interval <= #[trigger] f@.issue_times[j],
{
    let times = f@.issue_times;
    let m = f@.min_interval;
    assert forall|i: int, j: int| 0 <= i <= j < times.len() implies #[trigger] times[i] + (j - i) * m
        <= #[trigger] times[j] by {
        lemma_spaced_apart(times, m, i, j);
    }
}

proof fn lemma_spaced_apart(times: Seq<u64>, m: u64, i: int, j: int)
    requires
        spaced(times, m),
        0 <= i <= j < times.len(),
    ensures
        times[i] + (j - i) * m <= times[j],
    decreases j - i,
{
    if i < j {
        lemma_spaced_apart(times, m, i, j - 1);
        let k = j - 1;
        assert(times[k] + m <= times[k + 1]);
        assert((j - i) * m == (j - 1 - i) * m + m) by (nonlinear_arith);
    } else {
        assert((j - i) * m == 0) by (nonlinear_arith)
            requires
                i == j,
        ;
    }
}

/// The shape of a decoded response.
pub fn response_kind_of(r: &ApiResponse) -> (k: ResponseKind)
    ensures
        k == r.kind(),
{
    match r {
        ApiResponse::ApiError(_) => ResponseKind::ApiError,
        ApiResponse::Tick(_) => ResponseKind::Tick,
        ApiResponse::Candlesticks(_) => ResponseKind::Candlesticks,
        ApiResponse::Account(_) => ResponseKind::Account,
        ApiResponse::Accounts(_) => ResponseKind::Accounts,
        ApiResponse::Order(_) => ResponseKind::Order,
        ApiResponse::Orders(_) => ResponseKind::Orders,
        ApiResponse::DepositResponse(_) => ResponseKind::DepositResponse,
        ApiResponse::PaymentMethods(_) => ResponseKind::PaymentMethods,
    }
}

} // verus!
