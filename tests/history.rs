use hodl::api::{ApiError, ApiResponse, Candlestick, ResponseDecodeError, ResponseKind, Tick};
use hodl::history::{build_history_url, candle_row, history_url_for, FetchError, HistoryFetch, Step};
use hodl::json::JsonNumber;
use hodl::planner::{PlanError, TimeWindow};
use hodl::instant::Instant;

fn candle(t: u64) -> Candlestick {
    Candlestick {
        time: t,
        low: JsonNumber::PosInt(100),
        high: JsonNumber::PosInt(110),
        open: JsonNumber::PosInt(105),
        close: JsonNumber::PosInt(108),
        volume: JsonNumber::PosInt(50),
    }
}

fn windows(n: i64) -> Vec<TimeWindow> {
    (0..n)
        .map(|i| TimeWindow {
            start: Instant { seconds: 1577836800 + i * 90000, offset: 0 },
            end: Instant { seconds: 1577836800 + (i + 1) * 90000, offset: 0 },
        })
        .collect()
}

#[test]
fn history_url_encodes_query_values() {
    assert_eq!(
        build_history_url("BTC-USD", "2020-01-01T00:00:00-04:00", "2020-01-02T01:00:00+01:00", "300"),
        "https://api.pro.coinbase.com/products/BTC-USD/candles?start=2020-01-01T00%3A00%3A00-04%3A00\
         &end=2020-01-02T01%3A00%3A00%2B01%3A00&granularity=300"
    );
    assert_eq!(
        build_history_url("X", "a b", "é", "*-._"),
        "https://api.pro.coinbase.com/products/X/candles?start=a+b&end=%C3%A9&granularity=*-._"
    );
}

#[test]
fn history_url_of_a_window() {
    let w = TimeWindow {
        start: Instant { seconds: 1577851200, offset: -14400 },
        end: Instant { seconds: 1577941200, offset: -14400 },
    };
    assert_eq!(
        history_url_for("BTC-USD", &w, 300),
        Some(
            "https://api.pro.coinbase.com/products/BTC-USD/candles?start=2020-01-01T00%3A00%3A00-04%3A00\
             &end=2020-01-02T01%3A00%3A00-04%3A00&granularity=300"
                .to_string()
        )
    );
}

#[test]
fn single_window_yields_its_candle() {
    let mut f = HistoryFetch::plan("BTC-USD", "2020-01-01T00:00:00-04:00", "2020-01-01T00:00:01-04:00", "300")
        .unwrap();
    let mut out: Vec<Candlestick> = Vec::new();
    match f.poll(0) {
        Step::Request { index, url } => {
            assert_eq!(index, 0);
            assert!(url.starts_with("https://api.pro.coinbase.com/products/BTC-USD/candles?start="));
        }
        other => panic!("unexpected {:?}", other),
    }
    out.extend(f.receive(Ok(ApiResponse::Candlesticks(vec![candle(1577836800)]))).unwrap());
    assert_eq!(f.poll(10), Step::Finished);
    assert_eq!(out, vec![candle(1577836800)]);
    let mut csv = hodl::history::csv_header();
    csv.extend(candle_row(&out[0]));
    assert_eq!(
        String::from_utf8(csv).unwrap(),
        "time,low,high,open,close,volume\n1577836800,100,110,105,108,50\n"
    );
}

#[test]
fn error_on_second_window_stops_the_fetch() {
    let mut f = HistoryFetch::new("BTC-USD".to_string(), windows(3), 300, 1000);
    let mut out: Vec<Candlestick> = Vec::new();
    let mut requested: Vec<usize> = Vec::new();
    let mut now: u64 = 0;
    let failure = loop {
        match f.poll(now) {
            Step::Wait(ms) => now += ms,
            Step::Request { index, .. } => {
                requested.push(index);
                let outcome = if index == 1 {
                    Ok(ApiResponse::ApiError(ApiError { message: "rate limit exceeded".to_string() }))
                } else {
                    Ok(ApiResponse::Candlesticks(vec![candle(index as u64)]))
                };
                if let Ok(cs) = f.receive(outcome) {
                    out.extend(cs);
                }
            }
            Step::Finished => panic!("the fetch should fail"),
            Step::Failed(e) => break e,
        }
    };
    assert_eq!(failure, FetchError::Exchange("rate limit exceeded".to_string()));
    assert_eq!(requested, vec![0, 1]);
    assert_eq!(out, vec![candle(0)]);
    assert_eq!(f.poll(now + 5000), Step::Failed(FetchError::Exchange("rate limit exceeded".to_string())));
}

#[test]
fn requests_wait_for_the_interval() {
    let mut f = HistoryFetch::new("ETH-USD".to_string(), windows(3), 60, 1000);
    assert!(matches!(f.poll(5000), Step::Request { index: 0, .. }));
    assert!(f.is_awaiting());
    assert_eq!(f.receive(Ok(ApiResponse::Candlesticks(vec![]))), Ok(vec![]));
    assert_eq!(f.poll(5000), Step::Wait(1000));
    assert_eq!(f.poll(5999), Step::Wait(1));
    assert!(matches!(f.poll(6000), Step::Request { index: 1, .. }));
    assert_eq!(f.receive(Ok(ApiResponse::Candlesticks(vec![candle(9)]))), Ok(vec![candle(9)]));
    assert_eq!(f.poll(6500), Step::Wait(500));
    assert!(matches!(f.poll(9000), Step::Request { index: 2, .. }));
    assert_eq!(f.receive(Ok(ApiResponse::Candlesticks(vec![]))), Ok(vec![]));
    assert_eq!(f.poll(9001), Step::Finished);
}

#[test]
fn other_outcomes_stop_the_fetch() {
    let mut f = HistoryFetch::new("BTC-USD".to_string(), windows(2), 300, 0);
    assert!(matches!(f.poll(0), Step::Request { .. }));
    let tick = Tick {
        trade_id: 1,
        price: "1".to_string(),
        size: "1".to_string(),
        bid: "1".to_string(),
        ask: "1".to_string(),
        volume: "1".to_string(),
        time: "t".to_string(),
    };
    assert_eq!(f.receive(Ok(ApiResponse::Tick(tick))), Err(FetchError::Unexpected(ResponseKind::Tick)));
    assert_eq!(f.poll(1), Step::Failed(FetchError::Unexpected(ResponseKind::Tick)));

    let mut g = HistoryFetch::new("BTC-USD".to_string(), windows(2), 300, 0);
    assert!(matches!(g.poll(0), Step::Request { .. }));
    assert_eq!(g.receive_body(b"<html>"), Err(FetchError::Decode(ResponseDecodeError::NotJson)));
    assert_eq!(g.poll(1), Step::Failed(FetchError::Decode(ResponseDecodeError::NotJson)));

    let mut h = HistoryFetch::new("BTC-USD".to_string(), windows(2), 300, 0);
    assert!(matches!(h.poll(0), Step::Request { .. }));
    assert_eq!(h.transport_failed("timeout".to_string()), FetchError::Transport("timeout".to_string()));
    assert_eq!(h.poll(1), Step::Failed(FetchError::Transport("timeout".to_string())));
}

#[test]
fn receive_body_decodes_candles() {
    let mut f = HistoryFetch::new("BTC-USD".to_string(), windows(1), 300, 1000);
    assert!(matches!(f.poll(0), Step::Request { .. }));
    assert_eq!(f.receive_body(b"[[1577836800,100,110,105,108,50]]"), Ok(vec![candle(1577836800)]));
    assert_eq!(f.poll(0), Step::Finished);
}

#[test]
fn window_outside_the_calendar_fails() {
    let w = vec![TimeWindow {
        start: Instant { seconds: i64::MAX - 10, offset: 0 },
        end: Instant { seconds: i64::MAX, offset: 0 },
    }];
    let mut f = HistoryFetch::new("BTC-USD".to_string(), w, 300, 0);
    assert_eq!(f.poll(0), Step::Failed(FetchError::InvalidWindow));
}

#[test]
fn plan_reports_bad_input() {
    assert_eq!(
        HistoryFetch::plan("BTC-USD", "2020-01-01T00:00:00Z", "2020-01-02T00:00:00Z", "5m").err(),
        Some(PlanError::InvalidGranularity)
    );
    assert_eq!(
        HistoryFetch::plan("BTC-USD", "", "2020-01-02T00:00:00Z", "60").err(),
        Some(PlanError::InvalidTime)
    );
    assert_eq!(
        HistoryFetch::plan("BTC-USD", "2020-01-02T00:00:00Z", "2020-01-01T00:00:00Z", "60").err(),
        Some(PlanError::InvalidRange)
    );
}

#[test]
fn receive_body_reports_each_kind_of_failure() {
    let mut a = HistoryFetch::new("BTC-USD".to_string(), windows(3), 300, 0);
    assert!(matches!(a.poll(0), Step::Request { index: 0, .. }));
    assert_eq!(a.receive_body(b"[[1,2,3,4,5,6]]").map(|v| v.len()), Ok(1));
    assert!(matches!(a.poll(0), Step::Request { index: 1, .. }));
    assert_eq!(
        a.receive_body(b"{\"message\":\"rate limit exceeded\"}"),
        Err(FetchError::Exchange("rate limit exceeded".to_string()))
    );
    assert_eq!(a.poll(0), Step::Failed(FetchError::Exchange("rate limit exceeded".to_string())));

    let mut b = HistoryFetch::new("BTC-USD".to_string(), windows(1), 300, 0);
    assert!(matches!(b.poll(0), Step::Request { .. }));
    assert_eq!(b.receive_body(b"{\"foo\":1}"), Err(FetchError::Decode(ResponseDecodeError::UnknownShape)));

    let mut c = HistoryFetch::new("BTC-USD".to_string(), windows(1), 300, 0);
    assert!(matches!(c.poll(0), Step::Request { .. }));
    assert_eq!(
        c.receive_body(b"[{\"id\":\"o\",\"size\":\"1\",\"price\":\"1\",\"side\":\"buy\",\"status\":\"s\",\"product_id\":\"p\"}]"),
        Err(FetchError::Unexpected(ResponseKind::Orders))
    );
}
