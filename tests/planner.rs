use hodl::instant::Instant;
use hodl::planner::{calc_num_requests, parse_granularity, plan_windows, PlanError, CANDLES_PER_REQUEST};

#[test]
fn test_calc_num_requets() {
    assert_eq!(
        calc_num_requests("2020-01-01T00:00:00-04:00", "2020-01-01T00:00:01-04:00", 300),
        Ok(1)
    );
    assert_eq!(
        calc_num_requests("2020-01-01T00:00:00-04:00", "2020-01-01T00:05:00-04:00", 300),
        Ok(1)
    );
    assert_eq!(
        calc_num_requests("2020-01-01T00:00:00-04:00", "2020-01-02T00:23:55-04:00", 300),
        Ok(1)
    );
    assert_eq!(
        calc_num_requests("2020-01-01T00:00:00-04:00", "2020-01-02T01:00:00-04:00", 300),
        Ok(2)
    );
}

#[test]
fn calc_num_requests_rejects_bad_input() {
    assert_eq!(
        calc_num_requests("yesterday", "2020-01-01T00:00:01-04:00", 300),
        Err(PlanError::InvalidTime)
    );
    assert_eq!(
        calc_num_requests("2020-01-01T00:00:00-04:00", "2020-01-01T00:00:01-04:00", 0),
        Err(PlanError::InvalidGranularity)
    );
    assert_eq!(
        calc_num_requests("2020-01-01T00:00:01-04:00", "2020-01-01T00:00:00-04:00", 300),
        Err(PlanError::InvalidRange)
    );
}

#[test]
fn instant_parse_reads_seconds_and_offset() {
    let t = Instant::parse("2020-01-01T00:00:00-04:00").unwrap();
    assert_eq!(t, Instant { seconds: 1577851200, offset: -14400 });
    assert_eq!(Instant::parse("2020-01-01"), None);
}

#[test]
fn instant_writes_rfc3339_at_its_offset() {
    let t = Instant { seconds: 1577851200, offset: -14400 };
    assert_eq!(t.to_rfc3339(), Some("2020-01-01T00:00:00-04:00".to_string()));
    let utc = Instant { seconds: 0, offset: 0 };
    assert_eq!(utc.to_rfc3339(), Some("1970-01-01T00:00:00+00:00".to_string()));
}

#[test]
fn planner_one_window_for_one_second() {
    let s = Instant::parse("2020-01-01T00:00:00-04:00").unwrap();
    let e = Instant::parse("2020-01-01T00:00:01-04:00").unwrap();
    let ws = plan_windows(s, e, 300, CANDLES_PER_REQUEST).unwrap();
    assert_eq!(ws.len(), 1);
    assert_eq!(ws[0].start, s);
    assert_eq!(ws[0].end.seconds, s.seconds + 90000);
}

#[test]
fn planner_two_windows_for_twenty_five_hours() {
    let s = Instant::parse("2020-01-01T00:00:00-04:00").unwrap();
    let e = Instant::parse("2020-01-02T01:00:00-04:00").unwrap();
    let ws = plan_windows(s, e, 300, CANDLES_PER_REQUEST).unwrap();
    assert_eq!(ws.len(), 2);
}

#[test]
fn planner_windows_are_contiguous() {
    let s = Instant { seconds: 1000, offset: 3600 };
    let e = Instant { seconds: 1000 + 10 * 60 * 7 + 5, offset: 0 };
    let ws = plan_windows(s, e, 60, 10).unwrap();
    assert_eq!(ws.len(), 8);
    assert_eq!(ws[0].start, s);
    for i in 0..ws.len() {
        assert_eq!(ws[i].end.seconds - ws[i].start.seconds, 600);
        assert_eq!(ws[i].start.offset, 3600);
        if i + 1 < ws.len() {
            assert_eq!(ws[i].end, ws[i + 1].start);
        }
    }
    assert!(ws[ws.len() - 1].end.seconds >= e.seconds);
}

#[test]
fn planner_adds_a_window_on_exact_division() {
    let s = Instant { seconds: 0, offset: 0 };
    let e = Instant { seconds: 1200, offset: 0 };
    let ws = plan_windows(s, e, 60, 10).unwrap();
    assert_eq!(ws.len(), 3);
    assert_eq!(ws[2].start.seconds, 1200);
    assert_eq!(ws[2].end.seconds, 1800);
}

#[test]
fn planner_errors() {
    let s = Instant { seconds: 100, offset: 0 };
    let e = Instant { seconds: 200, offset: 0 };
    assert_eq!(plan_windows(s, e, 0, 300), Err(PlanError::InvalidGranularity));
    assert_eq!(plan_windows(s, e, -60, 300), Err(PlanError::InvalidGranularity));
    assert_eq!(plan_windows(s, e, i64::MAX, 300), Err(PlanError::InvalidGranularity));
    assert_eq!(plan_windows(e, s, 60, 300), Err(PlanError::InvalidRange));
    assert_eq!(plan_windows(s, s, 60, 300), Err(PlanError::InvalidRange));
    let late = Instant { seconds: i64::MAX - 10, offset: 0 };
    let later = Instant { seconds: i64::MAX, offset: 0 };
    assert_eq!(plan_windows(late, later, 60, 300), Err(PlanError::InvalidRange));
}

#[test]
fn granularity_parsing() {
    assert_eq!(parse_granularity("300"), Ok(300));
    assert_eq!(parse_granularity("+60"), Ok(60));
    assert_eq!(parse_granularity("9223372036854775807"), Ok(i64::MAX));
    assert_eq!(parse_granularity("9223372036854775808"), Err(PlanError::InvalidGranularity));
    assert_eq!(parse_granularity("0"), Err(PlanError::InvalidGranularity));
    assert_eq!(parse_granularity("-5"), Err(PlanError::InvalidGranularity));
    assert_eq!(parse_granularity("5m"), Err(PlanError::InvalidGranularity));
    assert_eq!(parse_granularity(""), Err(PlanError::InvalidGranularity));
    assert_eq!(parse_granularity("+"), Err(PlanError::InvalidGranularity));
}
