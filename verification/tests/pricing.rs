use live_feed::backfill::{
    backfill_request, conclude_backfill, parse_trade_line, parse_trades, query_window,
    BackfillError, BackfillReport, Fetched,
};
use live_feed::cache::PriceCache;
use live_feed::record::PriceRecord;
use live_feed::vwap::{vwap, Trade, WindowError, MAX_WINDOW_TRADES};

const UNIT: i64 = 1_000_000_000;

fn trades(list: &[(i64, u32)]) -> Vec<Trade> {
    list.iter().map(|(price, size)| Trade { price: *price, size: *size }).collect()
}

fn dollars(price: i64) -> f64 {
    price as f64 / 1e9
}

#[test]
fn vwap_weighs_by_size() {
    let price = vwap(&trades(&[(100 * UNIT, 10), (102 * UNIT, 30)])).unwrap();
    assert_eq!(price, 101_500_000_000);
    assert_eq!(dollars(price), 101.5);
}

#[test]
fn vwap_of_zero_sizes_is_the_midpoint() {
    let price = vwap(&trades(&[(100 * UNIT, 0), (105 * UNIT, 0), (101 * UNIT, 0)])).unwrap();
    assert_eq!(price, 102_500_000_000);
    assert_eq!(dollars(price), 102.5);
}

#[test]
fn vwap_of_one_trade_is_its_price() {
    assert_eq!(vwap(&trades(&[(7, 3)])), Ok(7));
    assert_eq!(vwap(&trades(&[(7, 0)])), Ok(7));
}

#[test]
fn vwap_ignores_trades_without_size_when_others_have_one() {
    assert_eq!(vwap(&trades(&[(1_000, 0), (10, 2), (20, 2)])), Ok(15));
}

#[test]
fn vwap_of_nothing_is_an_error() {
    assert_eq!(vwap(&Vec::new()), Err(WindowError::Empty));
}

#[test]
fn vwap_rounds_down() {
    assert_eq!(vwap(&trades(&[(1, 1), (2, 2)])), Ok(1));
    assert_eq!(vwap(&trades(&[(-1, 1), (-2, 2)])), Ok(-2));
    assert_eq!(vwap(&trades(&[(-3, 0), (0, 0)])), Ok(-2));
    assert_eq!(vwap(&trades(&[(3, 0), (0, 0)])), Ok(1));
    assert_eq!(vwap(&trades(&[(-4, 1), (-4, 3)])), Ok(-4));
}

#[test]
fn vwap_stands_the_extremes() {
    assert_eq!(vwap(&trades(&[(i64::MAX, u32::MAX), (i64::MAX, u32::MAX)])), Ok(i64::MAX));
    assert_eq!(vwap(&trades(&[(i64::MIN, u32::MAX), (i64::MIN, 1)])), Ok(i64::MIN));
    assert_eq!(vwap(&trades(&[(i64::MIN, 0), (i64::MAX, 0)])), Ok(-1));
    assert_eq!(vwap(&trades(&[(i64::MIN, 1), (i64::MAX, 1)])), Ok(-1));
}

#[test]
fn vwap_limit_is_the_largest_32_bit_number() {
    assert_eq!(MAX_WINDOW_TRADES as u64, u32::MAX as u64);
}

#[test]
fn parse_trade_line_reads_price_and_size() {
    assert_eq!(
        parse_trade_line(r#"{"price":100000000000,"size":10,"side":"B"}"#),
        Some(Trade { price: 100_000_000_000, size: 10 })
    );
    assert_eq!(parse_trade_line(r#"{"price":-5}"#), Some(Trade { price: -5, size: 0 }));
    assert_eq!(parse_trade_line(r#"{"price":5,"size":"x"}"#), Some(Trade { price: 5, size: 0 }));
    assert_eq!(
        parse_trade_line(r#"{"price":5,"size":4294967296}"#),
        Some(Trade { price: 5, size: 0 })
    );
    assert_eq!(
        parse_trade_line(r#" {"size":4294967295,"price":5} "#),
        Some(Trade { price: 5, size: u32::MAX })
    );
}

#[test]
fn parse_trade_line_passes_over_what_is_no_trade() {
    assert_eq!(parse_trade_line(""), None);
    assert_eq!(parse_trade_line("   "), None);
    assert_eq!(parse_trade_line("not json"), None);
    assert_eq!(parse_trade_line(r#"{"size":10}"#), None);
    assert_eq!(parse_trade_line(r#"{"price":"100"}"#), None);
    assert_eq!(parse_trade_line(r#"{"price":1.5}"#), None);
    assert_eq!(parse_trade_line("[1,2]"), None);
    assert_eq!(parse_trade_line("price"), None);
}

#[test]
fn parse_trades_reads_one_trade_per_line() {
    let body = "{\"price\":100,\"size\":10}\n\n{\"price\":102,\"size\":30}\r\noops\n{\"size\":1}\n";
    assert_eq!(parse_trades(body), trades(&[(100, 10), (102, 30)]));
    assert_eq!(parse_trades(""), Vec::new());
    assert_eq!(parse_trades("\n\n"), Vec::new());
}

#[test]
fn query_window_is_one_second_either_side() {
    assert_eq!(
        query_window("2024-01-02T03:04:05Z"),
        Some(("2024-01-02T03:04:04Z".to_string(), "2024-01-02T03:04:06Z".to_string()))
    );
    assert_eq!(
        query_window("2024-01-01T00:00:00.750+02:00"),
        Some(("2023-12-31T21:59:59Z".to_string(), "2023-12-31T22:00:01Z".to_string()))
    );
}

#[test]
fn query_window_rejects_what_is_no_timestamp() {
    assert_eq!(query_window("yesterday"), None);
    assert_eq!(query_window(""), None);
    assert_eq!(query_window("2024-01-02"), None);
    assert_eq!(query_window("2024-13-02T03:04:05Z"), None);
}

#[test]
fn backfill_request_builds_the_query() {
    let request =
        backfill_request(Some("key"), "EQUS.MINI", " aapl ", "2024-01-02T03:04:05Z").unwrap();
    assert_eq!(request.symbol, "AAPL");
    assert_eq!(
        request.url,
        "https://hist.databento.com/v0/timeseries.get_range?dataset=EQUS.MINI&symbols=AAPL\
         &stype_in=raw_symbol&start=2024-01-02T03:04:04Z&end=2024-01-02T03:04:06Z\
         &schema=trades&encoding=json&limit=100"
    );
    assert_eq!(request.authorization, "Basic a2V5Og==");
}

#[test]
fn backfill_request_encodes_the_credential() {
    let request =
        backfill_request(Some("db-SECRET"), "X", "a", "2024-01-02T03:04:05Z").unwrap();
    assert_eq!(request.authorization, "Basic ZGItU0VDUkVUOg==");
}

#[test]
fn backfill_request_needs_a_credential() {
    assert_eq!(
        backfill_request(None, "EQUS.MINI", "AAPL", "2024-01-02T03:04:05Z"),
        Err(BackfillError::MissingCredential)
    );
    assert_eq!(
        backfill_request(Some(""), "EQUS.MINI", "AAPL", "2024-01-02T03:04:05Z"),
        Err(BackfillError::MissingCredential)
    );
    assert_eq!(
        backfill_request(None, "EQUS.MINI", "AAPL", "never"),
        Err(BackfillError::MissingCredential)
    );
}

#[test]
fn backfill_request_needs_a_timestamp() {
    assert_eq!(
        backfill_request(Some("key"), "EQUS.MINI", "AAPL", "never"),
        Err(BackfillError::InvalidTimestamp)
    );
}

#[test]
fn backfill_errors_have_their_status() {
    assert_eq!(BackfillError::MissingCredential.status(), 400);
    assert_eq!(BackfillError::CredentialTooLong.status(), 400);
    assert_eq!(BackfillError::InvalidTimestamp.status(), 400);
    assert_eq!(BackfillError::UpstreamFailed.status(), 502);
    assert_eq!(BackfillError::UpstreamStatus(503).status(), 502);
    assert_eq!(BackfillError::NoTrades.status(), 404);
    assert_eq!(BackfillError::OversizedWindow.status(), 502);
}

fn answer(status: u16, body: &str) -> Fetched {
    Fetched::Response { status, body: Some(body.to_string()) }
}

#[test]
fn conclude_backfill_files_the_price() {
    let mut cache = PriceCache::new();
    let body = "{\"price\":100000000000,\"size\":10}\n{\"price\":102000000000,\"size\":30}\n";
    let report = conclude_backfill(&mut cache, "AAPL".to_string(), &answer(200, body), 77);
    assert_eq!(
        report,
        Ok(BackfillReport { symbol: "AAPL".to_string(), price: 101_500_000_000, trades: 2 })
    );
    assert_eq!(
        cache.get("AAPL"),
        Some(PriceRecord { price: 101_500_000_000, ts_event_ns: Some(77) })
    );
    assert_eq!(cache.len(), 1);
}

#[test]
fn conclude_backfill_of_an_empty_window_is_not_found() {
    let mut cache = PriceCache::new();
    cache.put("AAPL".to_string(), PriceRecord { price: 1, ts_event_ns: None });
    for body in ["", "\n\n", "{\"size\":3}\n", "garbage"] {
        let report = conclude_backfill(&mut cache, "AAPL".to_string(), &answer(200, body), 77);
        assert_eq!(report, Err(BackfillError::NoTrades));
        assert_eq!(report.unwrap_err().status(), 404);
    }
    assert_eq!(cache.get("AAPL"), Some(PriceRecord { price: 1, ts_event_ns: None }));
    assert_eq!(cache.len(), 1);
}

#[test]
fn conclude_backfill_reports_the_faults_of_the_source() {
    let mut cache = PriceCache::new();
    let body = "{\"price\":1,\"size\":1}";
    assert_eq!(
        conclude_backfill(&mut cache, "A".to_string(), &Fetched::Failed, 1),
        Err(BackfillError::UpstreamFailed)
    );
    assert_eq!(
        conclude_backfill(&mut cache, "A".to_string(), &answer(500, body), 1),
        Err(BackfillError::UpstreamStatus(500))
    );
    assert_eq!(
        conclude_backfill(&mut cache, "A".to_string(), &answer(199, body), 1),
        Err(BackfillError::UpstreamStatus(199))
    );
    assert_eq!(
        conclude_backfill(&mut cache, "A".to_string(), &answer(300, body), 1),
        Err(BackfillError::UpstreamStatus(300))
    );
    assert_eq!(
        conclude_backfill(
            &mut cache,
            "A".to_string(),
            &Fetched::Response { status: 200, body: None },
            1
        ),
        Err(BackfillError::UpstreamFailed)
    );
    assert!(cache.is_empty());
    assert!(conclude_backfill(&mut cache, "A".to_string(), &answer(299, body), 1).is_ok());
    assert!(conclude_backfill(&mut cache, "A".to_string(), &answer(204, body), 1).is_ok());
}
