use live_feed::cache::PriceCache;
use live_feed::mapping::SymbolTable;
use live_feed::multiplexer::{
    route_record, Action, Event, Multiplexer, Phase, Record, Stage, FAULT_DELAY_SECS,
};
use live_feed::record::{PriceRecord, PriceUpdate};

struct Feed {
    mux: Multiplexer,
    table: SymbolTable,
    cache: PriceCache,
}

impl Feed {
    fn new() -> Feed {
        Feed { mux: Multiplexer::new(), table: SymbolTable::new(), cache: PriceCache::new() }
    }

    fn step(&mut self, event: Event) -> Action {
        self.mux.step(event, &mut self.table, &mut self.cache)
    }

    fn connected() -> Feed {
        let mut feed = Feed::new();
        assert_eq!(feed.step(Event::Start), Action::Connect);
        assert_eq!(feed.step(Event::Connected), Action::Wait);
        feed
    }

    fn streaming(symbols: &[&str]) -> Feed {
        let mut feed = Feed::connected();
        assert_eq!(feed.step(batch(symbols)), Action::Subscribe(names(symbols)));
        assert_eq!(feed.step(Event::SubscribeOk), Action::StartStreaming);
        assert_eq!(feed.step(Event::StartOk), Action::Wait);
        feed
    }
}

fn names(symbols: &[&str]) -> Vec<String> {
    symbols.iter().map(|symbol| symbol.to_string()).collect()
}

fn batch(symbols: &[&str]) -> Event {
    Event::Batch(names(symbols))
}

fn field(text: &str) -> Vec<u8> {
    let mut bytes = text.as_bytes().to_vec();
    bytes.resize(22, 0);
    bytes
}

fn mapping(instrument_id: u32, text: &str) -> Record {
    Record::Mapping { instrument_id, raw_symbol: field(text) }
}

fn trade(instrument_id: u32, price: i64, ts_event: u64) -> Record {
    Record::Trade { instrument_id, price, ts_event }
}

#[test]
fn starts_disconnected() {
    let mux = Multiplexer::new();
    assert_eq!(mux.stage(), Stage::Disconnected);
    assert_eq!(mux.phase(), Phase::Disconnected);
    assert!(!mux.accepts_records());
    assert!(mux.pending().is_empty());
}

#[test]
fn walks_from_disconnected_to_streaming() {
    let mut feed = Feed::new();
    assert_eq!(feed.step(Event::Start), Action::Connect);
    assert_eq!(feed.mux.phase(), Phase::Connecting);
    assert_eq!(feed.step(Event::Connected), Action::Wait);
    assert_eq!(feed.mux.stage(), Stage::Ready);
    assert_eq!(feed.mux.phase(), Phase::Connecting);
    assert!(!feed.mux.accepts_records());
    assert_eq!(feed.step(batch(&["AAPL", "MSFT"])), Action::Subscribe(names(&["AAPL", "MSFT"])));
    assert_eq!(feed.mux.stage(), Stage::Subscribing);
    assert_eq!(feed.mux.pending(), names(&["AAPL", "MSFT"]));
    assert_eq!(feed.step(Event::SubscribeOk), Action::StartStreaming);
    assert_eq!(feed.mux.stage(), Stage::Starting);
    assert_eq!(feed.step(Event::StartOk), Action::Wait);
    assert_eq!(feed.mux.phase(), Phase::Streaming);
    assert!(feed.mux.accepts_records());
    assert!(feed.mux.is_subscribed("AAPL"));
    assert!(feed.mux.is_subscribed("MSFT"));
    assert!(feed.mux.pending().is_empty());
}

#[test]
fn subscribes_only_what_is_new_in_one_call() {
    let mut feed = Feed::streaming(&["AAPL"]);
    assert_eq!(
        feed.step(batch(&["MSFT", "AAPL", "SPY", "MSFT"])),
        Action::Subscribe(names(&["MSFT", "SPY"]))
    );
    assert_eq!(feed.step(Event::SubscribeOk), Action::Wait);
    assert_eq!(feed.mux.phase(), Phase::Streaming);
    assert!(feed.mux.is_subscribed("SPY"));
}

#[test]
fn starts_the_stream_only_once() {
    let mut feed = Feed::streaming(&["AAPL"]);
    assert_eq!(feed.step(batch(&["MSFT"])), Action::Subscribe(names(&["MSFT"])));
    assert_eq!(feed.step(Event::SubscribeOk), Action::Wait);
    assert!(feed.mux.accepts_records());
}

#[test]
fn subscribing_twice_calls_upstream_once() {
    let mut feed = Feed::connected();
    let mut calls = 0;
    for _ in 0..2 {
        match feed.step(batch(&["AAPL", "MSFT"])) {
            Action::Subscribe(symbols) => {
                calls += 1;
                assert_eq!(symbols, names(&["AAPL", "MSFT"]));
                assert_eq!(feed.step(Event::SubscribeOk), Action::StartStreaming);
                assert_eq!(feed.step(Event::StartOk), Action::Wait);
            }
            Action::Wait => {}
            other => panic!("unexpected action {:?}", other),
        }
    }
    assert_eq!(calls, 1);
    assert_eq!(feed.mux.stage(), Stage::Ready);
    assert!(feed.mux.pending().is_empty());
}

#[test]
fn batch_of_known_symbols_changes_nothing() {
    let mut feed = Feed::streaming(&["AAPL", "MSFT"]);
    assert_eq!(feed.step(batch(&["MSFT"])), Action::Wait);
    assert_eq!(feed.step(batch(&[])), Action::Wait);
    assert_eq!(feed.mux.stage(), Stage::Ready);
    assert!(feed.mux.accepts_records());
}

#[test]
fn batch_is_not_normalized_again() {
    let mut feed = Feed::streaming(&["AAPL"]);
    assert_eq!(feed.step(batch(&["aapl"])), Action::Subscribe(names(&["aapl"])));
}

#[test]
fn failed_subscribe_is_rolled_back() {
    let mut feed = Feed::connected();
    assert_eq!(feed.step(batch(&["X", "Y"])), Action::Subscribe(names(&["X", "Y"])));
    assert!(feed.mux.is_subscribed("X"));
    assert_eq!(feed.step(Event::SubscribeFailed), Action::Wait);
    assert!(!feed.mux.is_subscribed("X"));
    assert!(!feed.mux.is_subscribed("Y"));
    assert_eq!(feed.mux.stage(), Stage::Ready);
    assert!(feed.mux.pending().is_empty());
    assert_eq!(feed.step(batch(&["X"])), Action::Subscribe(names(&["X"])));
}

#[test]
fn failed_subscribe_keeps_earlier_subscriptions() {
    let mut feed = Feed::streaming(&["A"]);
    assert_eq!(feed.step(batch(&["A", "X"])), Action::Subscribe(names(&["X"])));
    assert_eq!(feed.step(Event::SubscribeFailed), Action::Wait);
    assert!(feed.mux.is_subscribed("A"));
    assert!(!feed.mux.is_subscribed("X"));
    assert!(feed.mux.accepts_records());
}

#[test]
fn failed_start_is_rolled_back() {
    let mut feed = Feed::connected();
    assert_eq!(feed.step(batch(&["X", "Y"])), Action::Subscribe(names(&["X", "Y"])));
    assert_eq!(feed.step(Event::SubscribeOk), Action::StartStreaming);
    assert_eq!(feed.step(Event::StartFailed), Action::Wait);
    assert!(!feed.mux.is_subscribed("X"));
    assert!(!feed.mux.is_subscribed("Y"));
    assert_eq!(feed.mux.phase(), Phase::Connecting);
    assert_eq!(feed.step(batch(&["X"])), Action::Subscribe(names(&["X"])));
    assert_eq!(feed.step(Event::SubscribeOk), Action::StartStreaming);
}

#[test]
fn connect_failure_stops() {
    let mut feed = Feed::new();
    assert_eq!(feed.step(Event::Start), Action::Connect);
    assert_eq!(feed.step(Event::ConnectFailed), Action::Stop);
    assert_eq!(feed.mux.phase(), Phase::Disconnected);
}

#[test]
fn closed_control_channel_stops() {
    let mut feed = Feed::streaming(&["A"]);
    assert_eq!(feed.step(Event::ControlClosed), Action::Stop);
    assert_eq!(feed.mux.phase(), Phase::Disconnected);
    assert!(!feed.mux.accepts_records());
}

#[test]
fn end_of_stream_stops() {
    let mut feed = Feed::streaming(&["A"]);
    assert_eq!(feed.step(Event::StreamEnded), Action::Stop);
    assert_eq!(feed.mux.stage(), Stage::Disconnected);
    assert_eq!(feed.mux.phase(), Phase::Disconnected);
}

#[test]
fn fault_waits_five_seconds_and_rebuilds() {
    let mut feed = Feed::streaming(&["A"]);
    assert_eq!(feed.step(Event::StreamFault), Action::Sleep(5));
    assert_eq!(FAULT_DELAY_SECS, 5);
    assert_eq!(feed.mux.stage(), Stage::Backoff);
    assert_eq!(feed.mux.phase(), Phase::Disconnected);
    assert!(!feed.mux.accepts_records());
    assert_eq!(feed.step(Event::DelayElapsed), Action::Connect);
    assert_eq!(feed.mux.phase(), Phase::Connecting);
    assert_eq!(feed.step(Event::Connected), Action::Wait);
}

#[test]
fn rebuilding_empties_the_subscription_set() {
    let mut feed = Feed::streaming(&["A"]);
    assert_eq!(feed.step(Event::StreamFault), Action::Sleep(5));
    assert!(feed.mux.is_subscribed("A"));
    assert_eq!(feed.step(Event::DelayElapsed), Action::Connect);
    assert!(!feed.mux.is_subscribed("A"));
    assert_eq!(feed.step(Event::Connected), Action::Wait);
    assert_eq!(feed.step(batch(&["A"])), Action::Subscribe(names(&["A"])));
    assert_eq!(feed.step(Event::SubscribeOk), Action::StartStreaming);
}

#[test]
fn faults_can_repeat_without_limit() {
    let mut feed = Feed::streaming(&["A"]);
    for _ in 0..20 {
        assert_eq!(feed.step(Event::StreamFault), Action::Sleep(5));
        assert_eq!(feed.step(Event::DelayElapsed), Action::Connect);
        assert_eq!(feed.step(Event::Connected), Action::Wait);
        assert_eq!(feed.step(batch(&["A"])), Action::Subscribe(names(&["A"])));
        assert_eq!(feed.step(Event::SubscribeOk), Action::StartStreaming);
        assert_eq!(feed.step(Event::StartOk), Action::Wait);
    }
}

#[test]
fn unexpected_events_change_nothing() {
    let mut feed = Feed::new();
    for event in [
        Event::Connected,
        Event::ConnectFailed,
        Event::SubscribeOk,
        Event::SubscribeFailed,
        Event::StartOk,
        Event::StartFailed,
        Event::StreamEnded,
        Event::StreamFault,
        Event::DelayElapsed,
        batch(&["A"]),
    ] {
        assert_eq!(feed.step(event), Action::Wait);
        assert_eq!(feed.mux.stage(), Stage::Disconnected);
        assert!(!feed.mux.is_subscribed("A"));
    }
    let mut feed = Feed::streaming(&["A"]);
    for event in [Event::Start, Event::Connected, Event::StartOk, Event::DelayElapsed] {
        assert_eq!(feed.step(event), Action::Wait);
        assert!(feed.mux.accepts_records());
    }
}

#[test]
fn trade_before_its_mapping_goes_under_the_synthetic_key() {
    let mut feed = Feed::streaming(&["AAPL"]);
    let action = feed.step(Event::Record(trade(42, 189_250_000_000, 1_700)));
    assert_eq!(
        action,
        Action::Emit(PriceUpdate {
            symbol: "INST:42".to_string(),
            price: 189_250_000_000,
            timestamp: 1_700
        })
    );
    assert_eq!(
        feed.cache.get("INST:42"),
        Some(PriceRecord { price: 189_250_000_000, ts_event_ns: Some(1_700) })
    );
    assert_eq!(feed.cache.len(), 1);
}

#[test]
fn mapped_trade_goes_under_both_keys() {
    let mut feed = Feed::streaming(&["AAPL"]);
    assert_eq!(feed.step(Event::Record(mapping(42, "AAPL"))), Action::Wait);
    assert_eq!(feed.table.lookup(42), Some("AAPL".to_string()));
    assert!(feed.cache.is_empty());
    let action = feed.step(Event::Record(trade(42, 5, 6)));
    assert_eq!(
        action,
        Action::Emit(PriceUpdate { symbol: "AAPL".to_string(), price: 5, timestamp: 6 })
    );
    let expected = Some(PriceRecord { price: 5, ts_event_ns: Some(6) });
    assert_eq!(feed.cache.get("AAPL"), expected);
    assert_eq!(feed.cache.get("INST:42"), expected);
    assert_eq!(feed.cache.len(), 2);
}

#[test]
fn later_mapping_overwrites_the_earlier() {
    let mut feed = Feed::streaming(&["A"]);
    feed.step(Event::Record(mapping(1, "OLD")));
    feed.step(Event::Record(mapping(2, "TWO")));
    feed.step(Event::Record(mapping(1, "NEW")));
    assert_eq!(feed.table.lookup(1), Some("NEW".to_string()));
    assert_eq!(feed.table.lookup(2), Some("TWO".to_string()));
}

#[test]
fn malformed_mapping_is_skipped() {
    let mut feed = Feed::streaming(&["A"]);
    let bad = Record::Mapping { instrument_id: 9, raw_symbol: vec![0xff, 0xfe, 0] };
    assert_eq!(feed.step(Event::Record(bad)), Action::Wait);
    assert_eq!(feed.table.lookup(9), None);
    assert_eq!(feed.table.len(), 0);
}

#[test]
fn other_records_are_ignored() {
    let mut feed = Feed::streaming(&["A"]);
    assert_eq!(feed.step(Event::Record(Record::Other)), Action::Wait);
    assert!(feed.cache.is_empty());
    assert_eq!(feed.table.len(), 0);
}

#[test]
fn records_are_dropped_while_not_streaming() {
    let mut feed = Feed::connected();
    assert_eq!(feed.step(Event::Record(trade(1, 2, 3))), Action::Wait);
    assert_eq!(feed.step(Event::Record(mapping(1, "A"))), Action::Wait);
    assert!(feed.cache.is_empty());
    assert_eq!(feed.table.len(), 0);
}

#[test]
fn trades_overwrite_in_arrival_order() {
    let mut feed = Feed::streaming(&["A"]);
    feed.step(Event::Record(mapping(1, "A")));
    let mut emitted = Vec::new();
    for (price, at) in [(10, 300), (11, 100), (12, 200)] {
        match feed.step(Event::Record(trade(1, price, at))) {
            Action::Emit(update) => emitted.push((update.price, update.timestamp)),
            other => panic!("unexpected action {:?}", other),
        }
    }
    assert_eq!(emitted, vec![(10, 300), (11, 100), (12, 200)]);
    assert_eq!(feed.cache.get("A"), Some(PriceRecord { price: 12, ts_event_ns: Some(200) }));
}

#[test]
fn route_record_works_on_its_own() {
    let mut table = SymbolTable::new();
    let mut cache = PriceCache::new();
    assert_eq!(route_record(&mapping(3, "ES"), &mut table, &mut cache), None);
    assert_eq!(
        route_record(&trade(3, -5, 8), &mut table, &mut cache),
        Some(PriceUpdate { symbol: "ES".to_string(), price: -5, timestamp: 8 })
    );
    assert_eq!(route_record(&Record::Other, &mut table, &mut cache), None);
    assert_eq!(cache.get("ES"), Some(PriceRecord { price: -5, ts_event_ns: Some(8) }));
    assert_eq!(cache.get("INST:3"), Some(PriceRecord { price: -5, ts_event_ns: Some(8) }));
}
