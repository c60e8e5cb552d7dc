//! The subscription multiplexer: one upstream connection, however many
//! subscription requests arrive.
//!
//! The multiplexer is a state machine. Its caller owns the connection and
//! the channels: it performs the `Action` that a step answers and hands the
//! outcome back as the next `Event`. Records are routed here too, into the
//! symbol table and the price cache.
//!
//! When the connection is rebuilt after a fault, the subscription set is
//! emptied: a new connection carries no subscriptions, so every symbol that
//! is asked for again is subscribed again.

use crate::cache::PriceCache;
use crate::mapping::SymbolTable;
use crate::record::{PriceRecord, PriceUpdate, PriceUpdateView};
use crate::subscription::{fresh, lemma_fresh, SubscriptionSet};
use crate::symbol::{decode_raw_symbol, instrument_key, instrument_key_of, raw_symbol_of};
use crate::text::texts;
use vstd::prelude::*;

verus! {

/// Seconds to wait after a stream fault before the connection is rebuilt.
pub const FAULT_DELAY_SECS: u64 = 5;

/// Where the multiplexer stands in its dealings with the feed.
#[derive(Clone, Copy, Debug, PartialEq, Eq, Structural)]
pub enum Stage {
    /// No connection, and none being made.
    Disconnected,
    /// A connection has been asked for.
    Connecting,
    /// Connected, no call in flight.
    Ready,
    /// A subscribe call is in flight.
    Subscribing,
    /// The call that starts the stream is in flight.
    Starting,
    /// Waiting out the delay after a fault.
    Backoff,
}

/// The state of the connection as the outside sees it.
#[derive(Clone, Copy, Debug, PartialEq, Eq, Structural)]
pub enum Phase {
    Disconnected,
    Connecting,
    Streaming,
}

/// One record read from the feed.
#[derive(Clone, Debug, PartialEq, Eq)]
pub enum Record {
    /// The feed names an instrument. `raw_symbol` is the fixed-width field
    /// as it came, zero-terminated.
    Mapping { instrument_id: u32, raw_symbol: Vec<u8> },
    /// A trade, with its price in units of 1e-9.
    Trade { instrument_id: u32, price: i64, ts_event: u64 },
    /// Any other kind of record.
    Other,
}

/// A `Record` with its symbol field as a sequence of bytes.
pub enum RecordView {
    Mapping { instrument_id: u32, raw_symbol: Seq<u8> },
    Trade { instrument_id: u32, price: i64, ts_event: u64 },
    Other,
}

impl View for Record {
    type V = RecordView;

    open spec fn view(&self) -> RecordView {
        match self {
            Record::Mapping { instrument_id, raw_symbol } => RecordView::Mapping {
                instrument_id: *instrument_id,
                raw_symbol: raw_symbol@,
            },
            Record::Trade { instrument_id, price, ts_event } => RecordView::Trade {
                instrument_id: *instrument_id,
                price: *price,
                ts_event: *ts_event,
            },
            Record::Other => RecordView::Other,
        }
    }
}

/// What happened outside, told to the multiplexer.
#[derive(Clone, Debug, PartialEq, Eq)]
pub enum Event {
    /// The multiplexer is started.
    Start,
    /// The connection stands.
    Connected,
    /// The connection could not be made.
    ConnectFailed,
    /// A batch of symbols arrived on the control channel. The symbols are
    /// expected in canonical form; they are not normalized again.
    Batch(Vec<String>),
    /// The control channel was closed.
    ControlClosed,
    /// The subscribe call succeeded.
    SubscribeOk,
    /// The subscribe call failed.
    SubscribeFailed,
    /// The stream was started.
    StartOk,
    /// The stream could not be started.
    StartFailed,
    /// The feed delivered a record.
    Record(Record),
    /// The feed ended the stream.
    StreamEnded,
    /// Reading from the feed failed.
    StreamFault,
    /// The delay that was asked for is over.
    DelayElapsed,
}

/// An `Event` with its symbols as sequences of characters.
pub enum EventView {
    Start,
    Connected,
    ConnectFailed,
    Batch(Seq<Seq<char>>),
    ControlClosed,
    SubscribeOk,
    SubscribeFailed,
    StartOk,
    StartFailed,
    Record(RecordView),
    StreamEnded,
    StreamFault,
    DelayElapsed,
}

impl View for Event {
    type V = EventView;

    open spec fn view(&self) -> EventView {
        match self {
            Event::Start => EventView::Start,
            Event::Connected => EventView::Connected,
            Event::ConnectFailed => EventView::ConnectFailed,
            Event::Batch(symbols) => EventView::Batch(texts(symbols@)),
            Event::ControlClosed => EventView::ControlClosed,
            Event::SubscribeOk => EventView::SubscribeOk,
            Event::SubscribeFailed => EventView::SubscribeFailed,
            Event::StartOk => EventView::StartOk,
            Event::StartFailed => EventView::StartFailed,
            Event::Record(record) => EventView::Record(record@),
            Event::StreamEnded => EventView::StreamEnded,
            Event::StreamFault => EventView::StreamFault,
            Event::DelayElapsed => EventView::DelayElapsed,
        }
    }
}

/// What the caller is to do next.
#[derive(Clone, Debug, PartialEq, Eq)]
pub enum Action {
    /// Build the upstream connection.
    Connect,
    /// Subscribe to exactly these symbols, in one call.
    Subscribe(Vec<String>),
    /// Start the stream.
    StartStreaming,
    /// Wait for the control channel, and for the feed if the multiplexer
    /// accepts records, whichever is ready first.
    Wait,
    /// Put the update on the outbound queue, then wait as for `Wait`.
    Emit(PriceUpdate),
    /// Wait this many seconds, then report `DelayElapsed`.
    Sleep(u64),
    /// Stop the loop.
    Stop,
}

/// An `Action` with its symbols as sequences of characters.
pub enum ActionView {
    Connect,
    Subscribe(Seq<Seq<char>>),
    StartStreaming,
    Wait,
    Emit(PriceUpdateView),
    Sleep(u64),
    Stop,
}

impl View for Action {
    type V = ActionView;

    open spec fn view(&self) -> ActionView {
        match self {
            Action::Connect => ActionView::Connect,
            Action::Subscribe(symbols) => ActionView::Subscribe(texts(symbols@)),
            Action::StartStreaming => ActionView::StartStreaming,
            Action::Wait => ActionView::Wait,
            Action::Emit(update) => ActionView::Emit(update@),
            Action::Sleep(seconds) => ActionView::Sleep(*seconds),
            Action::Stop => ActionView::Stop,
        }
    }
}

/// The state of a multiplexer.
pub struct MuxModel {
    pub stage: Stage,
    /// Whether the stream has been started on this connection.
    pub streaming: bool,
    /// The symbols requested from the feed in this session.
    pub subscribed: Set<Seq<char>>,
    /// The symbols of the call in flight; they leave `subscribed` again if
    /// it fails.
    pub pending: Seq<Seq<char>>,
}

impl MuxModel {
    /// The state of a multiplexer that has not been started.
    pub open spec fn initial() -> MuxModel {
        MuxModel {
            stage: Stage::Disconnected,
            streaming: false,
            subscribed: Set::empty(),
            pending: Seq::empty(),
        }
    }

    /// The state of the connection as the outside sees it: streaming once
    /// the stream has been started, disconnected while no connection stands
    /// or is being made, and connecting in between.
    pub open spec fn phase(self) -> Phase {
        if self.streaming {
            Phase::Streaming
        } else if self.stage == Stage::Disconnected || self.stage == Stage::Backoff {
            Phase::Disconnected
        } else {
            Phase::Connecting
        }
    }

    /// Whether records from the feed are taken: the stream runs and no call
    /// is in flight.
    pub open spec fn accepts_records(self) -> bool {
        self.streaming && self.stage == Stage::Ready
    }

    /// The state in which a connection is being built: nothing is
    /// subscribed on it yet.
    pub open spec fn rebuilding() -> MuxModel {
        MuxModel {
            stage: Stage::Connecting,
            streaming: false,
            subscribed: Set::empty(),
            pending: Seq::empty(),
        }
    }

    /// The state after the call in flight has failed: its symbols are
    /// taken out of the subscription set again.
    pub open spec fn rolled_back(self) -> MuxModel {
        MuxModel {
            stage: Stage::Ready,
            streaming: self.streaming,
            subscribed: self.subscribed.difference(self.pending.to_set()),
            pending: Seq::empty(),
        }
    }

    /// The state after the call in flight has succeeded.
    pub open spec fn settled(self, streaming: bool) -> MuxModel {
        MuxModel {
            stage: Stage::Ready,
            streaming,
            subscribed: self.subscribed,
            pending: Seq::empty(),
        }
    }
}

/// The step that an event other than a record causes: the next state and
/// the action. An event that the stage does not expect changes nothing and
/// is answered with `Wait`.
pub open spec fn control_step(m: MuxModel, event: EventView) -> (MuxModel, ActionView) {
    match event {
        EventView::Start => if m.stage == Stage::Disconnected {
            (MuxModel::rebuilding(), ActionView::Connect)
        } else {
            (m, ActionView::Wait)
        },
        EventView::DelayElapsed => if m.stage == Stage::Backoff {
            (MuxModel::rebuilding(), ActionView::Connect)
        } else {
            (m, ActionView::Wait)
        },
        EventView::Connected => if m.stage == Stage::Connecting {
            (MuxModel { stage: Stage::Ready, ..m }, ActionView::Wait)
        } else {
            (m, ActionView::Wait)
        },
        EventView::ConnectFailed => if m.stage == Stage::Connecting {
            (MuxModel { stage: Stage::Disconnected, ..m }, ActionView::Stop)
        } else {
            (m, ActionView::Wait)
        },
        EventView::Batch(symbols) => {
            let new = fresh(symbols, m.subscribed);
            if m.stage == Stage::Ready && new.len() > 0 {
                (
                    MuxModel {
                        stage: Stage::Subscribing,
                        streaming: m.streaming,
                        subscribed: m.subscribed.union(new.to_set()),
                        pending: new,
                    },
                    ActionView::Subscribe(new),
                )
            } else {
                (m, ActionView::Wait)
            }
        },
        EventView::SubscribeOk => if m.stage == Stage::Subscribing {
            if m.streaming {
                (m.settled(true), ActionView::Wait)
            } else {
                (MuxModel { stage: Stage::Starting, ..m }, ActionView::StartStreaming)
            }
        } else {
            (m, ActionView::Wait)
        },
        EventView::SubscribeFailed => if m.stage == Stage::Subscribing {
            (m.rolled_back(), ActionView::Wait)
        } else {
            (m, ActionView::Wait)
        },
        EventView::StartOk => if m.stage == Stage::Starting {
            (m.settled(true), ActionView::Wait)
        } else {
            (m, ActionView::Wait)
        },
        EventView::StartFailed => if m.stage == Stage::Starting {
            (m.rolled_back(), ActionView::Wait)
        } else {
            (m, ActionView::Wait)
        },
        EventView::ControlClosed => (
            MuxModel { stage: Stage::Disconnected, streaming: false, ..m },
            ActionView::Stop,
        ),
        EventView::StreamEnded => if m.accepts_records() {
            (MuxModel { stage: Stage::Disconnected, streaming: false, ..m }, ActionView::Stop)
        } else {
            (m, ActionView::Wait)
        },
        EventView::StreamFault => if m.accepts_records() {
            (
                MuxModel { stage: Stage::Backoff, streaming: false, ..m },
                ActionView::Sleep(FAULT_DELAY_SECS),
            )
        } else {
            (m, ActionView::Wait)
        },
        EventView::Record(_) => (m, ActionView::Wait),
    }
}

/// The symbol table, the cache and the update after one record.
pub struct Routed {
    pub table: Map<u32, Seq<char>>,
    pub cache: Map<Seq<char>, PriceRecord>,
    pub update: Option<PriceUpdateView>,
}

/// The name under which a trade of instrument `id` is shown: its symbol,
/// or its synthetic key while the feed has not named it.
pub open spec fn display_symbol(table: Map<u32, Seq<char>>, id: u32) -> Seq<char> {
    if table.contains_key(id) {
        table[id]
    } else {
        instrument_key_of(id)
    }
}

/// Where one record goes.
///
/// A mapping record whose symbol field decodes enters the symbol table; one
/// whose field does not decode is skipped. A trade is filed in the cache
/// under the synthetic key of its instrument and under the name it is shown
/// by, and gives one update. Any other record changes nothing.
pub open spec fn route_model(
    record: RecordView,
    table: Map<u32, Seq<char>>,
    cache: Map<Seq<char>, PriceRecord>,
) -> Routed {
    match record {
        RecordView::Mapping { instrument_id, raw_symbol } => match raw_symbol_of(raw_symbol) {
            Some(symbol) => Routed { table: table.insert(instrument_id, symbol), cache, update: None },
            None => Routed { table, cache, update: None },
        },
        RecordView::Trade { instrument_id, price, ts_event } => {
            let record = PriceRecord { price, ts_event_ns: Some(ts_event) };
            let symbol = display_symbol(table, instrument_id);
            Routed {
                table,
                cache: cache.insert(instrument_key_of(instrument_id), record).insert(symbol, record),
                update: Some(PriceUpdateView { symbol, price, timestamp: ts_event }),
            }
        },
        RecordView::Other => Routed { table, cache, update: None },
    }
}

/// Routing only ever adds: no record takes an instrument out of the symbol
/// table or a key out of the cache, and a mapping for one instrument leaves
/// the symbols of all others as they were.
pub proof fn law_routing_keeps_entries(
    record: RecordView,
    table: Map<u32, Seq<char>>,
    cache: Map<Seq<char>, PriceRecord>,
)
    ensures
        table.dom().subset_of(route_model(record, table, cache).table.dom()),
        cache.dom().subset_of(route_model(record, table, cache).cache.dom()),
        forall|id: u32|
            table.contains_key(id) && !(record matches RecordView::Mapping { instrument_id, .. }
                && instrument_id == id) ==> #[trigger] route_model(record, table, cache).table[id]
                == table[id],
{
}

/// A trade can be found under the synthetic key of its instrument and under
/// the name it is shown by, and the update carries that name.
pub proof fn law_trade_is_found_both_ways(
    instrument_id: u32,
    price: i64,
    ts_event: u64,
    table: Map<u32, Seq<char>>,
    cache: Map<Seq<char>, PriceRecord>,
)
    ensures
        ({
            let routed = route_model(
                RecordView::Trade { instrument_id, price, ts_event },
                table,
                cache,
            );
            let record = PriceRecord { price, ts_event_ns: Some(ts_event) };
            let symbol = display_symbol(table, instrument_id);
            &&& routed.cache.contains_key(instrument_key_of(instrument_id))
            &&& routed.cache[instrument_key_of(instrument_id)] == record
            &&& routed.cache.contains_key(symbol)
            &&& routed.cache[symbol] == record
            &&& routed.update == Some(PriceUpdateView { symbol, price, timestamp: ts_event })
        }),
{
}

/// Everything one step leaves behind.
pub struct Stepped {
    pub mux: MuxModel,
    pub table: Map<u32, Seq<char>>,
    pub cache: Map<Seq<char>, PriceRecord>,
    pub action: ActionView,
}

/// One step of the multiplexer. A record is routed if records are accepted
/// and dropped otherwise; any other event is a control step and leaves the
/// symbol table and the cache alone.
pub open spec fn step_model(
    m: MuxModel,
    event: EventView,
    table: Map<u32, Seq<char>>,
    cache: Map<Seq<char>, PriceRecord>,
) -> Stepped {
    match event {
        EventView::Record(record) => if m.accepts_records() {
            let routed = route_model(record, table, cache);
            Stepped {
                mux: m,
                table: routed.table,
                cache: routed.cache,
                action: match routed.update {
                    Some(update) => ActionView::Emit(update),
                    None => ActionView::Wait,
                },
            }
        } else {
            Stepped { mux: m, table, cache, action: ActionView::Wait }
        },
        _ => Stepped {
            mux: control_step(m, event).0,
            table,
            cache,
            action: control_step(m, event).1,
        },
    }
}

/// Routes one record into the symbol table and the cache. The result is the
/// update to send on, if the record was a trade.
pub fn route_record(record: &Record, table: &mut SymbolTable, cache: &mut PriceCache) -> (update:
    Option<PriceUpdate>)
    ensures
        final(table)@ == route_model(record@, old(table)@, old(cache)@).table,
        final(cache)@ == route_model(record@, old(table)@, old(cache)@).cache,
        update is Some <==> route_model(record@, old(table)@, old(cache)@).update is Some,
        update matches Some(u) ==> route_model(record@, old(table)@, old(cache)@).update == Some(u@),
{
    match record {
        Record::Mapping { instrument_id, raw_symbol } => {
            match decode_raw_symbol(raw_symbol.as_slice()) {
                Some(symbol) => {
                    table.upsert(*instrument_id, symbol);
                },
                None => {},
            }
            None
        },
        Record::Trade { instrument_id, price, ts_event } => {
            let entry = PriceRecord { price: *price, ts_event_ns: Some(*ts_event) };
            let key = instrument_key(*instrument_id);
            let symbol = match table.lookup(*instrument_id) {
                Some(symbol) => symbol,
                None => key.clone(),
            };
            cache.put(key, entry);
            cache.put(symbol.clone(), entry);
            Some(PriceUpdate { symbol, price: *price, timestamp: *ts_event })
        },
        Record::Other => None,
    }
}

/// The state after the call that `m` has in flight has gone through: the
/// subscribe call succeeded and, where the stream was not running yet, so
/// did the call that starts it.
pub open spec fn confirmed(m: MuxModel) -> MuxModel {
    let after = control_step(m, EventView::SubscribeOk).0;
    if after.stage == Stage::Starting {
        control_step(after, EventView::StartOk).0
    } else {
        after
    }
}

/// A batch of which every symbol is subscribed already causes no upstream
/// call and changes nothing.
pub proof fn law_known_batch_is_noop(m: MuxModel, batch: Seq<Seq<char>>)
    requires
        forall|s: Seq<char>| batch.contains(s) ==> m.subscribed.contains(s),
    ensures
        control_step(m, EventView::Batch(batch)) == (m, ActionView::Wait),
{
    lemma_fresh(batch, m.subscribed);
    let new = fresh(batch, m.subscribed);
    if new.len() > 0 {
        assert(new.contains(new[0]));
    }
}

/// Subscribing twice to the same symbols calls upstream at most once: when
/// the first batch has gone through, the same batch again causes no call
/// and changes nothing.
pub proof fn law_repeated_batch_is_noop(m: MuxModel, batch: Seq<Seq<char>>)
    requires
        m.stage == Stage::Ready,
    ensures
        ({
            let first = control_step(m, EventView::Batch(batch));
            let settled = if first.1 is Subscribe {
                confirmed(first.0)
            } else {
                first.0
            };
            control_step(settled, EventView::Batch(batch)) == (settled, ActionView::Wait)
        }),
{
    lemma_fresh(batch, m.subscribed);
    let new = fresh(batch, m.subscribed);
    let first = control_step(m, EventView::Batch(batch));
    let settled = if first.1 is Subscribe {
        confirmed(first.0)
    } else {
        first.0
    };
    assert forall|s: Seq<char>| batch.contains(s) implies settled.subscribed.contains(s) by {
        if !m.subscribed.contains(s) {
            assert(fresh(batch, m.subscribed).contains(s));
            assert(new.to_set().contains(s));
        }
    }
    law_known_batch_is_noop(settled, batch);
}

/// When the subscribe call for a batch fails, none of its symbols stays in
/// the subscription set: the set is what it was before the batch, and a
/// later batch is answered as if the failed one had never come.
pub proof fn law_failed_subscribe_rolls_back(
    m: MuxModel,
    batch: Seq<Seq<char>>,
    later: Seq<Seq<char>>,
)
    requires
        m.stage == Stage::Ready,
        control_step(m, EventView::Batch(batch)).1 is Subscribe,
    ensures
        ({
            let asked = control_step(m, EventView::Batch(batch));
            let failed = control_step(asked.0, EventView::SubscribeFailed).0;
            &&& asked.1 == ActionView::Subscribe(fresh(batch, m.subscribed))
            &&& failed.stage == Stage::Ready
            &&& failed.streaming == m.streaming
            &&& failed.subscribed == m.subscribed
            &&& forall|s: Seq<char>| #[trigger]
                fresh(batch, m.subscribed).contains(s) ==> !failed.subscribed.contains(s)
            &&& control_step(failed, EventView::Batch(later)).1 == control_step(
                m,
                EventView::Batch(later),
            ).1
        }),
{
    lemma_fresh(batch, m.subscribed);
    let new = fresh(batch, m.subscribed);
    let asked = control_step(m, EventView::Batch(batch));
    let failed = control_step(asked.0, EventView::SubscribeFailed).0;
    assert forall|s: Seq<char>| new.to_set().contains(s) implies !m.subscribed.contains(s) by {
        assert(fresh(batch, m.subscribed).contains(s));
    }
    assert(failed.subscribed =~= m.subscribed);
}

/// When the call that starts the stream fails, the symbols of the batch
/// that was subscribed just before leave the subscription set again.
pub proof fn law_failed_start_rolls_back(m: MuxModel, batch: Seq<Seq<char>>)
    requires
        m.stage == Stage::Ready,
        !m.streaming,
        control_step(m, EventView::Batch(batch)).1 is Subscribe,
    ensures
        ({
            let asked = control_step(m, EventView::Batch(batch)).0;
            let starting = control_step(asked, EventView::SubscribeOk);
            let failed = control_step(starting.0, EventView::StartFailed).0;
            &&& starting.1 == ActionView::StartStreaming
            &&& failed.stage == Stage::Ready
            &&& !failed.streaming
            &&& failed.subscribed == m.subscribed
        }),
{
    lemma_fresh(batch, m.subscribed);
    let new = fresh(batch, m.subscribed);
    let asked = control_step(m, EventView::Batch(batch)).0;
    let starting = control_step(asked, EventView::SubscribeOk);
    let failed = control_step(starting.0, EventView::StartFailed).0;
    assert forall|s: Seq<char>| new.to_set().contains(s) implies !m.subscribed.contains(s) by {
        assert(fresh(batch, m.subscribed).contains(s));
    }
    assert(failed.subscribed =~= m.subscribed);
}

/// The subscription set only grows while the connection stands: a step
/// takes symbols out of it only to roll a failed call back or to rebuild
/// the connection.
pub proof fn law_subscriptions_grow(m: MuxModel, event: EventView)
    requires
        !(event is SubscribeFailed),
        !(event is StartFailed),
        !(event is Start),
        !(event is DelayElapsed),
    ensures
        m.subscribed.subset_of(control_step(m, event).0.subscribed),
{
}

/// There is one upstream connection, however many batches arrive: a
/// connection is asked for only when the multiplexer is started or the
/// delay after a fault is over, and then none stands; a batch never causes
/// one.
pub proof fn law_one_connection(m: MuxModel, event: EventView)
    requires
        control_step(m, event).1 is Connect,
    ensures
        event is Start || event is DelayElapsed,
        m.stage == Stage::Disconnected || m.stage == Stage::Backoff,
        control_step(m, event).0 == MuxModel::rebuilding(),
{
}

/// A batch is answered with at most one subscribe call, for exactly the
/// symbols of the batch that were not subscribed before.
pub proof fn law_one_call_per_batch(m: MuxModel, batch: Seq<Seq<char>>)
    ensures
        control_step(m, EventView::Batch(batch)).1 is Wait || control_step(
            m,
            EventView::Batch(batch),
        ).1 == ActionView::Subscribe(fresh(batch, m.subscribed)),
        forall|s: Seq<char>| #[trigger]
            fresh(batch, m.subscribed).contains(s) <==> batch.contains(s)
                && !m.subscribed.contains(s),
{
    lemma_fresh(batch, m.subscribed);
}

/// Records are accepted only while the phase is `Streaming`.
pub proof fn law_records_only_while_streaming(m: MuxModel)
    ensures
        m.accepts_records() ==> m.phase() == Phase::Streaming,
{
}

/// The state machine that owns the subscription set.
pub struct Multiplexer {
    stage: Stage,
    streaming: bool,
    subscribed: SubscriptionSet,
    pending: Vec<String>,
}

impl View for Multiplexer {
    type V = MuxModel;

    closed spec fn view(&self) -> MuxModel {
        MuxModel {
            stage: self.stage,
            streaming: self.streaming,
            subscribed: self.subscribed@,
            pending: texts(self.pending@),
        }
    }
}

impl Multiplexer {
    /// A multiplexer that has not been started.
    pub fn new() -> (r: Multiplexer)
        ensures
            r@ == MuxModel::initial(),
    {
        let r = Multiplexer {
            stage: Stage::Disconnected,
            streaming: false,
            subscribed: SubscriptionSet::new(),
            pending: Vec::new(),
        };
        assert(texts(r.pending@) =~= Seq::<Seq<char>>::empty());
        r
    }

    /// Where the multiplexer stands.
    pub fn stage(&self) -> (r: Stage)
        ensures
            r == self@.stage,
    {
        self.stage
    }

    /// The state of the connection as the outside sees it.
    pub fn phase(&self) -> (r: Phase)
        ensures
            r == self@.phase(),
    {
        if self.streaming {
            Phase::Streaming
        } else {
            match self.stage {
                Stage::Disconnected => Phase::Disconnected,
                Stage::Backoff => Phase::Disconnected,
                _ => Phase::Connecting,
            }
        }
    }

    /// Whether the caller should read records from the feed while it waits.
    pub fn accepts_records(&self) -> (r: bool)
        ensures
            r == self@.accepts_records(),
    {
        self.streaming && match self.stage {
            Stage::Ready => true,
            _ => false,
        }
    }

    /// Whether `symbol` is in the subscription set.
    pub fn is_subscribed(&self, symbol: &str) -> (r: bool)
        ensures
            r == self@.subscribed.contains(symbol@),
    {
        self.subscribed.contains(symbol)
    }

    /// The symbols of the call in flight.
    pub fn pending(&self) -> (r: Vec<String>)
        ensures
            texts(r@) == self@.pending,
    {
        let r = self.pending.clone();
        assert(texts(r@) =~= texts(self.pending@));
        r
    }

    fn rebuild(&mut self)
        ensures
            final(self)@ == MuxModel::rebuilding(),
    {
        self.stage = Stage::Connecting;
        self.streaming = false;
        self.subscribed.clear();
        self.pending = Vec::new();
        assert(texts(self.pending@) =~= Seq::<Seq<char>>::empty());
    }

    fn roll_back(&mut self)
        ensures
            final(self)@ == old(self)@.rolled_back(),
    {
        let ghost before = self.subscribed@;
        let ghost gone = texts(self.pending@);
        let mut i: usize = 0;
        while i < self.pending.len()
            invariant
                i <= self.pending@.len(),
                self.pending == old(self).pending,
                self.streaming == old(self).streaming,
                gone == texts(self.pending@),
                self.subscribed@ == before.difference(gone.take(i as int).to_set()),
            decreases self.pending@.len() - i,
        {
            self.subscribed.remove(self.pending[i].as_str());
            proof {
                let seen = gone.take(i as int);
                let next = gone.take(i + 1);
                assert(next =~= seen.push(gone[i as int]));
                assert forall|s: Seq<char>| next.to_set().contains(s) <==> (seen.to_set().contains(s)
                    || s == gone[i as int]) by {
                    if seen.contains(s) {
                        let j = choose|j: int| 0 <= j < seen.len() && seen[j] == s;
                        assert(next[j] == s);
                    }
                    if s == gone[i as int] {
                        assert(next[i as int] == s);
                    }
                }
                assert(self.subscribed@ =~= before.difference(next.to_set()));
            }
            i = i + 1;
        }
        assert(gone.take(gone.len() as int) =~= gone);
        self.stage = Stage::Ready;
        self.pending = Vec::new();
        assert(texts(self.pending@) =~= Seq::<Seq<char>>::empty());
    }

    fn settle(&mut self, streaming: bool)
        ensures
            final(self)@ == old(self)@.settled(streaming),
    {
        self.stage = Stage::Ready;
        self.streaming = streaming;
        self.pending = Vec::new();
        assert(texts(self.pending@) =~= Seq::<Seq<char>>::empty());
    }

    /// Takes a batch from the control channel: the symbols that are not yet
    /// subscribed enter the subscription set and are to be subscribed in
    /// one call. A batch that holds no such symbol changes nothing.
    fn take_batch(&mut self, symbols: &Vec<String>) -> (action: Action)
        requires
            old(self)@.stage == Stage::Ready,
        ensures
            (final(self)@, action@) == control_step(old(self)@, EventView::Batch(texts(symbols@))),
    {
        let ghost batch = texts(symbols@);
        let ghost known = self.subscribed@;
        let mut new: Vec<String> = Vec::new();
        let mut i: usize = 0;
        assert(texts(new@) =~= fresh(batch.take(0), known));
        assert(self.subscribed@ =~= known.union(texts(new@).to_set()));
        while i < symbols.len()
            invariant
                i <= symbols@.len(),
                batch == texts(symbols@),
                self.stage == old(self).stage,
                self.streaming == old(self).streaming,
                self.pending == old(self).pending,
                texts(new@) == fresh(batch.take(i as int), known),
                self.subscribed@ == known.union(texts(new@).to_set()),
            decreases symbols@.len() - i,
        {
            let ghost earlier = texts(new@);
            proof {
                assert(batch.take(i + 1).drop_last() =~= batch.take(i as int));
                assert(batch.take(i + 1).last() == batch[i as int]);
                assert(symbols@[i as int]@ == batch[i as int]);
            }
            if !self.subscribed.contains(symbols[i].as_str()) {
                new.push(symbols[i].clone());
                self.subscribed.insert(symbols[i].clone());
                proof {
                    let now = texts(new@);
                    assert(now =~= earlier.push(batch[i as int]));
                    assert forall|s: Seq<char>| now.to_set().contains(s) <==> (earlier.to_set().contains(
                        s,
                    ) || s == batch[i as int]) by {
                        if earlier.contains(s) {
                            let j = choose|j: int| 0 <= j < earlier.len() && earlier[j] == s;
                            assert(now[j] == s);
                        }
                        if s == batch[i as int] {
                            assert(now[earlier.len() as int] == s);
                        }
                    }
                    assert(self.subscribed@ =~= known.union(now.to_set()));
                }
            }
            i = i + 1;
        }
        assert(batch.take(batch.len() as int) =~= batch);
        if new.len() == 0 {
            assert(self.subscribed@ =~= known);
            Action::Wait
        } else {
            self.stage = Stage::Subscribing;
            self.pending = new.clone();
            assert(texts(self.pending@) =~= texts(new@));
            Action::Subscribe(new)
        }
    }

    /// Takes one event and answers what to do next. `table` and `cache` are
    /// written only when the event is a record and records are accepted.
    pub fn step(&mut self, event: Event, table: &mut SymbolTable, cache: &mut PriceCache) -> (action:
        Action)
        ensures
            final(self)@ == step_model(old(self)@, event@, old(table)@, old(cache)@).mux,
            final(table)@ == step_model(old(self)@, event@, old(table)@, old(cache)@).table,
            final(cache)@ == step_model(old(self)@, event@, old(table)@, old(cache)@).cache,
            action@ == step_model(old(self)@, event@, old(table)@, old(cache)@).action,
    {
        match event {
            Event::Record(record) => {
                if self.accepts_records() {
                    match route_record(&record, table, cache) {
                        Some(update) => Action::Emit(update),
                        None => Action::Wait,
                    }
                } else {
                    Action::Wait
                }
            },
            Event::Start => match self.stage {
                Stage::Disconnected => {
                    self.rebuild();
                    Action::Connect
                },
                _ => Action::Wait,
            },
            Event::DelayElapsed => match self.stage {
                Stage::Backoff => {
                    self.rebuild();
                    Action::Connect
                },
                _ => Action::Wait,
            },
            Event::Connected => match self.stage {
                Stage::Connecting => {
                    self.stage = Stage::Ready;
                    Action::Wait
                },
                _ => Action::Wait,
            },
            Event::ConnectFailed => match self.stage {
                Stage::Connecting => {
                    self.stage = Stage::Disconnected;
                    Action::Stop
                },
                _ => Action::Wait,
            },
            Event::Batch(symbols) => match self.stage {
                Stage::Ready => self.take_batch(&symbols),
                _ => Action::Wait,
            },
            Event::SubscribeOk => match self.stage {
                Stage::Subscribing => {
                    if self.streaming {
                        self.settle(true);
                        Action::Wait
                    } else {
                        self.stage = Stage::Starting;
                        Action::StartStreaming
                    }
                },
                _ => Action::Wait,
            },
            Event::SubscribeFailed => match self.stage {
                Stage::Subscribing => {
                    self.roll_back();
                    Action::Wait
                },
                _ => Action::Wait,
            },
            Event::StartOk => match self.stage {
                Stage::Starting => {
                    self.settle(true);
                    Action::Wait
                },
                _ => Action::Wait,
            },
            Event::StartFailed => match self.stage {
                Stage::Starting => {
                    self.roll_back();
                    Action::Wait
                },
                _ => Action::Wait,
            },
            Event::ControlClosed => {
                self.stage = Stage::Disconnected;
                self.streaming = false;
                Action::Stop
            },
            Event::StreamEnded => {
                if self.accepts_records() {
                    self.stage = Stage::Disconnected;
                    self.streaming = false;
                    Action::Stop
                } else {
                    Action::Wait
                }
            },
            Event::StreamFault => {
                if self.accepts_records() {
                    self.stage = Stage::Backoff;
                    self.streaming = false;
                    Action::Sleep(FAULT_DELAY_SECS)
                } else {
                    Action::Wait
                }
            },
        }
    }
}

} // verus!
