//! Historical backfill: the price of a symbol at a past moment, from the
//! trades of a two-second window around it.
//!
//! The request is built here and the answer is judged here. Sending the
//! request is the caller's part.

use crate::cache::PriceCache;
use crate::record::PriceRecord;
use crate::symbol::{canonical, norm_symbol};
use crate::text::{split, split_on, texts};
use crate::vwap::{vwap, vwap_of, Trade, WindowError};
use base64::Engine;
use vstd::prelude::*;
use vstd::string::StringSliceAdditionalSpecFns;

verus! {

/// Why a backfill gave no price.
#[derive(Clone, Copy, Debug, PartialEq, Eq, Structural)]
pub enum BackfillError {
    /// No credential is configured, or an empty one.
    MissingCredential,
    /// The credential is too long to be encoded.
    CredentialTooLong,
    /// The timestamp is not an RFC 3339 date and time, or the window around
    /// it cannot be written as one.
    InvalidTimestamp,
    /// The request failed, or the body of the answer could not be read.
    UpstreamFailed,
    /// The source answered with this status, which is not a success.
    UpstreamStatus(u16),
    /// The window holds no trade.
    NoTrades,
    /// The window holds more trades than a window may.
    OversizedWindow,
}

impl BackfillError {
    /// The HTTP status that reports this error: 400 for what the caller
    /// got wrong, 502 for what the source got wrong, 404 for an empty window.
    pub open spec fn status_of(self) -> u16 {
        match self {
            BackfillError::MissingCredential => 400,
            BackfillError::CredentialTooLong => 400,
            BackfillError::InvalidTimestamp => 400,
            BackfillError::UpstreamFailed => 502,
            BackfillError::UpstreamStatus(_) => 502,
            BackfillError::NoTrades => 404,
            BackfillError::OversizedWindow => 502,
        }
    }

    /// The HTTP status that reports this error.
    pub fn status(&self) -> (code: u16)
        ensures
            code == self.status_of(),
    {
        match self {
            BackfillError::MissingCredential => 400,
            BackfillError::CredentialTooLong => 400,
            BackfillError::InvalidTimestamp => 400,
            BackfillError::UpstreamFailed => 502,
            BackfillError::UpstreamStatus(_) => 502,
            BackfillError::NoTrades => 404,
            BackfillError::OversizedWindow => 502,
        }
    }
}

/// The moment that `chrono` reads from `text` as an RFC 3339 date and time,
/// in whole seconds since the Unix epoch; `None` where it rejects the text.
pub uninterp spec fn rfc3339_seconds(text: Seq<char>) -> Option<i64>;

/// The RFC 3339 text, in UTC with whole seconds and `Z`, that `chrono`
/// writes for the moment `seconds` after the Unix epoch; `None` where the
/// moment is outside the range of its dates.
pub uninterp spec fn utc_text(seconds: i64) -> Option<Seq<char>>;

/// The text that the standard base64 alphabet, with padding, gives for the
/// UTF-8 bytes of `text`.
pub uninterp spec fn base64_text(text: Seq<char>) -> Seq<char>;

/// The integer that `serde_json` finds under `name` in the JSON object
/// `line`, if `line` is JSON, has such a member, and the member is an
/// integer that fits `i64`.
pub uninterp spec fn json_integer_field(line: Seq<char>, name: Seq<char>) -> Option<i64>;

/// As `json_integer_field`, for an integer that fits `u64`.
pub uninterp spec fn json_unsigned_field(line: Seq<char>, name: Seq<char>) -> Option<u64>;

/// Calls `chrono::DateTime::parse_from_rfc3339` and, on what it accepts,
/// `DateTime::timestamp`. The result is only named.
#[verifier::external_body]
fn parse_rfc3339(text: &str) -> (r: Option<i64>)
    ensures
        r == rfc3339_seconds(text@),
{
    match chrono::DateTime::parse_from_rfc3339(text) {
        Ok(moment) => Some(moment.timestamp()),
        Err(_) => None,
    }
}

/// Calls `chrono::DateTime::from_timestamp` and, on what it accepts,
/// `DateTime::to_rfc3339_opts` with whole seconds and `Z`. The result is
/// only named.
#[verifier::external_body]
fn format_utc(seconds: i64) -> (r: Option<String>)
    ensures
        r is Some <==> utc_text(seconds) is Some,
        r matches Some(text) ==> utc_text(seconds) == Some(text@),
{
    match chrono::DateTime::from_timestamp(seconds, 0) {
        Some(moment) => Some(moment.to_rfc3339_opts(chrono::SecondsFormat::Secs, true)),
        None => None,
    }
}

/// Calls `Engine::encode` of `base64::engine::general_purpose::STANDARD` on
/// the bytes of `text`. It panics where the length of the result does not
/// fit `usize` or is more than a vector may hold, which the bound on the
/// input rules out. The result is only named.
#[verifier::external_body]
fn base64_standard(text: &str) -> (r: String)
    requires
        text.spec_bytes().len() <= usize::MAX / 4,
    ensures
        r@ == base64_text(text@),
{
    base64::engine::general_purpose::STANDARD.encode(text)
}

/// Parses `line` with `serde_json::from_str`, reads the member `name` by
/// indexing the value, which gives null where there is none, and asks
/// `Value::as_i64` for the integer. The result is only named.
#[verifier::external_body]
fn integer_field(line: &str, name: &str) -> (r: Option<i64>)
    ensures
        r == json_integer_field(line@, name@),
{
    match serde_json::from_str::<serde_json::Value>(line) {
        Ok(value) => value[name].as_i64(),
        Err(_) => None,
    }
}

/// Parses `line` with `serde_json::from_str`, reads the member `name` by
/// indexing the value, which gives null where there is none, and asks
/// `Value::as_u64` for the integer. The result is only named.
#[verifier::external_body]
fn unsigned_field(line: &str, name: &str) -> (r: Option<u64>)
    ensures
        r == json_unsigned_field(line@, name@),
{
    match serde_json::from_str::<serde_json::Value>(line) {
        Ok(value) => value[name].as_u64(),
        Err(_) => None,
    }
}

/// The size that a line states: its member `size` where that is an unsigned
/// integer of at most 32 bits, and zero otherwise.
pub open spec fn size_of_line(line: Seq<char>) -> u32 {
    match json_unsigned_field(line, "size"@) {
        Some(size) => if size <= u32::MAX {
            size as u32
        } else {
            0
        },
        None => 0,
    }
}

/// The trade that a line of the answer states: a line counts as a trade
/// when it is a JSON object with an integer `price`.
pub open spec fn trade_of_line(line: Seq<char>) -> Option<Trade> {
    match json_integer_field(line, "price"@) {
        Some(price) => Some(Trade { price, size: size_of_line(line) }),
        None => None,
    }
}

/// The trades that `lines` state, in order. Lines that state none are
/// passed over.
pub open spec fn trades_in(lines: Seq<Seq<char>>) -> Seq<Trade>
    decreases lines.len(),
{
    if lines.len() == 0 {
        Seq::empty()
    } else {
        match trade_of_line(lines.last()) {
            Some(trade) => trades_in(lines.drop_last()).push(trade),
            None => trades_in(lines.drop_last()),
        }
    }
}

/// The trades that a body states, one per line.
pub open spec fn trades_of(body: Seq<char>) -> Seq<Trade> {
    trades_in(split(body, '\n'))
}

/// Reads one line of the answer.
pub fn parse_trade_line(line: &str) -> (r: Option<Trade>)
    ensures
        r == trade_of_line(line@),
{
    match integer_field(line, "price") {
        Some(price) => {
            let size: u32 = match unsigned_field(line, "size") {
                Some(size) => if size <= 0xFFFF_FFFF {
                    size as u32
                } else {
                    0
                },
                None => 0,
            };
            Some(Trade { price, size })
        },
        None => None,
    }
}

/// Reads the trades of a body, one JSON object per line.
pub fn parse_trades(body: &str) -> (trades: Vec<Trade>)
    ensures
        trades@ == trades_of(body@),
{
    let lines = split_on(body, '\n');
    let mut trades: Vec<Trade> = Vec::new();
    let mut i: usize = 0;
    while i < lines.len()
        invariant
            i <= lines@.len(),
            texts(lines@) == split(body@, '\n'),
            trades@ == trades_in(texts(lines@).take(i as int)),
        decreases lines@.len() - i,
    {
        proof {
            let all = texts(lines@);
            assert(all.take(i + 1).drop_last() =~= all.take(i as int));
            assert(all.take(i + 1).last() == lines@[i as int]@);
        }
        match parse_trade_line(lines[i].as_str()) {
            Some(trade) => {
                trades.push(trade);
            },
            None => {},
        }
        i = i + 1;
    }
    assert(texts(lines@).take(lines@.len() as int) =~= texts(lines@));
    trades
}

/// The start and the end of the window around a timestamp: one second
/// before the second it falls in, and one second after, each as UTC text.
/// `None` where the timestamp is not RFC 3339 or a bound cannot be written.
pub open spec fn window_of(timestamp: Seq<char>) -> Option<(Seq<char>, Seq<char>)> {
    match rfc3339_seconds(timestamp) {
        Some(at) => if i64::MIN < at < i64::MAX {
            match (utc_text((at - 1) as i64), utc_text((at + 1) as i64)) {
                (Some(start), Some(end)) => Some((start, end)),
                _ => None,
            }
        } else {
            None
        },
        None => None,
    }
}

/// The start of the window around `timestamp`, where it has one.
pub open spec fn window_start(timestamp: Seq<char>) -> Seq<char> {
    match window_of(timestamp) {
        Some((start, _)) => start,
        None => Seq::empty(),
    }
}

/// The end of the window around `timestamp`, where it has one.
pub open spec fn window_end(timestamp: Seq<char>) -> Seq<char> {
    match window_of(timestamp) {
        Some((_, end)) => end,
        None => Seq::empty(),
    }
}

/// The window around `timestamp`.
pub fn query_window(timestamp: &str) -> (r: Option<(String, String)>)
    ensures
        r is Some <==> window_of(timestamp@) is Some,
        r matches Some(w) ==> window_of(timestamp@) == Some((w.0@, w.1@)),
{
    match parse_rfc3339(timestamp) {
        Some(at) => {
            if at == i64::MIN || at == i64::MAX {
                return None;
            }
            match format_utc(at - 1) {
                Some(start) => match format_utc(at + 1) {
                    Some(end) => Some((start, end)),
                    None => None,
                },
                None => None,
            }
        },
        None => None,
    }
}

/// The address of the query for the trades of `symbol` in `dataset`
/// between `start` and `end`.
pub open spec fn query_url(
    dataset: Seq<char>,
    symbol: Seq<char>,
    start: Seq<char>,
    end: Seq<char>,
) -> Seq<char> {
    "https://hist.databento.com/v0/timeseries.get_range?dataset="@ + dataset + "&symbols="@
        + symbol + "&stype_in=raw_symbol&start="@ + start + "&end="@ + end
        + "&schema=trades&encoding=json&limit=100"@
}

/// The `Authorization` header of the query: HTTP Basic, with the credential
/// as the user name and an empty password.
pub open spec fn authorization_of(credential: Seq<char>) -> Seq<char> {
    "Basic "@ + base64_text(credential + ":"@)
}

/// One query to the historical source.
#[derive(Clone, Debug, PartialEq, Eq)]
pub struct BackfillRequest {
    /// The symbol in canonical form, under which the price will be filed.
    pub symbol: String,
    pub url: String,
    pub authorization: String,
}

/// A `BackfillRequest` with its texts as sequences of characters.
pub struct BackfillRequestView {
    pub symbol: Seq<char>,
    pub url: Seq<char>,
    pub authorization: Seq<char>,
}

impl View for BackfillRequest {
    type V = BackfillRequestView;

    open spec fn view(&self) -> BackfillRequestView {
        BackfillRequestView {
            symbol: self.symbol@,
            url: self.url@,
            authorization: self.authorization@,
        }
    }
}

/// Whether `credential` with a colon behind it is short enough to be
/// encoded.
pub open spec fn encodable(credential: Seq<char>) -> bool {
    vstd::utf8::encode_utf8(credential + ":"@).len() <= usize::MAX / 4
}

/// The text of a credential, where there is one.
pub open spec fn text_of(credential: Option<&str>) -> Option<Seq<char>> {
    match credential {
        Some(text) => Some(text@),
        None => None,
    }
}

/// What `backfill_request` answers.
pub open spec fn request_of(
    credential: Option<Seq<char>>,
    dataset: Seq<char>,
    symbol: Seq<char>,
    timestamp: Seq<char>,
) -> Result<BackfillRequestView, BackfillError> {
    if credential is None || credential->0.len() == 0 {
        Err(BackfillError::MissingCredential)
    } else if window_of(timestamp) is None {
        Err(BackfillError::InvalidTimestamp)
    } else if !encodable(credential->0) {
        Err(BackfillError::CredentialTooLong)
    } else {
        Ok(
            BackfillRequestView {
                symbol: canonical(symbol),
                url: query_url(
                    dataset,
                    canonical(symbol),
                    window_start(timestamp),
                    window_end(timestamp),
                ),
                authorization: authorization_of(credential->0),
            },
        )
    }
}

/// Builds the query for the trades of `symbol` around `timestamp`.
///
/// The credential is checked first, then the timestamp. The symbol is
/// brought into canonical form.
pub fn backfill_request(
    credential: Option<&str>,
    dataset: &str,
    symbol: &str,
    timestamp: &str,
) -> (r: Result<BackfillRequest, BackfillError>)
    ensures
        match request_of(text_of(credential), dataset@, symbol@, timestamp@) {
            Ok(request) => r matches Ok(built) && built@ == request,
            Err(e) => r == Err::<BackfillRequest, BackfillError>(e),
        },
{
    let key = match credential {
        Some(key) => key,
        None => {
            return Err(BackfillError::MissingCredential);
        },
    };
    if key.is_empty() {
        return Err(BackfillError::MissingCredential);
    }
    let symbol = norm_symbol(symbol);
    let (start, end) = match query_window(timestamp) {
        Some(window) => window,
        None => {
            return Err(BackfillError::InvalidTimestamp);
        },
    };
    let mut url = "https://hist.databento.com/v0/timeseries.get_range?dataset=".to_string();
    url.append(dataset);
    url.append("&symbols=");
    url.append(symbol.as_str());
    url.append("&stype_in=raw_symbol&start=");
    url.append(start.as_str());
    url.append("&end=");
    url.append(end.as_str());
    url.append("&schema=trades&encoding=json&limit=100");
    let mut userpass = key.to_string();
    userpass.append(":");
    if userpass.as_str().as_bytes().len() > usize::MAX / 4 {
        return Err(BackfillError::CredentialTooLong);
    }
    let mut authorization = "Basic ".to_string();
    authorization.append(base64_standard(userpass.as_str()).as_str());
    Ok(BackfillRequest { symbol, url, authorization })
}

/// What came back from the historical source.
#[derive(Clone, Debug, PartialEq, Eq)]
pub enum Fetched {
    /// The request could not be carried out.
    Failed,
    /// The source answered with `status`. `body` is the text of the answer,
    /// or `None` where it could not be read.
    Response { status: u16, body: Option<String> },
}

/// A `Fetched` with its body as a sequence of characters.
pub enum FetchedView {
    Failed,
    Response { status: u16, body: Option<Seq<char>> },
}

impl View for Fetched {
    type V = FetchedView;

    open spec fn view(&self) -> FetchedView {
        match self {
            Fetched::Failed => FetchedView::Failed,
            Fetched::Response { status, body } => FetchedView::Response {
                status: *status,
                body: match body {
                    Some(text) => Some(text@),
                    None => None,
                },
            },
        }
    }
}

/// What a backfill found.
#[derive(Clone, Debug, PartialEq, Eq)]
pub struct BackfillReport {
    pub symbol: String,
    /// The price filed in the cache, in units of 1e-9.
    pub price: i64,
    /// How many trades the window held.
    pub trades: u64,
}

/// The price and the number of trades that an answer yields, or the error
/// it amounts to: a failed request, a status outside 200 to 299 and an
/// unreadable body are faults of the source; a window without trades is
/// not found.
pub open spec fn outcome_of(fetched: FetchedView) -> Result<(i64, nat), BackfillError> {
    match fetched {
        FetchedView::Failed => Err(BackfillError::UpstreamFailed),
        FetchedView::Response { status, body } => if !(200 <= status <= 299) {
            Err(BackfillError::UpstreamStatus(status))
        } else {
            match body {
                None => Err(BackfillError::UpstreamFailed),
                Some(text) => match vwap_of(trades_of(text)) {
                    Ok(price) => Ok((price, trades_of(text).len())),
                    Err(WindowError::Empty) => Err(BackfillError::NoTrades),
                    Err(WindowError::TooLarge) => Err(BackfillError::OversizedWindow),
                },
            }
        },
    }
}

/// Judges the answer of the historical source and, if it yields a price,
/// files that price in the cache under `symbol` with the time `now`.
/// Whenever the answer yields none, the cache is left as it was.
pub fn conclude_backfill(cache: &mut PriceCache, symbol: String, fetched: &Fetched, now: u64) -> (r:
    Result<BackfillReport, BackfillError>)
    ensures
        match outcome_of(fetched@) {
            Ok((price, count)) => {
                &&& r matches Ok(report)
                &&& report.symbol@ == symbol@
                &&& report.price == price
                &&& report.trades == count
                &&& final(cache)@ == old(cache)@.insert(
                    symbol@,
                    PriceRecord { price, ts_event_ns: Some(now) },
                )
            },
            Err(e) => r == Err::<BackfillReport, BackfillError>(e) && final(cache)@ == old(cache)@,
        },
{
    match fetched {
        Fetched::Failed => Err(BackfillError::UpstreamFailed),
        Fetched::Response { status, body } => {
            if *status < 200 || *status > 299 {
                return Err(BackfillError::UpstreamStatus(*status));
            }
            match body {
                None => Err(BackfillError::UpstreamFailed),
                Some(text) => {
                    let trades = parse_trades(text.as_str());
                    match vwap(&trades) {
                        Ok(price) => {
                            cache.put(symbol.clone(), PriceRecord { price, ts_event_ns: Some(now) });
                            Ok(BackfillReport { symbol, price, trades: trades.len() as u64 })
                        },
                        Err(WindowError::Empty) => Err(BackfillError::NoTrades),
                        Err(WindowError::TooLarge) => Err(BackfillError::OversizedWindow),
                    }
                },
            }
        },
    }
}

/// A window without trades is reported as not found and writes nothing.
pub proof fn law_empty_window_is_not_found(status: u16, body: Seq<char>)
    requires
        200 <= status <= 299,
        trades_of(body).len() == 0,
    ensures
        outcome_of(FetchedView::Response { status, body: Some(body) }) == Err::<
            (i64, nat),
            BackfillError,
        >(BackfillError::NoTrades),
        BackfillError::NoTrades.status_of() == 404,
{
}

} // verus!
