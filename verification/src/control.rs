//! The decisions of the control surface: which prices a query yields, what
//! a subscription request sends to the multiplexer and how it is answered,
//! and what a manual ingest writes.
//!
//! Symbols are brought into canonical form wherever they come in from a
//! client, so that a symbol is found under the same key whichever way it
//! was spelled.

use crate::cache::PriceCache;
use crate::record::PriceRecord;
use crate::subscription::{fresh, SubscriptionSet};
use crate::symbol::{canonical, has_instrument_prefix, norm_symbol};
use crate::text::{lemma_split_without_separator, split, split_on, texts};
use vstd::prelude::*;

verus! {

/// Milliseconds that a subscription request waits before it looks into the
/// cache for first data. Finding none after the wait does not show that the
/// subscription failed.
pub const SETTLE_DELAY_MILLIS: u64 = 500;

/// The canonical forms of `symbols`, in order.
pub open spec fn canonical_all(symbols: Seq<Seq<char>>) -> Seq<Seq<char>> {
    symbols.map_values(|symbol: Seq<char>| canonical(symbol))
}

/// The keys that a query for prices asks for: the canonical forms of the
/// symbols between its commas.
pub open spec fn requested_keys(query: Seq<char>) -> Seq<Seq<char>> {
    canonical_all(split(query, ','))
}

/// Brings every symbol of `symbols` into canonical form.
pub fn normalize_all(symbols: &Vec<String>) -> (r: Vec<String>)
    ensures
        texts(r@) == canonical_all(texts(symbols@)),
{
    let mut r: Vec<String> = Vec::new();
    let mut i: usize = 0;
    while i < symbols.len()
        invariant
            i <= symbols@.len(),
            texts(r@) == canonical_all(texts(symbols@).take(i as int)),
        decreases symbols@.len() - i,
    {
        let ghost before = texts(r@);
        r.push(norm_symbol(symbols[i].as_str()));
        proof {
            let all = texts(symbols@);
            assert(all.take(i + 1) =~= all.take(i as int).push(symbols@[i as int]@));
            assert(texts(r@) =~= before.push(canonical(symbols@[i as int]@)));
            assert(canonical_all(all.take(i + 1)) =~= canonical_all(all.take(i as int)).push(
                canonical(symbols@[i as int]@),
            ));
        }
        i = i + 1;
    }
    assert(texts(symbols@).take(symbols@.len() as int) =~= texts(symbols@));
    r
}

/// Answers a query for prices: `query` is a list of symbols with commas
/// between them. The answer holds the record of each symbol that the cache
/// knows, under its canonical form; the others are left out.
pub fn lookup_prices(cache: &PriceCache, query: &str) -> (found: PriceCache)
    ensures
        found@ == cache@.restrict(requested_keys(query@).to_set()),
{
    let keys = normalize_all(&split_on(query, ','));
    cache.get_many(&keys)
}

/// Writes one price by hand: it is filed under the canonical form of
/// `symbol`, with the time of the event, or with `now` where none is given.
pub fn ingest_one(
    cache: &mut PriceCache,
    symbol: &str,
    price: i64,
    ts_event_ns: Option<u64>,
    now: u64,
)
    ensures
        final(cache)@ == old(cache)@.insert(
            canonical(symbol@),
            PriceRecord {
                price,
                ts_event_ns: Some(
                    match ts_event_ns {
                        Some(at) => at,
                        None => now,
                    },
                ),
            },
        ),
{
    let at = match ts_event_ns {
        Some(at) => at,
        None => now,
    };
    cache.put(norm_symbol(symbol), PriceRecord { price, ts_event_ns: Some(at) });
}

/// A price written by hand under one spelling of a symbol is found by a
/// query under any other spelling with the same canonical form.
pub proof fn law_spelling_does_not_matter(
    cache: Map<Seq<char>, PriceRecord>,
    written: Seq<char>,
    asked: Seq<char>,
    record: PriceRecord,
)
    requires
        canonical(written) == canonical(asked),
        !asked.contains(','),
    ensures
        ({
            let after = cache.insert(canonical(written), record);
            let found = after.restrict(requested_keys(asked).to_set());
            found.contains_key(canonical(asked)) && found[canonical(asked)] == record
        }),
{
    lemma_split_without_separator(asked, ',');
    let keys = requested_keys(asked);
    assert(keys[0] == canonical(asked));
    assert(keys.to_set().contains(canonical(asked)));
}

/// Why a subscription request was turned down.
#[derive(Clone, Copy, Debug, PartialEq, Eq, Structural)]
pub enum SubscribeError {
    /// No credential is configured.
    MissingCredential,
    /// The request names no symbol.
    EmptySymbolList,
    /// The multiplexer no longer listens to its control channel.
    ManagerUnavailable,
}

impl SubscribeError {
    /// The HTTP status that reports this error: 400 for a request that
    /// names no symbol, 500 for the others.
    pub open spec fn status_of(self) -> u16 {
        match self {
            SubscribeError::MissingCredential => 500,
            SubscribeError::EmptySymbolList => 400,
            SubscribeError::ManagerUnavailable => 500,
        }
    }

    /// The HTTP status that reports this error.
    pub fn status(&self) -> (code: u16)
        ensures
            code == self.status_of(),
    {
        match self {
            SubscribeError::MissingCredential => 500,
            SubscribeError::EmptySymbolList => 400,
            SubscribeError::ManagerUnavailable => 500,
        }
    }
}

/// The batch that a request for `symbols` sends to the multiplexer: their
/// canonical forms, each once, in the order in which they first occur.
pub open spec fn batch_of(symbols: Seq<Seq<char>>) -> Seq<Seq<char>> {
    fresh(canonical_all(symbols), Set::empty())
}

/// What `plan_subscribe` answers.
pub open spec fn plan_of(has_credential: bool, symbols: Seq<Seq<char>>) -> Result<
    Seq<Seq<char>>,
    SubscribeError,
> {
    if !has_credential {
        Err(SubscribeError::MissingCredential)
    } else if symbols.len() == 0 {
        Err(SubscribeError::EmptySymbolList)
    } else {
        Ok(batch_of(symbols))
    }
}

/// The batch that a request for `symbols` sends to the multiplexer.
pub fn subscription_batch(symbols: &Vec<String>) -> (batch: Vec<String>)
    ensures
        texts(batch@) == batch_of(texts(symbols@)),
{
    let wanted = normalize_all(symbols);
    let ghost all = texts(wanted@);
    let mut seen = SubscriptionSet::new();
    let mut batch: Vec<String> = Vec::new();
    let mut i: usize = 0;
    assert(texts(batch@) =~= fresh(all.take(0), Set::empty()));
    assert(seen@ =~= texts(batch@).to_set());
    while i < wanted.len()
        invariant
            i <= wanted@.len(),
            all == texts(wanted@),
            texts(batch@) == fresh(all.take(i as int), Set::empty()),
            seen@ == texts(batch@).to_set(),
        decreases wanted@.len() - i,
    {
        let ghost earlier = texts(batch@);
        proof {
            assert(all.take(i + 1).drop_last() =~= all.take(i as int));
            assert(all.take(i + 1).last() == wanted@[i as int]@);
        }
        if !seen.contains(wanted[i].as_str()) {
            batch.push(wanted[i].clone());
            seen.insert(wanted[i].clone());
            proof {
                let now = texts(batch@);
                let symbol = wanted@[i as int]@;
                assert(now =~= earlier.push(symbol));
                assert forall|s: Seq<char>| now.to_set().contains(s) <==> (earlier.to_set().contains(
                    s,
                ) || s == symbol) by {
                    if earlier.contains(s) {
                        let j = choose|j: int| 0 <= j < earlier.len() && earlier[j] == s;
                        assert(now[j] == s);
                    }
                    if s == symbol {
                        assert(now[earlier.len() as int] == s);
                    }
                }
                assert(seen@ =~= now.to_set());
            }
        }
        i = i + 1;
    }
    assert(all.take(all.len() as int) =~= all);
    batch
}

/// Decides what a subscription request does. Without a credential it is
/// turned down, and so is a request that names no symbol; otherwise the
/// symbols go to the multiplexer as one batch, in canonical form.
pub fn plan_subscribe(has_credential: bool, symbols: &Vec<String>) -> (r: Result<
    Vec<String>,
    SubscribeError,
>)
    ensures
        match plan_of(has_credential, texts(symbols@)) {
            Ok(batch) => r matches Ok(sent) && texts(sent@) == batch,
            Err(e) => r == Err::<Vec<String>, SubscribeError>(e),
        },
{
    if !has_credential {
        return Err(SubscribeError::MissingCredential);
    }
    if symbols.len() == 0 {
        return Err(SubscribeError::EmptySymbolList);
    }
    Ok(subscription_batch(symbols))
}

/// Judges the hand-over of a batch to the multiplexer. An empty batch needs
/// no hand-over and counts as handed over; any other was handed over if
/// `delivered` says so, and else the multiplexer is gone.
pub fn start_live_subscription(symbols: Vec<String>, delivered: bool) -> (r: Result<
    Vec<String>,
    SubscribeError,
>)
    ensures
        symbols@.len() == 0 || delivered ==> r == Ok::<Vec<String>, SubscribeError>(symbols),
        symbols@.len() > 0 && !delivered ==> r == Err::<Vec<String>, SubscribeError>(
            SubscribeError::ManagerUnavailable,
        ),
{
    if symbols.len() == 0 || delivered {
        Ok(symbols)
    } else {
        Err(SubscribeError::ManagerUnavailable)
    }
}

/// Whether the cache shows data that may belong to `symbol`: a record
/// under the symbol itself, or any record under a synthetic instrument key.
pub open spec fn shows_data(cache: Map<Seq<char>, PriceRecord>, symbol: Seq<char>) -> bool {
    cache.contains_key(symbol) || exists|key: Seq<char>|
        cache.contains_key(key) && #[trigger] has_instrument_prefix(key)
}

/// How many of `symbols` show data in the cache.
pub open spec fn valid_count(cache: Map<Seq<char>, PriceRecord>, symbols: Seq<Seq<char>>) -> nat
    decreases symbols.len(),
{
    if symbols.len() == 0 {
        0
    } else if shows_data(cache, symbols.last()) {
        valid_count(cache, symbols.drop_last()) + 1
    } else {
        valid_count(cache, symbols.drop_last())
    }
}

/// The answer to a subscription request that went through.
#[derive(Clone, Copy, Debug, PartialEq, Eq, Structural)]
pub struct SubscribeReport {
    /// How many symbols the request named.
    pub requested: usize,
    /// How many symbols went to the multiplexer.
    pub subscribed: usize,
    /// How many of those show data in the cache.
    pub valid: usize,
}

/// Counts the symbols of `symbols` that show data in the cache.
pub fn count_valid(cache: &PriceCache, symbols: &Vec<String>) -> (n: usize)
    ensures
        n == valid_count(cache@, texts(symbols@)),
{
    let any_instrument = cache.has_instrument_keys();
    let ghost all = texts(symbols@);
    let mut n: usize = 0;
    let mut i: usize = 0;
    while i < symbols.len()
        invariant
            i <= symbols@.len(),
            all == texts(symbols@),
            n <= i,
            n == valid_count(cache@, all.take(i as int)),
            any_instrument == exists|key: Seq<char>|
                cache@.contains_key(key) && #[trigger] has_instrument_prefix(key),
        decreases symbols@.len() - i,
    {
        proof {
            assert(all.take(i + 1).drop_last() =~= all.take(i as int));
            assert(all.take(i + 1).last() == symbols@[i as int]@);
        }
        if any_instrument || cache.contains_key(symbols[i].as_str()) {
            n = n + 1;
        }
        i = i + 1;
    }
    assert(all.take(all.len() as int) =~= all);
    n
}

/// The answer to a subscription request whose batch `sent` went to the
/// multiplexer, as the cache stands after the wait.
pub fn subscribe_report(cache: &PriceCache, requested: usize, sent: &Vec<String>) -> (r:
    SubscribeReport)
    ensures
        r.requested == requested,
        r.subscribed == sent@.len(),
        r.valid == valid_count(cache@, texts(sent@)),
{
    SubscribeReport { requested, subscribed: sent.len(), valid: count_valid(cache, sent) }
}

} // verus!
