//! The price store's rules: what one save writes to the cache and to the
//! history, under which key the latest price is read back, and when a save
//! or a read has succeeded.
//!
//! The store itself, a key-value cache with expiry beside an append-only
//! history, is driven by the caller. `StoreModel` says what the two tiers
//! are taken to hold.

use vstd::prelude::*;
use crate::models::{Amount, Observation, PriceData};

verus! {

/// Seconds a cached consensus stays visible unless the store is told
/// otherwise.
pub const CACHE_TTL_SECS: u64 = 60;

/// What every cache key starts with.
pub const CACHE_KEY_PREFIX: &'static str = "price:";

/// Why the store could not serve.
#[derive(Clone, Copy, Debug, PartialEq, Eq, Structural)]
pub enum StoreError {
    /// The cache or the history refused a write.
    PersistenceFailure,
    /// The cache holds no live entry for the symbol.
    NotFound,
}

/// The cache key of a symbol.
pub open spec fn cache_key_of(symbol: Seq<char>) -> Seq<char> {
    CACHE_KEY_PREFIX@ + symbol
}

/// The ticks that the history keeps for an amount: its own, or zero where
/// it has none.
pub open spec fn history_ticks(amount: Option<int>) -> int {
    match amount {
        Some(t) => t,
        None => 0,
    }
}

/// One write to the cache: `payload` under `key`, to expire after
/// `ttl_secs` seconds.
#[derive(Debug)]
pub struct CacheWrite {
    pub key: String,
    pub payload: String,
    pub ttl_secs: u64,
}

/// A cache write as mathematics.
pub struct CacheWriteView {
    pub key: Seq<char>,
    pub payload: Seq<char>,
    pub ttl_secs: int,
}

impl View for CacheWrite {
    type V = CacheWriteView;

    open spec fn view(&self) -> CacheWriteView {
        CacheWriteView { key: self.key@, payload: self.payload@, ttl_secs: self.ttl_secs as int }
    }
}

/// One row of the history. Amounts are in ticks.
#[derive(Debug)]
pub struct HistoryRow {
    pub symbol: String,
    pub price: i64,
    pub confidence: i64,
    pub source: String,
    pub timestamp: i64,
}

/// A history row as mathematics.
pub struct HistoryRecord {
    pub symbol: Seq<char>,
    pub price: int,
    pub confidence: int,
    pub source: Seq<char>,
    pub timestamp: int,
}

impl View for HistoryRow {
    type V = HistoryRecord;

    open spec fn view(&self) -> HistoryRecord {
        HistoryRecord {
            symbol: self.symbol@,
            price: self.price as int,
            confidence: self.confidence as int,
            source: self.source@,
            timestamp: self.timestamp as int,
        }
    }
}

/// The history row of an observation.
pub open spec fn history_record_of(data: Observation) -> HistoryRecord {
    HistoryRecord {
        symbol: data.symbol,
        price: history_ticks(data.price),
        confidence: history_ticks(data.confidence),
        source: data.source,
        timestamp: data.timestamp,
    }
}

/// The two writes that make one save.
#[derive(Debug)]
pub struct SavePlan {
    pub cache: CacheWrite,
    pub history: HistoryRow,
}

/// A save as mathematics.
pub struct SavePlanView {
    pub cache: CacheWriteView,
    pub history: HistoryRecord,
}

impl View for SavePlan {
    type V = SavePlanView;

    open spec fn view(&self) -> SavePlanView {
        SavePlanView { cache: self.cache@, history: self.history@ }
    }
}

/// The save of an observation whose serialised form is `payload`, in a
/// store whose cache entries live `ttl_secs` seconds.
pub open spec fn save_plan_of(data: Observation, payload: Seq<char>, ttl_secs: int) -> SavePlanView {
    SavePlanView {
        cache: CacheWriteView { key: cache_key_of(data.symbol), payload, ttl_secs },
        history: history_record_of(data),
    }
}

/// Where a save stands.
#[derive(Clone, Copy, Debug, PartialEq, Eq, Structural)]
pub enum SaveState {
    /// The cache write is under way.
    AwaitingCache,
    /// The history write is under way; the cache write ended as noted.
    AwaitingHistory { cache_written: bool },
    /// Both writes were attempted and the save has its outcome.
    Finished,
}

/// What happened to the write that a save asked for.
#[derive(Clone, Copy, Debug, PartialEq, Eq, Structural)]
pub enum SaveEvent {
    /// The cache write ended; `written` tells whether the cache took it.
    CacheDone { written: bool },
    /// The history write ended; `written` tells whether the row is there.
    HistoryDone { written: bool },
}

/// What a save asks for next.
#[derive(Clone, Copy, Debug, PartialEq, Eq)]
pub enum SaveAction {
    /// Write the plan's cache entry.
    WriteCache,
    /// Append the plan's history row.
    WriteHistory,
    /// Nothing more: the save ends with this outcome.
    Finish(Result<(), StoreError>),
}

/// The outcome of a save of which the two writes ended as told: success
/// only where both were written.
pub open spec fn save_outcome_of(cache_written: bool, history_written: bool) -> Result<
    (),
    StoreError,
> {
    if cache_written && history_written {
        Ok(())
    } else {
        Err(StoreError::PersistenceFailure)
    }
}

/// Where a save goes from `state` when `event` comes, and what it asks for.
/// The history write follows the cache write whatever became of that one:
/// both writes are attempted. An event out of turn ends the save as failed.
pub open spec fn save_next(state: SaveState, event: SaveEvent) -> (SaveState, SaveAction) {
    match (state, event) {
        (SaveState::AwaitingCache, SaveEvent::CacheDone { written }) => (
            SaveState::AwaitingHistory { cache_written: written },
            SaveAction::WriteHistory,
        ),
        (SaveState::AwaitingHistory { cache_written }, SaveEvent::HistoryDone { written }) => (
            SaveState::Finished,
            SaveAction::Finish(save_outcome_of(cache_written, written)),
        ),
        _ => (SaveState::Finished, SaveAction::Finish(Err(StoreError::PersistenceFailure))),
    }
}

/// The rules of the two-tier store.
#[derive(Clone, Copy, Debug, PartialEq, Eq, Structural)]
pub struct Storage {
    /// Seconds a cache entry lives.
    pub ttl_secs: u64,
}

impl Storage {
    /// A store whose cache entries live `CACHE_TTL_SECS` seconds.
    pub fn new() -> (r: Self)
        ensures
            r.ttl_secs == CACHE_TTL_SECS,
    {
        Storage { ttl_secs: CACHE_TTL_SECS }
    }

    /// A store whose cache entries live `ttl_secs` seconds.
    pub fn with_ttl(ttl_secs: u64) -> (r: Self)
        ensures
            r.ttl_secs == ttl_secs,
    {
        Storage { ttl_secs }
    }

    /// The cache key of `symbol`: the prefix, then the symbol.
    pub fn cache_key(symbol: &str) -> (key: String)
        ensures
            key@ == cache_key_of(symbol@),
    {
        String::from_str(CACHE_KEY_PREFIX).concat(symbol)
    }

    /// The ticks that the history keeps for `amount`.
    pub fn history_amount(amount: Amount) -> (t: i64)
        ensures
            t == history_ticks(amount@),
    {
        match amount {
            Amount::Finite(t) => t,
            Amount::NonFinite => 0,
        }
    }

    /// What saving `data` writes: its serialised form `payload` to the
    /// cache, under the key of its symbol and with this store's expiry, and
    /// one row to the history.
    pub fn save_price(&self, data: &PriceData, payload: String) -> (plan: SavePlan)
        ensures
            plan@ == save_plan_of(data@, payload@, self.ttl_secs as int),
    {
        SavePlan {
            cache: CacheWrite {
                key: Self::cache_key(data.symbol.as_str()),
                payload,
                ttl_secs: self.ttl_secs,
            },
            history: HistoryRow {
                symbol: data.symbol.clone(),
                price: Self::history_amount(data.price),
                confidence: Self::history_amount(data.confidence),
                source: data.source.clone(),
                timestamp: data.timestamp,
            },
        }
    }

    /// How a save starts: with the cache write.
    pub fn begin_save() -> (r: (SaveState, SaveAction))
        ensures
            r == (SaveState::AwaitingCache, SaveAction::WriteCache),
    {
        (SaveState::AwaitingCache, SaveAction::WriteCache)
    }

    /// One step of a save: from where it stands and how the last write
    /// ended, to where it stands next and what it asks for. After the cache
    /// write, failed or not, comes the history write; after the history
    /// write the save ends, as a success only where both were written.
    pub fn save_step(state: SaveState, event: SaveEvent) -> (r: (SaveState, SaveAction))
        ensures
            r == save_next(state, event),
    {
        match (state, event) {
            (SaveState::AwaitingCache, SaveEvent::CacheDone { written }) => (
                SaveState::AwaitingHistory { cache_written: written },
                SaveAction::WriteHistory,
            ),
            (SaveState::AwaitingHistory { cache_written }, SaveEvent::HistoryDone { written }) => (
                SaveState::Finished,
                SaveAction::Finish(Self::save_outcome(cache_written, written)),
            ),
            _ => (SaveState::Finished, SaveAction::Finish(Err(StoreError::PersistenceFailure))),
        }
    }

    /// Whether a save succeeded: only where both writes did.
    pub fn save_outcome(cache_written: bool, history_written: bool) -> (r: Result<(), StoreError>)
        ensures
            r == save_outcome_of(cache_written, history_written),
    {
        if cache_written && history_written {
            Ok(())
        } else {
            Err(StoreError::PersistenceFailure)
        }
    }

    /// The cache key under which the latest price of `symbol` is read. The
    /// history is not asked.
    pub fn get_latest_price(symbol: &str) -> (key: String)
        ensures
            key@ == cache_key_of(symbol@),
    {
        Self::cache_key(symbol)
    }

    /// What a read of the latest price gives, from what the cache answered:
    /// the payload of a live entry, or `NotFound` where there is none.
    pub fn latest_outcome(reply: Option<String>) -> (r: Result<String, StoreError>)
        ensures
            match reply {
                Some(payload) => r matches Ok(p) && p@ == payload@,
                None => r matches Err(e) && e == StoreError::NotFound,
            },
    {
        match reply {
            Some(payload) => Ok(payload),
            None => Err(StoreError::NotFound),
        }
    }
}

/// A cache entry: a payload and the second from which it counts as gone.
pub struct CacheEntry {
    pub payload: Seq<char>,
    pub expires_at: int,
}

/// What the store is taken to hold: the cache, one entry per key, and the
/// history, oldest row first.
pub struct StoreModel {
    pub cache: Map<Seq<char>, CacheEntry>,
    pub history: Seq<HistoryRecord>,
}

impl StoreModel {
    /// A store that holds nothing.
    pub open spec fn empty() -> StoreModel {
        StoreModel { cache: Map::empty(), history: Seq::empty() }
    }

    /// The store after the save `plan`, made at second `now`: the cache
    /// entry of the key is replaced, the history has one more row.
    pub open spec fn save(self, plan: SavePlanView, now: int) -> StoreModel {
        StoreModel {
            cache: self.cache.insert(
                plan.cache.key,
                CacheEntry { payload: plan.cache.payload, expires_at: now + plan.cache.ttl_secs },
            ),
            history: self.history.push(plan.history),
        }
    }

    /// The store after a save of `plan` at second `now` of which the cache
    /// write and the history write ended as told: each tier holds what it
    /// was given, and is as before where its write failed.
    pub open spec fn attempt(
        self,
        plan: SavePlanView,
        cache_written: bool,
        history_written: bool,
        now: int,
    ) -> StoreModel {
        StoreModel {
            cache: if cache_written {
                self.save(plan, now).cache
            } else {
                self.cache
            },
            history: if history_written {
                self.save(plan, now).history
            } else {
                self.history
            },
        }
    }

    /// What the cache answers for `key` at second `now`: the payload of the
    /// entry, unless there is none or it has expired.
    pub open spec fn latest(self, key: Seq<char>, now: int) -> Option<Seq<char>> {
        if self.cache.dom().contains(key) && now < self.cache[key].expires_at {
            Some(self.cache[key].payload)
        } else {
            None
        }
    }

    /// The store after the saves `plans`, made in this order at the seconds
    /// `times`.
    pub open spec fn save_all(self, plans: Seq<SavePlanView>, times: Seq<int>) -> StoreModel
        decreases plans.len(),
    {
        if plans.len() == 0 {
            self
        } else {
            self.save_all(plans.drop_last(), times.drop_last()).save(plans.last(), times.last())
        }
    }

    /// The history rows of `symbol`, oldest first.
    pub open spec fn history_of(self, symbol: Seq<char>) -> Seq<HistoryRecord> {
        self.history.filter(|r: HistoryRecord| r.symbol == symbol)
    }
}

/// Both writes of a save are attempted, whatever becomes of the first: a
/// save that starts asks for the cache write, then, written or not, for the
/// history write, and ends after that with the outcome of the two. So where
/// the cache write fails and the history takes its row, the save reports a
/// failure and the history holds the row all the same.
pub proof fn theorem_both_writes_are_attempted(
    store: StoreModel,
    plan: SavePlanView,
    cache_written: bool,
    history_written: bool,
    now: int,
)
    ensures
        ({
            let first = save_next(SaveState::AwaitingCache, SaveEvent::CacheDone {
                written: cache_written,
            });
            let second = save_next(first.0, SaveEvent::HistoryDone { written: history_written });
            let after = store.attempt(plan, cache_written, history_written, now);
            &&& first.1 == SaveAction::WriteHistory
            &&& second.0 == SaveState::Finished
            &&& second.1 == SaveAction::Finish(save_outcome_of(cache_written, history_written))
            &&& save_outcome_of(cache_written, history_written) is Ok <==> cache_written
                && history_written
            &&& history_written ==> after.history == store.history.push(plan.history)
            &&& !history_written ==> after.history == store.history
            &&& !cache_written ==> after.cache == store.cache
            &&& cache_written && history_written ==> after == store.save(plan, now)
        }),
{
}

/// Two symbols with one cache key are one symbol.
pub proof fn theorem_cache_key_is_injective(a: Seq<char>, b: Seq<char>)
    requires
        cache_key_of(a) == cache_key_of(b),
    ensures
        a == b,
{
    let prefix = CACHE_KEY_PREFIX@;
    let n = prefix.len() as int;
    assert(cache_key_of(a).len() == n + a.len());
    assert(cache_key_of(b).len() == n + b.len());
    assert forall|i: int| 0 <= i < a.len() implies a[i] == b[i] by {
        assert(cache_key_of(a)[n + i] == a[i]);
        assert(cache_key_of(b)[n + i] == b[i]);
    }
    assert(a =~= b);
}

/// A saved observation is the latest of its symbol from the second of the
/// save until its time to live has run out, and is gone from then on.
/// Entries of other symbols are not touched.
pub proof fn theorem_saved_is_latest(
    store: StoreModel,
    data: Observation,
    payload: Seq<char>,
    ttl_secs: int,
    now: int,
    later: int,
)
    requires
        now <= later,
    ensures
        ({
            let after = store.save(save_plan_of(data, payload, ttl_secs), now);
            &&& later < now + ttl_secs ==> after.latest(cache_key_of(data.symbol), later) == Some(
                payload,
            )
            &&& later >= now + ttl_secs ==> after.latest(cache_key_of(data.symbol), later) is None
            &&& forall|other: Seq<char>|
                other != data.symbol ==> after.latest(#[trigger] cache_key_of(other), later)
                    == store.latest(cache_key_of(other), later)
        }),
{
    let after = store.save(save_plan_of(data, payload, ttl_secs), now);
    assert forall|other: Seq<char>| other != data.symbol implies after.latest(
        #[trigger] cache_key_of(other),
        later,
    ) == store.latest(cache_key_of(other), later) by {
        if cache_key_of(other) == cache_key_of(data.symbol) {
            theorem_cache_key_is_injective(other, data.symbol);
        }
    }
}

/// The history only grows: after a run of saves it holds what it held, then
/// one row for each save, in the order of the saves.
pub proof fn theorem_history_appends(store: StoreModel, plans: Seq<SavePlanView>, times: Seq<int>)
    requires
        plans.len() == times.len(),
    ensures
        store.save_all(plans, times).history == store.history + plans.map_values(
            |p: SavePlanView| p.history,
        ),
    decreases plans.len(),
{
    let rows = plans.map_values(|p: SavePlanView| p.history);
    if plans.len() == 0 {
        assert(store.history + rows =~= store.history);
    } else {
        theorem_history_appends(store, plans.drop_last(), times.drop_last());
        let before = plans.drop_last().map_values(|p: SavePlanView| p.history);
        assert(rows =~= before.push(plans.last().history));
        assert(store.history + rows =~= (store.history + before).push(plans.last().history));
    }
}

/// After `n` saves for one symbol into an empty store, the history of that
/// symbol holds `n` rows: the rows of the saves, in the order of the saves.
pub proof fn theorem_history_counts_saves(
    symbol: Seq<char>,
    plans: Seq<SavePlanView>,
    times: Seq<int>,
)
    requires
        plans.len() == times.len(),
        forall|i: int| 0 <= i < plans.len() ==> (#[trigger] plans[i]).history.symbol == symbol,
    ensures
        StoreModel::empty().save_all(plans, times).history_of(symbol) == plans.map_values(
            |p: SavePlanView| p.history,
        ),
        StoreModel::empty().save_all(plans, times).history_of(symbol).len() == plans.len(),
{
    let rows = plans.map_values(|p: SavePlanView| p.history);
    theorem_history_appends(StoreModel::empty(), plans, times);
    assert(StoreModel::empty().history + rows =~= rows);
    lemma_filter_keeps_all(rows, symbol);
}

/// A filter by symbol keeps a sequence of rows that are all of that symbol.
proof fn lemma_filter_keeps_all(rows: Seq<HistoryRecord>, symbol: Seq<char>)
    requires
        forall|i: int| 0 <= i < rows.len() ==> (#[trigger] rows[i]).symbol == symbol,
    ensures
        rows.filter(|r: HistoryRecord| r.symbol == symbol) == rows,
    decreases rows.len(),
{
    reveal(Seq::filter);
    if rows.len() > 0 {
        let rest = rows.drop_last();
        assert forall|i: int| 0 <= i < rest.len() implies (#[trigger] rest[i]).symbol == symbol by {
            assert(rest[i] == rows[i]);
        }
        lemma_filter_keeps_all(rest, symbol);
        assert(rows[rows.len() - 1].symbol == symbol);
        assert(rest.push(rows.last()) =~= rows);
    }
}

} // verus!
