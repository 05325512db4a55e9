use price_oracle::models::{Amount, PriceData};
use price_oracle::storage::{
    SaveAction, SaveEvent, SaveState, Storage, StoreError, CACHE_TTL_SECS,
};

fn consensus(symbol: &str, price: Amount, confidence: Amount) -> PriceData {
    PriceData {
        symbol: symbol.to_string(),
        price,
        confidence,
        timestamp: 1_700_000_000,
        source: "weighted_consensus".to_string(),
    }
}

#[test]
fn default_time_to_live_is_a_minute() {
    assert_eq!(CACHE_TTL_SECS, 60);
    assert_eq!(Storage::new().ttl_secs, 60);
    assert_eq!(Storage::with_ttl(5).ttl_secs, 5);
}

#[test]
fn cache_key_is_prefix_and_symbol() {
    assert_eq!(Storage::cache_key("SOL"), "price:SOL");
    assert_eq!(Storage::cache_key(""), "price:");
    assert_eq!(Storage::cache_key("BTC/USD"), "price:BTC/USD");
}

#[test]
fn save_writes_cache_entry_and_history_row() {
    let data = consensus("SOL", Amount::Finite(15_049_504_949), Amount::Finite(9_900_989));
    let plan = Storage::new().save_price(&data, "{\"symbol\":\"SOL\"}".to_string());
    assert_eq!(plan.cache.key, "price:SOL");
    assert_eq!(plan.cache.payload, "{\"symbol\":\"SOL\"}");
    assert_eq!(plan.cache.ttl_secs, 60);
    assert_eq!(plan.history.symbol, "SOL");
    assert_eq!(plan.history.price, 15_049_504_949);
    assert_eq!(plan.history.confidence, 9_900_989);
    assert_eq!(plan.history.source, "weighted_consensus");
    assert_eq!(plan.history.timestamp, 1_700_000_000);
}

#[test]
fn save_then_read_use_one_key() {
    let data = consensus("SOL", Amount::Finite(1), Amount::Finite(1));
    let plan = Storage::with_ttl(7).save_price(&data, "x".to_string());
    assert_eq!(plan.cache.key, Storage::get_latest_price("SOL"));
    assert_eq!(plan.cache.ttl_secs, 7);
    assert_ne!(plan.cache.key, Storage::get_latest_price("BTC"));
}

#[test]
fn history_keeps_zero_for_what_is_not_finite() {
    let data = consensus("SOL", Amount::Finite(-3), Amount::NonFinite);
    let plan = Storage::new().save_price(&data, String::new());
    assert_eq!(plan.history.price, -3);
    assert_eq!(plan.history.confidence, 0);
    assert_eq!(Storage::history_amount(Amount::NonFinite), 0);
    assert_eq!(Storage::history_amount(Amount::Finite(i64::MIN)), i64::MIN);
}

#[test]
fn history_rows_follow_the_order_of_saves() {
    let store = Storage::new();
    let mut history = Vec::new();
    for n in 0..5 {
        let data = consensus("SOL", Amount::Finite(n), Amount::Finite(1));
        history.push(store.save_price(&data, n.to_string()).history);
    }
    assert_eq!(history.len(), 5);
    for (n, row) in history.iter().enumerate() {
        assert_eq!(row.symbol, "SOL");
        assert_eq!(row.price, n as i64);
    }
}

#[test]
fn save_succeeds_only_where_both_writes_did() {
    assert_eq!(Storage::save_outcome(true, true), Ok(()));
    assert_eq!(Storage::save_outcome(true, false), Err(StoreError::PersistenceFailure));
    assert_eq!(Storage::save_outcome(false, true), Err(StoreError::PersistenceFailure));
    assert_eq!(Storage::save_outcome(false, false), Err(StoreError::PersistenceFailure));
}

#[test]
fn latest_is_the_payload_or_not_found() {
    assert_eq!(Storage::latest_outcome(Some("{}".to_string())), Ok("{}".to_string()));
    assert_eq!(Storage::latest_outcome(None), Err(StoreError::NotFound));
}

fn run_save(cache_written: bool, history_written: bool) -> (Vec<&'static str>, Result<(), StoreError>) {
    let mut writes = Vec::new();
    let (mut state, mut action) = Storage::begin_save();
    loop {
        let event = match action {
            SaveAction::WriteCache => {
                writes.push("cache");
                SaveEvent::CacheDone { written: cache_written }
            },
            SaveAction::WriteHistory => {
                writes.push("history");
                SaveEvent::HistoryDone { written: history_written }
            },
            SaveAction::Finish(outcome) => {
                assert_eq!(state, SaveState::Finished);
                return (writes, outcome);
            },
        };
        (state, action) = Storage::save_step(state, event);
    }
}

#[test]
fn both_writes_are_attempted_whatever_the_first_gave() {
    assert_eq!(run_save(true, true), (vec!["cache", "history"], Ok(())));
    assert_eq!(
        run_save(false, true),
        (vec!["cache", "history"], Err(StoreError::PersistenceFailure))
    );
    assert_eq!(
        run_save(true, false),
        (vec!["cache", "history"], Err(StoreError::PersistenceFailure))
    );
    assert_eq!(
        run_save(false, false),
        (vec!["cache", "history"], Err(StoreError::PersistenceFailure))
    );
}

#[test]
fn save_steps_one_by_one() {
    assert_eq!(Storage::begin_save(), (SaveState::AwaitingCache, SaveAction::WriteCache));
    assert_eq!(
        Storage::save_step(SaveState::AwaitingCache, SaveEvent::CacheDone { written: false }),
        (SaveState::AwaitingHistory { cache_written: false }, SaveAction::WriteHistory)
    );
    assert_eq!(
        Storage::save_step(
            SaveState::AwaitingHistory { cache_written: false },
            SaveEvent::HistoryDone { written: true }
        ),
        (SaveState::Finished, SaveAction::Finish(Err(StoreError::PersistenceFailure)))
    );
    assert_eq!(
        Storage::save_step(
            SaveState::AwaitingHistory { cache_written: true },
            SaveEvent::HistoryDone { written: true }
        ),
        (SaveState::Finished, SaveAction::Finish(Ok(())))
    );
}

#[test]
fn a_save_event_out_of_turn_ends_the_save_as_failed() {
    let failed = (SaveState::Finished, SaveAction::Finish(Err(StoreError::PersistenceFailure)));
    assert_eq!(
        Storage::save_step(SaveState::AwaitingCache, SaveEvent::HistoryDone { written: true }),
        failed
    );
    assert_eq!(
        Storage::save_step(
            SaveState::AwaitingHistory { cache_written: true },
            SaveEvent::CacheDone { written: true }
        ),
        failed
    );
    assert_eq!(
        Storage::save_step(SaveState::Finished, SaveEvent::CacheDone { written: true }),
        failed
    );
}
