use price_oracle::config::{ConfigError, Settings};

#[test]
fn data_store_address_is_required() {
    let got = Settings::resolve(None, Some("redis://cache/".to_string()), None, Some(5), None);
    assert_eq!(got.unwrap_err(), ConfigError::MissingDatabaseUrl);
}

#[test]
fn defaults_stand_in_for_what_is_not_given() {
    let got = Settings::resolve(Some("postgres://db/oracle".to_string()), None, None, None, None)
        .unwrap();
    assert_eq!(got.database_url, "postgres://db/oracle");
    assert_eq!(got.redis_url, "redis://127.0.0.1/");
    assert_eq!(got.rpc_url, "https://api.devnet.solana.com");
    assert_eq!(got.period_secs, 1);
    assert_eq!(got.cache_ttl_secs, 60);
}

#[test]
fn given_values_are_kept() {
    let got = Settings::resolve(
        Some("postgres://db/oracle".to_string()),
        Some("redis://cache/".to_string()),
        Some("http://localhost:8899".to_string()),
        Some(5),
        Some(0),
    )
    .unwrap();
    assert_eq!(got.database_url, "postgres://db/oracle");
    assert_eq!(got.redis_url, "redis://cache/");
    assert_eq!(got.rpc_url, "http://localhost:8899");
    assert_eq!(got.period_secs, 5);
    assert_eq!(got.cache_ttl_secs, 0);
}
