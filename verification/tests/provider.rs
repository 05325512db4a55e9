use price_oracle::models::{Amount, PriceData};
use price_oracle::oracle_client::{FetchFailure, OracleClient, PythPrice};
use pyth_sdk_solana::state::{AccountType, PriceStatus, SolanaPriceAccount, MAGIC, VERSION_2};

fn price_account(status: PriceStatus) -> Vec<u8> {
    let mut account = SolanaPriceAccount::default();
    account.magic = MAGIC;
    account.ver = VERSION_2;
    account.atype = AccountType::Price as u32;
    account.expo = -8;
    account.timestamp = 1_700_000_123;
    account.agg.price = 15_012_345_678;
    account.agg.conf = 4_200_000;
    account.agg.status = status;
    account.prev_price = 14_900_000_000;
    account.prev_conf = 3_000_000;
    account.prev_timestamp = 1_700_000_100;
    bytemuck::bytes_of(&account).to_vec()
}

fn finite(data: &PriceData) -> (i64, i64) {
    match (data.price, data.confidence) {
        (Amount::Finite(p), Amount::Finite(c)) => (p, c),
        _ => panic!("finite amounts expected"),
    }
}

#[test]
fn new_keeps_the_endpoint() {
    let client = OracleClient::new("https://api.devnet.solana.com");
    assert_eq!(client.rpc_url, "https://api.devnet.solana.com");
}

#[test]
fn feed_key_decodes_base58() {
    assert_eq!(OracleClient::feed_key("11111111111111111111111111111111"), Ok([0u8; 32]));
    let key = OracleClient::feed_key("J83w4HKfqxwcq3BEMMkPFSppX3gqekLyLJBexebFVkix").unwrap();
    assert_eq!(
        key,
        [
            0xfe, 0x65, 0x0f, 0x03, 0x67, 0xd4, 0xa7, 0xef, 0x98, 0x15, 0xa5, 0x93, 0xea, 0x15,
            0xd3, 0x65, 0x93, 0xf0, 0x64, 0x3a, 0xaa, 0xf0, 0x14, 0x9b, 0xb0, 0x4b, 0xe6, 0x7a,
            0xb8, 0x51, 0xde, 0xcd
        ]
    );
}

#[test]
fn feed_key_refuses_what_spells_no_key() {
    assert_eq!(OracleClient::feed_key(""), Err(FetchFailure::NotFoundError));
    assert_eq!(OracleClient::feed_key("not-base58!"), Err(FetchFailure::NotFoundError));
    assert_eq!(OracleClient::feed_key("1111"), Err(FetchFailure::NotFoundError));
    let long = "1".repeat(45);
    assert_eq!(OracleClient::feed_key(&long), Err(FetchFailure::NotFoundError));
}

#[test]
fn decode_reads_the_aggregate_of_a_trading_feed() {
    let data = price_account(PriceStatus::Trading);
    let got = OracleClient::decode_price_account("SOL", &[7u8; 32], &data).unwrap();
    assert_eq!(finite(&got), (150_123_456_780, 42_000_000));
    assert_eq!(got.timestamp, 1_700_000_123);
    assert_eq!(got.symbol, "SOL");
    assert_eq!(got.source, "pyth");
}

#[test]
fn decode_reads_the_previous_price_of_a_halted_feed() {
    let data = price_account(PriceStatus::Halted);
    let got = OracleClient::decode_price_account("SOL", &[7u8; 32], &data).unwrap();
    assert_eq!(finite(&got), (149_000_000_000, 30_000_000));
    assert_eq!(got.timestamp, 1_700_000_100);
}

#[test]
fn decode_takes_bytes_at_any_offset() {
    let data = price_account(PriceStatus::Trading);
    for shift in 0..8 {
        let mut room = vec![0u8; shift];
        room.extend_from_slice(&data);
        let copy = room[shift..].to_vec();
        let got = OracleClient::decode_price_account("SOL", &[0u8; 32], &copy).unwrap();
        assert_eq!(finite(&got), (150_123_456_780, 42_000_000));
    }
}

#[test]
fn decode_refuses_what_is_no_price_account() {
    assert_eq!(
        OracleClient::decode_price_account("SOL", &[0u8; 32], &vec![]).unwrap_err(),
        FetchFailure::DecodeError
    );
    assert_eq!(
        OracleClient::decode_price_account("SOL", &[0u8; 32], &vec![0u8; 4096]).unwrap_err(),
        FetchFailure::DecodeError
    );
    let mut short = price_account(PriceStatus::Trading);
    short.truncate(100);
    assert_eq!(
        OracleClient::decode_price_account("SOL", &[0u8; 32], &short).unwrap_err(),
        FetchFailure::DecodeError
    );
    let mut wrong_version = price_account(PriceStatus::Trading);
    wrong_version[4] = 1;
    assert_eq!(
        OracleClient::decode_price_account("SOL", &[0u8; 32], &wrong_version).unwrap_err(),
        FetchFailure::DecodeError
    );
}

#[test]
fn observation_from_pyth_scales_to_ticks() {
    let raw = PythPrice { price: 15_012_345_678, conf: 4_200_000, expo: -8, publish_time: 99 };
    let got = OracleClient::observation_from_pyth("BTC", raw);
    assert_eq!(got.price, Amount::Finite(150_123_456_780));
    assert_eq!(got.confidence, Amount::Finite(42_000_000));
    assert_eq!(got.timestamp, 99);
    assert_eq!(got.symbol, "BTC");
    assert_eq!(got.source, "pyth");

    let coarse = PythPrice { price: 1_234, conf: 5, expo: -2, publish_time: 0 };
    let got = OracleClient::observation_from_pyth("BTC", coarse);
    assert_eq!(got.price, Amount::Finite(12_340_000_000));
    assert_eq!(got.confidence, Amount::Finite(50_000_000));

    let fine = PythPrice { price: -123_456_789, conf: 999, expo: -10, publish_time: 0 };
    let got = OracleClient::observation_from_pyth("BTC", fine);
    assert_eq!(got.price, Amount::Finite(-12_345_678));
    assert_eq!(got.confidence, Amount::Finite(99));
}

#[test]
fn observation_from_pyth_marks_what_has_no_ticks() {
    let huge = PythPrice { price: i64::MAX, conf: u64::MAX, expo: -9, publish_time: 0 };
    let got = OracleClient::observation_from_pyth("BTC", huge);
    assert_eq!(got.price, Amount::Finite(i64::MAX));
    assert_eq!(got.confidence, Amount::NonFinite);

    let fine = PythPrice { price: 5, conf: 3, expo: -12, publish_time: 0 };
    let got = OracleClient::observation_from_pyth("BTC", fine);
    assert_eq!(got.price, Amount::Finite(0));
    assert_eq!(got.confidence, Amount::Finite(1));

    let wide = PythPrice { price: 1, conf: 0, expo: 11, publish_time: 0 };
    let got = OracleClient::observation_from_pyth("BTC", wide);
    assert_eq!(got.price, Amount::NonFinite);
    assert_eq!(got.confidence, Amount::Finite(0));
}
