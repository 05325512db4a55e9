//! The provider side: from a Pyth price account on Solana to an observation.
//!
//! Reading the account over the network is the caller's part. What comes
//! before it, the feed's address, and what comes after it, the account's
//! bytes, are resolved here.

use vstd::prelude::*;
use crate::models::{Amount, Observation, PriceData, decimal_ticks, width_ticks};

verus! {

/// Source tag of an observation read from Pyth.
pub const PYTH_SOURCE: &'static str = "pyth";

/// Why a provider gave no observation.
#[derive(Clone, Copy, Debug, PartialEq, Eq, Structural)]
pub enum FetchFailure {
    /// The provider could not be reached.
    ConnectionError,
    /// The provider answered with data that is no price.
    DecodeError,
    /// The feed's address names nothing.
    NotFoundError,
}

/// What a Pyth price account reports: the price and the width of its
/// confidence interval, both in units of ten to the `expo`, and the time of
/// publication in seconds since the epoch.
#[derive(Clone, Copy, Debug, PartialEq, Eq, Structural)]
pub struct PythPrice {
    pub price: i64,
    pub conf: u64,
    pub expo: i32,
    pub publish_time: i64,
}

/// The 32 bytes of the public key that a feed address spells in base58;
/// `None` where it spells none.
pub uninterp spec fn feed_key_of(address: Seq<char>) -> Option<Seq<u8>>;

/// The price that Pyth's loader reads from the bytes of a price account;
/// `None` where it refuses them.
pub uninterp spec fn pyth_price_of(data: Seq<u8>) -> Option<PythPrice>;

/// The observation that a Pyth price stands for.
pub open spec fn pyth_observation(symbol: Seq<char>, raw: PythPrice) -> Observation {
    Observation {
        symbol,
        price: decimal_ticks(raw.price as int, raw.expo as int),
        confidence: width_ticks(raw.conf > 0, decimal_ticks(raw.conf as int, raw.expo as int)),
        timestamp: raw.publish_time as int,
        source: PYTH_SOURCE@,
    }
}

/// Calls `solana_sdk::pubkey::Pubkey::from_str` and hands out the key's
/// bytes. Trusted: the result is what that function decodes from the
/// address, which depends on the letters alone; it refuses an address that
/// is no base58 or does not spell 32 bytes.
#[verifier::external_body]
fn parse_feed_address(address: &str) -> (r: Option<[u8; 32]>)
    ensures
        match r {
            Some(key) => feed_key_of(address@) == Some(key@),
            None => feed_key_of(address@) is None,
        },
{
    match <solana_sdk::pubkey::Pubkey as std::str::FromStr>::from_str(address) {
        Ok(key) => Some(key.to_bytes()),
        Err(_) => None,
    }
}

/// Calls `pyth_sdk_solana::load_price_feed_from_account_info` on an account
/// of the given key and bytes, and `PriceFeed::get_price_unchecked` on the
/// feed. Trusted: the result is the price that the loader reads from the
/// bytes (the aggregate of a feed that is trading, else the aggregate of
/// its last trading update), which depends on the bytes alone; it refuses
/// bytes that are too few or do not start as a Pyth price account of
/// version 2 does. The loader
/// reads in place and wants the bytes on an eight-byte boundary, so they are
/// handed over as a copy at the start of a buffer of 64-bit words.
#[verifier::external_body]
#[allow(deprecated)]
fn load_pyth_price(key: &[u8; 32], data: &Vec<u8>) -> (r: Option<PythPrice>)
    ensures
        r == pyth_price_of(data@),
{
    let mut aligned = vec![0u64; data.len()];
    let bytes = &mut bytemuck::cast_slice_mut::<u64, u8>(&mut aligned)[..data.len()];
    bytes.copy_from_slice(data);
    let key = solana_program::pubkey::Pubkey::new_from_array(*key);
    let mut lamports = 0u64;
    let account = solana_program::account_info::AccountInfo::new(
        &key, false, true, &mut lamports, bytes, &key, false, 0,
    );
    match pyth_sdk_solana::load_price_feed_from_account_info(&account) {
        Ok(feed) => {
            let p = feed.get_price_unchecked();
            Some(PythPrice { price: p.price, conf: p.conf, expo: p.expo, publish_time: p.publish_time })
        },
        Err(_) => None,
    }
}

/// A client of the Pyth oracle behind one RPC endpoint.
#[derive(Debug)]
pub struct OracleClient {
    /// Where the accounts are read from.
    pub rpc_url: String,
}

impl OracleClient {
    /// A client for the endpoint at `rpc_url`.
    pub fn new(rpc_url: &str) -> (r: Self)
        ensures
            r.rpc_url@ == rpc_url@,
    {
        OracleClient { rpc_url: String::from_str(rpc_url) }
    }

    /// The key of the account that `feed_address` names. An address that
    /// spells no key names nothing: `NotFoundError`.
    pub fn feed_key(feed_address: &str) -> (r: Result<[u8; 32], FetchFailure>)
        ensures
            match r {
                Ok(key) => feed_key_of(feed_address@) == Some(key@),
                Err(e) => e == FetchFailure::NotFoundError && feed_key_of(feed_address@) is None,
            },
    {
        match parse_feed_address(feed_address) {
            Some(key) => Ok(key),
            None => Err(FetchFailure::NotFoundError),
        }
    }

    /// The observation for `symbol` that the Pyth price `raw` stands for:
    /// price and confidence width as amounts, the time of publication, and
    /// the source tag `PYTH_SOURCE`. A width above zero stays above zero,
    /// however fine: it is at least one tick.
    pub fn observation_from_pyth(symbol: &str, raw: PythPrice) -> (r: PriceData)
        ensures
            r@ == pyth_observation(symbol@, raw),
    {
        PriceData {
            symbol: String::from_str(symbol),
            price: Amount::from_decimal(raw.price as i128, raw.expo),
            confidence: Amount::width_from_decimal(raw.conf as i128, raw.expo),
            timestamp: raw.publish_time,
            source: String::from_str(PYTH_SOURCE),
        }
    }

    /// The observation for `symbol` in the price account of key `key` that
    /// holds the bytes `data`. Bytes that are no price account give
    /// `DecodeError`.
    pub fn decode_price_account(symbol: &str, key: &[u8; 32], data: &Vec<u8>) -> (r: Result<
        PriceData,
        FetchFailure,
    >)
        ensures
            match pyth_price_of(data@) {
                Some(raw) => r matches Ok(p) && p@ == pyth_observation(symbol@, raw),
                None => r matches Err(e) && e == FetchFailure::DecodeError,
            },
    {
        match load_pyth_price(key, data) {
            Some(raw) => Ok(Self::observation_from_pyth(symbol, raw)),
            None => Err(FetchFailure::DecodeError),
        }
    }
}

} // verus!
