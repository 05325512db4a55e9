//! The query side: what a request for the latest price of a symbol is
//! answered with.

use vstd::prelude::*;
use crate::storage::StoreError;

verus! {

/// The path under which the latest price of a symbol is served.
pub const PRICE_ROUTE: &'static str = "/oracle/price/:symbol";

/// Status of an answer that carries a price.
pub const STATUS_OK: u16 = 200;

/// Status of an answer that carries none.
pub const STATUS_NOT_FOUND: u16 = 404;

/// Body of an answer that carries no price.
pub const NOT_FOUND_BODY: &'static str = "{\"error\":\"Price not found\"}";

/// Body that stands in for a cached payload that is no JSON.
pub const INVALID_BODY: &'static str = "\"invalid\"";

/// An answer: a status and a JSON body.
#[derive(Debug)]
pub struct HttpReply {
    pub status: u16,
    pub body: String,
}

/// An answer as mathematics.
pub struct HttpReplyView {
    pub status: int,
    pub body: Seq<char>,
}

impl View for HttpReply {
    type V = HttpReplyView;

    open spec fn view(&self) -> HttpReplyView {
        HttpReplyView { status: self.status as int, body: self.body@ }
    }
}

/// The compact form of a JSON text: the same value written without
/// insignificant whitespace; `None` where the text is no JSON.
pub uninterp spec fn json_compact_of(text: Seq<char>) -> Option<Seq<char>>;

/// The answer to a request, from what the cache holds for the symbol and
/// from the compact form of that payload.
pub open spec fn price_reply_of(cached: Option<Seq<char>>, compact: Option<Seq<char>>) -> HttpReplyView {
    match cached {
        None => HttpReplyView { status: STATUS_NOT_FOUND as int, body: NOT_FOUND_BODY@ },
        Some(_) => HttpReplyView {
            status: STATUS_OK as int,
            body: match compact {
                Some(json) => json,
                None => INVALID_BODY@,
            },
        },
    }
}

/// Calls `serde_json::from_str` for a `serde_json::Value` and, on the value,
/// `serde_json::to_string`. Trusted: the result is the text that the second
/// writes for what the first has read, which depends on the text alone;
/// there is none where the first refuses the text.
#[verifier::external_body]
fn compact_json(text: &str) -> (r: Option<String>)
    ensures
        match r {
            Some(json) => json_compact_of(text@) == Some(json@),
            None => json_compact_of(text@) is None,
        },
{
    match serde_json::from_str::<serde_json::Value>(text) {
        Ok(value) => serde_json::to_string(&value).ok(),
        Err(_) => None,
    }
}

/// The answer for a symbol that the cache holds `cached` for, where
/// `compact` is the compact form of that payload.
pub fn price_reply(cached: Option<String>, compact: Option<String>) -> (r: HttpReply)
    ensures
        r@ == price_reply_of(
            match cached {
                Some(p) => Some(p@),
                None => None,
            },
            match compact {
                Some(j) => Some(j@),
                None => None,
            },
        ),
{
    match cached {
        None => HttpReply { status: STATUS_NOT_FOUND, body: String::from_str(NOT_FOUND_BODY) },
        Some(_) => HttpReply {
            status: STATUS_OK,
            body: match compact {
                Some(json) => json,
                None => String::from_str(INVALID_BODY),
            },
        },
    }
}

/// Answers a request for the latest price of a symbol, from what the store
/// gave for it: 200 with the cached JSON in compact form, or with
/// `INVALID_BODY` where the payload is no JSON; 404 with `NOT_FOUND_BODY`
/// where the store gave nothing.
pub fn get_price(lookup: Result<String, StoreError>) -> (r: HttpReply)
    ensures
        match lookup {
            Ok(payload) => r@ == price_reply_of(Some(payload@), json_compact_of(payload@)),
            Err(_) => r@ == price_reply_of(None, None),
        },
{
    match lookup {
        Ok(payload) => {
            let compact = compact_json(payload.as_str());
            price_reply(Some(payload), compact)
        },
        Err(_) => price_reply(None, None),
    }
}

} // verus!
