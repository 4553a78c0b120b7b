//! MEXC: extraction of the routing symbol and the choice of payload decoder
//! by market type.

use crate::json::{json_content, json_document, parse_value, read_text_member, text_member, Json};
use crate::model::{FeedError, MarketType, ParseFailure};
use vstd::prelude::*;

verus! {

/// Which decoder reads the payload of a message.
#[derive(Clone, Copy, Debug, PartialEq, Eq, Structural)]
pub enum Decoder {
    Spot,
    Swap,
}

/// Which decoder reads an order-book message. Spot messages carry no
/// timestamp of their own, so the decoder is handed the one to use.
#[derive(Clone, Copy, Debug, PartialEq, Eq)]
pub enum BookDecoder {
    Spot { timestamp: i64 },
    Swap,
}

/// Where a message names its symbol: spot messages are arrays whose second
/// element holds it, swap messages are objects that hold it themselves.
pub open spec fn symbol_in(doc: Json) -> Option<Seq<char>> {
    match doc {
        Json::Array(items) => if items.len() > 1 {
            text_member(items[1], "symbol"@)
        } else {
            None
        },
        _ => text_member(doc, "symbol"@),
    }
}

/// The symbol that a raw message names, `None` where it is no JSON or names
/// none.
pub open spec fn symbol_of(msg: Seq<char>) -> Option<Seq<char>> {
    match json_document(msg) {
        Some(doc) => symbol_in(doc),
        None => None,
    }
}

pub open spec fn trade_decoder_of(market_type: MarketType) -> Decoder {
    if market_type == MarketType::Spot {
        Decoder::Spot
    } else {
        Decoder::Swap
    }
}

pub open spec fn book_decoder_of(market_type: MarketType, timestamp: Option<i64>) -> Result<
    BookDecoder,
    FeedError,
> {
    if market_type == MarketType::Spot {
        match timestamp {
            Some(t) => Ok(BookDecoder::Spot { timestamp: t }),
            None => Err(FeedError::ParseError(ParseFailure::MissingTimestamp)),
        }
    } else {
        Ok(BookDecoder::Swap)
    }
}

/// Reads the symbol of a parsed message.
pub fn read_symbol(doc: &serde_json::Value) -> (r: Option<String>)
    ensures
        r is Some <==> symbol_in(json_content(*doc)) is Some,
        r matches Some(found) ==> Some(found@) == symbol_in(json_content(*doc)),
{
    match doc.as_array() {
        Some(items) => if items.len() > 1 {
            read_text_member(&items[1], "symbol")
        } else {
            None
        },
        None => read_text_member(doc, "symbol"),
    }
}

/// The routing symbol of a raw message. The market type plays no part: the
/// shape of the message decides where the symbol stands.
pub fn extract_symbol(_market_type: MarketType, msg: &str) -> (r: Result<String, FeedError>)
    ensures
        match symbol_of(msg@) {
            Some(symbol) => r matches Ok(found) && found@ == symbol,
            None => r == Err::<String, FeedError>(FeedError::MalformedMessage),
        },
        json_document(msg@) is None ==> r == Err::<String, FeedError>(FeedError::MalformedMessage),
{
    match parse_value(msg) {
        None => Err(FeedError::MalformedMessage),
        Some(doc) => match read_symbol(&doc) {
            Some(symbol) => Ok(symbol),
            None => Err(FeedError::MalformedMessage),
        },
    }
}

/// Chooses the decoder of a trade message.
pub fn trade_decoder(market_type: MarketType) -> (r: Decoder)
    ensures
        r == trade_decoder_of(market_type),
{
    match market_type {
        MarketType::Spot => Decoder::Spot,
        _ => Decoder::Swap,
    }
}

/// Chooses the decoder of an order-book message. A spot message without a
/// supplied timestamp cannot be decoded.
pub fn book_decoder(market_type: MarketType, timestamp: Option<i64>) -> (r: Result<
    BookDecoder,
    FeedError,
>)
    ensures
        r == book_decoder_of(market_type, timestamp),
{
    match market_type {
        MarketType::Spot => match timestamp {
            Some(t) => Ok(BookDecoder::Spot { timestamp: t }),
            None => Err(FeedError::ParseError(ParseFailure::MissingTimestamp)),
        },
        _ => Ok(BookDecoder::Swap),
    }
}

} // verus!
