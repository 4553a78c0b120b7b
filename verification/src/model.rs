//! The vocabulary shared by every exchange: market types, message kinds,
//! control verdicts, exchanges and errors.

use vstd::prelude::*;

verus! {

/// The category of an instrument. Fixed for a subscription.
#[derive(Clone, Copy, Debug, PartialEq, Eq, Structural)]
pub enum MarketType {
    Spot,
    InverseFuture,
    InverseSwap,
    LinearFuture,
    LinearSwap,
    EuropeanOption,
}

impl MarketType {
    /// The lower-case name of the market type.
    pub open spec fn name_text(self) -> Seq<char> {
        match self {
            MarketType::Spot => "spot"@,
            MarketType::InverseFuture => "inverse_future"@,
            MarketType::InverseSwap => "inverse_swap"@,
            MarketType::LinearFuture => "linear_future"@,
            MarketType::LinearSwap => "linear_swap"@,
            MarketType::EuropeanOption => "european_option"@,
        }
    }

    /// Perpetual swaps are the market types that carry a funding rate.
    pub open spec fn is_swap(self) -> bool {
        self == MarketType::InverseSwap || self == MarketType::LinearSwap
    }

    pub fn name(&self) -> (r: &'static str)
        ensures
            r@ == self.name_text(),
    {
        match self {
            MarketType::Spot => "spot",
            MarketType::InverseFuture => "inverse_future",
            MarketType::InverseSwap => "inverse_swap",
            MarketType::LinearFuture => "linear_future",
            MarketType::LinearSwap => "linear_swap",
            MarketType::EuropeanOption => "european_option",
        }
    }

    pub fn has_funding_rate(&self) -> (r: bool)
        ensures
            r == self.is_swap(),
    {
        match self {
            MarketType::InverseSwap | MarketType::LinearSwap => true,
            _ => false,
        }
    }
}

/// What a data message is about. Derived from each message on its own.
#[derive(Clone, Copy, Debug, PartialEq, Eq, Structural)]
pub enum MessageKind {
    Trade,
    L2Event,
    L2TopK,
    BBO,
    Ticker,
    Candlestick,
    FundingRate,
    Other,
}

/// Whether an inbound frame is market data or protocol plumbing.
#[derive(Clone, Copy, Debug, PartialEq, Eq, Structural)]
pub enum MiscMessage {
    /// Market data: forwarded to the caller untouched.
    Normal,
    /// An acknowledgement, a heartbeat, an error notice or noise: consumed.
    Misc,
}

/// The exchanges this library has adapters for.
#[derive(Clone, Copy, Debug, PartialEq, Eq, Structural)]
pub enum Exchange {
    CoinbasePro,
    Huobi,
    Mexc,
}

impl Exchange {
    pub open spec fn name_text(self) -> Seq<char> {
        match self {
            Exchange::CoinbasePro => "CoinbasePro"@,
            Exchange::Huobi => "huobi"@,
            Exchange::Mexc => "mexc"@,
        }
    }

    pub fn name(&self) -> (r: &'static str)
        ensures
            r@ == self.name_text(),
    {
        match self {
            Exchange::CoinbasePro => "CoinbasePro",
            Exchange::Huobi => "huobi",
            Exchange::Mexc => "mexc",
        }
    }
}

/// Why a payload could not be decoded although it is a well-formed message.
#[derive(Clone, Copy, Debug, PartialEq, Eq, Structural)]
pub enum ParseFailure {
    /// The message carries no timestamp and the caller supplied none.
    MissingTimestamp,
}

/// What can go wrong between a wire frame and a canonical record.
#[derive(Clone, Copy, Debug, PartialEq, Eq, Structural)]
pub enum FeedError {
    /// The frame is not the exchange's minimal envelope.
    MalformedMessage,
    /// The exchange does not offer the operation for the market type.
    UnsupportedOperation { exchange: Exchange, market_type: MarketType },
    /// The envelope is fine but the payload cannot be decoded.
    ParseError(ParseFailure),
    /// The connection failed and will not be reopened.
    TransportError,
}

impl FeedError {
    pub open spec fn description_text(self) -> Seq<char> {
        match self {
            FeedError::MalformedMessage => "malformed message"@,
            FeedError::UnsupportedOperation { exchange, market_type } => exchange.name_text()
                + " does not support this operation on "@ + market_type.name_text(),
            FeedError::ParseError(ParseFailure::MissingTimestamp) => {
                "the message has no timestamp and none was supplied"@
            },
            FeedError::TransportError => "transport error"@,
        }
    }

    /// A sentence for logs and for callers that keep errors as text.
    pub fn description(&self) -> (r: String)
        ensures
            r@ == self.description_text(),
    {
        match self {
            FeedError::MalformedMessage => "malformed message".to_owned(),
            FeedError::UnsupportedOperation { exchange, market_type } => {
                let mut text = exchange.name().to_owned();
                text.append(" does not support this operation on ");
                text.append(market_type.name());
                text
            },
            FeedError::ParseError(ParseFailure::MissingTimestamp) => {
                "the message has no timestamp and none was supplied".to_owned()
            },
            FeedError::TransportError => "transport error".to_owned(),
        }
    }
}

/// Number of decimal digits after the dot, for the price and optionally for
/// the base and quote quantities of a market.
#[derive(Clone, Copy, Debug, PartialEq, Eq)]
pub struct Precision {
    pub price: i64,
    pub base: Option<i64>,
    pub quote: Option<i64>,
}

} // verus!
