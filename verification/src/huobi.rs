//! Huobi: classification of data messages by their channel, extraction of
//! the routing symbol, and the choice of payload decoder by market type.

use crate::json::{json_content, json_document, parse_value, read_text_member, text_member, Json};
use crate::model::{Exchange, FeedError, MarketType, MessageKind};
use crate::text::{chars_of, contains, ends_with, field, is_infix, is_suffix, nth_field};
use vstd::prelude::*;

verus! {

/// The separator between the parts of a channel or topic.
pub const ROUTE_SEPARATOR: char = '.';

/// The minimal envelope of a Huobi message: market data names its stream
/// under `ch`, funding rates name it under `topic`.
#[derive(Debug, PartialEq, Eq)]
pub enum Envelope {
    Channel(String),
    Topic(String),
}

pub ghost enum EnvelopeText {
    Channel(Seq<char>),
    Topic(Seq<char>),
}

impl View for Envelope {
    type V = EnvelopeText;

    open spec fn view(&self) -> EnvelopeText {
        match self {
            Envelope::Channel(ch) => EnvelopeText::Channel(ch@),
            Envelope::Topic(topic) => EnvelopeText::Topic(topic@),
        }
    }
}

impl EnvelopeText {
    /// The channel or topic string.
    pub open spec fn route(self) -> Seq<char> {
        match self {
            EnvelopeText::Channel(ch) => ch,
            EnvelopeText::Topic(topic) => topic,
        }
    }
}

/// Which decoder reads a payload. Markets of one family share a payload
/// shape although they share the channel names with the other families.
#[derive(Clone, Copy, Debug, PartialEq, Eq, Structural)]
pub enum Decoder {
    Spot,
    Inverse,
    Linear,
}

/// Trades are decoded by the family of the market.
pub open spec fn trade_decoder_of(market_type: MarketType) -> Decoder {
    match market_type {
        MarketType::Spot => Decoder::Spot,
        MarketType::InverseFuture | MarketType::InverseSwap => Decoder::Inverse,
        MarketType::LinearFuture | MarketType::LinearSwap | MarketType::EuropeanOption => {
            Decoder::Linear
        },
    }
}

/// Order books of every derivative market have the inverse shape.
pub open spec fn book_decoder_of(market_type: MarketType) -> Decoder {
    match market_type {
        MarketType::Spot => Decoder::Spot,
        _ => Decoder::Inverse,
    }
}

/// Funding rates exist on perpetual swaps and nowhere else.
pub open spec fn funding_rate_support(market_type: MarketType) -> Result<(), FeedError> {
    if market_type.is_swap() {
        Ok(())
    } else {
        Err(FeedError::UnsupportedOperation { exchange: Exchange::Huobi, market_type })
    }
}

/// The kind of a market-data channel. The tests are tried in this order
/// because the patterns overlap: a trade channel also ends in `detail`.
pub open spec fn kind_of_channel(ch: Seq<char>) -> MessageKind {
    if is_suffix(ch, "trade.detail"@) {
        MessageKind::Trade
    } else if is_suffix(ch, "depth.size_20.high_freq"@) || is_suffix(
        ch,
        "depth.size_150.high_freq"@,
    ) || is_suffix(ch, "mbp.20"@) {
        MessageKind::L2Event
    } else if is_infix(ch, ".depth.step"@) {
        MessageKind::L2TopK
    } else if is_suffix(ch, "bbo"@) {
        MessageKind::BBO
    } else if is_suffix(ch, "detail"@) {
        MessageKind::Ticker
    } else if is_infix(ch, ".kline."@) {
        MessageKind::Candlestick
    } else if is_suffix(ch, ".funding_rate"@) {
        MessageKind::FundingRate
    } else {
        MessageKind::Other
    }
}

/// The kind of a topic: funding rates are the only data sent under a topic.
pub open spec fn kind_of_topic(topic: Seq<char>) -> MessageKind {
    if is_suffix(topic, ".funding_rate"@) {
        MessageKind::FundingRate
    } else {
        MessageKind::Other
    }
}

pub open spec fn kind_of_envelope(envelope: EnvelopeText) -> MessageKind {
    match envelope {
        EnvelopeText::Channel(ch) => kind_of_channel(ch),
        EnvelopeText::Topic(topic) => kind_of_topic(topic),
    }
}

/// The envelope of a JSON value: its `ch` string, else its `topic` string.
pub open spec fn envelope_in(doc: Json) -> Option<EnvelopeText> {
    match text_member(doc, "ch"@) {
        Some(ch) => Some(EnvelopeText::Channel(ch)),
        None => match text_member(doc, "topic"@) {
            Some(topic) => Some(EnvelopeText::Topic(topic)),
            None => None,
        },
    }
}

/// The envelope of a raw message, `None` where the message is no JSON or
/// names neither a channel nor a topic.
pub open spec fn envelope_of(msg: Seq<char>) -> Option<EnvelopeText> {
    match json_document(msg) {
        Some(doc) => envelope_in(doc),
        None => None,
    }
}

/// The routing symbol is the second part of the channel or topic.
pub open spec fn symbol_in_route(route: Seq<char>) -> Option<Seq<char>> {
    field(route, ROUTE_SEPARATOR, 1)
}

/// A channel that ends in `trade.detail` also ends in `detail`, the ticker
/// pattern; it is classified as a trade all the same.
pub proof fn lemma_trade_wins_over_ticker(ch: Seq<char>)
    requires
        is_suffix(ch, "trade.detail"@),
    ensures
        is_suffix(ch, "detail"@),
        kind_of_channel(ch) == MessageKind::Trade,
{
    reveal_strlit("trade.detail");
    reveal_strlit("detail");
    let long = "trade.detail"@;
    let short = "detail"@;
    let start = ch.len() - long.len();
    assert forall|k: int| 0 <= k < short.len() implies ch.subrange(
        ch.len() - short.len(),
        ch.len() as int,
    )[k] == short[k] by {
        assert(ch.subrange(start, start + long.len())[k + 6] == long[k + 6]);
    }
    assert(ch.subrange(ch.len() - short.len(), ch.len() as int) =~= short);
}

/// A channel classified as a ticker ends in `detail` and is none of the
/// more specific channels that are tried before it.
pub proof fn lemma_ticker_is_nothing_more_specific(ch: Seq<char>)
    requires
        kind_of_channel(ch) == MessageKind::Ticker,
    ensures
        is_suffix(ch, "detail"@),
        !is_suffix(ch, "trade.detail"@),
        !is_suffix(ch, "depth.size_20.high_freq"@),
        !is_suffix(ch, "depth.size_150.high_freq"@),
        !is_suffix(ch, "mbp.20"@),
        !is_infix(ch, ".depth.step"@),
        !is_suffix(ch, "bbo"@),
{
}

/// Reads the envelope of a parsed message.
pub fn read_envelope(doc: &serde_json::Value) -> (r: Option<Envelope>)
    ensures
        r is Some <==> envelope_in(json_content(*doc)) is Some,
        r matches Some(e) ==> Some(e@) == envelope_in(json_content(*doc)),
{
    match read_text_member(doc, "ch") {
        Some(ch) => Some(Envelope::Channel(ch)),
        None => match read_text_member(doc, "topic") {
            Some(topic) => Some(Envelope::Topic(topic)),
            None => None,
        },
    }
}

/// Parses a raw message and reads its envelope.
pub fn parse_envelope(msg: &str) -> (r: Option<Envelope>)
    ensures
        r is Some <==> envelope_of(msg@) is Some,
        r matches Some(e) ==> Some(e@) == envelope_of(msg@),
{
    match parse_value(msg) {
        Some(doc) => read_envelope(&doc),
        None => None,
    }
}

/// Classifies a market-data channel.
pub fn channel_kind(ch: &str) -> (r: MessageKind)
    ensures
        r == kind_of_channel(ch@),
{
    let chars = chars_of(ch);
    if ends_with(&chars, "trade.detail") {
        MessageKind::Trade
    } else if ends_with(&chars, "depth.size_20.high_freq") || ends_with(
        &chars,
        "depth.size_150.high_freq",
    ) || ends_with(&chars, "mbp.20") {
        MessageKind::L2Event
    } else if contains(&chars, ".depth.step") {
        MessageKind::L2TopK
    } else if ends_with(&chars, "bbo") {
        MessageKind::BBO
    } else if ends_with(&chars, "detail") {
        MessageKind::Ticker
    } else if contains(&chars, ".kline.") {
        MessageKind::Candlestick
    } else if ends_with(&chars, ".funding_rate") {
        MessageKind::FundingRate
    } else {
        MessageKind::Other
    }
}

/// Classifies a topic.
pub fn topic_kind(topic: &str) -> (r: MessageKind)
    ensures
        r == kind_of_topic(topic@),
{
    let chars = chars_of(topic);
    if ends_with(&chars, ".funding_rate") {
        MessageKind::FundingRate
    } else {
        MessageKind::Other
    }
}

/// The kind of the message that carries `envelope`.
pub fn envelope_kind(envelope: &Envelope) -> (r: MessageKind)
    ensures
        r == kind_of_envelope(envelope@),
{
    match envelope {
        Envelope::Channel(ch) => channel_kind(ch.as_str()),
        Envelope::Topic(topic) => topic_kind(topic.as_str()),
    }
}

/// The routing symbol of the message that carries `envelope`. Fails where
/// the channel or topic has no second part.
pub fn envelope_symbol(envelope: &Envelope) -> (r: Result<String, FeedError>)
    ensures
        match symbol_in_route(envelope@.route()) {
            Some(symbol) => r matches Ok(found) && found@ == symbol,
            None => r == Err::<String, FeedError>(FeedError::MalformedMessage),
        },
{
    let route = match envelope {
        Envelope::Channel(ch) => ch.as_str(),
        Envelope::Topic(topic) => topic.as_str(),
    };
    match nth_field(route, ROUTE_SEPARATOR, 1) {
        Some(symbol) => Ok(symbol),
        None => Err(FeedError::MalformedMessage),
    }
}

/// Chooses the decoder of a trade message.
pub fn trade_decoder(market_type: MarketType) -> (r: Decoder)
    ensures
        r == trade_decoder_of(market_type),
{
    match market_type {
        MarketType::Spot => Decoder::Spot,
        MarketType::InverseFuture | MarketType::InverseSwap => Decoder::Inverse,
        MarketType::LinearFuture | MarketType::LinearSwap | MarketType::EuropeanOption => {
            Decoder::Linear
        },
    }
}

/// Chooses the decoder of an order-book message.
pub fn book_decoder(market_type: MarketType) -> (r: Decoder)
    ensures
        r == book_decoder_of(market_type),
{
    match market_type {
        MarketType::Spot => Decoder::Spot,
        MarketType::InverseFuture | MarketType::InverseSwap => Decoder::Inverse,
        MarketType::LinearFuture | MarketType::LinearSwap | MarketType::EuropeanOption => {
            Decoder::Inverse
        },
    }
}

/// Decides, before any payload is looked at, whether funding rates can be
/// decoded for a market type.
pub fn check_funding_rate(market_type: MarketType) -> (r: Result<(), FeedError>)
    ensures
        r == funding_rate_support(market_type),
        r is Ok <==> market_type.is_swap(),
{
    if market_type.has_funding_rate() {
        Ok(())
    } else {
        Err(FeedError::UnsupportedOperation { exchange: Exchange::Huobi, market_type })
    }
}

/// The kind of a raw message. A channel or topic that matches no known
/// pattern is `Other`, which is no error; a message without envelope is
/// malformed.
pub fn get_msg_type(msg: &str) -> (r: Result<MessageKind, FeedError>)
    ensures
        r == match envelope_of(msg@) {
            Some(envelope) => Ok::<MessageKind, FeedError>(kind_of_envelope(envelope)),
            None => Err::<MessageKind, FeedError>(FeedError::MalformedMessage),
        },
        json_document(msg@) is None ==> r == Err::<MessageKind, FeedError>(
            FeedError::MalformedMessage,
        ),
{
    match parse_envelope(msg) {
        Some(envelope) => Ok(envelope_kind(&envelope)),
        None => Err(FeedError::MalformedMessage),
    }
}

/// The routing symbol of a raw message. The market type plays no part:
/// every Huobi market names the symbol in the same place.
pub fn extract_symbol(_market_type: MarketType, msg: &str) -> (r: Result<String, FeedError>)
    ensures
        match envelope_of(msg@) {
            Some(envelope) => match symbol_in_route(envelope.route()) {
                Some(symbol) => r matches Ok(found) && found@ == symbol,
                None => r == Err::<String, FeedError>(FeedError::MalformedMessage),
            },
            None => r == Err::<String, FeedError>(FeedError::MalformedMessage),
        },
        json_document(msg@) is None ==> r == Err::<String, FeedError>(FeedError::MalformedMessage),
{
    match parse_envelope(msg) {
        Some(envelope) => envelope_symbol(&envelope),
        None => Err(FeedError::MalformedMessage),
    }
}

/// The kind and the routing symbol of a raw message, from one reading of it.
/// Fails where the message has no envelope, or its channel or topic has no
/// second part.
pub fn classify(_market_type: MarketType, msg: &str) -> (r: Result<
    (MessageKind, String),
    FeedError,
>)
    ensures
        match envelope_of(msg@) {
            Some(envelope) => match symbol_in_route(envelope.route()) {
                Some(symbol) => r matches Ok(found) && found.0 == kind_of_envelope(envelope)
                    && found.1@ == symbol,
                None => r == Err::<(MessageKind, String), FeedError>(FeedError::MalformedMessage),
            },
            None => r == Err::<(MessageKind, String), FeedError>(FeedError::MalformedMessage),
        },
        json_document(msg@) is None ==> r == Err::<(MessageKind, String), FeedError>(
            FeedError::MalformedMessage,
        ),
{
    match parse_envelope(msg) {
        Some(envelope) => match envelope_symbol(&envelope) {
            Ok(symbol) => Ok((envelope_kind(&envelope), symbol)),
            Err(error) => Err(error),
        },
        None => Err(FeedError::MalformedMessage),
    }
}

} // verus!
