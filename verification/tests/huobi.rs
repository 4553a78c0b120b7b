use crypto_feed::huobi::{
    book_decoder, channel_kind, check_funding_rate, classify, envelope_kind, envelope_symbol,
    extract_symbol, get_msg_type, parse_envelope, topic_kind, trade_decoder, Decoder, Envelope,
};
use crypto_feed::model::{Exchange, FeedError, MarketType, MessageKind};

const ALL_MARKET_TYPES: [MarketType; 6] = [
    MarketType::Spot,
    MarketType::InverseFuture,
    MarketType::InverseSwap,
    MarketType::LinearFuture,
    MarketType::LinearSwap,
    MarketType::EuropeanOption,
];

#[test]
fn test_channel_kinds() {
    assert_eq!(MessageKind::Trade, channel_kind("market.btcusdt.trade.detail"));
    assert_eq!(MessageKind::Trade, channel_kind("market.BTC-USD.trade.detail"));
    assert_eq!(
        MessageKind::L2Event,
        channel_kind("market.BTC-USD.depth.size_20.high_freq")
    );
    assert_eq!(
        MessageKind::L2Event,
        channel_kind("market.BTC_CW.depth.size_150.high_freq")
    );
    assert_eq!(MessageKind::L2Event, channel_kind("market.btcusdt.mbp.20"));
    assert_eq!(MessageKind::L2TopK, channel_kind("market.btcusdt.depth.step0"));
    assert_eq!(MessageKind::L2TopK, channel_kind("market.BTC-USD.depth.step7"));
    assert_eq!(MessageKind::BBO, channel_kind("market.btcusdt.bbo"));
    assert_eq!(MessageKind::Ticker, channel_kind("market.btcusdt.detail"));
    assert_eq!(MessageKind::Candlestick, channel_kind("market.btcusdt.kline.1min"));
    assert_eq!(MessageKind::FundingRate, channel_kind("market.BTC-USD.funding_rate"));
    assert_eq!(MessageKind::Other, channel_kind("market.btcusdt.etp"));
    assert_eq!(MessageKind::Other, channel_kind(""));
}

#[test]
fn test_trade_channel_is_not_a_ticker() {
    assert!("market.btcusdt.trade.detail".ends_with("detail"));
    assert_eq!(MessageKind::Trade, channel_kind("market.btcusdt.trade.detail"));
    assert_eq!(MessageKind::Trade, channel_kind("trade.detail"));
    assert_eq!(MessageKind::Ticker, channel_kind("rade.detail"));
    assert_eq!(MessageKind::Ticker, channel_kind("detail"));
}

#[test]
fn test_earlier_pattern_wins() {
    // a top-k channel that also ends in `bbo` or `detail`
    assert_eq!(MessageKind::L2TopK, channel_kind("market.x.depth.step0.bbo"));
    assert_eq!(MessageKind::L2TopK, channel_kind("market.x.depth.step0.detail"));
    // an incremental channel wins over the top-k pattern
    assert_eq!(MessageKind::L2Event, channel_kind("market.x.depth.step0.mbp.20"));
    // a best-bid-offer channel wins over a candlestick pattern
    assert_eq!(MessageKind::BBO, channel_kind("market.x.kline.bbo"));
    // a ticker wins over a candlestick pattern
    assert_eq!(MessageKind::Ticker, channel_kind("market.x.kline.detail"));
    // a candlestick wins over the funding rate suffix
    assert_eq!(MessageKind::Candlestick, channel_kind("market.x.kline.1min.funding_rate"));
}

#[test]
fn test_topic_kinds() {
    assert_eq!(MessageKind::FundingRate, topic_kind("public.BTC-USD.funding_rate"));
    assert_eq!(MessageKind::Other, topic_kind("public.BTC-USD.liquidation_orders"));
    assert_eq!(MessageKind::Other, topic_kind("market.btcusdt.trade.detail"));
    assert_eq!(MessageKind::Other, topic_kind("funding_rate"));
}

#[test]
fn test_parse_envelope() {
    assert_eq!(
        Some(Envelope::Channel("market.btcusdt.bbo".to_string())),
        parse_envelope(r#"{"ch":"market.btcusdt.bbo","ts":1630000000000,"tick":{}}"#)
    );
    assert_eq!(
        Some(Envelope::Topic("public.BTC-USD.funding_rate".to_string())),
        parse_envelope(r#"{"op":"notify","topic":"public.BTC-USD.funding_rate","ts":1,"data":[]}"#)
    );
    // the channel is looked for first
    assert_eq!(
        Some(Envelope::Channel("a.b".to_string())),
        parse_envelope(r#"{"topic":"c.d","ch":"a.b"}"#)
    );
    // a channel that is no string does not count
    assert_eq!(
        Some(Envelope::Topic("c.d".to_string())),
        parse_envelope(r#"{"topic":"c.d","ch":5}"#)
    );
    assert_eq!(None, parse_envelope(r#"{"ts":1}"#));
    assert_eq!(None, parse_envelope(r#"["ch","a.b"]"#));
    assert_eq!(None, parse_envelope("ch"));
}

#[test]
fn test_envelope_kind_and_symbol() {
    let trade = Envelope::Channel("market.btcusdt.trade.detail".to_string());
    assert_eq!(MessageKind::Trade, envelope_kind(&trade));
    assert_eq!(Ok("btcusdt".to_string()), envelope_symbol(&trade));
    let funding = Envelope::Topic("public.BTC-USD.funding_rate".to_string());
    assert_eq!(MessageKind::FundingRate, envelope_kind(&funding));
    assert_eq!(Ok("BTC-USD".to_string()), envelope_symbol(&funding));
    // what is a trade channel is no trade topic
    let odd = Envelope::Topic("market.btcusdt.trade.detail".to_string());
    assert_eq!(MessageKind::Other, envelope_kind(&odd));
    let short = Envelope::Channel("market".to_string());
    assert_eq!(Err(FeedError::MalformedMessage), envelope_symbol(&short));
    let empty_symbol = Envelope::Channel("market..bbo".to_string());
    assert_eq!(Ok(String::new()), envelope_symbol(&empty_symbol));
}

#[test]
fn test_get_msg_type() {
    assert_eq!(
        Ok(MessageKind::Trade),
        get_msg_type(
            r#"{"ch":"market.btcusdt.trade.detail","ts":1616243199157,"tick":{"id":123,"ts":1616243199156,"data":[{"id":1,"ts":1616243199156,"tradeId":102357140867,"amount":1.98E-4,"price":58911.07,"direction":"sell"}]}}"#
        )
    );
    assert_eq!(
        Ok(MessageKind::L2Event),
        get_msg_type(r#"{"ch":"market.BTC-USD.depth.size_20.high_freq","tick":{"asks":[],"bids":[]},"ts":1622707662707}"#)
    );
    assert_eq!(
        Ok(MessageKind::L2TopK),
        get_msg_type(r#"{"ch":"market.btcusdt.depth.step1","ts":1,"tick":{}}"#)
    );
    assert_eq!(
        Ok(MessageKind::BBO),
        get_msg_type(r#"{"ch":"market.btcusdt.bbo","ts":1,"tick":{}}"#)
    );
    assert_eq!(
        Ok(MessageKind::Ticker),
        get_msg_type(r#"{"ch":"market.btcusdt.detail","ts":1,"tick":{}}"#)
    );
    assert_eq!(
        Ok(MessageKind::Candlestick),
        get_msg_type(r#"{"ch":"market.btcusdt.kline.1min","ts":1,"tick":{}}"#)
    );
    assert_eq!(
        Ok(MessageKind::FundingRate),
        get_msg_type(r#"{"op":"notify","topic":"public.BTC-USD.funding_rate","ts":1617309842839,"data":[{"symbol":"BTC","contract_code":"BTC-USD","fee_asset":"BTC","funding_time":"1617309840000","funding_rate":"0.000624180443735412","estimated_rate":"0.000807958330658808","settlement_time":"1617321600000"}]}"#)
    );
    assert_eq!(
        Ok(MessageKind::Other),
        get_msg_type(r#"{"op":"notify","topic":"public.BTC-USD.liquidation_orders","ts":1,"data":[]}"#)
    );
    assert_eq!(
        Ok(MessageKind::Other),
        get_msg_type(r#"{"ch":"market.btcusdt.unknown","ts":1,"tick":{}}"#)
    );
}

#[test]
fn test_get_msg_type_of_malformed_input() {
    assert_eq!(Err(FeedError::MalformedMessage), get_msg_type(""));
    assert_eq!(Err(FeedError::MalformedMessage), get_msg_type("not json"));
    assert_eq!(
        Err(FeedError::MalformedMessage),
        get_msg_type(r#"{"ch":"market.btcusdt.trade.detail","ts":16162431"#)
    );
    assert_eq!(Err(FeedError::MalformedMessage), get_msg_type(r#"{"ping":1616243199157}"#));
    assert_eq!(Err(FeedError::MalformedMessage), get_msg_type("[]"));
    assert_eq!(Err(FeedError::MalformedMessage), get_msg_type(r#"{"ch":null}"#));
}

#[test]
fn test_extract_symbol() {
    for market_type in ALL_MARKET_TYPES {
        assert_eq!(
            Ok("btcusdt".to_string()),
            extract_symbol(
                market_type,
                r#"{"ch":"market.btcusdt.trade.detail","ts":1616243199157,"tick":{}}"#
            )
        );
    }
    assert_eq!(
        Ok("BTC-USD".to_string()),
        extract_symbol(
            MarketType::InverseSwap,
            r#"{"ch":"market.BTC-USD.depth.size_20.high_freq","tick":{},"ts":1}"#
        )
    );
    assert_eq!(
        Ok("BTC_CW".to_string()),
        extract_symbol(MarketType::InverseFuture, r#"{"ch":"market.BTC_CW.bbo","ts":1,"tick":{}}"#)
    );
    assert_eq!(
        Ok("BTC-USD".to_string()),
        extract_symbol(
            MarketType::InverseSwap,
            r#"{"op":"notify","topic":"public.BTC-USD.funding_rate","ts":1,"data":[]}"#
        )
    );
}

#[test]
fn test_extract_symbol_fails_explicitly() {
    assert_eq!(
        Err(FeedError::MalformedMessage),
        extract_symbol(MarketType::Spot, r#"{"ch":"market","ts":1,"tick":{}}"#)
    );
    assert_eq!(
        Err(FeedError::MalformedMessage),
        extract_symbol(MarketType::Spot, r#"{"ch":"","ts":1,"tick":{}}"#)
    );
    assert_eq!(
        Err(FeedError::MalformedMessage),
        extract_symbol(MarketType::Spot, r#"{"ts":1,"tick":{}}"#)
    );
    assert_eq!(Err(FeedError::MalformedMessage), extract_symbol(MarketType::Spot, "garbage"));
    assert_eq!(
        Err(FeedError::MalformedMessage),
        extract_symbol(MarketType::Spot, r#"{"ch":"market.btcusdt.trade.detail""#)
    );
}

#[test]
fn test_classification_is_repeatable() {
    let msg = r#"{"ch":"market.btcusdt.trade.detail","ts":1616243199157,"tick":{}}"#;
    let first = (get_msg_type(msg), extract_symbol(MarketType::Spot, msg));
    let second = (get_msg_type(msg), extract_symbol(MarketType::Spot, msg));
    assert_eq!(first, second);
    assert_eq!((Ok(MessageKind::Trade), Ok("btcusdt".to_string())), first);
    let bad = "{";
    assert_eq!(
        (get_msg_type(bad), extract_symbol(MarketType::Spot, bad)),
        (get_msg_type(bad), extract_symbol(MarketType::Spot, bad))
    );
}

#[test]
fn test_trade_decoder() {
    assert_eq!(Decoder::Spot, trade_decoder(MarketType::Spot));
    assert_eq!(Decoder::Inverse, trade_decoder(MarketType::InverseFuture));
    assert_eq!(Decoder::Inverse, trade_decoder(MarketType::InverseSwap));
    assert_eq!(Decoder::Linear, trade_decoder(MarketType::LinearFuture));
    assert_eq!(Decoder::Linear, trade_decoder(MarketType::LinearSwap));
    assert_eq!(Decoder::Linear, trade_decoder(MarketType::EuropeanOption));
}

#[test]
fn test_book_decoder() {
    assert_eq!(Decoder::Spot, book_decoder(MarketType::Spot));
    assert_eq!(Decoder::Inverse, book_decoder(MarketType::InverseFuture));
    assert_eq!(Decoder::Inverse, book_decoder(MarketType::InverseSwap));
    assert_eq!(Decoder::Inverse, book_decoder(MarketType::LinearFuture));
    assert_eq!(Decoder::Inverse, book_decoder(MarketType::LinearSwap));
    assert_eq!(Decoder::Inverse, book_decoder(MarketType::EuropeanOption));
}

#[test]
fn test_funding_rate_only_on_swaps() {
    assert_eq!(Ok(()), check_funding_rate(MarketType::InverseSwap));
    assert_eq!(Ok(()), check_funding_rate(MarketType::LinearSwap));
    for market_type in [
        MarketType::Spot,
        MarketType::InverseFuture,
        MarketType::LinearFuture,
        MarketType::EuropeanOption,
    ] {
        assert_eq!(
            Err(FeedError::UnsupportedOperation { exchange: Exchange::Huobi, market_type }),
            check_funding_rate(market_type)
        );
    }
}

#[test]
fn test_classify() {
    assert_eq!(
        Ok((MessageKind::Trade, "BTC-USDT".to_string())),
        classify(
            MarketType::LinearSwap,
            r#"{"ch":"market.BTC-USDT.trade.detail","ts":1616233478594,"tick":{"id":17255732121,"ts":1616233478583,"data":[{"amount":2,"ts":1616233478583,"id":172557321210000,"price":58766.9,"direction":"buy"}]}}"#
        )
    );
    assert_eq!(
        Ok((MessageKind::FundingRate, "BTC-USD".to_string())),
        classify(
            MarketType::InverseSwap,
            r#"{"op":"notify","topic":"public.BTC-USD.funding_rate","ts":1,"data":[]}"#
        )
    );
    assert_eq!(
        Ok((MessageKind::Other, "btcusdt".to_string())),
        classify(MarketType::Spot, r#"{"ch":"market.btcusdt.unknown"}"#)
    );
    assert_eq!(
        Err(FeedError::MalformedMessage),
        classify(MarketType::Spot, r#"{"ch":"detail"}"#)
    );
    assert_eq!(Err(FeedError::MalformedMessage), classify(MarketType::Spot, r#"{"ch":"mar"#));
    assert_eq!(Err(FeedError::MalformedMessage), classify(MarketType::Spot, "ping"));
    let msg = r#"{"ch":"market.btcusdt.bbo","ts":1,"tick":{}}"#;
    assert_eq!(classify(MarketType::Spot, msg), classify(MarketType::Spot, msg));
}
