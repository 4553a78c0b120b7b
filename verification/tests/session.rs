use crypto_feed::coinbase_pro::CoinbaseProWSClient;
use crypto_feed::model::FeedError;
use crypto_feed::session::{ConnectionState, Session};

fn owned(items: &[&str]) -> Vec<String> {
    items.iter().map(|s| s.to_string()).collect()
}

#[test]
fn test_new_session_is_disconnected_and_empty() {
    let session = Session::new();
    assert_eq!(ConnectionState::Disconnected, session.state());
    assert!(!session.is_closed());
    assert!(session.channels().is_empty());
}

#[test]
fn test_session_walks_through_its_states() {
    let mut session = Session::new();
    assert!(session.connect());
    assert_eq!(ConnectionState::Connecting, session.state());
    assert!(!session.connect());
    assert!(session.on_open().is_empty());
    assert_eq!(ConnectionState::Connected, session.state());
    assert_eq!(Ok(1), session.on_failure());
    assert_eq!(ConnectionState::Reconnecting, session.state());
    assert!(session.on_open().is_empty());
    assert_eq!(ConnectionState::Connected, session.state());
    session.close();
    assert_eq!(ConnectionState::Disconnected, session.state());
    assert!(session.is_closed());
}

#[test]
fn test_subscribe_while_connected_sends_the_new_tokens() {
    let mut session = Session::new();
    session.connect();
    session.on_open();
    assert_eq!(
        owned(&["matches:BTC-USD", "ticker:BTC-USD"]),
        session.subscribe(&owned(&["matches:BTC-USD", "ticker:BTC-USD"]))
    );
    assert_eq!(
        owned(&["matches:ETH-USD"]),
        session.subscribe(&owned(&["ticker:BTC-USD", "matches:ETH-USD", "matches:ETH-USD"]))
    );
    assert!(session.subscribe(&owned(&["matches:BTC-USD"])).is_empty());
    assert_eq!(
        &owned(&["matches:BTC-USD", "ticker:BTC-USD", "matches:ETH-USD"]),
        session.channels()
    );
}

#[test]
fn test_unsubscribe_while_connected_sends_the_removed_tokens() {
    let mut session = Session::new();
    session.connect();
    session.on_open();
    session.subscribe(&owned(&["a:1", "b:2", "c:3", "d:4"]));
    assert_eq!(
        owned(&["c:3", "a:1"]),
        session.unsubscribe(&owned(&["c:3", "x:9", "a:1", "c:3"]))
    );
    assert_eq!(&owned(&["b:2", "d:4"]), session.channels());
    assert!(session.unsubscribe(&owned(&["a:1"])).is_empty());
    assert!(session.unsubscribe(&owned(&["no delimiter"])).is_empty());
}

#[test]
fn test_requests_before_the_connection_are_replayed() {
    let mut session = Session::new();
    assert!(session.subscribe(&owned(&["a:1", "b:2"])).is_empty());
    assert!(session.unsubscribe(&owned(&["a:1"])).is_empty());
    assert!(session.subscribe(&owned(&["c:3"])).is_empty());
    assert_eq!(ConnectionState::Disconnected, session.state());
    session.connect();
    assert!(session.subscribe(&owned(&["d:4"])).is_empty());
    assert_eq!(owned(&["b:2", "c:3", "d:4"]), session.on_open());
}

#[test]
fn test_reconnect_replays_the_set_exactly() {
    let mut session = Session::new();
    session.connect();
    session.on_open();
    session.subscribe(&owned(&["a:1", "b:2", "a:1", "c:3"]));
    session.unsubscribe(&owned(&["b:2"]));
    let before = session.channels().clone();
    assert_eq!(owned(&["a:1", "c:3"]), before);
    assert_eq!(Ok(1), session.on_failure());
    assert_eq!(before, session.on_open());
    assert_eq!(&before, session.channels());
}

#[test]
fn test_requests_while_reconnecting_wait_for_the_replay() {
    let mut session = Session::new();
    session.connect();
    session.on_open();
    session.subscribe(&owned(&["a:1"]));
    session.on_failure();
    assert_eq!(ConnectionState::Reconnecting, session.state());
    assert!(session.subscribe(&owned(&["b:2"])).is_empty());
    assert!(session.unsubscribe(&owned(&["a:1"])).is_empty());
    assert_eq!(ConnectionState::Reconnecting, session.state());
    assert_eq!(owned(&["b:2"]), session.on_open());
}

#[test]
fn test_failures_are_counted_until_the_connection_stands() {
    let mut session = Session::new();
    session.connect();
    assert_eq!(Ok(1), session.on_failure());
    assert_eq!(Ok(2), session.on_failure());
    assert_eq!(Ok(3), session.on_failure());
    session.on_open();
    assert_eq!(Ok(1), session.on_failure());
}

#[test]
fn test_unbounded_by_default() {
    let mut session = Session::new();
    session.connect();
    for attempt in 1..=1000u64 {
        assert_eq!(Ok(attempt), session.on_failure());
    }
    assert_eq!(ConnectionState::Reconnecting, session.state());
    assert!(!session.is_closed());
}

#[test]
fn test_max_attempts_stops_recovery() {
    let mut session = Session::with_max_attempts(2);
    session.subscribe(&owned(&["a:1"]));
    session.connect();
    session.on_open();
    assert_eq!(Ok(1), session.on_failure());
    assert_eq!(Ok(2), session.on_failure());
    assert_eq!(Err(FeedError::TransportError), session.on_failure());
    assert_eq!(ConnectionState::Disconnected, session.state());
    assert!(session.is_closed());
    assert!(!session.connect());
    assert!(session.on_open().is_empty());
}

#[test]
fn test_zero_attempts_never_reconnects() {
    let mut session = Session::with_max_attempts(0);
    session.connect();
    session.on_open();
    assert_eq!(Err(FeedError::TransportError), session.on_failure());
    assert!(session.is_closed());
}

#[test]
fn test_close_is_terminal() {
    let mut session = Session::new();
    session.connect();
    session.on_open();
    session.subscribe(&owned(&["a:1"]));
    session.close();
    assert!(session.is_closed());
    assert!(!session.connect());
    assert_eq!(ConnectionState::Disconnected, session.state());
    assert!(session.on_open().is_empty());
    assert_eq!(ConnectionState::Disconnected, session.state());
    assert_eq!(Err(FeedError::TransportError), session.on_failure());
    assert_eq!(ConnectionState::Disconnected, session.state());
    assert!(session.subscribe(&owned(&["b:2"])).is_empty());
    assert!(session.unsubscribe(&owned(&["a:1"])).is_empty());
}

#[test]
fn test_failure_of_a_session_that_never_connected() {
    let mut session = Session::new();
    assert_eq!(Err(FeedError::TransportError), session.on_failure());
    assert_eq!(ConnectionState::Disconnected, session.state());
    assert!(!session.is_closed());
    assert!(session.connect());
}

#[test]
fn test_idle_session_is_legal() {
    let mut session = Session::new();
    session.connect();
    assert!(session.on_open().is_empty());
    session.on_failure();
    assert!(session.on_open().is_empty());
    assert_eq!(ConnectionState::Connected, session.state());
}

#[test]
fn test_client_subscribes_to_trades() {
    let mut client = CoinbaseProWSClient::new();
    client.connect();
    assert!(client.on_open().is_empty());
    assert_eq!(
        vec![
            r#"{"type":"subscribe","channels": [{"name":"matches","product_ids":["BTC-USD","ETH-USD"]}]}"#
                .to_string()
        ],
        client.subscribe_trade(&owned(&["BTC-USD", "ETH-USD"]))
    );
    assert_eq!(&owned(&["matches:BTC-USD", "matches:ETH-USD"]), client.channels());
}

#[test]
fn test_client_subscribes_to_tickers() {
    let mut client = CoinbaseProWSClient::new();
    client.connect();
    client.on_open();
    assert_eq!(
        vec![
            r#"{"type":"subscribe","channels": [{"name":"ticker","product_ids":["BTC-USD"]}]}"#
                .to_string()
        ],
        client.subscribe_ticker(&owned(&["BTC-USD"]))
    );
    assert_eq!(&owned(&["ticker:BTC-USD"]), client.channels());
}

#[test]
fn test_client_sends_only_what_is_new() {
    let mut client = CoinbaseProWSClient::new();
    client.connect();
    client.on_open();
    client.subscribe_trade(&owned(&["BTC-USD"]));
    assert_eq!(
        vec![
            r#"{"type":"subscribe","channels": [{"name":"matches","product_ids":["ETH-USD"]}]}"#
                .to_string()
        ],
        client.subscribe_trade(&owned(&["BTC-USD", "ETH-USD"]))
    );
    assert!(client.subscribe_trade(&owned(&["BTC-USD", "ETH-USD"])).is_empty());
    assert!(client.subscribe_trade(&owned(&[])).is_empty());
}

#[test]
fn test_client_unsubscribes() {
    let mut client = CoinbaseProWSClient::new();
    client.connect();
    client.on_open();
    client.subscribe(&owned(&["matches:BTC-USD", "ticker:BTC-USD", "matches:ETH-USD"]));
    assert_eq!(
        vec![
            r#"{"type":"unsubscribe","channels": [{"name":"matches","product_ids":["BTC-USD"]}]}"#
                .to_string()
        ],
        client.unsubscribe(&owned(&["matches:BTC-USD", "matches:LTC-USD"]))
    );
    assert_eq!(&owned(&["ticker:BTC-USD", "matches:ETH-USD"]), client.channels());
    assert!(client.unsubscribe(&owned(&["matches:BTC-USD"])).is_empty());
}

#[test]
fn test_client_buffers_until_connected() {
    let mut client = CoinbaseProWSClient::new();
    assert!(client.subscribe_trade(&owned(&["BTC-USD"])).is_empty());
    assert!(client.subscribe_ticker(&owned(&["BTC-USD"])).is_empty());
    assert!(client.connect());
    assert_eq!(
        vec![concat_all(&[
            r#"{"type":"subscribe","channels": ["#,
            r#"{"name":"matches","product_ids":["BTC-USD"]},"#,
            r#"{"name":"ticker","product_ids":["BTC-USD"]}"#,
            r#"]}"#,
        ])],
        client.on_open()
    );
    assert_eq!(ConnectionState::Connected, client.state());
}

fn concat_all(parts: &[&str]) -> String {
    parts.concat()
}

#[test]
fn test_client_replays_after_reconnect() {
    let mut client = CoinbaseProWSClient::new();
    client.connect();
    client.on_open();
    client.subscribe_trade(&owned(&["BTC-USD", "ETH-USD"]));
    client.subscribe_ticker(&owned(&["BTC-USD"]));
    client.unsubscribe(&owned(&["matches:ETH-USD"]));
    assert_eq!(Ok(1), client.on_failure());
    assert_eq!(ConnectionState::Reconnecting, client.state());
    assert!(client.subscribe_ticker(&owned(&["LTC-USD"])).is_empty());
    let replay = client.on_open();
    assert_eq!(
        vec![concat_all(&[
            r#"{"type":"subscribe","channels": ["#,
            r#"{"name":"matches","product_ids":["BTC-USD"]},"#,
            r#"{"name":"ticker","product_ids":["BTC-USD","LTC-USD"]}"#,
            r#"]}"#,
        ])],
        replay
    );
    assert_eq!(ConnectionState::Connected, client.state());
}

#[test]
fn test_client_delivers_data_frames_only() {
    let client = CoinbaseProWSClient::new();
    let data = r#"{"type":"match","trade_id":10,"price":"400.23"}"#;
    assert_eq!(Some(data), client.on_frame(data));
    assert_eq!(None, client.on_frame(r#"{"type":"heartbeat"}"#));
    assert_eq!(None, client.on_frame(r#"{"type":"subscriptions","channels":[]}"#));
    assert_eq!(None, client.on_frame(r#"{"type":"error","message":"x"}"#));
    assert_eq!(None, client.on_frame("garbage"));
}

#[test]
fn test_client_close_and_limit() {
    let mut client = CoinbaseProWSClient::with_max_attempts(1);
    client.subscribe_trade(&owned(&["BTC-USD"]));
    client.connect();
    client.on_open();
    assert_eq!(Ok(1), client.on_failure());
    assert_eq!(Err(FeedError::TransportError), client.on_failure());
    assert!(client.is_closed());
    assert!(client.on_open().is_empty());
    let mut other = CoinbaseProWSClient::new();
    other.connect();
    other.close();
    assert!(other.is_closed());
    assert_eq!(ConnectionState::Disconnected, other.state());
    assert!(!other.connect());
}
