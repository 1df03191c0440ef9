use collector::binance;
use collector::bybit;
use collector::error::ConnectorError;
use collector::gap::CursorMap;
use collector::hyperliquid;
use collector::text::SymbolMemo;

fn bytes(s: &str) -> Vec<u8> {
    s.as_bytes().to_vec()
}

#[test]
fn first_update_without_cursor_gaps() {
    let mut cursors = CursorMap::new();
    let gap = cursors.observe("BTCUSDT", 101, 105);
    assert!(gap);
    assert_eq!(cursors.cursor_of("BTCUSDT"), Some(105));
}

#[test]
fn depth_scenario_cursor_and_resyncs() {
    let mut cursors = CursorMap::new();
    assert!(cursors.observe("BTCUSDT", 101, 105));
    assert_eq!(cursors.cursor_of("BTCUSDT"), Some(105));
    assert!(!cursors.observe("BTCUSDT", 106, 110));
    assert_eq!(cursors.cursor_of("BTCUSDT"), Some(110));
    assert!(cursors.observe("BTCUSDT", 115, 120));
    assert_eq!(cursors.cursor_of("BTCUSDT"), Some(120));
}

#[test]
fn consecutive_updates_never_resync() {
    let mut cursors = CursorMap::new();
    cursors.observe("ETHUSDT", 1, 10);
    let mut first = 11;
    for step in 0..50 {
        let last = first + step;
        assert!(!cursors.observe("ETHUSDT", first, last));
        first = last + 1;
    }
}

#[test]
fn cursors_are_per_symbol() {
    let mut cursors = CursorMap::new();
    assert!(cursors.observe("AAA", 1, 5));
    assert!(cursors.observe("BBB", 1, 7));
    assert!(!cursors.observe("AAA", 6, 9));
    assert!(!cursors.observe("BBB", 8, 11));
    assert_eq!(cursors.cursor_of("AAA"), Some(9));
    assert_eq!(cursors.cursor_of("BBB"), Some(11));
    assert_eq!(cursors.cursor_of("CCC"), None);
}

#[test]
fn binance_depth_update_triggers_resync_once() {
    let mut cursors = CursorMap::new();
    let mut memo = SymbolMemo::new();
    let m1 = bytes(r#"{"stream":"btcusdt@depth","data":{"e":"depthUpdate","s":"BTCUSDT","U":101,"u":105}}"#);
    let o1 = binance::handle_message(&mut cursors, &mut memo, 1, m1.clone()).unwrap();
    assert_eq!(o1.resync.as_deref(), Some("BTCUSDT"));
    let rec = o1.record.unwrap();
    assert_eq!(rec.symbol, "btcusdt");
    assert_eq!(rec.recv_time, 1);
    assert_eq!(rec.payload, m1);
    assert_eq!(cursors.cursor_of("BTCUSDT"), Some(105));

    let m2 = bytes(r#"{"data":{"e":"depthUpdate","s":"BTCUSDT","U":106,"u":110}}"#);
    let o2 = binance::handle_message(&mut cursors, &mut memo, 2, m2).unwrap();
    assert!(o2.resync.is_none());
    assert!(o2.record.is_some());
    assert_eq!(cursors.cursor_of("BTCUSDT"), Some(110));

    let m3 = bytes(r#"{"data":{"e":"depthUpdate","s":"BTCUSDT","U":115,"u":120}}"#);
    let o3 = binance::handle_message(&mut cursors, &mut memo, 3, m3).unwrap();
    assert_eq!(o3.resync.as_deref(), Some("BTCUSDT"));
    assert_eq!(cursors.cursor_of("BTCUSDT"), Some(120));
}

#[test]
fn binance_non_depth_event_forwards_without_resync() {
    let mut cursors = CursorMap::new();
    let mut memo = SymbolMemo::new();
    let m = bytes(r#"{"data":{"e":"trade","s":"ETHUSDT","p":"123.45"}}"#);
    let o = binance::handle_message(&mut cursors, &mut memo, 7, m).unwrap();
    assert!(o.resync.is_none());
    assert_eq!(o.record.unwrap().symbol, "ethusdt");
    assert_eq!(cursors.cursor_of("ETHUSDT"), None);
}

#[test]
fn binance_envelope_without_symbol_is_ignored() {
    let mut cursors = CursorMap::new();
    let mut memo = SymbolMemo::new();
    let o = binance::handle_message(&mut cursors, &mut memo, 7, bytes(r#"{"result":null,"id":1}"#))
        .unwrap();
    assert!(o.record.is_none());
    assert!(o.resync.is_none());
}

#[test]
fn binance_depth_update_missing_ids_is_format_error() {
    let mut cursors = CursorMap::new();
    let mut memo = SymbolMemo::new();
    let m = bytes(r#"{"data":{"e":"depthUpdate","s":"BTCUSDT","U":101}}"#);
    let e = binance::handle_message(&mut cursors, &mut memo, 1, m).unwrap_err();
    assert_eq!(e, ConnectorError::FormatError);
}

#[test]
fn binance_malformed_payload_is_serde_error() {
    let mut cursors = CursorMap::new();
    let mut memo = SymbolMemo::new();
    let e = binance::handle_message(&mut cursors, &mut memo, 1, bytes("{not json")).unwrap_err();
    assert_eq!(e, ConnectorError::SerdeError);
}

#[test]
fn bybit_topic_symbol_is_last_dot_segment() {
    let mut memo = SymbolMemo::new();
    let m = bytes(r#"{"topic":"orderbook.50.BTCUSDT","type":"delta","data":{}}"#);
    let rec = bybit::handle_message(&mut memo, 5, m.clone()).unwrap().unwrap();
    assert_eq!(rec.symbol, "btcusdt");
    assert_eq!(rec.recv_time, 5);
    assert_eq!(rec.payload, m);
}

#[test]
fn bybit_subscribe_ack_is_ignored() {
    let mut memo = SymbolMemo::new();
    let m = bytes(r#"{"op":"subscribe","success":true,"req_id":"subscribe"}"#);
    assert!(bybit::handle_message(&mut memo, 5, m).unwrap().is_none());
}

#[test]
fn bybit_malformed_payload_is_serde_error() {
    let mut memo = SymbolMemo::new();
    let e = bybit::handle_message(&mut memo, 5, bytes("]]")).unwrap_err();
    assert_eq!(e, ConnectorError::SerdeError);
}

#[test]
fn hyperliquid_trades_first_coin() {
    let mut memo = SymbolMemo::new();
    let m = bytes(r#"{"channel":"trades","data":[{"coin":"ETH","px":"3000.1"}]}"#);
    let rec = hyperliquid::handle_message(&mut memo, 9, m.clone()).unwrap().unwrap();
    assert_eq!(rec.symbol, "eth");
    assert_eq!(rec.payload, m);
}

#[test]
fn hyperliquid_empty_trades_ignored() {
    let mut memo = SymbolMemo::new();
    let m = bytes(r#"{"channel":"trades","data":[]}"#);
    assert!(hyperliquid::handle_message(&mut memo, 9, m).unwrap().is_none());
}

#[test]
fn hyperliquid_control_channels_ignored() {
    let mut memo = SymbolMemo::new();
    for payload in [
        r#"{"channel":"heartbeat"}"#,
        r#"{"channel":"subscriptionResponse","data":{"coin":"X"}}"#,
        r#"{"channel":"pong"}"#,
    ] {
        assert!(hyperliquid::handle_message(&mut memo, 9, bytes(payload)).unwrap().is_none());
    }
}

#[test]
fn hyperliquid_book_channels_read_data_coin() {
    let mut memo = SymbolMemo::new();
    let m = bytes(r#"{"channel":"l2Book","data":{"coin":"BTC","levels":[]}}"#);
    assert_eq!(hyperliquid::handle_message(&mut memo, 9, m).unwrap().unwrap().symbol, "btc");
    let m = bytes(r#"{"channel":"bbo","data":{"coin":"SOL"}}"#);
    assert_eq!(hyperliquid::handle_message(&mut memo, 9, m).unwrap().unwrap().symbol, "sol");
}

#[test]
fn hyperliquid_book_channel_missing_coin_is_format_error() {
    let mut memo = SymbolMemo::new();
    let m = bytes(r#"{"channel":"l2Book","data":{"levels":[]}}"#);
    assert_eq!(
        hyperliquid::handle_message(&mut memo, 9, m).unwrap_err(),
        ConnectorError::FormatError
    );
}

#[test]
fn hyperliquid_missing_channel_is_format_error() {
    let mut memo = SymbolMemo::new();
    let m = bytes(r#"{"data":{"coin":"BTC"}}"#);
    assert_eq!(
        hyperliquid::handle_message(&mut memo, 9, m).unwrap_err(),
        ConnectorError::FormatError
    );
}

#[test]
fn hyperliquid_trades_data_not_array_is_format_error() {
    let mut memo = SymbolMemo::new();
    let m = bytes(r#"{"channel":"trades","data":{"coin":"BTC"}}"#);
    assert_eq!(
        hyperliquid::handle_message(&mut memo, 9, m).unwrap_err(),
        ConnectorError::FormatError
    );
}

#[test]
fn hyperliquid_other_channel_optional_coin() {
    let mut memo = SymbolMemo::new();
    let m = bytes(r#"{"channel":"candle","data":{"coin":"SOL"}}"#);
    assert_eq!(hyperliquid::handle_message(&mut memo, 9, m).unwrap().unwrap().symbol, "sol");
    let m = bytes(r#"{"channel":"candle","data":{"interval":"1m"}}"#);
    assert!(hyperliquid::handle_message(&mut memo, 9, m).unwrap().is_none());
}

#[test]
fn hyperliquid_malformed_payload_is_serde_error() {
    let mut memo = SymbolMemo::new();
    let e = hyperliquid::handle_message(&mut memo, 9, vec![0xff, 0xfe]).unwrap_err();
    assert_eq!(e, ConnectorError::SerdeError);
}
