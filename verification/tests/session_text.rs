use collector::binance;
use collector::bybit;
use collector::hyperliquid;
use collector::session::{
    ReconnectState, SessionAction, SessionEvent, SessionState, backoff_secs, session_step,
};
use collector::subscribe::{expand_templates, hyperliquid_subscriptions, join_with,
    subscribe_message};
use collector::text::{last_dot_segment, replace_all, to_lowercase, to_uppercase};

const NANOS_PER_SEC: i64 = 1_000_000_000;

#[test]
fn backoff_tiers_shadowing() {
    // The tiers are compared in ascending threshold order, so the broader
    // first tier shadows the later ones: one second for every count above
    // three, nothing below.
    assert_eq!(backoff_secs(0), 0);
    assert_eq!(backoff_secs(3), 0);
    assert_eq!(backoff_secs(4), 1);
    assert_eq!(backoff_secs(10), 1);
    assert_eq!(backoff_secs(11), 1);
    assert_eq!(backoff_secs(20), 1);
    assert_eq!(backoff_secs(21), 1);
    assert_eq!(backoff_secs(1000), 1);
}

#[test]
fn reconnect_counter_and_sleeps_for_scripted_failures() {
    let mut st = ReconnectState::new();
    let quick = 2 * NANOS_PER_SEC;
    // Four quick failures: counts 1..=4, sleep starts at the fifth attempt.
    assert_eq!(st.on_failure(quick), 0);
    assert_eq!(st.on_failure(quick), 0);
    assert_eq!(st.on_failure(quick), 0);
    assert_eq!(st.on_failure(quick), 1);
    assert_eq!(st.error_count, 4);
    assert_eq!(st.on_failure(quick), 1);
    // A connection that survived thirty seconds resets the count.
    assert_eq!(st.on_failure(30 * NANOS_PER_SEC), 0);
    assert_eq!(st.error_count, 0);
}

#[test]
fn session_forwards_text_frames() {
    let policy = binance::policy();
    let mut st = SessionState::new(0);
    match session_step(&policy, &mut st, SessionEvent::Text(b"payload".to_vec())) {
        SessionAction::Forward(p) => assert_eq!(p, b"payload".to_vec()),
        _ => panic!("expected a forward"),
    }
}

#[test]
fn ping_echo_resets_watchdog() {
    let policy = binance::policy();
    let mut st = SessionState::new(0);
    let now = 7 * NANOS_PER_SEC;
    match session_step(&policy, &mut st, SessionEvent::Ping { payload: b"p".to_vec(), now }) {
        SessionAction::Pong(p) => assert_eq!(p, b"p".to_vec()),
        _ => panic!("expected a pong"),
    }
    assert_eq!(st.last_ping, now);
}

#[test]
fn watchdog_fails_after_twenty_seconds_of_silence() {
    let policy = binance::policy();
    let mut st = SessionState::new(0);
    let fresh = session_step(&policy, &mut st, SessionEvent::Tick { now: 20 * NANOS_PER_SEC });
    assert!(matches!(fresh, SessionAction::Ignore));
    let stale = session_step(&policy, &mut st, SessionEvent::Tick {
        now: 20 * NANOS_PER_SEC + 1,
    });
    assert!(matches!(stale, SessionAction::FailTimeout));
}

#[test]
fn close_frame_fails_the_session() {
    let policy = bybit::policy();
    let mut st = SessionState::new(0);
    assert!(matches!(session_step(&policy, &mut st, SessionEvent::Close), SessionAction::FailClosed));
}

#[test]
fn proactive_ping_policies() {
    let bybit_policy = bybit::policy();
    let mut st = SessionState::new(0);
    match session_step(&bybit_policy, &mut st, SessionEvent::Tick { now: 1 }) {
        SessionAction::Send(m) => assert_eq!(m, r#"{"req_id": "ping", "op": "ping"}"#),
        _ => panic!("expected a ping"),
    }
    let hl_policy = hyperliquid::policy();
    match session_step(&hl_policy, &mut st, SessionEvent::Tick { now: 1 }) {
        SessionAction::Send(m) => assert_eq!(m, r#"{"method":"ping"}"#),
        _ => panic!("expected a ping"),
    }
    // This exchange does not echo pings.
    let act = session_step(&hl_policy, &mut st, SessionEvent::Ping {
        payload: b"p".to_vec(),
        now: 2,
    });
    assert!(matches!(act, SessionAction::Ignore));
}

#[test]
fn lowercase_is_idempotent_and_case_insensitive() {
    assert_eq!(to_lowercase("BTCUSDT"), "btcusdt");
    assert_eq!(to_lowercase("btcusdt"), "btcusdt");
    assert_eq!(to_lowercase(&to_lowercase("BtcUsdt")), to_lowercase("BtcUsdt"));
    assert_eq!(to_lowercase(&to_uppercase("btcUsdt")), to_lowercase("btcUsdt"));
    assert_eq!(to_uppercase("btcusdt"), "BTCUSDT");
}

#[test]
fn memo_matches_naive_recompute() {
    let mut memo = collector::text::SymbolMemo::new();
    for raw in ["BTCUSDT", "BTCUSDT", "ETHusdt", "BTCUSDT", "SOL"] {
        assert_eq!(memo.canonical(raw), to_lowercase(raw));
    }
}

#[test]
fn topic_symbol_extraction() {
    assert_eq!(last_dot_segment("orderbook.50.BTCUSDT"), "BTCUSDT");
    assert_eq!(last_dot_segment("publicTrade.ETHUSDT"), "ETHUSDT");
    assert_eq!(last_dot_segment("nodots"), "nodots");
}

#[test]
fn template_substitution() {
    assert_eq!(replace_all("orderbook.50.$symbol", "$symbol", "BTCUSDT"), "orderbook.50.BTCUSDT");
    assert_eq!(replace_all("$symbol@depth", "$symbol", "btcusdt"), "btcusdt@depth");
    assert_eq!(replace_all("no placeholder", "$symbol", "x"), "no placeholder");
}

#[test]
fn binance_stream_url_multiplexes_all_combinations() {
    let streams = vec!["$symbol@depth@100ms".to_string(), "$symbol@trade".to_string()];
    let symbols = vec!["BTCUSDT".to_string(), "ETHUSDT".to_string()];
    let url = collector::subscribe::binance_stream_url(&streams, &symbols);
    assert_eq!(
        url,
        "wss://stream.binance.com:9443/stream?streams=btcusdt@depth@100ms/btcusdt@trade/ethusdt@depth@100ms/ethusdt@trade"
    );
}

#[test]
fn bybit_subscribe_message_lists_expanded_topics() {
    let topics = vec!["orderbook.50.$symbol".to_string(), "publicTrade.$symbol".to_string()];
    let symbols = vec!["btcusdt".to_string()];
    let expanded = expand_templates(&topics, &symbols, true);
    assert_eq!(expanded, vec!["orderbook.50.BTCUSDT", "publicTrade.BTCUSDT"]);
    let msg = subscribe_message(&expanded);
    assert_eq!(
        msg,
        r#"{"req_id": "subscribe", "op": "subscribe", "args": ["orderbook.50.BTCUSDT","publicTrade.BTCUSDT"]}"#
    );
}

#[test]
fn hyperliquid_subscription_messages() {
    let types = vec!["l2Book".to_string(), "trades".to_string()];
    let symbols = vec!["BTC".to_string()];
    let subs = hyperliquid_subscriptions(&types, &symbols);
    assert_eq!(subs, vec![
        r#"{"method":"subscribe","subscription":{"type":"l2Book","coin":"BTC"}}"#,
        r#"{"method":"subscribe","subscription":{"type":"trades","coin":"BTC"}}"#,
    ]);
}

#[test]
fn join_with_separator() {
    let parts = vec!["a".to_string(), "b".to_string(), "c".to_string()];
    assert_eq!(join_with(&parts, "/"), "a/b/c");
    assert_eq!(join_with(&vec!["solo".to_string()], "/"), "solo");
    assert_eq!(join_with(&Vec::new(), "/"), "");
}

#[test]
fn snapshot_url_for_symbol() {
    assert_eq!(
        binance::snapshot_url("BTCUSDT"),
        "https://api.binance.com/api/v3/depth?symbol=BTCUSDT&limit=1000"
    );
}
