use netover::config::AppConfig;
use netover::ws::{frame_to_send, message_of_frame, Message, WebSocketSessionError, WsFrame};

#[test]
fn default_server() {
    let c = AppConfig::default();
    assert_eq!(c.server_url, "ws://localhost:3000");
    assert_eq!(c.pairing_url(), "ws://localhost:3000/ws/pairing/remote");
    assert_eq!(c.launch_url(), "ws://localhost:3000/ws/launch/target");
}

#[test]
fn configured_server() {
    let c = AppConfig { server_url: "wss://relay.example.org".to_string() };
    assert_eq!(c.clone().pairing_url(), "wss://relay.example.org/ws/pairing/remote");
    assert_eq!(c.launch_url(), "wss://relay.example.org/ws/launch/target");
}

#[test]
fn what_is_sent() {
    assert!(matches!(frame_to_send(Message::Message("hi".to_string())), Some(WsFrame::Text(ref t)) if t == "hi"));
    assert!(matches!(frame_to_send(Message::Close), Some(WsFrame::Close)));
    assert!(frame_to_send(Message::Connected).is_none());
    assert!(frame_to_send(Message::Error("e".to_string())).is_none());
}

#[test]
fn what_is_received() {
    assert!(matches!(
        message_of_frame(Ok(WsFrame::Text("{}".to_string()))),
        Some(Message::Message(ref t)) if t == "{}"
    ));
    assert!(message_of_frame(Ok(WsFrame::Binary(vec![1, 2]))).is_none());
    assert!(message_of_frame(Ok(WsFrame::Ping)).is_none());
    assert!(message_of_frame(Ok(WsFrame::Pong)).is_none());
    assert!(message_of_frame(Ok(WsFrame::Close)).is_none());
    assert!(message_of_frame(Ok(WsFrame::Raw)).is_none());
    assert!(matches!(message_of_frame(Err("reset".to_string())), Some(Message::Error(ref e)) if e == "reset"));
}

#[test]
fn message_clone_and_errors() {
    let m = Message::Error("x".to_string());
    assert!(matches!(m.clone(), Message::Error(ref e) if e == "x"));
    let e = WebSocketSessionError::AlreadyClosed;
    assert_eq!(format!("{:?}", e), "AlreadyClosed");
}

use netover::signal::{
    accept_message, accept_offer_message, cancel_message, deny_message, ice_candidate_message, init_message,
    init_remote_message, queryverify_message,
};
use serde_json::Value;

fn object(members: Vec<(&str, Value)>) -> Value {
    let mut m = serde_json::Map::new();
    for (k, v) in members {
        m.insert(k.to_string(), v);
    }
    Value::Object(m)
}

fn parsed(text: &str) -> Value {
    serde_json::from_str(text).expect("valid JSON")
}

#[test]
fn fixed_signals() {
    assert_eq!(deny_message(), "{\"type\":\"deny\"}");
    assert_eq!(accept_message(), "{\"type\":\"accept\"}");
    assert_eq!(cancel_message(), "{\"type\":\"cancel\"}");
}

#[test]
fn challenge_signal_carries_the_nonce() {
    let mut nonce = [0u8; 32];
    for (i, b) in nonce.iter_mut().enumerate() {
        *b = (i * 8) as u8;
    }
    let text = queryverify_message(&nonce);
    assert!(text.starts_with("{\"type\":\"queryverify\",\"nonce\":[0,8,16,24,"));
    assert!(text.ends_with(",240,248]}"));
    let expected = object(vec![
        ("type", Value::from("queryverify")),
        ("nonce", Value::from(nonce.to_vec())),
    ]);
    assert_eq!(parsed(&text), expected);
}

#[test]
fn pairing_init_signal_carries_the_public_key() {
    let key = [255u8; 32];
    let text = init_remote_message(&key);
    let expected = object(vec![("type", Value::from("init_remote")), ("pub", Value::from(key.to_vec()))]);
    assert_eq!(parsed(&text), expected);
}

#[test]
fn launch_init_signal_lists_the_ids() {
    let text = init_message(&vec!["ABCDEF".to_string(), "GH\"I\\J\n".to_string()]);
    assert_eq!(text, "{\"type\":\"init\",\"keys\":[\"ABCDEF\",\"GH\\\"I\\\\J\\n\"]}");
    let expected = object(vec![
        ("type", Value::from("init")),
        ("keys", Value::from(vec!["ABCDEF".to_string(), "GH\"I\\J\n".to_string()])),
    ]);
    assert_eq!(parsed(&text), expected);
    assert_eq!(init_message(&vec![]), "{\"type\":\"init\",\"keys\":[]}");
}

#[test]
fn offer_and_candidate_signals() {
    let sdp = "v=0\r\no=- 1 2 IN IP4 127.0.0.1\r\n\u{1}";
    let text = accept_offer_message(sdp);
    assert_eq!(
        text,
        "{\"type\":\"accept-offer\",\"sdp\":\"v=0\\r\\no=- 1 2 IN IP4 127.0.0.1\\r\\n\\u0001\"}"
    );
    let expected = object(vec![("type", Value::from("accept-offer")), ("sdp", Value::from(sdp))]);
    assert_eq!(parsed(&text), expected);
    let cand = "{\"candidate\":\"candidate:1 1 udp 1 1.2.3.4 5 typ host\",\"sdpMid\":\"0\"}";
    let text = ice_candidate_message(cand);
    let expected = object(vec![("type", Value::from("ice-candidate")), ("candidate", parsed(cand))]);
    assert_eq!(parsed(&text), expected);
}
