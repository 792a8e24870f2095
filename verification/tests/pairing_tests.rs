use netover::crypto::{bytes_to_string, compute_shared, derive_hkdf_key, derive_salt, generate_x25519};
use netover::keystore::KeyTable;
use netover::launching::{LaunchingSession, RequestOutcome};
use netover::pairing::{
    after_close_failure, finish_pairing, key_to_save, react, take_socket, ExchangeFromLocal, PairingEvent, PairingInfomation, PairingReaction,
    PairingSession, RandId,
};

fn emitted(r: &PairingReaction) -> (String, Option<String>) {
    r.emit.clone().expect("an event is emitted")
}

fn started() -> (Option<PairingSession<u8>>, [u8; 32]) {
    let (secret, public) = generate_x25519();
    (Some(PairingSession::start(secret, public, 7u8)), public)
}

#[test]
fn new_session_is_empty() {
    let s: PairingSession<u8> = PairingSession::new();
    assert!(s.host_id.is_none());
    assert!(s.host_public_key.is_none());
    assert!(s.host_private_key.is_none());
    assert!(s.shared_secret.is_none());
    assert!(s.client_public_key.is_none());
    assert!(!s.accepted);
    assert!(s.ws.is_none());
}

#[test]
fn rand_id_is_recorded_and_shown() {
    let (mut s, _) = started();
    let r = react(&mut s, PairingEvent::Info(PairingInfomation::RandId(RandId { id: "QWERTY".to_string() })));
    assert_eq!(emitted(&r), ("pairing_rand_id".to_string(), Some("QWERTY".to_string())));
    assert!(!r.close_socket && !r.end_session);
    assert_eq!(s.unwrap().host_id, Some("QWERTY".to_string()));
}

#[test]
fn exchange_computes_the_shared_secret_once() {
    let (mut s, host_pub) = started();
    let (client_secret, client_pub) = generate_x25519();
    let r = react(
        &mut s,
        PairingEvent::Info(PairingInfomation::ExchangeFromLocal(ExchangeFromLocal {
            pub_key: client_pub.to_vec(),
            local_id: "ASDFGH".to_string(),
        })),
    );
    let expected_secret = compute_shared(client_secret, host_pub);
    let (event, payload) = emitted(&r);
    assert_eq!(event, "pairing_exchange_from_local");
    assert_eq!(payload, Some(bytes_to_string(&expected_secret)[..16].to_string()));
    let sess = s.as_ref().unwrap();
    assert_eq!(sess.shared_secret, Some(expected_secret));
    assert_eq!(sess.client_public_key, Some(client_pub));
    assert!(sess.host_private_key.is_none());
    // a second exchange has no private key left
    let r2 = react(
        &mut s,
        PairingEvent::Info(PairingInfomation::ExchangeFromLocal(ExchangeFromLocal {
            pub_key: client_pub.to_vec(),
            local_id: "ASDFGH".to_string(),
        })),
    );
    assert_eq!(emitted(&r2), ("pairing_error".to_string(), None));
    assert_eq!(r2.log_error, Some("Failed to compute shared secret".to_string()));
}

#[test]
fn exchange_with_a_short_key_is_refused() {
    let (mut s, _) = started();
    let r = react(
        &mut s,
        PairingEvent::Info(PairingInfomation::ExchangeFromLocal(ExchangeFromLocal {
            pub_key: vec![1, 2, 3],
            local_id: "ASDFGH".to_string(),
        })),
    );
    assert_eq!(emitted(&r), ("pairing_error".to_string(), None));
    assert_eq!(r.log_error, Some("public key must be 32 bytes".to_string()));
    let sess = s.as_ref().unwrap();
    assert!(sess.host_private_key.is_some());
    assert!(sess.client_public_key.is_none());
}

#[test]
fn exchange_without_session_does_nothing() {
    let mut s: Option<PairingSession<u8>> = None;
    let r = react(
        &mut s,
        PairingEvent::Info(PairingInfomation::ExchangeFromLocal(ExchangeFromLocal {
            pub_key: vec![0; 32],
            local_id: "ASDFGH".to_string(),
        })),
    );
    assert!(r.emit.is_none() && !r.close_socket && !r.end_session);
    assert!(s.is_none());
}

#[test]
fn accept_cancel_deny_from_local() {
    let (mut s, _) = started();
    let r = react(&mut s, PairingEvent::Info(PairingInfomation::AcceptFromLocal));
    assert_eq!(emitted(&r), ("pairing_accept_from_local".to_string(), Some(String::new())));
    assert!(s.as_ref().unwrap().accepted);
    let r = react(&mut s, PairingEvent::Info(PairingInfomation::CancelFromLocal));
    assert_eq!(emitted(&r), ("pairing_cancel_from_local".to_string(), Some(String::new())));
    assert!(!s.as_ref().unwrap().accepted);
    let r = react(&mut s, PairingEvent::Info(PairingInfomation::DenyFromLocal));
    assert_eq!(emitted(&r), ("pairing_deny_from_local".to_string(), Some(String::new())));
    assert!(r.close_socket);
    assert!(!r.end_session);
    assert_eq!(take_socket(&mut s), Some(7u8));
    assert_eq!(take_socket(&mut s), None);
    let r = react(&mut s, PairingEvent::Info(PairingInfomation::DenyFromLocal));
    assert!(!r.close_socket);
}

#[test]
fn socket_events() {
    let (mut s, _) = started();
    let r = react(&mut s, PairingEvent::SocketError);
    assert_eq!(
        emitted(&r),
        ("pairing_error".to_string(), Some("A fatal error has been occurred in WebSocket connection.".to_string()))
    );
    assert!(r.end_session && !r.close_socket);
    let r = react(&mut s, PairingEvent::SocketClosed);
    assert_eq!(emitted(&r), ("pairing_disconnected".to_string(), Some("Disconnected from server".to_string())));
    let r = react(&mut s, PairingEvent::SocketConnected);
    assert!(r.emit.is_none() && !r.end_session && !r.close_socket);
    let r = react(&mut s, PairingEvent::Unreadable("bad json".to_string()));
    assert_eq!(emitted(&r), ("pairing_error".to_string(), Some("bad json".to_string())));
    let r = react(&mut s, PairingEvent::Info(PairingInfomation::AllowedKey));
    assert_eq!(emitted(&r), ("pairing_allowed_key".to_string(), Some(String::new())));
    let r = react(&mut s, PairingEvent::Info(PairingInfomation::DisconnectedFromLocal));
    assert_eq!(emitted(&r), ("pairing_disconnected_from_local".to_string(), Some(String::new())));
}

#[test]
fn key_to_save_known_value() {
    let s = Some(PairingSession::<u8> {
        host_id: None,
        host_public_key: Some([1u8; 32]),
        host_private_key: None,
        shared_secret: Some([7u8; 32]),
        client_public_key: Some([2u8; 32]),
        accepted: true,
        ws: None,
    });
    assert_eq!(key_to_save(&s), Ok("FHTTc4ncIoPA1AqHQC5qp6USZdXkqx4Rbcn86hlK09c=".to_string()));
}

#[test]
fn key_to_save_errors() {
    let none: Option<PairingSession<u8>> = None;
    assert_eq!(key_to_save(&none), Err("No active pairing session found".to_string()));
    let (s, _) = started();
    assert_eq!(key_to_save(&s), Err("Shared secret or public keys not found in session".to_string()));
}

#[test]
fn both_ends_derive_the_same_key() {
    let (mut s, host_pub) = started();
    let (client_secret, client_pub) = generate_x25519();
    react(
        &mut s,
        PairingEvent::Info(PairingInfomation::ExchangeFromLocal(ExchangeFromLocal {
            pub_key: client_pub.to_vec(),
            local_id: "ASDFGH".to_string(),
        })),
    );
    let saved = key_to_save(&s).unwrap();
    // the controller's side, with the two public keys the other way round
    let shared = compute_shared(client_secret, host_pub);
    let salt = derive_salt(&client_pub, &host_pub);
    let okm = derive_hkdf_key(&shared, &salt, b"netover-hmac-key-v1");
    let mut t = KeyTable::new();
    t.record_pairing("ASDFGH".to_string());
    t.set_body(&"ASDFGH".to_string(), saved);
    let keys = t.decode_available_keys().unwrap();
    assert_eq!(keys, vec![("ASDFGH".to_string(), okm)]);
    // and the launch challenge for that controller is answered with this key
    let mut l = LaunchingSession::new(keys);
    assert!(matches!(l.request(&"ASDFGH".to_string()), RequestOutcome::Challenge(_)));
    let tag = l.hmac;
    assert!(l.verify(&tag.to_vec()));
}

#[test]
fn failed_close_is_reported() {
    let r = after_close_failure();
    assert_eq!(r.log_error, Some("Failed to close ws".to_string()));
    assert_eq!(emitted(&r), ("pairing_error".to_string(), None));
    assert!(!r.close_socket && !r.end_session);
}

#[test]
fn ending_a_pairing() {
    let (mut s, _) = started();
    let ws = take_socket(&mut s);
    assert_eq!(ws, Some(7u8));
    assert_eq!(finish_pairing(&mut s, false), Err("Failed to close websocket".to_string()));
    assert!(s.is_some());
    assert_eq!(finish_pairing(&mut s, true), Ok(()));
    assert!(s.is_none());
}
