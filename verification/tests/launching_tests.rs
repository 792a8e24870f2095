use netover::launching::{
    check_idle, ends_on_channel_close, handle_answer, handle_channel_open, handle_connected,
    handle_controller_disconnected, handle_deny, handle_ice_candidate, handle_queryverify, handle_requested,
    requeue_ice_candidate, ends_after_recheck, ice_state_reaction, IceConnectionState, IceReaction, AnswerOutcome, GetSign, LaunchingSession, RequestOutcome, Requested, Status,
};

const HMAC_5_3: [u8; 32] = [
    236, 28, 70, 23, 123, 173, 104, 77, 25, 220, 94, 15, 220, 56, 153, 202, 51, 106, 224, 14, 107, 195, 171, 174,
    28, 6, 254, 247, 87, 86, 214, 97,
];

fn session() -> LaunchingSession {
    LaunchingSession::new(vec![("ABCDEF".to_string(), [5u8; 32]), ("GHIJKL".to_string(), [6u8; 32])])
}

#[test]
fn new_session_waits() {
    let s = session();
    assert_eq!(s.stat, Status::Pending);
    assert_eq!(s.hmac, [0u8; 32]);
    assert!(s.pending_ice.is_empty());
    assert!(s.pending_answer.is_none());
    assert!(!s.rtc);
}

#[test]
fn challenge_expects_the_hmac_of_the_nonce() {
    let mut s = session();
    let r = s.request_with_nonce(&"ABCDEF".to_string(), [3u8; 32]);
    assert!(matches!(r, RequestOutcome::Challenge(n) if n == [3u8; 32]));
    assert_eq!(s.stat, Status::Requested);
    assert_eq!(s.hmac, HMAC_5_3);
    assert!(s.verify(&HMAC_5_3.to_vec()));
    assert_eq!(s.stat, Status::Requested);
}

#[test]
fn wrong_answer_denies() {
    let mut s = session();
    s.request_with_nonce(&"ABCDEF".to_string(), [3u8; 32]);
    let mut wrong = HMAC_5_3.to_vec();
    wrong[0] ^= 1;
    assert!(!s.verify(&wrong));
    assert_eq!(s.stat, Status::Pending);
    // a short answer is refused too
    s.request_with_nonce(&"ABCDEF".to_string(), [3u8; 32]);
    assert!(!s.verify(&HMAC_5_3[..31].to_vec()));
    assert_eq!(s.stat, Status::Pending);
}

#[test]
fn answer_without_open_challenge_is_refused() {
    let mut s = session();
    s.hmac = HMAC_5_3;
    assert!(!s.verify(&HMAC_5_3.to_vec()));
    assert_eq!(s.stat, Status::Pending);
}

#[test]
fn unknown_key_is_reported() {
    let mut s = session();
    let r = s.request_with_nonce(&"ZZZZZZ".to_string(), [3u8; 32]);
    assert!(matches!(r, RequestOutcome::KeyNotFound(ref m) if m == "Key not found: ZZZZZZ"));
    assert_eq!(s.stat, Status::Requested);
}

#[test]
fn request_while_busy_denies_and_resets() {
    let mut s = session();
    s.request_with_nonce(&"ABCDEF".to_string(), [3u8; 32]);
    s.rtc = true;
    s.pending_ice.push("c".to_string());
    let r = s.request_with_nonce(&"ABCDEF".to_string(), [4u8; 32]);
    assert!(matches!(r, RequestOutcome::Denied));
    assert_eq!(s.stat, Status::Pending);
    assert!(!s.rtc);
    assert!(s.pending_ice.is_empty());
}

#[test]
fn random_challenge_verifies() {
    let mut s = session();
    let r = s.request(&"ABCDEF".to_string());
    assert!(matches!(r, RequestOutcome::Challenge(_)));
    let tag = s.hmac;
    assert!(s.verify(&tag.to_vec()));
}

#[test]
fn early_answer_and_candidates_are_kept_in_order() {
    let mut s = session();
    assert!(!s.ice_candidate("c1".to_string()));
    assert!(!s.ice_candidate("c2".to_string()));
    assert!(matches!(s.answer("sdp".to_string()), AnswerOutcome::Deferred));
    let early = s.connected();
    assert_eq!(early, Some("sdp".to_string()));
    assert_eq!(s.stat, Status::Connecting);
    assert!(s.rtc);
    assert!(s.ice_candidate("c3".to_string()));
    match s.answer("sdp2".to_string()) {
        AnswerOutcome::Apply(cs) => assert_eq!(cs, vec!["c1".to_string(), "c2".to_string()]),
        AnswerOutcome::Deferred => panic!("the connection exists"),
    }
    assert!(s.pending_ice.is_empty());
}

#[test]
fn handlers_on_a_missing_session() {
    let mut none: Option<LaunchingSession> = None;
    assert!(handle_requested(&mut none, &Requested { keyid: "ABCDEF".to_string() }).is_none());
    assert!(handle_queryverify(&mut none, &GetSign { sign: vec![] }).is_none());
    assert!(handle_connected(&mut none).is_none());
    assert!(matches!(handle_answer(&mut none, "a".to_string()), Err(ref e) if e == "Session not found"));
    assert!(handle_ice_candidate(&mut none, "c".to_string()).is_none());
    requeue_ice_candidate(&mut none, "c".to_string());
    assert!(!handle_deny(&mut none));
    handle_controller_disconnected(&mut none);
    handle_channel_open(&mut none);
    assert!(!ends_on_channel_close(&none));
    assert!(none.is_none());
    assert_eq!(check_idle(&none), Ok(()));
}

#[test]
fn full_handshake_through_handlers() {
    let mut slot = Some(session());
    assert!(matches!(check_idle(&slot), Err(ref e) if e == "Launching session already running"));
    let r = handle_requested(&mut slot, &Requested { keyid: "GHIJKL".to_string() });
    assert!(matches!(r, Some(RequestOutcome::Challenge(_))));
    let tag = slot.as_ref().unwrap().hmac;
    assert_eq!(handle_queryverify(&mut slot, &GetSign { sign: tag.to_vec() }), Some(true));
    assert_eq!(handle_ice_candidate(&mut slot, "c1".to_string()), Some(false));
    assert_eq!(handle_connected(&mut slot), Some(None));
    assert_eq!(handle_ice_candidate(&mut slot, "c2".to_string()), Some(true));
    requeue_ice_candidate(&mut slot, "c2".to_string());
    match handle_answer(&mut slot, "sdp".to_string()) {
        Ok(AnswerOutcome::Apply(cs)) => assert_eq!(cs, vec!["c1".to_string(), "c2".to_string()]),
        _ => panic!("expected the queued candidates"),
    }
    handle_channel_open(&mut slot);
    assert_eq!(slot.as_ref().unwrap().stat, Status::InControl);
    assert!(ends_on_channel_close(&slot));
    handle_controller_disconnected(&mut slot);
    assert_eq!(slot.as_ref().unwrap().stat, Status::Pending);
    assert!(!ends_on_channel_close(&slot));
    assert!(handle_deny(&mut slot));
    assert_eq!(slot.as_ref().unwrap().stat, Status::Pending);
}

#[test]
fn ice_state_changes() {
    assert_eq!(ice_state_reaction(IceConnectionState::Disconnected), IceReaction::RecheckLater);
    assert_eq!(ice_state_reaction(IceConnectionState::Failed), IceReaction::EndLaunch);
    assert_eq!(ice_state_reaction(IceConnectionState::Closed), IceReaction::EndLaunch);
    assert_eq!(ice_state_reaction(IceConnectionState::Connected), IceReaction::Keep);
    assert_eq!(ice_state_reaction(IceConnectionState::Checking), IceReaction::Keep);
    assert!(ends_after_recheck(IceConnectionState::Disconnected));
    assert!(ends_after_recheck(IceConnectionState::Failed));
    assert!(!ends_after_recheck(IceConnectionState::Connected));
    assert!(!ends_after_recheck(IceConnectionState::Closed));
}
