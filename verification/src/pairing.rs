use vstd::prelude::*;
use x25519_dalek::EphemeralSecret;

use crate::codec::{base64_encode, base64_standard_encode};
use crate::crypto::{bytes_to_string, compute_shared, derive_hkdf_key, derive_salt, fingerprint_of, hkdf_sha256_32, salt_of, lemma_hex_lower_len};
use crate::text::owned;

verus! {

/// One pairing in progress, on the host's side. `W` is the connection to the
/// signalling server, which the session owns.
pub struct PairingSession<W> {
    pub host_id: Option<String>,
    pub host_public_key: Option<[u8; 32]>,
    pub host_private_key: Option<EphemeralSecret>,
    pub shared_secret: Option<[u8; 32]>,
    pub client_public_key: Option<[u8; 32]>,
    pub accepted: bool,
    pub ws: Option<W>,
}

/// The mathematical content of a pairing session.
pub struct PairingView {
    pub host_id: Option<Seq<char>>,
    pub host_public_key: Option<Seq<u8>>,
    pub has_private_key: bool,
    pub shared_secret: Option<Seq<u8>>,
    pub client_public_key: Option<Seq<u8>>,
    pub accepted: bool,
    pub has_ws: bool,
}

pub open spec fn opt_bytes(o: Option<[u8; 32]>) -> Option<Seq<u8>> {
    match o {
        Some(b) => Some(b@),
        None => None,
    }
}

impl<W> View for PairingSession<W> {
    type V = PairingView;

    open spec fn view(&self) -> PairingView {
        PairingView {
            host_id: match self.host_id {
                Some(s) => Some(s@),
                None => None,
            },
            host_public_key: opt_bytes(self.host_public_key),
            has_private_key: self.host_private_key is Some,
            shared_secret: opt_bytes(self.shared_secret),
            client_public_key: opt_bytes(self.client_public_key),
            accepted: self.accepted,
            has_ws: self.ws is Some,
        }
    }
}

/// The id the server assigned to this pairing.
#[derive(Debug)]
pub struct RandId {
    pub id: String,
}

/// The controller's half of the key exchange: its public key and its own id.
#[derive(Debug)]
pub struct ExchangeFromLocal {
    pub pub_key: Vec<u8>,
    pub local_id: String,
}

/// The messages the signalling server relays during a pairing.
#[derive(Debug)]
pub enum PairingInfomation {
    RandId(RandId),
    AllowedKey,
    AcceptFromLocal,
    CancelFromLocal,
    DenyFromLocal,
    DisconnectedFromLocal,
    ExchangeFromLocal(ExchangeFromLocal),
}

/// Everything that can reach a pairing session from its connection.
#[derive(Debug)]
pub enum PairingEvent {
    /// A message that was read as one of the relayed messages.
    Info(PairingInfomation),
    /// A text message that could not be read; the reader's explanation.
    Unreadable(String),
    /// The connection failed.
    SocketError,
    /// The connection closed.
    SocketClosed,
    /// The connection opened.
    SocketConnected,
}

/// What the host does after an event, in this order: log the error, close the
/// connection (if that fails, the host reacts as `after_close_failure` says and goes no
/// further), emit an event to the user interface, with a text payload or with none, and
/// end the session.
#[derive(Debug)]
pub struct PairingReaction {
    pub log_error: Option<String>,
    pub close_socket: bool,
    pub emit: Option<(String, Option<String>)>,
    pub end_session: bool,
}

/// The event a reaction emits, with its payload, as text.
pub open spec fn emit_view(r: PairingReaction) -> Option<(Seq<char>, Option<Seq<char>>)> {
    match r.emit {
        Some(e) => Some((e.0@, match e.1 {
            Some(p) => Some(p@),
            None => None,
        })),
        None => None,
    }
}

/// The reaction that only emits `event` with the text `payload`.
pub open spec fn emits(r: PairingReaction, event: Seq<char>, payload: Seq<char>) -> bool {
    &&& r.log_error is None
    &&& !r.close_socket
    &&& !r.end_session
    &&& emit_view(r) == Some((event, Some(payload)))
}

/// The reaction that logs `error` and emits `pairing_error` without a payload.
pub open spec fn reports(r: PairingReaction, error: Seq<char>) -> bool {
    &&& r.log_error matches Some(l) && l@ == error
    &&& !r.close_socket
    &&& !r.end_session
    &&& emit_view(r) == Some(("pairing_error"@, None::<Seq<char>>))
}

/// The message that says the controller's public key has the wrong length.
pub open spec fn bad_public_key_message() -> Seq<char> {
    "public key must be 32 bytes"@
}

/// The message that says there is no private key left to combine with.
pub open spec fn no_secret_message() -> Seq<char> {
    "Failed to compute shared secret"@
}

/// The first 16 characters of the fingerprint of a shared secret, shown to the user to compare.
pub open spec fn short_fingerprint(secret: Seq<u8>) -> Seq<char> {
    fingerprint_of(secret).take(16)
}

/// The context under which the HMAC key is derived: `netover-hmac-key-v1`.
pub open spec fn hmac_key_context() -> Seq<u8> {
    seq![110u8, 101, 116, 111, 118, 101, 114, 45, 104, 109, 97, 99, 45, 107, 101, 121, 45, 118, 49]
}

/// The base64 text of the key shared with a controller, derived from the shared secret
/// and both public keys.
pub open spec fn pairing_key(secret: Seq<u8>, host_pub: Seq<u8>, client_pub: Seq<u8>) -> Seq<char> {
    base64_encode(hkdf_sha256_32(salt_of(host_pub, client_pub), secret, hmac_key_context()))
}

fn hmac_key_context_bytes() -> (v: Vec<u8>)
    ensures
        v@ == hmac_key_context(),
{
    let v: Vec<u8> = vec![110u8, 101, 116, 111, 118, 101, 114, 45, 104, 109, 97, 99, 45, 107, 101, 121, 45, 118, 49];
    assert(v@ =~= hmac_key_context());
    v
}

impl<W> PairingSession<W> {
    /// An empty session: no keys, nothing accepted, no connection.
    pub fn new() -> (s: Self)
        ensures
            s@ == (PairingView {
                host_id: None,
                host_public_key: None,
                has_private_key: false,
                shared_secret: None,
                client_public_key: None,
                accepted: false,
                has_ws: false,
            }),
    {
        PairingSession {
            host_id: None,
            host_public_key: None,
            host_private_key: None,
            shared_secret: None,
            client_public_key: None,
            accepted: false,
            ws: None,
        }
    }

    /// A session that starts pairing: it holds the host's fresh key pair and its connection.
    pub fn start(secret: EphemeralSecret, public: [u8; 32], ws: W) -> (s: Self)
        ensures
            s@ == (PairingView {
                host_id: None,
                host_public_key: Some(public@),
                has_private_key: true,
                shared_secret: None,
                client_public_key: None,
                accepted: false,
                has_ws: true,
            }),
    {
        let mut s = PairingSession::new();
        s.host_private_key = Some(secret);
        s.host_public_key = Some(public);
        s.ws = Some(ws);
        s
    }

    /// Takes the controller's public key and, with the host's private key, computes the
    /// shared secret. The private key is used up, so this succeeds at most once.
    /// Returns the short fingerprint of the secret to show.
    pub fn exchange(&mut self, client_pub: &Vec<u8>) -> (r: Result<String, String>)
        ensures
            client_pub@.len() != 32 ==> final(self)@ == old(self)@ && (r matches Err(e) && e@ == bad_public_key_message()),
            client_pub@.len() == 32 && !old(self)@.has_private_key ==> (r matches Err(e) && e@ == no_secret_message())
                && final(self)@ == (PairingView { client_public_key: Some(client_pub@), ..old(self)@ }),
            client_pub@.len() == 32 && old(self)@.has_private_key ==> ({
                &&& final(self)@.shared_secret matches Some(secret)
                &&& final(self)@ == (PairingView {
                    client_public_key: Some(client_pub@),
                    has_private_key: false,
                    shared_secret: Some(secret),
                    ..old(self)@
                })
                &&& r matches Ok(h) && h@ == short_fingerprint(secret)
            }),
    {
        if client_pub.len() != 32 {
            return Err(owned("public key must be 32 bytes"));
        }
        let mut bytes = [0u8; 32];
        let mut i: usize = 0;
        while i < 32
            invariant
                client_pub@.len() == 32,
                0 <= i <= 32,
                forall|j: int| 0 <= j < i ==> bytes@[j] == client_pub@[j],
            decreases 32 - i,
        {
            bytes[i] = client_pub[i];
            i = i + 1;
        }
        assert(bytes@ =~= client_pub@);
        self.client_public_key = Some(bytes);
        match self.host_private_key.take() {
            Some(secret) => {
                let shared = compute_shared(secret, bytes);
                self.shared_secret = Some(shared);
                let full = bytes_to_string(&shared);
                proof {
                    lemma_hex_lower_len(crate::crypto::sha256(shared@ + crate::crypto::hash_context()));
                }
                let short = full.as_str().substring_ascii(0, 16);
                Ok(owned(short))
            },
            None => Err(owned("Failed to compute shared secret")),
        }
    }

    /// The key to store for this pairing, once the shared secret and both public keys are known.
    pub fn derived_key(&self) -> (r: Option<String>)
        ensures
            match r {
                Some(k) => self@.shared_secret matches Some(ss) && self@.host_public_key matches Some(hp)
                    && self@.client_public_key matches Some(cp) && k@ == pairing_key(ss, hp, cp),
                None => self@.shared_secret is None || self@.host_public_key is None || self@.client_public_key is None,
            },
    {
        match (&self.shared_secret, &self.host_public_key, &self.client_public_key) {
            (Some(ss), Some(hp), Some(cp)) => {
                let salt = derive_salt(hp, cp);
                let ctx = hmac_key_context_bytes();
                let okm = derive_hkdf_key(ss, &salt, ctx.as_slice());
                Some(base64_standard_encode(okm.as_slice()))
            },
            _ => None,
        }
    }
}


/// The session's content, if there is a session.
pub open spec fn session_view<W>(s: Option<PairingSession<W>>) -> Option<PairingView> {
    match s {
        Some(p) => Some(p@),
        None => None,
    }
}

/// The reaction that does nothing.
pub open spec fn does_nothing(r: PairingReaction) -> bool {
    r.log_error is None && !r.close_socket && !r.end_session && r.emit is None
}

fn emit_only(event: &str, payload: String) -> (r: PairingReaction)
    ensures
        emits(r, event@, payload@),
{
    PairingReaction { log_error: None, close_socket: false, emit: Some((owned(event), Some(payload))), end_session: false }
}

fn report(error: String) -> (r: PairingReaction)
    ensures
        reports(r, error@),
{
    PairingReaction { log_error: Some(error), close_socket: false, emit: Some((owned("pairing_error"), None)), end_session: false }
}

/// The message logged when the connection could not be closed.
pub open spec fn close_failure_message() -> Seq<char> {
    "Failed to close ws"@
}

/// What the host does when closing the connection, as a reaction asked, failed: it logs
/// the failure and emits `pairing_error` without a payload, instead of the rest of the
/// reaction.
pub fn after_close_failure() -> (r: PairingReaction)
    ensures
        reports(r, close_failure_message()),
{
    report(owned("Failed to close ws"))
}

/// The message shown when the connection to the server fails.
pub open spec fn socket_failure_message() -> Seq<char> {
    "A fatal error has been occurred in WebSocket connection."@
}

/// Decides what an event from the connection does to the pairing session, and what the host
/// does next.
pub fn react<W>(session: &mut Option<PairingSession<W>>, event: PairingEvent) -> (r: PairingReaction)
    ensures
        match event {
            PairingEvent::Info(PairingInfomation::RandId(rid)) => {
                &&& emits(r, "pairing_rand_id"@, rid.id@)
                &&& session_view(*final(session)) == match session_view(*old(session)) {
                    Some(v) => Some(PairingView { host_id: Some(rid.id@), ..v }),
                    None => None,
                }
            },
            PairingEvent::Info(PairingInfomation::ExchangeFromLocal(ex)) => match session_view(*old(session)) {
                None => does_nothing(r) && session_view(*final(session)) is None,
                Some(v) => {
                    let new_v = session_view(*final(session))->Some_0;
                    &&& session_view(*final(session)) is Some
                    &&& (ex.pub_key@.len() != 32 ==> new_v == v && reports(r, bad_public_key_message()))
                    &&& (ex.pub_key@.len() == 32 && !v.has_private_key ==> reports(r, no_secret_message())
                        && new_v == (PairingView { client_public_key: Some(ex.pub_key@), ..v }))
                    &&& (ex.pub_key@.len() == 32 && v.has_private_key ==> new_v.shared_secret is Some
                        && new_v == (PairingView {
                            client_public_key: Some(ex.pub_key@),
                            has_private_key: false,
                            shared_secret: new_v.shared_secret,
                            ..v
                        })
                        && emits(r, "pairing_exchange_from_local"@, short_fingerprint(new_v.shared_secret->Some_0)))
                },
            },
            PairingEvent::Info(PairingInfomation::AllowedKey) => emits(r, "pairing_allowed_key"@, Seq::empty())
                && session_view(*final(session)) == session_view(*old(session)),
            PairingEvent::Info(PairingInfomation::AcceptFromLocal) => emits(r, "pairing_accept_from_local"@, Seq::empty())
                && session_view(*final(session)) == match session_view(*old(session)) {
                    Some(v) => Some(PairingView { accepted: true, ..v }),
                    None => None,
                },
            PairingEvent::Info(PairingInfomation::CancelFromLocal) => emits(r, "pairing_cancel_from_local"@, Seq::empty())
                && session_view(*final(session)) == match session_view(*old(session)) {
                    Some(v) => Some(PairingView { accepted: false, ..v }),
                    None => None,
                },
            PairingEvent::Info(PairingInfomation::DenyFromLocal) => {
                &&& session_view(*final(session)) == match session_view(*old(session)) {
                    Some(v) => Some(PairingView { accepted: false, ..v }),
                    None => None,
                }
                &&& r.log_error is None
                &&& r.close_socket == (session_view(*old(session)) matches Some(v) && v.has_ws)
                &&& !r.end_session
                &&& emit_view(r) == Some(("pairing_deny_from_local"@, Some(Seq::<char>::empty())))
            },
            PairingEvent::Info(PairingInfomation::DisconnectedFromLocal) => emits(r, "pairing_disconnected_from_local"@, Seq::empty())
                && session_view(*final(session)) == session_view(*old(session)),
            PairingEvent::Unreadable(e) => emits(r, "pairing_error"@, e@)
                && session_view(*final(session)) == session_view(*old(session)),
            PairingEvent::SocketError => {
                &&& r.log_error is None
                &&& !r.close_socket
                &&& r.end_session
                &&& emit_view(r) == Some(("pairing_error"@, Some(socket_failure_message())))
                &&& session_view(*final(session)) == session_view(*old(session))
            },
            PairingEvent::SocketClosed => emits(r, "pairing_disconnected"@, "Disconnected from server"@)
                && session_view(*final(session)) == session_view(*old(session)),
            PairingEvent::SocketConnected => does_nothing(r)
                && session_view(*final(session)) == session_view(*old(session)),
        },
{
    match event {
        PairingEvent::Info(info) => match info {
            PairingInfomation::RandId(rid) => {
                if let Some(s) = session.as_mut() {
                    s.host_id = Some(rid.id.clone());
                }
                emit_only("pairing_rand_id", rid.id)
            },
            PairingInfomation::ExchangeFromLocal(ex) => {
                match session.as_mut() {
                    None => PairingReaction { log_error: None, close_socket: false, emit: None, end_session: false },
                    Some(s) => match s.exchange(&ex.pub_key) {
                        Ok(h) => emit_only("pairing_exchange_from_local", h),
                        Err(e) => report(e),
                    },
                }
            },
            PairingInfomation::AllowedKey => emit_only("pairing_allowed_key", String::new()),
            PairingInfomation::AcceptFromLocal => {
                if let Some(s) = session.as_mut() {
                    s.accepted = true;
                }
                emit_only("pairing_accept_from_local", String::new())
            },
            PairingInfomation::CancelFromLocal => {
                if let Some(s) = session.as_mut() {
                    s.accepted = false;
                }
                emit_only("pairing_cancel_from_local", String::new())
            },
            PairingInfomation::DenyFromLocal => {
                let mut close = false;
                if let Some(s) = session.as_mut() {
                    s.accepted = false;
                    close = s.ws.is_some();
                }
                PairingReaction {
                    log_error: None,
                    close_socket: close,
                    emit: Some((owned("pairing_deny_from_local"), Some(String::new()))),
                    end_session: false,
                }
            },
            PairingInfomation::DisconnectedFromLocal => emit_only("pairing_disconnected_from_local", String::new()),
        },
        PairingEvent::Unreadable(e) => emit_only("pairing_error", e),
        PairingEvent::SocketError => PairingReaction {
            log_error: None,
            close_socket: false,
            emit: Some((owned("pairing_error"), Some(owned("A fatal error has been occurred in WebSocket connection.")))),
            end_session: true,
        },
        PairingEvent::SocketClosed => emit_only("pairing_disconnected", owned("Disconnected from server")),
        PairingEvent::SocketConnected => PairingReaction { log_error: None, close_socket: false, emit: None, end_session: false },
    }
}

/// Takes the connection out of the session, to close it when the pairing ends.
pub fn take_socket<W>(session: &mut Option<PairingSession<W>>) -> (ws: Option<W>)
    ensures
        ws is Some <==> (session_view(*old(session)) matches Some(v) && v.has_ws),
        session_view(*final(session)) == match session_view(*old(session)) {
            Some(v) => Some(PairingView { has_ws: false, ..v }),
            None => None,
        },
{
    match session.as_mut() {
        Some(s) => s.ws.take(),
        None => None,
    }
}

/// Message when saving is asked for without a pairing in progress.
pub open spec fn no_session_message() -> Seq<char> {
    "No active pairing session found"@
}

/// Message when saving is asked for before the key exchange finished.
pub open spec fn incomplete_exchange_message() -> Seq<char> {
    "Shared secret or public keys not found in session"@
}

/// The key to store when the user confirms a pairing: refused without a session, or before
/// the shared secret and both public keys are known.
pub fn key_to_save<W>(session: &Option<PairingSession<W>>) -> (r: Result<String, String>)
    ensures
        match session_view(*session) {
            None => r matches Err(e) && e@ == no_session_message(),
            Some(v) => match (v.shared_secret, v.host_public_key, v.client_public_key) {
                (Some(ss), Some(hp), Some(cp)) => r matches Ok(k) && k@ == pairing_key(ss, hp, cp),
                _ => r matches Err(e) && e@ == incomplete_exchange_message(),
            },
        },
{
    match session.as_ref() {
        None => Err(owned("No active pairing session found")),
        Some(s) => match s.derived_key() {
            Some(k) => Ok(k),
            None => Err(owned("Shared secret or public keys not found in session")),
        },
    }
}

/// Message when the connection of an ending pairing could not be closed.
pub open spec fn close_websocket_failure_message() -> Seq<char> {
    "Failed to close websocket"@
}

/// Ends the pairing once its connection was taken out and closed (`closed`; true when
/// there was none): the session is dropped. When closing failed, the session stays as
/// it is and the failure is returned.
pub fn finish_pairing<W>(session: &mut Option<PairingSession<W>>, closed: bool) -> (r: Result<(), String>)
    ensures
        closed ==> r is Ok && *final(session) is None,
        !closed ==> (r matches Err(e) && e@ == close_websocket_failure_message())
            && session_view(*final(session)) == session_view(*old(session)),
{
    if closed {
        *session = None;
        Ok(())
    } else {
        Err(owned("Failed to close websocket"))
    }
}

} // verus!
