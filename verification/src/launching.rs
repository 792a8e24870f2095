use vstd::prelude::*;

use crate::crypto::{hmac_sha256, hmac_sha256_tag, random_nonce};
use crate::text::owned;

verus! {

/// Where the launch handshake with a controller stands.
#[derive(PartialEq, Eq, Structural, Debug, Clone, Copy)]
pub enum Status {
    Initializing,
    Pending,
    Requested,
    Connecting,
    InControl,
    Error,
}

/// A controller asks to connect with the key it was paired under.
#[derive(Debug)]
pub struct Requested {
    pub keyid: String,
}

/// The controller's answer to the challenge: its HMAC of the nonce.
#[derive(Debug)]
pub struct GetSign {
    pub sign: Vec<u8>,
}

/// The controller's SDP answer.
#[derive(Debug)]
pub struct Answer {
    pub answer: String,
}

/// One ICE candidate from the controller, as the JSON text it arrived in.
#[derive(Debug)]
pub struct IceCandidate {
    pub candidate: String,
}

/// The messages the signalling server sends during a launch.
#[derive(Debug)]
pub enum LaunchingInfomation {
    InitSuccess,
    Requested(Requested),
    GetSign(GetSign),
    Answer(Answer),
    IceCandidate(IceCandidate),
    ControllerDisconnected,
}

/// The state of a launch that the handshake decisions depend on. The connection
/// objects themselves (socket, peer connection, capture loop) are held beside it;
/// `rtc` says whether the peer connection exists.
pub struct LaunchingSession {
    pub keys: Vec<(String, [u8; 32])>,
    pub hmac: [u8; 32],
    pub stat: Status,
    pub pending_ice: Vec<String>,
    pub pending_answer: Option<String>,
    pub rtc: bool,
}

/// The mathematical content of a launching session.
pub struct LaunchView {
    pub keys: Seq<(Seq<char>, Seq<u8>)>,
    pub hmac: Seq<u8>,
    pub stat: Status,
    pub pending_ice: Seq<Seq<char>>,
    pub pending_answer: Option<Seq<char>>,
    pub rtc: bool,
}

impl View for LaunchingSession {
    type V = LaunchView;

    open spec fn view(&self) -> LaunchView {
        LaunchView {
            keys: self.keys@.map_values(|e: (String, [u8; 32])| (e.0@, e.1@)),
            hmac: self.hmac@,
            stat: self.stat,
            pending_ice: self.pending_ice@.map_values(|c: String| c@),
            pending_answer: match self.pending_answer {
                Some(a) => Some(a@),
                None => None,
            },
            rtc: self.rtc,
        }
    }
}

/// The key stored under `id`: the first entry with that id.
pub open spec fn key_for(keys: Seq<(Seq<char>, Seq<u8>)>, id: Seq<char>) -> Option<Seq<u8>>
    decreases keys.len(),
{
    if keys.len() == 0 {
        None
    } else if keys[0].0 == id {
        Some(keys[0].1)
    } else {
        key_for(keys.drop_first(), id)
    }
}

/// No key id occurs twice.
pub open spec fn keys_distinct(keys: Seq<(Seq<char>, Seq<u8>)>) -> bool {
    forall|a: int, b: int| 0 <= a < keys.len() && 0 <= b < keys.len() && a != b ==> (#[trigger] keys[a]).0 != (#[trigger] keys[b]).0
}

/// What a deny leaves: waiting for a new request, with no peer connection and nothing queued.
pub open spec fn deny_step(m: LaunchView) -> LaunchView {
    LaunchView { stat: Status::Pending, rtc: false, pending_ice: Seq::empty(), pending_answer: None, ..m }
}

/// How a connection request was answered.
pub enum RequestOutcome {
    /// The session was not waiting for a request; it was reset and the controller is denied.
    Denied,
    /// No key is stored under the requested id; the message says which.
    KeyNotFound(String),
    /// The challenge: this nonce is sent, and the expected answer is now held.
    Challenge([u8; 32]),
}

/// Spec of a request's outcome.
pub enum RequestResult {
    Denied,
    KeyNotFound,
    Challenge(Seq<u8>),
}

/// A request with key id `id`, answered with challenge `nonce`: only a waiting session takes
/// it; the session then expects the HMAC of the nonce under the requested key.
pub open spec fn request_step(m: LaunchView, id: Seq<char>, nonce: Seq<u8>) -> (LaunchView, RequestResult) {
    if m.stat != Status::Pending {
        (deny_step(m), RequestResult::Denied)
    } else {
        let m1 = LaunchView { stat: Status::Requested, ..m };
        match key_for(m.keys, id) {
            None => (m1, RequestResult::KeyNotFound),
            Some(k) => (LaunchView { hmac: hmac_sha256(k, nonce), ..m1 }, RequestResult::Challenge(nonce)),
        }
    }
}

pub open spec fn request_result(r: RequestOutcome) -> RequestResult {
    match r {
        RequestOutcome::Denied => RequestResult::Denied,
        RequestOutcome::KeyNotFound(_) => RequestResult::KeyNotFound,
        RequestOutcome::Challenge(n) => RequestResult::Challenge(n@),
    }
}

/// A challenge answer is accepted exactly when a challenge is open and the answer equals
/// the expected HMAC; otherwise the controller is denied.
pub open spec fn verify_step(m: LaunchView, sign: Seq<u8>) -> (LaunchView, bool) {
    if m.stat == Status::Requested && sign == m.hmac {
        (m, true)
    } else {
        (deny_step(m), false)
    }
}

/// The peer connection exists: the session is connecting, and an answer that came early is handed over.
pub open spec fn connected_step(m: LaunchView) -> (LaunchView, Option<Seq<char>>) {
    (LaunchView { stat: Status::Connecting, rtc: true, pending_answer: None, ..m }, m.pending_answer)
}

/// What to do with an answer.
pub enum AnswerOutcome {
    /// The peer connection does not exist yet; the answer is kept for it.
    Deferred,
    /// Apply the answer, then these candidates that arrived before it, in order.
    Apply(Vec<String>),
}

pub enum AnswerResult {
    Deferred,
    Apply(Seq<Seq<char>>),
}

pub open spec fn answer_step(m: LaunchView, answer: Seq<char>) -> (LaunchView, AnswerResult) {
    if !m.rtc {
        (LaunchView { pending_answer: Some(answer), ..m }, AnswerResult::Deferred)
    } else {
        (LaunchView { pending_ice: Seq::empty(), ..m }, AnswerResult::Apply(m.pending_ice))
    }
}

pub open spec fn answer_result(r: AnswerOutcome) -> AnswerResult {
    match r {
        AnswerOutcome::Deferred => AnswerResult::Deferred,
        AnswerOutcome::Apply(v) => AnswerResult::Apply(v@.map_values(|c: String| c@)),
    }
}

/// A candidate is queued while there is no peer connection; otherwise it goes to the
/// connection (which queues it back itself if it has no remote description yet).
pub open spec fn ice_step(m: LaunchView, cand: Seq<char>) -> (LaunchView, bool) {
    if !m.rtc {
        (LaunchView { pending_ice: m.pending_ice.push(cand), ..m }, false)
    } else {
        (m, true)
    }
}

/// The controller left: the session waits again for a request, with no peer connection.
pub open spec fn disconnect_step(m: LaunchView) -> LaunchView {
    deny_step(m)
}

impl LaunchingSession {
    /// A new session, waiting for a request, holding the keys of the available paired
    /// controllers, each under its own id.
    pub fn new(keys: Vec<(String, [u8; 32])>) -> (s: LaunchingSession)
        requires
            forall|a: int, b: int| 0 <= a < keys@.len() && 0 <= b < keys@.len() && a != b ==> (#[trigger] keys@[a]).0@ != (#[trigger] keys@[b]).0@,
        ensures
            s@.keys == keys@.map_values(|e: (String, [u8; 32])| (e.0@, e.1@)),
            keys_distinct(s@.keys),
            s@.hmac == Seq::new(32, |i: int| 0u8),
            s@.stat == Status::Pending,
            s@.pending_ice.len() == 0,
            s@.pending_answer is None,
            !s@.rtc,
    {
        let s = LaunchingSession {
            keys,
            hmac: [0u8; 32],
            stat: Status::Pending,
            pending_ice: Vec::new(),
            pending_answer: None,
            rtc: false,
        };
        assert(s@.hmac =~= Seq::new(32, |i: int| 0u8));
        assert(s@.pending_ice =~= Seq::<Seq<char>>::empty());
        s
    }

    /// Denies the controller: back to waiting, dropping the peer connection and anything queued.
    pub fn deny(&mut self)
        ensures
            final(self)@ == deny_step(old(self)@),
    {
        self.stat = Status::Pending;
        self.rtc = false;
        self.pending_ice = Vec::new();
        self.pending_answer = None;
        assert(self@.pending_ice =~= Seq::<Seq<char>>::empty());
    }

    fn find_key(&self, id: &String) -> (r: Option<[u8; 32]>)
        ensures
            match r {
                Some(k) => key_for(self@.keys, id@) == Some(k@),
                None => key_for(self@.keys, id@) is None,
            },
    {
        let ghost keys = self@.keys;
        let mut i: usize = 0;
        assert(keys.skip(0) =~= keys);
        while i < self.keys.len()
            invariant
                0 <= i <= self.keys@.len(),
                keys == self@.keys,
                key_for(keys, id@) == key_for(keys.skip(i as int), id@),
            decreases self.keys@.len() - i,
        {
            proof {
                assert(keys.skip(i as int).drop_first() =~= keys.skip(i + 1));
                assert(keys.skip(i as int)[0] == keys[i as int]);
            }
            if self.keys[i].0 == *id {
                return Some(self.keys[i].1);
            }
            i = i + 1;
        }
        None
    }

    /// Answers a request for key `id` with challenge `nonce`.
    pub fn request_with_nonce(&mut self, id: &String, nonce: [u8; 32]) -> (r: RequestOutcome)
        ensures
            (final(self)@, request_result(r)) == request_step(old(self)@, id@, nonce@),
            r matches RequestOutcome::KeyNotFound(msg) ==> msg@ == "Key not found: "@ + id@,
    {
        if self.stat != Status::Pending {
            self.deny();
            return RequestOutcome::Denied;
        }
        self.stat = Status::Requested;
        match self.find_key(id) {
            None => {
                let mut msg = owned("Key not found: ");
                msg.append(id.as_str());
                RequestOutcome::KeyNotFound(msg)
            },
            Some(key) => {
                self.hmac = hmac_sha256_tag(&key, &nonce);
                RequestOutcome::Challenge(nonce)
            },
        }
    }

    /// Answers a request for key `id`, drawing a fresh random nonce for the challenge.
    pub fn request(&mut self, id: &String) -> (r: RequestOutcome)
        ensures
            exists|nonce: Seq<u8>| nonce.len() == 32 && #[trigger] request_step(old(self)@, id@, nonce) == (final(self)@, request_result(r)),
            r matches RequestOutcome::KeyNotFound(msg) ==> msg@ == "Key not found: "@ + id@,
    {
        let nonce = random_nonce();
        let r = self.request_with_nonce(id, nonce);
        assert(request_step(old(self)@, id@, nonce@) == (self@, request_result(r)));
        r
    }

    /// Checks the controller's answer to the challenge; a wrong answer denies it.
    pub fn verify(&mut self, sign: &Vec<u8>) -> (ok: bool)
        ensures
            (final(self)@, ok) == verify_step(old(self)@, sign@),
    {
        let ok = self.stat == Status::Requested && bytes_eq(sign, &self.hmac);
        if !ok {
            self.deny();
        }
        ok
    }

    /// Records that the peer connection now exists, handing over an answer that came early.
    pub fn connected(&mut self) -> (early: Option<String>)
        ensures
            (final(self)@, match early { Some(a) => Some(a@), None => None }) == connected_step(old(self)@),
    {
        self.stat = Status::Connecting;
        self.rtc = true;
        let early = self.pending_answer.take();
        early
    }

    /// Takes the controller's SDP answer.
    pub fn answer(&mut self, answer: String) -> (r: AnswerOutcome)
        ensures
            (final(self)@, answer_result(r)) == answer_step(old(self)@, answer@),
    {
        if !self.rtc {
            self.pending_answer = Some(answer);
            AnswerOutcome::Deferred
        } else {
            let mut taken: Vec<String> = Vec::new();
            std::mem::swap(&mut taken, &mut self.pending_ice);
            assert(self@.pending_ice =~= Seq::<Seq<char>>::empty());
            AnswerOutcome::Apply(taken)
        }
    }

    /// Takes an ICE candidate; `true` when it should go to the peer connection now.
    pub fn ice_candidate(&mut self, candidate: String) -> (forward: bool)
        ensures
            (final(self)@, forward) == ice_step(old(self)@, candidate@),
    {
        if !self.rtc {
            self.pending_ice.push(candidate);
            assert(self@.pending_ice =~= old(self)@.pending_ice.push(candidate@));
            false
        } else {
            true
        }
    }

    /// Queues a candidate that the peer connection could not take yet.
    pub fn queue_ice(&mut self, candidate: String)
        ensures
            final(self)@ == (LaunchView { pending_ice: old(self)@.pending_ice.push(candidate@), ..old(self)@ }),
    {
        self.pending_ice.push(candidate);
        assert(self@.pending_ice =~= old(self)@.pending_ice.push(candidate@));
    }

    /// The controller left: wait for a new request.
    pub fn controller_disconnected(&mut self)
        ensures
            final(self)@ == disconnect_step(old(self)@),
            final(self)@.stat == Status::Pending,
            !final(self)@.rtc,
            final(self)@.pending_ice.len() == 0,
            final(self)@.pending_answer is None,
            final(self)@.keys == old(self)@.keys,
    {
        self.deny();
    }

    /// The data channel opened: the controller is in control.
    pub fn channel_opened(&mut self)
        ensures
            final(self)@ == (LaunchView { stat: Status::InControl, ..old(self)@ }),
    {
        self.stat = Status::InControl;
    }

    /// When the data channel closes, the whole launch ends unless the session is already
    /// waiting for a new request.
    pub fn ends_on_channel_close(&self) -> (b: bool)
        ensures
            b == (self.stat != Status::Pending),
    {
        self.stat != Status::Pending
    }
}

/// Byte-wise equality of a received tag with the expected one.
fn bytes_eq(a: &Vec<u8>, b: &[u8; 32]) -> (r: bool)
    ensures
        r == (a@ == b@),
{
    if a.len() != 32 {
        return false;
    }
    let mut i: usize = 0;
    while i < 32
        invariant
            a@.len() == 32,
            b@.len() == 32,
            0 <= i <= 32,
            forall|j: int| 0 <= j < i ==> a@[j] == b@[j],
        decreases 32 - i,
    {
        if a[i] != b[i] {
            return false;
        }
        i = i + 1;
    }
    assert(a@ =~= b@);
    true
}


/// The session's content, if there is one.
pub open spec fn launch_view(s: Option<LaunchingSession>) -> Option<LaunchView> {
    match s {
        Some(l) => Some(l@),
        None => None,
    }
}

/// A controller's request, when a launch is running (`None` when there is none).
pub fn handle_requested(session: &mut Option<LaunchingSession>, requested: &Requested) -> (r: Option<RequestOutcome>)
    ensures
        match launch_view(*old(session)) {
            None => r is None && launch_view(*final(session)) is None,
            Some(m) => r matches Some(o) && launch_view(*final(session)) matches Some(m2)
                && exists|nonce: Seq<u8>| nonce.len() == 32 && #[trigger] request_step(m, requested.keyid@, nonce) == (m2, request_result(o)),
        },
        r matches Some(RequestOutcome::KeyNotFound(msg)) ==> msg@ == "Key not found: "@ + requested.keyid@,
{
    match session.as_mut() {
        None => None,
        Some(s) => Some(s.request(&requested.keyid)),
    }
}

/// The controller's answer to the challenge, when a launch is running: `Some(true)` when
/// it is accepted and the peer connection should be made.
pub fn handle_queryverify(session: &mut Option<LaunchingSession>, sign: &GetSign) -> (r: Option<bool>)
    ensures
        match launch_view(*old(session)) {
            None => r is None && launch_view(*final(session)) is None,
            Some(m) => r matches Some(ok) && launch_view(*final(session)) == Some(verify_step(m, sign.sign@).0)
                && ok == verify_step(m, sign.sign@).1,
        },
{
    match session.as_mut() {
        None => None,
        Some(s) => Some(s.verify(&sign.sign)),
    }
}

/// The peer connection was made, when the launch is still running: returns the answer
/// that came early, if any.
pub fn handle_connected(session: &mut Option<LaunchingSession>) -> (r: Option<Option<String>>)
    ensures
        match launch_view(*old(session)) {
            None => r is None && launch_view(*final(session)) is None,
            Some(m) => r matches Some(early) && launch_view(*final(session)) == Some(connected_step(m).0)
                && (match early { Some(a) => Some(a@), None => None }) == connected_step(m).1,
        },
{
    match session.as_mut() {
        None => None,
        Some(s) => Some(s.connected()),
    }
}

/// Message when an answer arrives with no launch running.
pub open spec fn session_not_found_message() -> Seq<char> {
    "Session not found"@
}

/// The controller's SDP answer; refused when no launch is running.
pub fn handle_answer(session: &mut Option<LaunchingSession>, answer: String) -> (r: Result<AnswerOutcome, String>)
    ensures
        match launch_view(*old(session)) {
            None => (r matches Err(e) && e@ == session_not_found_message()) && launch_view(*final(session)) is None,
            Some(m) => r matches Ok(o) && launch_view(*final(session)) == Some(answer_step(m, answer@).0)
                && answer_result(o) == answer_step(m, answer@).1,
        },
{
    match session.as_mut() {
        None => Err(owned("Session not found")),
        Some(s) => Ok(s.answer(answer)),
    }
}

/// An ICE candidate, when a launch is running: `Some(true)` when it goes to the peer
/// connection now, `Some(false)` when it was queued.
pub fn handle_ice_candidate(session: &mut Option<LaunchingSession>, candidate: String) -> (r: Option<bool>)
    ensures
        match launch_view(*old(session)) {
            None => r is None && launch_view(*final(session)) is None,
            Some(m) => r matches Some(f) && launch_view(*final(session)) == Some(ice_step(m, candidate@).0)
                && f == ice_step(m, candidate@).1,
        },
{
    match session.as_mut() {
        None => None,
        Some(s) => Some(s.ice_candidate(candidate)),
    }
}

/// A candidate that the peer connection could not take yet goes back to the queue.
pub fn requeue_ice_candidate(session: &mut Option<LaunchingSession>, candidate: String)
    ensures
        launch_view(*final(session)) == match launch_view(*old(session)) {
            None => None,
            Some(m) => Some(LaunchView { pending_ice: m.pending_ice.push(candidate@), ..m }),
        },
{
    if let Some(s) = session.as_mut() {
        s.queue_ice(candidate);
    }
}

/// Denies the controller, when a launch is running; `true` when the deny should be sent.
pub fn handle_deny(session: &mut Option<LaunchingSession>) -> (sent: bool)
    ensures
        sent == (launch_view(*old(session)) is Some),
        launch_view(*final(session)) == match launch_view(*old(session)) {
            None => None,
            Some(m) => Some(deny_step(m)),
        },
{
    match session.as_mut() {
        None => false,
        Some(s) => {
            s.deny();
            true
        },
    }
}

/// The controller left: the running launch waits for a new request.
pub fn handle_controller_disconnected(session: &mut Option<LaunchingSession>)
    ensures
        launch_view(*final(session)) == match launch_view(*old(session)) {
            None => None,
            Some(m) => Some(disconnect_step(m)),
        },
{
    if let Some(s) = session.as_mut() {
        s.controller_disconnected();
    }
}

/// The data channel opened: the controller of the running launch is in control.
pub fn handle_channel_open(session: &mut Option<LaunchingSession>)
    ensures
        launch_view(*final(session)) == match launch_view(*old(session)) {
            None => None,
            Some(m) => Some(LaunchView { stat: Status::InControl, ..m }),
        },
{
    if let Some(s) = session.as_mut() {
        s.channel_opened();
    }
}

/// Whether the closing of the data channel ends the launch: only a running launch that is
/// not waiting for a new request ends.
pub fn ends_on_channel_close(session: &Option<LaunchingSession>) -> (b: bool)
    ensures
        b == (launch_view(*session) matches Some(m) && m.stat != Status::Pending),
{
    match session.as_ref() {
        None => false,
        Some(s) => s.ends_on_channel_close(),
    }
}

/// Message when a launch is asked for while one runs.
pub open spec fn already_running_message() -> Seq<char> {
    "Launching session already running"@
}

/// A new launch may start only when none is running.
pub fn check_idle(session: &Option<LaunchingSession>) -> (r: Result<(), String>)
    ensures
        r is Ok <==> session is None,
        r matches Err(e) ==> e@ == already_running_message(),
{
    if session.is_some() {
        Err(owned("Launching session already running"))
    } else {
        Ok(())
    }
}

/// The state of the peer connection's ICE transport.
#[derive(PartialEq, Eq, Structural, Debug, Clone, Copy)]
pub enum IceConnectionState {
    Unspecified,
    New,
    Checking,
    Connected,
    Completed,
    Disconnected,
    Failed,
    Closed,
}

/// What a change of the ICE state asks of the launch.
#[derive(PartialEq, Eq, Structural, Debug, Clone, Copy)]
pub enum IceReaction {
    /// Nothing to do.
    Keep,
    /// The state may recover: look again after a pause of five seconds.
    RecheckLater,
    /// The connection cannot recover: end the launch.
    EndLaunch,
}

/// A disconnection may be transient, so it is looked at again later; a failed or
/// closed connection cannot recover and ends the launch.
pub open spec fn ice_reaction_of(s: IceConnectionState) -> IceReaction {
    if s == IceConnectionState::Disconnected {
        IceReaction::RecheckLater
    } else if s == IceConnectionState::Failed || s == IceConnectionState::Closed {
        IceReaction::EndLaunch
    } else {
        IceReaction::Keep
    }
}

/// The reaction to a new ICE state.
pub fn ice_state_reaction(s: IceConnectionState) -> (r: IceReaction)
    ensures
        r == ice_reaction_of(s),
{
    match s {
        IceConnectionState::Disconnected => IceReaction::RecheckLater,
        IceConnectionState::Failed | IceConnectionState::Closed => IceReaction::EndLaunch,
        _ => IceReaction::Keep,
    }
}

/// After the pause, the launch ends when the connection is still disconnected or has
/// failed.
pub fn ends_after_recheck(s: IceConnectionState) -> (b: bool)
    ensures
        b == (s == IceConnectionState::Disconnected || s == IceConnectionState::Failed),
{
    match s {
        IceConnectionState::Disconnected | IceConnectionState::Failed => true,
        _ => false,
    }
}

// ---------------------------------------------------------------------------
// Laws of the launch handshake.
// ---------------------------------------------------------------------------

/// A controller that asks with a stored key id while the session waits gets a challenge
/// for the nonce drawn, and its answer is accepted exactly when it is the HMAC of that
/// nonce under the stored key; any other answer sends the session back to waiting.
pub proof fn law_challenge_response(m: LaunchView, id: Seq<char>, nonce: Seq<u8>, sign: Seq<u8>)
    requires
        m.stat == Status::Pending,
        key_for(m.keys, id) is Some,
    ensures
        request_step(m, id, nonce).1 == RequestResult::Challenge(nonce),
        request_step(m, id, nonce).0.stat == Status::Requested,
        verify_step(request_step(m, id, nonce).0, sign).1 <==> sign == hmac_sha256(key_for(m.keys, id)->Some_0, nonce),
        !verify_step(request_step(m, id, nonce).0, sign).1 ==> verify_step(request_step(m, id, nonce).0, sign).0.stat == Status::Pending,
{
}

/// A challenge answer is only ever accepted while a challenge is open, and only when it
/// equals the expected tag; an accepted answer leaves the session as it was.
pub proof fn law_accept_only_expected(m: LaunchView, sign: Seq<u8>)
    ensures
        verify_step(m, sign).1 ==> m.stat == Status::Requested && sign == m.hmac && verify_step(m, sign).0 == m,
{
}

/// A request is taken only while the session waits; at any other stage the controller is
/// denied and the session reset.
pub proof fn law_request_only_when_waiting(m: LaunchView, id: Seq<char>, nonce: Seq<u8>)
    requires
        m.stat != Status::Pending,
    ensures
        request_step(m, id, nonce) == (deny_step(m), RequestResult::Denied),
{
}

/// A deny leaves the session waiting, without a peer connection or anything queued, and
/// keeps the keys; denying twice is the same as denying once.
pub proof fn law_deny_resets(m: LaunchView)
    ensures
        deny_step(m).stat == Status::Pending,
        !deny_step(m).rtc,
        deny_step(m).pending_ice.len() == 0,
        deny_step(m).pending_answer is None,
        deny_step(m).keys == m.keys,
        deny_step(deny_step(m)) == deny_step(m),
{
}

/// An answer that arrives before the peer connection exists is kept and handed over when
/// the connection is made.
pub proof fn law_early_answer_kept(m: LaunchView, answer: Seq<char>)
    requires
        !m.rtc,
    ensures
        answer_step(m, answer).1 == AnswerResult::Deferred,
        connected_step(answer_step(m, answer).0).1 == Some(answer),
{
}

/// The state after candidates `cs` arrive one by one.
pub open spec fn ice_all(m: LaunchView, cs: Seq<Seq<char>>) -> LaunchView
    decreases cs.len(),
{
    if cs.len() == 0 {
        m
    } else {
        ice_step(ice_all(m, cs.drop_last()), cs.last()).0
    }
}

/// Candidates that arrive before the peer connection exists are all delivered, in the order
/// they arrived, once the connection is made and the answer applied; none is kept after.
pub proof fn law_early_candidates_in_order(m: LaunchView, cs: Seq<Seq<char>>, answer: Seq<char>)
    requires
        !m.rtc,
    ensures
        ice_all(m, cs).pending_ice == m.pending_ice + cs,
        answer_step(connected_step(ice_all(m, cs)).0, answer).1 == AnswerResult::Apply(m.pending_ice + cs),
        answer_step(connected_step(ice_all(m, cs)).0, answer).0.pending_ice.len() == 0,
    decreases cs.len(),
{
    lemma_ice_all_queues(m, cs);
}

proof fn lemma_ice_all_queues(m: LaunchView, cs: Seq<Seq<char>>)
    requires
        !m.rtc,
    ensures
        ice_all(m, cs).pending_ice == m.pending_ice + cs,
        !ice_all(m, cs).rtc,
    decreases cs.len(),
{
    if cs.len() > 0 {
        lemma_ice_all_queues(m, cs.drop_last());
        assert(m.pending_ice + cs.drop_last() + seq![cs.last()] =~= m.pending_ice + cs);
    } else {
        assert(m.pending_ice + cs =~= m.pending_ice);
    }
}

/// One thing that happens to a running launch, as the host handles it.
pub enum LaunchEvent {
    /// A controller asks with a key id; the challenge uses this nonce.
    Request(Seq<char>, Seq<u8>),
    /// The controller's answer to the challenge; when it is accepted, the peer
    /// connection is made before anything else is handled.
    Sign(Seq<u8>),
    /// The controller's SDP answer.
    Answer(Seq<char>),
    /// An ICE candidate from the controller.
    Ice(Seq<char>),
    /// A candidate handed back by a peer connection that could not take it yet.
    Requeue(Seq<char>),
    /// The host denies the controller.
    Deny,
    /// The controller left.
    ControllerLeft,
    /// The data channel opened.
    ChannelOpen,
    /// The connection to the server closed or failed: the launch ends.
    SocketEnd,
}

/// The launch after one event (`None`: no launch is running).
pub open spec fn launch_event_step(s: Option<LaunchView>, e: LaunchEvent) -> Option<LaunchView> {
    match s {
        None => None,
        Some(m) => match e {
            LaunchEvent::Request(id, nonce) => Some(request_step(m, id, nonce).0),
            LaunchEvent::Sign(sign) => {
                let (m1, ok) = verify_step(m, sign);
                if ok {
                    Some(connected_step(m1).0)
                } else {
                    Some(m1)
                }
            },
            LaunchEvent::Answer(a) => Some(answer_step(m, a).0),
            LaunchEvent::Ice(c) => Some(ice_step(m, c).0),
            LaunchEvent::Requeue(c) => Some(LaunchView { pending_ice: m.pending_ice.push(c), ..m }),
            LaunchEvent::Deny => Some(deny_step(m)),
            LaunchEvent::ControllerLeft => Some(disconnect_step(m)),
            LaunchEvent::ChannelOpen => Some(LaunchView { stat: Status::InControl, ..m }),
            LaunchEvent::SocketEnd => None,
        },
    }
}

/// The launch after the events `es`, in order.
pub open spec fn launch_run(s: Option<LaunchView>, es: Seq<LaunchEvent>) -> Option<LaunchView>
    decreases es.len(),
{
    if es.len() == 0 {
        s
    } else {
        launch_event_step(launch_run(s, es.drop_last()), es.last())
    }
}

/// The stages a running launch can be in.
pub open spec fn live_stage(st: Status) -> bool {
    st == Status::Pending || st == Status::Requested || st == Status::Connecting || st == Status::InControl
}

/// The event is an answer to the challenge equal to `tag`.
pub open spec fn signs_with(e: LaunchEvent, tag: Seq<u8>) -> bool {
    match e {
        LaunchEvent::Sign(sign) => sign == tag,
        _ => false,
    }
}

/// What one event may do: a launch that ended stays ended, the end of the connection
/// ends it, a challenge is opened only from waiting and by a request, and the peer
/// connection is made only for an answer equal to the expected tag while a challenge
/// is open.
pub open spec fn allowed_step(a: Option<LaunchView>, e: LaunchEvent, b: Option<LaunchView>) -> bool {
    &&& (e is SocketEnd ==> b is None)
    &&& (a is None ==> b is None)
    &&& match (a, b) {
        (Some(m), Some(m2)) => {
            &&& (m2.stat == Status::Requested && m.stat != Status::Requested ==> m.stat == Status::Pending && e is Request)
            &&& (m2.stat == Status::Connecting && m.stat != Status::Connecting ==> m.stat == Status::Requested
                && signs_with(e, m.hmac))
        },
        _ => true,
    }
}

proof fn lemma_launch_event_step(a: Option<LaunchView>, e: LaunchEvent)
    ensures
        allowed_step(a, e, launch_event_step(a, e)),
        (a matches Some(m) && live_stage(m.stat)) ==> (launch_event_step(a, e) matches Some(m2) ==> live_stage(m2.stat)),
{
    match a {
        None => {},
        Some(m) => match e {
            LaunchEvent::Request(id, nonce) => {
                assert(request_step(m, id, nonce).0.stat == Status::Requested ==> m.stat == Status::Pending);
            },
            LaunchEvent::Sign(sign) => {
                let (m1, ok) = verify_step(m, sign);
                if ok {
                    assert(m.stat == Status::Requested && sign == m.hmac);
                    assert(signs_with(e, m.hmac));
                }
            },
            _ => {},
        },
    }
}

proof fn lemma_launch_run_step(s: Option<LaunchView>, es: Seq<LaunchEvent>, i: int)
    requires
        0 <= i < es.len(),
    ensures
        launch_run(s, es.take(i + 1)) == launch_event_step(launch_run(s, es.take(i)), es[i]),
{
    assert(es.take(i + 1).drop_last() =~= es.take(i));
    assert(es.take(i + 1).last() == es[i]);
}

proof fn lemma_launch_run_live(m0: LaunchView, es: Seq<LaunchEvent>, i: int)
    requires
        live_stage(m0.stat),
        0 <= i <= es.len(),
    ensures
        launch_run(Some(m0), es.take(i)) matches Some(m) ==> live_stage(m.stat),
    decreases i,
{
    if i == 0 {
        assert(es.take(0) =~= Seq::<LaunchEvent>::empty());
    } else {
        lemma_launch_run_live(m0, es, i - 1);
        lemma_launch_run_step(Some(m0), es, i - 1);
        lemma_launch_event_step(launch_run(Some(m0), es.take(i - 1)), es[i - 1]);
    }
}

/// Over any sequence of events, a launch that starts in a live stage is only ever
/// waiting, challenged, connecting or in control (never initializing or failed); every
/// event does only what `allowed_step` allows: a challenge is opened only from waiting
/// by a request, the peer connection is made only for the expected answer to an open
/// challenge, and the end of the server connection ends the launch for good.
pub proof fn law_launch_run(m0: LaunchView, es: Seq<LaunchEvent>)
    requires
        live_stage(m0.stat),
    ensures
        forall|i: int| 0 <= i <= es.len() ==> (#[trigger] launch_run(Some(m0), es.take(i)) matches Some(m) ==> live_stage(m.stat)),
        forall|i: int| 0 <= i < es.len() ==> allowed_step(#[trigger] launch_run(Some(m0), es.take(i)), es[i], launch_run(Some(m0), es.take(i + 1))),
{
    assert forall|i: int| 0 <= i <= es.len() implies (#[trigger] launch_run(Some(m0), es.take(i)) matches Some(m) ==> live_stage(m.stat)) by {
        lemma_launch_run_live(m0, es, i);
    }
    assert forall|i: int| 0 <= i < es.len() implies allowed_step(#[trigger] launch_run(Some(m0), es.take(i)), es[i], launch_run(Some(m0), es.take(i + 1))) by {
        lemma_launch_run_step(Some(m0), es, i);
        lemma_launch_event_step(launch_run(Some(m0), es.take(i)), es[i]);
    }
}

/// When the controller leaves, the session drops its peer connection and everything
/// queued and waits for a new request, keeping its keys; so a candidate or an answer
/// from the next controller, arriving before its peer connection exists, is kept
/// rather than handed to a connection that is gone.
pub proof fn law_disconnect_drops_connection(m: LaunchView, cand: Seq<char>, answer: Seq<char>)
    ensures
        disconnect_step(m).stat == Status::Pending,
        !disconnect_step(m).rtc,
        disconnect_step(m).pending_ice.len() == 0,
        disconnect_step(m).pending_answer is None,
        disconnect_step(m).keys == m.keys,
        disconnect_step(m).hmac == m.hmac,
        ice_step(disconnect_step(m), cand).1 == false,
        ice_step(disconnect_step(m), cand).0.pending_ice == seq![cand],
        answer_step(disconnect_step(m), answer).1 == AnswerResult::Deferred,
        answer_step(disconnect_step(m), answer).0.pending_answer == Some(answer),
{
    assert(Seq::<Seq<char>>::empty().push(cand) =~= seq![cand]);
}

} // verus!
