//! The handshake as a state machine.
//!
//! The machine performs no I/O. It is told what happened on the transport
//! (`Event`) and answers with what to do next (`Action`); the caller sends,
//! receives and reports back. The exchange is: send `version`, receive the
//! peer's `version`, send `verack`, receive the peer's `verack`.

use crate::checksum::verify;
use crate::envelope::{
    encode_envelope, spec_encode_envelope, spec_no_nul, spec_nul_only_at_end, EnvelopeView,
    MessageEnvelope, MAGIC_LEN,
};
use crate::error::{DecodingError, EncodingError, HandshakeError, TransportError};
use crate::transport::{lemma_built_envelope_frames, spec_frame, Frame};
use crate::version::{
    decode_version, lemma_version_round_trip, spec_decode_version, spec_encodable,
    spec_encode_version, VersionMessage, VersionPayload,
};
use vstd::prelude::*;
use vstd::utf8::is_ascii_chars;

verus! {

/// How many messages other than `verack` are passed over while the peer's
/// `verack` is awaited. One more fails the handshake.
pub const MAX_IGNORED_MESSAGES: u32 = 16;

/// Where a handshake stands.
#[derive(Clone, Copy, Debug, PartialEq, Eq, Structural)]
pub enum HandshakeState {
    /// Nothing was sent yet.
    Init,
    /// The local `version` was handed to the transport.
    VersionSent,
    /// The peer's first message is awaited.
    AwaitingPeerVersion,
    /// The local `verack` was handed to the transport.
    VerackSent,
    /// The peer's `verack` is awaited.
    AwaitingPeerVerack,
    /// Both sides have acknowledged.
    Connected,
    /// The handshake is over without a connection.
    Failed(HandshakeError),
}

/// What happened on the transport.
#[derive(Clone, Debug, PartialEq, Eq)]
pub enum Event {
    /// The bytes of the last `Send` were written.
    Sent,
    /// A complete message arrived.
    Received(MessageEnvelope),
    /// The send or the receive in progress failed.
    Failed(TransportError),
}

/// What the caller is to do next.
#[derive(Debug, PartialEq, Eq)]
pub enum Action {
    /// Write these bytes, then report `Sent` or `Failed`.
    Send(Vec<u8>),
    /// Read the next message, then report `Received` or `Failed`.
    Receive,
    /// Nothing more: the handshake is over, connected or failed for the reason given.
    Done(Result<(), HandshakeError>),
}

/// An event with its envelope replaced by what the envelope says.
pub enum EventView {
    Sent,
    Received(EnvelopeView),
    Failed(TransportError),
}

/// An action with its bytes as a sequence.
pub enum ActionView {
    Send(Seq<u8>),
    Receive,
    Done(Result<(), HandshakeError>),
}

impl View for Event {
    type V = EventView;

    open spec fn view(&self) -> EventView {
        match self {
            Event::Sent => EventView::Sent,
            Event::Received(m) => EventView::Received(m@),
            Event::Failed(e) => EventView::Failed(*e),
        }
    }
}

impl View for Action {
    type V = ActionView;

    open spec fn view(&self) -> ActionView {
        match self {
            Action::Send(bytes) => ActionView::Send(bytes@),
            Action::Receive => ActionView::Receive,
            Action::Done(r) => ActionView::Done(*r),
        }
    }
}

/// What a session holds.
pub struct SessionView {
    /// Where the handshake stands.
    pub state: HandshakeState,
    /// The magic of the configured network.
    pub magic: Seq<u8>,
    /// The nonce of the local `version`, once it was sent.
    pub local_nonce: Option<u64>,
    /// What the peer's `version` said, once it arrived.
    pub peer: Option<VersionPayload>,
    /// How many messages were passed over while awaiting `verack`.
    pub ignored: nat,
}

impl SessionView {
    /// What holds of a session at every point of its life: the count of
    /// messages passed over is within its bound, the local nonce is known once
    /// the local `version` went out, and the peer's `version` is known once the
    /// local `verack` went out.
    pub open spec fn wf(self) -> bool {
        &&& self.magic.len() == MAGIC_LEN
        &&& self.ignored <= MAX_IGNORED_MESSAGES
        &&& (self.state is Init ==> self.local_nonce is None && self.peer is None)
        &&& (self.state is VersionSent || self.state is AwaitingPeerVersion
            ==> self.local_nonce is Some && self.peer is None)
        &&& (self.state is VerackSent || self.state is AwaitingPeerVerack
            || self.state is Connected ==> self.local_nonce is Some && self.peer is Some)
    }
}

/// The state of one handshake. It lives as long as the handshake does and
/// never owns the transport.
pub struct HandshakeSession {
    state: HandshakeState,
    magic: [u8; 4],
    local_nonce: Option<u64>,
    peer: Option<VersionMessage>,
    ignored: u32,
}

/// The name of the `version` command.
pub open spec fn spec_version_name() -> Seq<char> {
    "version"@
}

/// The name of the `verack` command.
pub open spec fn spec_verack_name() -> Seq<char> {
    "verack"@
}

/// Whether the state is `Connected` or `Failed`.
pub open spec fn spec_is_terminal(state: HandshakeState) -> bool {
    state is Connected || state is Failed
}

/// The failure that a transport error ends the handshake with: a passed
/// deadline is a handshake timeout, every other error is kept.
pub open spec fn spec_failure_of(e: TransportError) -> HandshakeError {
    if e == TransportError::Timeout {
        HandshakeError::HandshakeTimeout
    } else {
        HandshakeError::Transport(e)
    }
}

/// How a handshake in the given state has ended, if it has.
pub open spec fn spec_outcome(state: HandshakeState) -> Option<Result<(), HandshakeError>> {
    match state {
        HandshakeState::Connected => Some(Ok(())),
        HandshakeState::Failed(reason) => Some(Err(reason)),
        _ => None,
    }
}

/// A session that has failed with `reason`, and the action that goes with it.
pub open spec fn spec_fail(s: SessionView, reason: HandshakeError) -> (SessionView, ActionView) {
    (SessionView { state: HandshakeState::Failed(reason), ..s }, ActionView::Done(Err(reason)))
}

/// A finished session as it stays, and the action that says how it ended.
pub open spec fn spec_stay(s: SessionView) -> (SessionView, ActionView)
    recommends
        spec_is_terminal(s.state),
{
    (s, ActionView::Done(spec_outcome(s.state)->Some_0))
}

/// What is wrong with a message that was received, before its command is
/// looked at: the magic of another network, or a length or checksum that is
/// not the payload's.
pub open spec fn spec_envelope_fault(s: SessionView, m: EnvelopeView) -> Option<TransportError> {
    if m.header.magic != s.magic {
        Some(TransportError::BadMagic)
    } else if !m.intact() {
        Some(TransportError::ChecksumMismatch)
    } else {
        None
    }
}

/// Beginning the handshake with the local `version`.
pub open spec fn spec_start(s: SessionView, local: VersionPayload) -> (SessionView, ActionView) {
    if spec_is_terminal(s.state) {
        spec_stay(s)
    } else if !(s.state is Init) {
        spec_fail(s, HandshakeError::UnexpectedMessage)
    } else if !spec_encodable(local) {
        spec_fail(s, HandshakeError::Encoding(EncodingError::UserAgentTooLong))
    } else {
        (
            SessionView {
                state: HandshakeState::VersionSent,
                local_nonce: Some(local.nonce),
                ..s
            },
            ActionView::Send(
                spec_encode_envelope(s.magic, spec_version_name(), spec_encode_version(local)),
            ),
        )
    }
}

/// What the peer's `version` does once its payload was decoded, or was not:
/// a payload that does not decode fails the handshake, one that does is kept
/// and answered with `verack`.
pub open spec fn spec_on_peer_version(
    s: SessionView,
    decoded: Result<VersionPayload, DecodingError>,
) -> (SessionView, ActionView) {
    match decoded {
        Err(e) => spec_fail(s, HandshakeError::Decoding(e)),
        Ok(peer) => (
            SessionView { state: HandshakeState::VerackSent, peer: Some(peer), ..s },
            ActionView::Send(spec_verack_envelope(s.magic)),
        ),
    }
}

/// What a message does that arrives while the peer's `version` is awaited.
pub open spec fn spec_on_first_message(s: SessionView, m: EnvelopeView) -> (
    SessionView,
    ActionView,
) {
    if m.header.command != spec_version_name() {
        spec_fail(s, HandshakeError::UnexpectedMessage)
    } else {
        spec_on_peer_version(s, spec_decode_version(m.payload))
    }
}

/// What a message does that arrives while the peer's `verack` is awaited.
pub open spec fn spec_on_later_message(s: SessionView, m: EnvelopeView) -> (
    SessionView,
    ActionView,
) {
    if m.header.command == spec_verack_name() {
        (SessionView { state: HandshakeState::Connected, ..s }, ActionView::Done(Ok(())))
    } else if s.ignored >= MAX_IGNORED_MESSAGES {
        spec_fail(s, HandshakeError::HandshakeTimeout)
    } else {
        (SessionView { ignored: s.ignored + 1, ..s }, ActionView::Receive)
    }
}

/// The transition function. A finished session stays as it is. A failure
/// of the transport fails the session. An event that the state does not wait
/// for fails it as `UnexpectedMessage`.
pub open spec fn spec_step(s: SessionView, event: EventView) -> (SessionView, ActionView) {
    if spec_is_terminal(s.state) {
        spec_stay(s)
    } else {
        match event {
            EventView::Failed(e) => spec_fail(s, spec_failure_of(e)),
            EventView::Sent => match s.state {
                HandshakeState::VersionSent => (
                    SessionView { state: HandshakeState::AwaitingPeerVersion, ..s },
                    ActionView::Receive,
                ),
                HandshakeState::VerackSent => (
                    SessionView { state: HandshakeState::AwaitingPeerVerack, ..s },
                    ActionView::Receive,
                ),
                _ => spec_fail(s, HandshakeError::UnexpectedMessage),
            },
            EventView::Received(m) => match s.state {
                HandshakeState::AwaitingPeerVersion => match spec_envelope_fault(s, m) {
                    Some(e) => spec_fail(s, HandshakeError::Transport(e)),
                    None => spec_on_first_message(s, m),
                },
                HandshakeState::AwaitingPeerVerack => match spec_envelope_fault(s, m) {
                    Some(e) => spec_fail(s, HandshakeError::Transport(e)),
                    None => spec_on_later_message(s, m),
                },
                _ => spec_fail(s, HandshakeError::UnexpectedMessage),
            },
        }
    }
}

/// The session after a run of events, and the actions answered, oldest first.
pub open spec fn spec_run(s: SessionView, events: Seq<EventView>) -> (SessionView, Seq<ActionView>)
    decreases events.len(),
{
    if events.len() == 0 {
        (s, Seq::empty())
    } else {
        let before = spec_run(s, events.drop_last());
        let last = spec_step(before.0, events.last());
        (last.0, before.1.push(last.1))
    }
}

/// What the actions asked to send, oldest first.
pub open spec fn spec_sent(actions: Seq<ActionView>) -> Seq<Seq<u8>>
    decreases actions.len(),
{
    if actions.len() == 0 {
        Seq::empty()
    } else {
        match actions.last() {
            ActionView::Send(bytes) => spec_sent(actions.drop_last()).push(bytes),
            _ => spec_sent(actions.drop_last()),
        }
    }
}

/// A fresh session for the network with the given magic.
pub open spec fn spec_new(magic: Seq<u8>) -> SessionView {
    SessionView {
        state: HandshakeState::Init,
        magic: magic,
        local_nonce: None,
        peer: None,
        ignored: 0,
    }
}

/// The envelope of the local `version`.
pub open spec fn spec_version_envelope(magic: Seq<u8>, local: VersionPayload) -> Seq<u8> {
    spec_encode_envelope(magic, spec_version_name(), spec_encode_version(local))
}

/// The envelope of a `verack`.
pub open spec fn spec_verack_envelope(magic: Seq<u8>) -> Seq<u8> {
    spec_encode_envelope(magic, spec_verack_name(), Seq::<u8>::empty())
}

/// What was sent so far fits the state: nothing before the start, the
/// `version` while the peer's is awaited, `version` and `verack` from then on.
pub open spec fn spec_sent_fits(
    s: SessionView,
    sent: Seq<Seq<u8>>,
    magic: Seq<u8>,
    local: VersionPayload,
) -> bool {
    &&& s.magic == magic
    &&& match s.state {
        HandshakeState::Init => sent == Seq::<Seq<u8>>::empty(),
        HandshakeState::VersionSent | HandshakeState::AwaitingPeerVersion => sent == seq![
            spec_version_envelope(magic, local),
        ] && s.local_nonce == Some(local.nonce),
        HandshakeState::VerackSent
        | HandshakeState::AwaitingPeerVerack
        | HandshakeState::Connected => sent == seq![
            spec_version_envelope(magic, local),
            spec_verack_envelope(magic),
        ] && s.local_nonce == Some(local.nonce) && s.peer is Some,
        HandshakeState::Failed(_) => true,
    }
}

/// An envelope built under the command `version` or `verack` is handed out
/// whole by the reader, under that command and with the payload it was
/// built with.
pub proof fn lemma_handshake_envelope_frames(magic: Seq<u8>, name: Seq<char>, payload: Seq<u8>)
    requires
        magic.len() == MAGIC_LEN,
        name == spec_version_name() || name == spec_verack_name(),
        payload.len() <= u32::MAX,
    ensures
        spec_frame(spec_encode_envelope(magic, name, payload), magic) matches Frame::Whole(m, rest)
            && rest.len() == 0 && m.header.magic == magic && m.intact() && m.header.command == name
            && m.payload == payload,
{
    reveal_strlit("version");
    reveal_strlit("verack");
    assert(is_ascii_chars(name));
    assert(spec_no_nul(name));
    assert(spec_nul_only_at_end(name));
    lemma_built_envelope_frames(magic, name, payload);
}

/// The envelope of a `version` that fits the wire format reads back: the
/// reader hands it out whole under the command `version`, and its payload
/// decodes to what was encoded.
pub proof fn lemma_version_envelope_round_trip(magic: Seq<u8>, local: VersionPayload)
    requires
        magic.len() == MAGIC_LEN,
        spec_encodable(local),
    ensures
        spec_frame(spec_version_envelope(magic, local), magic) matches Frame::Whole(m, rest)
            && rest.len() == 0 && m.header.magic == magic && m.intact() && m.header.command
            == spec_version_name() && spec_decode_version(m.payload) == Ok::<
            VersionPayload,
            DecodingError,
        >(local),
{
    lemma_version_round_trip(local);
    lemma_handshake_envelope_frames(magic, spec_version_name(), spec_encode_version(local));
}

/// Beginning and every step keep a session well formed.
pub proof fn lemma_step_keeps_wf(s: SessionView, event: EventView, local: VersionPayload)
    requires
        s.wf(),
    ensures
        spec_new(s.magic).wf(),
        spec_start(s, local).0.wf(),
        spec_step(s, event).0.wf(),
{
}

/// A finished session never changes, whatever it is told, and answers with
/// how it ended.
pub proof fn lemma_finished_stays(s: SessionView, event: EventView, local: VersionPayload)
    requires
        spec_is_terminal(s.state),
    ensures
        spec_step(s, event) == (s, ActionView::Done(spec_outcome(s.state)->Some_0)),
        spec_start(s, local) == (s, ActionView::Done(spec_outcome(s.state)->Some_0)),
{
}

/// The one step that connects: an intact `verack` of the configured network,
/// received while the peer's `verack` is awaited.
pub proof fn lemma_connects_only_on_verack(s: SessionView, event: EventView)
    requires
        !(s.state is Connected),
        spec_step(s, event).0.state is Connected,
    ensures
        s.state is AwaitingPeerVerack,
        event matches EventView::Received(m) && m.header.magic == s.magic && m.intact()
            && m.header.command == spec_verack_name(),
{
}

/// A transport failure ends every running session at once, with the
/// failure that belongs to it; nothing is sent or tried again.
pub proof fn lemma_transport_failure_is_final(s: SessionView, e: TransportError)
    requires
        !spec_is_terminal(s.state),
    ensures
        spec_step(s, EventView::Failed(e)).0.state == HandshakeState::Failed(spec_failure_of(e)),
        spec_step(s, EventView::Failed(e)).1 == ActionView::Done(
            Err::<(), HandshakeError>(spec_failure_of(e)),
        ),
{
}

/// While the peer's `version` is awaited, a message under any other
/// command fails the handshake as `UnexpectedMessage`.
pub proof fn lemma_first_message_must_be_version(s: SessionView, m: EnvelopeView)
    requires
        s.state is AwaitingPeerVersion,
        spec_envelope_fault(s, m) is None,
        m.header.command != spec_version_name(),
    ensures
        spec_step(s, EventView::Received(m)) == spec_fail(s, HandshakeError::UnexpectedMessage),
{
}

/// A message of another network fails the handshake as `BadMagic`,
/// whatever its command, checksum and payload are.
pub proof fn lemma_foreign_message_fails(s: SessionView, m: EnvelopeView)
    requires
        s.state is AwaitingPeerVersion || s.state is AwaitingPeerVerack,
        m.header.magic != s.magic,
    ensures
        spec_step(s, EventView::Received(m)) == spec_fail(
            s,
            HandshakeError::Transport(TransportError::BadMagic),
        ),
{
}

/// A message whose checksum or length is not its payload's fails the
/// handshake as `ChecksumMismatch` whatever its payload holds: the payload is
/// never decoded, and the session keeps no peer `version` from it.
pub proof fn lemma_broken_message_is_not_decoded(s: SessionView, m: EnvelopeView)
    requires
        s.state is AwaitingPeerVersion || s.state is AwaitingPeerVerack,
        m.header.magic == s.magic,
        !m.intact(),
    ensures
        spec_step(s, EventView::Received(m)) == spec_fail(
            s,
            HandshakeError::Transport(TransportError::ChecksumMismatch),
        ),
        spec_step(s, EventView::Received(m)).0.peer == s.peer,
{
}

/// The events of an exchange with a peer that answers with its `version`
/// and then its `verack`.
pub open spec fn spec_good_exchange(version: EnvelopeView, verack: EnvelopeView) -> Seq<
    EventView,
> {
    seq![
        EventView::Sent,
        EventView::Received(version),
        EventView::Sent,
        EventView::Received(verack),
    ]
}

/// With a peer that answers with an intact `version` and then an intact
/// `verack`, the handshake connects: the local side sends its `version`,
/// receives, sends `verack`, receives, and is done, holding what the peer's
/// `version` said.
pub proof fn lemma_good_exchange_connects(
    magic: Seq<u8>,
    local: VersionPayload,
    version: EnvelopeView,
    verack: EnvelopeView,
)
    requires
        spec_encodable(local),
        version.header.magic == magic,
        version.intact(),
        version.header.command == spec_version_name(),
        spec_decode_version(version.payload) is Ok,
        verack.header.magic == magic,
        verack.intact(),
        verack.header.command == spec_verack_name(),
    ensures
        ({
            let begun = spec_start(spec_new(magic), local);
            let end = spec_run(begun.0, spec_good_exchange(version, verack));
            &&& begun.1 == ActionView::Send(spec_version_envelope(magic, local))
            &&& end.1 == seq![
                ActionView::Receive,
                ActionView::Send(spec_verack_envelope(magic)),
                ActionView::Receive,
                ActionView::Done(Ok::<(), HandshakeError>(())),
            ]
            &&& end.0.state is Connected
            &&& end.0.peer == Some(spec_decode_version(version.payload)->Ok_0)
            &&& end.0.local_nonce == Some(local.nonce)
        }),
{
    lemma_exchange_connects(spec_start(spec_new(magic), local).0, version, verack);
}

/// From the moment the local `version` went out, an intact `version` and
/// then an intact `verack` from the peer lead to the connected state.
proof fn lemma_exchange_connects(s: SessionView, version: EnvelopeView, verack: EnvelopeView)
    requires
        s.state is VersionSent,
        version.header.magic == s.magic,
        version.intact(),
        version.header.command == spec_version_name(),
        spec_decode_version(version.payload) is Ok,
        verack.header.magic == s.magic,
        verack.intact(),
        verack.header.command == spec_verack_name(),
    ensures
        spec_run(s, spec_good_exchange(version, verack)) == (
            SessionView {
                state: HandshakeState::Connected,
                peer: Some(spec_decode_version(version.payload)->Ok_0),
                ..s
            },
            seq![
                ActionView::Receive,
                ActionView::Send(spec_verack_envelope(s.magic)),
                ActionView::Receive,
                ActionView::Done(Ok::<(), HandshakeError>(())),
            ],
        ),
{
    let none = Seq::<EventView>::empty();
    let e1 = none.push(EventView::Sent);
    let e2 = e1.push(EventView::Received(version));
    let e3 = e2.push(EventView::Sent);
    let e4 = e3.push(EventView::Received(verack));
    lemma_run_one_more(s, none, EventView::Sent);
    lemma_run_one_more(s, e1, EventView::Received(version));
    lemma_run_one_more(s, e2, EventView::Sent);
    lemma_run_one_more(s, e3, EventView::Received(verack));
    assert(e4 =~= spec_good_exchange(version, verack));
    assert(spec_run(s, e4).1 =~= seq![
        ActionView::Receive,
        ActionView::Send(spec_verack_envelope(s.magic)),
        ActionView::Receive,
        ActionView::Done(Ok::<(), HandshakeError>(())),
    ]);
}

/// A run with one more event is the run before it and then one step.
pub proof fn lemma_run_one_more(s: SessionView, events: Seq<EventView>, event: EventView)
    ensures
        spec_run(s, events.push(event)) == (
            spec_step(spec_run(s, events).0, event).0,
            spec_run(s, events).1.push(spec_step(spec_run(s, events).0, event).1),
        ),
{
    assert(events.push(event).drop_last() =~= events);
}

/// One step keeps what was sent in line with the state.
proof fn lemma_step_keeps_fit(
    s: SessionView,
    sent: Seq<Seq<u8>>,
    event: EventView,
    magic: Seq<u8>,
    local: VersionPayload,
)
    requires
        spec_sent_fits(s, sent, magic, local),
        !(s.state is Init),
    ensures
        ({
            let next = spec_step(s, event);
            &&& !(next.0.state is Init)
            &&& spec_sent_fits(
                next.0,
                match next.1 {
                    ActionView::Send(bytes) => sent.push(bytes),
                    _ => sent,
                },
                magic,
                local,
            )
        }),
{
    if s.state is AwaitingPeerVersion {
        if let EventView::Received(m) = event {
            if spec_envelope_fault(s, m) is None {
                lemma_first_message_keeps_fit(s, sent, m, magic, local);
            }
        }
    }
}

/// The peer's first message keeps what was sent in line with the state.
proof fn lemma_first_message_keeps_fit(
    s: SessionView,
    sent: Seq<Seq<u8>>,
    m: EnvelopeView,
    magic: Seq<u8>,
    local: VersionPayload,
)
    requires
        spec_sent_fits(s, sent, magic, local),
        s.state is AwaitingPeerVersion,
    ensures
        ({
            let next = spec_on_first_message(s, m);
            &&& !(next.0.state is Init)
            &&& spec_sent_fits(
                next.0,
                match next.1 {
                    ActionView::Send(bytes) => sent.push(bytes),
                    _ => sent,
                },
                magic,
                local,
            )
        }),
{
    if m.header.command == spec_version_name() {
        lemma_peer_version_keeps_fit(
            s,
            sent,
            spec_decode_version(m.payload),
            spec_version_envelope(magic, local),
            local.nonce,
        );
    }
}

/// The peer's `version` keeps what was sent in line with the state.
proof fn lemma_peer_version_keeps_fit(
    s: SessionView,
    sent: Seq<Seq<u8>>,
    decoded: Result<VersionPayload, DecodingError>,
    version: Seq<u8>,
    nonce: u64,
)
    requires
        s.state is AwaitingPeerVersion,
        sent == seq![version],
        s.local_nonce == Some(nonce),
    ensures
        ({
            let next = spec_on_peer_version(s, decoded);
            &&& next.0.magic == s.magic
            &&& next.0.state is VerackSent || next.0.state is Failed
            &&& next.0.state is VerackSent ==> next.0.peer is Some && next.0.local_nonce == Some(
                nonce,
            ) && next.1 == ActionView::Send(spec_verack_envelope(s.magic)) && sent.push(
                spec_verack_envelope(s.magic),
            ) == seq![version, spec_verack_envelope(s.magic)]
            &&& next.0.state is Failed ==> next.1 is Done
        }),
{
    assert(sent.push(spec_verack_envelope(s.magic)) =~= seq![
        version,
        spec_verack_envelope(s.magic),
    ]);
}

/// In every run that ends connected, the local side has sent exactly its
/// `version` and then one `verack`, and holds the peer's `version`.
pub proof fn lemma_connected_run(magic: Seq<u8>, local: VersionPayload, events: Seq<EventView>)
    requires
        spec_run(spec_start(spec_new(magic), local).0, events).0.state is Connected,
    ensures
        ({
            let begun = spec_start(spec_new(magic), local);
            let end = spec_run(begun.0, events);
            &&& spec_sent(seq![begun.1] + end.1) == seq![
                spec_version_envelope(magic, local),
                spec_verack_envelope(magic),
            ]
            &&& end.0.peer is Some
            &&& end.0.local_nonce == Some(local.nonce)
        }),
{
    lemma_run_keeps_fit(magic, local, events);
}

/// At every point of every run, what was sent is in line with the state:
/// the `version` goes out once, before anything is received, and the
/// `verack` once, after the peer's `version` has arrived.
pub proof fn lemma_run_keeps_fit(magic: Seq<u8>, local: VersionPayload, events: Seq<EventView>)
    ensures
        ({
            let begun = spec_start(spec_new(magic), local);
            let end = spec_run(begun.0, events);
            &&& !(end.0.state is Init)
            &&& spec_sent_fits(end.0, spec_sent(seq![begun.1] + end.1), magic, local)
        }),
    decreases events.len(),
{
    let begun = spec_start(spec_new(magic), local);
    let end = spec_run(begun.0, events);
    let all = seq![begun.1] + end.1;
    if events.len() == 0 {
        assert(all =~= seq![begun.1]);
        assert(all.drop_last() =~= Seq::<ActionView>::empty());
        assert(spec_sent(all.drop_last()) =~= Seq::<Seq<u8>>::empty());
        if let ActionView::Send(bytes) = begun.1 {
            assert(spec_sent(all) =~= seq![spec_version_envelope(magic, local)]);
        }
    } else {
        let before = spec_run(begun.0, events.drop_last());
        lemma_run_keeps_fit(magic, local, events.drop_last());
        let last = spec_step(before.0, events.last());
        let earlier = seq![begun.1] + before.1;
        assert(all =~= earlier.push(last.1));
        assert(all.drop_last() =~= earlier);
        lemma_step_keeps_fit(before.0, spec_sent(earlier), events.last(), magic, local);
    }
}

/// The failure for a transport error.
pub fn failure_of(e: TransportError) -> (reason: HandshakeError)
    ensures
        reason == spec_failure_of(e),
{
    match e {
        TransportError::Timeout => HandshakeError::HandshakeTimeout,
        _ => HandshakeError::Transport(e),
    }
}

/// Whether two strings hold the same characters.
fn same_text(a: &String, b: &str) -> (same: bool)
    ensures
        same == (a@ == b@),
{
    let other: String = b.to_owned();
    *a == other
}

impl View for HandshakeSession {
    type V = SessionView;

    closed spec fn view(&self) -> SessionView {
        SessionView {
            state: self.state,
            magic: self.magic@,
            local_nonce: self.local_nonce,
            peer: match self.peer {
                Some(v) => Some(v@),
                None => None,
            },
            ignored: self.ignored as nat,
        }
    }
}

impl HandshakeSession {
    #[verifier::type_invariant]
    closed spec fn well_formed(&self) -> bool {
        self@.wf()
    }

    /// A session in `Init` for the network with the given magic.
    pub fn new(network_magic: [u8; 4]) -> (session: HandshakeSession)
        ensures
            session@ == spec_new(network_magic@),
            session@.wf(),
    {
        HandshakeSession {
            state: HandshakeState::Init,
            magic: network_magic,
            local_nonce: None,
            peer: None,
            ignored: 0,
        }
    }

    /// Where the handshake stands.
    pub fn state(&self) -> (state: HandshakeState)
        ensures
            state == self@.state,
            self@.wf(),
    {
        proof {
            use_type_invariant(self);
        }
        self.state
    }

    /// Whether the handshake is over.
    pub fn is_finished(&self) -> (done: bool)
        ensures
            done == spec_is_terminal(self@.state),
    {
        match self.state {
            HandshakeState::Connected => true,
            HandshakeState::Failed(_) => true,
            _ => false,
        }
    }

    /// The nonce of the local `version`, once it was sent.
    pub fn local_nonce(&self) -> (nonce: Option<u64>)
        ensures
            nonce == self@.local_nonce,
    {
        self.local_nonce
    }

    /// The peer's `version`, once it arrived.
    pub fn peer_version(&self) -> (peer: Option<&VersionMessage>)
        ensures
            peer is Some == self@.peer is Some,
            peer matches Some(v) ==> self@.peer == Some(v@),
            self@.wf(),
    {
        proof {
            use_type_invariant(self);
        }
        self.peer.as_ref()
    }

    /// `Ok` once connected, the reason once failed, `None` while the handshake runs.
    pub fn outcome(&self) -> (r: Option<Result<(), HandshakeError>>)
        ensures
            r == spec_outcome(self@.state),
    {
        match self.state {
            HandshakeState::Connected => Some(Ok(())),
            HandshakeState::Failed(reason) => Some(Err(reason)),
            _ => None,
        }
    }

    /// Ends the session as failed.
    fn fail(&mut self, reason: HandshakeError) -> (action: Action)
        ensures
            (final(self)@, action@) == spec_fail(old(self)@, reason),
    {
        proof {
            use_type_invariant(&*self);
        }
        self.state = HandshakeState::Failed(reason);
        Action::Done(Err(reason))
    }

    /// Leaves a finished session as it is.
    fn stay(&self) -> (action: Action)
        requires
            spec_is_terminal(self@.state),
        ensures
            (self@, action@) == spec_stay(self@),
    {
        match self.state {
            HandshakeState::Failed(reason) => Action::Done(Err(reason)),
            _ => Action::Done(Ok(())),
        }
    }

    /// Begins the handshake: encodes the local `version` and asks for it to
    /// be sent.
    pub fn start(&mut self, local: &VersionMessage) -> (action: Action)
        ensures
            (final(self)@, action@) == spec_start(old(self)@, local@),
            final(self)@.wf(),
    {
        let action: Action = self.begin(local);
        proof {
            use_type_invariant(&*self);
        }
        action
    }

    /// The work of `start`.
    fn begin(&mut self, local: &VersionMessage) -> (action: Action)
        ensures
            (final(self)@, action@) == spec_start(old(self)@, local@),
    {
        if self.is_finished() {
            return self.stay();
        }
        match self.state {
            HandshakeState::Init => {},
            _ => {
                return self.fail(HandshakeError::UnexpectedMessage);
            },
        }
        let payload: Vec<u8> = match local.to_bytes() {
            Ok(bytes) => bytes,
            Err(e) => {
                return self.fail(HandshakeError::Encoding(e));
            },
        };
        proof {
            reveal_strlit("version");
            vstd::utf8::is_ascii_chars_encode_utf8("version"@);
        }
        match encode_envelope(self.magic, "version", payload.as_slice()) {
            Ok(bytes) => {
                proof {
                    use_type_invariant(&*self);
                }
                *self = HandshakeSession {
                    state: HandshakeState::VersionSent,
                    magic: self.magic,
                    local_nonce: Some(local.nonce),
                    peer: None,
                    ignored: self.ignored,
                };
                Action::Send(bytes)
            },
            Err(e) => self.fail(HandshakeError::Encoding(e)),
        }
    }

    /// Checks a received message before its command is looked at.
    fn envelope_fault(&self, m: &MessageEnvelope) -> (fault: Option<TransportError>)
        ensures
            fault == spec_envelope_fault(self@, m@),
    {
        if m.header.magic[0] != self.magic[0] || m.header.magic[1] != self.magic[1]
            || m.header.magic[2] != self.magic[2] || m.header.magic[3] != self.magic[3] {
            return Some(TransportError::BadMagic);
        }
        assert(m.header.magic@ =~= self.magic@);
        if m.payload.len() > u32::MAX as usize || m.payload.len() as u32 != m.header.length {
            return Some(TransportError::ChecksumMismatch);
        }
        if !verify(m.payload.as_slice(), m.header.checksum) {
            return Some(TransportError::ChecksumMismatch);
        }
        None
    }

    /// Takes the peer's first message.
    fn on_first_message(&mut self, m: MessageEnvelope) -> (action: Action)
        requires
            old(self)@.state is AwaitingPeerVersion,
        ensures
            (final(self)@, action@) == spec_on_first_message(old(self)@, m@),
    {
        proof {
            use_type_invariant(&*self);
        }
        if !same_text(&m.header.command, "version") {
            return self.fail(HandshakeError::UnexpectedMessage);
        }
        let peer: VersionMessage = match decode_version(m.payload.as_slice()) {
            Ok(v) => v,
            Err(e) => {
                return self.fail(HandshakeError::Decoding(e));
            },
        };
        proof {
            reveal_strlit("verack");
            vstd::utf8::is_ascii_chars_encode_utf8("verack"@);
        }
        let empty: Vec<u8> = Vec::new();
        match encode_envelope(self.magic, "verack", empty.as_slice()) {
            Ok(bytes) => {
                *self = HandshakeSession {
                    state: HandshakeState::VerackSent,
                    magic: self.magic,
                    local_nonce: self.local_nonce,
                    peer: Some(peer),
                    ignored: self.ignored,
                };
                Action::Send(bytes)
            },
            Err(e) => self.fail(HandshakeError::Encoding(e)),
        }
    }

    /// Takes a message that arrives while `verack` is awaited.
    fn on_later_message(&mut self, m: MessageEnvelope) -> (action: Action)
        requires
            old(self)@.state is AwaitingPeerVerack,
        ensures
            (final(self)@, action@) == spec_on_later_message(old(self)@, m@),
    {
        proof {
            use_type_invariant(&*self);
        }
        if same_text(&m.header.command, "verack") {
            self.state = HandshakeState::Connected;
            return Action::Done(Ok(()));
        }
        if self.ignored >= MAX_IGNORED_MESSAGES {
            return self.fail(HandshakeError::HandshakeTimeout);
        }
        self.ignored = self.ignored + 1;
        Action::Receive
    }

    /// Takes what happened on the transport and says what to do next.
    pub fn step(&mut self, event: Event) -> (action: Action)
        ensures
            (final(self)@, action@) == spec_step(old(self)@, event@),
            final(self)@.wf(),
    {
        let action: Action = self.advance(event);
        proof {
            use_type_invariant(&*self);
        }
        action
    }

    /// The work of `step`.
    fn advance(&mut self, event: Event) -> (action: Action)
        ensures
            (final(self)@, action@) == spec_step(old(self)@, event@),
    {
        if self.is_finished() {
            return self.stay();
        }
        proof {
            use_type_invariant(&*self);
        }
        match event {
            Event::Failed(e) => self.fail(failure_of(e)),
            Event::Sent => match self.state {
                HandshakeState::VersionSent => {
                    self.state = HandshakeState::AwaitingPeerVersion;
                    Action::Receive
                },
                HandshakeState::VerackSent => {
                    self.state = HandshakeState::AwaitingPeerVerack;
                    Action::Receive
                },
                _ => self.fail(HandshakeError::UnexpectedMessage),
            },
            Event::Received(m) => match self.state {
                HandshakeState::AwaitingPeerVersion => match self.envelope_fault(&m) {
                    Some(e) => self.fail(HandshakeError::Transport(e)),
                    None => self.on_first_message(m),
                },
                HandshakeState::AwaitingPeerVerack => match self.envelope_fault(&m) {
                    Some(e) => self.fail(HandshakeError::Transport(e)),
                    None => self.on_later_message(m),
                },
                _ => self.fail(HandshakeError::UnexpectedMessage),
            },
        }
    }
}

} // verus!
