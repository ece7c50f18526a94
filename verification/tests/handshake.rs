use p2p_handshake::envelope::{encode_envelope, EnvelopeHeader, MessageEnvelope};
use p2p_handshake::error::{DecodingError, EncodingError, HandshakeError, TransportError};
use p2p_handshake::handshake::{
    failure_of, Action, Event, HandshakeSession, HandshakeState, MAX_IGNORED_MESSAGES,
};
use p2p_handshake::transport::TransportReader;
use p2p_handshake::version::{decode_version, encode_version, NetworkAddress, VersionMessage};

const MAIN: [u8; 4] = [0xf9, 0xbe, 0xb4, 0xd9];
const TEST: [u8; 4] = [0x0b, 0x11, 0x09, 0x07];

fn version(nonce: u64, user_agent: &str) -> VersionMessage {
    let unset = NetworkAddress { ip: [0; 16], services: 0, port: 0 };
    VersionMessage {
        version: 70002,
        services: 1,
        timestamp: 1_700_000_000,
        addr_recv: unset,
        addr_from: unset,
        nonce,
        user_agent: user_agent.to_string(),
        start_height: 0,
        relay: false,
    }
}

fn version_bytes(magic: [u8; 4], nonce: u64) -> Vec<u8> {
    let payload = encode_version(&version(nonce, "/peer:0.1/")).unwrap();
    encode_envelope(magic, "version", &payload).unwrap()
}

fn verack_bytes() -> Vec<u8> {
    encode_envelope(MAIN, "verack", &[]).unwrap()
}

fn message(bytes: &[u8]) -> MessageEnvelope {
    let mut reader = TransportReader::new([bytes[0], bytes[1], bytes[2], bytes[3]]);
    reader.feed(bytes).unwrap();
    reader.next_message().unwrap().unwrap()
}

/// A peer whose side of the exchange is written down beforehand: the chunks its
/// reads deliver, in order. When they run out the deadline passes.
fn run(local: &VersionMessage, peer: Vec<Vec<u8>>) -> (HandshakeSession, Vec<Vec<u8>>) {
    let mut session = HandshakeSession::new(MAIN);
    let mut reader = TransportReader::new(MAIN);
    let mut sent = Vec::new();
    let mut chunks = peer.into_iter();
    let mut action = session.start(local);
    loop {
        let event = match action {
            Action::Done(_) => break,
            Action::Send(bytes) => {
                sent.push(bytes);
                Event::Sent
            }
            Action::Receive => loop {
                match reader.next_message() {
                    Ok(Some(m)) => break Event::Received(m),
                    Ok(None) => {}
                    Err(e) => break Event::Failed(e),
                }
                match chunks.next() {
                    None => break Event::Failed(TransportError::Timeout),
                    Some(chunk) => {
                        if let Err(e) = reader.feed(&chunk) {
                            break Event::Failed(e);
                        }
                    }
                }
            },
        };
        action = session.step(event);
    }
    (session, sent)
}

#[test]
fn handshake_with_a_well_behaved_peer_connects() {
    let local = version(7, "/local:0.1/");
    let (session, sent) = run(&local, vec![version_bytes(MAIN, 9), verack_bytes()]);
    assert_eq!(session.state(), HandshakeState::Connected);
    assert_eq!(session.outcome(), Some(Ok(())));
    assert!(session.is_finished());
    assert_eq!(sent.len(), 2);
    assert_eq!(
        sent[0],
        encode_envelope(MAIN, "version", &encode_version(&local).unwrap()).unwrap()
    );
    assert_eq!(sent[1], verack_bytes());
    assert_eq!(session.local_nonce(), Some(7));
    assert_eq!(session.peer_version(), Some(&version(9, "/peer:0.1/")));
}

#[test]
fn handshake_connects_when_both_messages_come_in_one_read() {
    let mut both = version_bytes(MAIN, 9);
    both.extend_from_slice(&verack_bytes());
    let (session, sent) = run(&version(7, ""), vec![both]);
    assert_eq!(session.state(), HandshakeState::Connected);
    assert_eq!(sent.len(), 2);
}

#[test]
fn handshake_connects_when_the_peer_trickles_bytes() {
    let mut both = version_bytes(MAIN, 9);
    both.extend_from_slice(&verack_bytes());
    let chunks: Vec<Vec<u8>> = both.iter().map(|b| vec![*b]).collect();
    let (session, sent) = run(&version(7, ""), chunks);
    assert_eq!(session.state(), HandshakeState::Connected);
    assert_eq!(sent.len(), 2);
    assert_eq!(session.peer_version().unwrap().nonce, 9);
}

#[test]
fn verack_before_version_is_unexpected() {
    let (session, sent) = run(&version(7, ""), vec![verack_bytes(), version_bytes(MAIN, 9)]);
    assert_eq!(session.state(), HandshakeState::Failed(HandshakeError::UnexpectedMessage));
    assert_eq!(session.outcome(), Some(Err(HandshakeError::UnexpectedMessage)));
    assert_eq!(sent.len(), 1);
    assert_eq!(session.peer_version(), None);
}

#[test]
fn other_first_message_is_unexpected() {
    let ping = encode_envelope(MAIN, "ping", &[0; 8]).unwrap();
    let (session, sent) = run(&version(7, ""), vec![ping, version_bytes(MAIN, 9)]);
    assert_eq!(session.state(), HandshakeState::Failed(HandshakeError::UnexpectedMessage));
    assert_eq!(sent.len(), 1);
}

#[test]
fn corrupted_checksum_fails_before_the_payload_is_decoded() {
    let mut bytes = version_bytes(MAIN, 9);
    bytes[21] ^= 0x01;
    let (session, sent) = run(&version(7, ""), vec![bytes, verack_bytes()]);
    assert_eq!(
        session.state(),
        HandshakeState::Failed(HandshakeError::Transport(TransportError::ChecksumMismatch))
    );
    assert_eq!(sent.len(), 1);
    assert_eq!(session.peer_version(), None);
}

#[test]
fn corrupted_payload_that_would_not_decode_is_still_a_checksum_mismatch() {
    let mut bytes = version_bytes(MAIN, 9);
    // the user agent's length now points past the end of the payload
    bytes[24 + 80] = 0xff;
    assert_eq!(decode_version(&bytes[24..]), Err(DecodingError::Truncated));
    let (session, _) = run(&version(7, ""), vec![bytes]);
    assert_eq!(
        session.state(),
        HandshakeState::Failed(HandshakeError::Transport(TransportError::ChecksumMismatch))
    );
}

#[test]
fn close_in_the_middle_of_a_header_is_connection_closed() {
    let bytes = version_bytes(MAIN, 9);
    let (session, sent) = run(&version(7, ""), vec![bytes[..10].to_vec(), Vec::new()]);
    assert_eq!(
        session.state(),
        HandshakeState::Failed(HandshakeError::Transport(TransportError::ConnectionClosed))
    );
    assert_eq!(sent.len(), 1);
}

#[test]
fn close_before_any_byte_is_connection_closed() {
    let (session, _) = run(&version(7, ""), vec![Vec::new()]);
    assert_eq!(
        session.state(),
        HandshakeState::Failed(HandshakeError::Transport(TransportError::ConnectionClosed))
    );
}

#[test]
fn silence_until_the_deadline_is_a_handshake_timeout() {
    let (session, sent) = run(&version(7, ""), Vec::new());
    assert_eq!(session.state(), HandshakeState::Failed(HandshakeError::HandshakeTimeout));
    assert_eq!(sent.len(), 1);
}

#[test]
fn silence_after_the_version_is_a_handshake_timeout() {
    let (session, sent) = run(&version(7, ""), vec![version_bytes(MAIN, 9)]);
    assert_eq!(session.state(), HandshakeState::Failed(HandshakeError::HandshakeTimeout));
    assert_eq!(sent.len(), 2);
    assert_eq!(session.peer_version().unwrap().nonce, 9);
}

#[test]
fn foreign_magic_fails_the_handshake() {
    let (session, _) = run(&version(7, ""), vec![version_bytes(TEST, 9), verack_bytes()]);
    assert_eq!(
        session.state(),
        HandshakeState::Failed(HandshakeError::Transport(TransportError::BadMagic))
    );
}

#[test]
fn malformed_command_fails_the_handshake() {
    let mut bytes = version_bytes(MAIN, 9);
    bytes[15] = b'?';
    let (session, _) = run(&version(7, ""), vec![bytes]);
    assert_eq!(
        session.state(),
        HandshakeState::Failed(HandshakeError::Transport(TransportError::BadCommand))
    );
}

#[test]
fn version_that_does_not_decode_fails_the_handshake() {
    let short = encode_envelope(MAIN, "version", &[0; 40]).unwrap();
    let (session, sent) = run(&version(7, ""), vec![short]);
    assert_eq!(
        session.state(),
        HandshakeState::Failed(HandshakeError::Decoding(DecodingError::Truncated))
    );
    assert_eq!(sent.len(), 1);
}

#[test]
fn local_version_that_does_not_encode_fails_at_once() {
    let (session, sent) = run(&version(7, &"a".repeat(256)), vec![version_bytes(MAIN, 9)]);
    assert_eq!(
        session.state(),
        HandshakeState::Failed(HandshakeError::Encoding(EncodingError::UserAgentTooLong))
    );
    assert!(sent.is_empty());
    assert_eq!(session.local_nonce(), None);
}

#[test]
fn other_messages_are_passed_over_while_verack_is_awaited() {
    let ping = encode_envelope(MAIN, "ping", &[0; 8]).unwrap();
    let mut peer = vec![version_bytes(MAIN, 9)];
    for _ in 0..MAX_IGNORED_MESSAGES {
        peer.push(ping.clone());
    }
    peer.push(verack_bytes());
    let (session, sent) = run(&version(7, ""), peer);
    assert_eq!(session.state(), HandshakeState::Connected);
    assert_eq!(sent.len(), 2);
}

#[test]
fn one_message_too_many_is_a_handshake_timeout() {
    let ping = encode_envelope(MAIN, "ping", &[0; 8]).unwrap();
    let mut peer = vec![version_bytes(MAIN, 9)];
    for _ in 0..MAX_IGNORED_MESSAGES + 1 {
        peer.push(ping.clone());
    }
    peer.push(verack_bytes());
    let (session, sent) = run(&version(7, ""), peer);
    assert_eq!(session.state(), HandshakeState::Failed(HandshakeError::HandshakeTimeout));
    assert_eq!(sent.len(), 2);
}

#[test]
fn second_version_is_passed_over_while_verack_is_awaited() {
    let peer = vec![version_bytes(MAIN, 9), version_bytes(MAIN, 10), verack_bytes()];
    let (session, sent) = run(&version(7, ""), peer);
    assert_eq!(session.state(), HandshakeState::Connected);
    assert_eq!(sent.len(), 2);
    assert_eq!(session.peer_version().unwrap().nonce, 9);
}

#[test]
fn states_follow_the_exchange() {
    let mut session = HandshakeSession::new(MAIN);
    assert_eq!(session.state(), HandshakeState::Init);
    assert_eq!(session.outcome(), None);
    assert!(!session.is_finished());
    assert!(matches!(session.start(&version(7, "")), Action::Send(_)));
    assert_eq!(session.state(), HandshakeState::VersionSent);
    assert_eq!(session.step(Event::Sent), Action::Receive);
    assert_eq!(session.state(), HandshakeState::AwaitingPeerVersion);
    let reply = session.step(Event::Received(message(&version_bytes(MAIN, 9))));
    assert_eq!(reply, Action::Send(verack_bytes()));
    assert_eq!(session.state(), HandshakeState::VerackSent);
    assert_eq!(session.step(Event::Sent), Action::Receive);
    assert_eq!(session.state(), HandshakeState::AwaitingPeerVerack);
    assert_eq!(session.step(Event::Received(message(&verack_bytes()))), Action::Done(Ok(())));
    assert_eq!(session.state(), HandshakeState::Connected);
}

#[test]
fn failed_write_is_fatal() {
    let mut session = HandshakeSession::new(MAIN);
    session.start(&version(7, ""));
    assert_eq!(
        session.step(Event::Failed(TransportError::WriteFailed)),
        Action::Done(Err(HandshakeError::Transport(TransportError::WriteFailed)))
    );
    assert_eq!(
        session.state(),
        HandshakeState::Failed(HandshakeError::Transport(TransportError::WriteFailed))
    );
}

#[test]
fn deadline_during_a_send_is_a_handshake_timeout() {
    let mut session = HandshakeSession::new(MAIN);
    session.start(&version(7, ""));
    assert_eq!(
        session.step(Event::Failed(TransportError::Timeout)),
        Action::Done(Err(HandshakeError::HandshakeTimeout))
    );
    assert_eq!(session.state(), HandshakeState::Failed(HandshakeError::HandshakeTimeout));
}

#[test]
fn finished_session_stays_as_it_is() {
    let (mut connected, _) = run(&version(7, ""), vec![version_bytes(MAIN, 9), verack_bytes()]);
    let connected_still = Action::Done(Ok(()));
    assert_eq!(connected.step(Event::Failed(TransportError::ConnectionClosed)), connected_still);
    assert_eq!(connected.step(Event::Sent), connected_still);
    assert_eq!(connected.step(Event::Received(message(&verack_bytes()))), connected_still);
    assert_eq!(connected.start(&version(8, "")), connected_still);
    assert_eq!(connected.state(), HandshakeState::Connected);
    let (mut failed, _) = run(&version(7, ""), Vec::new());
    let failed_still = Action::Done(Err(HandshakeError::HandshakeTimeout));
    assert_eq!(failed.step(Event::Received(message(&version_bytes(MAIN, 9)))), failed_still);
    assert_eq!(failed.start(&version(8, "")), failed_still);
    assert_eq!(failed.state(), HandshakeState::Failed(HandshakeError::HandshakeTimeout));
}

#[test]
fn event_that_the_state_does_not_wait_for_fails_the_session() {
    let unexpected = Action::Done(Err(HandshakeError::UnexpectedMessage));
    let mut early = HandshakeSession::new(MAIN);
    assert_eq!(early.step(Event::Sent), unexpected);
    assert_eq!(early.state(), HandshakeState::Failed(HandshakeError::UnexpectedMessage));
    let mut sending = HandshakeSession::new(MAIN);
    sending.start(&version(7, ""));
    assert_eq!(sending.step(Event::Received(message(&version_bytes(MAIN, 9)))), unexpected);
    assert_eq!(sending.state(), HandshakeState::Failed(HandshakeError::UnexpectedMessage));
    let mut twice = HandshakeSession::new(MAIN);
    twice.start(&version(7, ""));
    assert_eq!(twice.start(&version(7, "")), unexpected);
    assert_eq!(twice.state(), HandshakeState::Failed(HandshakeError::UnexpectedMessage));
}

#[test]
fn envelope_that_is_not_intact_is_not_decoded() {
    let mut session = HandshakeSession::new(MAIN);
    session.start(&version(7, ""));
    session.step(Event::Sent);
    let forged = MessageEnvelope {
        header: EnvelopeHeader {
            magic: MAIN,
            command: "version".to_string(),
            length: 86,
            checksum: [0, 0, 0, 0],
        },
        payload: encode_version(&version(9, "")).unwrap(),
    };
    assert_eq!(
        session.step(Event::Received(forged)),
        Action::Done(Err(HandshakeError::Transport(TransportError::ChecksumMismatch)))
    );
    assert_eq!(
        session.state(),
        HandshakeState::Failed(HandshakeError::Transport(TransportError::ChecksumMismatch))
    );
    assert_eq!(session.peer_version(), None);
}

#[test]
fn envelope_of_another_network_is_not_accepted() {
    let mut session = HandshakeSession::new(MAIN);
    session.start(&version(7, ""));
    session.step(Event::Sent);
    assert_eq!(
        session.step(Event::Received(message(&version_bytes(TEST, 9)))),
        Action::Done(Err(HandshakeError::Transport(TransportError::BadMagic)))
    );
    assert_eq!(
        session.state(),
        HandshakeState::Failed(HandshakeError::Transport(TransportError::BadMagic))
    );
}

#[test]
fn only_a_passed_deadline_becomes_a_handshake_timeout() {
    assert_eq!(failure_of(TransportError::Timeout), HandshakeError::HandshakeTimeout);
    assert_eq!(
        failure_of(TransportError::ConnectionClosed),
        HandshakeError::Transport(TransportError::ConnectionClosed)
    );
    assert_eq!(
        failure_of(TransportError::ReadFailed),
        HandshakeError::Transport(TransportError::ReadFailed)
    );
}
