use rektorrent::codec::PwpMessage;
use rektorrent::io_error::{IoError, IoErrorKind, Timed};
use rektorrent::peer::connection::{PeerAction, PeerConnection, PeerEvent};
use rektorrent::peer::handshake::{answered, opening, sent};
use rektorrent::peer::{connected, greeted, PeerCommand, PeerError, PeerState};

fn received(octets: &[u8]) -> [u8; 68] {
    let mut response = [0u8; 68];
    response.copy_from_slice(octets);
    response
}

#[test]
fn test_handshake_format() {
    let info_hash = [1u8; 20];
    let peer_id = [2u8; 20];

    let mut expected = vec![19];
    expected.extend_from_slice(b"BitTorrent protocol");
    expected.extend_from_slice(&[0; 8]);
    expected.extend_from_slice(&info_hash);
    expected.extend_from_slice(&peer_id);

    assert_eq!(expected.len(), 68);
    assert_eq!(opening(&info_hash, &peer_id), expected);
}

#[test]
fn handshake_is_accepted_for_the_same_torrent() {
    let response = received(&opening(&[1; 20], &[2; 20]));
    assert_eq!(answered(Timed::Done(response), &[1; 20]).unwrap(), [2; 20]);
    let error = answered(Timed::Done(response), &[3; 20]).unwrap_err();
    assert_eq!(error.kind, IoErrorKind::InvalidData);
    assert_eq!(error.text, "Info hash mismatch");
}

#[test]
fn handshake_of_another_protocol_is_refused() {
    let mut response = received(&opening(&[1; 20], &[2; 20]));
    response[0] = 18;
    let error = answered(Timed::Done(response), &[1; 20]).unwrap_err();
    assert_eq!(error.kind, IoErrorKind::InvalidData);
    assert_eq!(error.text, "Invalid protocol string from peer");
    let mut response = received(&opening(&[1; 20], &[2; 20]));
    response[19] = b'L';
    assert_eq!(
        answered(Timed::Done(response), &[1; 20]).unwrap_err().text,
        "Invalid protocol string from peer"
    );
}

#[test]
fn reserved_octets_of_a_handshake_do_not_matter() {
    let mut response = received(&opening(&[1; 20], &[2; 20]));
    response[25] = 0x10;
    assert_eq!(answered(Timed::Done(response), &[1; 20]).unwrap(), [2; 20]);
}

#[test]
fn handshake_can_time_out_or_fail() {
    assert!(sent(Timed::Done(())).is_ok());
    let late = sent(Timed::TimedOut).unwrap_err();
    assert_eq!(late.kind, IoErrorKind::TimedOut);
    assert_eq!(late.text, "Handshake write timed out");
    let failed = sent(Timed::Failed(IoError::new(IoErrorKind::Other, "broken pipe"))).unwrap_err();
    assert_eq!(failed.text, "broken pipe");
    let late = answered(Timed::TimedOut, &[1; 20]).unwrap_err();
    assert_eq!(late.kind, IoErrorKind::TimedOut);
    assert_eq!(late.text, "Handshake read timed out");
    let error = IoError::new(IoErrorKind::Other, "early eof");
    assert_eq!(answered(Timed::Failed(error), &[1; 20]).unwrap_err().text, "early eof");
}

#[test]
fn connecting_can_time_out_or_fail() {
    assert_eq!(connected(Timed::Done(5)).unwrap(), 5);
    let late = connected::<u8>(Timed::TimedOut).unwrap_err();
    assert_eq!(late.message(), "I/O error: TCP connect timeout");
    assert!(matches!(
        late,
        PeerError::Io(IoError { kind: IoErrorKind::TimedOut, .. })
    ));
    let refused = IoError::new(IoErrorKind::Other, "refused");
    assert_eq!(
        connected::<u8>(Timed::Failed(refused)).unwrap_err().message(),
        "I/O error: refused"
    );
    assert_eq!(greeted(Ok([7; 20])).unwrap(), [7; 20]);
    let mismatch = IoError::new(IoErrorKind::InvalidData, "Info hash mismatch");
    assert_eq!(
        greeted(Err(mismatch)).unwrap_err().message(),
        "Handshake failed: Info hash mismatch"
    );
}

#[test]
fn a_connection_starts_choked() {
    let expected = PeerState {
        am_choking: true,
        am_interested: false,
        peer_choking: true,
        peer_interested: false,
    };
    assert_eq!(PeerState::new(), expected);
    assert_eq!(PeerState::default(), expected);
    assert_eq!(PeerConnection::new().state.clone(), expected);
}

#[test]
fn the_state_follows_the_peer() {
    let mut connection = PeerConnection::new();
    connection.handle_network_message(PwpMessage::Unchoke);
    assert!(!connection.state.peer_choking);
    connection.handle_network_message(PwpMessage::Interested);
    assert!(connection.state.peer_interested);
    connection.handle_network_message(PwpMessage::Have(4));
    connection.handle_network_message(PwpMessage::KeepAlive);
    assert!(!connection.state.peer_choking);
    connection.handle_network_message(PwpMessage::Choke);
    connection.handle_network_message(PwpMessage::NotInterested);
    assert_eq!(connection.state, PeerState::new());
}

#[test]
fn the_state_follows_the_engine() {
    let mut connection = PeerConnection::new();
    let message = connection.handle_engine_command(PeerCommand::SendInterested).unwrap();
    assert_eq!(message, Some(PwpMessage::Interested));
    assert!(connection.state.am_interested);
    let message = connection.handle_engine_command(PeerCommand::SendNotInterested).unwrap();
    assert_eq!(message, Some(PwpMessage::NotInterested));
    assert!(!connection.state.am_interested);
}

#[test]
fn requests_wait_until_the_peer_unchokes() {
    let mut connection = PeerConnection::new();
    let request = || PeerCommand::RequestPiece { index: 1, begin: 2, length: 3 };
    assert_eq!(connection.handle_engine_command(request()).unwrap(), None);
    connection.handle_network_message(PwpMessage::Unchoke);
    assert_eq!(
        connection.handle_engine_command(request()).unwrap(),
        Some(PwpMessage::Request { index: 1, begin: 2, length: 3 })
    );
    connection.handle_network_message(PwpMessage::Choke);
    assert_eq!(connection.handle_engine_command(request()).unwrap(), None);
}

#[test]
fn events_lead_to_actions() {
    let mut connection = PeerConnection::new();
    assert!(matches!(
        connection.on_event(PeerEvent::Received(PwpMessage::Unchoke)),
        PeerAction::Wait
    ));
    assert!(!connection.state.peer_choking);
    assert!(matches!(
        connection.on_event(PeerEvent::Command(PeerCommand::SendInterested)),
        PeerAction::Send(PwpMessage::Interested)
    ));
    connection.on_event(PeerEvent::Received(PwpMessage::Choke));
    let request = PeerCommand::RequestPiece { index: 0, begin: 0, length: 1 };
    assert!(matches!(connection.on_event(PeerEvent::Command(request)), PeerAction::Wait));
    match connection.on_event(PeerEvent::Command(PeerCommand::Disconnect)) {
        PeerAction::Finish(Err(error)) => {
            assert_eq!(error.kind, IoErrorKind::ConnectionAborted);
            assert_eq!(error.text, "Engine requested disconnect");
        }
        other => panic!("{:?}", other),
    }
    for event in [
        PeerEvent::ReceiveFailed(IoError::new(IoErrorKind::Other, "gone")),
        PeerEvent::SendFailed(IoError::new(IoErrorKind::Other, "gone")),
    ] {
        match connection.on_event(event) {
            PeerAction::Finish(Err(error)) => assert_eq!(error.text, "gone"),
            other => panic!("{:?}", other),
        }
    }
    assert!(matches!(connection.on_event(PeerEvent::Closed), PeerAction::Finish(Ok(()))));
}
