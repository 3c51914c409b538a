//! Connections to peers.
pub mod connection;
pub mod handshake;

use crate::io_error::{IoError, IoErrorKind, Timed};
use vstd::prelude::*;

verus! {

/// Who holds back, and who wants something, on a connection.
#[derive(Debug, PartialEq, Eq, Structural)]
pub struct PeerState {
    pub am_choking: bool,
    pub am_interested: bool,
    pub peer_choking: bool,
    pub peer_interested: bool,
}

impl PeerState {
    /// Both sides hold back and neither wants anything.
    pub open spec fn initial() -> PeerState {
        PeerState {
            am_choking: true,
            am_interested: false,
            peer_choking: true,
            peer_interested: false,
        }
    }

    /// The state of a new connection.
    pub fn new() -> (state: Self)
        ensures
            state == PeerState::initial(),
    {
        PeerState {
            am_choking: true,
            am_interested: false,
            peer_choking: true,
            peer_interested: false,
        }
    }
}

impl Default for PeerState {
    fn default() -> (state: Self)
        ensures
            state == PeerState::initial(),
    {
        Self::new()
    }
}

impl Clone for PeerState {
    fn clone(&self) -> (copy: Self)
        ensures
            copy == *self,
    {
        PeerState {
            am_choking: self.am_choking,
            am_interested: self.am_interested,
            peer_choking: self.peer_choking,
            peer_interested: self.peer_interested,
        }
    }
}

/// What the engine asks of a connection.
#[derive(Debug)]
pub enum PeerCommand {
    SendInterested,
    SendNotInterested,
    RequestPiece { index: u32, begin: u32, length: u32 },
    Disconnect,
}

/// Why there is no connection to a peer.
#[derive(Debug)]
pub enum PeerError {
    Io(IoError),
    Handshake(String),
}

impl PeerError {
    /// The error in words.
    pub open spec fn words(self) -> Seq<char> {
        match self {
            PeerError::Io(error) => "I/O error: "@ + error.text@,
            PeerError::Handshake(reason) => "Handshake failed: "@ + reason@,
        }
    }

    /// The error in words.
    pub fn message(&self) -> (text: String)
        ensures
            text@ == self.words(),
    {
        match self {
            PeerError::Io(error) => "I/O error: ".to_owned().concat(error.text.as_str()),
            PeerError::Handshake(reason) => "Handshake failed: ".to_owned().concat(reason.as_str()),
        }
    }
}

/// What comes of opening a TCP connection to a peer.
pub fn connected<S>(outcome: Timed<S>) -> (result: Result<S, PeerError>)
    ensures
        match outcome {
            Timed::Done(stream) => result == Ok::<S, PeerError>(stream),
            Timed::Failed(error) => result == Err::<S, PeerError>(PeerError::Io(error)),
            Timed::TimedOut => result matches Err(PeerError::Io(error)) && error@ == (
                IoErrorKind::TimedOut,
                "TCP connect timeout"@,
            ),
        },
{
    match outcome {
        Timed::Done(stream) => Ok(stream),
        Timed::Failed(error) => Err(PeerError::Io(error)),
        Timed::TimedOut => Err(
            PeerError::Io(IoError::new(IoErrorKind::TimedOut, "TCP connect timeout")),
        ),
    }
}

/// What comes of the handshake on an open connection.
pub fn greeted(outcome: Result<[u8; 20], IoError>) -> (result: Result<[u8; 20], PeerError>)
    ensures
        match outcome {
            Ok(peer_id) => result == Ok::<[u8; 20], PeerError>(peer_id),
            Err(error) => result matches Err(PeerError::Handshake(reason)) && reason@
                == error.text@,
        },
{
    match outcome {
        Ok(peer_id) => Ok(peer_id),
        Err(error) => Err(PeerError::Handshake(error.text)),
    }
}

/// What is said of an error: what was tried, and why it failed.
pub proof fn peer_errors_have_their_words(io: IoError, reason: String)
    ensures
        PeerError::Io(io).words() == "I/O error: "@ + io.text@,
        PeerError::Handshake(reason).words() == "Handshake failed: "@ + reason@,
{
}

} // verus!
