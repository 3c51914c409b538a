//! What a connection does with what arrives on it.
use super::{PeerCommand, PeerState};
use crate::codec::PwpMessage;
#[allow(unused_imports)]
use crate::codec::Wire;
use crate::io_error::{IoError, IoErrorKind};
use vstd::prelude::*;

verus! {

impl PeerState {
    /// The state once the peer has sent `message`.
    pub open spec fn after_message(self, message: Wire) -> PeerState {
        match message {
            Wire::Choke => PeerState { peer_choking: true, ..self },
            Wire::Unchoke => PeerState { peer_choking: false, ..self },
            Wire::Interested => PeerState { peer_interested: true, ..self },
            Wire::NotInterested => PeerState { peer_interested: false, ..self },
            _ => self,
        }
    }

    /// The state once the engine has given `command`.
    pub open spec fn after_command(self, command: PeerCommand) -> PeerState {
        match command {
            PeerCommand::SendInterested => PeerState { am_interested: true, ..self },
            PeerCommand::SendNotInterested => PeerState { am_interested: false, ..self },
            _ => self,
        }
    }

    /// The message that the engine's `command` has sent to the peer, if any.
    pub open spec fn message_for(self, command: PeerCommand) -> Option<Wire> {
        match command {
            PeerCommand::SendInterested => Some(Wire::Interested),
            PeerCommand::SendNotInterested => Some(Wire::NotInterested),
            PeerCommand::RequestPiece { index, begin, length } => if self.peer_choking {
                None
            } else {
                Some(Wire::Request { index, begin, length })
            },
            PeerCommand::Disconnect => None,
        }
    }
}

/// What can happen on a connection.
#[derive(Debug)]
pub enum PeerEvent {
    /// The peer has sent a message.
    Received(PwpMessage),
    /// What the peer has sent cannot be read.
    ReceiveFailed(IoError),
    /// The engine has given a command.
    Command(PeerCommand),
    /// A message could not be sent.
    SendFailed(IoError),
    /// Neither the peer nor the engine has anything more to say.
    Closed,
}

/// What is to be done on a connection.
#[derive(Debug)]
pub enum PeerAction {
    /// Wait for what happens next.
    Wait,
    /// Send a message to the peer, then wait for what happens next.
    Send(PwpMessage),
    /// Stop.
    Finish(Result<(), IoError>),
}

/// A connection to a peer.
#[derive(Debug)]
pub struct PeerConnection {
    pub state: PeerState,
}

impl PeerConnection {
    /// A connection on which nothing has happened yet.
    pub fn new() -> (connection: Self)
        ensures
            connection.state == PeerState::initial(),
    {
        PeerConnection { state: PeerState::new() }
    }

    /// Takes a message of the peer.
    pub fn handle_network_message(&mut self, message: PwpMessage)
        ensures
            final(self).state == old(self).state.after_message(message@),
    {
        match message {
            PwpMessage::Choke => {
                self.state.peer_choking = true;
            },
            PwpMessage::Unchoke => {
                self.state.peer_choking = false;
            },
            PwpMessage::Interested => {
                self.state.peer_interested = true;
            },
            PwpMessage::NotInterested => {
                self.state.peer_interested = false;
            },
            _ => {},
        }
    }

    /// Takes a command of the engine and tells which message it has sent. A piece is
    /// requested only while the peer is not choking. To disconnect is an error.
    pub fn handle_engine_command(&mut self, command: PeerCommand) -> (result: Result<
        Option<PwpMessage>,
        IoError,
    >)
        ensures
            final(self).state == old(self).state.after_command(command),
            match (command, old(self).state.message_for(command)) {
                (PeerCommand::Disconnect, _) => result matches Err(error) && error@ == (
                    IoErrorKind::ConnectionAborted,
                    "Engine requested disconnect"@,
                ),
                (_, None) => result == Ok::<Option<PwpMessage>, IoError>(None),
                (_, Some(wire)) => result matches Ok(Some(message)) && message@ == wire,
            },
    {
        match command {
            PeerCommand::SendInterested => {
                self.state.am_interested = true;
                Ok(Some(PwpMessage::Interested))
            },
            PeerCommand::SendNotInterested => {
                self.state.am_interested = false;
                Ok(Some(PwpMessage::NotInterested))
            },
            PeerCommand::RequestPiece { index, begin, length } => {
                if self.state.peer_choking {
                    Ok(None)
                } else {
                    Ok(Some(PwpMessage::Request { index, begin, length }))
                }
            },
            PeerCommand::Disconnect => Err(
                IoError::new(IoErrorKind::ConnectionAborted, "Engine requested disconnect"),
            ),
        }
    }

    /// Takes what has happened and tells what to do next. A connection goes on until it is
    /// closed, the engine disconnects it, or something cannot be sent or read.
    pub fn on_event(&mut self, event: PeerEvent) -> (action: PeerAction)
        ensures
            match event {
                PeerEvent::Received(message) => action == PeerAction::Wait && final(self).state
                    == old(self).state.after_message(message@),
                PeerEvent::Command(command) => final(self).state == old(self).state.after_command(
                    command,
                ) && match (command, old(self).state.message_for(command)) {
                    (PeerCommand::Disconnect, _) => action matches PeerAction::Finish(Err(error))
                        && error@ == (
                        IoErrorKind::ConnectionAborted,
                        "Engine requested disconnect"@,
                    ),
                    (_, None) => action == PeerAction::Wait,
                    (_, Some(wire)) => action matches PeerAction::Send(message) && message@ == wire,
                },
                PeerEvent::ReceiveFailed(error) | PeerEvent::SendFailed(error) => action
                    == PeerAction::Finish(Err(error)) && final(self).state == old(self).state,
                PeerEvent::Closed => action == PeerAction::Finish(Ok(())) && final(self).state
                    == old(self).state,
            },
    {
        match event {
            PeerEvent::Received(message) => {
                self.handle_network_message(message);
                PeerAction::Wait
            },
            PeerEvent::Command(command) => match self.handle_engine_command(command) {
                Ok(Some(message)) => PeerAction::Send(message),
                Ok(None) => PeerAction::Wait,
                Err(error) => PeerAction::Finish(Err(error)),
            },
            PeerEvent::ReceiveFailed(error) => PeerAction::Finish(Err(error)),
            PeerEvent::SendFailed(error) => PeerAction::Finish(Err(error)),
            PeerEvent::Closed => PeerAction::Finish(Ok(())),
        }
    }
}

/// One thing that bears on the state of a connection.
pub enum Happening {
    Message(Wire),
    Command(PeerCommand),
}

/// The state of a connection on which `past` has happened since it was opened.
pub open spec fn state_after(past: Seq<Happening>) -> PeerState
    decreases past.len(),
{
    if past.len() == 0 {
        PeerState::initial()
    } else {
        match past.last() {
            Happening::Message(message) => state_after(past.drop_last()).after_message(message),
            Happening::Command(command) => state_after(past.drop_last()).after_command(command),
        }
    }
}

/// Whether the peer is choking: it does until it unchokes, and what it said last holds.
pub open spec fn last_said_choke(past: Seq<Happening>) -> bool
    decreases past.len(),
{
    if past.len() == 0 {
        true
    } else {
        match past.last() {
            Happening::Message(Wire::Choke) => true,
            Happening::Message(Wire::Unchoke) => false,
            _ => last_said_choke(past.drop_last()),
        }
    }
}

/// Whether the peer is interested: it is not until it says so, and what it said last holds.
pub open spec fn last_said_interested(past: Seq<Happening>) -> bool
    decreases past.len(),
{
    if past.len() == 0 {
        false
    } else {
        match past.last() {
            Happening::Message(Wire::Interested) => true,
            Happening::Message(Wire::NotInterested) => false,
            _ => last_said_interested(past.drop_last()),
        }
    }
}

/// Whether the engine is interested: it is not until it says so, and what it said last holds.
pub open spec fn last_commanded_interest(past: Seq<Happening>) -> bool
    decreases past.len(),
{
    if past.len() == 0 {
        false
    } else {
        match past.last() {
            Happening::Command(PeerCommand::SendInterested) => true,
            Happening::Command(PeerCommand::SendNotInterested) => false,
            _ => last_commanded_interest(past.drop_last()),
        }
    }
}

/// The state of a connection says of each side what that side said last, and that the own
/// side chokes, which nothing changes.
pub proof fn state_tells_what_was_said_last(past: Seq<Happening>)
    ensures
        state_after(past) == (PeerState {
            am_choking: true,
            am_interested: last_commanded_interest(past),
            peer_choking: last_said_choke(past),
            peer_interested: last_said_interested(past),
        }),
    decreases past.len(),
{
    if past.len() > 0 {
        state_tells_what_was_said_last(past.drop_last());
    }
}

/// A piece is requested, and nothing else is, exactly where the last thing that the peer
/// said of choking is that it stopped.
pub proof fn requests_wait_for_unchoke(past: Seq<Happening>, index: u32, begin: u32, length: u32)
    ensures
        state_after(past).message_for(PeerCommand::RequestPiece { index, begin, length })
            == if last_said_choke(past) {
            None::<Wire>
        } else {
            Some(Wire::Request { index, begin, length })
        },
{
    state_tells_what_was_said_last(past);
}

/// Where the peer never unchokes, no piece is requested.
pub proof fn no_request_without_unchoke(past: Seq<Happening>, index: u32, begin: u32, length: u32)
    requires
        forall|i: int|
            0 <= i < past.len() ==> #[trigger] past[i] != Happening::Message(Wire::Unchoke),
    ensures
        state_after(past).message_for(PeerCommand::RequestPiece { index, begin, length }) is None,
    decreases past.len(),
{
    requests_wait_for_unchoke(past, index, begin, length);
    if past.len() > 0 {
        assert(past[past.len() - 1] != Happening::Message(Wire::Unchoke));
        let earlier = past.drop_last();
        assert forall|i: int| 0 <= i < earlier.len() implies #[trigger] earlier[i]
            != Happening::Message(Wire::Unchoke) by {
            assert(earlier[i] == past[i]);
        }
        no_request_without_unchoke(earlier, index, begin, length);
        requests_wait_for_unchoke(earlier, index, begin, length);
    }
}

/// A message of the peer changes the one flag that it is about, and no other message changes
/// anything.
pub proof fn messages_change_what_they_say(state: PeerState, message: Wire)
    ensures
        ({
            let after = state.after_message(message);
            &&& after.am_choking == state.am_choking
            &&& after.am_interested == state.am_interested
            &&& message == Wire::Choke ==> after.peer_choking
            &&& message == Wire::Unchoke ==> !after.peer_choking
            &&& message != Wire::Choke && message != Wire::Unchoke ==> after.peer_choking
                == state.peer_choking
            &&& message == Wire::Interested ==> after.peer_interested
            &&& message == Wire::NotInterested ==> !after.peer_interested
            &&& message != Wire::Interested && message != Wire::NotInterested
                ==> after.peer_interested == state.peer_interested
        }),
{
}

/// A command changes nothing but whether the own side is interested, and that only where it
/// is to be said; that is then the message to send. A piece is asked for in the words of the
/// command, and only where the peer does not choke. To disconnect sends nothing.
pub proof fn commands_do_what_they_say(state: PeerState, index: u32, begin: u32, length: u32)
    ensures
        ({
            let command = PeerCommand::SendInterested;
            &&& state.after_command(command) == (PeerState { am_interested: true, ..state })
            &&& state.message_for(command) == Some(Wire::Interested)
        }),
        ({
            let command = PeerCommand::SendNotInterested;
            &&& state.after_command(command) == (PeerState { am_interested: false, ..state })
            &&& state.message_for(command) == Some(Wire::NotInterested)
        }),
        ({
            let command = PeerCommand::RequestPiece { index, begin, length };
            &&& state.after_command(command) == state
            &&& state.peer_choking ==> state.message_for(command) is None
            &&& !state.peer_choking ==> state.message_for(command) == Some(
                Wire::Request { index, begin, length },
            )
        }),
        state.after_command(PeerCommand::Disconnect) == state,
        state.message_for(PeerCommand::Disconnect) is None,
{
}

/// At first both sides choke and neither is interested.
pub proof fn connections_start_choked()
    ensures
        PeerState::initial().am_choking,
        PeerState::initial().peer_choking,
        !PeerState::initial().am_interested,
        !PeerState::initial().peer_interested,
{
}

} // verus!
