//! The handshake driver: one `version` out, the peer's `version` in, one
//! `verack` out.
//!
//! The driver decides and never touches the stream. It hands its caller one
//! request at a time, and the caller reports what came of it as an event.

use crate::handshake::error::ConnectionError;
use crate::handshake::network::{EndpointData, SocketAddress};
use crate::message::{
    mainnet_magic, mapped_address, network_magic, Address, MessageData, NetworkMessage,
    RawMessageData, RawNetworkMessage, VersionData, VersionMessage, PROTOCOL_VERSION,
    SERVICES_NONE,
};
use vstd::prelude::*;

verus! {

/// Where a handshake stands.
#[derive(Clone, Debug, PartialEq, Eq)]
pub enum HandshakeState {
    /// Our `version` has been handed out and is not yet known to be written.
    Start,
    /// Our `version` is written; the peer's is awaited.
    VersionSent,
    /// The peer's `version` has arrived; our `verack` has been handed out and
    /// is not yet known to be written.
    VersionReceived,
    /// The handshake is complete.
    Done,
    /// The handshake has failed, for good.
    Failed(ConnectionError),
}

/// What came of the driver's last request.
#[derive(Clone, Debug, PartialEq, Eq)]
pub enum HandshakeEvent {
    /// The message handed out was written to the stream.
    Sent,
    /// The message handed out could not be written; the text says why.
    SendFailed(String),
    /// The stream delivered a message.
    Received(RawNetworkMessage),
    /// The stream delivered bytes that are no message.
    Undecodable,
    /// The stream ended.
    Closed,
}

/// What the driver asks of its caller next.
#[derive(Clone, Debug, PartialEq, Eq)]
pub enum HandshakeAction {
    /// Write this message to the stream, and report `Sent` or `SendFailed`.
    Send(RawNetworkMessage),
    /// Read the next message, and report `Received`, `Undecodable` or
    /// `Closed`.
    Receive,
    /// Nothing more: the handshake is complete or has failed.
    Stop,
}

/// A request as a mathematical value.
pub enum ActionData {
    Send(RawMessageData),
    Receive,
    Stop,
}

impl View for HandshakeAction {
    type V = ActionData;

    open spec fn view(&self) -> ActionData {
        match self {
            HandshakeAction::Send(message) => ActionData::Send(message@),
            HandshakeAction::Receive => ActionData::Receive,
            HandshakeAction::Stop => ActionData::Stop,
        }
    }
}

/// Our `version`, framed for the main network.
pub open spec fn version_greeting(version: VersionMessage) -> RawMessageData {
    RawMessageData { magic: mainnet_magic(), payload: MessageData::Version(version@) }
}

/// Our `verack`, framed for the main network.
pub open spec fn verack_reply() -> RawMessageData {
    RawMessageData { magic: mainnet_magic(), payload: MessageData::Verack }
}

/// The state that follows `state` on `event`.
///
/// A write that fails ends the handshake as a sending failure. A stream that
/// ends, or delivers what is no message, ends it as a lost connection. While
/// the peer's `version` is awaited, a `version` moves the handshake on and
/// any other message is passed over. An event that answers no request (a
/// message while a write is pending, a written message while one is awaited)
/// shows a stream that cannot be relied on, and ends the handshake as a lost
/// connection. Nothing leaves `Done` or `Failed`.
pub open spec fn next_state(state: HandshakeState, event: HandshakeEvent) -> HandshakeState {
    match state {
        HandshakeState::Done => HandshakeState::Done,
        HandshakeState::Failed(e) => HandshakeState::Failed(e),
        HandshakeState::Start => match event {
            HandshakeEvent::Sent => HandshakeState::VersionSent,
            HandshakeEvent::SendFailed(cause) => HandshakeState::Failed(
                ConnectionError::SendingFailed(cause),
            ),
            _ => HandshakeState::Failed(ConnectionError::ConnectionLost),
        },
        HandshakeState::VersionSent => match event {
            HandshakeEvent::Received(message) => if message.payload is Version {
                HandshakeState::VersionReceived
            } else {
                HandshakeState::VersionSent
            },
            HandshakeEvent::SendFailed(cause) => HandshakeState::Failed(
                ConnectionError::SendingFailed(cause),
            ),
            _ => HandshakeState::Failed(ConnectionError::ConnectionLost),
        },
        HandshakeState::VersionReceived => match event {
            HandshakeEvent::Sent => HandshakeState::Done,
            HandshakeEvent::SendFailed(cause) => HandshakeState::Failed(
                ConnectionError::SendingFailed(cause),
            ),
            _ => HandshakeState::Failed(ConnectionError::ConnectionLost),
        },
    }
}

/// What the driver asks for on entering a state: the next message while the
/// peer's `version` is awaited, the writing of our `verack` once it has
/// arrived, and nothing once the handshake is over.
pub open spec fn next_action(state: HandshakeState, event: HandshakeEvent) -> ActionData {
    match next_state(state, event) {
        HandshakeState::VersionSent => ActionData::Receive,
        HandshakeState::VersionReceived => ActionData::Send(verack_reply()),
        _ => ActionData::Stop,
    }
}

/// Opens a handshake: the driver starts out in `Start` and asks for our
/// `version` to be written.
pub fn begin(version: VersionMessage) -> (opened: (HandshakeState, HandshakeAction))
    ensures
        opened.0 == HandshakeState::Start,
        opened.1@ == ActionData::Send(version_greeting(version)),
{
    let greeting = RawNetworkMessage {
        magic: network_magic(),
        payload: NetworkMessage::Version(version),
    };
    (HandshakeState::Start, HandshakeAction::Send(greeting))
}

/// Moves the handshake on by one event.
pub fn step(state: HandshakeState, event: HandshakeEvent) -> (moved: (
    HandshakeState,
    HandshakeAction,
))
    ensures
        moved.0 == next_state(state, event),
        moved.1@ == next_action(state, event),
{
    match state {
        HandshakeState::Done => (HandshakeState::Done, HandshakeAction::Stop),
        HandshakeState::Failed(e) => (HandshakeState::Failed(e), HandshakeAction::Stop),
        HandshakeState::Start => match event {
            HandshakeEvent::Sent => (HandshakeState::VersionSent, HandshakeAction::Receive),
            HandshakeEvent::SendFailed(cause) => (
                HandshakeState::Failed(ConnectionError::SendingFailed(cause)),
                HandshakeAction::Stop,
            ),
            _ => (HandshakeState::Failed(ConnectionError::ConnectionLost), HandshakeAction::Stop),
        },
        HandshakeState::VersionSent => match event {
            HandshakeEvent::Received(message) => match message.payload {
                NetworkMessage::Version(_) => {
                    let reply = RawNetworkMessage {
                        magic: network_magic(),
                        payload: NetworkMessage::Verack,
                    };
                    (HandshakeState::VersionReceived, HandshakeAction::Send(reply))
                },
                _ => (HandshakeState::VersionSent, HandshakeAction::Receive),
            },
            HandshakeEvent::SendFailed(cause) => (
                HandshakeState::Failed(ConnectionError::SendingFailed(cause)),
                HandshakeAction::Stop,
            ),
            _ => (HandshakeState::Failed(ConnectionError::ConnectionLost), HandshakeAction::Stop),
        },
        HandshakeState::VersionReceived => match event {
            HandshakeEvent::Sent => (HandshakeState::Done, HandshakeAction::Stop),
            HandshakeEvent::SendFailed(cause) => (
                HandshakeState::Failed(ConnectionError::SendingFailed(cause)),
                HandshakeAction::Stop,
            ),
            _ => (HandshakeState::Failed(ConnectionError::ConnectionLost), HandshakeAction::Stop),
        },
    }
}

/// How the handshake ended, if it has.
pub fn outcome(state: HandshakeState) -> (ended: Option<Result<(), ConnectionError>>)
    ensures
        ended == match state {
            HandshakeState::Done => Some(Ok::<(), ConnectionError>(())),
            HandshakeState::Failed(e) => Some(Err::<(), ConnectionError>(e)),
            _ => None::<Result<(), ConnectionError>>,
        },
{
    match state {
        HandshakeState::Done => Some(Ok(())),
        HandshakeState::Failed(e) => Some(Err(e)),
        _ => None,
    }
}

/// The number of messages that the driver asks to have written along a run
/// of events.
pub open spec fn writes_asked(state: HandshakeState, events: Seq<HandshakeEvent>) -> nat
    decreases events.len(),
{
    if events.len() == 0 {
        0
    } else {
        let asked: nat = if next_action(state, events[0]) is Send {
            1
        } else {
            0
        };
        asked + writes_asked(next_state(state, events[0]), events.skip(1))
    }
}

/// The state that a run of events leads to.
pub open spec fn state_after(state: HandshakeState, events: Seq<HandshakeEvent>) -> HandshakeState
    decreases events.len(),
{
    if events.len() == 0 {
        state
    } else {
        state_after(next_state(state, events[0]), events.skip(1))
    }
}

/// Nothing is sent twice: whatever the stream does, the driver asks for one
/// write after the opening `version` at most, and what it asks to have
/// written is the `verack`. Once the peer's `version` has arrived, or the
/// handshake is over, it asks for none.
pub proof fn lemma_single_reply(state: HandshakeState, events: Seq<HandshakeEvent>)
    ensures
        writes_asked(state, events) <= 1,
        state is VersionReceived || state is Done || state is Failed ==> writes_asked(state, events)
            == 0,
        forall|event: HandshakeEvent| #[trigger]
            next_action(state, event) is Send ==> next_action(state, event) == ActionData::Send(
                verack_reply(),
            ),
    decreases events.len(),
{
    if events.len() > 0 {
        lemma_single_reply(next_state(state, events[0]), events.skip(1));
    }
}

/// A handshake that is over stays as it ended, whatever is reported to it.
pub proof fn lemma_ended_for_good(state: HandshakeState, events: Seq<HandshakeEvent>)
    requires
        state is Done || state is Failed,
    ensures
        state_after(state, events) == state,
    decreases events.len(),
{
    if events.len() > 0 {
        lemma_ended_for_good(state, events.skip(1));
    }
}

/// Whether every event of a run is the arrival of a message that is no
/// `version`.
pub open spec fn all_passed_over(events: Seq<HandshakeEvent>) -> bool {
    forall|i: int|
        0 <= i < events.len() ==> (#[trigger] events[i] matches HandshakeEvent::Received(message)
            && !(message.payload is Version))
}

/// While the peer's `version` is awaited, messages of other kinds change
/// nothing: the run that follows them ends where it would have ended
/// without them, with as many writes asked.
pub proof fn lemma_noise_is_passed_over(noise: Seq<HandshakeEvent>, rest: Seq<HandshakeEvent>)
    requires
        all_passed_over(noise),
    ensures
        state_after(HandshakeState::VersionSent, noise + rest) == state_after(
            HandshakeState::VersionSent,
            rest,
        ),
        writes_asked(HandshakeState::VersionSent, noise + rest) == writes_asked(
            HandshakeState::VersionSent,
            rest,
        ),
    decreases noise.len(),
{
    if noise.len() == 0 {
        assert(noise + rest =~= rest);
    } else {
        let run = noise + rest;
        assert(run[0] == noise[0]);
        assert(run.skip(1) =~= noise.skip(1) + rest);
        assert(all_passed_over(noise.skip(1))) by {
            assert forall|i: int| 0 <= i < noise.skip(1).len() implies (
            #[trigger] noise.skip(1)[i] matches HandshakeEvent::Received(message)
                && !(message.payload is Version)) by {
                assert(noise.skip(1)[i] == noise[i + 1]);
            }
        }
        lemma_noise_is_passed_over(noise.skip(1), rest);
    }
}

/// A peer that answers our `version` with its own completes the handshake,
/// whatever else it sends first: once our `version` is written, any messages
/// of other kinds have been passed over, the peer's `version` has arrived
/// and our `verack` is written, the handshake is done, and the `verack` is
/// the one write that was asked for on the way.
pub proof fn lemma_handshake_completes(noise: Seq<HandshakeEvent>, version: RawNetworkMessage)
    requires
        all_passed_over(noise),
        version.payload is Version,
    ensures
        state_after(
            HandshakeState::Start,
            seq![HandshakeEvent::Sent] + noise + seq![
                HandshakeEvent::Received(version),
                HandshakeEvent::Sent,
            ],
        ) == HandshakeState::Done,
        writes_asked(
            HandshakeState::Start,
            seq![HandshakeEvent::Sent] + noise + seq![
                HandshakeEvent::Received(version),
                HandshakeEvent::Sent,
            ],
        ) == 1,
{
    let close = seq![HandshakeEvent::Received(version), HandshakeEvent::Sent];
    let run = seq![HandshakeEvent::Sent] + noise + close;
    assert(run[0] == HandshakeEvent::Sent);
    assert(run.skip(1) =~= noise + close);
    lemma_noise_is_passed_over(noise, close);
    reveal_with_fuel(state_after, 3);
    reveal_with_fuel(writes_asked, 3);
    assert(close[0] == HandshakeEvent::Received(version));
    assert(close.skip(1)[0] == HandshakeEvent::Sent);
    assert(close.skip(1).skip(1).len() == 0);
}

/// A peer that closes the stream before its `version` has arrived loses the
/// connection for us, whatever else it sent first, and no `verack` is asked
/// for.
pub proof fn lemma_disconnect_before_version(noise: Seq<HandshakeEvent>)
    requires
        all_passed_over(noise),
    ensures
        state_after(
            HandshakeState::Start,
            seq![HandshakeEvent::Sent] + noise + seq![HandshakeEvent::Closed],
        ) == HandshakeState::Failed(ConnectionError::ConnectionLost),
        writes_asked(
            HandshakeState::Start,
            seq![HandshakeEvent::Sent] + noise + seq![HandshakeEvent::Closed],
        ) == 0,
{
    let close = seq![HandshakeEvent::Closed];
    let run = seq![HandshakeEvent::Sent] + noise + close;
    assert(run[0] == HandshakeEvent::Sent);
    assert(run.skip(1) =~= noise + close);
    lemma_noise_is_passed_over(noise, close);
    reveal_with_fuel(state_after, 2);
    reveal_with_fuel(writes_asked, 2);
    assert(close[0] == HandshakeEvent::Closed);
    assert(close.skip(1).len() == 0);
}

/// What this client says of itself in its `version`.
#[derive(Clone, Debug, PartialEq, Eq)]
pub struct HandshakeConfig {
    /// The height of the best chain that the client knows.
    pub start_height: i32,
    /// The name of the client's software.
    pub user_agent: String,
}

impl HandshakeConfig {
    /// The configuration from what the operator has set: a start height
    /// that is not set is 0, a user agent that is not set is empty.
    pub fn new(start_height: Option<i32>, user_agent: Option<String>) -> (config: HandshakeConfig)
        ensures
            config.start_height == match start_height {
                Some(height) => height,
                None => 0,
            },
            config.user_agent@ == match user_agent {
                Some(agent) => agent@,
                None => Seq::empty(),
            },
    {
        HandshakeConfig {
            start_height: match start_height {
                Some(height) => height,
                None => 0,
            },
            user_agent: match user_agent {
                Some(agent) => agent,
                None => String::new(),
            },
        }
    }
}

/// `chrono::Utc::now().timestamp()`: the seconds since the epoch by this
/// machine's clock. Nothing is known of the value.
#[verifier::external_body]
fn unix_time_now() -> (seconds: i64) {
    chrono::Utc::now().timestamp()
}

/// `rand::Rng::gen` on `rand::thread_rng()`: a random number. Nothing is
/// known of the value.
#[verifier::external_body]
fn fresh_nonce() -> (nonce: u64) {
    rand::Rng::gen(&mut rand::thread_rng())
}

/// The `version` that this client sends at a given time and with a given
/// nonce: it speaks the client's protocol version, advertises no services,
/// for itself or for either address, names the peer as receiver and the
/// local address as sender, carries the configured user agent and start
/// height, and asks for no relaying.
pub open spec fn version_data(
    receiver: EndpointData,
    sender: EndpointData,
    config: HandshakeConfig,
    timestamp: i64,
    nonce: u64,
) -> VersionData {
    VersionData {
        version: PROTOCOL_VERSION,
        services: SERVICES_NONE,
        timestamp,
        receiver: mapped_address(receiver, SERVICES_NONE),
        sender: mapped_address(sender, SERVICES_NONE),
        nonce,
        user_agent: config.user_agent@,
        start_height: config.start_height,
        relay: false,
    }
}

/// Builds the `version` that this client sends at a given time and with a
/// given nonce.
pub fn version_message_at(
    receiver_address: &SocketAddress,
    sender_address: &SocketAddress,
    config: &HandshakeConfig,
    timestamp: i64,
    nonce: u64,
) -> (message: VersionMessage)
    ensures
        message@ == version_data(receiver_address@, sender_address@, *config, timestamp, nonce),
{
    let sender = Address::new(sender_address, SERVICES_NONE);
    let receiver = Address::new(receiver_address, SERVICES_NONE);
    VersionMessage::new(
        SERVICES_NONE,
        timestamp,
        receiver,
        sender,
        nonce,
        config.user_agent.clone(),
        config.start_height,
    )
}

/// Builds the `version` that this client sends now: the time is read off
/// the clock and the nonce is drawn afresh, so of those two nothing is
/// promised; everything else is as `version_data` says.
pub fn build_version_message(
    receiver_address: &SocketAddress,
    sender_address: &SocketAddress,
    config: &HandshakeConfig,
) -> (message: VersionMessage)
    ensures
        message@ == version_data(
            receiver_address@,
            sender_address@,
            *config,
            message.timestamp,
            message.nonce,
        ),
{
    let timestamp = unix_time_now();
    let nonce = fresh_nonce();
    version_message_at(receiver_address, sender_address, config, timestamp, nonce)
}

} // verus!
