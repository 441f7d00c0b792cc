//! Control flow of a test over the control connection: the client's
//! handshake and result collection as a state machine, and the server's
//! decision on a client's setup request.  The caller performs the I/O and the data
//! transfer and reports what it read.
use crate::measurements::{names_udp, protocol_is_udp};
use vstd::prelude::*;

verus! {

/// A control message as far as the control flow is concerned.
#[derive(Debug)]
pub enum ControlEvent {
    /// Test parameters requested by the client
    Setup {
        protocol: String,
        duration_secs: u64,
        bandwidth: Option<u64>,
        buffer_size: usize,
        parallel: usize,
        reverse: bool,
    },
    /// The server accepted the setup
    SetupAck,
    /// The test starts
    Start,
    /// Periodic statistics
    Interval,
    /// Final statistics
    Result,
    /// The test is over
    Done,
    /// The peer reports an error
    Error(String),
    /// No message could be read
    ReadFailed,
}

/// Where the client is in a test.
#[derive(Debug, Clone, Copy, PartialEq, Eq, Structural)]
pub enum ClientState {
    AwaitingAck,
    AwaitingStart,
    AwaitingResult,
    AwaitingDone,
    Finished,
}

/// What the client does next.
#[derive(Debug)]
pub enum ClientAction {
    /// Read the next control message
    ReadNext,
    /// Report that the test started, transfer data (receive in reverse mode,
    /// send otherwise), then read the next control message
    Transfer { reverse: bool },
    /// Report the results; the test is complete
    Finish,
    /// Stop with a protocol error carrying this message
    Fail(String),
}

/// "Server error: " followed by the server's message.
pub open spec fn server_error_text(message: Seq<char>) -> Seq<char> {
    "Server error: "@ + message
}

/// The client's next state and action after `event` in state `state`:
/// the setup must be acknowledged (an error reply is passed on) and the test
/// must start; after the transfer, the result and the completion messages
/// are read but whatever arrives, even nothing, ends the test.
pub open spec fn client_transition(state: ClientState, reverse: bool, event: ControlEvent) -> (
    ClientState,
    ClientActionSpec,
) {
    match state {
        ClientState::AwaitingAck => match event {
            ControlEvent::SetupAck => (ClientState::AwaitingStart, ClientActionSpec::ReadNext),
            ControlEvent::Error(m) => (
                ClientState::Finished,
                ClientActionSpec::Fail(server_error_text(m@)),
            ),
            _ => (ClientState::Finished, ClientActionSpec::Fail("Expected SetupAck message"@)),
        },
        ClientState::AwaitingStart => match event {
            ControlEvent::Start => (
                ClientState::AwaitingResult,
                ClientActionSpec::Transfer { reverse },
            ),
            _ => (ClientState::Finished, ClientActionSpec::Fail("Expected Start message"@)),
        },
        ClientState::AwaitingResult => (ClientState::AwaitingDone, ClientActionSpec::ReadNext),
        ClientState::AwaitingDone => (ClientState::Finished, ClientActionSpec::Finish),
        ClientState::Finished => (ClientState::Finished, ClientActionSpec::Finish),
    }
}

/// `ClientAction` with the error text as a sequence of characters.
pub enum ClientActionSpec {
    ReadNext,
    Transfer { reverse: bool },
    Finish,
    Fail(Seq<char>),
}

/// The abstract form of an action.
pub open spec fn action_spec(a: ClientAction) -> ClientActionSpec {
    match a {
        ClientAction::ReadNext => ClientActionSpec::ReadNext,
        ClientAction::Transfer { reverse } => ClientActionSpec::Transfer { reverse },
        ClientAction::Finish => ClientActionSpec::Finish,
        ClientAction::Fail(m) => ClientActionSpec::Fail(m@),
    }
}

/// The client's step: the next state and action after reading `event`.
pub fn client_step(state: ClientState, reverse: bool, event: ControlEvent) -> (r: (
    ClientState,
    ClientAction,
))
    ensures
        (r.0, action_spec(r.1)) == client_transition(state, reverse, event),
{
    proof {
        reveal_strlit("Server error: ");
        reveal_strlit("Expected SetupAck message");
        reveal_strlit("Expected Start message");
    }
    match state {
        ClientState::AwaitingAck => match event {
            ControlEvent::SetupAck => (ClientState::AwaitingStart, ClientAction::ReadNext),
            ControlEvent::Error(m) => {
                let mut text = String::from_str("Server error: ");
                text.append(m.as_str());
                (ClientState::Finished, ClientAction::Fail(text))
            },
            _ => (
                ClientState::Finished,
                ClientAction::Fail(String::from_str("Expected SetupAck message")),
            ),
        },
        ClientState::AwaitingStart => match event {
            ControlEvent::Start => (ClientState::AwaitingResult, ClientAction::Transfer { reverse }),
            _ => (
                ClientState::Finished,
                ClientAction::Fail(String::from_str("Expected Start message")),
            ),
        },
        ClientState::AwaitingResult => (ClientState::AwaitingDone, ClientAction::ReadNext),
        ClientState::AwaitingDone => (ClientState::Finished, ClientAction::Finish),
        ClientState::Finished => (ClientState::Finished, ClientAction::Finish),
    }
}

/// The client's state after reading `events` in turn, from the start of a
/// test.
pub open spec fn client_replay(reverse: bool, events: Seq<ControlEvent>) -> ClientState
    decreases events.len(),
{
    if events.len() == 0 {
        ClientState::AwaitingAck
    } else {
        client_transition(client_replay(reverse, events.drop_last()), reverse, events.last()).0
    }
}

/// Where a client stands after `events`: it needs the acknowledgment, then
/// the start signal, and any other message ends the test; after the start
/// it reads two more messages, whatever they are, and is done.
pub open spec fn replay_outcome(events: Seq<ControlEvent>) -> ClientState {
    if events.len() == 0 {
        ClientState::AwaitingAck
    } else if !(events[0] is SetupAck) {
        ClientState::Finished
    } else if events.len() == 1 {
        ClientState::AwaitingStart
    } else if !(events[1] is Start) {
        ClientState::Finished
    } else if events.len() == 2 {
        ClientState::AwaitingResult
    } else if events.len() == 3 {
        ClientState::AwaitingDone
    } else {
        ClientState::Finished
    }
}

proof fn lemma_client_replay(reverse: bool, events: Seq<ControlEvent>)
    ensures
        client_replay(reverse, events) == replay_outcome(events),
    decreases events.len(),
{
    if events.len() > 0 {
        let prefix = events.drop_last();
        lemma_client_replay(reverse, prefix);
        if events.len() >= 2 {
            assert(prefix[0] == events[0]);
        }
        if events.len() >= 3 {
            assert(prefix[1] == events[1]);
        }
    }
}

/// The client transfers data only once the server has acknowledged the
/// setup and signalled the start, and only in answer to that start signal:
/// the second message.  Whatever the server sends, the test is over after
/// four messages at the latest, and a finished client stays finished.
pub proof fn lemma_client_handshake(reverse: bool, events: Seq<ControlEvent>, i: int)
    requires
        0 <= i < events.len(),
    ensures
        client_transition(client_replay(reverse, events.take(i)), reverse, events[i]).1 is Transfer
            ==> i == 1 && events[0] is SetupAck && events[1] is Start,
        events.len() >= 4 ==> client_replay(reverse, events) == ClientState::Finished,
        client_replay(reverse, events.take(i)) == ClientState::Finished ==> client_replay(
            reverse,
            events.take(i + 1),
        ) == ClientState::Finished,
{
    lemma_client_replay(reverse, events.take(i));
    lemma_client_replay(reverse, events.take(i + 1));
    lemma_client_replay(reverse, events);
    let t = events.take(i);
    if i >= 1 {
        assert(t[0] == events[0]);
    }
    if i >= 2 {
        assert(t[1] == events[1]);
    }
    let t1 = events.take(i + 1);
    assert(t1.drop_last() =~= t);
    assert(t1.last() == events[i]);
    assert(t1[0] == events[0]);
    if i >= 1 {
        assert(t1[1] == events[1]);
    }
}

/// The transfer goes the way the client is configured: a client that reads
/// the acknowledgment and then the start signal transfers data right away,
/// sending in normal mode and receiving in reverse mode, and any transfer a
/// run of messages leads to goes in that direction.
pub proof fn lemma_client_transfer_direction(reverse: bool, events: Seq<ControlEvent>, i: int)
    requires
        0 <= i < events.len(),
    ensures
        events.len() >= 2 && events[0] is SetupAck && events[1] is Start ==> client_transition(
            client_replay(reverse, events.take(1)),
            reverse,
            events[1],
        ) == (ClientState::AwaitingResult, ClientActionSpec::Transfer { reverse }),
        client_transition(client_replay(reverse, events.take(i)), reverse, events[i]).1 matches ClientActionSpec::Transfer { reverse: r } ==> r == reverse,
{
    lemma_client_replay(reverse, events.take(i));
    let t = events.take(i);
    if i >= 1 {
        assert(t[0] == events[0]);
    }
    if events.len() >= 2 {
        lemma_client_replay(reverse, events.take(1));
        assert(events.take(1)[0] == events[0]);
    }
}

/// How the server runs a client's test.
#[derive(Debug)]
pub enum ServerPlan {
    /// A UDP test: the control connection only carries the handshake; the
    /// server's configuration is used with these test parameters
    Udp { duration_secs: u64, reverse: bool, bandwidth: Option<u64>, buffer_size: usize },
    /// A TCP test over the control connection
    Tcp { duration_secs: u64, reverse: bool, bandwidth: Option<u64> },
}

/// The server's answer to the first message of a client: a setup whose
/// protocol names UDP in any letter case ("Udp", "UDP", ...) runs a UDP test,
/// any other setup a TCP test; anything but a setup is refused with
/// "Expected Setup message".
pub fn server_plan(event: ControlEvent) -> (r: Result<ServerPlan, String>)
    ensures
        match event {
            ControlEvent::Setup { protocol, duration_secs, bandwidth, buffer_size, reverse, .. } => {
                if names_udp(protocol@) {
                    r matches Ok(ServerPlan::Udp { duration_secs: d, reverse: rv, bandwidth: b, buffer_size: s })
                        && d == duration_secs && rv == reverse && b == bandwidth && s == buffer_size
                } else {
                    r matches Ok(ServerPlan::Tcp { duration_secs: d, reverse: rv, bandwidth: b })
                        && d == duration_secs && rv == reverse && b == bandwidth
                }
            },
            _ => r matches Err(m) && m@ == "Expected Setup message"@,
        },
{
    match event {
        ControlEvent::Setup { protocol, duration_secs, bandwidth, buffer_size, reverse, .. } => {
            if protocol_is_udp(protocol.as_str()) {
                Ok(ServerPlan::Udp { duration_secs, reverse, bandwidth, buffer_size })
            } else {
                Ok(ServerPlan::Tcp { duration_secs, reverse, bandwidth })
            }
        },
        _ => Err(String::from_str("Expected Setup message")),
    }
}


/// The longest wait for a datagram while receiving a UDP test: 100 ms.
pub const RECEIVE_POLL_NANOS: u64 = 100_000_000;

/// How long the UDP receiver waits for the next datagram, `elapsed_nanos`
/// into a test of `duration_nanos`: what is left of the test, but at most
/// `RECEIVE_POLL_NANOS`, so that the end of the test is noticed.
pub fn receive_timeout_nanos(duration_nanos: u64, elapsed_nanos: u64) -> (t: u64)
    ensures
        t == (if duration_nanos > elapsed_nanos {
            if duration_nanos - elapsed_nanos < RECEIVE_POLL_NANOS {
                (duration_nanos - elapsed_nanos) as u64
            } else {
                RECEIVE_POLL_NANOS
            }
        } else {
            0
        }),
{
    let remaining = duration_nanos.saturating_sub(elapsed_nanos);
    if remaining < RECEIVE_POLL_NANOS {
        remaining
    } else {
        RECEIVE_POLL_NANOS
    }
}

} // verus!
