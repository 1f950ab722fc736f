//! The channel to the remote agent: packets go out framed, and the bytes
//! that come back are cut into packets again.

use vstd::prelude::*;
use vstd::string::StringExecFns;
use crate::buffer::PacketBuffer;
use crate::framing::{
    after_frame, first_payload, fits_frame, frame, has_frame, lemma_round_trip, write_framed,
};
use crate::net::{parse_prefix_len, prefix_value};
use crate::text::{
    chars_of, find_char, is_first_at, lemma_absent_not_contained, lemma_first_at_unique,
    same_text, slice_text,
};
use crate::transport::ChannelEvent;

verus! {

/// Where the agent binary is put on the remote host.
pub const AGENT_PATH: &'static str = "/tmp/x2ssh-agent";

/// The command that stores what it reads as the agent binary and makes it
/// executable.
pub fn deploy_command() -> (command: String)
    ensures
        command@ == "cat > /tmp/x2ssh-agent && chmod +x /tmp/x2ssh-agent"@,
{
    "cat > /tmp/x2ssh-agent && chmod +x /tmp/x2ssh-agent".to_string()
}

/// The command that starts the agent with `server_address` as the address of
/// its end of the tunnel.
pub fn start_command(server_address: &str) -> (command: String)
    ensures
        command@ == "sudo /tmp/x2ssh-agent --ip "@ + server_address@,
{
    String::from_str("sudo /tmp/x2ssh-agent --ip ").concat(server_address)
}

/// Starts the agent: gives the command to run on a session channel of its
/// own, and the state of that channel before anything was received.
pub fn start(server_address: &str) -> (started: (String, AgentChannel))
    ensures
        started.0@ == "sudo /tmp/x2ssh-agent --ip "@ + server_address@,
        started.1.buffered() == Seq::<u8>::empty(),
        !started.1.is_closed(),
{
    (start_command(server_address), AgentChannel::new())
}

#[derive(Clone, Copy, Debug, PartialEq, Eq, Structural)]
pub enum AgentError {
    /// The deploy command ended with a status other than zero.
    DeployFailed { exit_code: u32 },
    /// A packet is longer than a frame can say.
    PacketTooLarge,
    /// The bytes received and not yet handed out are more than a length can
    /// count.
    BufferFull,
}

/// What the deployment does after a message of its channel.
#[derive(Clone, Copy, Debug, PartialEq, Eq)]
pub enum DeployStep {
    /// Wait for the next message.
    NextMessage,
    /// The deployment is over, with this outcome.
    Done(Result<(), AgentError>),
}

/// The outcome of a deployment whose command ended with `exit_code`.
pub open spec fn deploy_outcome(exit_code: u32) -> Result<(), AgentError> {
    if exit_code != 0 {
        Err(AgentError::DeployFailed { exit_code })
    } else {
        Ok(())
    }
}

/// Decides what the deployment does with a message of the channel on which
/// the deploy command runs, once the binary was sent. The exit status ends
/// the deployment: zero is a success, anything else a failure. A channel
/// that goes away without a status ends it as a success. Any other message
/// is passed over.
pub fn deploy(event: &ChannelEvent) -> (step: DeployStep)
    ensures
        step == match *event {
            ChannelEvent::ExitStatus(code) => DeployStep::Done(deploy_outcome(code)),
            ChannelEvent::Closed => DeployStep::Done(Ok(())),
            _ => DeployStep::NextMessage,
        },
{
    match event {
        ChannelEvent::ExitStatus(code) => {
            if *code != 0 {
                DeployStep::Done(Err(AgentError::DeployFailed { exit_code: *code }))
            } else {
                DeployStep::Done(Ok(()))
            }
        },
        ChannelEvent::Closed => DeployStep::Done(Ok(())),
        _ => DeployStep::NextMessage,
    }
}

/// What receiving a packet does next.
#[derive(Debug)]
pub enum RecvStep {
    /// A whole packet.
    Packet(Vec<u8>),
    /// No whole packet is buffered: wait for the next message of the
    /// channel.
    NextMessage,
    /// The agent is gone: no packet will follow.
    EndOfStream,
    /// Receiving failed.
    Failed(AgentError),
}

/// The receiving side of the channel to the agent.
pub struct AgentChannel {
    buffer: PacketBuffer,
    write_closed: bool,
}

impl AgentChannel {
    /// The bytes received and not yet handed out as packets.
    pub closed spec fn buffered(&self) -> Seq<u8> {
        self.buffer@
    }

    /// Whether the sending side was shut.
    pub closed spec fn is_closed(&self) -> bool {
        self.write_closed
    }

    /// A channel on which nothing was received yet.
    pub fn new() -> (channel: AgentChannel)
        ensures
            channel.buffered() == Seq::<u8>::empty(),
            !channel.is_closed(),
    {
        AgentChannel { buffer: PacketBuffer::new(), write_closed: false }
    }

    /// Frames `packet` for sending: the bytes returned go out as one data
    /// message.
    pub fn send_packet(&self, packet: &[u8]) -> (res: Result<Vec<u8>, AgentError>)
        ensures
            res.is_ok() <==> fits_frame(packet@),
            res matches Ok(bytes) ==> bytes@ == frame(packet@),
            res matches Err(e) ==> e == AgentError::PacketTooLarge,
    {
        let mut bytes: Vec<u8> = Vec::new();
        match write_framed(&mut bytes, packet) {
            Ok(()) => {
                assert(Seq::<u8>::empty() + frame(packet@) =~= frame(packet@));
                Ok(bytes)
            },
            Err(_) => Err(AgentError::PacketTooLarge),
        }
    }

    /// Takes in what the channel delivered since the last call, if
    /// anything, and says what receiving does next. Data joins the
    /// buffer; the end of the stream or of the channel ends receiving; any
    /// other message is passed over. Then a whole packet at the front of the
    /// buffer is handed out.
    pub fn recv_packet(&mut self, event: Option<ChannelEvent>) -> (step: RecvStep)
        ensures
            final(self).is_closed() == old(self).is_closed(),
            final(self).buffered() == recv_rest(old(self).buffered(), event),
            match step {
                RecvStep::Packet(packet) => recv_kind(old(self).buffered(), event)
                    == RecvKind::Packet && packet@ == first_payload(
                    after_message(old(self).buffered(), event),
                ),
                RecvStep::NextMessage => recv_kind(old(self).buffered(), event)
                    == RecvKind::NextMessage,
                RecvStep::EndOfStream => recv_kind(old(self).buffered(), event)
                    == RecvKind::EndOfStream,
                RecvStep::Failed(e) => recv_kind(old(self).buffered(), event) == RecvKind::Overflow
                    && e == AgentError::BufferFull,
            },
    {
        match event {
            Some(ChannelEvent::Data(data)) => {
                if !self.buffer.push_data(data.as_slice()) {
                    return RecvStep::Failed(AgentError::BufferFull);
                }
            },
            Some(ChannelEvent::Eof) => {
                return RecvStep::EndOfStream;
            },
            Some(ChannelEvent::Closed) => {
                return RecvStep::EndOfStream;
            },
            _ => {},
        }
        match self.buffer.take_packet() {
            Some(packet) => RecvStep::Packet(packet),
            None => RecvStep::NextMessage,
        }
    }

    /// Shuts the sending side. Returns whether the caller has to close the
    /// channel: it has on the first call only.
    pub fn close(&mut self) -> (shut: bool)
        ensures
            final(self).is_closed(),
            shut == !old(self).is_closed(),
            final(self).buffered() == old(self).buffered(),
    {
        let shut = !self.write_closed;
        self.write_closed = true;
        shut
    }
}

/// The buffer once the message, if any, is taken in.
pub open spec fn after_message(buffered: Seq<u8>, event: Option<ChannelEvent>) -> Seq<u8> {
    match event {
        Some(ChannelEvent::Data(data)) => buffered + data@,
        _ => buffered,
    }
}

/// The kinds of step that receiving can take.
#[derive(Clone, Copy, Debug, PartialEq, Eq, Structural)]
pub enum RecvKind {
    Packet,
    NextMessage,
    EndOfStream,
    Overflow,
}

/// Which step receiving takes, given the buffer and the message: the end of
/// the stream or of the channel ends it; data that would grow the buffer
/// past what a length can count fails it; otherwise a whole frame at the
/// front of the buffer is a packet, and without one receiving waits.
pub open spec fn recv_kind(buffered: Seq<u8>, event: Option<ChannelEvent>) -> RecvKind {
    match event {
        Some(ChannelEvent::Eof) => RecvKind::EndOfStream,
        Some(ChannelEvent::Closed) => RecvKind::EndOfStream,
        Some(ChannelEvent::Data(data)) if buffered.len() + data@.len() > usize::MAX =>
            RecvKind::Overflow,
        _ => if has_frame(after_message(buffered, event)) {
            RecvKind::Packet
        } else {
            RecvKind::NextMessage
        },
    }
}

/// What the buffer holds after the step: where receiving goes on, the bytes
/// of the message have joined it, and the packet handed out has left it.
pub open spec fn recv_rest(buffered: Seq<u8>, event: Option<ChannelEvent>) -> Seq<u8> {
    match recv_kind(buffered, event) {
        RecvKind::Packet => after_frame(after_message(buffered, event)),
        RecvKind::NextMessage => after_message(buffered, event),
        _ => buffered,
    }
}

/// What the agent was started with: the address of its TUN device and the
/// length of the prefix.
#[derive(Debug)]
pub struct AgentArgs {
    pub address: String,
    pub prefix_len: u8,
}

/// The MTU of the agent's TUN device.
pub const AGENT_MTU: u16 = 1400;

#[derive(Clone, Copy, Debug, PartialEq, Eq, Structural)]
pub enum AgentArgsError {
    /// The arguments are not `--ip ADDR/PREFIX`.
    Usage,
    /// The value of `--ip` holds no `/`.
    MissingPrefix,
    /// What follows the `/` is no prefix length.
    InvalidPrefix,
}

/// What `ADDR/PREFIX` splits into: the text before the first `/`, and the
/// number that the text after it reads as.
pub open spec fn agent_address(value: Seq<char>) -> Result<(Seq<char>, u8), AgentArgsError> {
    if !value.contains('/') {
        Err(AgentArgsError::MissingPrefix)
    } else {
        let i = choose|i: int| is_first_at(value, '/', 0, i);
        match prefix_value(value.subrange(i + 1, value.len() as int)) {
            Some(prefix) => Ok((value.subrange(0, i), prefix)),
            None => Err(AgentArgsError::InvalidPrefix),
        }
    }
}

/// Reads the arguments of the agent: the name of the program, `--ip`, and
/// `ADDR/PREFIX`.
pub fn parse_agent_args(args: &Vec<String>) -> (res: Result<AgentArgs, AgentArgsError>)
    ensures
        match res {
            Ok(parsed) => args@.len() == 3 && args@[1]@ == "--ip"@ && agent_address(args@[2]@)
                == Ok::<(Seq<char>, u8), AgentArgsError>((parsed.address@, parsed.prefix_len)),
            Err(e) => if args@.len() != 3 || args@[1]@ != "--ip"@ {
                e == AgentArgsError::Usage
            } else {
                agent_address(args@[2]@) == Err::<(Seq<char>, u8), AgentArgsError>(e)
            },
        },
{
    if args.len() != 3 || !same_text(args[1].as_str(), "--ip") {
        return Err(AgentArgsError::Usage);
    }
    let value = args[2].as_str();
    let chars = chars_of(value);
    let slash = match find_char(&chars, '/', 0) {
        Some(i) => i,
        None => {
            proof {
                lemma_absent_not_contained(value@, '/');
            }
            return Err(AgentArgsError::MissingPrefix);
        },
    };
    assert(slash < chars.len());
    proof {
        let i = choose|i: int| is_first_at(value@, '/', 0, i);
        lemma_first_at_unique(value@, '/', 0, slash as int, i);
    }
    let address = slice_text(value, 0, slash);
    let prefix = slice_text(value, slash + 1, chars.len());
    match parse_prefix_len(prefix.as_str()) {
        Some(prefix_len) => Ok(AgentArgs { address, prefix_len }),
        None => Err(AgentArgsError::InvalidPrefix),
    }
}

/// A frame that arrives whole in an empty buffer comes out as the packet
/// that was sent, and leaves the buffer empty.
pub proof fn lemma_send_then_recv(packet: Seq<u8>, data: Vec<u8>)
    requires
        fits_frame(packet),
        data@ == frame(packet),
        data@.len() <= usize::MAX,
    ensures
        recv_kind(Seq::empty(), Some(ChannelEvent::Data(data))) == RecvKind::Packet,
        first_payload(after_message(Seq::empty(), Some(ChannelEvent::Data(data)))) == packet,
        recv_rest(Seq::empty(), Some(ChannelEvent::Data(data))) == Seq::<u8>::empty(),
{
    let joined = after_message(Seq::empty(), Some(ChannelEvent::Data(data)));
    assert(joined =~= frame(packet) + Seq::<u8>::empty());
    lemma_round_trip(packet, Seq::empty());
}

} // verus!
