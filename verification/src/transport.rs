//! The decisions of the SSH transport: what a connection attempt needs, when
//! a failed one is tried again, what a forward does with each message, and
//! how the output of a remote command is gathered.
//!
//! The caller owns the session and does the waiting; it reports what
//! happened and is told what to do next.

use vstd::prelude::*;
use vstd::string::StringExecFns;
use crate::framing::append_bytes;
use crate::net::{ip_text, SocketAddress};
use crate::retry::RetryPolicy;
use crate::text::{decimal, decimal_text};

verus! {

/// What a channel of the session delivered.
#[derive(Debug)]
pub enum ChannelEvent {
    /// Bytes of the main stream.
    Data(Vec<u8>),
    /// Bytes of a side stream; stream 1 is the error output of a command.
    ExtendedData { ext: u32, data: Vec<u8> },
    /// The other side will send no more data.
    Eof,
    /// The command ended with this status.
    ExitStatus(u32),
    /// Any other message.
    Other,
    /// The channel is gone: no message will follow.
    Closed,
}

#[derive(Debug)]
pub enum TransportError {
    /// No private key was named.
    NoIdentity,
    /// The server refused the key.
    AuthFailed,
    /// Dialing, the key exchange or a channel failed; holds the reason.
    Session(String),
    /// The liveness probe failed; holds the reason.
    HealthCheck(String),
    /// The destination of a forward resolved to no address.
    NoAddress,
    /// A remote command ended with a status other than zero.
    CommandFailed { exit_code: u32 },
}

/// What an error says, as plain values.
pub enum Failure {
    NoIdentity,
    AuthFailed,
    Session(Seq<char>),
    HealthCheck(Seq<char>),
    NoAddress,
    CommandFailed { exit_code: u32 },
}

impl View for TransportError {
    type V = Failure;

    open spec fn view(&self) -> Failure {
        match *self {
            TransportError::NoIdentity => Failure::NoIdentity,
            TransportError::AuthFailed => Failure::AuthFailed,
            TransportError::Session(reason) => Failure::Session(reason@),
            TransportError::HealthCheck(reason) => Failure::HealthCheck(reason@),
            TransportError::NoAddress => Failure::NoAddress,
            TransportError::CommandFailed { exit_code } => Failure::CommandFailed { exit_code },
        }
    }
}

impl Failure {
    /// A text for logs and error reports.
    pub open spec fn message(&self) -> Seq<char> {
        match *self {
            Failure::NoIdentity => "No identity file specified"@,
            Failure::AuthFailed => "Authentication failed"@,
            Failure::Session(reason) => reason,
            Failure::HealthCheck(reason) => "Health check failed: "@ + reason,
            Failure::NoAddress => "No address found"@,
            Failure::CommandFailed { exit_code } => "Command failed with exit code "@ + decimal(
                exit_code as nat,
            ),
        }
    }
}

impl TransportError {
    pub fn message(&self) -> (text: String)
        ensures
            text@ == self@.message(),
    {
        match self {
            TransportError::NoIdentity => "No identity file specified".to_string(),
            TransportError::AuthFailed => "Authentication failed".to_string(),
            TransportError::Session(reason) => reason.clone(),
            TransportError::HealthCheck(reason) => String::from_str("Health check failed: ").concat(
                reason.as_str(),
            ),
            TransportError::NoAddress => "No address found".to_string(),
            TransportError::CommandFailed { exit_code } => {
                let code = decimal_text(*exit_code as u64);
                String::from_str("Command failed with exit code ").concat(code.as_str())
            },
        }
    }
}

impl Clone for TransportError {
    fn clone(&self) -> (copy: Self)
        ensures
            copy@ == self@,
    {
        match self {
            TransportError::NoIdentity => TransportError::NoIdentity,
            TransportError::AuthFailed => TransportError::AuthFailed,
            TransportError::Session(reason) => TransportError::Session(reason.clone()),
            TransportError::HealthCheck(reason) => TransportError::HealthCheck(reason.clone()),
            TransportError::NoAddress => TransportError::NoAddress,
            TransportError::CommandFailed { exit_code } => TransportError::CommandFailed {
                exit_code: *exit_code,
            },
        }
    }
}

#[derive(Debug)]
pub struct TransportConfig {
    pub retry_policy: RetryPolicy,
    /// Time between two liveness probes, in milliseconds.
    pub health_interval_ms: u64,
    /// File of the private key.
    pub key_path: Option<String>,
    pub user: String,
    pub host: String,
    pub port: u16,
}

impl Clone for TransportConfig {
    fn clone(&self) -> (copy: Self)
        ensures
            copy.retry_policy == self.retry_policy,
            copy.health_interval_ms == self.health_interval_ms,
            copy.key_path == self.key_path,
            copy.user == self.user,
            copy.host == self.host,
            copy.port == self.port,
    {
        TransportConfig {
            retry_policy: self.retry_policy,
            health_interval_ms: self.health_interval_ms,
            key_path: match &self.key_path {
                Some(path) => Some(path.clone()),
                None => None,
            },
            user: self.user.clone(),
            host: self.host.clone(),
            port: self.port,
        }
    }
}

/// What one connection attempt needs: the key to load, the address to dial
/// and the user to authenticate as.
#[derive(Debug)]
pub struct ConnectRequest {
    pub key_path: String,
    /// `host:port`.
    pub address: String,
    pub user: String,
}

/// The text `host:port`.
pub open spec fn dial_address(host: Seq<char>, port: u16) -> Seq<char> {
    host + ":"@ + decimal(port as nat)
}

impl TransportConfig {
    /// Plans one connection attempt. Without a private key there is none.
    pub fn connect_request(&self) -> (res: Result<ConnectRequest, TransportError>)
        ensures
            res.is_ok() <==> self.key_path.is_some(),
            res matches Ok(request) ==> request.key_path@ == self.key_path.unwrap()@
                && request.address@ == dial_address(self.host@, self.port) && request.user@
                == self.user@,
            res matches Err(e) ==> e@ == Failure::NoIdentity,
    {
        let key_path = match &self.key_path {
            Some(path) => path.clone(),
            None => {
                return Err(TransportError::NoIdentity);
            },
        };
        let port = decimal_text(self.port as u64);
        let address = self.host.clone().concat(":").concat(port.as_str());
        Ok(ConnectRequest { key_path, address, user: self.user.clone() })
    }
}

/// What the server said to the key, as the outcome of the attempt.
pub fn check_auth(accepted: bool) -> (res: Result<(), TransportError>)
    ensures
        res.is_ok() <==> accepted,
        res matches Err(e) ==> e@ == Failure::AuthFailed,
{
    if accepted {
        Ok(())
    } else {
        Err(TransportError::AuthFailed)
    }
}

/// What follows one attempt of a reconnect.
#[derive(Debug)]
pub enum ReconnectStep {
    /// The attempt succeeded: the new session replaces the old one.
    Connected,
    /// The attempt failed and the policy allows no other: this is the error
    /// of the reconnect.
    GiveUp(TransportError),
    /// The attempt failed: wait `delay_ms`, then make attempt
    /// `next_attempt`.
    RetryAfter { delay_ms: u64, next_attempt: u32 },
}

/// The number of the attempt after `attempt`. The count stops at the largest
/// number that fits.
pub open spec fn next_attempt(attempt: u32) -> u32 {
    if attempt < u32::MAX {
        (attempt + 1) as u32
    } else {
        attempt
    }
}

/// The SSH transport as its users see it: the frozen settings that every
/// operation reads.
pub struct Transport {
    config: TransportConfig,
}

impl Transport {
    /// The settings that the transport was made with.
    pub closed spec fn config(&self) -> TransportConfig {
        self.config
    }

    /// Makes the transport from the outcome of the first connection attempt.
    /// The first attempt is never repeated: its error is the error of
    /// `connect`.
    pub fn connect(config: TransportConfig, attempt: Result<(), TransportError>) -> (res: Result<
        Transport,
        TransportError,
    >)
        ensures
            res.is_ok() <==> attempt.is_ok(),
            res matches Ok(transport) ==> transport.config() == config,
            res matches Err(e) ==> attempt == Err::<(), TransportError>(e),
    {
        match attempt {
            Ok(()) => Ok(Transport { config }),
            Err(e) => Err(e),
        }
    }

    pub fn settings(&self) -> (config: &TransportConfig)
        ensures
            *config == self.config(),
    {
        &self.config
    }

    /// Decides what follows connection attempt number `attempt` of a
    /// reconnect, given its outcome.
    pub fn reconnect(&self, attempt: u32, outcome: Result<(), TransportError>) -> (step:
        ReconnectStep)
        ensures
            match outcome {
                Ok(()) => step is Connected,
                Err(e) => if self.config().retry_policy.spec_should_retry(attempt) {
                    step == (ReconnectStep::RetryAfter {
                        delay_ms: self.config().retry_policy.spec_delay_ms(attempt as nat) as u64,
                        next_attempt: next_attempt(attempt),
                    })
                } else {
                    step == ReconnectStep::GiveUp(e)
                },
            },
    {
        match outcome {
            Ok(()) => ReconnectStep::Connected,
            Err(e) => {
                if !self.config.retry_policy.should_retry(attempt) {
                    return ReconnectStep::GiveUp(e);
                }
                let delay_ms = self.config.retry_policy.delay_for_attempt(attempt);
                let next = if attempt < u32::MAX {
                    attempt + 1
                } else {
                    attempt
                };
                ReconnectStep::RetryAfter { delay_ms, next_attempt: next }
            },
        }
    }

    /// Turns the outcome of the liveness probe, which opens a session
    /// channel and closes it, into the outcome of the health check.
    pub fn check_alive(&self, probe: Result<(), String>) -> (res: Result<(), TransportError>)
        ensures
            res.is_ok() <==> probe.is_ok(),
            res matches Err(e) ==> e@ == Failure::HealthCheck(probe->Err_0@),
    {
        match probe {
            Ok(()) => Ok(()),
            Err(reason) => Err(TransportError::HealthCheck(reason)),
        }
    }

    /// Whether the health monitor reconnects after a health check.
    pub fn needs_reconnect(&self, check: &Result<(), TransportError>) -> (reconnect: bool)
        ensures
            reconnect == check.is_err(),
    {
        match check {
            Ok(()) => false,
            Err(_) => true,
        }
    }

    /// Picks the destination of a forward among the addresses that its name
    /// resolved to, and says which channel to open.
    pub fn forward(&self, resolved: &Vec<SocketAddress>) -> (res: Result<
        DirectTcpip,
        TransportError,
    >)
        ensures
            res.is_ok() <==> resolved@.len() > 0,
            res matches Ok(open) ==> open@ == direct_tcpip_to(resolved@[0]),
            res matches Err(e) ==> e@ == Failure::NoAddress,
    {
        if resolved.len() == 0 {
            return Err(TransportError::NoAddress);
        }
        let to = resolved[0];
        Ok(
            DirectTcpip {
                host: to.ip.to_text(),
                port: to.port as u32,
                originator: "127.0.0.1".to_string(),
                originator_port: 0,
            },
        )
    }
}

/// The request for a channel that carries one TCP connection: where the
/// server connects to, and where the connection is said to come from.
#[derive(Debug)]
pub struct DirectTcpip {
    pub host: String,
    pub port: u32,
    pub originator: String,
    pub originator_port: u32,
}

/// A channel request as plain values.
pub struct DirectTcpipView {
    pub host: Seq<char>,
    pub port: u32,
    pub originator: Seq<char>,
    pub originator_port: u32,
}

impl View for DirectTcpip {
    type V = DirectTcpipView;

    open spec fn view(&self) -> DirectTcpipView {
        DirectTcpipView {
            host: self.host@,
            port: self.port,
            originator: self.originator@,
            originator_port: self.originator_port,
        }
    }
}

/// The channel request of a forward to `to`: the connection is said to come
/// from `127.0.0.1:0`.
pub open spec fn direct_tcpip_to(to: SocketAddress) -> DirectTcpipView {
    DirectTcpipView {
        host: ip_text(to.ip),
        port: to.port as u32,
        originator: "127.0.0.1"@,
        originator_port: 0,
    }
}

/// What the forward does next on the side that listens to the channel.
#[derive(Debug)]
pub enum ForwardAction {
    /// Write these bytes to the client and flush.
    WriteToClient(Vec<u8>),
    /// Wait for the next message of the channel.
    NextMessage,
    /// Stop, and stop the copier of the other direction with it.
    Finish,
}

/// Decides what a forward does with a message of its channel: data goes to
/// the client, the end of the stream or of the channel ends the forward, and
/// any other message is passed over.
pub fn on_channel_message(event: ChannelEvent) -> (action: ForwardAction)
    ensures
        action == match event {
            ChannelEvent::Data(data) => ForwardAction::WriteToClient(data),
            ChannelEvent::Eof => ForwardAction::Finish,
            ChannelEvent::Closed => ForwardAction::Finish,
            _ => ForwardAction::NextMessage,
        },
{
    match event {
        ChannelEvent::Data(data) => ForwardAction::WriteToClient(data),
        ChannelEvent::Eof => ForwardAction::Finish,
        ChannelEvent::Closed => ForwardAction::Finish,
        _ => ForwardAction::NextMessage,
    }
}

/// Decides what a forward does after it wrote data to the client: a client
/// that took and flushed the bytes gets the next message, any other ends
/// the forward.
pub fn on_client_write(written: bool, flushed: bool) -> (action: ForwardAction)
    ensures
        action == if written && flushed {
            ForwardAction::NextMessage
        } else {
            ForwardAction::Finish
        },
{
    if written && flushed {
        ForwardAction::NextMessage
    } else {
        ForwardAction::Finish
    }
}

/// What the copier from the client to the channel does next.
#[derive(Clone, Copy, Debug, PartialEq, Eq, Structural)]
pub enum CopyAction {
    /// Send what was read as one data message, then empty the buffer.
    SendToChannel,
    /// Read from the client again.
    NextRead,
    /// The client is done: close the channel and stop.
    CloseChannel,
    /// Stop without a word: the channel or the client is gone.
    Finish,
}

/// Decides what the copier does after a read from the client: `Some(n)` is a
/// read of `n` bytes, `None` a failed one.
pub fn on_client_read(read: Option<usize>) -> (action: CopyAction)
    ensures
        action == match read {
            Some(n) => if n == 0 {
                CopyAction::CloseChannel
            } else {
                CopyAction::SendToChannel
            },
            None => CopyAction::Finish,
        },
{
    match read {
        Some(n) => if n == 0 {
            CopyAction::CloseChannel
        } else {
            CopyAction::SendToChannel
        },
        None => CopyAction::Finish,
    }
}

/// Decides what the copier does after it sent data to the channel.
pub fn on_channel_send(sent: bool) -> (action: CopyAction)
    ensures
        action == if sent {
            CopyAction::NextRead
        } else {
            CopyAction::Finish
        },
{
    if sent {
        CopyAction::NextRead
    } else {
        CopyAction::Finish
    }
}

/// What a remote command left behind.
#[derive(Debug)]
pub struct ExecResult {
    pub exit_code: u32,
    pub stdout: Vec<u8>,
    pub stderr: Vec<u8>,
}

/// The outcome of a command as plain values.
pub struct ExecOutcome {
    pub exit_code: u32,
    pub stdout: Seq<u8>,
    pub stderr: Seq<u8>,
}

impl View for ExecResult {
    type V = ExecOutcome;

    open spec fn view(&self) -> ExecOutcome {
        ExecOutcome { exit_code: self.exit_code, stdout: self.stdout@, stderr: self.stderr@ }
    }
}

/// The side stream that carries the error output of a command.
pub const STDERR_STREAM: u32 = 1;

impl ExecOutcome {
    /// The outcome with one more message taken in: data joins the output,
    /// data of the error stream joins the error output, an exit status
    /// replaces the one held, anything else changes nothing.
    pub open spec fn absorb(self, event: ChannelEvent) -> ExecOutcome {
        match event {
            ChannelEvent::Data(data) => ExecOutcome { stdout: self.stdout + data@, ..self },
            ChannelEvent::ExtendedData { ext, data } => if ext == 1 {
                ExecOutcome { stderr: self.stderr + data@, ..self }
            } else {
                self
            },
            ChannelEvent::ExitStatus(code) => ExecOutcome { exit_code: code, ..self },
            _ => self,
        }
    }
}

impl ExecResult {
    /// The outcome before any message: no output and exit status zero.
    pub fn new() -> (result: ExecResult)
        ensures
            result@ == (ExecOutcome { exit_code: 0, stdout: Seq::empty(), stderr: Seq::empty() }),
    {
        ExecResult { exit_code: 0, stdout: Vec::new(), stderr: Vec::new() }
    }

    /// Takes in one message of the command's channel. Returns whether more
    /// messages are to be waited for: the command is done when its channel
    /// is gone.
    pub fn absorb(&mut self, event: &ChannelEvent) -> (more: bool)
        ensures
            final(self)@ == old(self)@.absorb(*event),
            more == !(*event is Closed),
    {
        match event {
            ChannelEvent::Data(data) => {
                append_bytes(&mut self.stdout, data.as_slice());
                true
            },
            ChannelEvent::ExtendedData { ext, data } => {
                if *ext == STDERR_STREAM {
                    append_bytes(&mut self.stderr, data.as_slice());
                }
                true
            },
            ChannelEvent::ExitStatus(code) => {
                self.exit_code = *code;
                true
            },
            ChannelEvent::Closed => false,
            _ => true,
        }
    }

    /// Whether the command ended with status zero.
    pub fn succeeded(&self) -> (ok: bool)
        ensures
            ok == (self@.exit_code == 0),
    {
        self.exit_code == 0
    }
}

/// Holds a finished command to success: a status other than zero is an
/// error.
pub fn exec_success(result: ExecResult) -> (res: Result<ExecResult, TransportError>)
    ensures
        res.is_ok() <==> result@.exit_code == 0,
        res matches Ok(same) ==> same == result,
        res matches Err(e) ==> e@ == (Failure::CommandFailed { exit_code: result@.exit_code }),
{
    if result.exit_code == 0 {
        Ok(result)
    } else {
        Err(TransportError::CommandFailed { exit_code: result.exit_code })
    }
}

} // verus!
