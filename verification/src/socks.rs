//! What the SOCKS5 server does with a request once its command is read and
//! its destination is resolved.

use vstd::prelude::*;
use crate::net::{v4_bits, IpAddress, SocketAddress};

verus! {

/// The commands of a SOCKS5 request.
#[derive(Clone, Copy, Debug, PartialEq, Eq, Structural)]
pub enum SocksCommand {
    TcpConnect,
    TcpBind,
    UdpAssociate,
}

/// The reply codes that the server sends.
#[derive(Clone, Copy, Debug, PartialEq, Eq, Structural)]
pub enum ReplyCode {
    Succeeded,
    GeneralFailure,
    CommandNotSupported,
}

impl ReplyCode {
    /// The byte of the code on the wire.
    pub fn as_u8(&self) -> (byte: u8)
        ensures
            byte == match *self {
                ReplyCode::Succeeded => 0u8,
                ReplyCode::GeneralFailure => 1u8,
                ReplyCode::CommandNotSupported => 7u8,
            },
    {
        match self {
            ReplyCode::Succeeded => 0,
            ReplyCode::GeneralFailure => 1,
            ReplyCode::CommandNotSupported => 7,
        }
    }
}

/// Why a request was not served.
#[derive(Debug)]
pub enum SocksError {
    /// The destination could not be resolved; holds the reason.
    Resolve(String),
    /// The destination resolved to no address.
    NoAddress,
    /// The command is none that the server carries out.
    CommandNotSupported,
    /// The forward through the SSH session failed; holds the reason.
    Forward(String),
    /// The exchange with the client failed; holds the reason.
    Proxy(String),
}

/// What an error says, as plain values.
pub enum SocksFailure {
    Resolve(Seq<char>),
    NoAddress,
    CommandNotSupported,
    Forward(Seq<char>),
    Proxy(Seq<char>),
}

impl View for SocksError {
    type V = SocksFailure;

    open spec fn view(&self) -> SocksFailure {
        match *self {
            SocksError::Resolve(reason) => SocksFailure::Resolve(reason@),
            SocksError::NoAddress => SocksFailure::NoAddress,
            SocksError::CommandNotSupported => SocksFailure::CommandNotSupported,
            SocksError::Forward(reason) => SocksFailure::Forward(reason@),
            SocksError::Proxy(reason) => SocksFailure::Proxy(reason@),
        }
    }
}

/// The size of each half of the in-memory pipe between the client's side
/// and the forward.
pub const DUPLEX_BUFFER: usize = 4096;

/// What the server does with a request.
#[derive(Debug)]
pub enum ServeAction {
    /// Open a pipe with halves of `buffer` bytes. Hand one end to a forward
    /// to `destination`. On the other end reply that the request succeeded,
    /// with `bound` as the bound address, and then copy bytes both ways
    /// between the client and the pipe.
    Proxy { destination: SocketAddress, buffer: usize, bound: SocketAddress },
    /// Drop the connection without an error.
    Close,
    /// Try to reply with `reply`, whether or not the client takes it, and
    /// then fail with `error`.
    Refuse { reply: ReplyCode, error: SocksError },
}

/// What the server does with a request, as plain values.
pub enum ServePlan {
    Proxy { destination: SocketAddress, buffer: usize, bound: SocketAddress },
    Close,
    Refuse { reply: ReplyCode, error: SocksFailure },
}

impl View for ServeAction {
    type V = ServePlan;

    open spec fn view(&self) -> ServePlan {
        match *self {
            ServeAction::Proxy { destination, buffer, bound } => ServePlan::Proxy {
                destination,
                buffer,
                bound,
            },
            ServeAction::Close => ServePlan::Close,
            ServeAction::Refuse { reply, error } => ServePlan::Refuse { reply, error: error@ },
        }
    }
}

/// The address that a success reply names as bound: `127.0.0.1:0`.
pub open spec fn bound_address() -> SocketAddress {
    SocketAddress::spec_new(IpAddress::V4(v4_bits(127, 0, 0, 1)), 0)
}

/// What a request is answered with. A destination that does not resolve, or
/// resolves to nothing, is refused with a general failure, whatever the
/// command. Then `CONNECT` is proxied to the first address; `UDP ASSOCIATE`
/// is dropped; any other command is refused as not supported.
pub open spec fn serve_plan(
    command: SocksCommand,
    resolved: Result<Seq<SocketAddress>, Seq<char>>,
) -> ServePlan {
    match resolved {
        Err(reason) => ServePlan::Refuse {
            reply: ReplyCode::GeneralFailure,
            error: SocksFailure::Resolve(reason),
        },
        Ok(addrs) => if addrs.len() == 0 {
            ServePlan::Refuse { reply: ReplyCode::GeneralFailure, error: SocksFailure::NoAddress }
        } else {
            match command {
                SocksCommand::TcpConnect => ServePlan::Proxy {
                    destination: addrs[0],
                    buffer: 4096,
                    bound: bound_address(),
                },
                SocksCommand::UdpAssociate => ServePlan::Close,
                SocksCommand::TcpBind => ServePlan::Refuse {
                    reply: ReplyCode::CommandNotSupported,
                    error: SocksFailure::CommandNotSupported,
                },
            }
        },
    }
}

/// The addresses, or the reason, of a resolution as plain values.
pub open spec fn resolution_view(resolved: Result<Vec<SocketAddress>, String>) -> Result<
    Seq<SocketAddress>,
    Seq<char>,
> {
    match resolved {
        Ok(addrs) => Ok(addrs@),
        Err(reason) => Err(reason@),
    }
}

/// Decides what the server does with a request, given its command and what
/// its destination resolved to.
pub fn serve(command: SocksCommand, resolved: Result<Vec<SocketAddress>, String>) -> (action:
    ServeAction)
    ensures
        action@ == serve_plan(command, resolution_view(resolved)),
{
    let addrs = match resolved {
        Ok(addrs) => addrs,
        Err(reason) => {
            return ServeAction::Refuse {
                reply: ReplyCode::GeneralFailure,
                error: SocksError::Resolve(reason),
            };
        },
    };
    if addrs.len() == 0 {
        return ServeAction::Refuse {
            reply: ReplyCode::GeneralFailure,
            error: SocksError::NoAddress,
        };
    }
    match command {
        SocksCommand::TcpConnect => ServeAction::Proxy {
            destination: addrs[0],
            buffer: DUPLEX_BUFFER,
            bound: SocketAddress::new(IpAddress::v4(127, 0, 0, 1), 0),
        },
        SocksCommand::UdpAssociate => ServeAction::Close,
        SocksCommand::TcpBind => ServeAction::Refuse {
            reply: ReplyCode::CommandNotSupported,
            error: SocksError::CommandNotSupported,
        },
    }
}

/// What follows when one side of a proxied request ends.
#[derive(Debug)]
pub enum SideStep {
    /// The request is over, with this error.
    Fail(SocksError),
    /// Wait for the other side.
    AwaitOther,
    /// Both sides ended without an error: the request is over.
    Done,
}

/// Decides what follows when the forward or the client's side of a proxied
/// request ends. The first error ends the request; a side that ends without
/// one waits for the other.
pub fn serve_side_done(outcome: Result<(), SocksError>, other_ended: bool) -> (step: SideStep)
    ensures
        match outcome {
            Err(e) => step == SideStep::Fail(e),
            Ok(()) => if other_ended {
                step is Done
            } else {
                step is AwaitOther
            },
        },
{
    match outcome {
        Err(e) => SideStep::Fail(e),
        Ok(()) => if other_ended {
            SideStep::Done
        } else {
            SideStep::AwaitOther
        },
    }
}

} // verus!
