//! IP addresses and networks as plain numbers, with their text forms.

use vstd::prelude::*;
use crate::text::{
    chars_of, decimal, digits_value, fields_from, is_digit, parse_unsigned, split_fields, texts,
    unsigned_value,
};

verus! {

/// An IP address: the 32 bits of an IPv4 address or the 128 bits of an IPv6
/// address, most significant bit first.
#[derive(Clone, Copy, Debug, PartialEq, Eq, Structural)]
pub enum IpAddress {
    V4(u32),
    V6(u128),
}

/// The longest prefix that a network of this address family can have.
pub open spec fn max_prefix_len(addr: IpAddress) -> u8 {
    match addr {
        IpAddress::V4(_) => 32,
        IpAddress::V6(_) => 128,
    }
}

/// The bits of the IPv4 address `a.b.c.d`.
pub open spec fn v4_bits(a: u8, b: u8, c: u8, d: u8) -> u32 {
    (a as nat * 16777216 + b as nat * 65536 + c as nat * 256 + d as nat) as u32
}

/// An address with a prefix length, as in `10.8.0.2/24`. The host bits of
/// the address are kept.
#[derive(Clone, Copy, Debug, PartialEq, Eq, Structural)]
pub struct IpNetwork {
    pub addr: IpAddress,
    pub prefix_len: u8,
}

/// A socket address: an IP address and a port. An IPv6 socket address also
/// has a flow label and the number of a zone; both are zero for IPv4.
#[derive(Clone, Copy, Debug, PartialEq, Eq, Structural)]
pub struct SocketAddress {
    pub ip: IpAddress,
    pub port: u16,
    pub flowinfo: u32,
    pub scope_id: u32,
}

/// What parsing a text as an `ipnet::IpNet` gives: the network, or `None`
/// where the text is none.
pub uninterp spec fn ipnet_parse(s: Seq<char>) -> Option<IpNetwork>;

/// The text that `ipnet::IpNet` prints for a network: the address, a slash,
/// and the prefix length in decimal.
pub open spec fn ipnet_text(net: IpNetwork) -> Seq<char> {
    ip_text(net.addr) + "/"@ + decimal(net.prefix_len as nat)
}

/// The number of one field of a dotted address: one to three decimal digits
/// that spell at most 255, without a leading zero.
pub open spec fn octet_value(field: Seq<char>) -> Option<u8> {
    if 1 <= field.len() <= 3 && (forall|i: int|
        0 <= i < field.len() ==> is_digit(#[trigger] field[i])) && (field.len() == 1 || field[0]
        != '0') && digits_value(field) <= 255 {
        Some(digits_value(field) as u8)
    } else {
        None
    }
}

/// The bits of the IPv4 address that a text spells in dot-decimal form:
/// four fields between dots, each the number of one octet.
pub open spec fn ipv4_value(s: Seq<char>) -> Option<u32> {
    let fields = fields_from(s, '.', 0);
    if fields.len() == 4 && octet_value(fields[0]).is_some() && octet_value(fields[1]).is_some()
        && octet_value(fields[2]).is_some() && octet_value(fields[3]).is_some() {
        Some(
            v4_bits(
                octet_value(fields[0]).unwrap(),
                octet_value(fields[1]).unwrap(),
                octet_value(fields[2]).unwrap(),
                octet_value(fields[3]).unwrap(),
            ),
        )
    } else {
        None
    }
}

/// The text that the standard library prints for an IP address.
pub uninterp spec fn ip_text(addr: IpAddress) -> Seq<char>;

/// What parsing a text as a socket address (`ip:port`) gives.
pub uninterp spec fn socket_addr_parse(s: Seq<char>) -> Option<SocketAddress>;

/// `str::parse::<ipnet::IpNet>`: the result is a function of the text alone,
/// and a network that comes out has a prefix length within its family's
/// limit (the parser reads at most 32, or 128 for IPv6).
#[verifier::external_body]
fn parse_ip_net(s: &str) -> (net: Option<IpNetwork>)
    ensures
        net == ipnet_parse(s@),
        net matches Some(n) ==> n.wf(),
{
    match s.parse::<ipnet::IpNet>() {
        Ok(ipnet::IpNet::V4(n)) => Some(
            IpNetwork { addr: IpAddress::V4(u32::from(n.addr())), prefix_len: n.prefix_len() },
        ),
        Ok(ipnet::IpNet::V6(n)) => Some(
            IpNetwork { addr: IpAddress::V6(u128::from(n.addr())), prefix_len: n.prefix_len() },
        ),
        Err(_) => None,
    }
}

/// `ToString` of an `ipnet::IpNet` built from the address and the prefix
/// length: it prints the address as the standard library does, a slash, and
/// the prefix length in decimal. Building the network stops the program on
/// a prefix length past the family's limit, so that case is left out.
#[verifier::external_body]
fn print_ip_net(net: IpNetwork) -> (text: String)
    requires
        net.wf(),
    ensures
        text@ == ipnet_text(net),
{
    match net.addr {
        IpAddress::V4(a) => ipnet::Ipv4Net::new_assert(core::net::Ipv4Addr::from(a), net.prefix_len)
            .to_string(),
        IpAddress::V6(a) => ipnet::Ipv6Net::new_assert(core::net::Ipv6Addr::from(a), net.prefix_len)
            .to_string(),
    }
}

/// Reads one field of a dotted address.
pub fn parse_octet(field: &str) -> (octet: Option<u8>)
    ensures
        octet == octet_value(field@),
{
    let chars = chars_of(field);
    if chars.len() < 1 || chars.len() > 3 {
        return None;
    }
    let first = chars[0];
    if !('0' <= first && first <= '9') {
        assert(!is_digit(field@[0]));
        return None;
    }
    if chars.len() > 1 && first == '0' {
        return None;
    }
    match parse_unsigned(field, 255) {
        Some(n) => Some(n as u8),
        None => None,
    }
}

/// `ToString` of the standard library's IP address with these bits.
#[verifier::external_body]
fn print_ip(addr: IpAddress) -> (text: String)
    ensures
        text@ == ip_text(addr),
{
    match addr {
        IpAddress::V4(a) => core::net::Ipv4Addr::from(a).to_string(),
        IpAddress::V6(a) => core::net::Ipv6Addr::from(a).to_string(),
    }
}

/// The port that a text spells, if it spells one.
pub open spec fn port_value(s: Seq<char>) -> Option<u16> {
    match unsigned_value(s, 65535) {
        Some(n) => Some(n as u16),
        None => None,
    }
}

/// The prefix length that a text spells, if it spells a number of at most
/// eight bits.
pub open spec fn prefix_value(s: Seq<char>) -> Option<u8> {
    match unsigned_value(s, 255) {
        Some(n) => Some(n as u8),
        None => None,
    }
}

/// Reads a port number.
pub fn parse_port(s: &str) -> (port: Option<u16>)
    ensures
        port == port_value(s@),
{
    match parse_unsigned(s, 65535) {
        Some(n) => Some(n as u16),
        None => None,
    }
}

/// Reads a prefix length: a decimal number of at most eight bits.
pub fn parse_prefix_len(s: &str) -> (len: Option<u8>)
    ensures
        len == prefix_value(s@),
{
    match parse_unsigned(s, 255) {
        Some(n) => Some(n as u8),
        None => None,
    }
}

/// `str::parse::<SocketAddr>`: the result is a function of the text alone.
/// An IPv4 socket address has no flow label and no zone; both come out as
/// zero.
#[verifier::external_body]
fn parse_socket_address(s: &str) -> (addr: Option<SocketAddress>)
    ensures
        addr == socket_addr_parse(s@),
{
    let parsed = s.parse::<core::net::SocketAddr>().ok()?;
    let (flowinfo, scope_id) = match parsed {
        core::net::SocketAddr::V4(_) => (0, 0),
        core::net::SocketAddr::V6(a) => (a.flowinfo(), a.scope_id()),
    };
    let ip = match parsed.ip() {
        core::net::IpAddr::V4(a) => IpAddress::V4(u32::from(a)),
        core::net::IpAddr::V6(a) => IpAddress::V6(u128::from(a)),
    };
    Some(SocketAddress { ip, port: parsed.port(), flowinfo, scope_id })
}

impl IpAddress {
    /// The IPv4 address `a.b.c.d`.
    pub fn v4(a: u8, b: u8, c: u8, d: u8) -> (addr: IpAddress)
        ensures
            addr == IpAddress::V4(v4_bits(a, b, c, d)),
    {
        let bits: u32 = (a as u32) * 16777216 + (b as u32) * 65536 + (c as u32) * 256 + (d as u32);
        IpAddress::V4(bits)
    }

    pub fn is_ipv4(&self) -> (yes: bool)
        ensures
            yes == (*self is V4),
    {
        match self {
            IpAddress::V4(_) => true,
            IpAddress::V6(_) => false,
        }
    }

    /// Reads an IPv4 address in dot-decimal form.
    pub fn parse_v4(s: &str) -> (addr: Option<IpAddress>)
        ensures
            addr == match ipv4_value(s@) {
                Some(bits) => Some(IpAddress::V4(bits)),
                None => None,
            },
    {
        let fields = split_fields(s, '.');
        if fields.len() != 4 {
            return None;
        }
        assert(forall|i: int| 0 <= i < 4 ==> texts(fields@)[i] == (#[trigger] fields@[i])@);
        let a = match parse_octet(fields[0].as_str()) {
            Some(a) => a,
            None => {
                return None;
            },
        };
        let b = match parse_octet(fields[1].as_str()) {
            Some(b) => b,
            None => {
                return None;
            },
        };
        let c = match parse_octet(fields[2].as_str()) {
            Some(c) => c,
            None => {
                return None;
            },
        };
        let d = match parse_octet(fields[3].as_str()) {
            Some(d) => d,
            None => {
                return None;
            },
        };
        Some(IpAddress::v4(a, b, c, d))
    }

    pub fn to_text(&self) -> (text: String)
        ensures
            text@ == ip_text(*self),
    {
        print_ip(*self)
    }
}

impl IpNetwork {
    /// The prefix length is within the limit of the address family.
    pub open spec fn wf(&self) -> bool {
        self.prefix_len <= max_prefix_len(self.addr)
    }

    /// The network of `addr` with `prefix_len` leading bits, or `None` where
    /// the prefix is longer than the address.
    pub fn new(addr: IpAddress, prefix_len: u8) -> (net: Option<IpNetwork>)
        ensures
            net == if prefix_len <= max_prefix_len(addr) {
                Some(IpNetwork { addr, prefix_len })
            } else {
                None
            },
            net matches Some(n) ==> n.wf(),
    {
        let limit: u8 = match addr {
            IpAddress::V4(_) => 32,
            IpAddress::V6(_) => 128,
        };
        if prefix_len <= limit {
            Some(IpNetwork { addr, prefix_len })
        } else {
            None
        }
    }

    /// The network that holds `addr` alone.
    pub open spec fn spec_host(addr: IpAddress) -> IpNetwork {
        IpNetwork { addr, prefix_len: max_prefix_len(addr) }
    }

    #[verifier::when_used_as_spec(spec_host)]
    pub fn host(addr: IpAddress) -> (net: IpNetwork)
        ensures
            net == Self::spec_host(addr),
            net.wf(),
    {
        match addr {
            IpAddress::V4(_) => IpNetwork { addr, prefix_len: 32 },
            IpAddress::V6(_) => IpNetwork { addr, prefix_len: 128 },
        }
    }

    /// `0.0.0.0/0`, the destination of the IPv4 default route.
    pub open spec fn spec_default_v4() -> IpNetwork {
        IpNetwork { addr: IpAddress::V4(0), prefix_len: 0 }
    }

    #[verifier::when_used_as_spec(spec_default_v4)]
    pub fn default_v4() -> (net: IpNetwork)
        ensures
            net == Self::spec_default_v4(),
            net.wf(),
    {
        IpNetwork { addr: IpAddress::V4(0), prefix_len: 0 }
    }

    /// Reads `address/prefix`.
    pub fn parse(s: &str) -> (net: Option<IpNetwork>)
        ensures
            net == ipnet_parse(s@),
            net matches Some(n) ==> n.wf(),
    {
        parse_ip_net(s)
    }

    pub fn addr(&self) -> (addr: IpAddress)
        ensures
            addr == self.addr,
    {
        self.addr
    }

    pub fn prefix_len(&self) -> (len: u8)
        ensures
            len == self.prefix_len,
    {
        self.prefix_len
    }

    /// The text `address/prefix`. A network whose prefix is longer than its
    /// address has none.
    pub fn to_text(&self) -> (text: Option<String>)
        ensures
            text.is_some() <==> self.wf(),
            text matches Some(t) ==> t@ == ipnet_text(*self),
    {
        let limit: u8 = match self.addr {
            IpAddress::V4(_) => 32,
            IpAddress::V6(_) => 128,
        };
        if self.prefix_len <= limit {
            Some(print_ip_net(*self))
        } else {
            None
        }
    }
}

impl SocketAddress {
    /// The socket address of `ip` and `port`, without flow label or zone.
    pub open spec fn spec_new(ip: IpAddress, port: u16) -> SocketAddress {
        SocketAddress { ip, port, flowinfo: 0, scope_id: 0 }
    }

    #[verifier::when_used_as_spec(spec_new)]
    pub fn new(ip: IpAddress, port: u16) -> (addr: SocketAddress)
        ensures
            addr == Self::spec_new(ip, port),
    {
        SocketAddress { ip, port, flowinfo: 0, scope_id: 0 }
    }

    /// Port `port` on the loopback address `127.0.0.1`.
    pub fn loopback(port: u16) -> (addr: SocketAddress)
        ensures
            addr == SocketAddress::spec_new(IpAddress::V4(v4_bits(127, 0, 0, 1)), port),
    {
        SocketAddress::new(IpAddress::v4(127, 0, 0, 1), port)
    }

    /// Reads a listen address: a bare port number means that port on the
    /// loopback address, anything else must be `ip:port`.
    pub fn parse_listen(s: &str) -> (addr: Option<SocketAddress>)
        ensures
            addr == listen_address(port_value(s@), socket_addr_parse(s@)),
    {
        match parse_port(s) {
            Some(port) => Some(SocketAddress::loopback(port)),
            None => parse_socket_address(s),
        }
    }
}

/// The listen address that a text stands for, given what it parses to as a
/// port and as a socket address.
pub open spec fn listen_address(port: Option<u16>, full: Option<SocketAddress>) -> Option<
    SocketAddress,
> {
    match port {
        Some(p) => Some(SocketAddress::spec_new(IpAddress::V4(v4_bits(127, 0, 0, 1)), p)),
        None => full,
    }
}

} // verus!
