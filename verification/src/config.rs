//! Settings of the VPN, the connection and the retry policy, with their
//! built-in defaults.

use vstd::prelude::*;
use vstd::string::StringExecFns;
use crate::net::{ipnet_parse, IpAddress, IpNetwork};
use crate::text::{clone_texts, eq_ignore_ascii_case, same_ignoring_ascii_case, texts};

verus! {

pub fn default_client_address() -> (text: String)
    ensures
        text@ == "10.8.0.2/24"@,
{
    "10.8.0.2/24".to_string()
}

pub fn default_server_address() -> (text: String)
    ensures
        text@ == "10.8.0.1/24"@,
{
    "10.8.0.1/24".to_string()
}

pub fn default_client_tun() -> (text: String)
    ensures
        text@ == "tun-x2ssh"@,
{
    "tun-x2ssh".to_string()
}

pub fn default_mtu() -> (mtu: u16)
    ensures
        mtu == 1400,
{
    1400
}

pub fn default_port() -> (port: u16)
    ensures
        port == 22,
{
    22
}

pub fn default_initial_delay_ms() -> (ms: u64)
    ensures
        ms == 1000,
{
    1000
}

/// The default backoff factor, in thousandths: each delay is twice the one
/// before.
pub fn default_backoff() -> (permille: u64)
    ensures
        permille == 2000,
{
    2000
}

pub fn default_max_delay_ms() -> (ms: u64)
    ensures
        ms == 30000,
{
    30000
}

pub fn default_health_interval_ms() -> (ms: u64)
    ensures
        ms == 5000,
{
    5000
}

/// Why a setting was refused.
#[derive(Debug)]
pub enum ConfigError {
    /// `client_address` is no `address/prefix`; holds the text found.
    InvalidClientAddress(String),
    /// `server_address` is no `address/prefix`; holds the text found.
    InvalidServerAddress(String),
    /// `max_attempts` is a text other than `inf`; holds the text found.
    InvalidMaxAttempts(String),
}

/// The address of a network that was read, if one was.
pub open spec fn address_of(net: Option<IpNetwork>) -> Option<IpAddress> {
    match net {
        Some(n) => Some(n.addr),
        None => None,
    }
}

impl ConfigError {
    /// The error says that `text` is no client address.
    pub open spec fn refuses_client_address(&self, text: Seq<char>) -> bool {
        match *self {
            ConfigError::InvalidClientAddress(found) => found@ == text,
            _ => false,
        }
    }

    /// The error says that `text` is no server address.
    pub open spec fn refuses_server_address(&self, text: Seq<char>) -> bool {
        match *self {
            ConfigError::InvalidServerAddress(found) => found@ == text,
            _ => false,
        }
    }

    /// The error says that `text` is no attempt limit.
    pub open spec fn refuses_max_attempts(&self, text: Seq<char>) -> bool {
        match *self {
            ConfigError::InvalidMaxAttempts(found) => found@ == text,
            _ => false,
        }
    }

    /// A text for logs and error reports.
    pub fn message(&self) -> (text: String)
        ensures
            text@ == match *self {
                ConfigError::InvalidClientAddress(found) => "invalid client_address '"@ + found@
                    + "': invalid IP address syntax"@,
                ConfigError::InvalidServerAddress(found) => "invalid server_address '"@ + found@
                    + "': invalid IP address syntax"@,
                ConfigError::InvalidMaxAttempts(found) => "expected \"inf\" or a number, got: "@
                    + found@,
            },
    {
        match self {
            ConfigError::InvalidClientAddress(found) => String::from_str(
                "invalid client_address '",
            ).concat(found.as_str()).concat("': invalid IP address syntax"),
            ConfigError::InvalidServerAddress(found) => String::from_str(
                "invalid server_address '",
            ).concat(found.as_str()).concat("': invalid IP address syntax"),
            ConfigError::InvalidMaxAttempts(found) => String::from_str(
                "expected \"inf\" or a number, got: ",
            ).concat(found.as_str()),
        }
    }
}

#[derive(Debug)]
pub struct VpnConfig {
    /// Address of the client's end of the tunnel, with prefix.
    pub client_address: String,
    /// Address of the server's end of the tunnel, with prefix.
    pub server_address: String,
    /// Name of the client's TUN interface.
    pub client_tun: String,
    pub mtu: u16,
    /// Networks that keep their route around the tunnel.
    pub exclude: Vec<String>,
    /// Commands run on the remote host once the tunnel is up.
    pub post_up: Vec<String>,
    /// Commands run on the remote host before the tunnel goes down.
    pub pre_down: Vec<String>,
}

/// The settings of a `VpnConfig` as plain values.
pub struct VpnSettings {
    pub client_address: Seq<char>,
    pub server_address: Seq<char>,
    pub client_tun: Seq<char>,
    pub mtu: u16,
    pub exclude: Seq<Seq<char>>,
    pub post_up: Seq<Seq<char>>,
    pub pre_down: Seq<Seq<char>>,
}

impl View for VpnConfig {
    type V = VpnSettings;

    open spec fn view(&self) -> VpnSettings {
        VpnSettings {
            client_address: self.client_address@,
            server_address: self.server_address@,
            client_tun: self.client_tun@,
            mtu: self.mtu,
            exclude: texts(self.exclude@),
            post_up: texts(self.post_up@),
            pre_down: texts(self.pre_down@),
        }
    }
}

/// The settings that hold where none are given.
pub open spec fn default_vpn_settings() -> VpnSettings {
    VpnSettings {
        client_address: "10.8.0.2/24"@,
        server_address: "10.8.0.1/24"@,
        client_tun: "tun-x2ssh"@,
        mtu: 1400,
        exclude: Seq::empty(),
        post_up: Seq::empty(),
        pre_down: Seq::empty(),
    }
}

impl Default for VpnConfig {
    fn default() -> (config: Self)
        ensures
            config@ == default_vpn_settings(),
    {
        let config = VpnConfig {
            client_address: default_client_address(),
            server_address: default_server_address(),
            client_tun: default_client_tun(),
            mtu: default_mtu(),
            exclude: Vec::new(),
            post_up: Vec::new(),
            pre_down: Vec::new(),
        };
        assert(texts(config.exclude@) =~= Seq::<Seq<char>>::empty());
        assert(texts(config.post_up@) =~= Seq::<Seq<char>>::empty());
        assert(texts(config.pre_down@) =~= Seq::<Seq<char>>::empty());
        config
    }
}

impl Clone for VpnConfig {
    fn clone(&self) -> (copy: Self)
        ensures
            copy@ == self@,
    {
        VpnConfig {
            client_address: self.client_address.clone(),
            server_address: self.server_address.clone(),
            client_tun: self.client_tun.clone(),
            mtu: self.mtu,
            exclude: clone_texts(&self.exclude),
            post_up: clone_texts(&self.post_up),
            pre_down: clone_texts(&self.pre_down),
        }
    }
}

impl VpnConfig {
    /// The client's address and its network, read from `client_address`.
    pub fn parse_client_address(&self) -> (res: Result<(IpAddress, IpNetwork), ConfigError>)
        ensures
            match res {
                Ok(pair) => ipnet_parse(self.client_address@) == Some(pair.1) && pair.0
                    == pair.1.addr && pair.1.wf(),
                Err(e) => ipnet_parse(self.client_address@).is_none() && e.refuses_client_address(
                    self.client_address@,
                ),
            },
    {
        match IpNetwork::parse(self.client_address.as_str()) {
            Some(net) => Ok((net.addr(), net)),
            None => Err(ConfigError::InvalidClientAddress(self.client_address.clone())),
        }
    }

    /// The server's address and its network, read from `server_address`.
    pub fn parse_server_address(&self) -> (res: Result<(IpAddress, IpNetwork), ConfigError>)
        ensures
            match res {
                Ok(pair) => ipnet_parse(self.server_address@) == Some(pair.1) && pair.0
                    == pair.1.addr && pair.1.wf(),
                Err(e) => ipnet_parse(self.server_address@).is_none() && e.refuses_server_address(
                    self.server_address@,
                ),
            },
    {
        match IpNetwork::parse(self.server_address.as_str()) {
            Some(net) => Ok((net.addr(), net)),
            None => Err(ConfigError::InvalidServerAddress(self.server_address.clone())),
        }
    }

    pub fn client_ip(&self) -> (res: Result<IpAddress, ConfigError>)
        ensures
            match res {
                Ok(ip) => address_of(ipnet_parse(self.client_address@)) == Some(ip),
                Err(e) => ipnet_parse(self.client_address@).is_none() && e.refuses_client_address(
                    self.client_address@,
                ),
            },
    {
        match self.parse_client_address() {
            Ok(pair) => Ok(pair.0),
            Err(e) => Err(e),
        }
    }

    pub fn server_ip(&self) -> (res: Result<IpAddress, ConfigError>)
        ensures
            match res {
                Ok(ip) => address_of(ipnet_parse(self.server_address@)) == Some(ip),
                Err(e) => ipnet_parse(self.server_address@).is_none() && e.refuses_server_address(
                    self.server_address@,
                ),
            },
    {
        match self.parse_server_address() {
            Ok(pair) => Ok(pair.0),
            Err(e) => Err(e),
        }
    }

    /// The client's network, read from `client_address`.
    pub fn network(&self) -> (res: Result<IpNetwork, ConfigError>)
        ensures
            match res {
                Ok(net) => ipnet_parse(self.client_address@) == Some(net) && net.wf(),
                Err(e) => ipnet_parse(self.client_address@).is_none() && e.refuses_client_address(
                    self.client_address@,
                ),
            },
    {
        match self.parse_client_address() {
            Ok(pair) => Ok(pair.1),
            Err(e) => Err(e),
        }
    }
}

#[derive(Clone, Copy, Debug, PartialEq, Eq, Structural)]
pub struct ConnectionConfig {
    /// Port of the SSH server.
    pub port: u16,
}

impl Default for ConnectionConfig {
    fn default() -> (config: Self)
        ensures
            config.port == 22,
    {
        ConnectionConfig { port: default_port() }
    }
}

/// How often a failed connection is tried again.
#[derive(Clone, Copy, Debug, PartialEq, Eq, Structural)]
pub enum MaxAttempts {
    /// Without end.
    Inf,
    Count(u32),
}

impl Default for MaxAttempts {
    fn default() -> (max: Self)
        ensures
            max == MaxAttempts::Inf,
    {
        MaxAttempts::Inf
    }
}

impl MaxAttempts {
    /// Reads the text form of the setting: `inf` in any mix of upper and
    /// lower case. Any other text is refused.
    pub fn from_text(text: &str) -> (res: Result<MaxAttempts, ConfigError>)
        ensures
            res.is_ok() <==> same_ignoring_ascii_case(text@, "inf"@),
            res matches Ok(max) ==> max == MaxAttempts::Inf,
            res matches Err(e) ==> e.refuses_max_attempts(text@),
    {
        if eq_ignore_ascii_case(text, "inf") {
            Ok(MaxAttempts::Inf)
        } else {
            Err(ConfigError::InvalidMaxAttempts(String::from_str(text)))
        }
    }

    /// Reads the number form of the setting. Zero is allowed.
    pub fn from_count(count: u32) -> (max: MaxAttempts)
        ensures
            max == MaxAttempts::Count(count),
    {
        MaxAttempts::Count(count)
    }

    /// The limit as a retry policy holds it.
    pub fn limit(&self) -> (limit: Option<u32>)
        ensures
            limit == match *self {
                MaxAttempts::Inf => None::<u32>,
                MaxAttempts::Count(n) => Some(n),
            },
    {
        match self {
            MaxAttempts::Inf => None,
            MaxAttempts::Count(n) => Some(*n),
        }
    }
}

#[derive(Clone, Copy, Debug, PartialEq, Eq, Structural)]
pub struct RetryConfig {
    pub max_attempts: MaxAttempts,
    pub initial_delay_ms: u64,
    /// Growth factor of the delay per attempt, in thousandths.
    pub backoff_permille: u64,
    pub max_delay_ms: u64,
    pub health_interval_ms: u64,
}

impl Default for RetryConfig {
    fn default() -> (config: Self)
        ensures
            config == (RetryConfig {
                max_attempts: MaxAttempts::Inf,
                initial_delay_ms: 1000,
                backoff_permille: 2000,
                max_delay_ms: 30000,
                health_interval_ms: 5000,
            }),
    {
        RetryConfig {
            max_attempts: MaxAttempts::default(),
            initial_delay_ms: default_initial_delay_ms(),
            backoff_permille: default_backoff(),
            max_delay_ms: default_max_delay_ms(),
            health_interval_ms: default_health_interval_ms(),
        }
    }
}

/// Everything a configuration file can set.
#[derive(Debug)]
pub struct AppConfig {
    pub vpn: VpnConfig,
    pub connection: ConnectionConfig,
    pub retry: RetryConfig,
}

impl Default for AppConfig {
    fn default() -> (config: Self)
        ensures
            config.vpn@ == default_vpn_settings(),
            config.connection.port == 22,
            config.retry == (RetryConfig {
                max_attempts: MaxAttempts::Inf,
                initial_delay_ms: 1000,
                backoff_permille: 2000,
                max_delay_ms: 30000,
                health_interval_ms: 5000,
            }),
    {
        AppConfig {
            vpn: VpnConfig::default(),
            connection: ConnectionConfig::default(),
            retry: RetryConfig::default(),
        }
    }
}

} // verus!
