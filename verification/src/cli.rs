//! The arguments of the command line and what they ask for.

use vstd::prelude::*;
use vstd::string::StringExecFns;
use crate::config::{default_vpn_settings, VpnConfig, VpnSettings};
use crate::net::{listen_address, port_value, socket_addr_parse, SocketAddress};
use crate::retry::RetryPolicy;
use crate::text::{
    chars_of, clone_texts, find_char, is_first_at, lemma_absent_not_contained,
    lemma_first_at_unique, slice_text, texts,
};
use crate::transport::TransportConfig;

verus! {

/// What `USER@HOST` splits into: the text before the first `@` and the text
/// after it.
pub open spec fn user_host_split(s: Seq<char>, user: Seq<char>, host: Seq<char>) -> bool {
    exists|i: int|
        #![trigger is_first_at(s, '@', 0, i)]
        is_first_at(s, '@', 0, i) && user == s.subrange(0, i) && host == s.subrange(
            i + 1,
            s.len() as int,
        )
}

/// Splits `USER@HOST` at its first `@`. A text without `@` is refused.
pub fn parse_user_host(s: &str) -> (res: Result<(String, String), String>)
    ensures
        res.is_ok() <==> s@.contains('@'),
        res matches Ok(pair) ==> user_host_split(s@, pair.0@, pair.1@),
        res matches Err(e) ==> e@ == "Expected format: USER@HOST"@,
{
    let chars = chars_of(s);
    match find_char(&chars, '@', 0) {
        Some(i) => {
            assert(i < chars.len());
            let user = slice_text(s, 0, i);
            let host = slice_text(s, i + 1, chars.len());
            proof {
                lemma_first_at_unique(s@, '@', 0, i as int, i as int);
            }
            Ok((user, host))
        },
        None => {
            proof {
                lemma_absent_not_contained(s@, '@');
            }
            Err("Expected format: USER@HOST".to_string())
        },
    }
}

/// The arguments of the command line.
#[derive(Debug)]
pub struct Cli {
    /// `USER@HOST`.
    pub destination: String,
    /// Whether the VPN was asked for.
    pub vpn: bool,
    /// File of the configuration.
    pub config: Option<String>,
    pub vpn_client_address: Option<String>,
    pub vpn_server_address: Option<String>,
    pub vpn_client_tun: Option<String>,
    pub vpn_mtu: Option<u16>,
    pub vpn_exclude: Vec<String>,
    pub vpn_post_up: Vec<String>,
    pub vpn_pre_down: Vec<String>,
    /// Where the SOCKS5 proxy listens: a port, or `ip:port`.
    pub socks_addr: Option<String>,
    /// Port of the SSH server.
    pub port: u16,
    /// File of the private key.
    pub identity: Option<String>,
    pub retry_max: Option<u32>,
    /// First delay between two connection attempts, in milliseconds.
    pub retry_delay: u64,
    /// Growth factor of the delay, in thousandths.
    pub retry_backoff: u64,
    /// Cap of the delay, in milliseconds.
    pub retry_max_delay: u64,
    /// Time between two liveness probes, in milliseconds.
    pub health_interval: u64,
}

/// What the program was asked to run.
#[derive(Clone, Copy, Debug, PartialEq, Eq, Structural)]
pub enum Mode {
    Socks,
    Vpn,
}

/// The text of an optional string.
pub open spec fn opt_text(text: Option<String>) -> Option<Seq<char>> {
    match text {
        Some(t) => Some(t@),
        None => None,
    }
}

/// `given` if there is one, else `base`.
pub open spec fn text_or(given: Option<String>, base: Seq<char>) -> Seq<char> {
    match given {
        Some(t) => t@,
        None => base,
    }
}

/// `given` unless it is empty, else `base`.
pub open spec fn list_or(given: Seq<Seq<char>>, base: Seq<Seq<char>>) -> Seq<Seq<char>> {
    if given.len() > 0 {
        given
    } else {
        base
    }
}

fn pick_text(given: &Option<String>, base: String) -> (text: String)
    ensures
        text@ == text_or(*given, base@),
{
    match given {
        Some(t) => t.clone(),
        None => base,
    }
}

fn pick_list(given: &Vec<String>, base: Vec<String>) -> (list: Vec<String>)
    ensures
        texts(list@) == list_or(texts(given@), texts(base@)),
{
    if given.len() > 0 {
        clone_texts(given)
    } else {
        base
    }
}

impl Cli {
    /// The arguments of a command line that names `destination` and nothing
    /// else: every option has its default.
    pub fn new(destination: &str) -> (cli: Cli)
        ensures
            cli.destination@ == destination@,
            !cli.vpn,
            cli.config.is_none(),
            cli.vpn_client_address.is_none(),
            cli.vpn_server_address.is_none(),
            cli.vpn_client_tun.is_none(),
            cli.vpn_mtu.is_none(),
            cli.vpn_exclude@.len() == 0,
            cli.vpn_post_up@.len() == 0,
            cli.vpn_pre_down@.len() == 0,
            cli.socks_addr.is_none(),
            cli.port == 22,
            cli.identity.is_none(),
            cli.retry_max.is_none(),
            cli.retry_delay == 1000,
            cli.retry_backoff == 2000,
            cli.retry_max_delay == 30000,
            cli.health_interval == 5000,
    {
        Cli {
            destination: String::from_str(destination),
            vpn: false,
            config: None,
            vpn_client_address: None,
            vpn_server_address: None,
            vpn_client_tun: None,
            vpn_mtu: None,
            vpn_exclude: Vec::new(),
            vpn_post_up: Vec::new(),
            vpn_pre_down: Vec::new(),
            socks_addr: None,
            port: 22,
            identity: None,
            retry_max: None,
            retry_delay: 1000,
            retry_backoff: 2000,
            retry_max_delay: 30000,
            health_interval: 5000,
        }
    }

    /// The user and the host of the destination.
    pub fn user_host(&self) -> (res: Result<(String, String), String>)
        ensures
            res.is_ok() <==> self.destination@.contains('@'),
            res matches Ok(pair) ==> user_host_split(self.destination@, pair.0@, pair.1@),
            res matches Err(e) ==> e@ == "Expected format: USER@HOST"@,
    {
        parse_user_host(self.destination.as_str())
    }

    /// The address on which the SOCKS5 proxy listens. A bare port means
    /// that port on `127.0.0.1`; anything else must read as `ip:port`.
    pub fn socks_socket_addr(&self) -> (res: Result<SocketAddress, String>)
        ensures
            match self.socks_addr {
                None => res matches Err(e) && e@ == "SOCKS address is required (-D, --socks)"@,
                Some(text) => match listen_address(port_value(text@), socket_addr_parse(text@)) {
                    Some(addr) => res == Ok::<SocketAddress, String>(addr),
                    None => res matches Err(e) && e@ == "Invalid SOCKS address '"@ + text@
                        + "': invalid socket address syntax"@,
                },
            },
    {
        let text = match &self.socks_addr {
            Some(text) => text,
            None => {
                return Err("SOCKS address is required (-D, --socks)".to_string());
            },
        };
        match SocketAddress::parse_listen(text.as_str()) {
            Some(addr) => Ok(addr),
            None => Err(
                String::from_str("Invalid SOCKS address '").concat(text.as_str()).concat(
                    "': invalid socket address syntax",
                ),
            ),
        }
    }

    /// Which mode the arguments ask for: the SOCKS5 proxy wherever a listen
    /// address is given, else the VPN if it was asked for. Arguments that
    /// ask for neither are refused.
    pub fn mode(&self) -> (res: Result<Mode, String>)
        ensures
            match res {
                Ok(Mode::Socks) => self.socks_addr.is_some(),
                Ok(Mode::Vpn) => self.socks_addr.is_none() && self.vpn,
                Err(e) => self.socks_addr.is_none() && !self.vpn && e@
                    == "Either --socks (-D) or --vpn must be specified"@,
            },
    {
        if self.socks_addr.is_some() {
            Ok(Mode::Socks)
        } else if self.vpn {
            Ok(Mode::Vpn)
        } else {
            Err("Either --socks (-D) or --vpn must be specified".to_string())
        }
    }

    /// The settings of the transport that the arguments ask for.
    pub fn transport_config(&self) -> (res: Result<TransportConfig, String>)
        ensures
            res.is_ok() <==> self.destination@.contains('@'),
            res matches Ok(config) ==> {
                &&& user_host_split(self.destination@, config.user@, config.host@)
                &&& config.retry_policy == (RetryPolicy {
                    max_attempts: self.retry_max,
                    initial_delay_ms: self.retry_delay,
                    backoff_permille: self.retry_backoff,
                    max_delay_ms: self.retry_max_delay,
                })
                &&& config.health_interval_ms == self.health_interval
                &&& opt_text(config.key_path) == opt_text(self.identity)
                &&& config.port == self.port
            },
            res matches Err(e) ==> e@ == "Expected format: USER@HOST"@,
    {
        let (user, host) = match self.user_host() {
            Ok(pair) => pair,
            Err(e) => {
                return Err(e);
            },
        };
        let retry_policy = RetryPolicy {
            max_attempts: self.retry_max,
            initial_delay_ms: self.retry_delay,
            backoff_permille: self.retry_backoff,
            max_delay_ms: self.retry_max_delay,
        };
        let key_path = match &self.identity {
            Some(path) => Some(path.clone()),
            None => None,
        };
        Ok(
            TransportConfig {
                retry_policy,
                health_interval_ms: self.health_interval,
                key_path,
                user,
                host,
                port: self.port,
            },
        )
    }

    /// The settings of the VPN: those of the configuration file, where one
    /// was read, else the defaults; and over them whatever the arguments
    /// set. A list that the arguments give replaces the list of the file.
    pub fn vpn_config(&self, file: Option<VpnConfig>) -> (config: VpnConfig)
        ensures
            config@ == self.spec_vpn_config(
                match file {
                    Some(f) => f@,
                    None => default_vpn_settings(),
                },
            ),
    {
        let base = match file {
            Some(f) => f,
            None => VpnConfig::default(),
        };
        VpnConfig {
            client_address: pick_text(&self.vpn_client_address, base.client_address),
            server_address: pick_text(&self.vpn_server_address, base.server_address),
            client_tun: pick_text(&self.vpn_client_tun, base.client_tun),
            mtu: match self.vpn_mtu {
                Some(mtu) => mtu,
                None => base.mtu,
            },
            exclude: pick_list(&self.vpn_exclude, base.exclude),
            post_up: pick_list(&self.vpn_post_up, base.post_up),
            pre_down: pick_list(&self.vpn_pre_down, base.pre_down),
        }
    }

    /// The settings of `base` with what the arguments set laid over them.
    pub open spec fn spec_vpn_config(&self, base: VpnSettings) -> VpnSettings {
        VpnSettings {
            client_address: text_or(self.vpn_client_address, base.client_address),
            server_address: text_or(self.vpn_server_address, base.server_address),
            client_tun: text_or(self.vpn_client_tun, base.client_tun),
            mtu: match self.vpn_mtu {
                Some(mtu) => mtu,
                None => base.mtu,
            },
            exclude: list_or(texts(self.vpn_exclude@), base.exclude),
            post_up: list_or(texts(self.vpn_post_up@), base.post_up),
            pre_down: list_or(texts(self.vpn_pre_down@), base.pre_down),
        }
    }
}

} // verus!
