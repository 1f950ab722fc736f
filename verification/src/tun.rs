//! The settings of the local TUN device.

use vstd::prelude::*;
use crate::config::{address_of, ConfigError, VpnConfig};
use crate::net::{ipnet_parse, IpAddress, IpNetwork};

verus! {

/// The smallest buffer that packets are read into.
pub const MIN_RECV_BUFFER: usize = 2048;

#[derive(Debug)]
pub enum TunError {
    /// The client address of the tunnel is no `address/prefix`.
    InvalidAddress(ConfigError),
    /// The client address is an IPv6 address.
    Ipv6Unsupported,
}

/// What the TUN device is made with.
#[derive(Debug)]
pub struct TunDevice {
    pub name: String,
    /// The bits of the device's IPv4 address.
    pub address: u32,
    pub prefix_len: u8,
    pub mtu: u16,
}

impl TunDevice {
    /// The device that `config` asks for: named `client_tun`, with the
    /// address and the prefix length of `client_address` and the MTU of the
    /// config. An IPv6 address is refused.
    pub fn create(config: &VpnConfig) -> (res: Result<TunDevice, TunError>)
        ensures
            match res {
                Ok(device) => ipnet_parse(config@.client_address) == Some(
                    IpNetwork { addr: IpAddress::V4(device.address), prefix_len: device.prefix_len },
                ) && device.prefix_len <= 32 && device.name@ == config@.client_tun && device.mtu
                    == config@.mtu,
                Err(TunError::InvalidAddress(e)) => ipnet_parse(config@.client_address).is_none()
                    && e.refuses_client_address(config@.client_address),
                Err(TunError::Ipv6Unsupported) => address_of(ipnet_parse(config@.client_address))
                    matches Some(IpAddress::V6(_)),
            },
    {
        let net = match config.parse_client_address() {
            Ok(pair) => pair.1,
            Err(e) => {
                return Err(TunError::InvalidAddress(e));
            },
        };
        match net.addr() {
            IpAddress::V4(address) => Ok(
                TunDevice {
                    name: config.client_tun.clone(),
                    address,
                    prefix_len: net.prefix_len(),
                    mtu: config.mtu,
                },
            ),
            IpAddress::V6(_) => Err(TunError::Ipv6Unsupported),
        }
    }

    /// The size of the buffer that packets are read into: room for one
    /// packet of the device's MTU, and 2048 bytes at least.
    pub fn recv_buffer_len(&self) -> (len: usize)
        ensures
            len == if self.mtu > 2048 {
                self.mtu as usize
            } else {
                2048usize
            },
    {
        if self.mtu as usize > MIN_RECV_BUFFER {
            self.mtu as usize
        } else {
            MIN_RECV_BUFFER
        }
    }
}

} // verus!
