//! The VPN mode as a whole: who may run it, and what ends it.

use vstd::prelude::*;
use vstd::string::StringExecFns;
use crate::net::{IpAddress, SocketAddress};

verus! {

#[derive(Clone, Copy, Debug, PartialEq, Eq, Structural)]
pub enum VpnError {
    /// The program does not run as root.
    NotRoot,
}

impl VpnError {
    /// A text for logs and error reports.
    pub fn message(&self) -> (text: String)
        ensures
            text@ == "VPN mode requires root privileges. Run with sudo."@,
    {
        "VPN mode requires root privileges. Run with sudo.".to_string()
    }
}

/// Whether a process with user id `uid` may run the VPN: only root may
/// create the TUN device and change the routing.
pub fn check_root(uid: u32) -> (res: Result<(), VpnError>)
    ensures
        res.is_ok() <==> uid == 0,
        res is Err ==> res == Err::<(), VpnError>(VpnError::NotRoot),
{
    if uid == 0 {
        Ok(())
    } else {
        Err(VpnError::NotRoot)
    }
}

/// The name under which the SSH server is looked up: its host with the
/// port of SSH.
pub fn server_lookup_name(host: &str) -> (name: String)
    ensures
        name@ == host@ + ":22"@,
{
    String::from_str(host).concat(":22")
}

/// Picks the address of the SSH server among those that its name resolved
/// to: the first one. A name that resolved to none is an error.
pub fn resolve_host(host: &str, resolved: &Vec<SocketAddress>) -> (res: Result<IpAddress, String>)
    ensures
        res.is_ok() <==> resolved@.len() > 0,
        res matches Ok(ip) ==> ip == resolved@[0].ip,
        res matches Err(e) ==> e@ == "Failed to resolve host: "@ + host@,
{
    if resolved.len() > 0 {
        Ok(resolved[0].ip)
    } else {
        Err(String::from_str("Failed to resolve host: ").concat(host))
    }
}

} // verus!
