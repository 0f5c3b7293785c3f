//! What is left to decide before a magic packet goes out: what stands in
//! for the fields that a target leaves open, and which of the addresses of
//! a host name to send to.

use vstd::prelude::*;
use crate::address::{MacAddress, SecureOn};
use crate::file::{MagicPacketDestination, WakeUpTarget};
use crate::ip::IpAddress;

verus! {

/// A target with nothing left open: where to send the magic packet, and
/// what to put into it.
#[derive(Debug, Clone, PartialEq, Eq)]
pub struct CompleteTarget {
    /// The hardware address of the system to wake up.
    pub hardware_address: MacAddress,
    /// The host to send the magic packet to.
    pub host: MagicPacketDestination,
    /// The port to send the magic packet to.
    pub port: u16,
    /// The SecureON token to include in the magic packet, if any.
    pub secure_on: Option<SecureOn>,
}

/// What a field that a target leaves open is filled with.
pub open spec fn or_default<T>(given: Option<T>, default: T) -> T {
    match given {
        Some(value) => value,
        None => default,
    }
}

/// The SecureON token of a target, or else the default, if there is one.
pub open spec fn token_or_default(given: Option<Seq<u8>>, default: Option<SecureOn>) -> Option<
    Seq<u8>,
> {
    match given {
        Some(token) => Some(token),
        None => match default {
            Some(token) => Some(token@),
            None => None,
        },
    }
}

impl WakeUpTarget {
    /// Fill what this target leaves open: its destination with `host`, its
    /// port with `port`, its SecureON token with `secure_on`. What the
    /// target says itself stays as it is.
    pub fn with_defaults(
        self,
        host: MagicPacketDestination,
        port: u16,
        secure_on: Option<SecureOn>,
    ) -> (r: CompleteTarget)
        ensures
            r.hardware_address@ == self@.hardware_address,
            r.host@ == or_default(self@.destination, host@),
            r.port == or_default(self@.port, port),
            crate::packet::token_view(r.secure_on) == token_or_default(self@.secure_on, secure_on),
    {
        let hardware_address = self.hardware_address();
        let own_port = self.port();
        let own_token = self.secure_on();
        let own_host = self.into_packet_destination();
        CompleteTarget {
            hardware_address,
            host: match own_host {
                Some(own) => own,
                None => host,
            },
            port: match own_port {
                Some(own) => own,
                None => port,
            },
            secure_on: match own_token {
                Some(own) => Some(own),
                None => secure_on,
            },
        }
    }
}

/// How to pick one of the addresses that a host name resolves to.
#[derive(Debug, Clone, Copy, PartialEq, Eq, Structural)]
pub enum ResolveMode {
    /// Take the first address, of whatever version.
    Default,
    /// Take the first address of version 6, and none of version 4.
    PreferIpv6,
}

impl Default for ResolveMode {
    fn default() -> (r: Self)
        ensures
            r == ResolveMode::Default,
    {
        ResolveMode::Default
    }
}

/// Whether `mode` admits the address `ip`.
pub open spec fn admits(mode: ResolveMode, ip: IpAddress) -> bool {
    match mode {
        ResolveMode::Default => true,
        ResolveMode::PreferIpv6 => ip is V6,
    }
}

/// Pick the address to send to among those that a host name resolved to:
/// the index of the first that `mode` admits, or `None` if there is none,
/// and the host cannot be reached.
pub fn pick_address(addresses: &[IpAddress], mode: ResolveMode) -> (r: Option<usize>)
    ensures
        match r {
            Some(i) => i < addresses@.len() && admits(mode, addresses@[i as int]) && forall|j: int|
                0 <= j < i ==> !admits(mode, #[trigger] addresses@[j]),
            None => forall|j: int|
                0 <= j < addresses@.len() ==> !admits(mode, #[trigger] addresses@[j]),
        },
{
    let mut i: usize = 0;
    while i < addresses.len()
        invariant
            i <= addresses@.len(),
            forall|j: int| 0 <= j < i ==> !admits(mode, #[trigger] addresses@[j]),
        decreases addresses@.len() - i,
    {
        let admitted = match mode {
            ResolveMode::Default => true,
            ResolveMode::PreferIpv6 => match addresses[i] {
                IpAddress::V6(_) => true,
                IpAddress::V4(_) => false,
            },
        };
        if admitted {
            return Some(i);
        }
        i += 1;
    }
    None
}

} // verus!
