//! Socket addresses as plain values.
//!
//! How an address is written as text is the operating system interface's business: whoever hands
//! an address in where its text is needed hands in both, as an [`Endpoint`].
use vstd::prelude::*;

verus! {

/// An IPv4 address with a port; `ip` holds the address bytes as one big endian number.
#[derive(Clone, Copy, Debug, PartialEq, Eq, Structural)]
pub struct SocketAddrV4 {
    pub ip: u32,
    pub port: u16,
}

/// An IPv6 address with a port; `ip` holds the address bytes as one big endian number.
#[derive(Clone, Copy, Debug, PartialEq, Eq, Structural)]
pub struct SocketAddrV6 {
    pub ip: u128,
    pub port: u16,
    pub flowinfo: u32,
    pub scope_id: u32,
}

/// An address of either family.
#[derive(Clone, Copy, Debug, PartialEq, Eq, Structural)]
pub enum SocketAddr {
    V4(SocketAddrV4),
    V6(SocketAddrV6),
}

/// The IPv6 address `::ffff:0.0.0.0`, below which the IPv4 addresses are mapped.
pub const MAPPED_PREFIX: u128 = 0xffff_0000_0000;

impl SocketAddr {
    pub open spec fn spec_port(self) -> u16 {
        match self {
            SocketAddr::V4(a) => a.port,
            SocketAddr::V6(a) => a.port,
        }
    }

    /// The port.
    #[verifier::when_used_as_spec(spec_port)]
    pub fn port(self) -> (r: u16)
        ensures
            r == self.spec_port(),
    {
        match self {
            SocketAddr::V4(a) => a.port,
            SocketAddr::V6(a) => a.port,
        }
    }

    /// The same address, another port.
    pub open spec fn spec_with_port(self, port: u16) -> SocketAddr {
        match self {
            SocketAddr::V4(a) => SocketAddr::V4(SocketAddrV4 { ip: a.ip, port }),
            SocketAddr::V6(a) => SocketAddr::V6(
                SocketAddrV6 { ip: a.ip, port, flowinfo: a.flowinfo, scope_id: a.scope_id },
            ),
        }
    }

    /// The same address, another port.
    #[verifier::when_used_as_spec(spec_with_port)]
    pub fn with_port(self, port: u16) -> (r: SocketAddr)
        ensures
            r == self.spec_with_port(port),
    {
        match self {
            SocketAddr::V4(a) => SocketAddr::V4(SocketAddrV4 { ip: a.ip, port }),
            SocketAddr::V6(a) => SocketAddr::V6(
                SocketAddrV6 { ip: a.ip, port, flowinfo: a.flowinfo, scope_id: a.scope_id },
            ),
        }
    }

    /// Any address and any port, of the same family.
    pub open spec fn spec_unspecified(self) -> SocketAddr {
        match self {
            SocketAddr::V4(_) => SocketAddr::V4(SocketAddrV4 { ip: 0, port: 0 }),
            SocketAddr::V6(_) => SocketAddr::V6(
                SocketAddrV6 { ip: 0, port: 0, flowinfo: 0, scope_id: 0 },
            ),
        }
    }

    /// Any address and any port, of the same family.
    #[verifier::when_used_as_spec(spec_unspecified)]
    pub fn unspecified(self) -> (r: SocketAddr)
        ensures
            r == self.spec_unspecified(),
    {
        match self {
            SocketAddr::V4(_) => SocketAddr::V4(SocketAddrV4 { ip: 0, port: 0 }),
            SocketAddr::V6(_) => SocketAddr::V6(
                SocketAddrV6 { ip: 0, port: 0, flowinfo: 0, scope_id: 0 },
            ),
        }
    }

    /// The address as IPv6: an IPv4 address is mapped into it.
    pub open spec fn spec_to_v6(self) -> SocketAddr {
        match self {
            SocketAddr::V4(a) => SocketAddr::V6(
                SocketAddrV6 {
                    ip: (MAPPED_PREFIX + a.ip) as u128,
                    port: a.port,
                    flowinfo: 0,
                    scope_id: 0,
                },
            ),
            SocketAddr::V6(_) => self,
        }
    }

    /// The address as IPv6: an IPv4 address is mapped into it.
    #[verifier::when_used_as_spec(spec_to_v6)]
    pub fn to_v6(self) -> (r: SocketAddr)
        ensures
            r == self.spec_to_v6(),
    {
        match self {
            SocketAddr::V4(a) => SocketAddr::V6(
                SocketAddrV6 {
                    ip: MAPPED_PREFIX + a.ip as u128,
                    port: a.port,
                    flowinfo: 0,
                    scope_id: 0,
                },
            ),
            SocketAddr::V6(_) => self,
        }
    }
}

/// Which address a socket is bound to, and which one it is connected to.
#[derive(Clone, Copy, Debug, PartialEq, Eq, Structural)]
pub struct Dial {
    pub local: SocketAddr,
    pub remote: SocketAddr,
}

/// An address and the text that is written for it.
#[derive(Debug, PartialEq, Eq)]
pub struct Endpoint {
    pub addr: SocketAddr,
    pub text: String,
}

#[verifier::ext_equal]
pub struct EndpointView {
    pub addr: SocketAddr,
    pub text: Seq<char>,
}

impl View for Endpoint {
    type V = EndpointView;

    open spec fn view(&self) -> EndpointView {
        EndpointView { addr: self.addr, text: self.text@ }
    }
}

impl Endpoint {
    /// A second copy.
    pub fn duplicate(&self) -> (r: Endpoint)
        ensures
            r@ == self@,
    {
        Endpoint { addr: self.addr, text: self.text.clone() }
    }
}

} // verus!
