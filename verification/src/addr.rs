//! IPv4 socket addresses.

use vstd::prelude::*;

verus! {

/// An IPv4 address and a port.
#[derive(Clone, Copy, Debug, PartialEq, Eq)]
pub struct SockAddr {
    pub octets: (u8, u8, u8, u8),
    pub port: u16,
}

/// The usual text of an address: the octets in decimal, joined by dots, then a
/// colon and the port in decimal.
pub open spec fn dotted(octets: (u8, u8, u8, u8), port: u16) -> Seq<char> {
    crate::text::decimal(octets.0 as nat) + seq!['.'] + crate::text::decimal(octets.1 as nat)
        + seq!['.'] + crate::text::decimal(octets.2 as nat) + seq!['.'] + crate::text::decimal(
        octets.3 as nat,
    ) + seq![':'] + crate::text::decimal(port as nat)
}

/// The octets and the port that nix's `SockaddrIn::from_str` reads from a text,
/// or `None` where it rejects the text.
pub uninterp spec fn sockaddr_in_from_str(text: Seq<char>) -> Option<((u8, u8, u8, u8), u16)>;

/// Calls nix's `SockaddrIn::from_str` and takes the address apart with `ip` and
/// `port`. Claimed is that the outcome depends on the text alone, and that the
/// usual text of an address gives that address, as std documents of
/// `SocketAddrV4`, which nix hands the text on to. Which other texts are read,
/// and which are rejected, is not stated.
#[verifier::external_body]
fn parse_sockaddr_in(text: &str) -> (parsed: Option<((u8, u8, u8, u8), u16)>)
    ensures
        parsed == sockaddr_in_from_str(text@),
        forall|octets: (u8, u8, u8, u8), port: u16|
            text@ == #[trigger] dotted(octets, port) ==> parsed == Some((octets, port)),
{
    match text.parse::<nix::sys::socket::SockaddrIn>() {
        Ok(addr) => {
            let [a, b, c, d] = addr.ip().octets();
            Some(((a, b, c, d), addr.port()))
        },
        Err(_) => None,
    }
}

impl SockAddr {
    /// The address with these octets and this port.
    pub open spec fn of(parts: Option<((u8, u8, u8, u8), u16)>) -> Option<Self> {
        match parts {
            Some((octets, port)) => Some(SockAddr { octets, port }),
            None => None,
        }
    }

    /// Puts an address together from what parsing gave.
    pub fn from_parts(parts: Option<((u8, u8, u8, u8), u16)>) -> (addr: Option<Self>)
        ensures
            addr == Self::of(parts),
            addr is Some <==> parts is Some,
            parts matches Some((octets, port)) ==> addr->0.octets == octets && addr->0.port == port,
    {
        match parts {
            Some((octets, port)) => Some(SockAddr { octets, port }),
            None => None,
        }
    }

    /// Reads an address such as `127.0.0.1:3333`.
    pub fn parse(text: &str) -> (addr: Option<Self>)
        ensures
            addr == Self::of(sockaddr_in_from_str(text@)),
            addr is Some <==> sockaddr_in_from_str(text@) is Some,
            sockaddr_in_from_str(text@) matches Some((octets, port)) ==> addr->0.octets == octets
                && addr->0.port == port,
            forall|octets: (u8, u8, u8, u8), port: u16|
                text@ == #[trigger] dotted(octets, port) ==> addr == Some(
                    SockAddr { octets, port },
                ),
    {
        Self::from_parts(parse_sockaddr_in(text))
    }
}

/// An address has the octets and the port that it is put together from, and
/// there is one exactly if there are parts.
pub proof fn an_address_has_its_parts(octets: (u8, u8, u8, u8), port: u16)
    ensures
        SockAddr::of(Some((octets, port))) is Some,
        (SockAddr::of(Some((octets, port)))->0).octets == octets,
        (SockAddr::of(Some((octets, port)))->0).port == port,
        SockAddr::of(None) is None,
{
}

} // verus!
