//! The protocol frame: its data types and its wire encoding.
//!
//! A frame carries a credential, a one-byte command, a destination address
//! and an optional inline payload.  `spec_serialize` is the mathematical
//! wire layout; `Trojan::to_bytes` produces exactly those bytes.

use crate::utility::push_all;
use vstd::prelude::*;
use vstd::utf8::encode_utf8;

verus! {

/// An IP address as raw octets in network order.
pub enum IpOctets {
    V4(Vec<u8>),
    V6(Vec<u8>),
}

/// Destination of a request.
pub enum Address {
    /// A literal IP address (v4 or v6) and a port.
    SocketAddress(IpOctets, u16),
    /// An unresolved domain name and a port.
    DomainNameAddress(String, u16),
}

/// Mathematical form of an [`Address`].
#[verifier::ext_equal]
pub enum AddressView {
    V4(Seq<u8>, u16),
    V6(Seq<u8>, u16),
    Domain(Seq<char>, u16),
}

impl AddressView {
    /// Octet counts as the wire format fixes them, and a domain name whose
    /// encoding fits behind the one-byte length prefix.
    pub open spec fn wf(self) -> bool {
        match self {
            AddressView::V4(octets, _) => octets.len() == 4,
            AddressView::V6(octets, _) => octets.len() == 16,
            AddressView::Domain(name, _) => encode_utf8(name).len() <= 255,
        }
    }
}

impl View for Address {
    type V = AddressView;

    open spec fn view(&self) -> AddressView {
        match self {
            Address::SocketAddress(IpOctets::V4(octets), port) => AddressView::V4(octets@, *port),
            Address::SocketAddress(IpOctets::V6(octets), port) => AddressView::V6(octets@, *port),
            Address::DomainNameAddress(name, port) => AddressView::Domain(name@, *port),
        }
    }
}

/// One protocol frame, fully formed.
pub struct Trojan {
    pwd: Vec<u8>,
    cmd: u8,
    address: Address,
    payload: Vec<u8>,
}

/// Mathematical form of a [`Trojan`] frame.
#[verifier::ext_equal]
pub struct TrojanView {
    pub pwd: Seq<u8>,
    pub cmd: u8,
    pub address: AddressView,
    pub payload: Seq<u8>,
}

impl View for Trojan {
    type V = TrojanView;

    closed spec fn view(&self) -> TrojanView {
        TrojanView {
            pwd: self.pwd@,
            cmd: self.cmd,
            address: self.address@,
            payload: self.payload@,
        }
    }
}

/// The two delimiter bytes, CR LF.
pub open spec fn crlf() -> Seq<u8> {
    seq![13u8, 10u8]
}

/// A 16-bit value as two big-endian bytes.
pub open spec fn be_bytes_of_u16(p: u16) -> Seq<u8> {
    seq![(p / 256) as u8, (p % 256) as u8]
}

/// The 16-bit value read from two big-endian bytes.
pub open spec fn u16_of_be(hi: u8, lo: u8) -> u16 {
    (hi as int * 256 + lo as int) as u16
}

/// Wire encoding of an address: a type byte, the address body, then the
/// port in big-endian order.  A domain name is length-prefixed.
pub open spec fn addr_wire_bytes(a: AddressView) -> Seq<u8> {
    match a {
        AddressView::V4(octets, port) => seq![Trojan::ADDR_TYPE_IPV4] + octets + be_bytes_of_u16(
            port,
        ),
        AddressView::V6(octets, port) => seq![Trojan::ADDR_TYPE_IPV6] + octets + be_bytes_of_u16(
            port,
        ),
        AddressView::Domain(name, port) => seq![
            Trojan::ADDR_TYPE_DOMAIN_NAME,
            encode_utf8(name).len() as u8,
        ] + encode_utf8(name) + be_bytes_of_u16(port),
    }
}

/// Wire layout of a whole frame header:
/// `credential CR LF command address-encoding CR LF`.
pub open spec fn spec_serialize(pwd: Seq<u8>, cmd: u8, a: AddressView) -> Seq<u8> {
    pwd + crlf() + seq![cmd] + addr_wire_bytes(a) + crlf()
}

impl Trojan {
    pub const ADDR_TYPE_IPV4: u8 = 1;

    pub const ADDR_TYPE_DOMAIN_NAME: u8 = 3;

    pub const ADDR_TYPE_IPV6: u8 = 4;

    /// A frame with the given fields and no payload.
    pub fn new(pwd: Vec<u8>, cmd: u8, address: Address) -> (r: Self)
        ensures
            r@ == (TrojanView { pwd: pwd@, cmd, address: address@, payload: Seq::empty() }),
    {
        let r = Self { pwd, cmd, address, payload: vec![] };
        proof {
            assert(r@ =~= (TrojanView {
                pwd: r.pwd@,
                cmd,
                address: r.address@,
                payload: Seq::empty(),
            }));
        }
        r
    }

    /// The frame's bytes on the wire.  The payload is never emitted: it is
    /// relayed separately once the header has been sent.
    pub fn to_bytes(&self) -> (r: Vec<u8>)
        requires
            self@.address.wf(),
        ensures
            r@ == spec_serialize(self@.pwd, self@.cmd, self@.address),
    {
        let mut vec: Vec<u8> = Vec::new();
        push_all(&mut vec, self.pwd.as_slice());
        vec.push(13);
        vec.push(10);
        vec.push(self.cmd);
        match &self.address {
            Address::SocketAddress(ip, port) => {
                match ip {
                    IpOctets::V4(octets) => {
                        vec.push(Self::ADDR_TYPE_IPV4);
                        push_all(&mut vec, octets.as_slice());
                    },
                    IpOctets::V6(octets) => {
                        vec.push(Self::ADDR_TYPE_IPV6);
                        push_all(&mut vec, octets.as_slice());
                    },
                }
                vec.push((port / 256) as u8);
                vec.push((port % 256) as u8);
            },
            Address::DomainNameAddress(name, port) => {
                vec.push(Self::ADDR_TYPE_DOMAIN_NAME);
                let name_bytes = name.as_str().as_bytes();
                vec.push(name_bytes.len() as u8);
                push_all(&mut vec, name_bytes);
                vec.push((port / 256) as u8);
                vec.push((port % 256) as u8);
            },
        }
        vec.push(13);
        vec.push(10);
        proof {
            assert(vec@ =~= spec_serialize(self@.pwd, self@.cmd, self@.address));
        }
        vec
    }

    /// The credential bytes.
    pub fn password(&self) -> (r: &Vec<u8>)
        ensures
            r@ == self@.pwd,
    {
        &self.pwd
    }

    /// The command byte.
    pub fn command(&self) -> (r: &u8)
        ensures
            *r == self@.cmd,
    {
        &self.cmd
    }

    /// A copy of the destination address.
    pub fn address(&self) -> (r: Address)
        ensures
            r@ == self@.address,
    {
        match &self.address {
            Address::SocketAddress(ip, port) => {
                let octets = match ip {
                    IpOctets::V4(octets) => IpOctets::V4(crate::utility::copy_bytes(octets)),
                    IpOctets::V6(octets) => IpOctets::V6(crate::utility::copy_bytes(octets)),
                };
                Address::SocketAddress(octets, *port)
            },
            Address::DomainNameAddress(name, port) => {
                Address::DomainNameAddress(name.clone(), *port)
            },
        }
    }

    /// Replaces the inline payload.
    pub fn add_payload(&mut self, payload: Vec<u8>)
        ensures
            final(self)@ == (TrojanView { payload: payload@, ..old(self)@ }),
    {
        self.payload = payload;
        proof {
            assert(self@ =~= (TrojanView { payload: self.payload@, ..old(self)@ }));
        }
    }

    /// The inline payload bytes.
    pub fn payload(&self) -> (r: &Vec<u8>)
        ensures
            r@ == self@.payload,
    {
        &self.payload
    }

    /// Whether an inline payload is present.
    pub fn is_payload(&self) -> (r: bool)
        ensures
            r == (self@.payload.len() > 0),
    {
        !self.payload.is_empty()
    }
}

} // verus!
