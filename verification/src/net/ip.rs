use vstd::prelude::*;
use crate::codec::{be16, be16_bytes, be32, be32_bytes, extend_from_slice, from_be_u16, from_be_u32, resize_bytes, slice_from, to_be_u16, to_be_u32};
use crate::error::Error;
use crate::net::icmp::IcmpPacket;
use crate::net::tcp::TcpPacket;

verus! {

/// An IPv4 address, held as its four octets.
#[derive(Debug, Clone, Copy)]
pub struct Ipv4Addr {
    pub octets: [u8; 4],
}

impl Ipv4Addr {
    pub fn new(a: u8, b: u8, c: u8, d: u8) -> (res: Self)
        ensures
            res.octets@ == seq![a, b, c, d],
    {
        Ipv4Addr { octets: [a, b, c, d] }
    }

    /// Whether both addresses have the same octets.
    pub fn is_same(&self, other: &Ipv4Addr) -> (res: bool)
        ensures
            res == (self.octets@ == other.octets@),
    {
        let r = self.octets[0] == other.octets[0] && self.octets[1] == other.octets[1]
            && self.octets[2] == other.octets[2] && self.octets[3] == other.octets[3];
        assert(r ==> self.octets@ =~= other.octets@);
        r
    }

    pub fn octets(&self) -> (res: [u8; 4])
        ensures
            res == self.octets,
    {
        self.octets
    }
}

/// The IPv4 payload protocol number.
#[derive(Debug, Clone, Copy, PartialEq, Eq, Structural)]
pub enum Protocol {
    Icmp,
    Tcp,
    Udp,
    Other(u8),
}

/// The protocol named by a protocol number.
pub open spec fn protocol_of(data: u8) -> Protocol {
    if data == 1 {
        Protocol::Icmp
    } else if data == 6 {
        Protocol::Tcp
    } else if data == 17 {
        Protocol::Udp
    } else {
        Protocol::Other(data)
    }
}

/// The protocol number of a protocol.
pub open spec fn protocol_number(proto: Protocol) -> u8 {
    match proto {
        Protocol::Icmp => 1,
        Protocol::Tcp => 6,
        Protocol::Udp => 17,
        Protocol::Other(x) => x,
    }
}

impl Protocol {
    pub fn from_u8(data: u8) -> (res: Self)
        ensures
            res == protocol_of(data),
    {
        match data {
            1 => Protocol::Icmp,
            6 => Protocol::Tcp,
            17 => Protocol::Udp,
            _ => Protocol::Other(data),
        }
    }

    pub fn to_u8(self) -> (res: u8)
        ensures
            res == protocol_number(self),
    {
        match self {
            Protocol::Icmp => 1,
            Protocol::Tcp => 6,
            Protocol::Udp => 17,
            Protocol::Other(x) => x,
        }
    }
}

/// A decoded number always names back the same number.
pub proof fn lemma_protocol_number_roundtrip(data: u8)
    ensures
        protocol_number(protocol_of(data)) == data,
{
}

/// The payload of an IPv4 packet.
#[derive(Debug)]
pub enum Ipv4Payload {
    Icmp(IcmpPacket),
    Tcp(TcpPacket),
}

/// An IPv4 packet: the fixed 20-byte header and everything after it.
#[derive(Debug, Clone)]
pub struct Ipv4Packet {
    pub version_ihl: u8,
    pub dscp_ecn: u8,
    pub len: u16,
    pub id: u16,
    pub flags: u16,
    pub ttl: u8,
    pub protocol: Protocol,
    pub checksum: u16,
    pub src_addr: Ipv4Addr,
    pub dst_addr: Ipv4Addr,
    /// options, padding and data
    pub data: Vec<u8>,
}

/// `p` holds the header fields read from the first 20 bytes of `v` and the
/// rest of `v` as its data.
pub open spec fn ipv4_parsed_from(p: Ipv4Packet, v: Seq<u8>) -> bool {
    &&& v.len() >= 20
    &&& p.version_ihl == v[0]
    &&& p.dscp_ecn == v[1]
    &&& p.len == be16(v[2], v[3])
    &&& p.id == be16(v[4], v[5])
    &&& p.flags == be16(v[6], v[7])
    &&& p.ttl == v[8]
    &&& p.protocol == protocol_of(v[9])
    &&& p.checksum == be16(v[10], v[11])
    &&& p.src_addr.octets@ == v.subrange(12, 16)
    &&& p.dst_addr.octets@ == v.subrange(16, 20)
    &&& p.data@ == v.skip(20)
}

/// The wire form of an IPv4 packet.
pub open spec fn ipv4_bytes(p: Ipv4Packet) -> Seq<u8> {
    seq![p.version_ihl, p.dscp_ecn] + be16_bytes(p.len) + be16_bytes(p.id) + be16_bytes(p.flags)
        + seq![p.ttl, protocol_number(p.protocol)] + be16_bytes(p.checksum) + p.src_addr.octets@
        + p.dst_addr.octets@ + p.data@
}

impl Ipv4Packet {
    /// Reads a packet from bytes; fails when fewer than 20 bytes are given.
    pub fn try_from(value: &[u8]) -> (res: Result<Self, Error>)
        ensures
            value@.len() < 20 <==> res is Err,
            res matches Err(e) ==> e == Error::Failed("Invalid data length"),
            res matches Ok(p) ==> ipv4_parsed_from(p, value@),
    {
        if value.len() < 20 {
            return Err(Error::Failed("Invalid data length"));
        }
        let version_ihl = value[0];
        let dscp_ecn = value[1];
        let len = from_be_u16(value[2], value[3]);
        let id = from_be_u16(value[4], value[5]);
        let flags = from_be_u16(value[6], value[7]);
        let ttl = value[8];
        let protocol = Protocol::from_u8(value[9]);
        let checksum = from_be_u16(value[10], value[11]);
        let src_addr = Ipv4Addr::new(value[12], value[13], value[14], value[15]);
        let dst_addr = Ipv4Addr::new(value[16], value[17], value[18], value[19]);
        let data = slice_from(value, 20);
        let p = Ipv4Packet {
            version_ihl,
            dscp_ecn,
            len,
            id,
            flags,
            ttl,
            protocol,
            checksum,
            src_addr,
            dst_addr,
            data,
        };
        assert(p.src_addr.octets@ =~= value@.subrange(12, 16));
        assert(p.dst_addr.octets@ =~= value@.subrange(16, 20));
        Ok(p)
    }

    /// Accepts version 4 packets whose TTL is not zero.
    pub fn validate(&self) -> (res: Result<(), Error>)
        ensures
            res is Ok <==> (self.version_ihl / 16 == 4 && self.ttl != 0),
            res matches Err(e) ==> (if self.version_ihl / 16 != 4 {
                e == Error::Failed("Invalid version")
            } else {
                e == Error::Failed("TTL is 0")
            }),
    {
        let version = self.version_ihl / 16;
        if version != 4 {
            return Err(Error::Failed("Invalid version"));
        }
        if self.ttl == 0 {
            return Err(Error::Failed("TTL is 0"));
        }
        Ok(())
    }

    /// Decodes the data as the payload that the protocol names.
    pub fn payload(&self) -> (res: Result<Ipv4Payload, Error>)
        ensures
            match self.protocol {
                Protocol::Icmp => match res {
                    Ok(Ipv4Payload::Icmp(p)) => crate::net::icmp::icmp_parsed_from(p, self.data@),
                    Ok(_) => false,
                    Err(e) => self.data@.len() < 8 && e == Error::Failed("Invalid data length"),
                },
                Protocol::Tcp => match res {
                    Ok(Ipv4Payload::Tcp(p)) => crate::net::tcp::tcp_parsed_from(p, self.data@),
                    Ok(_) => false,
                    Err(e) => crate::net::tcp::tcp_parse_error(self.data@) == Some(e),
                },
                _ => res == Err::<Ipv4Payload, Error>(Error::Failed("Unsupported protocol")),
            },
    {
        let data_slice = self.data.as_slice();
        match self.protocol {
            Protocol::Icmp => {
                let p = IcmpPacket::try_from(data_slice)?;
                Ok(Ipv4Payload::Icmp(p))
            },
            Protocol::Tcp => {
                let p = TcpPacket::try_from(data_slice)?;
                Ok(Ipv4Payload::Tcp(p))
            },
            _ => Err(Error::Failed("Unsupported protocol")),
        }
    }

    /// The wire form: the header fields, then the data.
    pub fn to_vec(&self) -> (res: Vec<u8>)
        ensures
            res@ == ipv4_bytes(*self),
    {
        let mut v: Vec<u8> = Vec::new();
        v.push(self.version_ihl);
        v.push(self.dscp_ecn);
        extend_from_slice(&mut v, &to_be_u16(self.len));
        extend_from_slice(&mut v, &to_be_u16(self.id));
        extend_from_slice(&mut v, &to_be_u16(self.flags));
        v.push(self.ttl);
        v.push(self.protocol.to_u8());
        extend_from_slice(&mut v, &to_be_u16(self.checksum));
        extend_from_slice(&mut v, &self.src_addr.octets);
        extend_from_slice(&mut v, &self.dst_addr.octets);
        extend_from_slice(&mut v, self.data.as_slice());
        assert(v@ =~= ipv4_bytes(*self));
        v
    }
}

/// The wire form of a packet reads back as that packet, whenever its
/// protocol is one that reading gives (an `Other` that holds the number of
/// a named protocol reads back as that protocol).
pub proof fn lemma_ipv4_roundtrip(p: Ipv4Packet)
    requires
        protocol_of(protocol_number(p.protocol)) == p.protocol,
    ensures
        ipv4_bytes(p).len() == 20 + p.data@.len(),
        ipv4_parsed_from(p, ipv4_bytes(p)),
{
    let v = ipv4_bytes(p);
    crate::codec::lemma_be16_roundtrip(p.len);
    crate::codec::lemma_be16_roundtrip(p.id);
    crate::codec::lemma_be16_roundtrip(p.flags);
    crate::codec::lemma_be16_roundtrip(p.checksum);
    assert(v.subrange(12, 16) =~= p.src_addr.octets@);
    assert(v.subrange(16, 20) =~= p.dst_addr.octets@);
    assert(v.skip(20) =~= p.data@);
}

} // verus!
