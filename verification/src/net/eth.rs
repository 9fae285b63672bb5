use vstd::prelude::*;
use crate::codec::{be16, be16_bytes, extend_from_slice, from_be_u16, resize_bytes, to_be_u16};
use crate::error::Error;
use crate::net::arp::{arp_bytes, arp_parsed_from, ArpPacket};
use crate::net::ip::{ipv4_bytes, ipv4_parsed_from, Ipv4Packet};

verus! {

/// A 48-bit Ethernet (MAC) address.
#[derive(Debug, Clone, Copy)]
pub struct EthernetAddress(pub [u8; 6]);

impl EthernetAddress {
    pub fn from_bytes(data: [u8; 6]) -> (res: Self)
        ensures
            res.0 == data,
    {
        EthernetAddress(data)
    }

    pub fn to_bytes(self) -> (res: [u8; 6])
        ensures
            res == self.0,
    {
        self.0
    }

    /// The all-ones broadcast address.
    pub fn broadcast() -> (res: Self)
        ensures
            res.0@ == seq![0xffu8, 0xff, 0xff, 0xff, 0xff, 0xff],
    {
        EthernetAddress([0xff, 0xff, 0xff, 0xff, 0xff, 0xff])
    }

    /// Whether both addresses have the same bytes.
    pub fn is_same(&self, other: &EthernetAddress) -> (res: bool)
        ensures
            res == (self.0@ == other.0@),
    {
        let mut i: usize = 0;
        while i < 6
            invariant
                i <= 6,
                forall|j: int| 0 <= j < i ==> self.0@[j] == other.0@[j],
            decreases 6 - i,
        {
            if self.0[i] != other.0[i] {
                return false;
            }
            i = i + 1;
        }
        assert(self.0@ =~= other.0@);
        true
    }
}

/// The EtherType field of an Ethernet frame.
#[derive(Debug, Clone, Copy, PartialEq, Eq, Structural)]
pub enum EtherType {
    Ipv4,
    Ipv6,
    Arp,
    Other(u16),
    PayloadLength(u16),
}

/// The EtherType named by a 16-bit field value: values up to 0x05dc are
/// payload lengths.
pub open spec fn ether_type_of(value: u16) -> EtherType {
    if value <= 0x05dc {
        EtherType::PayloadLength(value)
    } else if value == 0x0800 {
        EtherType::Ipv4
    } else if value == 0x86dd {
        EtherType::Ipv6
    } else if value == 0x0806 {
        EtherType::Arp
    } else {
        EtherType::Other(value)
    }
}

/// The 16-bit field value of an EtherType.
pub open spec fn ether_type_value(t: EtherType) -> u16 {
    match t {
        EtherType::Ipv4 => 0x0800,
        EtherType::Ipv6 => 0x86dd,
        EtherType::Arp => 0x0806,
        EtherType::Other(v) => v,
        EtherType::PayloadLength(v) => v,
    }
}

impl EtherType {
    pub fn from_bytes(data: [u8; 2]) -> (res: Self)
        ensures
            res == ether_type_of(be16(data[0], data[1])),
    {
        let value = from_be_u16(data[0], data[1]);
        if value <= 0x05dc {
            EtherType::PayloadLength(value)
        } else {
            match value {
                0x0800 => EtherType::Ipv4,
                0x86dd => EtherType::Ipv6,
                0x0806 => EtherType::Arp,
                _ => EtherType::Other(value),
            }
        }
    }

    pub fn to_bytes(self) -> (res: [u8; 2])
        ensures
            res@ == be16_bytes(ether_type_value(self)),
    {
        match self {
            EtherType::Ipv4 => to_be_u16(0x0800),
            EtherType::Ipv6 => to_be_u16(0x86dd),
            EtherType::Arp => to_be_u16(0x0806),
            EtherType::Other(value) => to_be_u16(value),
            EtherType::PayloadLength(value) => to_be_u16(value),
        }
    }
}

/// Reading a field value back gives the value written.
pub proof fn lemma_ether_type_roundtrip(value: u16)
    ensures
        ether_type_value(ether_type_of(value)) == value,
{
}

/// The decoded payload of an Ethernet frame.
#[derive(Debug)]
pub enum EthernetPayload {
    Arp(ArpPacket),
    Ipv4(Ipv4Packet),
    Unknown,
}

/// The wire form of a decoded payload.
pub open spec fn eth_payload_bytes(p: EthernetPayload) -> Seq<u8> {
    match p {
        EthernetPayload::Arp(packet) => arp_bytes(packet),
        EthernetPayload::Ipv4(packet) => ipv4_bytes(packet),
        EthernetPayload::Unknown => Seq::empty(),
    }
}

impl EthernetPayload {
    pub fn to_vec(&self) -> (res: Vec<u8>)
        ensures
            res@ == eth_payload_bytes(*self),
    {
        match self {
            EthernetPayload::Arp(packet) => packet.to_vec(),
            EthernetPayload::Ipv4(packet) => packet.to_vec(),
            EthernetPayload::Unknown => Vec::new(),
        }
    }
}

/// An Ethernet frame whose payload borrows the received bytes.
pub struct EthernetFrame<'a> {
    pub dst_mac_addr: EthernetAddress,
    pub src_mac_addr: EthernetAddress,
    pub ether_type: EtherType,
    pub payload: &'a [u8],
}

/// The payload that the EtherType selects, decoded from `bytes`, or the
/// error of decoding it.
pub open spec fn eth_payload_decodes(t: EtherType, bytes: Seq<u8>, res: Result<EthernetPayload, Error>) -> bool {
    match t {
        EtherType::Arp => match res {
            Ok(EthernetPayload::Arp(p)) => arp_parsed_from(p, bytes),
            Ok(_) => false,
            Err(e) => bytes.len() < 28 && e == Error::Failed("Invalid data length"),
        },
        EtherType::Ipv4 => match res {
            Ok(EthernetPayload::Ipv4(p)) => ipv4_parsed_from(p, bytes),
            Ok(_) => false,
            Err(e) => bytes.len() < 20 && e == Error::Failed("Invalid data length"),
        },
        _ => res matches Ok(EthernetPayload::Unknown),
    }
}

/// The bytes of a frame: header and payload, zero-padded to the minimum
/// payload length of 46 bytes and the minimum frame length of 64 bytes.
pub open spec fn eth_frame_bytes(dst: EthernetAddress, src: EthernetAddress, t: EtherType, payload: Seq<u8>) -> Seq<u8> {
    let body = dst.0@ + src.0@ + be16_bytes(ether_type_value(t)) + payload;
    let payload_len = if payload.len() > 46 { payload.len() } else { 46 };
    let frame_len = if 14 + payload_len > 64 { 14 + payload_len } else { 64 };
    body + Seq::new((frame_len - body.len()) as nat, |i: int| 0u8)
}

impl<'a> EthernetFrame<'a> {
    /// Reads a frame header; fails when fewer than 14 bytes are given.
    pub fn try_from(value: &'a [u8]) -> (res: Result<Self, Error>)
        ensures
            value@.len() < 14 <==> res is Err,
            res matches Err(e) ==> e == Error::Failed("Invalid data length"),
            res matches Ok(f) ==> {
                &&& f.dst_mac_addr.0@ == value@.subrange(0, 6)
                &&& f.src_mac_addr.0@ == value@.subrange(6, 12)
                &&& f.ether_type == ether_type_of(be16(value@[12], value@[13]))
                &&& f.payload@ == value@.skip(14)
            },
    {
        if value.len() < 14 {
            return Err(Error::Failed("Invalid data length"));
        }
        let dst = [value[0], value[1], value[2], value[3], value[4], value[5]];
        let src = [value[6], value[7], value[8], value[9], value[10], value[11]];
        let ether_type = EtherType::from_bytes([value[12], value[13]]);
        let payload = slice_skip(value, 14);
        assert(dst@ =~= value@.subrange(0, 6));
        assert(src@ =~= value@.subrange(6, 12));
        Ok(EthernetFrame {
            dst_mac_addr: EthernetAddress(dst),
            src_mac_addr: EthernetAddress(src),
            ether_type,
            payload,
        })
    }

    pub fn new_with(
        dst_mac_addr: EthernetAddress,
        src_mac_addr: EthernetAddress,
        ether_type: EtherType,
        payload: &'a [u8],
    ) -> (res: Self)
        ensures
            res.dst_mac_addr == dst_mac_addr,
            res.src_mac_addr == src_mac_addr,
            res.ether_type == ether_type,
            res.payload@ == payload@,
    {
        EthernetFrame { dst_mac_addr, src_mac_addr, ether_type, payload }
    }

    /// Decodes the payload as the EtherType states: ARP, IPv4, or nothing.
    pub fn payload(&self) -> (res: Result<EthernetPayload, Error>)
        ensures
            eth_payload_decodes(self.ether_type, self.payload@, res),
    {
        match self.ether_type {
            EtherType::Arp => match ArpPacket::try_from(self.payload) {
                Ok(p) => Ok(EthernetPayload::Arp(p)),
                Err(e) => Err(e),
            },
            EtherType::Ipv4 => match Ipv4Packet::try_from(self.payload) {
                Ok(p) => Ok(EthernetPayload::Ipv4(p)),
                Err(e) => Err(e),
            },
            _ => Ok(EthernetPayload::Unknown),
        }
    }

    /// The bytes to send: the header, then the decoded payload written out
    /// again, padded to the minimum frame length.
    pub fn to_vec(&self) -> (res: Result<Vec<u8>, Error>)
        requires
            self.payload@.len() <= 0xffff_0000,
        ensures
            match res {
                Ok(v) => exists|p: EthernetPayload|
                    #![trigger eth_payload_bytes(p)]
                    eth_payload_decodes(self.ether_type, self.payload@, Ok(p)) && v@
                        == eth_frame_bytes(
                        self.dst_mac_addr,
                        self.src_mac_addr,
                        self.ether_type,
                        eth_payload_bytes(p),
                    ),
                Err(e) => eth_payload_decodes(self.ether_type, self.payload@, Err(e)),
            },
    {
        let decoded = match self.payload() {
            Ok(p) => p,
            Err(e) => return Err(e),
        };
        let payload = decoded.to_vec();
        let mut vec: Vec<u8> = Vec::new();
        extend_from_slice(&mut vec, &self.dst_mac_addr.0);
        extend_from_slice(&mut vec, &self.src_mac_addr.0);
        extend_from_slice(&mut vec, &self.ether_type.to_bytes());
        extend_from_slice(&mut vec, payload.as_slice());
        let payload_len = if payload.len() > 46 { payload.len() } else { 46 };
        let frame_len = if 14 + payload_len > 64 { 14 + payload_len } else { 64 };
        resize_bytes(&mut vec, frame_len, 0);
        assert(vec@ =~= eth_frame_bytes(
            self.dst_mac_addr,
            self.src_mac_addr,
            self.ether_type,
            eth_payload_bytes(decoded),
        ));
        Ok(vec)
    }
}

/// The tail of `s` from `start`.
fn slice_skip<'b>(s: &'b [u8], start: usize) -> (res: &'b [u8])
    requires
        start <= s@.len(),
    ensures
        res@ == s@.skip(start as int),
{
    let (_, tail) = s.split_at(start);
    tail
}

} // verus!
