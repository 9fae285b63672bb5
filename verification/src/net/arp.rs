use vstd::prelude::*;
use crate::codec::{be16, be16_bytes, extend_from_slice};
use crate::error::Error;
use crate::net::eth::{ether_type_of, ether_type_value, EtherType, EthernetAddress};
use crate::net::ip::Ipv4Addr;

verus! {

/// The operation of an ARP message.
#[derive(Debug, Clone, Copy, PartialEq, Eq, Structural)]
pub enum ArpOperation {
    Request,
    Reply,
}

impl ArpOperation {
    pub fn to_bytes(self) -> (res: [u8; 2])
        ensures
            res@ == (match self {
                ArpOperation::Request => seq![0u8, 1u8],
                ArpOperation::Reply => seq![0u8, 2u8],
            }),
    {
        match self {
            ArpOperation::Request => [0, 1],
            ArpOperation::Reply => [0, 2],
        }
    }

    /// `[0, 1]` is a request and `[0, 2]` a reply; anything else is refused.
    pub fn try_from(value: [u8; 2]) -> (res: Result<Self, Error>)
        ensures
            value@ == seq![0u8, 1u8] ==> res == Ok::<ArpOperation, Error>(ArpOperation::Request),
            value@ == seq![0u8, 2u8] ==> res == Ok::<ArpOperation, Error>(ArpOperation::Reply),
            value@ != seq![0u8, 1u8] && value@ != seq![0u8, 2u8] ==> res == Err::<ArpOperation, Error>(
                Error::Failed("Invalid ARP operation"),
            ),
    {
        if value[0] == 0 && value[1] == 1 {
            assert(value@ =~= seq![0u8, 1u8]);
            Ok(ArpOperation::Request)
        } else if value[0] == 0 && value[1] == 2 {
            assert(value@ =~= seq![0u8, 2u8]);
            Ok(ArpOperation::Reply)
        } else {
            assert(value@ != seq![0u8, 1u8]);
            assert(value@ != seq![0u8, 2u8]);
            Err(Error::Failed("Invalid ARP operation"))
        }
    }
}

/// An ARP message for IPv4 over Ethernet.
#[derive(Debug, Clone, Copy)]
pub struct ArpPacket {
    /// must be [0, 1]
    pub hardware_ty: [u8; 2],
    pub protocol_ty: EtherType,
    /// must be 6
    pub hardware_len: u8,
    /// must be 4
    pub protocol_len: u8,
    pub op: [u8; 2],
    pub sender_eth_addr: EthernetAddress,
    pub sender_ipv4_addr: Ipv4Addr,
    pub target_eth_addr: EthernetAddress,
    pub target_ipv4_addr: Ipv4Addr,
}

pub open spec fn arp_parsed_from(p: ArpPacket, v: Seq<u8>) -> bool {
    &&& v.len() >= 28
    &&& p.hardware_ty@ == v.subrange(0, 2)
    &&& p.protocol_ty == ether_type_of(be16(v[2], v[3]))
    &&& p.hardware_len == v[4]
    &&& p.protocol_len == v[5]
    &&& p.op@ == v.subrange(6, 8)
    &&& p.sender_eth_addr.0@ == v.subrange(8, 14)
    &&& p.sender_ipv4_addr.octets@ == v.subrange(14, 18)
    &&& p.target_eth_addr.0@ == v.subrange(18, 24)
    &&& p.target_ipv4_addr.octets@ == v.subrange(24, 28)
}

/// The 28-byte wire form of an ARP message.
pub open spec fn arp_bytes(p: ArpPacket) -> Seq<u8> {
    p.hardware_ty@ + be16_bytes(ether_type_value(p.protocol_ty)) + seq![
        p.hardware_len,
        p.protocol_len,
    ] + p.op@ + p.sender_eth_addr.0@ + p.sender_ipv4_addr.octets@ + p.target_eth_addr.0@
        + p.target_ipv4_addr.octets@
}

impl ArpPacket {
    /// Reads a message from the first 28 bytes; fails on fewer bytes.
    pub fn try_from(data: &[u8]) -> (res: Result<Self, Error>)
        ensures
            data@.len() < 28 <==> res is Err,
            res matches Err(e) ==> e == Error::Failed("Invalid data length"),
            res matches Ok(p) ==> arp_parsed_from(p, data@),
    {
        if data.len() < 28 {
            return Err(Error::Failed("Invalid data length"));
        }
        let hardware_ty = [data[0], data[1]];
        let protocol_ty = EtherType::from_bytes([data[2], data[3]]);
        let hardware_len = data[4];
        let protocol_len = data[5];
        let op = [data[6], data[7]];
        let sender_eth_addr = EthernetAddress::from_bytes(
            [data[8], data[9], data[10], data[11], data[12], data[13]],
        );
        let sender_ipv4_addr = Ipv4Addr::new(data[14], data[15], data[16], data[17]);
        let target_eth_addr = EthernetAddress::from_bytes(
            [data[18], data[19], data[20], data[21], data[22], data[23]],
        );
        let target_ipv4_addr = Ipv4Addr::new(data[24], data[25], data[26], data[27]);
        let p = ArpPacket {
            hardware_ty,
            protocol_ty,
            hardware_len,
            protocol_len,
            op,
            sender_eth_addr,
            sender_ipv4_addr,
            target_eth_addr,
            target_ipv4_addr,
        };
        assert(p.hardware_ty@ =~= data@.subrange(0, 2));
        assert(p.op@ =~= data@.subrange(6, 8));
        assert(p.sender_eth_addr.0@ =~= data@.subrange(8, 14));
        assert(p.sender_ipv4_addr.octets@ =~= data@.subrange(14, 18));
        assert(p.target_eth_addr.0@ =~= data@.subrange(18, 24));
        assert(p.target_ipv4_addr.octets@ =~= data@.subrange(24, 28));
        Ok(p)
    }

    /// A well-formed IPv4-over-Ethernet message of the given operation.
    pub fn new_with(
        op: ArpOperation,
        sender_eth_addr: EthernetAddress,
        sender_ipv4_addr: Ipv4Addr,
        target_eth_addr: EthernetAddress,
        target_ipv4_addr: Ipv4Addr,
    ) -> (res: Self)
        ensures
            res.hardware_ty@ == seq![0u8, 1u8],
            res.protocol_ty == EtherType::Ipv4,
            res.hardware_len == 6,
            res.protocol_len == 4,
            res.op@ == (match op {
                ArpOperation::Request => seq![0u8, 1u8],
                ArpOperation::Reply => seq![0u8, 2u8],
            }),
            res.sender_eth_addr == sender_eth_addr,
            res.sender_ipv4_addr == sender_ipv4_addr,
            res.target_eth_addr == target_eth_addr,
            res.target_ipv4_addr == target_ipv4_addr,
    {
        ArpPacket {
            hardware_ty: [0, 1],
            protocol_ty: EtherType::Ipv4,
            hardware_len: 6,
            protocol_len: 4,
            op: op.to_bytes(),
            sender_eth_addr,
            sender_ipv4_addr,
            target_eth_addr,
            target_ipv4_addr,
        }
    }

    pub fn op(&self) -> (res: Result<ArpOperation, Error>)
        ensures
            self.op@ == seq![0u8, 1u8] ==> res == Ok::<ArpOperation, Error>(ArpOperation::Request),
            self.op@ == seq![0u8, 2u8] ==> res == Ok::<ArpOperation, Error>(ArpOperation::Reply),
            self.op@ != seq![0u8, 1u8] && self.op@ != seq![0u8, 2u8] ==> res == Err::<
                ArpOperation,
                Error,
            >(Error::Failed("Invalid ARP operation")),
    {
        ArpOperation::try_from(self.op)
    }

    pub fn to_vec(&self) -> (res: Vec<u8>)
        ensures
            res@ == arp_bytes(*self),
    {
        let protocol_ty = self.protocol_ty.to_bytes();
        let mut vec: Vec<u8> = Vec::new();
        extend_from_slice(&mut vec, &self.hardware_ty);
        extend_from_slice(&mut vec, &protocol_ty);
        vec.push(self.hardware_len);
        vec.push(self.protocol_len);
        extend_from_slice(&mut vec, &self.op);
        extend_from_slice(&mut vec, &self.sender_eth_addr.0);
        extend_from_slice(&mut vec, &self.sender_ipv4_addr.octets);
        extend_from_slice(&mut vec, &self.target_eth_addr.0);
        extend_from_slice(&mut vec, &self.target_ipv4_addr.octets);
        assert(vec@ =~= arp_bytes(*self));
        vec
    }
}

/// The wire form of a message reads back as that message, whenever its
/// EtherType is one that reading gives (a `PayloadLength` or `Other` that
/// holds the value of a named type reads back as that type).
pub proof fn lemma_arp_roundtrip(p: ArpPacket)
    requires
        ether_type_of(ether_type_value(p.protocol_ty)) == p.protocol_ty,
    ensures
        arp_bytes(p).len() == 28,
        arp_parsed_from(p, arp_bytes(p)),
{
    let v = arp_bytes(p);
    crate::codec::lemma_be16_roundtrip(ether_type_value(p.protocol_ty));
    assert(v.subrange(0, 2) =~= p.hardware_ty@);
    assert(v.subrange(6, 8) =~= p.op@);
    assert(v.subrange(8, 14) =~= p.sender_eth_addr.0@);
    assert(v.subrange(14, 18) =~= p.sender_ipv4_addr.octets@);
    assert(v.subrange(18, 24) =~= p.target_eth_addr.0@);
    assert(v.subrange(24, 28) =~= p.target_ipv4_addr.octets@);
}

} // verus!
