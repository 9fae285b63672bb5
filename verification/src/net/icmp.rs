use vstd::prelude::*;
use crate::codec::{be16, be16_bytes, be32, be32_bytes, extend_from_slice, from_be_u16, from_be_u32, resize_bytes, slice_from, to_be_u16, to_be_u32};
use crate::error::Error;
use crate::net::checksum::{checksum_of, checksum_words, fold16, fold_checksum, lemma_fold16_bound, pseudo_header_sum, pseudo_header_words, words_sum};

verus! {

/// The ICMP message type.
#[derive(Debug, Clone, Copy, PartialEq, Eq, Structural)]
pub enum IcmpType {
    EchoReply,
    EchoRequest,
    Other(u8),
}

pub open spec fn icmp_type_of(data: u8) -> IcmpType {
    if data == 0 {
        IcmpType::EchoReply
    } else if data == 8 {
        IcmpType::EchoRequest
    } else {
        IcmpType::Other(data)
    }
}

pub open spec fn icmp_type_number(ty: IcmpType) -> u8 {
    match ty {
        IcmpType::EchoReply => 0,
        IcmpType::EchoRequest => 8,
        IcmpType::Other(x) => x,
    }
}

impl IcmpType {
    pub fn from_u8(data: u8) -> (res: Self)
        ensures
            res == icmp_type_of(data),
    {
        match data {
            0 => IcmpType::EchoReply,
            8 => IcmpType::EchoRequest,
            _ => IcmpType::Other(data),
        }
    }

    pub fn to_u8(self) -> (res: u8)
        ensures
            res == icmp_type_number(self),
    {
        match self {
            IcmpType::EchoReply => 0,
            IcmpType::EchoRequest => 8,
            IcmpType::Other(x) => x,
        }
    }
}

/// An ICMP message: the 8-byte header and the data after it.
#[derive(Debug, Clone)]
pub struct IcmpPacket {
    pub ty: IcmpType,
    pub code: u8,
    pub checksum: u16,
    pub id: u16,
    pub seq: u16,
    pub data: Vec<u8>,
}

pub open spec fn icmp_parsed_from(p: IcmpPacket, v: Seq<u8>) -> bool {
    &&& v.len() >= 8
    &&& p.ty == icmp_type_of(v[0])
    &&& p.code == v[1]
    &&& p.checksum == be16(v[2], v[3])
    &&& p.id == be16(v[4], v[5])
    &&& p.seq == be16(v[6], v[7])
    &&& p.data@ == v.skip(8)
}

/// The wire form of an ICMP message with the given checksum field.
pub open spec fn icmp_bytes_with_checksum(p: IcmpPacket, checksum: u16) -> Seq<u8> {
    seq![icmp_type_number(p.ty), p.code] + be16_bytes(checksum) + be16_bytes(p.id) + be16_bytes(
        p.seq,
    ) + p.data@
}

impl IcmpPacket {
    /// Reads a message from bytes; fails when fewer than 8 bytes are given.
    pub fn try_from(value: &[u8]) -> (res: Result<Self, Error>)
        ensures
            value@.len() < 8 <==> res is Err,
            res matches Err(e) ==> e == Error::Failed("Invalid data length"),
            res matches Ok(p) ==> icmp_parsed_from(p, value@),
    {
        if value.len() < 8 {
            return Err(Error::Failed("Invalid data length"));
        }
        let ty = IcmpType::from_u8(value[0]);
        let code = value[1];
        let checksum = from_be_u16(value[2], value[3]);
        let id = from_be_u16(value[4], value[5]);
        let seq = from_be_u16(value[6], value[7]);
        let data = slice_from(value, 8);
        Ok(IcmpPacket { ty, code, checksum, id, seq, data })
    }

    /// Sets the checksum field to the internet checksum of the message
    /// taken with a zero checksum field.
    pub fn calc_checksum(&mut self)
        ensures
            final(self).ty == old(self).ty,
            final(self).code == old(self).code,
            final(self).id == old(self).id,
            final(self).seq == old(self).seq,
            final(self).data@ == old(self).data@,
            final(self).checksum == checksum_of(
                words_sum(icmp_bytes_with_checksum(*old(self), 0)) % 0x1_0000_0000,
            ),
    {
        self.checksum = 0;
        let mut bytes: Vec<u8> = Vec::new();
        bytes.push(self.ty.to_u8());
        bytes.push(self.code);
        bytes.push(0);
        bytes.push(0);
        extend_from_slice(&mut bytes, &to_be_u16(self.id));
        extend_from_slice(&mut bytes, &to_be_u16(self.seq));
        extend_from_slice(&mut bytes, self.data.as_slice());
        assert(bytes@ =~= icmp_bytes_with_checksum(*old(self), 0));
        let sum = checksum_words(bytes.as_slice());
        self.checksum = fold_checksum(sum);
    }
}

/// The wire form of a message reads back as that message, whenever its
/// type is one that reading gives.
pub proof fn lemma_icmp_roundtrip(p: IcmpPacket)
    requires
        icmp_type_of(icmp_type_number(p.ty)) == p.ty,
    ensures
        icmp_bytes_with_checksum(p, p.checksum).len() == 8 + p.data@.len(),
        icmp_parsed_from(p, icmp_bytes_with_checksum(p, p.checksum)),
{
    let v = icmp_bytes_with_checksum(p, p.checksum);
    crate::codec::lemma_be16_roundtrip(p.checksum);
    crate::codec::lemma_be16_roundtrip(p.id);
    crate::codec::lemma_be16_roundtrip(p.seq);
    assert(v.skip(8) =~= p.data@);
}

} // verus!
