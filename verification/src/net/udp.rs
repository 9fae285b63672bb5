use vstd::prelude::*;
use crate::codec::{string_from_utf8_lossy, utf8_lossy, be16, be16_bytes, extend_from_slice, from_be_u16, slice_range, to_be_u16};
use crate::error::Error;
use crate::net::checksum::{checksum_of, checksum_words, fold_checksum, pseudo_checksum_sum, pseudo_header_words, words_sum};
use crate::net::ip::Ipv4Addr;

verus! {

/// The receive buffer of a UDP socket.
#[derive(Debug)]
pub struct UdpSocket {
    pub buf: Vec<u8>,
}

impl UdpSocket {
    pub fn new() -> (res: Self)
        ensures
            res.buf@ == Seq::<u8>::empty(),
    {
        UdpSocket { buf: Vec::new() }
    }

    /// Appends received bytes to the buffer.
    pub fn receive(&mut self, data: &[u8])
        ensures
            final(self).buf@ == old(self).buf@ + data@,
    {
        extend_from_slice(&mut self.buf, data);
    }

    pub fn buf_to_string_utf8_lossy(&self) -> (res: String)
        ensures
            res@ == utf8_lossy(self.buf@),
    {
        string_from_utf8_lossy(self.buf.as_slice())
    }

    /// Moves as many buffered bytes as fit into `buf` and returns how many.
    pub fn read_buf(&mut self, buf: &mut [u8]) -> (res: usize)
        ensures
            res == if old(buf)@.len() < old(self).buf@.len() {
                old(buf)@.len()
            } else {
                old(self).buf@.len()
            },
            final(buf)@ == old(self).buf@.take(res as int) + old(buf)@.skip(res as int),
            final(self).buf@ == old(self).buf@.skip(res as int),
    {
        let read_len = if buf.len() < self.buf.len() { buf.len() } else { self.buf.len() };
        let mut i: usize = 0;
        while i < read_len
            invariant
                i <= read_len,
                read_len <= buf@.len(),
                read_len <= self.buf@.len(),
                buf@.len() == old(buf)@.len(),
                self.buf@ == old(self).buf@,
                buf@ == self.buf@.take(i as int) + old(buf)@.skip(i as int),
            decreases read_len - i,
        {
            buf[i] = self.buf[i];
            i = i + 1;
            assert(buf@ =~= self.buf@.take(i as int) + old(buf)@.skip(i as int));
        }
        let mut rest: Vec<u8> = Vec::new();
        let mut j: usize = read_len;
        while j < self.buf.len()
            invariant
                read_len <= j <= self.buf@.len(),
                rest@ == self.buf@.subrange(read_len as int, j as int),
            decreases self.buf.len() - j,
        {
            rest.push(self.buf[j]);
            j = j + 1;
            assert(rest@ =~= self.buf@.subrange(read_len as int, j as int));
        }
        self.buf = rest;
        read_len
    }
}

/// A UDP datagram.
#[derive(Debug, Clone)]
pub struct UdpPacket {
    pub src_port: u16,
    pub dst_port: u16,
    pub len: u16,
    pub checksum: u16,
    pub data: Vec<u8>,
}

/// The wire form of a datagram with the given checksum field.
pub open spec fn udp_bytes_with_checksum(p: UdpPacket, checksum: u16) -> Seq<u8> {
    be16_bytes(p.src_port) + be16_bytes(p.dst_port) + be16_bytes(p.len) + be16_bytes(checksum)
        + p.data@
}

pub open spec fn udp_bytes(p: UdpPacket) -> Seq<u8> {
    udp_bytes_with_checksum(p, p.checksum)
}

impl UdpPacket {
    /// Reads a datagram; the data runs from byte 8 up to the length field.
    pub fn try_from(value: &[u8]) -> (res: Result<Self, Error>)
        requires
            value@.len() >= 8 ==> 8 <= be16(value@[4], value@[5]) <= value@.len(),
        ensures
            value@.len() < 8 <==> res is Err,
            res matches Err(e) ==> e == (Error::InvalidBufferSize {
                required: 8,
                actual: value@.len() as usize,
            }),
            res matches Ok(p) ==> {
                &&& p.src_port == be16(value@[0], value@[1])
                &&& p.dst_port == be16(value@[2], value@[3])
                &&& p.len == be16(value@[4], value@[5])
                &&& p.checksum == be16(value@[6], value@[7])
                &&& p.data@ == value@.subrange(8, p.len as int)
            },
    {
        if value.len() < 8 {
            return Err(Error::InvalidBufferSize { required: 8, actual: value.len() });
        }
        let src_port = from_be_u16(value[0], value[1]);
        let dst_port = from_be_u16(value[2], value[3]);
        let len = from_be_u16(value[4], value[5]);
        let checksum = from_be_u16(value[6], value[7]);
        let data = slice_range(value, 8, len as usize);
        Ok(UdpPacket { src_port, dst_port, len, checksum, data })
    }

    /// A datagram carrying `data`, with a zero checksum.
    pub fn new_with(src_port: u16, dst_port: u16, data: &[u8]) -> (res: Self)
        requires
            data@.len() <= 0xffff - 8,
        ensures
            res.src_port == src_port,
            res.dst_port == dst_port,
            res.len == 8 + data@.len(),
            res.checksum == 0,
            res.data@ == data@,
    {
        let len = 8 + data.len() as u16;
        let mut v: Vec<u8> = Vec::new();
        extend_from_slice(&mut v, data);
        UdpPacket { src_port, dst_port, len, checksum: 0, data: v }
    }

    /// Sets the checksum over the IPv4 pseudo header and the datagram.
    pub fn calc_checksum_with_ipv4(&mut self, src_addr: Ipv4Addr, dst_addr: Ipv4Addr)
        requires
            old(self).data@.len() <= 0xffe0_0000,
        ensures
            *final(self) == (UdpPacket {
                checksum: checksum_of(
                    (pseudo_header_words(
                        src_addr,
                        dst_addr,
                        17,
                        udp_bytes_with_checksum(*old(self), 0).len(),
                    ) + words_sum(udp_bytes_with_checksum(*old(self), 0)) % 0x1_0000_0000)
                        % 0x1_0000_0000,
                ),
                ..*old(self)
            }),
    {
        self.checksum = 0;
        let udp_vec = self.to_vec();
        assert(udp_bytes(*self) =~= udp_bytes_with_checksum(*old(self), 0));
        let sum = pseudo_checksum_sum(src_addr, dst_addr, 17, udp_vec.as_slice());
        self.checksum = fold_checksum(sum);
    }

    pub fn to_vec(&self) -> (res: Vec<u8>)
        ensures
            res@ == udp_bytes(*self),
    {
        let mut vec: Vec<u8> = Vec::new();
        extend_from_slice(&mut vec, &to_be_u16(self.src_port));
        extend_from_slice(&mut vec, &to_be_u16(self.dst_port));
        extend_from_slice(&mut vec, &to_be_u16(self.len));
        extend_from_slice(&mut vec, &to_be_u16(self.checksum));
        extend_from_slice(&mut vec, self.data.as_slice());
        assert(vec@ =~= udp_bytes(*self));
        vec
    }
}

/// The wire form of a datagram whose length field counts its header and data
/// reads back as that datagram.
pub proof fn lemma_udp_roundtrip(p: UdpPacket)
    requires
        p.len == 8 + p.data@.len(),
    ensures
        ({
            let v = udp_bytes(p);
            &&& v.len() >= 8
            &&& 8 <= be16(v[4], v[5]) <= v.len()
            &&& be16(v[0], v[1]) == p.src_port
            &&& be16(v[2], v[3]) == p.dst_port
            &&& be16(v[4], v[5]) == p.len
            &&& be16(v[6], v[7]) == p.checksum
            &&& v.subrange(8, p.len as int) == p.data@
        }),
{
    let v = udp_bytes(p);
    crate::codec::lemma_be16_roundtrip(p.src_port);
    crate::codec::lemma_be16_roundtrip(p.dst_port);
    crate::codec::lemma_be16_roundtrip(p.len);
    crate::codec::lemma_be16_roundtrip(p.checksum);
    assert(v.subrange(8, p.len as int) =~= p.data@);
}

} // verus!
