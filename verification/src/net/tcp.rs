use vstd::prelude::*;
use crate::codec::{be16, be16_bytes, be32, be32_bytes, extend_from_slice, from_be_u16, from_be_u32, resize_bytes, slice_from, to_be_u16, to_be_u32};
use crate::error::Error;
use crate::net::checksum::{
    checksum_of, checksum_words, fold16, fold_checksum, lemma_checksum_verifies, lemma_fold16_bound,
    lemma_words_sum_be16, lemma_words_sum_bound, lemma_words_sum_concat, pseudo_checksum_sum,
    pseudo_header_words, words_sum,
};
use crate::codec::{lemma_be16_roundtrip, lemma_be32_roundtrip};
use crate::net::ip::Ipv4Addr;

verus! {

/// The states of a TCP connection.
#[derive(Debug, Clone, Copy, PartialEq, Eq, Structural)]
pub enum TcpSocketState {
    Closed,
    Listen,
    SynReceived,
    SynSent,
    Established,
    FinWait1,
    FinWait2,
    CloseWait,
    Closing,
    LastAck,
    TimeWait,
}

/// The connection state of one TCP socket.
#[derive(Debug)]
pub struct TcpSocket {
    pub state: TcpSocketState,
    pub src_port: Option<u16>,
    pub dst_ipv4_addr: Option<Ipv4Addr>,
    pub dst_port: Option<u16>,
    pub seq_num: u32,
    pub next_recv_seq: u32,
    pub buf: Vec<u8>,
}

/// `s` is a socket in its initial, closed state.
pub open spec fn tcp_socket_is_new(s: TcpSocket) -> bool {
    &&& s.state == TcpSocketState::Closed
    &&& s.src_port is None
    &&& s.dst_ipv4_addr is None
    &&& s.dst_port is None
    &&& s.seq_num == 0
    &&& s.next_recv_seq == 0
    &&& s.buf@ == Seq::<u8>::empty()
}

impl TcpSocket {
    pub fn new() -> (res: Self)
        ensures
            tcp_socket_is_new(res),
    {
        TcpSocket {
            state: TcpSocketState::Closed,
            src_port: None,
            dst_ipv4_addr: None,
            dst_port: None,
            seq_num: 0,
            next_recv_seq: 0,
            buf: Vec::new(),
        }
    }

    pub fn state(&self) -> (res: TcpSocketState)
        ensures
            res == self.state,
    {
        self.state
    }

    pub fn seq_num(&self) -> (res: u32)
        ensures
            res == self.seq_num,
    {
        self.seq_num
    }

    pub fn next_recv_seq(&self) -> (res: u32)
        ensures
            res == self.next_recv_seq,
    {
        self.next_recv_seq
    }

    pub fn dst_ipv4_addr(&self) -> (res: Option<Ipv4Addr>)
        ensures
            res == self.dst_ipv4_addr,
    {
        self.dst_ipv4_addr
    }

    pub fn dst_port(&self) -> (res: Option<u16>)
        ensures
            res == self.dst_port,
    {
        self.dst_port
    }

    /// Takes the received bytes, leaving the buffer empty.
    pub fn get_and_reset_buf(&mut self) -> (res: Vec<u8>)
        ensures
            res@ == old(self).buf@,
            final(self).buf@ == Seq::<u8>::empty(),
            final(self).state == old(self).state,
            final(self).src_port == old(self).src_port,
            final(self).dst_ipv4_addr == old(self).dst_ipv4_addr,
            final(self).dst_port == old(self).dst_port,
            final(self).seq_num == old(self).seq_num,
            final(self).next_recv_seq == old(self).next_recv_seq,
    {
        let mut buf: Vec<u8> = Vec::new();
        core::mem::swap(&mut buf, &mut self.buf);
        buf
    }

    /// Server side: a closed socket starts listening on `src_port`.
    pub fn start_passive(&mut self, src_port: u16) -> (res: Result<(), Error>)
        ensures
            old(self).state == TcpSocketState::Closed <==> res is Ok,
            res matches Err(e) ==> e == Error::Failed("Invalid state") && *final(self) == *old(self),
            res is Ok ==> {
                &&& final(self).state == TcpSocketState::Listen
                &&& final(self).src_port == Some(src_port)
                &&& final(self).seq_num == 0
                &&& final(self).buf@ == Seq::<u8>::empty()
                &&& final(self).dst_ipv4_addr == old(self).dst_ipv4_addr
                &&& final(self).dst_port == old(self).dst_port
                &&& final(self).next_recv_seq == old(self).next_recv_seq
            },
    {
        if self.state != TcpSocketState::Closed {
            return Err(Error::Failed("Invalid state"));
        }
        self.state = TcpSocketState::Listen;
        self.src_port = Some(src_port);
        self.seq_num = 0;
        let _ = self.get_and_reset_buf();
        Ok(())
    }

    /// Client side: a closed socket starts connecting to the given peer.
    pub fn start_active(&mut self, dst_ipv4_addr: Ipv4Addr, dst_port: u16) -> (res: Result<(), Error>)
        ensures
            old(self).state == TcpSocketState::Closed <==> res is Ok,
            res matches Err(e) ==> e == Error::Failed("Invalid state") && *final(self) == *old(self),
            res is Ok ==> {
                &&& final(self).state == TcpSocketState::SynSent
                &&& final(self).dst_ipv4_addr == Some(dst_ipv4_addr)
                &&& final(self).dst_port == Some(dst_port)
                &&& final(self).seq_num == 0
                &&& final(self).buf@ == Seq::<u8>::empty()
                &&& final(self).src_port == old(self).src_port
                &&& final(self).next_recv_seq == old(self).next_recv_seq
            },
    {
        if self.state != TcpSocketState::Closed {
            return Err(Error::Failed("Invalid state"));
        }
        self.state = TcpSocketState::SynSent;
        self.dst_ipv4_addr = Some(dst_ipv4_addr);
        self.dst_port = Some(dst_port);
        self.seq_num = 0;
        let _ = self.get_and_reset_buf();
        Ok(())
    }

    /// A listening socket receives a SYN: it answers with its initial
    /// sequence number and expects `remote_seq + 1` next.
    pub fn receive_syn(&mut self, remote_seq: u32) -> (res: Result<u32, Error>)
        ensures
            old(self).state == TcpSocketState::Listen <==> res is Ok,
            res matches Err(e) ==> e == Error::Failed("Invalid state") && *final(self) == *old(self),
            res matches Ok(isn) ==> {
                &&& isn == old(self).seq_num
                &&& final(self).state == TcpSocketState::SynReceived
                &&& final(self).next_recv_seq == (remote_seq + 1) % 0x1_0000_0000
                &&& final(self).seq_num == (old(self).seq_num + 1) % 0x1_0000_0000
                &&& final(self).buf@ == old(self).buf@
                &&& final(self).src_port == old(self).src_port
                &&& final(self).dst_ipv4_addr == old(self).dst_ipv4_addr
                &&& final(self).dst_port == old(self).dst_port
            },
    {
        if self.state != TcpSocketState::Listen {
            return Err(Error::Failed("Invalid state"));
        }
        self.state = TcpSocketState::SynReceived;
        self.next_recv_seq = remote_seq.wrapping_add(1);
        let isn = self.seq_num;
        self.seq_num = self.seq_num.wrapping_add(1);
        Ok(isn)
    }

    /// A connecting socket receives the peer's SYN-ACK: the connection is
    /// established, `remote_seq + 1` is expected next, and the sequence
    /// number that the SYN took is used up.
    pub fn receive_syn_ack(&mut self, remote_seq: u32) -> (res: Result<(), Error>)
        ensures
            old(self).state == TcpSocketState::SynSent <==> res is Ok,
            res matches Err(e) ==> e == Error::Failed("Invalid state") && *final(self) == *old(self),
            res is Ok ==> {
                &&& final(self).state == TcpSocketState::Established
                &&& final(self).next_recv_seq == (remote_seq + 1) % 0x1_0000_0000
                &&& final(self).seq_num == (old(self).seq_num + 1) % 0x1_0000_0000
                &&& final(self).buf@ == old(self).buf@
                &&& final(self).src_port == old(self).src_port
                &&& final(self).dst_ipv4_addr == old(self).dst_ipv4_addr
                &&& final(self).dst_port == old(self).dst_port
            },
    {
        if self.state != TcpSocketState::SynSent {
            return Err(Error::Failed("Invalid state"));
        }
        self.state = TcpSocketState::Established;
        self.next_recv_seq = remote_seq.wrapping_add(1);
        self.seq_num = self.seq_num.wrapping_add(1);
        Ok(())
    }

    /// An ACK completes the handshake (or is accepted once established).
    pub fn receive_ack(&mut self) -> (res: Result<(), Error>)
        ensures
            (old(self).state == TcpSocketState::SynReceived || old(self).state
                == TcpSocketState::Established) <==> res is Ok,
            res matches Err(e) ==> e == Error::Failed("Invalid state") && *final(self) == *old(self),
            res is Ok ==> *final(self) == (TcpSocket {
                state: TcpSocketState::Established,
                ..*old(self)
            }),
    {
        if self.state != TcpSocketState::SynReceived && self.state != TcpSocketState::Established {
            return Err(Error::Failed("Invalid state"));
        }
        self.state = TcpSocketState::Established;
        Ok(())
    }

    /// A FIN on an established connection moves it to CLOSE-WAIT.
    pub fn receive_fin(&mut self) -> (res: Result<(), Error>)
        ensures
            old(self).state == TcpSocketState::Established <==> res is Ok,
            res matches Err(e) ==> e == Error::Failed("Invalid state") && *final(self) == *old(self),
            res is Ok ==> *final(self) == (TcpSocket {
                state: TcpSocketState::CloseWait,
                next_recv_seq: ((old(self).next_recv_seq + 1) % 0x1_0000_0000) as u32,
                ..*old(self)
            }),
    {
        if self.state != TcpSocketState::Established {
            return Err(Error::Failed("Invalid state"));
        }
        self.state = TcpSocketState::CloseWait;
        self.next_recv_seq = self.next_recv_seq.wrapping_add(1);
        Ok(())
    }

    /// Data in sequence is appended to the buffer; data out of sequence is
    /// dropped.
    pub fn receive_data(&mut self, data: &[u8], seq_num: u32) -> (res: Result<(), Error>)
        ensures
            old(self).state == TcpSocketState::Established <==> res is Ok,
            res matches Err(e) ==> e == Error::Failed("Invalid state") && *final(self) == *old(self),
            res is Ok && (seq_num != old(self).next_recv_seq || data@.len() == 0) ==> *final(self)
                == *old(self),
            res is Ok && seq_num == old(self).next_recv_seq && data@.len() > 0 ==> {
                &&& final(self).buf@ == old(self).buf@ + data@
                &&& final(self).next_recv_seq == (old(self).next_recv_seq + (data@.len()
                    % 0x1_0000_0000)) % 0x1_0000_0000
                &&& final(self).state == old(self).state
                &&& final(self).src_port == old(self).src_port
                &&& final(self).dst_ipv4_addr == old(self).dst_ipv4_addr
                &&& final(self).dst_port == old(self).dst_port
                &&& final(self).seq_num == old(self).seq_num
            },
    {
        if self.state != TcpSocketState::Established {
            return Err(Error::Failed("Invalid state"));
        }
        if seq_num != self.next_recv_seq {
            return Ok(());
        }
        if data.len() > 0 {
            extend_from_slice(&mut self.buf, data);
            self.next_recv_seq = self.next_recv_seq.wrapping_add((data.len() as u64 % 0x1_0000_0000) as u32);
        }
        Ok(())
    }

    /// Resets the socket to its initial state.
    pub fn close(&mut self)
        ensures
            tcp_socket_is_new(*final(self)),
    {
        *self = Self::new();
    }
}

/// A TCP segment: the fixed 20-byte header and what follows it.
#[derive(Debug, Clone)]
pub struct TcpPacket {
    pub src_port: u16,
    pub dst_port: u16,
    pub seq_num: u32,
    pub ack_num: u32,
    pub flags: u16,
    pub window_size: u16,
    pub checksum: u16,
    pub urgent_ptr: u16,
    pub options_and_data: Vec<u8>,
}

/// The header length, in bytes, that the data offset of `flags` states.
pub open spec fn header_len_of(flags: u16) -> nat {
    ((flags / 4096) as nat) * 4
}

/// Why bytes do not hold a TCP segment, if they do not.
pub open spec fn tcp_parse_error(v: Seq<u8>) -> Option<Error> {
    if v.len() < 20 {
        Some(Error::Failed("Invalid data length"))
    } else if be16(v[12], v[13]) / 4096 < 5 {
        Some(Error::Failed("Invalid TCP data offset"))
    } else if v.len() < header_len_of(be16(v[12], v[13])) {
        Some(Error::Failed("Packet shorter than header length"))
    } else {
        None
    }
}

pub open spec fn tcp_parsed_from(p: TcpPacket, v: Seq<u8>) -> bool {
    &&& tcp_parse_error(v) is None
    &&& p.src_port == be16(v[0], v[1])
    &&& p.dst_port == be16(v[2], v[3])
    &&& p.seq_num == be32(v[4], v[5], v[6], v[7])
    &&& p.ack_num == be32(v[8], v[9], v[10], v[11])
    &&& p.flags == be16(v[12], v[13])
    &&& p.window_size == be16(v[14], v[15])
    &&& p.checksum == be16(v[16], v[17])
    &&& p.urgent_ptr == be16(v[18], v[19])
    &&& p.options_and_data@ == v.skip(20)
}

/// The wire form of a segment with the given checksum field.
pub open spec fn tcp_bytes_with_checksum(p: TcpPacket, checksum: u16) -> Seq<u8> {
    be16_bytes(p.src_port) + be16_bytes(p.dst_port) + be32_bytes(p.seq_num) + be32_bytes(p.ack_num)
        + be16_bytes(p.flags) + be16_bytes(p.window_size) + be16_bytes(checksum) + be16_bytes(
        p.urgent_ptr,
    ) + p.options_and_data@
}

/// The wire form of a segment.
pub open spec fn tcp_bytes(p: TcpPacket) -> Seq<u8> {
    tcp_bytes_with_checksum(p, p.checksum)
}

/// The sum that the checksum of a segment covers: the pseudo header and
/// the segment's words, with wrapping 32-bit addition for the latter.
pub open spec fn tcp_checksum_sum(p: TcpPacket, checksum: u16, src: Ipv4Addr, dst: Ipv4Addr) -> nat {
    let bytes = tcp_bytes_with_checksum(p, checksum);
    (pseudo_header_words(src, dst, 6, bytes.len()) + words_sum(bytes) % 0x1_0000_0000)
        % 0x1_0000_0000
}

proof fn lemma_flags_compose(h: u16, f: u16)
    ensures
        (h << 12u16) | (f & 0x0fff) == (h % 16) * 4096 + f % 4096,
{
    assert((h << 12u16) | (f & 0x0fff) == (h % 16) * 4096 + f % 4096) by (bit_vector);
}

proof fn lemma_flag_bit(flags: u16, bit: u16)
    requires
        bit == 1 || bit == 2 || bit == 4 || bit == 8 || bit == 16 || bit == 32 || bit == 64 || bit
            == 128 || bit == 256,
    ensures
        (flags & bit != 0) == ((flags / bit) % 2 == 1),
{
    assert((bit == 1 || bit == 2 || bit == 4 || bit == 8 || bit == 16 || bit == 32 || bit == 64
        || bit == 128 || bit == 256) ==> ((flags & bit != 0) == ((flags / bit) % 2 == 1)))
        by (bit_vector);
}

/// Whether the flag bit `bit` is set in `flags`.
pub open spec fn flag_set(flags: u16, bit: u16) -> bool {
    (flags / bit) % 2 == 1
}

impl TcpPacket {
    pub const FLAGS_FIN: u16 = 0x01;
    pub const FLAGS_SYN: u16 = 0x02;
    pub const FLAGS_RST: u16 = 0x04;
    pub const FLAGS_PSH: u16 = 0x08;
    pub const FLAGS_ACK: u16 = 0x10;
    pub const FLAGS_URG: u16 = 0x20;
    pub const FLAGS_ECE: u16 = 0x40;
    pub const FLAGS_CWR: u16 = 0x80;
    pub const FLAGS_NS: u16 = 0x100;

    /// Reads a segment from bytes, checking its data offset.
    pub fn try_from(value: &[u8]) -> (res: Result<Self, Error>)
        ensures
            tcp_parse_error(value@) is None <==> res is Ok,
            res matches Err(e) ==> tcp_parse_error(value@) == Some(e),
            res matches Ok(p) ==> tcp_parsed_from(p, value@),
    {
        if value.len() < 20 {
            return Err(Error::Failed("Invalid data length"));
        }
        let src_port = from_be_u16(value[0], value[1]);
        let dst_port = from_be_u16(value[2], value[3]);
        let seq_num = from_be_u32(value[4], value[5], value[6], value[7]);
        let ack_num = from_be_u32(value[8], value[9], value[10], value[11]);
        let flags = from_be_u16(value[12], value[13]);
        let window_size = from_be_u16(value[14], value[15]);
        let checksum = from_be_u16(value[16], value[17]);
        let urgent_ptr = from_be_u16(value[18], value[19]);
        let data_offset_words = (flags / 4096) as usize;
        if data_offset_words < 5 {
            return Err(Error::Failed("Invalid TCP data offset"));
        }
        let header_len = data_offset_words * 4;
        if value.len() < header_len {
            return Err(Error::Failed("Packet shorter than header length"));
        }
        let options_and_data = slice_from(value, 20);
        Ok(TcpPacket {
            src_port,
            dst_port,
            seq_num,
            ack_num,
            flags,
            window_size,
            checksum,
            urgent_ptr,
            options_and_data,
        })
    }

    /// Builds a segment; the data offset is derived from the length of
    /// `options_and_data`, which is zero-padded to a multiple of four bytes.
    pub fn new_with(
        src_port: u16,
        dst_port: u16,
        seq_num: u32,
        ack_num: u32,
        flags_without_header_len: u16,
        window_size: u16,
        urgent_ptr: u16,
        options_and_data: Vec<u8>,
    ) -> (res: Self)
        requires
            options_and_data@.len() <= 262120,
        ensures
            ({
                let hl = (20 + options_and_data@.len() + 3) / 4;
                &&& res.src_port == src_port
                &&& res.dst_port == dst_port
                &&& res.seq_num == seq_num
                &&& res.ack_num == ack_num
                &&& res.flags == (hl % 16) * 4096 + flags_without_header_len % 4096
                &&& res.window_size == window_size
                &&& res.checksum == 0
                &&& res.urgent_ptr == urgent_ptr
                &&& res.options_and_data@ == options_and_data@ + Seq::new(
                    (hl * 4 - 20 - options_and_data@.len()) as nat,
                    |i: int| 0u8,
                )
            }),
    {
        let mut options_and_data = options_and_data;
        let header_len = ((20 + options_and_data.len() + 3) / 4) as u16;
        proof {
            lemma_flags_compose(header_len, flags_without_header_len);
        }
        let flags = header_len << 12u16 | flags_without_header_len & 0x0fff;
        resize_bytes(&mut options_and_data, header_len as usize * 4 - 20, 0);
        TcpPacket {
            src_port,
            dst_port,
            seq_num,
            ack_num,
            flags,
            window_size,
            checksum: 0,
            urgent_ptr,
            options_and_data,
        }
    }

    /// Sets the checksum over the segment alone (no pseudo header).
    pub fn calc_checksum(&mut self)
        ensures
            *final(self) == (TcpPacket {
                checksum: checksum_of(words_sum(tcp_bytes_with_checksum(*old(self), 0)) % 0x1_0000_0000),
                ..*old(self)
            }),
    {
        self.checksum = 0;
        let packet = self.to_vec();
        assert(tcp_bytes(*self) =~= tcp_bytes_with_checksum(*old(self), 0));
        let sum = checksum_words(packet.as_slice());
        self.checksum = fold_checksum(sum);
    }

    /// Checks the checksum of the segment together with the IPv4 pseudo
    /// header: true when the folded sum is all ones or zero.
    #[verifier::rlimit(40)]
    pub fn verify_checksum_with_ipv4(&self, src_addr: Ipv4Addr, dst_addr: Ipv4Addr) -> (res: bool)
        requires
            self.options_and_data@.len() <= 0xffe0_0000,
        ensures
            res == (fold16(tcp_checksum_sum(*self, self.checksum, src_addr, dst_addr)) == 0
                || fold16(tcp_checksum_sum(*self, self.checksum, src_addr, dst_addr)) == 0xffff),
    {
        let packet = self.to_vec();
        assert(packet@ == tcp_bytes_with_checksum(*self, self.checksum));
        let sum = pseudo_checksum_sum(src_addr, dst_addr, 6, packet.as_slice());
        proof {
            lemma_fold16_bound(sum as nat);
        }
        let checksum = fold_checksum(sum);
        checksum == 0xffff || checksum == 0
    }

    /// Sets the checksum over the IPv4 pseudo header and the segment.
    #[verifier::rlimit(40)]
    pub fn calc_checksum_with_ipv4(&mut self, src_addr: Ipv4Addr, dst_addr: Ipv4Addr)
        requires
            old(self).options_and_data@.len() <= 0xffe0_0000,
        ensures
            *final(self) == (TcpPacket {
                checksum: checksum_of(tcp_checksum_sum(*old(self), 0, src_addr, dst_addr)),
                ..*old(self)
            }),
    {
        self.checksum = 0;
        let packet = self.to_vec();
        assert(tcp_bytes(*self) =~= tcp_bytes_with_checksum(*old(self), 0));
        let sum = pseudo_checksum_sum(src_addr, dst_addr, 6, packet.as_slice());
        self.checksum = fold_checksum(sum);
    }

    /// The header length in bytes stated by the data offset.
    pub fn flags_header_len(&self) -> (res: usize)
        ensures
            res == header_len_of(self.flags),
    {
        (self.flags / 4096) as usize * 4
    }

    pub fn flags_fin(&self) -> (res: bool)
        ensures
            res == flag_set(self.flags, Self::FLAGS_FIN),
    {
        proof {
            lemma_flag_bit(self.flags, 1);
        }
        self.flags & Self::FLAGS_FIN != 0
    }

    pub fn flags_syn(&self) -> (res: bool)
        ensures
            res == flag_set(self.flags, Self::FLAGS_SYN),
    {
        proof {
            lemma_flag_bit(self.flags, 2);
        }
        self.flags & Self::FLAGS_SYN != 0
    }

    pub fn flags_rst(&self) -> (res: bool)
        ensures
            res == flag_set(self.flags, Self::FLAGS_RST),
    {
        proof {
            lemma_flag_bit(self.flags, 4);
        }
        self.flags & Self::FLAGS_RST != 0
    }

    pub fn flags_psh(&self) -> (res: bool)
        ensures
            res == flag_set(self.flags, Self::FLAGS_PSH),
    {
        proof {
            lemma_flag_bit(self.flags, 8);
        }
        self.flags & Self::FLAGS_PSH != 0
    }

    pub fn flags_ack(&self) -> (res: bool)
        ensures
            res == flag_set(self.flags, Self::FLAGS_ACK),
    {
        proof {
            lemma_flag_bit(self.flags, 16);
        }
        self.flags & Self::FLAGS_ACK != 0
    }

    pub fn flags_urg(&self) -> (res: bool)
        ensures
            res == flag_set(self.flags, Self::FLAGS_URG),
    {
        proof {
            lemma_flag_bit(self.flags, 32);
        }
        self.flags & Self::FLAGS_URG != 0
    }

    pub fn flags_ece(&self) -> (res: bool)
        ensures
            res == flag_set(self.flags, Self::FLAGS_ECE),
    {
        proof {
            lemma_flag_bit(self.flags, 64);
        }
        self.flags & Self::FLAGS_ECE != 0
    }

    pub fn flags_cwr(&self) -> (res: bool)
        ensures
            res == flag_set(self.flags, Self::FLAGS_CWR),
    {
        proof {
            lemma_flag_bit(self.flags, 128);
        }
        self.flags & Self::FLAGS_CWR != 0
    }

    pub fn flags_ns(&self) -> (res: bool)
        ensures
            res == flag_set(self.flags, Self::FLAGS_NS),
    {
        proof {
            lemma_flag_bit(self.flags, 256);
        }
        self.flags & Self::FLAGS_NS != 0
    }

    /// The wire form of the segment.
    pub fn to_vec(&self) -> (res: Vec<u8>)
        ensures
            res@ == tcp_bytes(*self),
    {
        let mut v: Vec<u8> = Vec::new();
        extend_from_slice(&mut v, &to_be_u16(self.src_port));
        extend_from_slice(&mut v, &to_be_u16(self.dst_port));
        extend_from_slice(&mut v, &to_be_u32(self.seq_num));
        extend_from_slice(&mut v, &to_be_u32(self.ack_num));
        extend_from_slice(&mut v, &to_be_u16(self.flags));
        extend_from_slice(&mut v, &to_be_u16(self.window_size));
        extend_from_slice(&mut v, &to_be_u16(self.checksum));
        extend_from_slice(&mut v, &to_be_u16(self.urgent_ptr));
        extend_from_slice(&mut v, self.options_and_data.as_slice());
        assert(v@ =~= tcp_bytes(*self));
        v
    }
}

/// Changing the checksum field from 0 to `c` adds `c` to the word sum.
proof fn lemma_tcp_words_with_checksum(p: TcpPacket, c: u16)
    ensures
        words_sum(tcp_bytes_with_checksum(p, c)) == words_sum(tcp_bytes_with_checksum(p, 0)) + c,
        tcp_bytes_with_checksum(p, c).len() == 20 + p.options_and_data@.len(),
{
    let a = be16_bytes(p.src_port) + be16_bytes(p.dst_port) + be32_bytes(p.seq_num) + be32_bytes(
        p.ack_num,
    ) + be16_bytes(p.flags) + be16_bytes(p.window_size);
    let b = be16_bytes(p.urgent_ptr) + p.options_and_data@;
    assert(tcp_bytes_with_checksum(p, c) =~= a + (be16_bytes(c) + b));
    assert(tcp_bytes_with_checksum(p, 0) =~= a + (be16_bytes(0) + b));
    lemma_words_sum_concat(a, be16_bytes(c) + b);
    lemma_words_sum_concat(a, be16_bytes(0) + b);
    lemma_words_sum_concat(be16_bytes(c), b);
    lemma_words_sum_concat(be16_bytes(0), b);
    lemma_words_sum_be16(c);
    lemma_words_sum_be16(0);
}

/// A segment whose checksum was calculated over an IPv4 pseudo header
/// verifies against that pseudo header: the sum with the checksum folds to
/// all ones. Stated for segments of at most 65535 bytes of options and
/// data, whose word sums stay below 2^32.
pub proof fn lemma_tcp_checksum_verifies(p: TcpPacket, q: TcpPacket, src: Ipv4Addr, dst: Ipv4Addr)
    requires
        p.options_and_data@.len() <= 0xffff,
        q == (TcpPacket { checksum: checksum_of(tcp_checksum_sum(p, 0, src, dst)), ..p }),
    ensures
        fold16(tcp_checksum_sum(q, q.checksum, src, dst)) == 0xffff,
{
    let c = q.checksum;
    let b0 = tcp_bytes_with_checksum(p, 0);
    let len = b0.len();
    let w = words_sum(b0);
    let ph = pseudo_header_words(src, dst, 6, len);
    assert(words_sum(tcp_bytes_with_checksum(q, c)) == w + c && len == 20 + p.options_and_data@.len()) by {
        lemma_tcp_words_with_checksum(p, c);
        assert(tcp_bytes_with_checksum(q, c) =~= tcp_bytes_with_checksum(p, c));
    }
    assert(w <= 0x800a_0000) by {
        lemma_words_sum_bound(b0);
        assert(0x10000 * ((len + 1) / 2) <= 0x800a_0000) by (nonlinear_arith)
            requires
                len <= 0x10013,
        {
        }
    }
    assert(ph < 0x6_0000);
    assert(tcp_checksum_sum(p, 0, src, dst) == ph + w) by {
        vstd::arithmetic::div_mod::lemma_small_mod(w, 0x1_0000_0000);
        vstd::arithmetic::div_mod::lemma_small_mod(ph + w, 0x1_0000_0000);
    }
    assert(tcp_checksum_sum(q, c, src, dst) == ph + w + c) by {
        assert(tcp_bytes_with_checksum(q, c).len() == len);
        vstd::arithmetic::div_mod::lemma_small_mod((w + c) as nat, 0x1_0000_0000);
        vstd::arithmetic::div_mod::lemma_small_mod((ph + w + c) as nat, 0x1_0000_0000);
    }
    lemma_checksum_verifies(ph + w);
}

/// The wire form of a segment with a valid data offset reads back as the
/// same segment.
pub proof fn lemma_tcp_roundtrip(p: TcpPacket)
    requires
        p.flags / 4096 >= 5,
        20 + p.options_and_data@.len() >= header_len_of(p.flags),
    ensures
        tcp_parsed_from(p, tcp_bytes(p)),
{
    let v = tcp_bytes(p);
    lemma_be16_roundtrip(p.src_port);
    lemma_be16_roundtrip(p.dst_port);
    lemma_be32_roundtrip(p.seq_num);
    lemma_be32_roundtrip(p.ack_num);
    lemma_be16_roundtrip(p.flags);
    lemma_be16_roundtrip(p.window_size);
    lemma_be16_roundtrip(p.checksum);
    lemma_be16_roundtrip(p.urgent_ptr);
    assert(v.skip(20) =~= p.options_and_data@);
}

/// The bytes of a segment after its header, as its data offset places
/// them (none when the offset is out of range).
pub open spec fn tcp_data(p: TcpPacket) -> Seq<u8> {
    let hl = header_len_of(p.flags);
    if 20 <= hl && hl - 20 <= p.options_and_data@.len() {
        p.options_and_data@.skip(hl - 20)
    } else {
        Seq::empty()
    }
}

/// `r` is an answer with a bare 20-byte header, the given fields, a window
/// of 65535 and its checksum still to be filled in.
pub open spec fn bare_reply(r: TcpPacket, src_port: u16, dst_port: u16, seq_num: u32, ack_num: u32, flags: u16) -> bool {
    &&& r.src_port == src_port
    &&& r.dst_port == dst_port
    &&& r.seq_num == seq_num
    &&& r.ack_num == ack_num
    &&& r.flags == 5 * 4096 + flags
    &&& r.window_size == 0xffff
    &&& r.checksum == 0
    &&& r.urgent_ptr == 0
    &&& r.options_and_data@ == Seq::<u8>::empty()
}

/// The data of a segment.
pub fn segment_data(p: &TcpPacket) -> (res: Vec<u8>)
    ensures
        res@ == tcp_data(*p),
{
    let hl = p.flags_header_len();
    if 20 <= hl && hl - 20 <= p.options_and_data.len() {
        slice_from(p.options_and_data.as_slice(), hl - 20)
    } else {
        Vec::new()
    }
}

/// `t1` and the answer `res` are what the socket `t0` makes of `packet`,
/// as `tcp_step` describes.
pub open spec fn tcp_stepped(t0: TcpSocket, t1: TcpSocket, packet: TcpPacket, res: Result<Option<TcpPacket>, Error>) -> bool {
    let syn = flag_set(packet.flags, TcpPacket::FLAGS_SYN);
    let ack = flag_set(packet.flags, TcpPacket::FLAGS_ACK);
    let fin = flag_set(packet.flags, TcpPacket::FLAGS_FIN);
    let data = tcp_data(packet);
    match t0.state {
        TcpSocketState::SynSent => if syn && ack {
            &&& t1.state == TcpSocketState::Established
            &&& t1.next_recv_seq == (packet.seq_num + 1) % 0x1_0000_0000
            &&& t1.seq_num == (t0.seq_num + 1) % 0x1_0000_0000
            &&& t1.buf@ == t0.buf@ && t1.src_port == t0.src_port
            &&& t1.dst_ipv4_addr == t0.dst_ipv4_addr && t1.dst_port == t0.dst_port
            &&& res matches Ok(Some(r)) && bare_reply(
                r,
                packet.dst_port,
                packet.src_port,
                t1.seq_num,
                t1.next_recv_seq,
                TcpPacket::FLAGS_ACK,
            )
        } else {
            t1 == t0 && res matches Ok(None)
        },
        TcpSocketState::SynReceived => if ack {
            t1 == (TcpSocket { state: TcpSocketState::Established, ..t0 }) && res matches Ok(None)
        } else {
            t1 == t0 && res matches Ok(None)
        },
        TcpSocketState::Established => {
            let takes = data.len() > 0 && packet.seq_num == t0.next_recv_seq;
            let next = if takes {
                ((t0.next_recv_seq + (data.len() % 0x1_0000_0000)) % 0x1_0000_0000) as u32
            } else {
                t0.next_recv_seq
            };
            &&& t1.state == if fin { TcpSocketState::CloseWait } else { TcpSocketState::Established }
            &&& t1.next_recv_seq == if fin { ((next + 1) % 0x1_0000_0000) as u32 } else { next }
            &&& t1.buf@ == if takes { t0.buf@ + data } else { t0.buf@ }
            &&& t1.seq_num == t0.seq_num && t1.src_port == t0.src_port
            &&& t1.dst_ipv4_addr == t0.dst_ipv4_addr && t1.dst_port == t0.dst_port
            &&& if data.len() > 0 || fin {
                res matches Ok(Some(r)) && bare_reply(
                    r,
                    packet.dst_port,
                    packet.src_port,
                    t1.seq_num,
                    t1.next_recv_seq,
                    TcpPacket::FLAGS_ACK,
                )
            } else {
                res matches Ok(None)
            }
        },
        _ => t1 == t0 && res matches Ok(None),
    }
}

/// A segment never loses or reorders received data: the receive buffer
/// only grows, by exactly the segment's data and only when that data is the
/// next expected in sequence; every answer acknowledges all that has been
/// received (the data, plus one for a SYN or FIN); the connection only
/// moves forward (SYN-SENT to ESTABLISHED on a SYN-ACK, SYN-RECEIVED to
/// ESTABLISHED on an ACK, ESTABLISHED to CLOSE-WAIT on a FIN); a socket in
/// no other state is left as it is.
pub proof fn lemma_tcp_receive(t0: TcpSocket, t1: TcpSocket, packet: TcpPacket, res: Result<Option<TcpPacket>, Error>)
    requires
        tcp_stepped(t0, t1, packet, res),
    ensures
        t1.buf@.len() >= t0.buf@.len(),
        t1.buf@.subrange(0, t0.buf@.len() as int) == t0.buf@,
        t1.buf@.len() > t0.buf@.len() ==> t0.state == TcpSocketState::Established && packet.seq_num
            == t0.next_recv_seq && t1.buf@ == t0.buf@ + tcp_data(packet),
        t0.state == TcpSocketState::Established && packet.seq_num == t0.next_recv_seq ==> t1.buf@ == t0.buf@
            + tcp_data(packet),
        t0.state == TcpSocketState::Established && packet.seq_num != t0.next_recv_seq ==> t1.buf@ == t0.buf@,
        res matches Ok(Some(r)) ==> r.ack_num == t1.next_recv_seq && r.seq_num == t1.seq_num && r.src_port
            == packet.dst_port && r.dst_port == packet.src_port,
        t0.state == TcpSocketState::SynSent ==> (t1.state == TcpSocketState::SynSent || t1.state
            == TcpSocketState::Established) && (t1.state == TcpSocketState::Established ==> flag_set(
            packet.flags,
            TcpPacket::FLAGS_SYN,
        ) && flag_set(packet.flags, TcpPacket::FLAGS_ACK) && t1.next_recv_seq == (packet.seq_num + 1)
            % 0x1_0000_0000),
        t0.state == TcpSocketState::SynReceived ==> (t1.state == TcpSocketState::SynReceived || t1.state
            == TcpSocketState::Established) && (t1.state == TcpSocketState::Established <==> flag_set(
            packet.flags,
            TcpPacket::FLAGS_ACK,
        )),
        t0.state == TcpSocketState::Established ==> (t1.state == TcpSocketState::CloseWait <==> flag_set(
            packet.flags,
            TcpPacket::FLAGS_FIN,
        )) && (t1.state == TcpSocketState::Established || t1.state == TcpSocketState::CloseWait),
        t0.state == TcpSocketState::Established ==> t1.next_recv_seq == (t0.next_recv_seq + (if packet.seq_num
            == t0.next_recv_seq { tcp_data(packet).len() } else { 0 }) + (if flag_set(
            packet.flags,
            TcpPacket::FLAGS_FIN,
        ) { 1int } else { 0 })) % 0x1_0000_0000,
        !(t0.state == TcpSocketState::SynSent || t0.state == TcpSocketState::SynReceived || t0.state
            == TcpSocketState::Established) ==> t1 == t0 && res matches Ok(None),
{
    assert(t0.buf@.subrange(0, t0.buf@.len() as int) =~= t0.buf@);
    assert((t0.buf@ + tcp_data(packet)).subrange(0, t0.buf@.len() as int) =~= t0.buf@);
    if t0.state == TcpSocketState::Established && packet.seq_num == t0.next_recv_seq && tcp_data(packet).len() == 0 {
        assert(t0.buf@ + tcp_data(packet) =~= t0.buf@);
    }
}

/// What a socket past LISTEN does with a segment from its peer, and the
/// answer it gives: a connecting socket takes a SYN-ACK and acknowledges
/// it; a half-open one takes the ACK that completes the handshake; an
/// established one takes ACKs, data in sequence and a FIN, acknowledging
/// data and FIN. Other segments and states are ignored.
pub fn tcp_step(t: &mut TcpSocket, packet: &TcpPacket) -> (res: Result<Option<TcpPacket>, Error>)
    ensures
        res is Ok,
        tcp_stepped(*old(t), *final(t), *packet, res),
{
    let src_port = packet.src_port;
    let dst_port = packet.dst_port;
    let seq_num = packet.seq_num;
    assert(0x5000u16 | 0x10u16 == 5 * 4096 + 0x10) by (bit_vector);
    match t.state() {
        TcpSocketState::SynSent => {
            if !packet.flags_syn() || !packet.flags_ack() {
                return Ok(None);
            }
            match t.receive_syn_ack(seq_num) {
                Ok(()) => {},
                Err(e) => return Err(e),
            }
            let reply = TcpPacket::new_with(
                dst_port,
                src_port,
                t.seq_num(),
                t.next_recv_seq(),
                TcpPacket::FLAGS_ACK,
                0xffff,
                0,
                Vec::new(),
            );
            Ok(Some(reply))
        },
        TcpSocketState::SynReceived => {
            if !packet.flags_ack() {
                return Ok(None);
            }
            match t.receive_ack() {
                Ok(()) => Ok(None),
                Err(e) => Err(e),
            }
        },
        TcpSocketState::Established => {
            let mut ack_needed = false;
            if packet.flags_ack() {
                match t.receive_ack() {
                    Ok(()) => {},
                    Err(e) => return Err(e),
                }
            }
            let data = segment_data(packet);
            if data.len() > 0 {
                match t.receive_data(data.as_slice(), seq_num) {
                    Ok(()) => {},
                    Err(e) => return Err(e),
                }
                ack_needed = true;
            }
            if packet.flags_fin() {
                match t.receive_fin() {
                    Ok(()) => {},
                    Err(e) => return Err(e),
                }
                ack_needed = true;
            }
            if ack_needed {
                let reply = TcpPacket::new_with(
                    dst_port,
                    src_port,
                    t.seq_num(),
                    t.next_recv_seq(),
                    TcpPacket::FLAGS_ACK,
                    0xffff,
                    0,
                    Vec::new(),
                );
                return Ok(Some(reply));
            }
            Ok(None)
        },
        _ => Ok(None),
    }
}

} // verus!
