pub mod arp;
pub mod checksum;
pub mod eth;
pub mod icmp;
pub mod ip;
pub mod socket;
pub mod tcp;
pub mod udp;

use vstd::prelude::*;
use std::collections::BTreeMap;
use crate::codec::{be32, from_be_u32};
use crate::error::Error;
use crate::net::arp::{ArpOperation, ArpPacket};
use crate::net::eth::EthernetAddress;
use crate::net::icmp::{icmp_bytes_with_checksum, IcmpPacket, IcmpType};
use crate::net::checksum::words_sum;
use crate::net::udp::UdpPacket;
use crate::net::ip::{Ipv4Addr, Protocol};
use crate::net::socket::{Socket, SocketId, SocketInner, SocketTable, SocketType};
use crate::net::tcp::{tcp_checksum_sum, tcp_step, tcp_stepped, TcpPacket, TcpSocket, TcpSocketState};
use crate::net::checksum::checksum_of;
use crate::net::udp::UdpSocket;

verus! {

broadcast use {vstd::std_specs::btree::group_btree_axioms, vstd::laws_cmp::group_laws_cmp};

/// The router of the local network.
pub fn gateway_addr() -> (res: Ipv4Addr)
    ensures
        res.octets@ == seq![10u8, 0, 2, 2],
{
    Ipv4Addr::new(10, 0, 2, 2)
}

/// This host's address.
pub fn local_addr() -> (res: Ipv4Addr)
    ensures
        res.octets@ == seq![10u8, 0, 2, 15],
{
    Ipv4Addr::new(10, 0, 2, 15)
}

/// The mask of the local network.
pub fn subnet_mask() -> (res: Ipv4Addr)
    ensures
        res.octets@ == seq![255u8, 255, 255, 0],
{
    Ipv4Addr::new(255, 255, 255, 0)
}

/// Both addresses lie in the local network of the mask 255.255.255.0.
pub open spec fn same_subnet(a: Ipv4Addr, b: Ipv4Addr) -> bool {
    let mask = seq![255u8, 255, 255, 0];
    forall|i: int| 0 <= i < 4 ==> #[trigger] (a.octets@[i] & mask[i]) == (b.octets@[i] & mask[i])
}

/// The host to hand a packet for `dst_ip` to: the destination itself on
/// the local network, else the gateway.
pub fn get_target_ip(my_ip: Ipv4Addr, dst_ip: Ipv4Addr) -> (res: Ipv4Addr)
    ensures
        same_subnet(my_ip, dst_ip) ==> res.octets@ == dst_ip.octets@,
        !same_subnet(my_ip, dst_ip) ==> res.octets@ == seq![10u8, 0, 2, 2],
{
    let my_octets = my_ip.octets();
    let dst_octets = dst_ip.octets();
    let mask_octets = subnet_mask().octets();
    let mut is_same_subnet = true;
    let mut i: usize = 0;
    while i < 4
        invariant
            i <= 4,
            my_octets@ == my_ip.octets@,
            dst_octets@ == dst_ip.octets@,
            mask_octets@ == seq![255u8, 255, 255, 0],
            is_same_subnet <==> forall|j: int|
                0 <= j < i ==> #[trigger] (my_ip.octets@[j] & mask_octets@[j]) == (dst_ip.octets@[j]
                    & mask_octets@[j]),
        decreases 4 - i,
    {
        if (my_octets[i] & mask_octets[i]) != (dst_octets[i] & mask_octets[i]) {
            is_same_subnet = false;
        }
        i = i + 1;
    }
    if is_same_subnet {
        dst_ip
    } else {
        gateway_addr()
    }
}

/// The key of an address in the ARP table: its octets read as a
/// big-endian number.
pub open spec fn arp_key(a: Ipv4Addr) -> u32 {
    be32(a.octets@[0], a.octets@[1], a.octets@[2], a.octets@[3])
}

/// Distinct addresses have distinct ARP-table keys: the key keeps all four
/// octets, so a MAC learned for one address is never found for another.
pub proof fn lemma_arp_key_injective(a: Ipv4Addr, b: Ipv4Addr)
    requires
        arp_key(a) == arp_key(b),
    ensures
        a.octets@ == b.octets@,
        a == b,
{
    let (a0, a1, a2, a3) = (a.octets@[0], a.octets@[1], a.octets@[2], a.octets@[3]);
    let (b0, b1, b2, b3) = (b.octets@[0], b.octets@[1], b.octets@[2], b.octets@[3]);
    assert(((a0 as nat) * 0x100_0000 + (a1 as nat) * 0x1_0000 + (a2 as nat) * 0x100 + (a3 as nat)) as u32 == ((
    b0 as nat) * 0x100_0000 + (b1 as nat) * 0x1_0000 + (b2 as nat) * 0x100 + (b3 as nat)) as u32 ==> a0 == b0
        && a1 == b1 && a2 == b2 && a3 == b3) by (bit_vector);
    assert(a.octets@ =~= b.octets@);
    assert(a.octets == b.octets);
}

/// Learning the address of one host leaves what the table knows of every
/// other host as it was: the entry for `other` is untouched by an entry for
/// `learned`.
pub proof fn lemma_arp_learn_isolated<V>(t: Map<u32, V>, learned: Ipv4Addr, v: V, other: Ipv4Addr)
    requires
        learned.octets@ != other.octets@,
    ensures
        t.insert(arp_key(learned), v).contains_key(arp_key(other)) == t.contains_key(arp_key(other)),
        t.contains_key(arp_key(other)) ==> t.insert(arp_key(learned), v)[arp_key(other)] == t[arp_key(other)],
        t.insert(arp_key(learned), v)[arp_key(learned)] == v,
{
    if arp_key(learned) == arp_key(other) {
        lemma_arp_key_injective(learned, other);
    }
}

pub fn arp_key_of(a: &Ipv4Addr) -> (res: u32)
    ensures
        res == arp_key(*a),
{
    from_be_u32(a.octets[0], a.octets[1], a.octets[2], a.octets[3])
}

/// The TCP state of a socket, if it is a stream socket holding one.
pub open spec fn tcp_of(s: Socket) -> Option<TcpSocket> {
    if s.type_ == SocketType::Stream {
        match s.inner {
            SocketInner::Tcp(t) => Some(t),
            _ => None,
        }
    } else {
        None
    }
}

/// The UDP state of a socket, if it is a datagram socket holding one.
pub open spec fn udp_of(s: Socket) -> Option<UdpSocket> {
    if s.type_ == SocketType::Dgram {
        match s.inner {
            SocketInner::Udp(u) => Some(u),
            _ => None,
        }
    } else {
        None
    }
}

/// `s` with its protocol state replaced.
pub open spec fn with_inner(s: Socket, inner: SocketInner) -> Socket {
    Socket { inner, ..s }
}

/// `t1` is `t0` listening on `port`.
pub open spec fn listening(t0: TcpSocket, t1: TcpSocket, port: u16) -> bool {
    &&& t1.state == TcpSocketState::Listen
    &&& t1.src_port == Some(port)
    &&& t1.seq_num == 0
    &&& t1.buf@ == Seq::<u8>::empty()
    &&& t1.dst_ipv4_addr == t0.dst_ipv4_addr
    &&& t1.dst_port == t0.dst_port
    &&& t1.next_recv_seq == t0.next_recv_seq
}

/// `t1` is `t0` connecting to the given peer.
pub open spec fn connecting(t0: TcpSocket, t1: TcpSocket, addr: Ipv4Addr, port: u16) -> bool {
    &&& t1.state == TcpSocketState::SynSent
    &&& t1.dst_ipv4_addr == Some(addr)
    &&& t1.dst_port == Some(port)
    &&& t1.seq_num == 0
    &&& t1.buf@ == Seq::<u8>::empty()
    &&& t1.src_port == t0.src_port
    &&& t1.next_recv_seq == t0.next_recv_seq
}

/// The states in which received data may still be read.
pub open spec fn readable_state(s: TcpSocketState) -> bool {
    s == TcpSocketState::Established || s == TcpSocketState::FinWait1 || s == TcpSocketState::FinWait2
        || s == TcpSocketState::CloseWait || s == TcpSocketState::TimeWait || s == TcpSocketState::LastAck
        || s == TcpSocketState::Closing
}

/// Taking an entry out of a map and putting it back gives the map again;
/// taking out a missing key changes nothing.
pub proof fn lemma_remove_insert<K, V>(m: Map<K, V>, k: K)
    ensures
        m.contains_key(k) ==> m.remove(k).insert(k, m[k]) == m,
        !m.contains_key(k) ==> m.remove(k) == m,
{
    if m.contains_key(k) {
        assert(m.remove(k).insert(k, m[k]) =~= m);
    } else {
        assert(m.remove(k) =~= m);
    }
}

/// `p` is a segment with the given header fields, a window of 65535, the
/// given header length in 32-bit words and bytes after the fixed header,
/// and its checksum taken over the IPv4 pseudo header of `src` and `dst`.
pub open spec fn segment(
    p: TcpPacket,
    src_port: u16,
    dst_port: u16,
    seq_num: u32,
    ack_num: u32,
    header_words: u16,
    flags: u16,
    rest: Seq<u8>,
    src: Ipv4Addr,
    dst: Ipv4Addr,
) -> bool {
    &&& p.src_port == src_port
    &&& p.dst_port == dst_port
    &&& p.seq_num == seq_num
    &&& p.ack_num == ack_num
    &&& p.flags == header_words * 4096 + flags
    &&& p.window_size == 0xffff
    &&& p.urgent_ptr == 0
    &&& p.options_and_data@ == rest
    &&& p.checksum == checksum_of(tcp_checksum_sum(p, 0, src, dst))
}

/// A segment with a 20-byte header and `data` after it, flagged ACK and
/// PSH, checksummed for the given addresses.
fn data_segment(
    src_port: u16,
    dst_port: u16,
    seq_num: u32,
    ack_num: u32,
    data: &[u8],
    src: Ipv4Addr,
    dst: Ipv4Addr,
) -> (res: TcpPacket)
    requires
        data@.len() <= 0xffe0_0000,
    ensures
        segment(res, src_port, dst_port, seq_num, ack_num, 5, 0x18, data@, src, dst),
{
    let mut packet = TcpPacket {
        src_port,
        dst_port,
        seq_num,
        ack_num,
        flags: 0x5000 | TcpPacket::FLAGS_ACK | TcpPacket::FLAGS_PSH,
        window_size: 0xffff,
        checksum: 0,
        urgent_ptr: 0,
        options_and_data: crate::codec::slice_from(data, 0),
    };
    assert(0x5000u16 | 0x10u16 | 0x08u16 == 5 * 4096 + 0x18) by (bit_vector);
    assert(packet.options_and_data@ =~= data@);
    packet.calc_checksum_with_ipv4(src, dst);
    packet
}

/// What looking up the hardware address of a neighbour gave.
#[derive(Debug)]
pub enum ArpLookup {
    /// the address is known
    Resolved(EthernetAddress),
    /// a request went out less than a second ago; the answer is awaited
    Pending,
    /// unknown: this request is to be broadcast
    Request(ArpPacket),
}

/// `k` numbers the lowest-numbered TCP socket on `lp` connected to the
/// remote end `ra`:`rp`.
pub open spec fn is_lowest_connected(m: Map<usize, Socket>, k: usize, lp: u16, ra: Ipv4Addr, rp: u16) -> bool {
    &&& m.contains_key(k)
    &&& crate::net::socket::connected_to(m[k], lp, ra, rp)
    &&& forall|j: usize|
        #![trigger m[j]]
        m.contains_key(j) && j < k ==> !crate::net::socket::connected_to(m[j], lp, ra, rp)
}

/// The lowest-numbered TCP socket on `lp` connected to `ra`:`rp`, if any.
pub open spec fn lowest_connected(m: Map<usize, Socket>, lp: u16, ra: Ipv4Addr, rp: u16) -> Option<usize> {
    if exists|k: usize| is_lowest_connected(m, k, lp, ra, rp) {
        Some(choose|k: usize| is_lowest_connected(m, k, lp, ra, rp))
    } else {
        None
    }
}

proof fn lemma_lowest_connected(m: Map<usize, Socket>, k: usize, lp: u16, ra: Ipv4Addr, rp: u16)
    requires
        is_lowest_connected(m, k, lp, ra, rp),
    ensures
        lowest_connected(m, lp, ra, rp) == Some(k),
{
    let c = choose|c: usize| is_lowest_connected(m, c, lp, ra, rp);
    if c < k {
        assert(m.contains_key(c));
    } else if k < c {
        assert(m.contains_key(k));
    }
}

/// The socket that a segment for local port `lp` from `ra`:`rp` goes to:
/// the connection with that peer, else the socket bound to `lp`.
pub open spec fn tcp_target(m: Map<usize, Socket>, tcp: Map<u16, usize>, lp: u16, ra: Ipv4Addr, rp: u16) -> Option<usize> {
    match lowest_connected(m, lp, ra, rp) {
        Some(k) => Some(k),
        None => if tcp.contains_key(lp) {
            Some(tcp[lp])
        } else {
            None
        },
    }
}

/// The network state of this host: its addresses, the addresses it has
/// learned (with when each was learned or last asked for, in milliseconds)
/// and its sockets.
#[derive(Debug)]
pub struct NetworkManager {
    pub my_ipv4_addr: Ipv4Addr,
    pub my_mac_addr: Option<EthernetAddress>,
    pub arp_table: BTreeMap<u32, (Option<EthernetAddress>, u64)>,
    pub socket_table: SocketTable,
}

impl NetworkManager {
    pub open spec fn wf(&self) -> bool {
        self.socket_table.wf()
    }

    pub fn new(ipv4_addr: Ipv4Addr) -> (res: Self)
        ensures
            res.wf(),
            res.my_ipv4_addr == ipv4_addr,
            res.my_mac_addr is None,
            res.arp_table@ == Map::<u32, (Option<EthernetAddress>, u64)>::empty(),
            res.socket_table.table@ == Map::<usize, Socket>::empty(),
            res.socket_table.tcp_port_socket_id_map@ == Map::<u16, usize>::empty(),
            res.socket_table.udp_port_socket_id_map@ == Map::<u16, usize>::empty(),
            res.socket_table.next_id == SocketId::FIRST,
    {
        NetworkManager {
            my_ipv4_addr: ipv4_addr,
            my_mac_addr: None,
            arp_table: BTreeMap::new(),
            socket_table: SocketTable::new(),
        }
    }

    pub fn set_my_mac_addr(&mut self, mac_addr: EthernetAddress)
        ensures
            final(self).my_mac_addr == Some(mac_addr),
            final(self).my_ipv4_addr == old(self).my_ipv4_addr,
            final(self).arp_table@ == old(self).arp_table@,
            final(self).socket_table == old(self).socket_table,
    {
        self.my_mac_addr = Some(mac_addr);
    }

    pub fn my_mac_addr(&self) -> (res: Result<EthernetAddress, Error>)
        ensures
            self.my_mac_addr matches Some(m) ==> res == Ok::<EthernetAddress, Error>(m),
            self.my_mac_addr is None ==> res == Err::<EthernetAddress, Error>(Error::Failed("MAC address is not set")),
    {
        match self.my_mac_addr {
            Some(m) => Ok(m),
            None => Err(Error::Failed("MAC address is not set")),
        }
    }

    pub fn my_ipv4_addr(&self) -> (res: Ipv4Addr)
        ensures
            res == self.my_ipv4_addr,
    {
        self.my_ipv4_addr
    }

    /// Opens an unbound socket: TCP for streams, UDP for datagrams.
    pub fn create_new_socket(&mut self, type_: SocketType) -> (res: Result<SocketId, Error>)
        requires
            old(self).wf(),
            old(self).socket_table.next_id < usize::MAX,
        ensures
            final(self).wf(),
            final(self).my_ipv4_addr == old(self).my_ipv4_addr,
            final(self).my_mac_addr == old(self).my_mac_addr,
            final(self).arp_table@ == old(self).arp_table@,
            final(self).socket_table.tcp_port_socket_id_map@ == old(self).socket_table.tcp_port_socket_id_map@,
            final(self).socket_table.udp_port_socket_id_map@ == old(self).socket_table.udp_port_socket_id_map@,
            ({
                let id = old(self).socket_table.next_id;
                let s = final(self).socket_table.table@[id];
                &&& res == Ok::<SocketId, Error>(SocketId(id))
                &&& !old(self).socket_table.table@.contains_key(id)
                &&& final(self).socket_table.next_id == id + 1
                &&& final(self).socket_table.table@ == old(self).socket_table.table@.insert(id, s)
                &&& s.port == 0 && s.addr is None && s.type_ == type_
                &&& match s.inner {
                    SocketInner::Tcp(t) => type_ == SocketType::Stream && crate::net::tcp::tcp_socket_is_new(t),
                    SocketInner::Udp(u) => type_ == SocketType::Dgram && u.buf@ == Seq::<u8>::empty(),
                }
            }),
    {
        let protocol = match type_ {
            SocketType::Stream => Protocol::Tcp,
            SocketType::Dgram => Protocol::Udp,
        };
        self.socket_table.insert_new_socket(type_, protocol)
    }

    /// Everything but the socket table's sockets is as in `old`.
    pub open spec fn same_but_sockets(&self, old: &NetworkManager) -> bool {
        &&& self.my_ipv4_addr == old.my_ipv4_addr
        &&& self.my_mac_addr == old.my_mac_addr
        &&& self.arp_table@ == old.arp_table@
        &&& self.socket_table.tcp_port_socket_id_map@ == old.socket_table.tcp_port_socket_id_map@
        &&& self.socket_table.udp_port_socket_id_map@ == old.socket_table.udp_port_socket_id_map@
        &&& self.socket_table.next_id == old.socket_table.next_id
    }

    /// Nothing changed.
    pub open spec fn unchanged(&self, old: &NetworkManager) -> bool {
        self.same_but_sockets(old) && self.socket_table.table@ == old.socket_table.table@
    }

    /// Binds a socket, not yet bound, to the given port (or an ephemeral
    /// one) and records the address it is bound to.
    pub fn bind_socket_v4(&mut self, socket_id: SocketId, bound_addr: Option<Ipv4Addr>, port: Option<u16>) -> (res:
        Result<(), Error>)
        requires
            old(self).wf(),
        ensures
            final(self).wf(),
            final(self).my_ipv4_addr == old(self).my_ipv4_addr,
            final(self).my_mac_addr == old(self).my_mac_addr,
            final(self).arp_table@ == old(self).arp_table@,
            final(self).socket_table.next_id == old(self).socket_table.next_id,
            !old(self).socket_table.table@.contains_key(socket_id.0) ==> res == Err::<(), Error>(
                Error::Failed("Invalid socket ID"),
            ) && final(self).unchanged(old(self)),
            old(self).socket_table.table@.contains_key(socket_id.0) && old(self).socket_table.table@[socket_id.0].port
                != 0 ==> res == Err::<(), Error>(Error::Failed("Socket already bound")) && final(self).unchanged(old(self)),
            old(self).socket_table.table@.contains_key(socket_id.0) && old(self).socket_table.table@[socket_id.0].port
                == 0 ==> ({
                let tcp = old(self).socket_table.tcp_port_socket_id_map@;
                let udp = old(self).socket_table.udp_port_socket_id_map@;
                let s = old(self).socket_table.table@[socket_id.0];
                let wanted = match port {
                    Some(p) => p,
                    None => 0u16,
                };
                let chosen = if wanted == 0 {
                    crate::net::socket::free_ephemeral_port(tcp, udp, 49152)
                } else {
                    Some(wanted)
                };
                let err = if wanted == 0 {
                    if chosen is None {
                        Some(Error::Failed("All ephemeral ports are already in use"))
                    } else {
                        None
                    }
                } else if tcp.contains_key(wanted) {
                    Some(Error::Failed("Port is already in use (TCP)"))
                } else if udp.contains_key(wanted) {
                    Some(Error::Failed("Port is already in use (UDP)"))
                } else {
                    None
                };
                match err {
                    Some(e) => res == Err::<(), Error>(e) && final(self).unchanged(old(self)),
                    None => {
                        let p = chosen.unwrap();
                        &&& res is Ok
                        &&& final(self).socket_table.table@ == old(self).socket_table.table@.insert(
                            socket_id.0,
                            Socket { port: p, addr: bound_addr, ..s },
                        )
                        &&& final(self).socket_table.tcp_port_socket_id_map@ == if s.type_ == SocketType::Stream {
                            tcp.insert(p, socket_id.0)
                        } else {
                            tcp
                        }
                        &&& final(self).socket_table.udp_port_socket_id_map@ == if s.type_ == SocketType::Dgram {
                            udp.insert(p, socket_id.0)
                        } else {
                            udp
                        }
                    },
                }
            }),
    {
        match self.socket_table.socket_by_id(socket_id) {
            Ok(socket) => {
                if socket.port() != 0 {
                    return Err(Error::Failed("Socket already bound"));
                }
            },
            Err(e) => return Err(e),
        }
        match self.socket_table.bind_port(socket_id, port) {
            Ok(()) => {},
            Err(e) => return Err(e),
        }
        let mut socket = match self.socket_table.table.remove(&socket_id.0) {
            Some(s) => s,
            None => {
                proof {
                    assert(false);
                }
                return Err(Error::Failed("Invalid socket ID"));
            },
        };
        socket.addr = bound_addr;
        self.socket_table.table.insert(socket_id.0, socket);
        Ok(())
    }

    /// Reads what a UDP socket has received into `buf`; returns how many
    /// bytes were read.
    pub fn recvfrom_udp_v4(&mut self, socket_id: SocketId, buf: &mut [u8]) -> (res: Result<usize, Error>)
        requires
            old(self).wf(),
        ensures
            final(self).wf(),
            final(self).same_but_sockets(old(self)),
            !old(self).socket_table.table@.contains_key(socket_id.0) ==> res == Err::<usize, Error>(
                Error::Failed("Invalid socket ID"),
            ) && final(self).unchanged(old(self)) && final(buf)@ == old(buf)@,
            old(self).socket_table.table@.contains_key(socket_id.0) && udp_of(old(self).socket_table.table@[socket_id.0])
                is None ==> res == Err::<usize, Error>(Error::Failed("Invalid socket type"))
                && final(self).unchanged(old(self)) && final(buf)@ == old(buf)@,
            old(self).socket_table.table@.contains_key(socket_id.0) ==> (udp_of(old(self).socket_table.table@[socket_id.0])
                matches Some(u) ==> ({
                let s = old(self).socket_table.table@[socket_id.0];
                let n = if old(buf)@.len() < u.buf@.len() {
                    old(buf)@.len()
                } else {
                    u.buf@.len()
                };
                let s2 = final(self).socket_table.table@[socket_id.0];
                &&& res == Ok::<usize, Error>(n as usize)
                &&& final(buf)@ == u.buf@.take(n as int) + old(buf)@.skip(n as int)
                &&& final(self).socket_table.table@ == old(self).socket_table.table@.insert(socket_id.0, s2)
                &&& s2.port == s.port && s2.addr == s.addr && s2.type_ == s.type_
                &&& udp_of(s2) matches Some(u2) && u2.buf@ == u.buf@.skip(n as int)
            })),
    {
        proof {
            lemma_remove_insert(self.socket_table.table@, socket_id.0);
        }
        let mut socket = match self.socket_table.table.remove(&socket_id.0) {
            Some(s) => s,
            None => return Err(Error::Failed("Invalid socket ID")),
        };
        if socket.type_ != SocketType::Dgram {
            self.socket_table.table.insert(socket_id.0, socket);
            return Err(Error::Failed("Invalid socket type"));
        }
        let read_len = match &mut socket.inner {
            SocketInner::Udp(udp_socket) => udp_socket.read_buf(buf),
            _ => {
                self.socket_table.table.insert(socket_id.0, socket);
                return Err(Error::Failed("Invalid socket type"));
            },
        };
        self.socket_table.table.insert(socket_id.0, socket);
        Ok(read_len)
    }

    /// Starts listening on a bound TCP socket.
    pub fn listen_tcp_v4(&mut self, socket_id: SocketId) -> (res: Result<(), Error>)
        requires
            old(self).wf(),
        ensures
            final(self).wf(),
            final(self).same_but_sockets(old(self)),
            ({
                let m = old(self).socket_table.table@;
                let id = socket_id.0;
                if !m.contains_key(id) {
                    res == Err::<(), Error>(Error::Failed("Invalid socket ID")) && final(self).unchanged(old(self))
                } else if m[id].port == 0 {
                    res == Err::<(), Error>(Error::Failed("Socket must be bound before listen")) && final(self).unchanged(old(self))
                } else {
                    match tcp_of(m[id]) {
                        None => res == Err::<(), Error>(Error::Failed("Invalid socket type")) && final(self).unchanged(old(self)),
                        Some(t) => if t.state != TcpSocketState::Closed {
                            res == Err::<(), Error>(Error::Failed("Invalid state")) && final(self).unchanged(old(self))
                        } else {
                            let s2 = final(self).socket_table.table@[id];
                            &&& res is Ok
                            &&& final(self).socket_table.table@ == m.insert(id, s2)
                            &&& s2.port == m[id].port && s2.addr == m[id].addr && s2.type_ == m[id].type_
                            &&& tcp_of(s2) matches Some(t2) && listening(t, t2, m[id].port)
                        },
                    }
                }
            }),
    {
        proof {
            lemma_remove_insert(self.socket_table.table@, socket_id.0);
        }
        let mut socket = match self.socket_table.table.remove(&socket_id.0) {
            Some(s) => s,
            None => return Err(Error::Failed("Invalid socket ID")),
        };
        let port = socket.port();
        if port == 0 {
            self.socket_table.table.insert(socket_id.0, socket);
            return Err(Error::Failed("Socket must be bound before listen"));
        }
        if socket.type_ != SocketType::Stream {
            self.socket_table.table.insert(socket_id.0, socket);
            return Err(Error::Failed("Invalid socket type"));
        }
        let r = match &mut socket.inner {
            SocketInner::Tcp(tcp_socket) => tcp_socket.start_passive(port),
            _ => Err(Error::Failed("Invalid socket type")),
        };
        self.socket_table.table.insert(socket_id.0, socket);
        r
    }

    /// The first established connection on a listening socket's port.
    pub fn accept_tcp_v4(&self, socket_id: SocketId) -> (res: Result<SocketId, Error>)
        ensures
            ({
                let m = self.socket_table.table@;
                let id = socket_id.0;
                if !m.contains_key(id) {
                    res == Err::<SocketId, Error>(Error::Failed("Invalid socket ID"))
                } else {
                    match tcp_of(m[id]) {
                        None => res == Err::<SocketId, Error>(Error::Failed("Invalid socket type")),
                        Some(t) => if t.state != TcpSocketState::Listen {
                            res == Err::<SocketId, Error>(Error::Failed("Socket is not listening"))
                        } else {
                            match res {
                                Ok(c) => m.contains_key(c.0) && crate::net::socket::established_on(m[c.0], m[id].port)
                                    && forall|k: usize|
                                    #![trigger m[k]]
                                    m.contains_key(k) && k < c.0 ==> !crate::net::socket::established_on(m[k], m[id].port),
                                Err(e) => e == Error::Failed("No incoming connection") && forall|k: usize|
                                    #![trigger m[k]]
                                    m.contains_key(k) ==> !crate::net::socket::established_on(m[k], m[id].port),
                            }
                        },
                    }
                }
            }),
    {
        let socket = match self.socket_table.socket_by_id(socket_id) {
            Ok(s) => s,
            Err(e) => return Err(e),
        };
        if socket.type_ != SocketType::Stream {
            return Err(Error::Failed("Invalid socket type"));
        }
        match &socket.inner {
            SocketInner::Tcp(tcp_socket) => {
                if tcp_socket.state() != TcpSocketState::Listen {
                    return Err(Error::Failed("Socket is not listening"));
                }
            },
            _ => return Err(Error::Failed("Invalid socket type")),
        }
        let server_port = socket.port();
        match self.socket_table.find_tcp_established_socket(server_port) {
            Some(client_socket_id) => Ok(client_socket_id),
            None => Err(Error::Failed("No incoming connection")),
        }
    }

    /// Whether a TCP socket's connection is established.
    pub fn is_tcp_established(&self, socket_id: SocketId) -> (res: Result<bool, Error>)
        ensures
            ({
                let m = self.socket_table.table@;
                let id = socket_id.0;
                if !m.contains_key(id) {
                    res == Err::<bool, Error>(Error::Failed("Invalid socket ID"))
                } else {
                    match tcp_of(m[id]) {
                        None => res == Err::<bool, Error>(Error::Failed("Invalid socket type")),
                        Some(t) => res == Ok::<bool, Error>(t.state == TcpSocketState::Established),
                    }
                }
            }),
    {
        let socket = match self.socket_table.socket_by_id(socket_id) {
            Ok(s) => s,
            Err(e) => return Err(e),
        };
        if socket.type_ != SocketType::Stream {
            return Err(Error::Failed("Invalid socket type"));
        }
        match &socket.inner {
            SocketInner::Tcp(tcp_socket) => Ok(tcp_socket.state() == TcpSocketState::Established),
            _ => Err(Error::Failed("Invalid socket type")),
        }
    }

    /// Starts connecting a TCP socket to the given peer, binding it to an
    /// ephemeral port first if it is unbound (that binding stays even if the
    /// socket then cannot connect).
    pub fn connect_tcp_v4(&mut self, socket_id: SocketId, dst_addr: Ipv4Addr, dst_port: u16) -> (res: Result<(), Error>)
        requires
            old(self).wf(),
        ensures
            final(self).wf(),
            final(self).my_ipv4_addr == old(self).my_ipv4_addr,
            final(self).my_mac_addr == old(self).my_mac_addr,
            final(self).arp_table@ == old(self).arp_table@,
            final(self).socket_table.next_id == old(self).socket_table.next_id,
            ({
                let m = old(self).socket_table.table@;
                let tcp = old(self).socket_table.tcp_port_socket_id_map@;
                let udp = old(self).socket_table.udp_port_socket_id_map@;
                let id = socket_id.0;
                if !m.contains_key(id) {
                    res == Err::<(), Error>(Error::Failed("Invalid socket ID")) && final(self).unchanged(old(self))
                } else {
                    let s = m[id];
                    let chosen = if s.port == 0 {
                        crate::net::socket::free_ephemeral_port(tcp, udp, 49152)
                    } else {
                        Some(s.port)
                    };
                    match chosen {
                        None => res == Err::<(), Error>(Error::Failed("All ephemeral ports are already in use"))
                            && final(self).unchanged(old(self)),
                        Some(p) => {
                            let bound = Socket { port: p, ..s };
                            &&& final(self).socket_table.tcp_port_socket_id_map@ == if s.port == 0 && s.type_
                                == SocketType::Stream {
                                tcp.insert(p, id)
                            } else {
                                tcp
                            }
                            &&& final(self).socket_table.udp_port_socket_id_map@ == if s.port == 0 && s.type_
                                == SocketType::Dgram {
                                udp.insert(p, id)
                            } else {
                                udp
                            }
                            &&& match tcp_of(s) {
                                None => res == Err::<(), Error>(Error::Failed("Invalid socket type"))
                                    && final(self).socket_table.table@ == m.insert(id, bound),
                                Some(t) => if t.state != TcpSocketState::Closed {
                                    res == Err::<(), Error>(Error::Failed("Invalid state")) && final(self).socket_table.table@
                                        == m.insert(id, bound)
                                } else {
                                    let s2 = final(self).socket_table.table@[id];
                                    &&& res is Ok
                                    &&& final(self).socket_table.table@ == m.insert(id, s2)
                                    &&& s2.port == p && s2.addr == s.addr && s2.type_ == s.type_
                                    &&& tcp_of(s2) matches Some(t2) && connecting(t, t2, dst_addr, dst_port)
                                },
                            }
                        },
                    }
                }
            }),
    {
        let port = match self.socket_table.socket_by_id(socket_id) {
            Ok(socket) => socket.port(),
            Err(e) => return Err(e),
        };
        if port == 0 {
            match self.socket_table.bind_port(socket_id, None) {
                Ok(()) => {},
                Err(e) => return Err(e),
            }
        }
        proof {
            lemma_remove_insert(self.socket_table.table@, socket_id.0);
        }
        let mut socket = match self.socket_table.table.remove(&socket_id.0) {
            Some(s) => s,
            None => return Err(Error::Failed("Invalid socket ID")),
        };
        if socket.type_ != SocketType::Stream {
            self.socket_table.table.insert(socket_id.0, socket);
            return Err(Error::Failed("Invalid socket type"));
        }
        let r = match &mut socket.inner {
            SocketInner::Tcp(tcp_socket) => tcp_socket.start_active(dst_addr, dst_port),
            _ => Err(Error::Failed("Invalid socket type")),
        };
        self.socket_table.table.insert(socket_id.0, socket);
        r
    }

    /// Takes what a TCP socket has received and copies as much of it as
    /// fits into `buf`; the rest of it is dropped.
    pub fn recv_tcp_data(&mut self, socket_id: SocketId, buf: &mut [u8]) -> (res: Result<usize, Error>)
        requires
            old(self).wf(),
        ensures
            final(self).wf(),
            final(self).same_but_sockets(old(self)),
            ({
                let m = old(self).socket_table.table@;
                let id = socket_id.0;
                if !m.contains_key(id) {
                    res == Err::<usize, Error>(Error::Failed("Invalid socket ID")) && final(self).unchanged(old(self))
                        && final(buf)@ == old(buf)@
                } else {
                    match tcp_of(m[id]) {
                        None => res == Err::<usize, Error>(Error::Failed("Invalid socket type")) && final(self).unchanged(old(self))
                            && final(buf)@ == old(buf)@,
                        Some(t) => if !readable_state(t.state) {
                            res == Err::<usize, Error>(Error::Failed("Socket is not in Established/Closing state"))
                                && final(self).unchanged(old(self)) && final(buf)@ == old(buf)@
                        } else {
                            let n = if old(buf)@.len() < t.buf@.len() {
                                old(buf)@.len()
                            } else {
                                t.buf@.len()
                            };
                            let s2 = final(self).socket_table.table@[id];
                            &&& res == Ok::<usize, Error>(n as usize)
                            &&& final(buf)@ == t.buf@.take(n as int) + old(buf)@.skip(n as int)
                            &&& final(self).socket_table.table@ == m.insert(id, s2)
                            &&& s2.port == m[id].port && s2.addr == m[id].addr && s2.type_ == m[id].type_
                            &&& tcp_of(s2) matches Some(t2) && t2.buf@ == Seq::<u8>::empty() && t2.state == t.state
                                && t2.src_port == t.src_port && t2.dst_ipv4_addr == t.dst_ipv4_addr && t2.dst_port
                                == t.dst_port && t2.seq_num == t.seq_num && t2.next_recv_seq == t.next_recv_seq
                        },
                    }
                }
            }),
    {
        proof {
            lemma_remove_insert(self.socket_table.table@, socket_id.0);
        }
        let mut socket = match self.socket_table.table.remove(&socket_id.0) {
            Some(s) => s,
            None => return Err(Error::Failed("Invalid socket ID")),
        };
        if socket.type_ != SocketType::Stream {
            self.socket_table.table.insert(socket_id.0, socket);
            return Err(Error::Failed("Invalid socket type"));
        }
        let data = match &mut socket.inner {
            SocketInner::Tcp(tcp_socket) => {
                let state = tcp_socket.state();
                if !(state == TcpSocketState::Established || state == TcpSocketState::FinWait1 || state
                    == TcpSocketState::FinWait2 || state == TcpSocketState::CloseWait || state
                    == TcpSocketState::TimeWait || state == TcpSocketState::LastAck || state
                    == TcpSocketState::Closing) {
                    None
                } else {
                    Some(tcp_socket.get_and_reset_buf())
                }
            },
            _ => {
                self.socket_table.table.insert(socket_id.0, socket);
                return Err(Error::Failed("Invalid socket type"));
            },
        };
        self.socket_table.table.insert(socket_id.0, socket);
        let data = match data {
            Some(d) => d,
            None => return Err(Error::Failed("Socket is not in Established/Closing state")),
        };
        let len = if buf.len() < data.len() {
            buf.len()
        } else {
            data.len()
        };
        let mut i: usize = 0;
        while i < len
            invariant
                i <= len,
                len <= buf@.len(),
                len <= data@.len(),
                buf@.len() == old(buf)@.len(),
                buf@ == data@.take(i as int) + old(buf)@.skip(i as int),
            decreases len - i,
        {
            buf[i] = data[i];
            i = i + 1;
            assert(buf@ =~= data@.take(i as int) + old(buf)@.skip(i as int));
        }
        Ok(len)
    }

    /// The SYN that opens a connection from a connecting socket, to be sent
    /// to the peer's address that is returned with it.
    pub fn send_tcp_syn(&self, socket_id: SocketId) -> (res: Result<(TcpPacket, Ipv4Addr), Error>)
        ensures
            ({
                let m = self.socket_table.table@;
                let id = socket_id.0;
                if !m.contains_key(id) {
                    res == Err::<(TcpPacket, Ipv4Addr), Error>(Error::Failed("Invalid socket ID"))
                } else {
                    match tcp_of(m[id]) {
                        None => res == Err::<(TcpPacket, Ipv4Addr), Error>(Error::Failed("Invalid socket type")),
                        Some(t) => if t.state != TcpSocketState::SynSent {
                            res == Err::<(TcpPacket, Ipv4Addr), Error>(Error::Failed("Socket is not in SynSent state"))
                        } else if t.dst_port is None {
                            res == Err::<(TcpPacket, Ipv4Addr), Error>(Error::Failed("No destination port"))
                        } else if t.dst_ipv4_addr is None {
                            res == Err::<(TcpPacket, Ipv4Addr), Error>(Error::Failed("No destination address"))
                        } else {
                            res matches Ok((p, a)) && a == t.dst_ipv4_addr.unwrap() && segment(
                                p,
                                m[id].port,
                                t.dst_port.unwrap(),
                                t.seq_num,
                                0,
                                5,
                                TcpPacket::FLAGS_SYN,
                                Seq::empty(),
                                self.my_ipv4_addr,
                                a,
                            )
                        },
                    }
                }
            }),
    {
        let socket = match self.socket_table.socket_by_id(socket_id) {
            Ok(s) => s,
            Err(e) => return Err(e),
        };
        let src_port = socket.port();
        if socket.type_ != SocketType::Stream {
            return Err(Error::Failed("Invalid socket type"));
        }
        let tcp_socket = match &socket.inner {
            SocketInner::Tcp(t) => t,
            _ => return Err(Error::Failed("Invalid socket type")),
        };
        if tcp_socket.state() != TcpSocketState::SynSent {
            return Err(Error::Failed("Socket is not in SynSent state"));
        }
        let dst_port = match tcp_socket.dst_port() {
            Some(p) => p,
            None => return Err(Error::Failed("No destination port")),
        };
        let dst_addr = match tcp_socket.dst_ipv4_addr() {
            Some(a) => a,
            None => return Err(Error::Failed("No destination address")),
        };
        let mut syn_packet = TcpPacket::new_with(
            src_port,
            dst_port,
            tcp_socket.seq_num(),
            0,
            TcpPacket::FLAGS_SYN,
            0xffff,
            0,
            Vec::new(),
        );
        syn_packet.calc_checksum_with_ipv4(self.my_ipv4_addr, dst_addr);
        Ok((syn_packet, dst_addr))
    }

    /// The segment that carries `data` on an established connection, to be
    /// sent to the peer's address returned with it; the socket's sequence
    /// number moves past the data.
    pub fn send_tcp_data(&mut self, socket_id: SocketId, data: &[u8]) -> (res: Result<(TcpPacket, Ipv4Addr), Error>)
        requires
            old(self).wf(),
            data@.len() <= 0xffe0_0000,
        ensures
            final(self).wf(),
            final(self).same_but_sockets(old(self)),
            ({
                let m = old(self).socket_table.table@;
                let id = socket_id.0;
                if !m.contains_key(id) {
                    res == Err::<(TcpPacket, Ipv4Addr), Error>(Error::Failed("Invalid socket ID"))
                        && final(self).unchanged(old(self))
                } else {
                    match tcp_of(m[id]) {
                        None => res == Err::<(TcpPacket, Ipv4Addr), Error>(Error::Failed("Invalid socket type"))
                            && final(self).unchanged(old(self)),
                        Some(t) => if t.state != TcpSocketState::Established {
                            res == Err::<(TcpPacket, Ipv4Addr), Error>(Error::Failed("Socket is not in Established state"))
                                && final(self).unchanged(old(self))
                        } else if t.dst_port is None {
                            res == Err::<(TcpPacket, Ipv4Addr), Error>(Error::Failed("No destination port"))
                                && final(self).unchanged(old(self))
                        } else if t.dst_ipv4_addr is None {
                            res == Err::<(TcpPacket, Ipv4Addr), Error>(Error::Failed("No destination address"))
                                && final(self).unchanged(old(self))
                        } else {
                            let s2 = final(self).socket_table.table@[id];
                            &&& res matches Ok((p, a)) && a == t.dst_ipv4_addr.unwrap() && segment(
                                p,
                                m[id].port,
                                t.dst_port.unwrap(),
                                t.seq_num,
                                t.next_recv_seq,
                                5,
                                (TcpPacket::FLAGS_ACK + TcpPacket::FLAGS_PSH) as u16,
                                data@,
                                old(self).my_ipv4_addr,
                                a,
                            )
                            &&& final(self).socket_table.table@ == m.insert(id, s2)
                            &&& s2.port == m[id].port && s2.addr == m[id].addr && s2.type_ == m[id].type_
                            &&& tcp_of(s2) matches Some(t2) && t2.seq_num == (t.seq_num + data@.len())
                                % 0x1_0000_0000 && t2.state == t.state && t2.src_port == t.src_port
                                && t2.dst_ipv4_addr == t.dst_ipv4_addr && t2.dst_port == t.dst_port
                                && t2.next_recv_seq == t.next_recv_seq && t2.buf@ == t.buf@
                        },
                    }
                }
            }),
    {
        proof {
            lemma_remove_insert(self.socket_table.table@, socket_id.0);
        }
        let mut socket = match self.socket_table.table.remove(&socket_id.0) {
            Some(s) => s,
            None => return Err(Error::Failed("Invalid socket ID")),
        };
        let src_port = socket.port();
        if socket.type_ != SocketType::Stream {
            self.socket_table.table.insert(socket_id.0, socket);
            return Err(Error::Failed("Invalid socket type"));
        }
        let r = match &mut socket.inner {
            SocketInner::Tcp(tcp_socket) => {
                if tcp_socket.state() != TcpSocketState::Established {
                    Err(Error::Failed("Socket is not in Established state"))
                } else {
                    match (tcp_socket.dst_port(), tcp_socket.dst_ipv4_addr()) {
                        (None, _) => Err(Error::Failed("No destination port")),
                        (Some(_), None) => Err(Error::Failed("No destination address")),
                        (Some(dst_port), Some(dst_addr)) => {
                            let packet = data_segment(
                                src_port,
                                dst_port,
                                tcp_socket.seq_num(),
                                tcp_socket.next_recv_seq(),
                                data,
                                self.my_ipv4_addr,
                                dst_addr,
                            );
                            if data.len() > 0 {
                                tcp_socket.seq_num = tcp_socket.seq_num.wrapping_add(
                                    (data.len() as u64 % 0x1_0000_0000) as u32,
                                );
                            }
                            Ok((packet, dst_addr))
                        },
                    }
                }
            },
            _ => Err(Error::Failed("Invalid socket type")),
        };
        self.socket_table.table.insert(socket_id.0, socket);
        r
    }

    /// `res` is the FIN that ends the connection of `socket_id`, with the
    /// peer's address, when it is an established TCP socket whose peer is
    /// known, and nothing otherwise.
    pub open spec fn fin_segment_of(&self, socket_id: SocketId, res: Option<(TcpPacket, Ipv4Addr)>) -> bool {
        let m = self.socket_table.table@;
        let id = socket_id.0;
        match if m.contains_key(id) { tcp_of(m[id]) } else { None } {
            Some(t) => if t.state == TcpSocketState::Established && t.dst_port is Some && t.dst_ipv4_addr is Some {
                res matches Some((p, a)) && a == t.dst_ipv4_addr.unwrap() && segment(
                    p,
                    m[id].port,
                    t.dst_port.unwrap(),
                    t.seq_num,
                    t.next_recv_seq,
                    5,
                    (TcpPacket::FLAGS_ACK + TcpPacket::FLAGS_FIN) as u16,
                    Seq::empty(),
                    self.my_ipv4_addr,
                    a,
                )
            } else {
                res is None
            },
            None => res is None,
        }
    }

    /// The FIN that ends an established connection, with the peer's
    /// address, if the socket is an established TCP socket whose peer is
    /// known.
    pub fn tcp_fin_segment(&self, socket_id: SocketId) -> (res: Option<(TcpPacket, Ipv4Addr)>)
        ensures
            self.fin_segment_of(socket_id, res),
    {
        let socket = match self.socket_table.socket_by_id(socket_id) {
            Ok(s) => s,
            Err(_) => return None,
        };
        if socket.type_ != SocketType::Stream {
            return None;
        }
        let tcp_socket = match &socket.inner {
            SocketInner::Tcp(t) => t,
            _ => return None,
        };
        if tcp_socket.state() != TcpSocketState::Established {
            return None;
        }
        let (dst_port, dst_addr) = match (tcp_socket.dst_port(), tcp_socket.dst_ipv4_addr()) {
            (Some(p), Some(a)) => (p, a),
            _ => return None,
        };
        let mut packet = TcpPacket::new_with(
            socket.port(),
            dst_port,
            tcp_socket.seq_num(),
            tcp_socket.next_recv_seq(),
            TcpPacket::FLAGS_ACK | TcpPacket::FLAGS_FIN,
            0xffff,
            0,
            Vec::new(),
        );
        assert(0x10u16 | 0x01u16 == 0x11) by (bit_vector);
        packet.calc_checksum_with_ipv4(self.my_ipv4_addr, dst_addr);
        Some((packet, dst_addr))
    }

    /// Closes a socket: an established TCP connection is ended with a FIN,
    /// returned to be sent, and the socket is forgotten.
    pub fn close_socket(&mut self, socket_id: SocketId) -> (res: Result<Option<(TcpPacket, Ipv4Addr)>, Error>)
        requires
            old(self).wf(),
        ensures
            final(self).wf(),
            final(self).my_ipv4_addr == old(self).my_ipv4_addr,
            final(self).my_mac_addr == old(self).my_mac_addr,
            final(self).arp_table@ == old(self).arp_table@,
            final(self).socket_table.next_id == old(self).socket_table.next_id,
            ({
                let m = old(self).socket_table.table@;
                let id = socket_id.0;
                if !m.contains_key(id) {
                    res == Err::<Option<(TcpPacket, Ipv4Addr)>, Error>(Error::Failed("Invalid socket ID"))
                        && final(self).unchanged(old(self))
                } else {
                    let s = m[id];
                    &&& res matches Ok(fin) && old(self).fin_segment_of(socket_id, fin)
                    &&& final(self).socket_table.table@ == m.remove(id)
                    &&& final(self).socket_table.tcp_port_socket_id_map@ == if s.port != 0 && s.type_
                        == SocketType::Stream {
                        old(self).socket_table.tcp_port_socket_id_map@.remove(s.port)
                    } else {
                        old(self).socket_table.tcp_port_socket_id_map@
                    }
                    &&& final(self).socket_table.udp_port_socket_id_map@ == if s.port != 0 && s.type_
                        == SocketType::Dgram {
                        old(self).socket_table.udp_port_socket_id_map@.remove(s.port)
                    } else {
                        old(self).socket_table.udp_port_socket_id_map@
                    }
                }
            }),
    {
        let fin = self.tcp_fin_segment(socket_id);
        match self.socket_table.remove_socket(socket_id) {
            Ok(()) => Ok(fin),
            Err(e) => Err(e),
        }
    }

    /// Answers an echo request with an echo reply carrying the same
    /// identifier, sequence number and data; other messages get no answer.
    pub fn receive_icmp_packet(&self, packet: IcmpPacket) -> (res: Result<Option<IcmpPacket>, Error>)
        ensures
            packet.ty != IcmpType::EchoRequest ==> res matches Ok(None),
            packet.ty == IcmpType::EchoRequest ==> (res matches Ok(Some(r)) && r.ty == IcmpType::EchoReply
                && r.code == packet.code && r.id == packet.id && r.seq == packet.seq && r.data@ == packet.data@
                && r.checksum == checksum_of(
                words_sum(icmp_bytes_with_checksum(IcmpPacket { ty: IcmpType::EchoReply, ..packet }, 0))
                    % 0x1_0000_0000,
            )),
    {
        if packet.ty == IcmpType::EchoRequest {
            let mut reply_packet = packet;
            reply_packet.ty = IcmpType::EchoReply;
            proof {
                assert(icmp_bytes_with_checksum(reply_packet, 0) =~= icmp_bytes_with_checksum(
                    IcmpPacket { ty: IcmpType::EchoReply, ..packet },
                    0,
                ));
            }
            reply_packet.calc_checksum();
            return Ok(Some(reply_packet));
        }
        Ok(None)
    }

    /// Learns the sender's addresses from an ARP message (stamped with
    /// `now`, in milliseconds) and answers a request for this host's
    /// address.
    pub fn receive_arp_packet(&mut self, packet: ArpPacket, now: u64) -> (res: Result<Option<ArpPacket>, Error>)
        ensures
            final(self).my_ipv4_addr == old(self).my_ipv4_addr,
            final(self).my_mac_addr == old(self).my_mac_addr,
            final(self).socket_table == old(self).socket_table,
            packet.op@ != seq![0u8, 1u8] && packet.op@ != seq![0u8, 2u8] ==> res == Err::<Option<ArpPacket>, Error>(
                Error::Failed("Invalid ARP operation"),
            ) && final(self).arp_table@ == old(self).arp_table@,
            packet.op@ == seq![0u8, 1u8] || packet.op@ == seq![0u8, 2u8] ==> final(self).arp_table@ == old(
                self,
            ).arp_table@.insert(arp_key(packet.sender_ipv4_addr), (Some(packet.sender_eth_addr), now)),
            packet.op@ == seq![0u8, 2u8] ==> res matches Ok(None),
            packet.op@ == seq![0u8, 1u8] && packet.target_ipv4_addr.octets@ != old(self).my_ipv4_addr.octets@
                ==> res matches Ok(None),
            packet.op@ == seq![0u8, 1u8] && packet.target_ipv4_addr.octets@ == old(self).my_ipv4_addr.octets@
                ==> match old(self).my_mac_addr {
                None => res == Err::<Option<ArpPacket>, Error>(Error::Failed("MAC address is not set")),
                Some(mac) => res matches Ok(Some(r)) && r.op@ == seq![0u8, 2u8] && r.hardware_ty@ == seq![0u8, 1u8]
                    && r.protocol_ty == crate::net::eth::EtherType::Ipv4 && r.hardware_len == 6 && r.protocol_len == 4
                    && r.sender_eth_addr == mac && r.sender_ipv4_addr == old(self).my_ipv4_addr
                    && r.target_eth_addr == packet.sender_eth_addr && r.target_ipv4_addr == packet.sender_ipv4_addr,
            },
    {
        let arp_op = match packet.op() {
            Ok(op) => op,
            Err(e) => return Err(e),
        };
        let sender_ipv4_addr = packet.sender_ipv4_addr;
        let sender_mac_addr = packet.sender_eth_addr;
        let target_ipv4_addr = packet.target_ipv4_addr;
        let key = arp_key_of(&sender_ipv4_addr);
        self.arp_table.insert(key, (Some(sender_mac_addr), now));
        if arp_op == ArpOperation::Request {
            if !target_ipv4_addr.is_same(&self.my_ipv4_addr) {
                return Ok(None);
            }
            let my_mac = match self.my_mac_addr() {
                Ok(m) => m,
                Err(e) => return Err(e),
            };
            let reply_packet = ArpPacket::new_with(
                ArpOperation::Reply,
                my_mac,
                self.my_ipv4_addr,
                sender_mac_addr,
                sender_ipv4_addr,
            );
            return Ok(Some(reply_packet));
        }
        Ok(None)
    }

    /// Looks up the hardware address of a neighbour at time `now` (in
    /// milliseconds): known addresses are returned; an unknown one is asked
    /// for by a broadcast request, at most once a second, and the time of
    /// asking is recorded.
    pub fn resolve_mac_addr(&mut self, ipv4_addr: Ipv4Addr, now: u64) -> (res: Result<ArpLookup, Error>)
        ensures
            final(self).my_ipv4_addr == old(self).my_ipv4_addr,
            final(self).my_mac_addr == old(self).my_mac_addr,
            final(self).socket_table == old(self).socket_table,
            ({
                let t = old(self).arp_table@;
                let k = arp_key(ipv4_addr);
                let asks = !t.contains_key(k) || (t[k].0 is None && now as int >= t[k].1 + 1000);
                &&& (t.contains_key(k) && t[k].0 is Some) ==> (res matches Ok(ArpLookup::Resolved(m)) && m == t[k].0.unwrap()
                    && final(self).arp_table@ == t)
                &&& (t.contains_key(k) && t[k].0 is None && (now as int) < t[k].1 + 1000) ==> (res matches Ok(ArpLookup::Pending)
                    && final(self).arp_table@ == t)
                &&& asks ==> final(self).arp_table@ == t.insert(k, (None, now)) && match old(self).my_mac_addr {
                    None => res == Err::<ArpLookup, Error>(Error::Failed("MAC address is not set")),
                    Some(mac) => res matches Ok(ArpLookup::Request(r)) && r.op@ == seq![0u8, 1u8] && r.hardware_ty@ == seq![0u8, 1u8]
                        && r.protocol_ty == crate::net::eth::EtherType::Ipv4 && r.hardware_len == 6 && r.protocol_len == 4
                        && r.sender_eth_addr == mac && r.sender_ipv4_addr == old(self).my_ipv4_addr
                        && r.target_eth_addr.0@ == seq![0xffu8, 0xff, 0xff, 0xff, 0xff, 0xff]
                        && r.target_ipv4_addr == ipv4_addr,
                }
            }),
    {
        let key = arp_key_of(&ipv4_addr);
        match self.arp_table.get(&key) {
            Some(entry) => {
                match entry.0 {
                    Some(mac) => return Ok(ArpLookup::Resolved(mac)),
                    None => {
                        let last_req = entry.1;
                        if now < last_req || now - last_req < 1000 {
                            return Ok(ArpLookup::Pending);
                        }
                    },
                }
            },
            None => {},
        }
        self.arp_table.insert(key, (None, now));
        let my_mac = match self.my_mac_addr() {
            Ok(m) => m,
            Err(e) => return Err(e),
        };
        let eth_addr = EthernetAddress::broadcast();
        let request = ArpPacket::new_with(ArpOperation::Request, my_mac, self.my_ipv4_addr, eth_addr, ipv4_addr);
        Ok(ArpLookup::Request(request))
    }

    /// The number of the UDP socket bound to `port`, opening and binding a
    /// new one when none is.
    fn udp_socket_id_by_port(&mut self, port: u16) -> (res: Result<usize, Error>)
        requires
            old(self).wf(),
            old(self).socket_table.next_id < usize::MAX,
        ensures
            final(self).wf(),
            final(self).my_ipv4_addr == old(self).my_ipv4_addr,
            final(self).my_mac_addr == old(self).my_mac_addr,
            final(self).arp_table@ == old(self).arp_table@,
            final(self).socket_table.tcp_port_socket_id_map@ == old(self).socket_table.tcp_port_socket_id_map@,
            ({
                let tcp = old(self).socket_table.tcp_port_socket_id_map@;
                let udp = old(self).socket_table.udp_port_socket_id_map@;
                let m = old(self).socket_table.table@;
                let id = old(self).socket_table.next_id;
                let chosen = if port == 0 {
                    crate::net::socket::free_ephemeral_port(tcp, udp, 49152)
                } else if tcp.contains_key(port) || udp.contains_key(port) {
                    None
                } else {
                    Some(port)
                };
                let fresh = final(self).socket_table.table@[id];
                if udp.contains_key(port) {
                    res == Ok::<usize, Error>(udp[port]) && final(self).unchanged(old(self))
                } else {
                    &&& !m.contains_key(id)
                    &&& final(self).socket_table.next_id == id + 1
                    &&& fresh.addr is None && fresh.type_ == SocketType::Dgram
                    &&& fresh.inner matches SocketInner::Udp(u) && u.buf@ == Seq::<u8>::empty()
                    &&& match chosen {
                        None => res == Err::<usize, Error>((if port == 0 {
                            Error::Failed("All ephemeral ports are already in use")
                        } else {
                            Error::Failed("Port is already in use (TCP)")
                        })) && fresh.port == 0 && final(self).socket_table.table@ == m.insert(id, fresh)
                            && final(self).socket_table.udp_port_socket_id_map@ == udp,
                        Some(p) => res == Ok::<usize, Error>(id) && fresh.port == p && final(self).socket_table.table@
                            == m.insert(id, fresh) && final(self).socket_table.udp_port_socket_id_map@ == udp.insert(p, id),
                    }
                }
            }),
    {
        match self.socket_table.socket_id_by_port_and_type(port, SocketType::Dgram) {
            Ok(id) => return Ok(id.0),
            Err(_) => {},
        }
        let id = match self.socket_table.insert_new_socket(SocketType::Dgram, Protocol::Udp) {
            Ok(id) => id,
            Err(e) => return Err(e),
        };
        match self.socket_table.bind_port(id, Some(port)) {
            Ok(()) => {},
            Err(e) => return Err(e),
        }
        Ok(id.0)
    }

    /// Delivers a datagram's data to the UDP socket bound to its
    /// destination port, opening and binding one when none is.
    pub fn receive_udp_packet(&mut self, packet: UdpPacket) -> (res: Result<Option<UdpPacket>, Error>)
        requires
            old(self).wf(),
            old(self).socket_table.next_id < usize::MAX,
        ensures
            final(self).wf(),
            final(self).my_ipv4_addr == old(self).my_ipv4_addr,
            final(self).my_mac_addr == old(self).my_mac_addr,
            final(self).arp_table@ == old(self).arp_table@,
            final(self).socket_table.tcp_port_socket_id_map@ == old(self).socket_table.tcp_port_socket_id_map@,
            ({
                let port = packet.dst_port;
                let tcp = old(self).socket_table.tcp_port_socket_id_map@;
                let udp = old(self).socket_table.udp_port_socket_id_map@;
                let m = old(self).socket_table.table@;
                let fresh_id = old(self).socket_table.next_id;
                let chosen = if port == 0 {
                    crate::net::socket::free_ephemeral_port(tcp, udp, 49152)
                } else if tcp.contains_key(port) || udp.contains_key(port) {
                    None
                } else {
                    Some(port)
                };
                if udp.contains_key(port) {
                    let id = udp[port];
                    if !m.contains_key(id) {
                        res == Err::<Option<UdpPacket>, Error>(Error::Failed("Invalid socket ID"))
                            && final(self).unchanged(old(self))
                    } else {
                        match udp_of(m[id]) {
                            None => res == Err::<Option<UdpPacket>, Error>(Error::Failed("Invalid socket type"))
                                && final(self).unchanged(old(self)),
                            Some(u) => {
                                let s2 = final(self).socket_table.table@[id];
                                &&& res matches Ok(None)
                                &&& final(self).same_but_sockets(old(self))
                                &&& final(self).socket_table.table@ == m.insert(id, s2)
                                &&& s2.port == m[id].port && s2.addr == m[id].addr && s2.type_ == m[id].type_
                                &&& udp_of(s2) matches Some(u2) && u2.buf@ == u.buf@ + packet.data@
                            },
                        }
                    }
                } else {
                    let fresh = final(self).socket_table.table@[fresh_id];
                    &&& !m.contains_key(fresh_id)
                    &&& final(self).socket_table.next_id == fresh_id + 1
                    &&& fresh.addr is None && fresh.type_ == SocketType::Dgram
                    &&& final(self).socket_table.table@ == m.insert(fresh_id, fresh)
                    &&& match chosen {
                        None => res == Err::<Option<UdpPacket>, Error>((if port == 0 {
                            Error::Failed("All ephemeral ports are already in use")
                        } else {
                            Error::Failed("Port is already in use (TCP)")
                        })) && fresh.port == 0 && (fresh.inner matches SocketInner::Udp(u) && u.buf@ == Seq::<u8>::empty())
                            && final(self).socket_table.udp_port_socket_id_map@ == udp,
                        Some(p) => res matches Ok(None) && fresh.port == p && (fresh.inner matches SocketInner::Udp(u)
                            && u.buf@ == packet.data@) && final(self).socket_table.udp_port_socket_id_map@ == udp.insert(
                            p,
                            fresh_id,
                        ),
                    }
                }
            }),
    {
        let id = match self.udp_socket_id_by_port(packet.dst_port) {
            Ok(id) => id,
            Err(e) => return Err(e),
        };
        proof {
            lemma_remove_insert(self.socket_table.table@, id);
        }
        let mut socket = match self.socket_table.table.remove(&id) {
            Some(s) => s,
            None => return Err(Error::Failed("Invalid socket ID")),
        };
        if socket.type_ != SocketType::Dgram {
            self.socket_table.table.insert(id, socket);
            return Err(Error::Failed("Invalid socket type"));
        }
        match &mut socket.inner {
            SocketInner::Udp(udp_socket) => udp_socket.receive(packet.data.as_slice()),
            _ => {
                self.socket_table.table.insert(id, socket);
                return Err(Error::Failed("Invalid socket type"));
            },
        }
        self.socket_table.table.insert(id, socket);
        Ok(None)
    }

    /// The number of the TCP socket that a segment for `local_port` from
    /// the given remote end goes to, opening and binding a new socket on
    /// `local_port` when there is none.
    fn tcp_socket_id_by_port(&mut self, local_port: u16, remote_addr: Ipv4Addr, remote_port: u16) -> (res: Result<
        usize,
        Error,
    >)
        requires
            old(self).wf(),
            old(self).socket_table.next_id < usize::MAX,
        ensures
            final(self).wf(),
            final(self).my_ipv4_addr == old(self).my_ipv4_addr,
            final(self).my_mac_addr == old(self).my_mac_addr,
            final(self).arp_table@ == old(self).arp_table@,
            final(self).socket_table.udp_port_socket_id_map@ == old(self).socket_table.udp_port_socket_id_map@,
            ({
                let tcp = old(self).socket_table.tcp_port_socket_id_map@;
                let udp = old(self).socket_table.udp_port_socket_id_map@;
                let m = old(self).socket_table.table@;
                let id = old(self).socket_table.next_id;
                let chosen = if local_port == 0 {
                    crate::net::socket::free_ephemeral_port(tcp, udp, 49152)
                } else if udp.contains_key(local_port) {
                    None
                } else {
                    Some(local_port)
                };
                let fresh = final(self).socket_table.table@[id];
                match tcp_target(m, tcp, local_port, remote_addr, remote_port) {
                    Some(k) => res == Ok::<usize, Error>(k) && final(self).unchanged(old(self)),
                    None => {
                        &&& !m.contains_key(id)
                        &&& final(self).socket_table.next_id == id + 1
                        &&& fresh.addr is None && fresh.type_ == SocketType::Stream
                        &&& fresh.inner matches SocketInner::Tcp(t) && crate::net::tcp::tcp_socket_is_new(t)
                        &&& final(self).socket_table.table@ == m.insert(id, fresh)
                        &&& match chosen {
                            None => res == Err::<usize, Error>((if local_port == 0 {
                                Error::Failed("All ephemeral ports are already in use")
                            } else {
                                Error::Failed("Port is already in use (UDP)")
                            })) && fresh.port == 0 && final(self).socket_table.tcp_port_socket_id_map@ == tcp,
                            Some(p) => res == Ok::<usize, Error>(id) && fresh.port == p
                                && final(self).socket_table.tcp_port_socket_id_map@ == tcp.insert(p, id),
                        }
                    },
                }
            }),
    {
        match self.socket_table.find_tcp_socket_by_port_and_addr(local_port, remote_addr, remote_port) {
            Some(id) => {
                proof {
                    lemma_lowest_connected(self.socket_table.table@, id.0, local_port, remote_addr, remote_port);
                }
                return Ok(id.0);
            },
            None => {},
        }
        proof {
            if lowest_connected(self.socket_table.table@, local_port, remote_addr, remote_port) is Some {
                let k = choose|k: usize| is_lowest_connected(self.socket_table.table@, k, local_port, remote_addr, remote_port);
                assert(self.socket_table.table@.contains_key(k));
            }
        }
        match self.socket_table.socket_id_by_port_and_type(local_port, SocketType::Stream) {
            Ok(id) => return Ok(id.0),
            Err(_) => {},
        }
        let id = match self.socket_table.insert_new_socket(SocketType::Stream, Protocol::Tcp) {
            Ok(id) => id,
            Err(e) => return Err(e),
        };
        match self.socket_table.bind_port(id, Some(local_port)) {
            Ok(()) => {},
            Err(e) => return Err(e),
        }
        Ok(id.0)
    }

    /// A listening socket gets a SYN: a new socket on the same port (not
    /// entered in the port map) takes the connection half-open, and the
    /// SYN-ACK, offering a segment size of 1460 bytes, is returned with its
    /// checksum still to be filled in.
    fn accept_syn(&mut self, packet: &TcpPacket, remote_addr: Ipv4Addr) -> (res: Result<Option<TcpPacket>, Error>)
        requires
            old(self).wf(),
            old(self).socket_table.next_id < usize::MAX,
        ensures
            final(self).wf(),
            final(self).my_ipv4_addr == old(self).my_ipv4_addr,
            final(self).my_mac_addr == old(self).my_mac_addr,
            final(self).arp_table@ == old(self).arp_table@,
            final(self).socket_table.tcp_port_socket_id_map@ == old(self).socket_table.tcp_port_socket_id_map@,
            final(self).socket_table.udp_port_socket_id_map@ == old(self).socket_table.udp_port_socket_id_map@,
            ({
                let id = old(self).socket_table.next_id;
                let ns = final(self).socket_table.table@[id];
                &&& !old(self).socket_table.table@.contains_key(id)
                &&& final(self).socket_table.next_id == id + 1
                &&& final(self).socket_table.table@ == old(self).socket_table.table@.insert(id, ns)
                &&& ns.port == packet.dst_port && ns.addr is None && ns.type_ == SocketType::Stream
                &&& tcp_of(ns) matches Some(t) && t.state == TcpSocketState::SynReceived && t.src_port == Some(
                    packet.dst_port,
                ) && t.dst_ipv4_addr == Some(remote_addr) && t.dst_port == Some(packet.src_port) && t.seq_num == 1
                    && t.next_recv_seq == (packet.seq_num + 1) % 0x1_0000_0000 && t.buf@ == Seq::<u8>::empty()
                &&& res matches Ok(Some(r)) && r.src_port == packet.dst_port && r.dst_port == packet.src_port
                    && r.seq_num == 0 && r.ack_num == (packet.seq_num + 1) % 0x1_0000_0000 && r.flags == 6 * 4096
                    + 0x12 && r.window_size == 0xffff && r.checksum == 0 && r.urgent_ptr == 0
                    && r.options_and_data@ == seq![2u8, 4, 5, 180]
            }),
    {
        let src_port = packet.src_port;
        let dst_port = packet.dst_port;
        let new_socket_id = match self.socket_table.insert_new_socket(SocketType::Stream, Protocol::Tcp) {
            Ok(id) => id,
            Err(e) => return Err(e),
        };
        let mut new_socket = match self.socket_table.table.remove(&new_socket_id.0) {
            Some(s) => s,
            None => {
                proof {
                    assert(false);
                }
                return Err(Error::Failed("Invalid socket ID"));
            },
        };
        new_socket.set_port(dst_port);
        let r = match &mut new_socket.inner {
            SocketInner::Tcp(t) => {
                match t.start_passive(dst_port) {
                    Ok(()) => {},
                    Err(e) => {
                        proof {
                            assert(false);
                        }
                        return Err(e);
                    },
                }
                t.dst_ipv4_addr = Some(remote_addr);
                t.dst_port = Some(src_port);
                let next_seq_num = match t.receive_syn(packet.seq_num) {
                    Ok(n) => n,
                    Err(e) => {
                        proof {
                            assert(false);
                        }
                        return Err(e);
                    },
                };
                let ack_num = t.next_recv_seq();
                let mss_bytes_len: u16 = 1460;
                let mut options: Vec<u8> = Vec::new();
                options.push(0x02);
                options.push(0x04);
                options.push((mss_bytes_len >> 8) as u8);
                options.push((mss_bytes_len & 0xff) as u8);
                assert((1460u16 >> 8u16) as u8 == 5 && (1460u16 & 0xffu16) as u8 == 180) by (bit_vector);
                assert(0x02u16 | 0x10u16 == 0x12) by (bit_vector);
                TcpPacket::new_with(
                    dst_port,
                    src_port,
                    next_seq_num,
                    ack_num,
                    TcpPacket::FLAGS_SYN | TcpPacket::FLAGS_ACK,
                    0xffff,
                    0,
                    options,
                )
            },
            _ => {
                proof {
                    assert(false);
                }
                return Err(Error::Failed("Invalid socket type"));
            },
        };
        proof {
            assert(r.options_and_data@ =~= seq![2u8, 4, 5, 180]);
        }
        self.socket_table.table.insert(new_socket_id.0, new_socket);
        Ok(Some(r))
    }

    /// Handles a TCP segment from `remote_addr`: it goes to the connection
    /// with its sender, else to the socket bound to its destination port
    /// (opened and bound if there is none); a listening socket takes a SYN
    /// on a new socket, the others step their connection. Returns the
    /// answer, whose checksum is still to be filled in; a segment that finds
    /// no TCP socket is dropped.
    pub fn receive_tcp_packet(&mut self, packet: TcpPacket, remote_addr: Ipv4Addr) -> (res: Result<Option<TcpPacket>, Error>)
        requires
            old(self).wf(),
            old(self).socket_table.next_id < usize::MAX,
        ensures
            final(self).wf(),
            final(self).my_ipv4_addr == old(self).my_ipv4_addr,
            final(self).my_mac_addr == old(self).my_mac_addr,
            final(self).arp_table@ == old(self).arp_table@,
            final(self).socket_table.udp_port_socket_id_map@ == old(self).socket_table.udp_port_socket_id_map@,
            ({
                let m = old(self).socket_table.table@;
                let tcp = old(self).socket_table.tcp_port_socket_id_map@;
                let lp = packet.dst_port;
                let fresh = old(self).socket_table.next_id;
                match tcp_target(m, tcp, lp, remote_addr, packet.src_port) {
                    None => {
                        let ns = final(self).socket_table.table@[fresh];
                        &&& res matches Ok(None)
                        &&& !m.contains_key(fresh)
                        &&& final(self).socket_table.next_id == fresh + 1
                        &&& final(self).socket_table.table@ == m.insert(fresh, ns)
                        &&& ns.addr is None && ns.type_ == SocketType::Stream
                        &&& ns.inner matches SocketInner::Tcp(t) && crate::net::tcp::tcp_socket_is_new(t)
                        &&& match (if lp == 0 {
                            crate::net::socket::free_ephemeral_port(
                                tcp,
                                old(self).socket_table.udp_port_socket_id_map@,
                                49152,
                            )
                        } else if old(self).socket_table.udp_port_socket_id_map@.contains_key(lp) {
                            None
                        } else {
                            Some(lp)
                        }) {
                            None => ns.port == 0 && final(self).socket_table.tcp_port_socket_id_map@ == tcp,
                            Some(p) => ns.port == p && final(self).socket_table.tcp_port_socket_id_map@ == tcp.insert(
                                p,
                                fresh,
                            ),
                        }
                    },
                    Some(k) => if !m.contains_key(k) || tcp_of(m[k]) is None {
                        res matches Ok(None) && final(self).unchanged(old(self))
                    } else if tcp_of(m[k]).unwrap().state == TcpSocketState::Listen {
                        if !crate::net::tcp::flag_set(packet.flags, TcpPacket::FLAGS_SYN) {
                            res matches Ok(None) && final(self).unchanged(old(self))
                        } else {
                            let ns = final(self).socket_table.table@[fresh];
                            &&& !m.contains_key(fresh)
                            &&& final(self).socket_table.next_id == fresh + 1
                            &&& final(self).socket_table.tcp_port_socket_id_map@ == tcp
                            &&& final(self).socket_table.table@ == m.insert(fresh, ns)
                            &&& ns.port == lp && ns.addr is None && ns.type_ == SocketType::Stream
                            &&& tcp_of(ns) matches Some(t) && t.state == TcpSocketState::SynReceived
                                && t.src_port == Some(lp) && t.dst_ipv4_addr == Some(remote_addr) && t.dst_port
                                == Some(packet.src_port) && t.seq_num == 1 && t.next_recv_seq == (packet.seq_num + 1)
                                % 0x1_0000_0000 && t.buf@ == Seq::<u8>::empty()
                            &&& res matches Ok(Some(r)) && r.src_port == lp && r.dst_port == packet.src_port
                                && r.seq_num == 0 && r.ack_num == (packet.seq_num + 1) % 0x1_0000_0000 && r.flags
                                == 6 * 4096 + 0x12 && r.window_size == 0xffff && r.checksum == 0 && r.urgent_ptr == 0
                                && r.options_and_data@ == seq![2u8, 4, 5, 180]
                        }
                    } else {
                        let s2 = final(self).socket_table.table@[k];
                        &&& final(self).same_but_sockets(old(self))
                        &&& final(self).socket_table.table@ == m.insert(k, s2)
                        &&& s2.port == m[k].port && s2.addr == m[k].addr && s2.type_ == m[k].type_
                        &&& tcp_of(s2) matches Some(t2) && tcp_stepped(tcp_of(m[k]).unwrap(), t2, packet, res)
                    },
                }
            }),
    {
        let id = match self.tcp_socket_id_by_port(packet.dst_port, remote_addr, packet.src_port) {
            Ok(id) => id,
            Err(_) => return Ok(None),
        };
        proof {
            lemma_remove_insert(self.socket_table.table@, id);
        }
        let mut socket = match self.socket_table.table.remove(&id) {
            Some(s) => s,
            None => return Ok(None),
        };
        if socket.type_ != SocketType::Stream {
            self.socket_table.table.insert(id, socket);
            return Ok(None);
        }
        let listening = match &socket.inner {
            SocketInner::Tcp(t) => t.state() == TcpSocketState::Listen,
            _ => {
                self.socket_table.table.insert(id, socket);
                return Ok(None);
            },
        };
        if listening {
            self.socket_table.table.insert(id, socket);
            if !packet.flags_syn() {
                return Ok(None);
            }
            return self.accept_syn(&packet, remote_addr);
        }
        let r = match &mut socket.inner {
            SocketInner::Tcp(t) => tcp_step(t, &packet),
            _ => Ok(None),
        };
        self.socket_table.table.insert(id, socket);
        r
    }
}

} // verus!
