use vstd::prelude::*;
use std::collections::BTreeMap;
use vstd::std_specs::btree::increasing_seq;
use vstd::std_specs::iter::IteratorSpec;
use vstd::std_specs::cmp::OrdSpec;
use crate::error::Error;
use crate::net::ip::{Ipv4Addr, Protocol};
use crate::net::tcp::{TcpSocket, TcpSocketState, tcp_socket_is_new};
use crate::net::udp::UdpSocket;

verus! {

broadcast use {vstd::std_specs::btree::group_btree_axioms, vstd::laws_cmp::group_laws_cmp};

/// The number of a socket.
#[derive(Debug, Clone, Copy, PartialEq, Eq, Structural, PartialOrd, Ord, Hash)]
pub struct SocketId(pub usize);

impl SocketId {
    /// The first number that the table hands out.
    pub const FIRST: usize = 4096;

    /// The next fresh number from a counter.
    pub fn new(next: &mut usize) -> (res: Self)
        requires
            *old(next) < usize::MAX,
        ensures
            res.0 == *old(next),
            *final(next) == *old(next) + 1,
    {
        let id = SocketId(*next);
        *next = *next + 1;
        id
    }

    /// The socket numbered by a file descriptor; negative numbers name none.
    pub fn new_val(value: i32) -> (res: Result<Self, Error>)
        ensures
            value < 0 ==> res == Err::<Self, Error>(Error::Failed("Invalid socket file descriptor number")),
            value >= 0 ==> res == Ok::<Self, Error>(SocketId(value as usize)),
    {
        if value < 0 {
            return Err(Error::Failed("Invalid socket file descriptor number"));
        }
        Ok(SocketId(value as usize))
    }

    pub fn get(&self) -> (res: usize)
        ensures
            res == self.0,
    {
        self.0
    }
}

/// The protocol state behind a socket.
#[derive(Debug)]
pub enum SocketInner {
    Tcp(TcpSocket),
    Udp(UdpSocket),
}

/// The kind of a socket.
#[derive(Debug, Clone, Copy, PartialEq, Eq, Structural)]
pub enum SocketType {
    /// TCP
    Stream,
    /// UDP
    Dgram,
}

/// A socket: its bound port (0 while unbound), bound address, kind and
/// protocol state.
#[derive(Debug)]
pub struct Socket {
    pub port: u16,
    pub addr: Option<Ipv4Addr>,
    pub inner: SocketInner,
    pub type_: SocketType,
}

impl Socket {
    pub fn port(&self) -> (res: u16)
        ensures
            res == self.port,
    {
        self.port
    }

    pub fn set_port(&mut self, port: u16)
        ensures
            final(self).port == port,
            final(self).addr == old(self).addr,
            final(self).inner == old(self).inner,
            final(self).type_ == old(self).type_,
    {
        self.port = port;
    }

    pub fn type_(&self) -> (res: SocketType)
        ensures
            res == self.type_,
    {
        self.type_
    }
}

/// A TCP socket bound to `port` whose connection is established.
pub open spec fn established_on(s: Socket, port: u16) -> bool {
    &&& s.type_ == SocketType::Stream
    &&& s.port == port
    &&& s.inner matches SocketInner::Tcp(t) && t.state == TcpSocketState::Established
}

/// A TCP socket bound to `local_port` and connected to the given remote end.
pub open spec fn connected_to(s: Socket, local_port: u16, remote_addr: Ipv4Addr, remote_port: u16) -> bool {
    &&& s.type_ == SocketType::Stream
    &&& s.port == local_port
    &&& s.inner matches SocketInner::Tcp(t) && (t.dst_ipv4_addr matches Some(a) && a.octets@
        == remote_addr.octets@) && t.dst_port == Some(remote_port)
}

/// The first port from `p` on in the ephemeral range that neither map uses.
pub open spec fn free_ephemeral_port(tcp: Map<u16, usize>, udp: Map<u16, usize>, p: int) -> Option<u16>
    decreases 65536 - p,
{
    if p > 65535 || p < 49152 {
        None
    } else if !tcp.contains_key(p as u16) && !udp.contains_key(p as u16) {
        Some(p as u16)
    } else {
        free_ephemeral_port(tcp, udp, p + 1)
    }
}

/// An automatically chosen port is the lowest port of the ephemeral range,
/// from `p` on, that neither TCP nor UDP uses; none is chosen only when all
/// of them are in use.
pub proof fn lemma_ephemeral_port_free(tcp: Map<u16, usize>, udp: Map<u16, usize>, p: int)
    requires
        49152 <= p,
    ensures
        free_ephemeral_port(tcp, udp, p) matches Some(q) ==> {
            &&& p <= q <= 65535
            &&& !tcp.contains_key(q) && !udp.contains_key(q)
            &&& forall|r: u16| p <= r < q ==> tcp.contains_key(r) || udp.contains_key(r)
        },
        free_ephemeral_port(tcp, udp, p) is None ==> forall|r: u16| p <= r ==> tcp.contains_key(r) || udp.contains_key(r),
    decreases 65536 - p,
{
    if p <= 65535 {
        if tcp.contains_key(p as u16) || udp.contains_key(p as u16) {
            lemma_ephemeral_port_free(tcp, udp, p + 1);
            assert forall|r: u16| p <= r && (r as int) < p + 1 implies tcp.contains_key(r) || udp.contains_key(r) by {
                assert(r == p as u16);
            }
        }
    }
}

/// What binding the socket `socket_id` of table `a` to `port` (or to an
/// ephemeral port) does, giving table `b`.
pub open spec fn bind_post(a: SocketTable, b: SocketTable, socket_id: SocketId, port: Option<u16>, res: Result<(), Error>) -> bool {
        let tcp = a.tcp_port_socket_id_map@;
        let udp = a.udp_port_socket_id_map@;
        let wanted = match port {
            Some(p) => p,
            None => 0u16,
        };
        let chosen = if wanted == 0 {
            free_ephemeral_port(tcp, udp, 49152)
        } else {
            Some(wanted)
        };
        let err = if wanted == 0 {
            if chosen is None {
                Some(Error::Failed("All ephemeral ports are already in use"))
            } else if !a.table@.contains_key(socket_id.0) {
                Some(Error::Failed("Invalid socket ID"))
            } else {
                None
            }
        } else if tcp.contains_key(wanted) {
            Some(Error::Failed("Port is already in use (TCP)"))
        } else if udp.contains_key(wanted) {
            Some(Error::Failed("Port is already in use (UDP)"))
        } else if !a.table@.contains_key(socket_id.0) {
            Some(Error::Failed("Invalid socket ID"))
        } else {
            None
        };
        match err {
            Some(e) => res == Err::<(), Error>(e) && b.table@ =~= a.table@
                && b.tcp_port_socket_id_map@ =~= tcp && b.udp_port_socket_id_map@ =~= udp,
            None => {
                let p = chosen.unwrap();
                let s = a.table@[socket_id.0];
                let t = b.table@[socket_id.0];
                &&& res is Ok
                &&& b.table@ =~= a.table@.insert(socket_id.0, t)
                &&& t.port == p && t.addr == s.addr && t.inner == s.inner && t.type_ == s.type_
                &&& b.tcp_port_socket_id_map@ =~= if s.type_ == SocketType::Stream {
                    tcp.insert(p, socket_id.0)
                } else {
                    tcp
                }
                &&& b.udp_port_socket_id_map@ =~= if s.type_ == SocketType::Dgram {
                    udp.insert(p, socket_id.0)
                } else {
                    udp
                }
            },
        }
}

/// Binding gives a socket a port no other socket of either protocol holds:
/// the one asked for, or when none (or 0) is asked for, the lowest free one
/// of the ephemeral range; the socket is then found under that port in its
/// protocol's map. Asking for a port already held fails and changes nothing.
pub proof fn lemma_bind_port(a: SocketTable, b: SocketTable, socket_id: SocketId, port: Option<u16>, res: Result<(), Error>)
    requires
        bind_post(a, b, socket_id, port, res),
    ensures
        res is Ok ==> {
            let q = b.table@[socket_id.0].port;
            &&& a.table@.contains_key(socket_id.0)
            &&& !a.tcp_port_socket_id_map@.contains_key(q) && !a.udp_port_socket_id_map@.contains_key(q)
            &&& (port is Some && port.unwrap() != 0 ==> q == port.unwrap())
            &&& (!(port is Some && port.unwrap() != 0) ==> 49152 <= q && forall|r: u16| 49152 <= r < q
                ==> a.tcp_port_socket_id_map@.contains_key(r) || a.udp_port_socket_id_map@.contains_key(r))
            &&& (b.table@[socket_id.0].type_ == SocketType::Stream ==> b.tcp_port_socket_id_map@[q] == socket_id.0)
            &&& (b.table@[socket_id.0].type_ == SocketType::Dgram ==> b.udp_port_socket_id_map@[q] == socket_id.0)
        },
        (port is Some && port.unwrap() != 0 && (a.tcp_port_socket_id_map@.contains_key(port.unwrap())
            || a.udp_port_socket_id_map@.contains_key(port.unwrap()))) ==> res is Err && b.table@ == a.table@
            && b.tcp_port_socket_id_map@ == a.tcp_port_socket_id_map@ && b.udp_port_socket_id_map@
            == a.udp_port_socket_id_map@,
{
    lemma_ephemeral_port_free(a.tcp_port_socket_id_map@, a.udp_port_socket_id_map@, 49152);
}

/// In a sequence of entries in increasing key order, an entry with a smaller
/// key comes first.
proof fn lemma_increasing_keys(v: Seq<(&usize, &Socket)>, j: int, i: int)
    requires
        increasing_seq(v.map_values(|kv: (&usize, &Socket)| *kv.0)),
        0 <= j < v.len(),
        0 <= i < v.len(),
        *v[j].0 < *v[i].0,
    ensures
        j < i,
{
    let keys = v.map_values(|kv: (&usize, &Socket)| *kv.0);
    if j >= i {
        assert(keys[i] == *v[i].0);
        assert(keys[j] == *v[j].0);
        if j > i {
            assert(keys[i].cmp_spec(&keys[j]) is Less);
        }
    }
}

/// The sockets by number, and the numbers of the bound ports of each
/// protocol.
#[derive(Debug)]
pub struct SocketTable {
    pub table: BTreeMap<usize, Socket>,
    pub udp_port_socket_id_map: BTreeMap<u16, usize>,
    pub tcp_port_socket_id_map: BTreeMap<u16, usize>,
    /// the number that the next socket gets
    pub next_id: usize,
}

impl SocketTable {
    pub const PORT_EPHEMERAL_START: u16 = 49152;
    pub const PORT_EPHEMERAL_END: u16 = 65535;

    /// Every socket's number was handed out before the counter's value.
    pub open spec fn wf(&self) -> bool {
        forall|k: usize| #[trigger] self.table@.contains_key(k) ==> k < self.next_id
    }

    pub fn new() -> (res: Self)
        ensures
            res.wf(),
            res.table@ == Map::<usize, Socket>::empty(),
            res.udp_port_socket_id_map@ == Map::<u16, usize>::empty(),
            res.tcp_port_socket_id_map@ == Map::<u16, usize>::empty(),
            res.next_id == SocketId::FIRST,
    {
        SocketTable {
            table: BTreeMap::new(),
            udp_port_socket_id_map: BTreeMap::new(),
            tcp_port_socket_id_map: BTreeMap::new(),
            next_id: SocketId::FIRST,
        }
    }

    pub fn socket_by_id(&self, id: SocketId) -> (res: Result<&Socket, Error>)
        ensures
            self.table@.contains_key(id.0) ==> res == Ok::<&Socket, Error>(&self.table@[id.0]),
            !self.table@.contains_key(id.0) ==> res == Err::<&Socket, Error>(Error::Failed("Invalid socket ID")),
    {
        match self.table.get(&id.0) {
            Some(s) => Ok(s),
            None => Err(Error::Failed("Invalid socket ID")),
        }
    }

    /// Forgets a socket and frees its port.
    pub fn remove_socket(&mut self, id: SocketId) -> (res: Result<(), Error>)
        requires
            old(self).wf(),
        ensures
            final(self).wf(),
            final(self).next_id == old(self).next_id,
            !old(self).table@.contains_key(id.0) ==> res == Err::<(), Error>(Error::Failed("Invalid socket ID"))
                && final(self).table@ == old(self).table@
                && final(self).tcp_port_socket_id_map@ == old(self).tcp_port_socket_id_map@
                && final(self).udp_port_socket_id_map@ == old(self).udp_port_socket_id_map@,
            old(self).table@.contains_key(id.0) ==> ({
                let s = old(self).table@[id.0];
                &&& res is Ok
                &&& final(self).table@ == old(self).table@.remove(id.0)
                &&& final(self).tcp_port_socket_id_map@ == if s.port != 0 && s.type_ == SocketType::Stream {
                    old(self).tcp_port_socket_id_map@.remove(s.port)
                } else {
                    old(self).tcp_port_socket_id_map@
                }
                &&& final(self).udp_port_socket_id_map@ == if s.port != 0 && s.type_ == SocketType::Dgram {
                    old(self).udp_port_socket_id_map@.remove(s.port)
                } else {
                    old(self).udp_port_socket_id_map@
                }
            }),
    {
        let socket = match self.table.remove(&id.0) {
            Some(s) => s,
            None => return Err(Error::Failed("Invalid socket ID")),
        };
        let port = socket.port();
        if port != 0 {
            match socket.type_() {
                SocketType::Stream => {
                    self.tcp_port_socket_id_map.remove(&port);
                },
                SocketType::Dgram => {
                    self.udp_port_socket_id_map.remove(&port);
                },
            }
        }
        Ok(())
    }

    /// The socket bound to a port of the given kind.
    pub fn socket_id_by_port_and_type(&self, port: u16, type_: SocketType) -> (res: Result<SocketId, Error>)
        ensures
            ({
                let m = match type_ {
                    SocketType::Stream => self.tcp_port_socket_id_map@,
                    SocketType::Dgram => self.udp_port_socket_id_map@,
                };
                &&& m.contains_key(port) ==> res == Ok::<SocketId, Error>(SocketId(m[port]))
                &&& !m.contains_key(port) ==> res == Err::<SocketId, Error>(Error::Failed("Port is not used"))
            }),
    {
        let found = match type_ {
            SocketType::Stream => self.tcp_port_socket_id_map.get(&port),
            SocketType::Dgram => self.udp_port_socket_id_map.get(&port),
        };
        match found {
            Some(id) => Ok(SocketId(*id)),
            None => Err(Error::Failed("Port is not used")),
        }
    }

    /// Adds an unbound socket of the given kind, which must go with the
    /// protocol (TCP for streams, UDP for datagrams), under a fresh number.
    pub fn insert_new_socket(&mut self, type_: SocketType, protocol: Protocol) -> (res: Result<SocketId, Error>)
        requires
            old(self).wf(),
            old(self).next_id < usize::MAX,
        ensures
            final(self).wf(),
            final(self).tcp_port_socket_id_map@ == old(self).tcp_port_socket_id_map@,
            final(self).udp_port_socket_id_map@ == old(self).udp_port_socket_id_map@,
            ((type_ == SocketType::Stream && protocol != Protocol::Tcp) || (type_ == SocketType::Dgram
                && protocol != Protocol::Udp)) ==> res == Err::<SocketId, Error>(Error::Failed("Invalid protocol"))
                && final(self).table@ == old(self).table@ && final(self).next_id == old(self).next_id,
            ((type_ == SocketType::Stream && protocol == Protocol::Tcp) || (type_ == SocketType::Dgram
                && protocol == Protocol::Udp)) ==> ({
                let id = old(self).next_id;
                let s = final(self).table@[id];
                &&& res == Ok::<SocketId, Error>(SocketId(id))
                &&& !old(self).table@.contains_key(id)
                &&& final(self).next_id == id + 1
                &&& final(self).table@ == old(self).table@.insert(id, s)
                &&& s.port == 0
                &&& s.addr is None
                &&& s.type_ == type_
                &&& match s.inner {
                    SocketInner::Tcp(t) => type_ == SocketType::Stream && tcp_socket_is_new(t),
                    SocketInner::Udp(u) => type_ == SocketType::Dgram && u.buf@ == Seq::<u8>::empty(),
                }
            }),
    {
        let inner = match type_ {
            SocketType::Stream => {
                if protocol != Protocol::Tcp {
                    return Err(Error::Failed("Invalid protocol"));
                }
                SocketInner::Tcp(TcpSocket::new())
            },
            SocketType::Dgram => {
                if protocol != Protocol::Udp {
                    return Err(Error::Failed("Invalid protocol"));
                }
                SocketInner::Udp(UdpSocket::new())
            },
        };
        let id = SocketId::new(&mut self.next_id);
        let socket = Socket { port: 0, addr: None, inner, type_ };
        self.table.insert(id.0, socket);
        Ok(id)
    }

    /// Binds a socket to a port: the one given, which must be free in both
    /// protocols, or the first free ephemeral port.
    pub fn bind_port(&mut self, socket_id: SocketId, port: Option<u16>) -> (res: Result<(), Error>)
        requires
            old(self).wf(),
        ensures
            final(self).wf(),
            final(self).next_id == old(self).next_id,
            bind_post(*old(self), *final(self), socket_id, port, res),
    {
        let mut port: u16 = match port {
            Some(p) => p,
            None => 0,
        };
        if port == 0 {
            let mut p: u16 = Self::PORT_EPHEMERAL_START;
            let mut done = false;
            while !done
                invariant
                    Self::PORT_EPHEMERAL_START <= p,
                    port == 0 ==> free_ephemeral_port(
                        self.tcp_port_socket_id_map@,
                        self.udp_port_socket_id_map@,
                        49152,
                    ) == free_ephemeral_port(self.tcp_port_socket_id_map@, self.udp_port_socket_id_map@, p as int),
                    port != 0 ==> free_ephemeral_port(
                        self.tcp_port_socket_id_map@,
                        self.udp_port_socket_id_map@,
                        49152,
                    ) == Some(port),
                    done && port == 0 ==> free_ephemeral_port(
                        self.tcp_port_socket_id_map@,
                        self.udp_port_socket_id_map@,
                        49152,
                    ) is None,
                    !done ==> port == 0,
                decreases 65536 - p, if done { 0int } else { 1int },
            {
                if !self.tcp_port_socket_id_map.contains_key(&p) && !self.udp_port_socket_id_map.contains_key(&p) {
                    port = p;
                    done = true;
                } else if p == Self::PORT_EPHEMERAL_END {
                    proof {
                        assert(free_ephemeral_port(self.tcp_port_socket_id_map@, self.udp_port_socket_id_map@, 65536) is None);
                    }
                    done = true;
                } else {
                    p = p + 1;
                }
            }
            if port == 0 {
                return Err(Error::Failed("All ephemeral ports are already in use"));
            }
        } else {
            if self.tcp_port_socket_id_map.contains_key(&port) {
                return Err(Error::Failed("Port is already in use (TCP)"));
            }
            if self.udp_port_socket_id_map.contains_key(&port) {
                return Err(Error::Failed("Port is already in use (UDP)"));
            }
        }
        let mut socket = match self.table.remove(&socket_id.0) {
            Some(s) => s,
            None => return Err(Error::Failed("Invalid socket ID")),
        };
        socket.set_port(port);
        match socket.type_ {
            SocketType::Stream => {
                self.tcp_port_socket_id_map.insert(port, socket_id.0);
            },
            SocketType::Dgram => {
                self.udp_port_socket_id_map.insert(port, socket_id.0);
            },
        }
        self.table.insert(socket_id.0, socket);
        Ok(())
    }

    /// The lowest-numbered established TCP socket on a server port.
    pub fn find_tcp_established_socket(&self, server_port: u16) -> (res: Option<SocketId>)
        ensures
            match res {
                Some(id) => self.table@.contains_key(id.0) && established_on(self.table@[id.0], server_port)
                    && forall|k: usize|
                    #![trigger self.table@[k]]
                    self.table@.contains_key(k) && k < id.0 ==> !established_on(self.table@[k], server_port),
                None => forall|k: usize|
                    #![trigger self.table@[k]]
                    self.table@.contains_key(k) ==> !established_on(self.table@[k], server_port),
            },
    {
        let ghost m = self.table@;
        let iter = self.table.iter();
        let ghost v = iter.remaining();
        assert(increasing_seq(v.map_values(|kv: (&usize, &Socket)| *kv.0)));
        assert(forall|i: int|
            #![trigger v[i]]
            0 <= i < v.len() ==> m.contains_key(*v[i].0) && m[*v[i].0] == *v[i].1);
        assert(forall|k: usize| #[trigger] m.contains_key(k) ==> v.contains((&k, &m[k])));
        for (id, socket) in it: iter
            invariant
                m == self.table@,
                v == it.seq(),
                increasing_seq(v.map_values(|kv: (&usize, &Socket)| *kv.0)),
                forall|i: int|
                    #![trigger v[i]]
                    0 <= i < v.len() ==> m.contains_key(*v[i].0) && m[*v[i].0] == *v[i].1,
                forall|k: usize| #[trigger] m.contains_key(k) ==> v.contains((&k, &m[k])),
                forall|i: int| 0 <= i < it.index() ==> !established_on(*(#[trigger] v[i]).1, server_port),
        {
            if socket.type_ == SocketType::Stream && socket.port == server_port {
                match &socket.inner {
                    SocketInner::Tcp(t) => {
                        if t.state == TcpSocketState::Established {
                            proof {
                                let i = it.index() as int;
                                assert(v[i] == (id, socket));
                                assert(m.contains_key(*v[i].0) && m[*v[i].0] == *v[i].1);
                                assert forall|k: usize| #![trigger m[k]] m.contains_key(k) && k < *id implies !established_on(
                                    m[k],
                                    server_port,
                                ) by {
                                    assert(v.contains((&k, &m[k])));
                                    let j = choose|j: int| 0 <= j < v.len() && v[j] == (&k, &m[k]);
                                    lemma_increasing_keys(v, j, i);
                                }
                            }
                            return Some(SocketId(*id));
                        }
                    },
                    _ => {},
                }
            }
        }
        None
    }

    /// The lowest-numbered TCP socket on a local port that is connected to
    /// the given remote address and port.
    pub fn find_tcp_socket_by_port_and_addr(&self, local_port: u16, remote_addr: Ipv4Addr, remote_port: u16) -> (res:
        Option<SocketId>)
        ensures
            match res {
                Some(id) => self.table@.contains_key(id.0) && connected_to(
                    self.table@[id.0],
                    local_port,
                    remote_addr,
                    remote_port,
                ) && forall|k: usize|
                    #![trigger self.table@[k]]
                    self.table@.contains_key(k) && k < id.0 ==> !connected_to(
                        self.table@[k],
                        local_port,
                        remote_addr,
                        remote_port,
                    ),
                None => forall|k: usize|
                    #![trigger self.table@[k]]
                    self.table@.contains_key(k) ==> !connected_to(self.table@[k], local_port, remote_addr, remote_port),
            },
    {
        let ghost m = self.table@;
        let iter = self.table.iter();
        let ghost v = iter.remaining();
        assert(increasing_seq(v.map_values(|kv: (&usize, &Socket)| *kv.0)));
        assert(forall|i: int|
            #![trigger v[i]]
            0 <= i < v.len() ==> m.contains_key(*v[i].0) && m[*v[i].0] == *v[i].1);
        assert(forall|k: usize| #[trigger] m.contains_key(k) ==> v.contains((&k, &m[k])));
        for (id, socket) in it: iter
            invariant
                m == self.table@,
                v == it.seq(),
                increasing_seq(v.map_values(|kv: (&usize, &Socket)| *kv.0)),
                forall|i: int|
                    #![trigger v[i]]
                    0 <= i < v.len() ==> m.contains_key(*v[i].0) && m[*v[i].0] == *v[i].1,
                forall|k: usize| #[trigger] m.contains_key(k) ==> v.contains((&k, &m[k])),
                forall|i: int|
                    0 <= i < it.index() ==> !connected_to(*(#[trigger] v[i]).1, local_port, remote_addr, remote_port),
        {
            if socket.type_ == SocketType::Stream && socket.port == local_port {
                match &socket.inner {
                    SocketInner::Tcp(t) => {
                        match (t.dst_ipv4_addr, t.dst_port) {
                            (Some(addr), Some(port)) => {
                                if addr.is_same(&remote_addr) && port == remote_port {
                                    proof {
                                        let i = it.index() as int;
                                        assert(v[i] == (id, socket));
                                        assert forall|k: usize|
                                            #![trigger m[k]]
                                            m.contains_key(k) && k < *id implies !connected_to(
                                            m[k],
                                            local_port,
                                            remote_addr,
                                            remote_port,
                                        ) by {
                                            assert(v.contains((&k, &m[k])));
                                            let j = choose|j: int| 0 <= j < v.len() && v[j] == (&k, &m[k]);
                                            lemma_increasing_keys(v, j, i);
                                        }
                                    }
                                    return Some(SocketId(*id));
                                }
                            },
                            _ => {},
                        }
                    },
                    _ => {},
                }
            }
        }
        None
    }
}

} // verus!
