use lib::error::Error;
use lib::net::arp::{ArpOperation, ArpPacket};
use lib::net::checksum::{checksum_words, fold_checksum};
use lib::net::eth::{EtherType, EthernetAddress, EthernetFrame, EthernetPayload};
use lib::net::icmp::{IcmpPacket, IcmpType};
use lib::net::ip::{Ipv4Addr, Ipv4Packet, Ipv4Payload, Protocol};
use lib::net::socket::{SocketId, SocketType};
use lib::net::tcp::{segment_data, tcp_step, TcpPacket, TcpSocket, TcpSocketState};
use lib::net::udp::{UdpPacket, UdpSocket};
use lib::net::{get_target_ip, local_addr, ArpLookup, NetworkManager};

fn ip(a: u8, b: u8, c: u8, d: u8) -> Ipv4Addr {
    Ipv4Addr::new(a, b, c, d)
}

#[test]
fn ipv4_header_checksum_known_value() {
    let header: [u8; 20] = [
        0x45, 0x00, 0x00, 0x73, 0x00, 0x00, 0x40, 0x00, 0x40, 0x11, 0x00, 0x00, 0xc0, 0xa8, 0x00, 0x01,
        0xc0, 0xa8, 0x00, 0xc7,
    ];
    let sum = checksum_words(&header);
    assert_eq!(fold_checksum(sum), 0xb861);
}

#[test]
fn checksum_odd_length_pads_with_zero() {
    assert_eq!(checksum_words(&[0x01, 0x02, 0x03]), 0x0102 + 0x0300);
    assert_eq!(fold_checksum(0x0001_fffe), 0x0000);
    assert_eq!(fold_checksum(0), 0xffff);
}

fn sample_ipv4_bytes() -> Vec<u8> {
    let mut v = vec![
        0x45, 0x00, 0x00, 0x1c, 0x12, 0x34, 0x00, 0x00, 0x40, 0x01, 0x00, 0x00, 10, 0, 2, 2, 10, 0, 2, 15,
    ];
    v.extend_from_slice(&[8, 0, 0, 0, 0, 1, 0, 2]);
    v
}

#[test]
fn ipv4_packet_parse_and_write_back() {
    let bytes = sample_ipv4_bytes();
    let p = Ipv4Packet::try_from(&bytes).unwrap();
    assert_eq!(p.version_ihl, 0x45);
    assert_eq!(p.len, 0x1c);
    assert_eq!(p.id, 0x1234);
    assert_eq!(p.ttl, 0x40);
    assert_eq!(p.protocol, Protocol::Icmp);
    assert_eq!(p.src_addr.octets(), [10, 0, 2, 2]);
    assert_eq!(p.dst_addr.octets(), [10, 0, 2, 15]);
    assert_eq!(p.to_vec(), bytes);
    assert!(p.validate().is_ok());
    match p.payload().unwrap() {
        Ipv4Payload::Icmp(icmp) => {
            assert_eq!(icmp.ty, IcmpType::EchoRequest);
            assert_eq!(icmp.id, 1);
            assert_eq!(icmp.seq, 2);
        }
        _ => panic!("expected ICMP"),
    }
}

#[test]
fn ipv4_packet_errors() {
    assert!(matches!(Ipv4Packet::try_from(&[0u8; 19]), Err(Error::Failed("Invalid data length"))));
    let mut bytes = sample_ipv4_bytes();
    bytes[0] = 0x65;
    let p = Ipv4Packet::try_from(&bytes).unwrap();
    assert!(matches!(p.validate(), Err(Error::Failed("Invalid version"))));
    let mut bytes = sample_ipv4_bytes();
    bytes[8] = 0;
    let p = Ipv4Packet::try_from(&bytes).unwrap();
    assert!(matches!(p.validate(), Err(Error::Failed("TTL is 0"))));
    let mut bytes = sample_ipv4_bytes();
    bytes[9] = 17;
    let p = Ipv4Packet::try_from(&bytes).unwrap();
    assert!(matches!(p.payload(), Err(Error::Failed("Unsupported protocol"))));
    let mut bytes = sample_ipv4_bytes();
    bytes.truncate(24);
    let p = Ipv4Packet::try_from(&bytes).unwrap();
    assert!(matches!(p.payload(), Err(Error::Failed("Invalid data length"))));
}

#[test]
fn protocol_numbers_round_trip() {
    assert_eq!(Protocol::from_u8(1), Protocol::Icmp);
    assert_eq!(Protocol::from_u8(6), Protocol::Tcp);
    assert_eq!(Protocol::from_u8(17), Protocol::Udp);
    for n in 0..=255u8 {
        assert_eq!(Protocol::from_u8(n).to_u8(), n);
        assert_eq!(IcmpType::from_u8(n).to_u8(), n);
    }
}

#[test]
fn arp_packet_round_trip_and_operations() {
    let me = EthernetAddress::from_bytes([1, 2, 3, 4, 5, 6]);
    let p = ArpPacket::new_with(ArpOperation::Request, me, ip(10, 0, 2, 15), EthernetAddress::broadcast(), ip(10, 0, 2, 2));
    let bytes = p.to_vec();
    assert_eq!(bytes.len(), 28);
    assert_eq!(&bytes[0..8], &[0, 1, 0x08, 0x00, 6, 4, 0, 1]);
    let q = ArpPacket::try_from(&bytes).unwrap();
    assert!(matches!(q.op(), Ok(ArpOperation::Request)));
    assert!(q.sender_eth_addr.is_same(&me));
    assert!(q.target_ipv4_addr.is_same(&ip(10, 0, 2, 2)));
    assert_eq!(q.to_vec(), bytes);
    assert!(matches!(ArpOperation::try_from([0, 3]), Err(Error::Failed("Invalid ARP operation"))));
    assert!(matches!(ArpOperation::try_from([0, 2]), Ok(ArpOperation::Reply)));
    assert!(matches!(ArpPacket::try_from(&bytes[..27]), Err(Error::Failed("Invalid data length"))));
}

#[test]
fn ether_types_round_trip() {
    assert_eq!(EtherType::from_bytes([0x08, 0x00]), EtherType::Ipv4);
    assert_eq!(EtherType::from_bytes([0x08, 0x06]), EtherType::Arp);
    assert_eq!(EtherType::from_bytes([0x12, 0x34]).to_bytes(), [0x12, 0x34]);
    assert_eq!(EtherType::Ipv4.to_bytes(), [0x08, 0x00]);
}

#[test]
fn ethernet_frame_pads_to_minimum_length() {
    let me = EthernetAddress::from_bytes([1, 2, 3, 4, 5, 6]);
    let arp = ArpPacket::new_with(ArpOperation::Reply, me, ip(10, 0, 2, 15), me, ip(10, 0, 2, 2));
    let payload = EthernetPayload::Arp(arp).to_vec();
    let frame = EthernetFrame::new_with(EthernetAddress::broadcast(), me, EtherType::Arp, &payload);
    let bytes = frame.to_vec().unwrap();
    assert_eq!(bytes.len(), 64);
    assert_eq!(&bytes[0..6], &[0xff; 6]);
    assert_eq!(&bytes[12..14], &[0x08, 0x06]);
    assert_eq!(&bytes[14..42], &payload[..]);
    assert!(bytes[42..].iter().all(|b| *b == 0));
    let parsed = EthernetFrame::try_from(&bytes).unwrap();
    assert_eq!(parsed.ether_type, EtherType::Arp);
    assert!(matches!(EthernetFrame::try_from(&bytes[..13]), Err(Error::Failed("Invalid data length"))));
}

#[test]
fn tcp_checksum_verifies_after_calculation() {
    let mut p = TcpPacket::new_with(1234, 80, 7, 9, TcpPacket::FLAGS_ACK, 0xffff, 0, vec![1, 2, 3]);
    assert_eq!(p.flags_header_len(), 24);
    assert_eq!(p.options_and_data, vec![1, 2, 3, 0]);
    let (a, b) = (ip(10, 0, 2, 15), ip(10, 0, 2, 2));
    p.calc_checksum_with_ipv4(a, b);
    assert!(p.verify_checksum_with_ipv4(a, b));
    p.seq_num += 1;
    assert!(!p.verify_checksum_with_ipv4(a, b));
}

#[test]
fn tcp_packet_round_trip_and_errors() {
    let p = TcpPacket::new_with(1, 2, 3, 4, TcpPacket::FLAGS_SYN, 5, 6, vec![]);
    let bytes = p.to_vec();
    assert_eq!(bytes.len(), 20);
    let q = TcpPacket::try_from(&bytes).unwrap();
    assert!(q.flags_syn() && !q.flags_ack() && !q.flags_fin());
    assert_eq!(q.to_vec(), bytes);
    assert!(matches!(TcpPacket::try_from(&bytes[..19]), Err(Error::Failed("Invalid data length"))));
    let mut bad = bytes.clone();
    bad[12] = 0x40;
    assert!(matches!(TcpPacket::try_from(&bad), Err(Error::Failed("Invalid TCP data offset"))));
    bad[12] = 0x60;
    assert!(matches!(TcpPacket::try_from(&bad), Err(Error::Failed("Packet shorter than header length"))));
}

#[test]
fn udp_packet_and_socket() {
    let mut p = UdpPacket::new_with(1000, 2000, &[9, 8, 7]);
    assert_eq!(p.len, 11);
    p.calc_checksum_with_ipv4(ip(10, 0, 2, 15), ip(10, 0, 2, 2));
    let bytes = p.to_vec();
    let q = UdpPacket::try_from(&bytes).unwrap();
    assert_eq!(q.dst_port, 2000);
    assert_eq!(q.data, vec![9, 8, 7]);
    assert!(matches!(UdpPacket::try_from(&bytes[..7]), Err(Error::InvalidBufferSize { required: 8, actual: 7 })));

    let mut s = UdpSocket::new();
    s.receive(b"hello");
    assert_eq!(s.buf_to_string_utf8_lossy(), "hello");
    let mut buf = [0u8; 3];
    assert_eq!(s.read_buf(&mut buf), 3);
    assert_eq!(&buf, b"hel");
    let mut buf = [0u8; 8];
    assert_eq!(s.read_buf(&mut buf), 2);
    assert_eq!(&buf[..2], b"lo");
    s.receive(&[0xff, b'a']);
    assert_eq!(s.buf_to_string_utf8_lossy(), "\u{fffd}a");
}

#[test]
fn tcp_socket_handshake_states() {
    let mut t = TcpSocket::new();
    assert_eq!(t.state(), TcpSocketState::Closed);
    assert!(matches!(t.receive_ack(), Err(Error::Failed("Invalid state"))));
    t.start_passive(80).unwrap();
    assert_eq!(t.state(), TcpSocketState::Listen);
    assert!(matches!(t.start_passive(80), Err(Error::Failed("Invalid state"))));
    assert_eq!(t.receive_syn(100).unwrap(), 0);
    assert_eq!(t.next_recv_seq(), 101);
    assert_eq!(t.seq_num(), 1);
    t.receive_ack().unwrap();
    assert_eq!(t.state(), TcpSocketState::Established);
    t.receive_data(b"abc", 101).unwrap();
    t.receive_data(b"zzz", 5).unwrap();
    assert_eq!(t.next_recv_seq(), 104);
    assert_eq!(t.get_and_reset_buf(), b"abc".to_vec());
    t.receive_fin().unwrap();
    assert_eq!(t.state(), TcpSocketState::CloseWait);
    assert_eq!(t.next_recv_seq(), 105);
    t.close();
    assert_eq!(t.state(), TcpSocketState::Closed);
}

#[test]
fn tcp_sequence_numbers_wrap() {
    let mut t = TcpSocket::new();
    t.start_passive(1).unwrap();
    t.receive_syn(u32::MAX).unwrap();
    assert_eq!(t.next_recv_seq(), 0);
}

#[test]
fn tcp_step_acknowledges_data_and_fin() {
    let mut t = TcpSocket::new();
    t.start_active(ip(10, 0, 2, 2), 80).unwrap();
    let syn_ack = TcpPacket::new_with(80, 5000, 700, 1, TcpPacket::FLAGS_SYN | TcpPacket::FLAGS_ACK, 100, 0, vec![]);
    let reply = tcp_step(&mut t, &syn_ack).unwrap().unwrap();
    assert_eq!(t.state(), TcpSocketState::Established);
    assert_eq!((reply.src_port, reply.dst_port), (5000, 80));
    assert_eq!((reply.seq_num, reply.ack_num), (1, 701));
    assert!(reply.flags_ack() && !reply.flags_syn());

    let mut data = TcpPacket::new_with(80, 5000, 701, 1, TcpPacket::FLAGS_ACK | TcpPacket::FLAGS_FIN, 100, 0, vec![]);
    data.options_and_data = b"hi".to_vec();
    assert_eq!(segment_data(&data), b"hi".to_vec());
    let reply = tcp_step(&mut t, &data).unwrap().unwrap();
    assert_eq!(t.state(), TcpSocketState::CloseWait);
    assert_eq!(reply.ack_num, 704);
    assert_eq!(t.get_and_reset_buf(), b"hi".to_vec());

    let plain_ack = TcpPacket::new_with(80, 5000, 704, 1, TcpPacket::FLAGS_ACK, 100, 0, vec![]);
    assert!(tcp_step(&mut t, &plain_ack).unwrap().is_none());
}

#[test]
fn target_ip_is_gateway_outside_subnet() {
    let me = local_addr();
    assert_eq!(get_target_ip(me, ip(10, 0, 2, 99)).octets(), [10, 0, 2, 99]);
    assert_eq!(get_target_ip(me, ip(8, 8, 8, 8)).octets(), [10, 0, 2, 2]);
    assert_eq!(get_target_ip(me, ip(10, 0, 3, 1)).octets(), [10, 0, 2, 2]);
}

#[test]
fn socket_ids_and_table_errors() {
    assert!(matches!(SocketId::new_val(-1), Err(Error::Failed("Invalid socket file descriptor number"))));
    assert_eq!(SocketId::new_val(7).unwrap().get(), 7);
    let mut next = 5usize;
    assert_eq!(SocketId::new(&mut next).get(), 5);
    assert_eq!(next, 6);

    let mut nm = NetworkManager::new(local_addr());
    let udp = nm.create_new_socket(SocketType::Dgram).unwrap();
    assert_eq!(udp.get(), 4096);
    let tcp = nm.create_new_socket(SocketType::Stream).unwrap();
    assert_eq!(tcp.get(), 4097);
    assert!(matches!(
        nm.socket_table.insert_new_socket(SocketType::Stream, Protocol::Udp),
        Err(Error::Failed("Invalid protocol"))
    ));
    nm.bind_socket_v4(udp, None, Some(53)).unwrap();
    assert!(matches!(nm.bind_socket_v4(udp, None, Some(54)), Err(Error::Failed("Socket already bound"))));
    assert!(matches!(nm.bind_socket_v4(tcp, None, Some(53)), Err(Error::Failed("Port is already in use (UDP)"))));
    nm.bind_socket_v4(tcp, None, None).unwrap();
    assert_eq!(nm.socket_table.socket_by_id(tcp).unwrap().port(), 49152);
    let other = nm.create_new_socket(SocketType::Stream).unwrap();
    assert!(matches!(nm.bind_socket_v4(other, None, Some(49152)), Err(Error::Failed("Port is already in use (TCP)"))));
    nm.bind_socket_v4(other, None, None).unwrap();
    assert_eq!(nm.socket_table.socket_by_id(other).unwrap().port(), 49153);
    assert_eq!(nm.socket_table.socket_id_by_port_and_type(53, SocketType::Dgram).unwrap(), udp);
    assert!(matches!(
        nm.socket_table.socket_id_by_port_and_type(53, SocketType::Stream),
        Err(Error::Failed("Port is not used"))
    ));
    assert!(matches!(nm.listen_tcp_v4(udp), Err(Error::Failed("Invalid socket type"))));
    assert!(matches!(nm.listen_tcp_v4(SocketId(1)), Err(Error::Failed("Invalid socket ID"))));
    assert!(matches!(nm.close_socket(SocketId(1)), Err(Error::Failed("Invalid socket ID"))));
    assert!(nm.close_socket(udp).unwrap().is_none());
    assert!(nm.socket_table.socket_id_by_port_and_type(53, SocketType::Dgram).is_err());
}

#[test]
fn listen_requires_a_bound_socket() {
    let mut nm = NetworkManager::new(local_addr());
    let s = nm.create_new_socket(SocketType::Stream).unwrap();
    assert!(matches!(nm.listen_tcp_v4(s), Err(Error::Failed("Socket must be bound before listen"))));
    nm.bind_socket_v4(s, None, Some(80)).unwrap();
    nm.listen_tcp_v4(s).unwrap();
    assert!(matches!(nm.listen_tcp_v4(s), Err(Error::Failed("Invalid state"))));
    assert!(matches!(nm.accept_tcp_v4(s), Err(Error::Failed("No incoming connection"))));
    assert!(matches!(nm.is_tcp_established(s), Ok(false)));
}

#[test]
fn tcp_server_handshake_data_and_close() {
    let mut nm = NetworkManager::new(local_addr());
    nm.set_my_mac_addr(EthernetAddress::from_bytes([2, 0, 0, 0, 0, 1]));
    let server = nm.create_new_socket(SocketType::Stream).unwrap();
    nm.bind_socket_v4(server, None, Some(80)).unwrap();
    nm.listen_tcp_v4(server).unwrap();
    let peer = ip(10, 0, 2, 2);

    let syn = TcpPacket::new_with(40000, 80, 1000, 0, TcpPacket::FLAGS_SYN, 0xffff, 0, vec![]);
    let syn_ack = nm.receive_tcp_packet(syn, peer).unwrap().unwrap();
    assert_eq!((syn_ack.src_port, syn_ack.dst_port), (80, 40000));
    assert_eq!((syn_ack.seq_num, syn_ack.ack_num), (0, 1001));
    assert!(syn_ack.flags_syn() && syn_ack.flags_ack());
    assert_eq!(syn_ack.options_and_data, vec![2, 4, 5, 180]);
    assert_eq!(syn_ack.flags_header_len(), 24);

    let ack = TcpPacket::new_with(40000, 80, 1001, 1, TcpPacket::FLAGS_ACK, 0xffff, 0, vec![]);
    assert!(nm.receive_tcp_packet(ack, peer).unwrap().is_none());
    let conn = nm.accept_tcp_v4(server).unwrap();
    assert_ne!(conn, server);
    assert!(nm.is_tcp_established(conn).unwrap());

    let mut data = TcpPacket::new_with(40000, 80, 1001, 1, TcpPacket::FLAGS_ACK | TcpPacket::FLAGS_PSH, 0xffff, 0, vec![]);
    data.options_and_data = b"ping".to_vec();
    let reply = nm.receive_tcp_packet(data, peer).unwrap().unwrap();
    assert_eq!((reply.seq_num, reply.ack_num), (1, 1005));
    let mut buf = [0u8; 2];
    assert_eq!(nm.recv_tcp_data(conn, &mut buf).unwrap(), 2);
    assert_eq!(&buf, b"pi");
    assert_eq!(nm.recv_tcp_data(conn, &mut buf).unwrap(), 0);

    let (seg, to) = nm.send_tcp_data(conn, b"pong").unwrap();
    assert_eq!(to.octets(), [10, 0, 2, 2]);
    assert_eq!((seg.src_port, seg.dst_port, seg.seq_num, seg.ack_num), (80, 40000, 1, 1005));
    assert_eq!(seg.options_and_data, b"pong".to_vec());
    assert!(seg.flags_psh() && seg.flags_ack());
    assert!(seg.verify_checksum_with_ipv4(local_addr(), peer));
    assert!(matches!(nm.send_tcp_syn(conn), Err(Error::Failed("Socket is not in SynSent state"))));

    let fin = nm.close_socket(conn).unwrap().unwrap();
    assert_eq!(fin.0.seq_num, 5);
    assert!(fin.0.flags_fin() && fin.0.flags_ack());
    assert!(fin.0.verify_checksum_with_ipv4(local_addr(), peer));
    assert!(matches!(nm.is_tcp_established(conn), Err(Error::Failed("Invalid socket ID"))));
}

#[test]
fn tcp_client_connect_and_syn() {
    let mut nm = NetworkManager::new(local_addr());
    let c = nm.create_new_socket(SocketType::Stream).unwrap();
    nm.connect_tcp_v4(c, ip(10, 0, 2, 2), 8080).unwrap();
    assert_eq!(nm.socket_table.socket_by_id(c).unwrap().port(), 49152);
    let (syn, to) = nm.send_tcp_syn(c).unwrap();
    assert_eq!(to.octets(), [10, 0, 2, 2]);
    assert_eq!((syn.src_port, syn.dst_port, syn.seq_num), (49152, 8080, 0));
    assert!(syn.flags_syn() && !syn.flags_ack());
    assert!(syn.verify_checksum_with_ipv4(local_addr(), to));
    assert!(matches!(nm.connect_tcp_v4(c, ip(10, 0, 2, 2), 8080), Err(Error::Failed("Invalid state"))));
    assert!(matches!(nm.send_tcp_data(c, b"x"), Err(Error::Failed("Socket is not in Established state"))));
    let mut buf = [0u8; 4];
    assert!(matches!(
        nm.recv_tcp_data(c, &mut buf),
        Err(Error::Failed("Socket is not in Established/Closing state"))
    ));
    let syn_ack = TcpPacket::new_with(8080, 49152, 300, 1, TcpPacket::FLAGS_SYN | TcpPacket::FLAGS_ACK, 1, 0, vec![]);
    let ack = nm.receive_tcp_packet(syn_ack, ip(10, 0, 2, 2)).unwrap().unwrap();
    assert_eq!((ack.seq_num, ack.ack_num), (1, 301));
    assert!(nm.is_tcp_established(c).unwrap());
}

#[test]
fn udp_datagrams_reach_bound_sockets() {
    let mut nm = NetworkManager::new(local_addr());
    let s = nm.create_new_socket(SocketType::Dgram).unwrap();
    nm.bind_socket_v4(s, Some(local_addr()), Some(7000)).unwrap();
    let p = UdpPacket::new_with(1, 7000, b"abc");
    assert!(nm.receive_udp_packet(p).unwrap().is_none());
    let mut buf = [0u8; 8];
    assert_eq!(nm.recvfrom_udp_v4(s, &mut buf).unwrap(), 3);
    assert_eq!(&buf[..3], b"abc");
    let p = UdpPacket::new_with(1, 7001, b"new");
    nm.receive_udp_packet(p).unwrap();
    let created = nm.socket_table.socket_id_by_port_and_type(7001, SocketType::Dgram).unwrap();
    assert_eq!(nm.recvfrom_udp_v4(created, &mut buf).unwrap(), 3);
    let t = nm.create_new_socket(SocketType::Stream).unwrap();
    assert!(matches!(nm.recvfrom_udp_v4(t, &mut buf), Err(Error::Failed("Invalid socket type"))));
}

#[test]
fn icmp_echo_request_gets_reply() {
    let nm = NetworkManager::new(local_addr());
    let bytes = [8u8, 0, 0, 0, 0x12, 0x34, 0, 1, b'x'];
    let req = IcmpPacket::try_from(&bytes).unwrap();
    let reply = nm.receive_icmp_packet(req).unwrap().unwrap();
    assert_eq!(reply.ty, IcmpType::EchoReply);
    assert_eq!((reply.id, reply.seq), (0x1234, 1));
    assert_eq!(reply.data, vec![b'x']);
    let sum = checksum_words(&[0, 0, 0x12, 0x34, 0, 1, b'x']);
    assert_eq!(reply.checksum, fold_checksum(sum));
    let other = IcmpPacket::try_from(&[0u8, 0, 0, 0, 0, 0, 0, 0]).unwrap();
    assert!(nm.receive_icmp_packet(other).unwrap().is_none());
}

#[test]
fn arp_requests_are_answered_and_learned() {
    let mut nm = NetworkManager::new(local_addr());
    let peer_mac = EthernetAddress::from_bytes([9, 9, 9, 9, 9, 9]);
    let req = ArpPacket::new_with(ArpOperation::Request, peer_mac, ip(10, 0, 2, 2), EthernetAddress::broadcast(), local_addr());
    assert!(matches!(nm.receive_arp_packet(req, 5), Err(Error::Failed("MAC address is not set"))));
    let my_mac = EthernetAddress::from_bytes([2, 0, 0, 0, 0, 1]);
    nm.set_my_mac_addr(my_mac);
    assert!(nm.my_mac_addr().unwrap().is_same(&my_mac));
    let reply = nm.receive_arp_packet(req, 6).unwrap().unwrap();
    assert!(matches!(reply.op(), Ok(ArpOperation::Reply)));
    assert!(reply.target_eth_addr.is_same(&peer_mac));
    assert!(reply.sender_eth_addr.is_same(&my_mac));
    match nm.resolve_mac_addr(ip(10, 0, 2, 2), 7).unwrap() {
        ArpLookup::Resolved(m) => assert!(m.is_same(&peer_mac)),
        _ => panic!("expected a resolved address"),
    }
    let other = ArpPacket::new_with(ArpOperation::Request, peer_mac, ip(10, 0, 2, 2), peer_mac, ip(10, 0, 2, 77));
    assert!(nm.receive_arp_packet(other, 8).unwrap().is_none());
}

#[test]
fn arp_resolution_asks_at_most_once_a_second() {
    let mut nm = NetworkManager::new(local_addr());
    assert!(matches!(nm.resolve_mac_addr(ip(10, 0, 2, 3), 0), Err(Error::Failed("MAC address is not set"))));
    nm.set_my_mac_addr(EthernetAddress::from_bytes([2, 0, 0, 0, 0, 1]));
    match nm.resolve_mac_addr(ip(10, 0, 2, 4), 1000).unwrap() {
        ArpLookup::Request(r) => {
            assert!(matches!(r.op(), Ok(ArpOperation::Request)));
            assert!(r.target_ipv4_addr.is_same(&ip(10, 0, 2, 4)));
            assert!(r.target_eth_addr.is_same(&EthernetAddress::broadcast()));
        }
        _ => panic!("expected a request"),
    }
    assert!(matches!(nm.resolve_mac_addr(ip(10, 0, 2, 4), 1999).unwrap(), ArpLookup::Pending));
    assert!(matches!(nm.resolve_mac_addr(ip(10, 0, 2, 4), 2000).unwrap(), ArpLookup::Request(_)));
}
