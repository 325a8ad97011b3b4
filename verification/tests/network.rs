use supernova::network::{
    address_from_parts, port_from_text, split_host_port, NetMessage, NetMessageHeader, Connection, ConnectionState, IpAddress, NetAddress, NetworkError, ProtocolType, ReliablePacket, Socket,
    SocketOptions, SocketState, SocketType, TcpStream, UdpSocket,
};

fn addr(last: u8, port: u16) -> NetAddress {
    NetAddress::new(IpAddress::V4(10, 0, 0, last), port)
}

#[test]
fn address_classification() {
    let lo = NetAddress::new(IpAddress::localhost(), 80);
    assert!(lo.is_loopback());
    assert!(lo.is_ipv4());
    assert!(!lo.is_ipv6());
    assert!(NetAddress::new(IpAddress::V4(127, 5, 6, 7), 1).is_loopback());
    assert!(NetAddress::new(IpAddress::V4(224, 0, 0, 1), 1).is_multicast());
    assert!(NetAddress::new(IpAddress::V4(239, 255, 0, 1), 1).is_multicast());
    assert!(!NetAddress::new(IpAddress::V4(240, 0, 0, 1), 1).is_multicast());
    let v6lo = NetAddress::new(IpAddress::V6(0, 0, 0, 0, 0, 0, 0, 1), 9);
    assert!(v6lo.is_loopback());
    assert!(v6lo.is_ipv6());
    assert!(NetAddress::new(IpAddress::V6(0xff02, 0, 0, 0, 0, 0, 0, 1), 9).is_multicast());
    assert!(!addr(1, 2).is_loopback());
}

#[test]
fn packet_checksum_values() {
    let p = ReliablePacket::with_timestamp(1, 2, vec![1], 77);
    assert_eq!(p.checksum, 0xDEECE66D);
    assert_eq!(p.timestamp, 77);
    assert_eq!(p.flags, 0);
    assert!(p.verify_checksum());
    let q = ReliablePacket::with_timestamp(0, 0, vec![1, 2], 0);
    assert_eq!(q.checksum, 0xDEECE66Du32 ^ 0xDEECE66Du32.wrapping_mul(2));
    let empty = ReliablePacket::new(3, 4, vec![]);
    assert_eq!(empty.checksum, 0);
    assert_eq!(empty.sequence, 3);
    assert_eq!(empty.ack, 4);
}

#[test]
fn corrupted_packet_fails_check() {
    let mut p = ReliablePacket::with_timestamp(1, 1, vec![10, 20, 30], 0);
    assert!(p.verify_checksum());
    p.data[1] = 21;
    assert!(!p.verify_checksum());
}

#[test]
fn fresh_connection_defaults() {
    let c = Connection::new(addr(1, 1000), addr(2, 2000), SocketType::Stream, ProtocolType::TCP);
    assert_eq!(c.state(), ConnectionState::Disconnected);
    assert!(!c.is_active());
    assert_eq!(c.send_window(), 64);
    assert_eq!(c.recv_window(), 64);
    assert_eq!(c.available_recv(), 64);
    assert_eq!(*c.local_addr(), addr(1, 1000));
    assert_eq!(*c.remote_addr(), addr(2, 2000));
    assert!(c.verify_checksum());
    assert!(c.within_timeout_at(123));
    let mut d = c.clone();
    assert!(d.update_timeout());
}

#[test]
fn inactive_connection_refuses_to_send() {
    let mut c = Connection::new(addr(1, 1), addr(2, 2), SocketType::Stream, ProtocolType::TCP);
    match c.send_data(&[1, 2, 3]) {
        Err(NetworkError::ConnectionFailed(m)) => assert_eq!(m, "Connection is not active"),
        other => panic!("unexpected {:?}", other),
    }
}

#[test]
fn process_packet_buffers_data_and_queues_ack() {
    let mut c = Connection::new(addr(1, 1), addr(2, 2), SocketType::Datagram, ProtocolType::UDP);
    assert_eq!(c.receive_data(), None);
    let p = ReliablePacket::with_timestamp(5, 3, vec![7, 8], 0);
    assert_eq!(c.process_packet(p), Ok(()));
    assert_eq!(c.available_recv(), 62);
    assert!(!c.within_timeout_at(u64::MAX));
    assert!(c.verify_checksum());
    assert_eq!(c.receive_data(), Some(vec![7, 8]));
    assert_eq!(c.receive_data(), None);
    assert_eq!(c.send_ack(9), Ok(()));
    assert!(c.verify_checksum());
}

#[test]
fn socket_listen_accept_connect() {
    let mut s = Socket::new(SocketType::Stream, ProtocolType::TCP).unwrap();
    assert!(matches!(s.accept(), Err(NetworkError::SocketError(_))));
    assert_eq!(s.bind(addr(1, 8080)), Ok(()));
    assert_eq!(s.connect(addr(2, 9000)), Ok(()));
    assert_eq!(s.listen(16), Ok(()));
    assert!(matches!(s.bind(addr(1, 1)), Err(NetworkError::SocketError(_))));
    assert!(matches!(s.connect(addr(3, 1)), Err(NetworkError::SocketError(_))));
    let c = s.accept().unwrap();
    assert_eq!(c.state(), ConnectionState::Connecting);
    assert_eq!(*c.remote_addr(), addr(2, 9000));
    assert_eq!(*c.local_addr(), addr(1, 8080));
    assert!(matches!(s.send(&[1]), Err(NetworkError::SocketError(_))));
    assert_eq!(s.close(), Ok(()));
    assert!(matches!(s.accept(), Err(NetworkError::SocketError(_))));
}

#[test]
fn socket_errors_for_datagram() {
    let mut s = Socket::new(SocketType::Datagram, ProtocolType::UDP).unwrap();
    assert_eq!(
        s.listen(1),
        Err(NetworkError::SocketError(String::from("Listen only supported for stream sockets")))
    );
    assert_eq!(
        s.connect(addr(1, 1)),
        Err(NetworkError::SocketError(String::from("Connect only supported for stream sockets")))
    );
    assert_eq!(s.send(&[1]), Err(NetworkError::SocketError(String::from("Socket is not connected"))));
    let mut buf = [0u8; 4];
    assert_eq!(s.receive(&mut buf), Ok(0));
    assert!(!s.is_readable());
    assert!(!s.is_writable());
}

#[test]
fn tcp_and_udp_wrappers() {
    let mut t = TcpStream::new().unwrap();
    assert_eq!(t.connect(addr(4, 80)), Ok(()));
    assert!(t.send(&[1]).is_err());
    let mut buf = [0u8; 2];
    assert_eq!(t.receive(&mut buf), Ok(0));
    assert_eq!(t.close(), Ok(()));
    let mut u = UdpSocket::new().unwrap();
    assert_eq!(u.bind(addr(5, 5000)), Ok(()));
    assert!(u.send_to(&[1], addr(6, 6000)).is_err());
    assert_eq!(u.receive_from(&mut buf), Ok((0, NetAddress::new(IpAddress::localhost(), 0))));
    assert_eq!(u.close(), Ok(()));
}

#[test]
fn socket_options_setters() {
    let mut o = SocketOptions::default();
    o.set_keep_alive(true);
    o.set_reuse_address(true);
    o.set_reuse_port(false);
    o.set_tcp_no_delay(true);
    o.set_tcp_keep_alive(true);
    o.set_udp_checksum(false);
    o.set_timeout(250);
    let _ = SocketState::Closed;
}

#[test]
fn network_error_messages() {
    let m = String::from("x");
    assert_eq!(NetworkError::ConnectionFailed(m.clone()).message(), "Connection failed: x");
    assert_eq!(NetworkError::ConnectionTimeout(m.clone()).message(), "Connection timed out: x");
    assert_eq!(NetworkError::SocketError(m.clone()).message(), "Socket error: x");
    assert_eq!(NetworkError::ReceiveFailed(m.clone()).message(), "Receive failed: x");
    assert_eq!(NetworkError::ConnectionAbortedByLocal(m.clone()).message(), "Connection aborted by local: x");
    assert_eq!(NetworkError::Unknown(m).message(), "Unknown error: x");
}

#[test]
fn message_size_counts_header_and_data() {
    let m = NetMessage::with_timestamp(1, 2, vec![1, 2, 3], addr(1, 1), addr(2, 2), 5);
    let header = std::mem::size_of::<NetMessageHeader>() as u32;
    assert_eq!(m.header.size, header + 3);
    assert_eq!(m.total_size(), (header + 3) as usize);
    assert_eq!(m.header.id, 1);
    assert_eq!(m.header.sequence, 2);
    assert_eq!(m.header.timestamp, 5);
    assert_eq!(m.header.flags, 0);
    assert_eq!(m.sender, addr(1, 1));
    let n = NetMessage::new(7, 8, vec![], addr(1, 1), addr(2, 2));
    assert_eq!(n.header.size, header);
}

#[test]
fn address_text_splits_at_single_colon() {
    assert_eq!(
        split_host_port("127.0.0.1:8080"),
        Ok((String::from("127.0.0.1"), String::from("8080")))
    );
    assert_eq!(split_host_port(":"), Ok((String::new(), String::new())));
    let bad = NetworkError::InvalidAddress(String::from("Address must be in format 'ip:port'"));
    assert_eq!(split_host_port("localhost"), Err(bad.clone()));
    assert_eq!(split_host_port("::1:80"), Err(bad));
}

#[test]
fn port_text_parsing() {
    assert_eq!(port_from_text("8080"), Ok(8080));
    assert_eq!(port_from_text("0"), Ok(0));
    assert_eq!(port_from_text("65535"), Ok(65535));
    assert_eq!(port_from_text("+80"), Ok(80));
    assert_eq!(
        port_from_text(""),
        Err(NetworkError::InvalidAddress(String::from("Invalid port: ")))
    );
    assert_eq!(
        port_from_text("65536"),
        Err(NetworkError::InvalidAddress(String::from("Invalid port: 65536")))
    );
    assert_eq!(
        port_from_text("http"),
        Err(NetworkError::InvalidAddress(String::from("Invalid port: http")))
    );
}

#[test]
fn address_from_parts_orders_errors() {
    let ip = IpAddress::V4(10, 0, 0, 1);
    assert_eq!(address_from_parts("10.0.0.1", Some(ip), "80"), Ok(NetAddress::new(ip, 80)));
    assert_eq!(
        address_from_parts("nope", None, "bad"),
        Err(NetworkError::InvalidAddress(String::from("Invalid IP address: nope")))
    );
    assert_eq!(
        address_from_parts("10.0.0.1", Some(ip), "bad"),
        Err(NetworkError::InvalidAddress(String::from("Invalid port: bad")))
    );
}

#[test]
fn address_from_string() {
    assert_eq!(
        NetAddress::from_string("127.0.0.1:8080"),
        Ok(NetAddress::new(IpAddress::V4(127, 0, 0, 1), 8080))
    );
    assert_eq!(
        NetAddress::from_string("192.168.1.20:0"),
        Ok(NetAddress::new(IpAddress::V4(192, 168, 1, 20), 0))
    );
    let format = NetworkError::InvalidAddress(String::from("Address must be in format 'ip:port'"));
    assert_eq!(NetAddress::from_string("127.0.0.1"), Err(format.clone()));
    assert_eq!(NetAddress::from_string("::1:8080"), Err(format));
    assert_eq!(
        NetAddress::from_string("localhost:8080"),
        Err(NetworkError::InvalidAddress(String::from("Invalid IP address: localhost")))
    );
    assert_eq!(
        NetAddress::from_string("localhost:http"),
        Err(NetworkError::InvalidAddress(String::from("Invalid IP address: localhost")))
    );
    assert_eq!(
        NetAddress::from_string("10.0.0.1:99999"),
        Err(NetworkError::InvalidAddress(String::from("Invalid port: 99999")))
    );
    assert!(NetAddress::from_string("10.0.0.1:80").unwrap().is_loopback() == false);
    assert!(NetAddress::from_string("127.0.0.1:80").unwrap().is_loopback());
}
