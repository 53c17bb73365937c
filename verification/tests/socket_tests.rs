use rust_sfml::error::{Error, STATUS_DISCONNECTED, STATUS_DONE, STATUS_ERROR, STATUS_NOT_READY, STATUS_PARTIAL};
use rust_sfml::error::code_to_err;
use rust_sfml::ip_address::IpAddress;
use rust_sfml::packet::Packet;
use rust_sfml::socket::{packet_frame, IpAndPort, SocketSelector, TcpListener, TcpSocket, UdpSocket};

fn endpoint(port: u16) -> IpAndPort {
    IpAndPort {
        ip: IpAddress::new(127, 0, 0, 1),
        port,
    }
}

#[test]
fn udp_socket_basic_test() {
    let mut socket = UdpSocket::create(1).unwrap();

    socket.set_blocking(false);
    assert!(!socket.is_blocking());

    socket.bind(None, None, STATUS_DONE, 50123).unwrap();
    let port = socket.get_local_port().unwrap();
    assert!(port >= 49152);

    // the transport reported a would-block condition: the receive fails
    assert!(socket
        .receive(vec![0; 1024], 0, endpoint(0), STATUS_NOT_READY)
        .is_err());

    socket.unbind();
    assert!(socket.get_local_port().is_none());
}

#[test]
fn status_codes_map_to_the_error_taxonomy() {
    assert_eq!(code_to_err(STATUS_DONE), Ok(()));
    assert_eq!(code_to_err(STATUS_NOT_READY), Err(Error::NotReady));
    assert_eq!(code_to_err(STATUS_PARTIAL), Err(Error::Partial));
    assert_eq!(code_to_err(STATUS_DISCONNECTED), Err(Error::Disconnected));
    assert_eq!(code_to_err(STATUS_ERROR), Err(Error::OtherError));
}

#[test]
fn tcp_connect_disconnect_and_remote() {
    let mut sock = TcpSocket::create(3).unwrap();
    assert!(sock.get_remote().is_err());
    assert!(sock.get_local_port().is_none());

    let peer = endpoint(4242);
    let timeout = rust_sfml::time::Time::microseconds(0);
    assert!(sock.connect(peer, timeout, STATUS_ERROR, 0).is_err());
    assert!(sock.get_remote().is_err());

    sock.connect(peer, timeout, STATUS_DONE, 50001).unwrap();
    let remote = sock.get_remote().unwrap();
    assert_eq!(remote.port, 4242);
    assert_eq!(remote.ip, IpAddress::new(127, 0, 0, 1));
    assert_eq!(sock.get_local_port(), Some(50001));

    sock.disconnect();
    assert!(sock.get_remote().is_err());
    assert!(sock.get_local_port().is_none());
}

#[test]
fn partial_send_conserves_every_byte() {
    let mut sock = TcpSocket::create(5).unwrap();
    let data = [10u8, 20, 30, 40, 50];

    let rest = sock.send_partial(&data, 2, STATUS_PARTIAL).unwrap();
    assert_eq!(rest, &data[2..]);
    assert_eq!(rest.len() + 2, data.len());

    let rest = sock.send_partial(&data, 5, STATUS_DONE).unwrap();
    assert!(rest.is_empty());

    assert_eq!(
        sock.send_partial(&data, 0, STATUS_DISCONNECTED),
        Err(Error::Disconnected)
    );
}

#[test]
fn tcp_packet_frame_roundtrip() {
    let mut p = Packet::create().unwrap();
    p.write::<u16>(1999).unwrap();
    p.write::<String>("oh:".to_string()).unwrap();
    let payload = p.get_data();

    let frame = packet_frame(&p);
    assert_eq!(frame.len(), payload.len() + 4);
    assert_eq!(&frame[4..], &payload[..]);

    let mut sock = TcpSocket::create(6).unwrap();
    let mut received = Packet::create().unwrap();
    sock.receive_packet(&mut received, &frame, STATUS_DONE)
        .unwrap();
    assert_eq!(received.get_data(), payload);
    assert_eq!(received.read::<u16>().unwrap(), 1999);
    assert_eq!(received.read::<String>().unwrap(), "oh:");
    assert!(received.is_at_end());
}

#[test]
fn tcp_receive_packet_rejects_bad_frames() {
    let mut sock = TcpSocket::create(6).unwrap();
    let mut received = Packet::create().unwrap();
    // header announces 9 payload bytes; only one follows
    let bad = vec![9, 0, 0, 0, 1];
    assert_eq!(
        sock.receive_packet(&mut received, &bad, STATUS_DONE),
        Err(Error::OtherError)
    );
    assert_eq!(received.get_data_size(), 0);
    assert_eq!(
        sock.receive_packet(&mut received, &bad, STATUS_DISCONNECTED),
        Err(Error::Disconnected)
    );
}

#[test]
fn tcp_lenient_receive_hands_back_the_filled_prefix() {
    let mut sock = TcpSocket::create(8).unwrap();
    let filled = sock
        .receive(vec![1, 2, 3, 4], 2, STATUS_NOT_READY)
        .unwrap();
    assert_eq!(filled, vec![1, 2]);
}

#[test]
fn listener_accept_honours_blocking_mode() {
    let mut listener = TcpListener::create(10).unwrap();
    assert!(listener.get_local_port().is_err());
    listener.listen(0, None, STATUS_DONE, 50500).unwrap();
    assert_eq!(listener.get_local_port().unwrap(), 50500);

    listener.set_blocking(false);
    assert!(!listener.is_blocking());
    // no pending connection in non-blocking mode is not an error
    let got = listener.accept(STATUS_NOT_READY, endpoint(0), 11).unwrap();
    assert!(got.is_none());

    let peer = endpoint(3333);
    let accepted = listener.accept(STATUS_DONE, peer, 12).unwrap().unwrap();
    assert!(accepted.is_blocking());
    assert_eq!(accepted.get_remote().unwrap().port, 3333);
    assert_eq!(accepted.get_local_port(), Some(50500));

    listener.set_blocking(true);
    assert!(matches!(
        listener.accept(STATUS_NOT_READY, endpoint(0), 13),
        Err(Some(Error::OtherError))
    ));
}

#[test]
fn udp_send_and_receive_model() {
    let mut socket = UdpSocket::create(2).unwrap();
    let target = endpoint(9000);

    assert!(socket.send(&[1, 2, 3], &target, STATUS_DONE).is_ok());
    assert_eq!(
        socket.send(&[1, 2, 3], &target, STATUS_ERROR),
        Err(Error::OtherError)
    );

    let sender = endpoint(9001);
    let got = socket
        .receive(vec![7, 8, 9, 0, 0], 3, sender, STATUS_DONE)
        .unwrap();
    assert_eq!(got.data, vec![7, 8, 9]);
    assert_eq!(got.sender.port, 9001);

    let mut p = Packet::create().unwrap();
    let from = socket
        .receive_packet(&mut p, &vec![0x2A, 0, 0, 0], sender, STATUS_DONE)
        .unwrap();
    assert_eq!(from.port, 9001);
    assert_eq!(p.read::<u32>().unwrap(), 42);

    assert_eq!(UdpSocket::get_max_datagram_size(), 65507);
}

#[test]
fn selector_reports_readiness_only_for_registered_sockets() {
    let mut selector = SocketSelector::create().unwrap();
    let mut ready_socket = UdpSocket::create(21).unwrap();
    let other_socket = UdpSocket::create(22).unwrap();

    selector.add_socket(&mut ready_socket);

    // the transport's poll reports both handles readable
    let report = vec![21u64, 22u64];
    let woke = selector.wait(None, &report);
    assert!(woke);
    assert!(selector.is_socket_ready(&ready_socket));
    assert!(!selector.is_socket_ready(&other_socket));

    // nothing readable: the wait reports a timeout
    let woke = selector.wait(None, &vec![]);
    assert!(!woke);
    assert!(!selector.is_socket_ready(&ready_socket));
}

#[test]
fn selector_membership_copy_and_clear() {
    let mut selector = SocketSelector::create().unwrap();
    let mut a = UdpSocket::create(31).unwrap();
    let mut b = TcpSocket::create(32).unwrap();
    selector.add_socket(&mut a);
    selector.add_socket(&mut b);
    selector.wait(None, &vec![31u64, 32u64]);

    let twin = selector.copy().unwrap();
    assert!(twin.is_socket_ready(&a));
    assert!(twin.is_socket_ready(&b));

    selector.remove_socket(&a);
    assert!(!selector.is_socket_ready(&a));
    assert!(selector.is_socket_ready(&b));
    // the copy's membership is its own
    assert!(twin.is_socket_ready(&a));

    selector.clear();
    assert!(!selector.is_socket_ready(&b));
}
