use smoltcp_stack::frames::{uknetdev_input, FrameError};
use smoltcp_stack::stack::Stack;
use smoltcp::wire::{IpAddress, Ipv4Address, UdpPacket};

const OWN: [u8; 6] = [0x02, 0, 0, 0, 0, 0x01];
const PEER: [u8; 6] = [0x02, 0, 0, 0, 0, 0x02];

/// An Ethernet frame from PEER to OWN carrying an IPv4 UDP datagram from
/// 10.0.0.2:1234 to 10.0.0.1:5678 with a 4-octet payload.
fn udp_frame() -> Vec<u8> {
    let mut f = Vec::new();
    f.extend_from_slice(&OWN);
    f.extend_from_slice(&PEER);
    f.extend_from_slice(&[0x08, 0x00]);
    // IPv4 header: version 4, IHL 5, total length 32, TTL 64, UDP.
    f.extend_from_slice(&[0x45, 0, 0, 32, 0, 0, 0, 0, 64, 17, 0, 0]);
    f.extend_from_slice(&[10, 0, 0, 2]);
    f.extend_from_slice(&[10, 0, 0, 1]);
    // UDP header: ports 1234 -> 5678, length 12, no checksum.
    f.extend_from_slice(&[0x04, 0xd2, 0x16, 0x2e, 0, 12, 0, 0]);
    f.extend_from_slice(b"ping");
    f
}

#[test]
fn uk_recv_reflects_a_udp_frame() {
    let mut f = udp_frame();
    assert!(Stack::uk_recv(&mut f, OWN));
    assert_eq!(&f[0..6], &PEER);
    assert_eq!(&f[6..12], &OWN);
    assert_eq!(&f[26..30], &[10, 0, 0, 1]);
    assert_eq!(&f[30..34], &[10, 0, 0, 2]);
    assert_eq!(&f[34..36], &[0x16, 0x2e]);
    assert_eq!(&f[36..38], &[0x04, 0xd2]);
    assert_eq!(&f[42..46], b"ping");
}

#[test]
fn uk_recv_twice_gives_the_frame_back() {
    let received = udp_frame();
    let mut f = received.clone();
    assert!(Stack::uk_recv(&mut f, OWN));
    assert!(Stack::uk_recv(&mut f, PEER));
    assert_eq!(f, received);
}

#[test]
fn uk_recv_ignores_frames_for_others() {
    let received = udp_frame();
    let mut f = received.clone();
    assert!(!Stack::uk_recv(&mut f, PEER));
    assert_eq!(f, received);
}

#[test]
fn uk_recv_swaps_only_ethernet_for_other_protocols() {
    let mut f = udp_frame();
    f[12] = 0x86;
    f[13] = 0xdd;
    let mut expected = f.clone();
    expected[0..6].copy_from_slice(&PEER);
    expected[6..12].copy_from_slice(&OWN);
    assert!(Stack::uk_recv(&mut f, OWN));
    assert_eq!(f, expected);
}

#[test]
fn uk_recv_keeps_tcp_ports() {
    let mut f = udp_frame();
    f[23] = 6;
    assert!(Stack::uk_recv(&mut f, OWN));
    assert_eq!(&f[26..30], &[10, 0, 0, 1]);
    assert_eq!(&f[34..36], &[0x04, 0xd2]);
}

#[test]
fn check_frame_refuses_a_short_frame() {
    let f = vec![0u8; 13];
    let received = f.clone();
    assert_eq!(Stack::check_frame(&f, OWN), Err(FrameError::Ethernet));
    assert_eq!(f, received);
}

#[test]
fn check_frame_refuses_a_truncated_ip_packet() {
    let mut f = udp_frame();
    f[17] = 200;
    let received = f.clone();
    assert_eq!(Stack::check_frame(&f, OWN), Err(FrameError::Ipv4));
    assert_eq!(f, received);
}

#[test]
fn check_frame_refuses_a_malformed_udp_datagram() {
    let mut f = udp_frame();
    f[39] = 4;
    let received = f.clone();
    assert_eq!(Stack::check_frame(&f, OWN), Err(FrameError::Udp));
    assert_eq!(f, received);
}

/// The EtherType octets 08 00, read little-endian, give `ETH_IPV4`.
#[test]
fn uknetdev_input_swaps_addresses_and_ports() {
    let mut f = udp_frame();
    assert_eq!(uknetdev_input(&mut f), 0);
    assert_eq!(&f[0..6], &OWN);
    assert_eq!(&f[26..30], &[10, 0, 0, 1]);
    assert_eq!(&f[30..34], &[10, 0, 0, 2]);
    assert_eq!(&f[34..36], &[0x16, 0x2e]);
    assert_eq!(&f[36..38], &[0x04, 0xd2]);
}

#[test]
fn uknetdev_input_twice_gives_the_packet_back() {
    let received = udp_frame();
    let mut f = received.clone();
    uknetdev_input(&mut f);
    uknetdev_input(&mut f);
    assert_eq!(f, received);
}

#[test]
fn uknetdev_input_leaves_other_packets() {
    let mut f = udp_frame();
    f[23] = 6;
    let received = f.clone();
    assert_eq!(uknetdev_input(&mut f), 0);
    assert_eq!(f, received);
    let mut g = udp_frame();
    g[12] = 0x86;
    g[13] = 0xdd;
    let received = g.clone();
    assert_eq!(uknetdev_input(&mut g), 0);
    assert_eq!(g, received);
}


#[test]
fn uk_recv_keeps_the_ipv4_checksum_valid() {
    let mut f = udp_frame();
    {
        let mut ip = smoltcp::wire::Ipv4Packet::new_unchecked(&mut f[14..]);
        ip.fill_checksum();
        assert!(ip.verify_checksum());
    }
    assert!(Stack::uk_recv(&mut f, OWN));
    let ip = smoltcp::wire::Ipv4Packet::new_unchecked(&f[14..]);
    assert!(ip.verify_checksum());
}

#[test]
fn check_frame_accepts_what_uk_recv_takes() {
    let f = udp_frame();
    assert_eq!(Stack::check_frame(&f, OWN), Ok(true));
    assert_eq!(Stack::check_frame(&f, PEER), Ok(false));
    assert_eq!(f, udp_frame());
}

#[test]
fn uk_recv_keeps_the_udp_checksum_valid() {
    let peer_ip = IpAddress::Ipv4(Ipv4Address::new(10, 0, 0, 2));
    let own_ip = IpAddress::Ipv4(Ipv4Address::new(10, 0, 0, 1));
    let mut f = udp_frame();
    {
        let mut udp = UdpPacket::new_unchecked(&mut f[34..46]);
        udp.fill_checksum(&peer_ip, &own_ip);
        assert!(udp.verify_checksum(&peer_ip, &own_ip));
        assert_ne!(udp.checksum(), 0);
    }
    assert!(Stack::uk_recv(&mut f, OWN));
    let udp = UdpPacket::new_unchecked(&f[34..46]);
    assert!(udp.verify_checksum(&own_ip, &peer_ip));
}
