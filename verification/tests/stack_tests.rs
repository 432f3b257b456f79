use smoltcp_stack::addresses::{IpAddr, IpCidr, Ipv4AddressC, Ipv6AddressC};
use smoltcp_stack::stack::{Clock, SmolSocket, SocketType, Stack, StackType};

fn tcp(rx: usize, tx: usize) -> SmolSocket {
    SmolSocket::new(SocketType::TCP, 0, rx, tx)
}

fn udp(rx: usize, tx: usize) -> SmolSocket {
    SmolSocket::new(SocketType::UDP, 0, rx, tx)
}

#[test]
fn smol_socket_new_keeps_its_fields() {
    let s = SmolSocket::new(SocketType::UDP, 7, 100, 200);
    assert_eq!(s.socket_type, SocketType::UDP);
    assert_eq!(s.socket_handle, 7);
    assert_eq!(s.rx_buffer, 100);
    assert_eq!(s.tx_buffer, 200);
}

#[test]
fn handles_are_given_out_in_order() {
    let mut stack = Stack::new();
    assert_eq!(stack.add_socket_to_stack(tcp(64, 64)), 0);
    assert_eq!(stack.add_socket_to_stack(udp(64, 64)), 1);
    assert_eq!(stack.add_socket_to_stack(tcp(64, 64)), 2);
    assert_eq!(stack.socket_type_of(0), Some(SocketType::TCP));
    assert_eq!(stack.socket_type_of(1), Some(SocketType::UDP));
    assert_eq!(stack.socket_type_of(2), Some(SocketType::TCP));
    assert_eq!(stack.socket_type_of(3), None);
}

#[test]
fn get_handle_skips_a_handle() {
    let mut stack = Stack::new();
    assert_eq!(stack.add_socket_to_stack(tcp(64, 64)), 0);
    assert_eq!(stack.get_handle(), 2);
    assert_eq!(stack.socket_type_of(1), None);
    assert_eq!(stack.add_socket_to_stack(udp(64, 64)), 2);
    assert_eq!(stack.socket_type_of(2), Some(SocketType::UDP));
}

#[test]
fn listen_on_port_zero_is_refused() {
    let mut stack = Stack::new();
    let s = stack.add_socket_to_stack(tcp(64, 64));
    assert_eq!(stack.listen(IpAddr::Ipv4([10, 0, 0, 1]), s, 0), 1);
    assert_eq!(stack.listen(IpAddr::Ipv4([10, 0, 0, 1]), s, 80), 0);
}

#[test]
fn listen_twice_is_refused() {
    let mut stack = Stack::new();
    let s = stack.add_socket_to_stack(tcp(64, 64));
    assert_eq!(stack.listen(IpAddr::Ipv4([10, 0, 0, 1]), s, 80), 0);
    assert_eq!(stack.listen(IpAddr::Ipv4([10, 0, 0, 1]), s, 81), 1);
}

#[test]
fn close_ends_listen() {
    let mut stack = Stack::new();
    let s = stack.add_socket_to_stack(tcp(64, 64));
    assert_eq!(stack.listen(IpAddr::Ipv4([10, 0, 0, 1]), s, 80), 0);
    stack.close(s);
    assert_eq!(stack.listen(IpAddr::Ipv4([10, 0, 0, 1]), s, 80), 0);
}

#[test]
fn connect_needs_an_address_and_ports() {
    let mut stack = Stack::new();
    let s = stack.add_socket_to_stack(tcp(64, 64));
    assert_eq!(stack.connect(IpAddr::Ipv4([0, 0, 0, 0]), 80, s, 49152), 1);
    assert_eq!(stack.connect(IpAddr::Ipv4([10, 0, 0, 1]), 0, s, 49152), 1);
    assert_eq!(stack.connect(IpAddr::Ipv4([10, 0, 0, 1]), 80, s, 0), 1);
    assert_eq!(stack.connect(IpAddr::Ipv4([10, 0, 0, 1]), 80, s, 49152), 0);
    // The socket is now open: a second connect is refused.
    assert_eq!(stack.connect(IpAddr::Ipv4([10, 0, 0, 2]), 80, s, 49153), 1);
}

#[test]
fn connect_on_a_listening_socket_is_refused() {
    let mut stack = Stack::new();
    let s = stack.add_socket_to_stack(tcp(64, 64));
    assert_eq!(stack.listen(IpAddr::Ipv4([10, 0, 0, 1]), s, 80), 0);
    assert_eq!(stack.connect(IpAddr::Ipv4([10, 0, 0, 2]), 80, s, 49152), 1);
}

#[test]
fn close_after_connect_allows_listen() {
    let mut stack = Stack::new();
    let s = stack.add_socket_to_stack(tcp(64, 64));
    assert_eq!(stack.connect(IpAddr::Ipv4([10, 0, 0, 1]), 80, s, 49152), 0);
    assert_eq!(stack.listen(IpAddr::Ipv4([10, 0, 0, 1]), s, 80), 1);
    stack.close(s);
    assert_eq!(stack.listen(IpAddr::Ipv4([10, 0, 0, 1]), s, 80), 0);
}

#[test]
fn bind_once_only() {
    let mut stack = Stack::new();
    let s = stack.add_socket_to_stack(udp(64, 64));
    assert_eq!(stack.bind(s, 0), 1);
    assert_eq!(stack.bind(s, 68), 0);
    assert_eq!(stack.bind(s, 69), 1);
}

#[test]
fn send_on_udp_answers_zero() {
    let mut stack = Stack::new();
    let s = stack.add_socket_to_stack(udp(64, 64));
    assert_eq!(stack.send(s, "hello"), 0);
}

#[test]
fn send_on_unconnected_tcp_is_refused() {
    let mut stack = Stack::new();
    let s = stack.add_socket_to_stack(tcp(64, 64));
    assert_eq!(stack.send(s, "hello"), 1);
}

#[test]
fn recv_with_nothing_queued_is_refused() {
    let mut stack = Stack::new();
    let s = stack.add_socket_to_stack(tcp(64, 64));
    let (r, data) = stack.recv(s);
    assert_eq!(r, 1);
    assert!(data.is_empty());
}

#[test]
fn addresses_are_kept_in_order() {
    let mut stack = Stack::new();
    assert_eq!(stack.add_ip_address(IpAddr::Ipv4([192, 168, 69, 1]), 24), 0);
    assert_eq!(stack.add_ip_address(IpAddr::Ipv6([0xfe, 0x80, 0, 0, 0, 0, 0, 0, 0, 0, 0, 0, 0, 0, 0, 1]), 64), 0);
    let addrs = stack.ip_addresses();
    assert_eq!(addrs.len(), 2);
    assert_eq!(addrs[0], IpCidr { address: IpAddr::Ipv4([192, 168, 69, 1]), prefix_len: 24 });
    assert_eq!(addrs[1].prefix_len, 64);
}

#[test]
fn ethernet_address_is_recorded() {
    let mut stack = Stack::new();
    assert_eq!(stack.ethernet_address(), [0, 0, 0, 0, 0, 0]);
    assert_eq!(stack.add_ethernet_address([0x02, 0, 0, 0, 0, 1]), 0);
    assert_eq!(stack.ethernet_address(), [0x02, 0, 0, 0, 0, 1]);
}

#[test]
fn advance_clock_follows_the_poll_delay() {
    let mut stack = Stack::new();
    assert_eq!(stack.now_millis(), 0);
    assert_eq!(stack.advance_clock(Some(0)), 0);
    assert_eq!(stack.now_millis(), 0);
    assert_eq!(stack.advance_clock(Some(250)), 0);
    assert_eq!(stack.now_millis(), 250);
    assert_eq!(stack.advance_clock(None), 0);
    assert_eq!(stack.now_millis(), 251);
}

#[test]
fn clock_step_wraps_like_instant_plus_duration() {
    let mut clock = Clock::new();
    clock.advance(10);
    assert_eq!(clock.elapsed(), 10);
    clock.advance(u64::MAX);
    assert_eq!(clock.elapsed(), 9);
}

#[test]
fn ipv4_c_address_converts() {
    let a: IpAddr = Ipv4AddressC { ip_address: [127, 0, 0, 1] }.into();
    assert_eq!(a, IpAddr::Ipv4([127, 0, 0, 1]));
}

#[test]
fn ipv6_c_address_converts_big_endian() {
    let a: IpAddr = Ipv6AddressC { ip_address: [0x2001, 0x0db8, 0, 0, 0, 0, 0xff00, 0x0042] }.into();
    assert_eq!(a, IpAddr::Ipv6([0x20, 0x01, 0x0d, 0xb8, 0, 0, 0, 0, 0, 0, 0, 0, 0xff, 0x00, 0x00, 0x42]));
}

#[test]
fn new_stacks_drive_their_device() {
    assert!(matches!(StackType::new_tap_stack(), StackType::Tap(_)));
    assert!(matches!(StackType::new_loopback_stack(), StackType::Loopback(_)));
    assert!(matches!(StackType::new_uknetdev_stack(), StackType::UkNetdevInterface(_)));
}
