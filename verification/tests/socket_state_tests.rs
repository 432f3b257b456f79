use smoltcp::socket::{Socket, TcpSocket, TcpState, UdpSocket};
use smoltcp::wire::{IpAddress, IpEndpoint};
use smoltcp_stack::addresses::IpAddr;
use smoltcp_stack::stack::{SmolSocket, SocketType, Stack};

/// The `i`-th socket of the stack's set, in slot order.
fn nth_socket(stack: &Stack, i: usize) -> &Socket<'static> {
    stack.sockets().iter().nth(i).unwrap()
}

fn tcp_at(stack: &Stack, i: usize) -> &TcpSocket<'static> {
    match nth_socket(stack, i) {
        Socket::Tcp(s) => s,
        _ => panic!("not a TCP socket"),
    }
}

fn udp_at(stack: &Stack, i: usize) -> &UdpSocket<'static> {
    match nth_socket(stack, i) {
        Socket::Udp(s) => s,
        _ => panic!("not a UDP socket"),
    }
}

#[test]
fn added_sockets_have_the_requested_buffers() {
    let mut stack = Stack::new();
    stack.add_socket_to_stack(SmolSocket::new(SocketType::TCP, 0, 100, 200));
    stack.add_socket_to_stack(SmolSocket::new(SocketType::UDP, 0, 300, 400));
    let t = tcp_at(&stack, 0);
    assert_eq!(t.recv_capacity(), 100);
    assert_eq!(t.send_capacity(), 200);
    assert_eq!(t.state(), TcpState::Closed);
    let u = udp_at(&stack, 1);
    assert_eq!(u.payload_recv_capacity(), 300);
    assert_eq!(u.payload_send_capacity(), 400);
    assert_eq!(u.packet_recv_capacity(), 1);
    assert_eq!(u.packet_send_capacity(), 1);
    assert_eq!(u.endpoint().port, 0);
}

#[test]
fn listen_records_the_local_endpoint() {
    let mut stack = Stack::new();
    let s = stack.add_socket_to_stack(SmolSocket::new(SocketType::TCP, 0, 64, 64));
    assert_eq!(stack.listen(IpAddr::Ipv4([10, 0, 0, 1]), s, 80), 0);
    let t = tcp_at(&stack, 0);
    assert_eq!(t.state(), TcpState::Listen);
    assert_eq!(t.local_endpoint(), IpEndpoint::new(IpAddress::v4(10, 0, 0, 1), 80));
}

#[test]
fn connect_records_both_endpoints() {
    let mut stack = Stack::new();
    let s = stack.add_socket_to_stack(SmolSocket::new(SocketType::TCP, 0, 64, 64));
    assert_eq!(stack.connect(IpAddr::Ipv4([10, 0, 0, 2]), 80, s, 5000), 0);
    let t = tcp_at(&stack, 0);
    assert_eq!(t.state(), TcpState::SynSent);
    assert_eq!(t.remote_endpoint(), IpEndpoint::new(IpAddress::v4(10, 0, 0, 2), 80));
    assert_eq!(t.local_endpoint(), IpEndpoint::new(IpAddress::v4(0, 0, 0, 0), 5000));
}

#[test]
fn bind_records_the_port_on_any_address() {
    let mut stack = Stack::new();
    let s = stack.add_socket_to_stack(SmolSocket::new(SocketType::UDP, 0, 64, 64));
    assert_eq!(stack.bind(s, 7), 0);
    assert_eq!(udp_at(&stack, 0).endpoint(), IpEndpoint::new(IpAddress::Unspecified, 7));
}

#[test]
fn a_stack_built_the_same_way_ends_the_same() {
    let build = |rx: usize| {
        let mut stack = Stack::new();
        let a = stack.add_socket_to_stack(SmolSocket::new(SocketType::TCP, 9, rx, rx));
        let b = stack.add_socket_to_stack(SmolSocket::new(SocketType::UDP, 3, rx, rx));
        (stack, a, b)
    };
    let (s1, a1, b1) = build(65535);
    let (s2, a2, b2) = build(65535);
    assert_eq!((a1, b1), (a2, b2));
    assert_eq!((a1, b1), (0, 1));
    assert_eq!(tcp_at(&s1, 0).recv_capacity(), tcp_at(&s2, 0).recv_capacity());
    assert_eq!(tcp_at(&s1, 0).recv_capacity(), 65535);
    assert_eq!(udp_at(&s1, 1).payload_recv_capacity(), 65535);
}
