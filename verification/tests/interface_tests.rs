use smoltcp::socket::Socket;
use smoltcp_stack::addresses::{IpAddr, Ipv4AddressC};
use smoltcp_stack::interface::{
    add_ethernet_address, add_ipv4_address, add_ipv6_address, add_socket, add_socket_with_buffer,
    smoltcp_bind, smoltcp_close, smoltcp_connect, smoltcp_listen, smoltcp_recv, smoltcp_send,
    smoltcp_uk_send, socket_type_from_code, DEFAULT_BUFFER_SIZE, ETH_IPV4, ETH_IPV6,
};
use smoltcp_stack::stack::{SocketType, StackType};
use smoltcp_stack::uknetdev_interface::{UkNetdevInterface, UKNETDEV_BUFFER_SIZE};

#[test]
fn socket_type_codes() {
    assert_eq!(socket_type_from_code(0), Some(SocketType::TCP));
    assert_eq!(socket_type_from_code(1), Some(SocketType::UDP));
    assert_eq!(socket_type_from_code(2), None);
    assert_eq!(socket_type_from_code(255), None);
}

#[test]
fn ethertype_constants_as_a_little_endian_host_reads_them() {
    assert_eq!(ETH_IPV4, u16::from_le_bytes([0x08, 0x00]));
    assert_eq!(ETH_IPV6, u16::from_le_bytes([0x86, 0xdd]));
}

#[test]
fn add_socket_gives_handles_in_order() {
    let mut stack = StackType::new_loopback_stack();
    assert_eq!(add_socket(&mut stack, 0), 0);
    assert_eq!(add_socket(&mut stack, 1), 1);
    assert_eq!(add_socket_with_buffer(&mut stack, 0, 1024, 2048), 2);
    match &stack {
        StackType::Loopback(s) => {
            assert_eq!(s.socket_type_of(0), Some(SocketType::TCP));
            assert_eq!(s.socket_type_of(1), Some(SocketType::UDP));
            assert_eq!(s.socket_type_of(2), Some(SocketType::TCP));
        }
        _ => panic!("the stack changed its device"),
    }
    assert_eq!(DEFAULT_BUFFER_SIZE, 65535);
}

#[test]
fn uknetdev_stack_refuses_tcp_calls() {
    let mut stack = StackType::new_uknetdev_stack();
    let s = add_socket(&mut stack, 0);
    let ip = Ipv4AddressC { ip_address: [10, 0, 0, 1] };
    assert_eq!(smoltcp_listen(&mut stack, ip, s, 80), 1);
    assert_eq!(smoltcp_connect(&mut stack, ip, 80, s, 49152), 1);
    assert_eq!(smoltcp_send(&mut stack, s, "hello"), 1);
    let (r, data) = smoltcp_recv(&mut stack, s);
    assert_eq!(r, 1);
    assert!(data.is_empty());
    smoltcp_close(&mut stack, s);
    assert_eq!(smoltcp_uk_send(&mut stack), 1);
}

#[test]
fn loopback_stack_listens_through_the_c_calls() {
    let mut stack = StackType::new_loopback_stack();
    let s = add_socket(&mut stack, 0);
    let ip = Ipv4AddressC { ip_address: [127, 0, 0, 1] };
    assert_eq!(smoltcp_listen(&mut stack, ip, s, 80), 0);
    assert_eq!(smoltcp_listen(&mut stack, ip, s, 80), 1);
    smoltcp_close(&mut stack, s);
    assert_eq!(smoltcp_listen(&mut stack, ip, s, 80), 0);
    assert_eq!(smoltcp_uk_send(&mut stack), 1);
}

#[test]
fn tap_stack_connects_through_the_c_calls() {
    let mut stack = StackType::new_tap_stack();
    let s = add_socket(&mut stack, 0);
    let ip = Ipv4AddressC { ip_address: [192, 168, 69, 100] };
    assert_eq!(smoltcp_connect(&mut stack, ip, 80, s, 49500), 0);
    assert_eq!(smoltcp_send(&mut stack, s, "GET /"), 1);
}

#[test]
fn bind_works_on_every_stack() {
    for mut stack in [StackType::new_tap_stack(), StackType::new_loopback_stack(), StackType::new_uknetdev_stack()] {
        let s = add_socket(&mut stack, 1);
        assert_eq!(smoltcp_bind(&mut stack, s, 6969), 0);
        assert_eq!(smoltcp_bind(&mut stack, s, 6970), 1);
    }
}

#[test]
fn addresses_through_the_c_calls() {
    let mut stack = StackType::new_loopback_stack();
    assert_eq!(add_ipv4_address(&mut stack, 127, 0, 0, 1, 8), 0);
    assert_eq!(add_ipv6_address(&mut stack, 0xfdaa, 0, 0, 0, 0, 0, 0, 1, 64), 0);
    assert_eq!(add_ethernet_address(&mut stack, 0x02, 0, 0, 0, 0, 1), 0);
    match &stack {
        StackType::Loopback(s) => {
            let addrs = s.ip_addresses();
            assert_eq!(addrs[0].address, IpAddr::Ipv4([127, 0, 0, 1]));
            assert_eq!(addrs[0].prefix_len, 8);
            assert_eq!(addrs[1].address, IpAddr::Ipv6([0xfd, 0xaa, 0, 0, 0, 0, 0, 0, 0, 0, 0, 0, 0, 0, 0, 1]));
            assert_eq!(addrs[1].prefix_len, 64);
            assert_eq!(s.ethernet_address(), [0x02, 0, 0, 0, 0, 1]);
        }
        _ => panic!("the stack changed its device"),
    }
}

#[test]
fn uknetdev_device_starts_zeroed() {
    let (rx, tx) = UkNetdevInterface::new().into_buffers();
    assert_eq!(rx.len(), UKNETDEV_BUFFER_SIZE);
    assert_eq!(tx.len(), UKNETDEV_BUFFER_SIZE);
    assert!(rx.iter().all(|b| *b == 0));
    assert!(tx.iter().all(|b| *b == 0));
}

#[test]
fn add_socket_uses_buffers_of_65535_octets() {
    let mut stack = StackType::new_loopback_stack();
    add_socket(&mut stack, 0);
    add_socket(&mut stack, 1);
    add_socket_with_buffer(&mut stack, 0, 10, 20);
    let sockets: Vec<&Socket<'static>> = stack.stack_mut().sockets().iter().collect();
    match (sockets[0], sockets[1], sockets[2]) {
        (Socket::Tcp(t), Socket::Udp(u), Socket::Tcp(t2)) => {
            assert_eq!((t.recv_capacity(), t.send_capacity()), (65535, 65535));
            assert_eq!((u.payload_recv_capacity(), u.payload_send_capacity()), (65535, 65535));
            assert_eq!((t2.recv_capacity(), t2.send_capacity()), (10, 20));
        }
        _ => panic!("unexpected socket kinds"),
    }
}
