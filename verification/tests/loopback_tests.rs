use std::collections::BTreeMap;

use smoltcp::iface::{EthernetInterface, EthernetInterfaceBuilder, NeighborCache};
use smoltcp::phy::Loopback;
use smoltcp::time::Instant;
use smoltcp::wire::{EthernetAddress, IpAddress, IpCidr};
use smoltcp_stack::addresses::IpAddr;
use smoltcp_stack::stack::{SmolSocket, SocketType, Stack};

fn loopback_interface(stack: &Stack) -> EthernetInterface<'static, Loopback> {
    let cidrs: Vec<IpCidr> = stack
        .ip_addresses()
        .iter()
        .map(|c| match c.address {
            IpAddr::Ipv4(o) => IpCidr::new(IpAddress::v4(o[0], o[1], o[2], o[3]), c.prefix_len),
            IpAddr::Ipv6(o) => IpCidr::new(IpAddress::Ipv6(smoltcp::wire::Ipv6Address(o)), c.prefix_len),
        })
        .collect();
    EthernetInterfaceBuilder::new(Loopback::new())
        .ethernet_addr(EthernetAddress(stack.ethernet_address()))
        .neighbor_cache(NeighborCache::new(BTreeMap::new()))
        .ip_addrs(cidrs)
        .finalize()
}

fn poll(stack: &mut Stack, iface: &mut EthernetInterface<'static, Loopback>, rounds: usize) {
    for _ in 0..rounds {
        let now = Instant::from_millis(stack.now_millis());
        let _ = iface.poll(stack.sockets_mut(), now);
        let delay = iface.poll_delay(stack.sockets(), now).map(|d| d.total_millis());
        stack.advance_clock(delay);
    }
}

#[test]
fn a_message_sent_over_loopback_is_received() {
    let mut stack = Stack::new();
    stack.add_ethernet_address([0x02, 0, 0, 0, 0, 0x01]);
    stack.add_ip_address(IpAddr::Ipv4([127, 0, 0, 1]), 8);
    let server = stack.add_socket_to_stack(SmolSocket::new(SocketType::TCP, 0, 1024, 1024));
    let client = stack.add_socket_to_stack(SmolSocket::new(SocketType::TCP, 0, 1024, 1024));
    let mut iface = loopback_interface(&stack);

    assert_eq!(stack.listen(IpAddr::Ipv4([127, 0, 0, 1]), server, 1234), 0);
    assert_eq!(stack.connect(IpAddr::Ipv4([127, 0, 0, 1]), 1234, client, 65000), 0);
    poll(&mut stack, &mut iface, 20);

    assert_eq!(stack.send(client, "hello"), 0);
    poll(&mut stack, &mut iface, 20);

    let (r, data) = stack.recv(server);
    assert_eq!(r, 0);
    assert_eq!(data, b"hello".to_vec());
    let (r, data) = stack.recv(server);
    assert_eq!(r, 1);
    assert!(data.is_empty());
}

#[test]
fn send_queues_only_what_fits() {
    let mut stack = Stack::new();
    stack.add_ethernet_address([0x02, 0, 0, 0, 0, 0x01]);
    stack.add_ip_address(IpAddr::Ipv4([127, 0, 0, 1]), 8);
    let server = stack.add_socket_to_stack(SmolSocket::new(SocketType::TCP, 0, 1024, 1024));
    let client = stack.add_socket_to_stack(SmolSocket::new(SocketType::TCP, 0, 1024, 4));
    let mut iface = loopback_interface(&stack);

    assert_eq!(stack.listen(IpAddr::Ipv4([127, 0, 0, 1]), server, 1234), 0);
    assert_eq!(stack.connect(IpAddr::Ipv4([127, 0, 0, 1]), 1234, client, 65000), 0);
    poll(&mut stack, &mut iface, 20);

    assert_eq!(stack.send(client, "hello"), 0);
    poll(&mut stack, &mut iface, 20);

    let (r, data) = stack.recv(server);
    assert_eq!(r, 0);
    assert_eq!(data, b"hell".to_vec());
}
