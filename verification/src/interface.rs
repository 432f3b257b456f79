//! The operations that the C side calls on a stack, whatever device it
//! drives: socket kinds coded as bytes, default buffer sizes, and which
//! operations a uknetdev stack refuses.

use vstd::prelude::*;
use vstd::string::StringSliceAdditionalSpecFns;
use crate::addresses::{IpAddr, Ipv4AddressC, Ipv6AddressC, ipv6_octets};
use crate::stack::{SmolSocket, SocketType, Stack, StackType, buffers_fit};

verus! {

/// EtherType of IPv4 (0x0800) as a little-endian host reads the field.
pub const ETH_IPV4: u16 = 8;

/// EtherType of IPv6 (0x86DD) as a little-endian host reads the field.
pub const ETH_IPV6: u16 = 56710;

/// IP protocol number of UDP.
pub const PROTO_UDP: u8 = 17;

/// Length of an Ethernet header.
pub const ETH_HEADER_SIZE: usize = 14;

/// Length of an IPv4 header without options.
pub const IP_HEADER_SIZE: usize = 20;

/// Length of a UDP header.
pub const UDP_HEADER_SIZE: usize = 8;

/// Size of the receive and transmit buffers of a socket added without
/// sizes.
pub const DEFAULT_BUFFER_SIZE: usize = 65535;

/// The socket kind that the C side codes as `code`: 0 for TCP, 1 for UDP.
pub open spec fn socket_type_spec(code: u8) -> Option<SocketType> {
    if code == 0 {
        Some(SocketType::TCP)
    } else if code == 1 {
        Some(SocketType::UDP)
    } else {
        None
    }
}

/// The code of a socket kind on the C side.
pub open spec fn socket_type_code(t: SocketType) -> u8 {
    match t {
        SocketType::TCP => 0,
        SocketType::UDP => 1,
    }
}

/// Decodes the C side's code of a socket kind; `None` for an unknown code.
pub fn socket_type_from_code(code: u8) -> (r: Option<SocketType>)
    ensures
        r == socket_type_spec(code),
{
    match code {
        0 => Some(SocketType::TCP),
        1 => Some(SocketType::UDP),
        _ => None,
    }
}

/// Every socket kind goes through its code and back unchanged.
pub proof fn lemma_socket_type_code_roundtrip(t: SocketType)
    ensures
        socket_type_spec(socket_type_code(t)) == Some(t),
{
}

/// Adds a socket of the kind coded by `socket_type` (which must be 0 or 1;
/// another code panics) with buffers of `rx_buffer` and `tx_buffer` octets,
/// and returns its handle.
pub fn add_socket_with_buffer(stack: &mut StackType, socket_type: u8, rx_buffer: usize, tx_buffer: usize) -> (r: u8)
    requires
        old(stack).stack().wf(),
        old(stack).stack().next_handle() < 255,
        socket_type_spec(socket_type) is Some,
        buffers_fit(socket_type_spec(socket_type).unwrap(), rx_buffer, tx_buffer),
    ensures
        final(stack).stack().wf(),
        final(stack).same_device(&*old(stack)),
        Stack::add_socket_post(
            old(stack).stack(),
            final(stack).stack(),
            SmolSocket {
                socket_type: socket_type_spec(socket_type).unwrap(),
                socket_handle: 0,
                rx_buffer,
                tx_buffer,
            },
            r,
        ),
{
    let kind = socket_type_from_code(socket_type).unwrap();
    let s = stack.stack_mut();
    s.add_socket_to_stack(SmolSocket { socket_type: kind, socket_handle: 0, rx_buffer, tx_buffer })
}

/// Adds a socket of the kind coded by `socket_type` (which must be 0 or 1;
/// another code panics) with buffers of 65535 octets, and returns its
/// handle.
pub fn add_socket(stack: &mut StackType, socket_type: u8) -> (r: u8)
    requires
        old(stack).stack().wf(),
        old(stack).stack().next_handle() < 255,
        socket_type_spec(socket_type) is Some,
    ensures
        final(stack).stack().wf(),
        final(stack).same_device(&*old(stack)),
        Stack::add_socket_post(
            old(stack).stack(),
            final(stack).stack(),
            SmolSocket {
                socket_type: socket_type_spec(socket_type).unwrap(),
                socket_handle: 0,
                rx_buffer: DEFAULT_BUFFER_SIZE,
                tx_buffer: DEFAULT_BUFFER_SIZE,
            },
            r,
        ),
{
    add_socket_with_buffer(stack, socket_type, DEFAULT_BUFFER_SIZE, DEFAULT_BUFFER_SIZE)
}

/// Records the IPv4 address a0.a1.a2.a3 with a prefix of `netmask` bits
/// (at most 32; a longer one panics).  Returns 0.
pub fn add_ipv4_address(stack: &mut StackType, a0: u8, a1: u8, a2: u8, a3: u8, netmask: u8) -> (r: u8)
    requires
        old(stack).stack().wf(),
        netmask <= 32,
    ensures
        final(stack).stack().wf(),
        final(stack).same_device(&*old(stack)),
        r == 0,
        final(stack).stack().ip_addrs() == old(stack).stack().ip_addrs().push(
            crate::addresses::IpCidr { address: IpAddr::Ipv4([a0, a1, a2, a3]), prefix_len: netmask },
        ),
        final(stack).stack().same_handles(&old(stack).stack()),
        final(stack).stack().sockets_spec() == old(stack).stack().sockets_spec(),
        final(stack).stack().now() == old(stack).stack().now(),
        final(stack).stack().eth_addr() == old(stack).stack().eth_addr(),
{
    let address = IpAddr::from(Ipv4AddressC { ip_address: [a0, a1, a2, a3] });
    stack.stack_mut().add_ip_address(address, netmask)
}

/// Records the IPv6 address of the eight groups a0..a7 with a prefix of
/// `netmask` bits (at most 128; a longer one panics).  Returns 0.
pub fn add_ipv6_address(
    stack: &mut StackType,
    a0: u16,
    a1: u16,
    a2: u16,
    a3: u16,
    a4: u16,
    a5: u16,
    a6: u16,
    a7: u16,
    netmask: u8,
) -> (r: u8)
    requires
        old(stack).stack().wf(),
        netmask <= 128,
    ensures
        final(stack).stack().wf(),
        final(stack).same_device(&*old(stack)),
        r == 0,
        final(stack).stack().ip_addrs() == old(stack).stack().ip_addrs().push(
            crate::addresses::IpCidr {
                address: IpAddr::Ipv6(ipv6_octets([a0, a1, a2, a3, a4, a5, a6, a7])),
                prefix_len: netmask,
            },
        ),
        final(stack).stack().same_handles(&old(stack).stack()),
        final(stack).stack().sockets_spec() == old(stack).stack().sockets_spec(),
        final(stack).stack().now() == old(stack).stack().now(),
        final(stack).stack().eth_addr() == old(stack).stack().eth_addr(),
{
    let address = IpAddr::from(Ipv6AddressC { ip_address: [a0, a1, a2, a3, a4, a5, a6, a7] });
    stack.stack_mut().add_ip_address(address, netmask)
}

/// Records the Ethernet address a0:a1:a2:a3:a4:a5.  Returns 0.
pub fn add_ethernet_address(stack: &mut StackType, a0: u8, a1: u8, a2: u8, a3: u8, a4: u8, a5: u8) -> (r: u8)
    requires
        old(stack).stack().wf(),
    ensures
        final(stack).stack().wf(),
        final(stack).same_device(&*old(stack)),
        r == 0,
        final(stack).stack().eth_addr() == [a0, a1, a2, a3, a4, a5],
        final(stack).stack().same_handles(&old(stack).stack()),
        final(stack).stack().sockets_spec() == old(stack).stack().sockets_spec(),
        final(stack).stack().now() == old(stack).stack().now(),
        final(stack).stack().ip_addrs() == old(stack).stack().ip_addrs(),
{
    stack.stack_mut().add_ethernet_address([a0, a1, a2, a3, a4, a5])
}

/// Listens on the TCP socket `socket` at (`server_ip`, `port`).  A uknetdev
/// stack has no TCP sockets: it answers 1 and nothing changes.
pub fn smoltcp_listen(stack: &mut StackType, server_ip: Ipv4AddressC, socket: u8, port: u16) -> (r: u8)
    requires
        old(stack).stack().wf(),
        !old(stack).is_uknetdev() ==> old(stack).stack().has_socket(socket, SocketType::TCP),
    ensures
        final(stack).stack().wf(),
        final(stack).same_device(&*old(stack)),
        old(stack).is_uknetdev() ==> r == 1 && *final(stack) == *old(stack),
        !old(stack).is_uknetdev() ==> Stack::listen_post(
            old(stack).stack(),
            final(stack).stack(),
            IpAddr::Ipv4(server_ip.ip_address),
            socket,
            port,
            r,
        ),
{
    match stack {
        StackType::UkNetdevInterface(_) => 1,
        StackType::Tap(s) => s.listen(IpAddr::from(server_ip), socket, port),
        StackType::Loopback(s) => s.listen(IpAddr::from(server_ip), socket, port),
    }
}

/// Connects the TCP socket `client_socket`, from port `client_port`, to
/// (`server_ip`, `server_port`).  A uknetdev stack answers 1 and nothing
/// changes.
pub fn smoltcp_connect(
    stack: &mut StackType,
    server_ip: Ipv4AddressC,
    server_port: u16,
    client_socket: u8,
    client_port: u16,
) -> (r: u8)
    requires
        old(stack).stack().wf(),
        !old(stack).is_uknetdev() ==> old(stack).stack().has_socket(client_socket, SocketType::TCP),
    ensures
        final(stack).stack().wf(),
        final(stack).same_device(&*old(stack)),
        old(stack).is_uknetdev() ==> r == 1 && *final(stack) == *old(stack),
        !old(stack).is_uknetdev() ==> Stack::connect_post(
            old(stack).stack(),
            final(stack).stack(),
            IpAddr::Ipv4(server_ip.ip_address),
            server_port,
            client_socket,
            client_port,
            r,
        ),
{
    match stack {
        StackType::UkNetdevInterface(_) => 1,
        StackType::Tap(s) => s.connect(IpAddr::from(server_ip), server_port, client_socket, client_port),
        StackType::Loopback(s) => s.connect(IpAddr::from(server_ip), server_port, client_socket, client_port),
    }
}

/// Binds the UDP socket `socket` to `port`, on any stack.
pub fn smoltcp_bind(stack: &mut StackType, socket: u8, port: u16) -> (r: u8)
    requires
        old(stack).stack().wf(),
        old(stack).stack().has_socket(socket, SocketType::UDP),
    ensures
        final(stack).stack().wf(),
        final(stack).same_device(&*old(stack)),
        Stack::bind_post(old(stack).stack(), final(stack).stack(), socket, port, r),
{
    stack.stack_mut().bind(socket, port)
}

/// Sends `message` on the socket `client_socket`.  A uknetdev stack answers
/// 1 and nothing changes.
pub fn smoltcp_send(stack: &mut StackType, client_socket: u8, message: &str) -> (r: u8)
    requires
        old(stack).stack().wf(),
        !old(stack).is_uknetdev() ==> old(stack).stack().handles().contains_key(client_socket),
    ensures
        final(stack).stack().wf(),
        final(stack).same_device(&*old(stack)),
        old(stack).is_uknetdev() ==> r == 1 && *final(stack) == *old(stack),
        !old(stack).is_uknetdev() ==> Stack::send_post(
            old(stack).stack(),
            final(stack).stack(),
            client_socket,
            message.spec_bytes(),
            r,
        ),
{
    match stack {
        StackType::UkNetdevInterface(_) => 1,
        StackType::Tap(s) => s.send(client_socket, message),
        StackType::Loopback(s) => s.send(client_socket, message),
    }
}

/// Hands a packet to the device of a uknetdev stack.  Sending raw packets is
/// not offered on any stack: the answer is always 1 and nothing changes.
pub fn smoltcp_uk_send(stack: &mut StackType) -> (r: u8)
    ensures
        r == 1,
        *final(stack) == *old(stack),
{
    match stack {
        StackType::UkNetdevInterface(s) => s.uk_send(),
        _ => 1,
    }
}

/// Receives on the TCP socket `socket`, returning the answer and the octets
/// received.  A uknetdev stack answers 1 with nothing and nothing changes.
pub fn smoltcp_recv(stack: &mut StackType, socket: u8) -> (r: (u8, Vec<u8>))
    requires
        old(stack).stack().wf(),
        !old(stack).is_uknetdev() ==> old(stack).stack().has_socket(socket, SocketType::TCP),
    ensures
        final(stack).stack().wf(),
        final(stack).same_device(&*old(stack)),
        old(stack).is_uknetdev() ==> r.0 == 1 && r.1@.len() == 0 && *final(stack) == *old(stack),
        !old(stack).is_uknetdev() ==> Stack::recv_post(
            old(stack).stack(),
            final(stack).stack(),
            socket,
            r.0,
            r.1@,
        ),
{
    match stack {
        StackType::UkNetdevInterface(_) => (1, Vec::new()),
        StackType::Tap(s) => s.recv(socket),
        StackType::Loopback(s) => s.recv(socket),
    }
}

/// Closes the TCP socket `socket`.  A uknetdev stack has no connections to
/// close: nothing changes.
pub fn smoltcp_close(stack: &mut StackType, socket: u8)
    requires
        old(stack).stack().wf(),
        !old(stack).is_uknetdev() ==> old(stack).stack().has_socket(socket, SocketType::TCP),
    ensures
        final(stack).stack().wf(),
        final(stack).same_device(&*old(stack)),
        old(stack).is_uknetdev() ==> *final(stack) == *old(stack),
        !old(stack).is_uknetdev() ==> Stack::close_post(old(stack).stack(), final(stack).stack(), socket),
{
    match stack {
        StackType::UkNetdevInterface(_) => {},
        StackType::Tap(s) => s.close(socket),
        StackType::Loopback(s) => s.close(socket),
    }
}

} // verus!
