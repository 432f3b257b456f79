//! The socket set of smoltcp, seen through the operations that the stack uses.
//!
//! smoltcp keeps TCP and UDP sockets in a `SocketSet` and hands out a
//! `SocketHandle` for each.  This module declares those two types and gives
//! every smoltcp operation that the stack performs on them a small trusted
//! wrapper.  Their contracts speak of `socket_slots`, the abstract contents of
//! a set: its slots in order, each free or holding a socket, with the part of
//! the socket's state that the stack reads (for TCP the state, the endpoints
//! and the two ring buffers; for UDP the local endpoint and the buffer
//! sizes), and of `socket_slot`, the slot that a handle names.

use vstd::prelude::*;
use smoltcp::socket::{
    SocketHandle, SocketSet, TcpSocket, TcpSocketBuffer, UdpPacketMetadata,
    UdpSocket, UdpSocketBuffer,
};
use smoltcp::wire::{IpAddress as SmolIpAddress, IpEndpoint, Ipv4Address, Ipv6Address};
use crate::addresses::IpAddr;

verus! {

#[verifier::external_type_specification]
#[verifier::external_body]
pub struct ExSocketSet<'a>(SocketSet<'a>);

#[verifier::external_type_specification]
#[verifier::external_body]
pub struct ExSocketHandle(SocketHandle);

/// The socket sets of the stack: their sockets own their buffers.
pub type Sockets = SocketSet<'static>;

/// The states of a TCP connection (RFC 793), as smoltcp names them.
#[derive(Clone, Copy, Debug, PartialEq, Eq, Structural)]
pub enum TcpState {
    Closed,
    Listen,
    SynSent,
    SynReceived,
    Established,
    FinWait1,
    FinWait2,
    CloseWait,
    Closing,
    LastAck,
    TimeWait,
}

/// An endpoint of a socket: an address (`None` for smoltcp's
/// `IpAddress::Unspecified`) and a port.
pub struct Endpoint {
    pub addr: Option<IpAddr>,
    pub port: u16,
}

/// The endpoint a socket has before it is bound or connected.
pub open spec fn unset_endpoint() -> Endpoint {
    Endpoint { addr: None, port: 0 }
}

/// The unspecified address of the family of `a` (0.0.0.0 or ::).
pub open spec fn unspecified_like(a: IpAddr) -> IpAddr {
    match a {
        IpAddr::Ipv4(_) => IpAddr::Ipv4([0u8, 0u8, 0u8, 0u8]),
        IpAddr::Ipv6(_) => IpAddr::Ipv6(
            [0u8, 0u8, 0u8, 0u8, 0u8, 0u8, 0u8, 0u8, 0u8, 0u8, 0u8, 0u8, 0u8, 0u8, 0u8, 0u8],
        ),
    }
}

/// What the stack reads of a TCP socket: its state, its endpoints, and its
/// two ring buffers (the queued octets in order, where the receive ring
/// reads next, and the sizes).
pub struct TcpView {
    pub state: TcpState,
    pub local: Endpoint,
    pub remote: Endpoint,
    pub rx_data: Seq<u8>,
    pub rx_read_at: nat,
    pub rx_capacity: nat,
    pub tx_data: Seq<u8>,
    pub tx_capacity: nat,
}

/// What the stack reads of a UDP socket: its local endpoint, the payload
/// sizes of its two packet buffers and their numbers of metadata slots.
pub struct UdpView {
    pub local: Endpoint,
    pub rx_capacity: nat,
    pub tx_capacity: nat,
    pub rx_slots: nat,
    pub tx_slots: nat,
}

/// One socket of a set.
pub enum SocketView {
    Tcp(TcpView),
    Udp(UdpView),
    /// A raw or ICMP socket, which the stack never adds.
    Other,
}

/// The slots of a socket set, in order: `None` for a free slot.  For a TCP
/// socket, `state`, `local` and `remote` are what `state()`,
/// `local_endpoint()` and `remote_endpoint()` return (`IpAddress::Unspecified`
/// as `None`); `rx_data` and `tx_data` are the octets queued in the receive
/// and transmit rings, oldest first; `rx_read_at` is where the receive ring
/// reads next in its storage; the capacities are the rings' sizes.  For a
/// UDP socket, `local` is `endpoint()`, and the capacities and slots are the
/// payload sizes and metadata counts of its two packet buffers.
pub uninterp spec fn socket_slots(set: Sockets) -> Seq<Option<SocketView>>;

/// Whether the set keeps its slots in growable storage (a
/// `ManagedSlice::Owned`), so that adding a socket never finds it full.
pub uninterp spec fn socket_set_growable(set: Sockets) -> bool;

/// The slot of the set that a handle names: the index that smoltcp's
/// `Handle` holds (its field is private).
pub uninterp spec fn socket_slot(h: SocketHandle) -> nat;

/// The slot that `SocketSet::add` fills: the first free one, or a new one
/// at the end.
pub open spec fn first_free_slot(s: Seq<Option<SocketView>>) -> nat {
    first_free_from(s, 0)
}

/// The first free slot at or after `i`, or the length.
pub open spec fn first_free_from(s: Seq<Option<SocketView>>, i: nat) -> nat
    decreases s.len() - i,
{
    if i >= s.len() {
        s.len()
    } else if s[i as int] is None {
        i
    } else {
        first_free_from(s, i + 1)
    }
}

/// The slots after `SocketSet::add` put `v` into the first free slot.
pub open spec fn slots_after_add(s: Seq<Option<SocketView>>, v: SocketView) -> Seq<Option<SocketView>> {
    let i = first_free_slot(s);
    if i < s.len() {
        s.update(i as int, Some(v))
    } else {
        s.push(Some(v))
    }
}

/// Whether `h` names a TCP socket of the slots.
pub open spec fn is_tcp_in(s: Seq<Option<SocketView>>, h: SocketHandle) -> bool {
    &&& socket_slot(h) < s.len()
    &&& s[socket_slot(h) as int] matches Some(SocketView::Tcp(_))
}

/// Whether `h` names a UDP socket of the slots.
pub open spec fn is_udp_in(s: Seq<Option<SocketView>>, h: SocketHandle) -> bool {
    &&& socket_slot(h) < s.len()
    &&& s[socket_slot(h) as int] matches Some(SocketView::Udp(_))
}

/// The TCP socket that `h` names.
pub open spec fn tcp_at(s: Seq<Option<SocketView>>, h: SocketHandle) -> TcpView {
    s[socket_slot(h) as int]->Some_0->Tcp_0
}

/// The UDP socket that `h` names.
pub open spec fn udp_at(s: Seq<Option<SocketView>>, h: SocketHandle) -> UdpView {
    s[socket_slot(h) as int]->Some_0->Udp_0
}

/// The slots with the socket that `h` names replaced by `v`.
pub open spec fn slots_with(s: Seq<Option<SocketView>>, h: SocketHandle, v: SocketView) -> Seq<Option<SocketView>> {
    s.update(socket_slot(h) as int, Some(v))
}

/// smoltcp's `TcpSocket::is_open`: not `Closed` and not `TimeWait`.
pub open spec fn tcp_is_open_spec(s: TcpState) -> bool {
    s != TcpState::Closed && s != TcpState::TimeWait
}

/// smoltcp's `TcpSocket::is_active`: open and not `Listen`.
pub open spec fn tcp_is_active_spec(s: TcpState) -> bool {
    tcp_is_open_spec(s) && s != TcpState::Listen
}

/// smoltcp's `TcpSocket::may_send`: the transmit half is open.
pub open spec fn tcp_may_send_spec(s: TcpState) -> bool {
    s == TcpState::Established || s == TcpState::CloseWait
}

/// smoltcp's `TcpSocket::may_recv`: the receive half is open, or data is
/// still queued.
pub open spec fn tcp_may_recv_spec(s: TcpState, rx_queued: nat) -> bool {
    s == TcpState::Established || s == TcpState::FinWait1 || s == TcpState::FinWait2
        || rx_queued > 0
}

/// The state that smoltcp's `TcpSocket::close` moves a socket to.
pub open spec fn tcp_close_spec(s: TcpState) -> TcpState {
    match s {
        TcpState::Listen => TcpState::Closed,
        TcpState::SynSent => TcpState::Closed,
        TcpState::SynReceived => TcpState::FinWait1,
        TcpState::Established => TcpState::FinWait1,
        TcpState::CloseWait => TcpState::LastAck,
        _ => s,
    }
}

/// A TCP socket after smoltcp's `reset`: in `state`, with these endpoints
/// and empty buffers of the same sizes.
pub open spec fn tcp_reset_to(v: TcpView, state: TcpState, local: Endpoint, remote: Endpoint) -> TcpView {
    TcpView {
        state,
        local,
        remote,
        rx_data: Seq::empty(),
        rx_read_at: 0,
        rx_capacity: v.rx_capacity,
        tx_data: Seq::empty(),
        tx_capacity: v.tx_capacity,
    }
}

/// How many octets the receive ring hands over at once: the queued octets
/// up to the end of its storage.
pub open spec fn tcp_rx_run(v: TcpView) -> nat {
    let to_end = v.rx_capacity - v.rx_read_at;
    if to_end <= 0 {
        0
    } else if v.rx_data.len() < to_end {
        v.rx_data.len()
    } else {
        to_end as nat
    }
}

/// A TCP socket after `n` octets were dequeued from its receive ring.
pub open spec fn tcp_after_recv(v: TcpView, n: nat) -> TcpView {
    TcpView {
        rx_data: v.rx_data.skip(n as int),
        rx_read_at: if v.rx_capacity > 0 { (v.rx_read_at + n) % v.rx_capacity } else { 0 },
        ..v
    }
}

/// How many octets of `len` the transmit ring takes: as many as it has
/// room for.
pub open spec fn tcp_tx_room(v: TcpView, len: nat) -> nat {
    let room = v.tx_capacity - v.tx_data.len();
    if room <= 0 {
        0
    } else if len < room {
        len
    } else {
        room as nat
    }
}

/// A new TCP socket with buffers of `rx` and `tx` octets.
pub open spec fn new_tcp_view(rx: nat, tx: nat) -> TcpView {
    TcpView {
        state: TcpState::Closed,
        local: unset_endpoint(),
        remote: unset_endpoint(),
        rx_data: Seq::empty(),
        rx_read_at: 0,
        rx_capacity: rx,
        tx_data: Seq::empty(),
        tx_capacity: tx,
    }
}

/// A new UDP socket with payload buffers of `rx` and `tx` octets and one
/// metadata slot each.
pub open spec fn new_udp_view(rx: nat, tx: nat) -> UdpView {
    UdpView { local: unset_endpoint(), rx_capacity: rx, tx_capacity: tx, rx_slots: 1, tx_slots: 1 }
}

/// The largest size of a TCP receive buffer that `TcpSocket::new` accepts.
pub const TCP_MAX_RX_BUFFER: usize = 0x4000_0000;

/// Whether `a` is an unspecified address (all octets zero).
pub open spec fn ip_is_unspecified(a: IpAddr) -> bool {
    match a {
        IpAddr::Ipv4(o) => o@ == seq![0u8, 0u8, 0u8, 0u8],
        IpAddr::Ipv6(o) => forall|i: int| 0 <= i < 16 ==> o@[i] == 0u8,
    }
}

/// `SocketSet::new` on an empty `Vec`: a set with no slots and growable
/// storage.
#[verifier::external_body]
pub(crate) fn new_socket_set() -> (r: Sockets)
    ensures
        socket_slots(r).len() == 0,
        socket_set_growable(r),
{
    SocketSet::new(std::vec::Vec::new())
}

/// `SocketSet::add` of a TCP socket built by `TcpSocket::new` on buffers of
/// `rx_len` and `tx_len` zeroed octets.  `TcpSocket::new` panics on a receive
/// buffer above 1 GiB, which `requires` leaves out.  `add` puts the socket
/// (`Closed`, unbound, with empty buffers of those sizes) into the first free
/// slot, or a new slot at the end, and returns the handle of that slot; the
/// other slots are untouched.
#[verifier::external_body]
pub(crate) fn add_tcp_socket(set: &mut Sockets, rx_len: usize, tx_len: usize) -> (h: SocketHandle)
    requires
        socket_set_growable(*old(set)),
        rx_len <= TCP_MAX_RX_BUFFER,
        tx_len <= isize::MAX,
    ensures
        socket_slot(h) == first_free_slot(socket_slots(*old(set))),
        socket_slots(*final(set)) == slots_after_add(
            socket_slots(*old(set)),
            SocketView::Tcp(new_tcp_view(rx_len as nat, tx_len as nat)),
        ),
        socket_set_growable(*final(set)),
{
    let rx = TcpSocketBuffer::new(vec![0u8; rx_len]);
    let tx = TcpSocketBuffer::new(vec![0u8; tx_len]);
    set.add(TcpSocket::new(rx, tx))
}

/// `SocketSet::add` of a UDP socket built by `UdpSocket::new` on packet
/// buffers of one metadata slot and `rx_len` and `tx_len` payload octets.
/// `add` puts the socket (unbound) into the first free slot, or a new slot
/// at the end, and returns the handle of that slot; the other slots are
/// untouched.
#[verifier::external_body]
pub(crate) fn add_udp_socket(set: &mut Sockets, rx_len: usize, tx_len: usize) -> (h: SocketHandle)
    requires
        socket_set_growable(*old(set)),
        rx_len <= isize::MAX,
        tx_len <= isize::MAX,
    ensures
        socket_slot(h) == first_free_slot(socket_slots(*old(set))),
        socket_slots(*final(set)) == slots_after_add(
            socket_slots(*old(set)),
            SocketView::Udp(new_udp_view(rx_len as nat, tx_len as nat)),
        ),
        socket_set_growable(*final(set)),
{
    let rx = UdpSocketBuffer::new(vec![UdpPacketMetadata::EMPTY], vec![0u8; rx_len]);
    let tx = UdpSocketBuffer::new(vec![UdpPacketMetadata::EMPTY], vec![0u8; tx_len]);
    set.add(UdpSocket::new(rx, tx))
}

/// `TcpSocket::is_active` of the TCP socket `h` (reached by
/// `SocketSet::get`, which panics on a handle of no TCP socket).
#[verifier::external_body]
pub(crate) fn tcp_is_active(set: &mut Sockets, h: SocketHandle) -> (r: bool)
    requires
        is_tcp_in(socket_slots(*old(set)), h),
    ensures
        *final(set) == *old(set),
        r == tcp_is_active_spec(tcp_at(socket_slots(*old(set)), h).state),
{
    set.get::<TcpSocket>(h).is_active()
}

/// `TcpSocket::is_listening` of the TCP socket `h`: its state is `Listen`.
#[verifier::external_body]
pub(crate) fn tcp_is_listening(set: &mut Sockets, h: SocketHandle) -> (r: bool)
    requires
        is_tcp_in(socket_slots(*old(set)), h),
    ensures
        *final(set) == *old(set),
        r == (tcp_at(socket_slots(*old(set)), h).state == TcpState::Listen),
{
    set.get::<TcpSocket>(h).is_listening()
}

/// `TcpSocket::is_open` of the TCP socket `h`.
#[verifier::external_body]
pub(crate) fn tcp_is_open(set: &mut Sockets, h: SocketHandle) -> (r: bool)
    requires
        is_tcp_in(socket_slots(*old(set)), h),
    ensures
        *final(set) == *old(set),
        r == tcp_is_open_spec(tcp_at(socket_slots(*old(set)), h).state),
{
    set.get::<TcpSocket>(h).is_open()
}

/// `TcpSocket::listen` of the TCP socket `h` on the endpoint (`addr`,
/// `port`).  smoltcp refuses port 0 and an open socket; otherwise it resets
/// the socket (emptying its buffers), records (`addr`, `port`) as its local
/// endpoint and no remote one, and moves it to `Listen`.  A refusal changes
/// nothing.
#[verifier::external_body]
pub(crate) fn tcp_listen(set: &mut Sockets, h: SocketHandle, addr: IpAddr, port: u16) -> (ok: bool)
    requires
        is_tcp_in(socket_slots(*old(set)), h),
    ensures
        ok == (port != 0 && !tcp_is_open_spec(tcp_at(socket_slots(*old(set)), h).state)),
        ok ==> socket_slots(*final(set)) == slots_with(
            socket_slots(*old(set)),
            h,
            SocketView::Tcp(tcp_reset_to(
                tcp_at(socket_slots(*old(set)), h),
                TcpState::Listen,
                Endpoint { addr: Some(addr), port },
                unset_endpoint(),
            )),
        ),
        !ok ==> *final(set) == *old(set),
        socket_set_growable(*final(set)) == socket_set_growable(*old(set)),
{
    let addr = match addr {
        IpAddr::Ipv4(o) => SmolIpAddress::Ipv4(Ipv4Address(o)),
        IpAddr::Ipv6(o) => SmolIpAddress::Ipv6(Ipv6Address(o)),
    };
    let endpoint = IpEndpoint::new(addr, port);
    set.get::<TcpSocket>(h).listen(endpoint).is_ok()
}

/// `TcpSocket::connect` of the TCP socket `h` to the remote endpoint
/// (`remote`, `remote_port`) from the local port `local_port` at an
/// unspecified local address.  smoltcp refuses an open socket, an
/// unspecified remote address, and port 0 on either side; otherwise it
/// resets the socket, records the remote endpoint and, as the local one,
/// the unspecified address of the remote's family with `local_port`, and
/// moves it to `SynSent`.  A refusal changes nothing.
#[verifier::external_body]
pub(crate) fn tcp_connect(
    set: &mut Sockets,
    h: SocketHandle,
    remote: IpAddr,
    remote_port: u16,
    local_port: u16,
) -> (ok: bool)
    requires
        is_tcp_in(socket_slots(*old(set)), h),
    ensures
        ok == (!tcp_is_open_spec(tcp_at(socket_slots(*old(set)), h).state) && !ip_is_unspecified(remote)
            && remote_port != 0 && local_port != 0),
        ok ==> socket_slots(*final(set)) == slots_with(
            socket_slots(*old(set)),
            h,
            SocketView::Tcp(tcp_reset_to(
                tcp_at(socket_slots(*old(set)), h),
                TcpState::SynSent,
                Endpoint { addr: Some(unspecified_like(remote)), port: local_port },
                Endpoint { addr: Some(remote), port: remote_port },
            )),
        ),
        !ok ==> *final(set) == *old(set),
        socket_set_growable(*final(set)) == socket_set_growable(*old(set)),
{
    let remote = match remote {
        IpAddr::Ipv4(o) => SmolIpAddress::Ipv4(Ipv4Address(o)),
        IpAddr::Ipv6(o) => SmolIpAddress::Ipv6(Ipv6Address(o)),
    };
    let remote_endpoint = IpEndpoint::new(remote, remote_port);
    let local_endpoint = IpEndpoint::new(SmolIpAddress::Unspecified, local_port);
    set.get::<TcpSocket>(h).connect(remote_endpoint, local_endpoint).is_ok()
}

/// `TcpSocket::can_send` of the TCP socket `h`: the transmit half is open
/// and the transmit buffer is not full.
#[verifier::external_body]
pub(crate) fn tcp_can_send(set: &mut Sockets, h: SocketHandle) -> (r: bool)
    requires
        is_tcp_in(socket_slots(*old(set)), h),
    ensures
        *final(set) == *old(set),
        r == (tcp_may_send_spec(tcp_at(socket_slots(*old(set)), h).state)
            && tcp_at(socket_slots(*old(set)), h).tx_data.len() < tcp_at(socket_slots(*old(set)), h).tx_capacity),
{
    set.get::<TcpSocket>(h).can_send()
}

/// `TcpSocket::send_slice` of `data` on the TCP socket `h`.  smoltcp refuses
/// (`None`) when the transmit half is closed; otherwise it appends to the
/// transmit buffer as many leading octets of `data` as it has room for and
/// returns that number.
#[verifier::external_body]
pub(crate) fn tcp_send_slice(set: &mut Sockets, h: SocketHandle, data: &[u8]) -> (r: Option<usize>)
    requires
        is_tcp_in(socket_slots(*old(set)), h),
    ensures
        ({
            let v = tcp_at(socket_slots(*old(set)), h);
            let n = tcp_tx_room(v, data@.len());
            &&& r is Some <==> tcp_may_send_spec(v.state)
            &&& r is Some ==> r == Some(n as usize) && socket_slots(*final(set)) == slots_with(
                socket_slots(*old(set)),
                h,
                SocketView::Tcp(TcpView { tx_data: v.tx_data + data@.take(n as int), ..v }),
            )
            &&& r is None ==> *final(set) == *old(set)
        }),
        socket_set_growable(*final(set)) == socket_set_growable(*old(set)),
{
    match set.get::<TcpSocket>(h).send_slice(data) {
        Ok(n) => Some(n),
        Err(_) => None,
    }
}

/// `TcpSocket::can_recv` of the TCP socket `h`: its receive buffer holds
/// data.
#[verifier::external_body]
pub(crate) fn tcp_can_recv(set: &mut Sockets, h: SocketHandle) -> (r: bool)
    requires
        is_tcp_in(socket_slots(*old(set)), h),
    ensures
        *final(set) == *old(set),
        r == (tcp_at(socket_slots(*old(set)), h).rx_data.len() > 0),
{
    set.get::<TcpSocket>(h).can_recv()
}

/// `TcpSocket::recv` of the TCP socket `h`, taking the whole contiguous run
/// of queued octets (up to the end of the ring's storage).  smoltcp refuses
/// (`None`) when the receive half is closed and nothing is queued; otherwise
/// it dequeues that run and hands it over, at least one octet when anything
/// was queued.
#[verifier::external_body]
pub(crate) fn tcp_recv(set: &mut Sockets, h: SocketHandle) -> (r: Option<Vec<u8>>)
    requires
        is_tcp_in(socket_slots(*old(set)), h),
    ensures
        ({
            let v = tcp_at(socket_slots(*old(set)), h);
            &&& r is Some <==> tcp_may_recv_spec(v.state, v.rx_data.len())
            &&& r matches Some(d) ==> {
                &&& d@ == v.rx_data.take(tcp_rx_run(v) as int)
                &&& v.rx_data.len() > 0 ==> d@.len() > 0
                &&& socket_slots(*final(set)) == slots_with(
                    socket_slots(*old(set)),
                    h,
                    SocketView::Tcp(tcp_after_recv(v, tcp_rx_run(v))),
                )
            }
            &&& r is None ==> *final(set) == *old(set)
        }),
        socket_set_growable(*final(set)) == socket_set_growable(*old(set)),
{
    match set.get::<TcpSocket>(h).recv(|buffer| (buffer.len(), buffer.to_vec())) {
        Ok(d) => Some(d),
        Err(_) => None,
    }
}

/// `TcpSocket::close` of the TCP socket `h`: it closes the transmit half,
/// moving the state as `tcp_close_spec` says, and changes nothing else.
#[verifier::external_body]
pub(crate) fn tcp_close(set: &mut Sockets, h: SocketHandle)
    requires
        is_tcp_in(socket_slots(*old(set)), h),
    ensures
        ({
            let v = tcp_at(socket_slots(*old(set)), h);
            socket_slots(*final(set)) == slots_with(
                socket_slots(*old(set)),
                h,
                SocketView::Tcp(TcpView { state: tcp_close_spec(v.state), ..v }),
            )
        }),
        socket_set_growable(*final(set)) == socket_set_growable(*old(set)),
{
    set.get::<TcpSocket>(h).close()
}

/// `UdpSocket::is_open` of the UDP socket `h`: it is bound to a port.
#[verifier::external_body]
pub(crate) fn udp_is_open(set: &mut Sockets, h: SocketHandle) -> (r: bool)
    requires
        is_udp_in(socket_slots(*old(set)), h),
    ensures
        *final(set) == *old(set),
        r == (udp_at(socket_slots(*old(set)), h).local.port != 0),
{
    set.get::<UdpSocket>(h).is_open()
}

/// `UdpSocket::bind` of the UDP socket `h` to `port` at an unspecified
/// address.  smoltcp refuses port 0 and a socket that is already bound;
/// otherwise the socket's local endpoint becomes (unspecified, `port`).  A
/// refusal changes nothing.
#[verifier::external_body]
pub(crate) fn udp_bind(set: &mut Sockets, h: SocketHandle, port: u16) -> (ok: bool)
    requires
        is_udp_in(socket_slots(*old(set)), h),
    ensures
        ok == (port != 0 && udp_at(socket_slots(*old(set)), h).local.port == 0),
        ok ==> socket_slots(*final(set)) == slots_with(
            socket_slots(*old(set)),
            h,
            SocketView::Udp(UdpView { local: Endpoint { addr: None, port }, ..udp_at(socket_slots(*old(set)), h) }),
        ),
        !ok ==> *final(set) == *old(set),
        socket_set_growable(*final(set)) == socket_set_growable(*old(set)),
{
    set.get::<UdpSocket>(h).bind(IpEndpoint::new(SmolIpAddress::Unspecified, port)).is_ok()
}

} // verus!
