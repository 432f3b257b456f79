//! The device-independent part of a smoltcp stack: the socket set, the table
//! that maps the one-byte socket handles of the C side to smoltcp's handles,
//! the interface configuration collected before the interface is built, and
//! the clock that the interface is polled with.

use vstd::prelude::*;
use vstd::string::StringSliceAdditionalSpecFns;
use std::collections::HashMap;
use smoltcp::socket::SocketHandle;
use crate::addresses::{IpAddr, IpCidr, prefix_fits};
use crate::sockets::{
    Sockets, SocketView, TcpState, TcpView, UdpView, Endpoint, socket_slots, socket_slot,
    socket_set_growable, new_socket_set, first_free_slot, first_free_from, slots_after_add,
    new_tcp_view, new_udp_view, tcp_reset_to, tcp_rx_run, tcp_after_recv, tcp_tx_room,
    unset_endpoint, unspecified_like,
    TCP_MAX_RX_BUFFER, add_tcp_socket, add_udp_socket, tcp_is_active, tcp_is_listening,
    tcp_listen, tcp_is_open, tcp_connect, udp_is_open, udp_bind, tcp_can_send, tcp_send_slice,
    tcp_can_recv, tcp_recv, tcp_close, tcp_is_open_spec, tcp_may_send_spec, tcp_close_spec,
    ip_is_unspecified,
};

verus! {

broadcast use vstd::std_specs::hash::group_hash_axioms;

/// The kinds of socket the stack offers.
#[derive(Clone, Copy, Debug, PartialEq, Eq, Structural)]
pub enum SocketType {
    UDP,
    TCP,
}

/// The kind of socket that a socket view describes.
pub open spec fn view_kind(v: SocketView) -> Option<SocketType> {
    match v {
        SocketView::Tcp(_) => Some(SocketType::TCP),
        SocketView::Udp(_) => Some(SocketType::UDP),
        SocketView::Other => None,
    }
}

/// The view of a socket just added with buffers of `rx` and `tx` octets.
pub open spec fn fresh_view(t: SocketType, rx: usize, tx: usize) -> SocketView {
    match t {
        SocketType::TCP => SocketView::Tcp(new_tcp_view(rx as nat, tx as nat)),
        SocketType::UDP => SocketView::Udp(new_udp_view(rx as nat, tx as nat)),
    }
}

/// The first free slot is free, or the end; the slots before it are taken.
pub proof fn lemma_first_free_slot(s: Seq<Option<SocketView>>)
    ensures
        first_free_slot(s) <= s.len(),
        first_free_slot(s) < s.len() ==> s[first_free_slot(s) as int] is None,
        forall|j: int| 0 <= j < first_free_slot(s) ==> s[j] is Some,
{
    lemma_first_free_from(s, 0);
}

proof fn lemma_first_free_from(s: Seq<Option<SocketView>>, i: nat)
    requires
        i <= s.len(),
        forall|j: int| 0 <= j < i ==> s[j] is Some,
    ensures
        i <= first_free_from(s, i) <= s.len(),
        first_free_from(s, i) < s.len() ==> s[first_free_from(s, i) as int] is None,
        forall|j: int| 0 <= j < first_free_from(s, i) ==> s[j] is Some,
    decreases s.len() - i,
{
    if i < s.len() && s[i as int] is Some {
        lemma_first_free_from(s, i + 1);
    }
}

/// The request for a new socket: its kind and the sizes of its receive and
/// transmit buffers.
#[derive(Clone, Copy, Debug)]
pub struct SmolSocket {
    pub socket_type: SocketType,
    pub socket_handle: u8,
    pub rx_buffer: usize,
    pub tx_buffer: usize,
}

impl SmolSocket {
    pub fn new(socket_type: SocketType, socket_handle: u8, rx_buffer: usize, tx_buffer: usize) -> (s: SmolSocket)
        ensures
            s.socket_type == socket_type,
            s.socket_handle == socket_handle,
            s.rx_buffer == rx_buffer,
            s.tx_buffer == tx_buffer,
    {
        SmolSocket { socket_type, socket_handle, rx_buffer, tx_buffer }
    }
}

/// Whether buffers of these sizes can be given to a socket of kind `t`:
/// allocatable, and for TCP a receive buffer of at most 1 GiB.
pub open spec fn buffers_fit(t: SocketType, rx: usize, tx: usize) -> bool {
    &&& tx <= isize::MAX
    &&& rx <= isize::MAX
    &&& t == SocketType::TCP ==> rx <= TCP_MAX_RX_BUFFER
}

/// The step by which `Instant + Duration` moves smoltcp's clock: the
/// duration's milliseconds taken as an `i64`, which wraps above `i64::MAX`.
pub open spec fn clock_step(d: u64) -> int {
    if d <= i64::MAX {
        d as int
    } else {
        d - 0x1_0000_0000_0000_0000
    }
}

/// How far `advance_clock` moves the clock after a poll delay: the delay,
/// or one millisecond when the interface has nothing pending.
pub open spec fn delay_step(delay: Option<u64>) -> int {
    match delay {
        Some(d) => clock_step(d),
        None => clock_step(1),
    }
}

/// The clock that the interface is polled with, in milliseconds.
pub struct Clock {
    millis: i64,
}

impl Clock {
    /// The time the clock shows, in milliseconds.
    pub closed spec fn now(&self) -> i64 {
        self.millis
    }

    pub fn new() -> (c: Clock)
        ensures
            c.now() == 0,
    {
        Clock { millis: 0 }
    }

    /// Moves the clock on by `duration` milliseconds, as smoltcp's
    /// `Instant + Duration` does; an overflow of the sum would panic, so
    /// `requires` leaves it out.
    pub fn advance(&mut self, duration: u64)
        requires
            i64::MIN <= old(self).now() + clock_step(duration) <= i64::MAX,
        ensures
            final(self).now() == old(self).now() + clock_step(duration),
    {
        let step: i64 = if duration <= 0x7fff_ffff_ffff_ffff {
            duration as i64
        } else {
            let rest: u64 = u64::MAX - duration;
            -(rest as i64) - 1
        };
        self.millis = self.millis + step;
    }

    pub fn elapsed(&self) -> (r: i64)
        ensures
            r == self.now(),
    {
        self.millis
    }
}

/// The stack: its sockets, the handle table, the configuration of the
/// interface and the clock.
pub struct Stack {
    clock: Clock,
    socket_set: Sockets,
    current_socket_handle: u8,
    handle_map: HashMap<u8, (SocketHandle, SocketType)>,
    ip_addrs: Vec<IpCidr>,
    eth_addr: [u8; 6],
}

impl Stack {
    /// The handle table: each one-byte handle given out, with smoltcp's
    /// handle of its socket and the socket's kind.
    pub closed spec fn handles(&self) -> Map<u8, (SocketHandle, SocketType)> {
        self.handle_map@
    }

    /// The handle that the next socket will get.
    pub closed spec fn next_handle(&self) -> u8 {
        self.current_socket_handle
    }

    /// The socket set.
    pub closed spec fn sockets_spec(&self) -> Sockets {
        self.socket_set
    }

    /// The slots of the socket set.
    pub open spec fn table(&self) -> Seq<Option<SocketView>> {
        socket_slots(self.sockets_spec())
    }

    /// The clock, in milliseconds.
    pub closed spec fn now(&self) -> i64 {
        self.clock.now()
    }

    /// The addresses that the interface will be built with, in the order
    /// they were added.
    pub closed spec fn ip_addrs(&self) -> Seq<IpCidr> {
        self.ip_addrs@
    }

    /// The Ethernet address that the interface will be built with.
    pub closed spec fn eth_addr(&self) -> [u8; 6] {
        self.eth_addr
    }

    /// The slot of the socket behind the C side's handle `k`.
    pub open spec fn slot_of(&self, k: u8) -> nat {
        socket_slot(self.handles()[k].0)
    }

    /// The socket behind the C side's handle `k`.
    pub open spec fn view_of(&self, k: u8) -> SocketView {
        self.table()[self.slot_of(k) as int]->Some_0
    }

    /// The TCP socket behind the C side's handle `k`.
    pub open spec fn tcp_of(&self, k: u8) -> TcpView {
        self.view_of(k)->Tcp_0
    }

    /// The UDP socket behind the C side's handle `k`.
    pub open spec fn udp_of(&self, k: u8) -> UdpView {
        self.view_of(k)->Udp_0
    }

    /// The slots with the socket behind `k` replaced by `v`.
    pub open spec fn table_with(&self, k: u8, v: SocketView) -> Seq<Option<SocketView>> {
        self.table().update(self.slot_of(k) as int, Some(v))
    }

    /// Whether `k` is a handle of a socket of kind `t`.
    pub open spec fn has_socket(&self, k: u8, t: SocketType) -> bool {
        self.handles().contains_key(k) && self.handles()[k].1 == t
    }

    /// The invariant of a stack: the set can grow; every handle given out is
    /// below the next one and stands for a slot holding a socket of its
    /// recorded kind; distinct handles stand for distinct slots; every
    /// address has a prefix length that fits its family.
    pub open spec fn wf(&self) -> bool {
        &&& socket_set_growable(self.sockets_spec())
        &&& forall|k: u8| #[trigger]
            self.handles().contains_key(k) ==> {
                &&& k < self.next_handle()
                &&& self.slot_of(k) < self.table().len()
                &&& self.table()[self.slot_of(k) as int] is Some
                &&& view_kind(self.view_of(k)) == Some(self.handles()[k].1)
            }
        &&& forall|k1: u8, k2: u8|
            #![trigger self.handles()[k1], self.handles()[k2]]
            self.handles().contains_key(k1) && self.handles().contains_key(k2) && k1 != k2
                ==> self.slot_of(k1) != self.slot_of(k2)
        &&& forall|i: int|
            0 <= i < self.ip_addrs().len() ==> prefix_fits(
                #[trigger] self.ip_addrs()[i].address,
                self.ip_addrs()[i].prefix_len,
            )
    }

    /// Whether `self` and `other` are in the same state, as far as anything
    /// the stack does can tell: the same handles for the same slots and
    /// kinds, the same next handle, the same slots, and the same
    /// configuration.
    pub open spec fn same_state(&self, other: &Stack) -> bool {
        &&& self.handles().dom() == other.handles().dom()
        &&& forall|k: u8| #[trigger]
            self.handles().contains_key(k) ==> self.slot_of(k) == other.slot_of(k)
                && self.handles()[k].1 == other.handles()[k].1
        &&& self.next_handle() == other.next_handle()
        &&& self.table() == other.table()
        &&& socket_set_growable(self.sockets_spec()) == socket_set_growable(other.sockets_spec())
        &&& self.same_config(other)
    }

    /// Whether `self` and `other` agree on everything but the sockets.
    pub open spec fn same_config(&self, other: &Stack) -> bool {
        &&& self.now() == other.now()
        &&& self.ip_addrs() == other.ip_addrs()
        &&& self.eth_addr() == other.eth_addr()
    }

    /// Whether `self` and `other` have the same handle table.
    pub open spec fn same_handles(&self, other: &Stack) -> bool {
        &&& self.handles() == other.handles()
        &&& self.next_handle() == other.next_handle()
    }

    /// What `add_socket_to_stack` does: the next handle `r` now stands for a
    /// new socket of the requested kind and buffer sizes, in its initial
    /// state, put into the first free slot of the set; the counter moved on
    /// by one; the caller's `socket_handle` plays no part.
    pub open spec fn add_socket_post(pre: Stack, post: Stack, req: SmolSocket, r: u8) -> bool {
        &&& r == pre.next_handle()
        &&& post.next_handle() == pre.next_handle() + 1
        &&& post.same_config(&pre)
        &&& post.handles() == pre.handles().insert(r, (post.handles()[r].0, req.socket_type))
        &&& post.slot_of(r) == first_free_slot(pre.table())
        &&& post.table() == slots_after_add(pre.table(), fresh_view(req.socket_type, req.rx_buffer, req.tx_buffer))
        &&& socket_set_growable(post.sockets_spec())
    }

    /// What `listen` does: it answers 0 exactly when the socket was not open
    /// and the port is not 0, and then the socket listens on (`ip`, `port`)
    /// with empty buffers; it answers 1 otherwise and changes nothing.
    pub open spec fn listen_post(pre: Stack, post: Stack, ip: IpAddr, socket: u8, port: u16, r: u8) -> bool {
        let v = pre.tcp_of(socket);
        &&& post.same_handles(&pre)
        &&& post.same_config(&pre)
        &&& r == 0 || r == 1
        &&& (r == 0) == (!tcp_is_open_spec(v.state) && port != 0)
        &&& r == 0 ==> post.table() == pre.table_with(
            socket,
            SocketView::Tcp(tcp_reset_to(v, TcpState::Listen, Endpoint { addr: Some(ip), port }, unset_endpoint())),
        )
        &&& r == 1 ==> post.sockets_spec() == pre.sockets_spec()
    }

    /// What `connect` does: it answers 0 exactly when the socket was not
    /// open, the server address is specified and neither port is 0, and
    /// then the socket is in `SynSent` towards (`ip`, `server_port`) from
    /// port `client_port`, with empty buffers; it answers 1 otherwise and
    /// changes nothing.
    pub open spec fn connect_post(
        pre: Stack,
        post: Stack,
        ip: IpAddr,
        server_port: u16,
        socket: u8,
        client_port: u16,
        r: u8,
    ) -> bool {
        let v = pre.tcp_of(socket);
        &&& post.same_handles(&pre)
        &&& post.same_config(&pre)
        &&& r == 0 || r == 1
        &&& (r == 0) == (!tcp_is_open_spec(v.state) && !ip_is_unspecified(ip) && server_port != 0
            && client_port != 0)
        &&& r == 0 ==> post.table() == pre.table_with(
            socket,
            SocketView::Tcp(tcp_reset_to(
                v,
                TcpState::SynSent,
                Endpoint { addr: Some(unspecified_like(ip)), port: client_port },
                Endpoint { addr: Some(ip), port: server_port },
            )),
        )
        &&& r == 1 ==> post.sockets_spec() == pre.sockets_spec()
    }

    /// What `bind` does: it answers 0 exactly when the UDP socket was
    /// unbound and the port is not 0, and then the socket is bound to
    /// (unspecified, `port`); it answers 1 otherwise and changes nothing.
    pub open spec fn bind_post(pre: Stack, post: Stack, socket: u8, port: u16, r: u8) -> bool {
        let u = pre.udp_of(socket);
        &&& post.same_handles(&pre)
        &&& post.same_config(&pre)
        &&& r == 0 || r == 1
        &&& (r == 0) == (u.local.port == 0 && port != 0)
        &&& r == 0 ==> post.table() == pre.table_with(
            socket,
            SocketView::Udp(UdpView { local: Endpoint { addr: None, port }, ..u }),
        )
        &&& r == 1 ==> post.sockets_spec() == pre.sockets_spec()
    }

    /// What `send` of the octets `msg` does: on a UDP socket it answers 0
    /// and changes nothing; on a TCP socket it answers 0 exactly when the
    /// socket may send and its transmit buffer is not full, and then as many
    /// leading octets of `msg` as fit are appended to the transmit buffer;
    /// it answers 1 otherwise and changes nothing.
    pub open spec fn send_post(pre: Stack, post: Stack, socket: u8, msg: Seq<u8>, r: u8) -> bool {
        &&& post.same_handles(&pre)
        &&& post.same_config(&pre)
        &&& r == 0 || r == 1
        &&& match pre.view_of(socket) {
            SocketView::Tcp(v) => {
                let n = tcp_tx_room(v, msg.len());
                &&& (r == 0) == (tcp_may_send_spec(v.state) && v.tx_data.len() < v.tx_capacity)
                &&& r == 0 ==> post.table() == pre.table_with(
                    socket,
                    SocketView::Tcp(TcpView { tx_data: v.tx_data + msg.take(n as int), ..v }),
                )
                &&& r == 1 ==> post.sockets_spec() == pre.sockets_spec()
            },
            _ => r == 0 && post.sockets_spec() == pre.sockets_spec(),
        }
    }

    /// What `recv` does: it answers 0 exactly when data was queued, and then
    /// hands over the queued octets up to the end of the receive ring's
    /// storage (at least one), which leave the queue; it answers 1 with
    /// nothing otherwise and changes nothing.
    pub open spec fn recv_post(pre: Stack, post: Stack, socket: u8, r: u8, data: Seq<u8>) -> bool {
        let v = pre.tcp_of(socket);
        &&& post.same_handles(&pre)
        &&& post.same_config(&pre)
        &&& r == 0 || r == 1
        &&& (r == 0) == (v.rx_data.len() > 0)
        &&& r == 0 ==> {
            &&& data == v.rx_data.take(tcp_rx_run(v) as int)
            &&& 0 < data.len()
            &&& post.table() == pre.table_with(socket, SocketView::Tcp(tcp_after_recv(v, tcp_rx_run(v))))
        }
        &&& r == 1 ==> data.len() == 0 && post.sockets_spec() == pre.sockets_spec()
    }

    /// What `close` does: the socket's state moves as smoltcp's `close`
    /// says, and nothing else changes.
    pub open spec fn close_post(pre: Stack, post: Stack, socket: u8) -> bool {
        let v = pre.tcp_of(socket);
        &&& post.same_handles(&pre)
        &&& post.same_config(&pre)
        &&& post.table() == pre.table_with(socket, SocketView::Tcp(TcpView { state: tcp_close_spec(v.state), ..v }))
    }

    /// Whether the stack is as `new` makes it: no handles given out, no
    /// sockets, no addresses, the Ethernet address 00:00:00:00:00:00 and the
    /// clock at 0.
    pub open spec fn is_fresh(&self) -> bool {
        &&& self.handles().is_empty()
        &&& self.next_handle() == 0
        &&& self.table().len() == 0
        &&& self.now() == 0
        &&& self.ip_addrs().len() == 0
        &&& self.eth_addr()@ == seq![0u8, 0u8, 0u8, 0u8, 0u8, 0u8]
    }

    /// A stack with no sockets, no addresses, the Ethernet address
    /// 00:00:00:00:00:00 and the clock at 0.
    pub fn new() -> (s: Stack)
        ensures
            s.wf(),
            s.is_fresh(),
    {
        Stack {
            clock: Clock::new(),
            socket_set: new_socket_set(),
            current_socket_handle: 0,
            handle_map: HashMap::new(),
            ip_addrs: Vec::new(),
            eth_addr: [0u8, 0u8, 0u8, 0u8, 0u8, 0u8],
        }
    }

    /// Adds a socket of the kind and buffer sizes that `smol_socket` asks
    /// for, under the next one-byte handle, and returns that handle.
    /// The handle counter must not wrap (it would panic at 255).
    pub fn add_socket_to_stack(&mut self, smol_socket: SmolSocket) -> (r: u8)
        requires
            old(self).wf(),
            old(self).next_handle() < 255,
            buffers_fit(smol_socket.socket_type, smol_socket.rx_buffer, smol_socket.tx_buffer),
        ensures
            final(self).wf(),
            Stack::add_socket_post(*old(self), *final(self), smol_socket, r),
    {
        let handle = match smol_socket.socket_type {
            SocketType::TCP => add_tcp_socket(&mut self.socket_set, smol_socket.rx_buffer, smol_socket.tx_buffer),
            SocketType::UDP => add_udp_socket(&mut self.socket_set, smol_socket.rx_buffer, smol_socket.tx_buffer),
        };
        let r = self.current_socket_handle;
        self.handle_map.insert(r, (handle, smol_socket.socket_type));
        self.current_socket_handle = self.current_socket_handle + 1;
        proof {
            let i = first_free_slot(old(self).table());
            lemma_first_free_slot(old(self).table());
            assert(!old(self).handles().contains_key(r));
            assert forall|k: u8| #[trigger] self.handles().contains_key(k) implies {
                &&& k < self.next_handle()
                &&& self.slot_of(k) < self.table().len()
                &&& self.table()[self.slot_of(k) as int] is Some
                &&& view_kind(self.view_of(k)) == Some(self.handles()[k].1)
            } by {
                if k != r {
                    assert(old(self).handles().contains_key(k));
                    assert(old(self).slot_of(k) != i);
                    assert(self.slot_of(k) == old(self).slot_of(k));
                }
            }
            assert forall|k1: u8, k2: u8|
                self.handles().contains_key(k1) && self.handles().contains_key(k2) && k1 != k2
                implies self.slot_of(k1) != self.slot_of(k2) by {
                if k1 != r && k2 != r {
                    assert(old(self).handles()[k1] == self.handles()[k1]);
                    assert(old(self).handles()[k2] == self.handles()[k2]);
                } else if k1 == r {
                    assert(old(self).handles().contains_key(k2));
                } else {
                    assert(old(self).handles().contains_key(k1));
                }
            }
        }
        self.current_socket_handle - 1
    }

    /// smoltcp's handle of the socket behind the C side's handle `socket`.
    fn lookup(&self, socket: u8) -> (h: SocketHandle)
        requires
            self.handles().contains_key(socket),
        ensures
            h == self.handles()[socket].0,
    {
        let entry = self.handle_map.get(&socket).unwrap();
        entry.0
    }

    /// A stack whose sockets changed only in the slot behind `k`, and there
    /// into a socket of the same kind, keeps the invariant.
    proof fn lemma_wf_after_socket_change(old_s: &Stack, new_s: &Stack, k: u8, v: SocketView)
        requires
            old_s.wf(),
            old_s.handles().contains_key(k),
            new_s.same_handles(old_s),
            new_s.same_config(old_s),
            view_kind(v) == view_kind(old_s.view_of(k)),
            new_s.table() == old_s.table_with(k, v),
            socket_set_growable(new_s.sockets_spec()),
        ensures
            new_s.wf(),
    {
        assert forall|j: u8| #[trigger] new_s.handles().contains_key(j) implies {
            &&& j < new_s.next_handle()
            &&& new_s.slot_of(j) < new_s.table().len()
            &&& new_s.table()[new_s.slot_of(j) as int] is Some
            &&& view_kind(new_s.view_of(j)) == Some(new_s.handles()[j].1)
        } by {
            assert(old_s.handles().contains_key(j));
        }
    }

    /// The socket set, for the interface to read when it computes its poll
    /// delay.
    pub fn sockets(&self) -> (r: &Sockets)
        ensures
            *r == self.sockets_spec(),
    {
        &self.socket_set
    }

    /// The socket set, for the interface to poll.  Nothing else of the
    /// stack changes.  What the caller does to the set is not known here:
    /// the stack's invariant holds afterwards only if every socket stays in
    /// its slot and of its kind, as smoltcp's `Interface::poll` leaves them
    /// (it walks the set with `iter_mut` and adds or removes none).
    pub fn sockets_mut(&mut self) -> (r: &mut Sockets)
        ensures
            *r == old(self).sockets_spec(),
            final(self).sockets_spec() == *final(r),
            final(self).same_handles(&*old(self)),
            final(self).same_config(&*old(self)),
    {
        &mut self.socket_set
    }

    /// The handle that the next socket will get.
    pub fn next_socket_handle(&self) -> (r: u8)
        ensures
            r == self.next_handle(),
    {
        self.current_socket_handle
    }

    /// Hands a raw packet to the device.  No stack offers it: the answer is
    /// always 1 and nothing changes.
    pub fn uk_send(&mut self) -> (r: u8)
        ensures
            r == 1,
            *final(self) == *old(self),
    {
        1
    }

    /// The clock, in milliseconds, for the interface to be polled with.
    pub fn now_millis(&self) -> (r: i64)
        ensures
            r == self.now(),
    {
        self.clock.elapsed()
    }

    /// The Ethernet address that the interface is to be built with.
    pub fn ethernet_address(&self) -> (r: [u8; 6])
        ensures
            r == self.eth_addr(),
    {
        self.eth_addr
    }

    /// The addresses that the interface is to be built with.
    pub fn ip_addresses(&self) -> (r: Vec<IpCidr>)
        ensures
            r@ == self.ip_addrs(),
    {
        self.ip_addrs.clone()
    }

    /// The kind of the socket behind the C side's handle `socket`, or `None`
    /// for a handle that was never given out.
    pub fn socket_type_of(&self, socket: u8) -> (r: Option<SocketType>)
        ensures
            r == (if self.handles().contains_key(socket) {
                Some(self.handles()[socket].1)
            } else {
                None::<SocketType>
            }),
    {
        match self.handle_map.get(&socket) {
            Some(entry) => Some(entry.1),
            None => None,
        }
    }

    /// Moves the clock on after a poll delay of the interface: by nothing
    /// when the interface asks to be polled at once (`Some(0)`), by the delay
    /// it asks for, or by one millisecond when it has nothing pending
    /// (`None`).  Returns 0.
    pub fn advance_clock(&mut self, delay: Option<u64>) -> (r: u8)
        requires
            i64::MIN <= old(self).now() + delay_step(delay) <= i64::MAX,
        ensures
            r == 0,
            final(self).now() == old(self).now() + delay_step(delay),
            delay matches Some(d) ==> (d <= i64::MAX ==> final(self).now() == old(self).now() + d),
            delay is None ==> final(self).now() == old(self).now() + 1,
            final(self).same_handles(&*old(self)),
            final(self).sockets_spec() == old(self).sockets_spec(),
            final(self).ip_addrs() == old(self).ip_addrs(),
            final(self).eth_addr() == old(self).eth_addr(),
            old(self).wf() ==> final(self).wf(),
    {
        match delay {
            Some(0) => 0,
            Some(d) => {
                self.clock.advance(d);
                0
            },
            None => {
                self.clock.advance(1);
                0
            },
        }
    }

    /// Records an address for the interface.  smoltcp's `IpCidr::new`
    /// panics on a prefix length too long for the family, which `requires`
    /// leaves out.  Returns 0.
    pub fn add_ip_address(&mut self, ip_address: IpAddr, netmask: u8) -> (r: u8)
        requires
            old(self).wf(),
            prefix_fits(ip_address, netmask),
        ensures
            final(self).wf(),
            r == 0,
            final(self).ip_addrs() == old(self).ip_addrs().push(IpCidr { address: ip_address, prefix_len: netmask }),
            final(self).now() == old(self).now(),
            final(self).eth_addr() == old(self).eth_addr(),
            final(self).same_handles(&*old(self)),
            final(self).sockets_spec() == old(self).sockets_spec(),
    {
        self.ip_addrs.push(IpCidr { address: ip_address, prefix_len: netmask });
        proof {
            assert forall|i: int| 0 <= i < self.ip_addrs().len() implies prefix_fits(
                #[trigger] self.ip_addrs()[i].address,
                self.ip_addrs()[i].prefix_len,
            ) by {
                if i < old(self).ip_addrs().len() {
                    assert(self.ip_addrs()[i] == old(self).ip_addrs()[i]);
                }
            }
        }
        0
    }

    /// Records the Ethernet address for the interface.  Returns 0.
    pub fn add_ethernet_address(&mut self, eth_addr: [u8; 6]) -> (r: u8)
        requires
            old(self).wf(),
        ensures
            final(self).wf(),
            r == 0,
            final(self).eth_addr() == eth_addr,
            final(self).now() == old(self).now(),
            final(self).ip_addrs() == old(self).ip_addrs(),
            final(self).same_handles(&*old(self)),
            final(self).sockets_spec() == old(self).sockets_spec(),
    {
        self.eth_addr = eth_addr;
        0
    }

    /// Takes the next one-byte handle without giving it a socket, and
    /// returns the handle after it, which is now the next one.  The counter
    /// must not wrap (it would panic at 255).
    pub fn get_handle(&mut self) -> (r: u8)
        requires
            old(self).wf(),
            old(self).next_handle() < 255,
        ensures
            final(self).wf(),
            final(self).next_handle() == old(self).next_handle() + 1,
            r == final(self).next_handle(),
            final(self).handles() == old(self).handles(),
            final(self).sockets_spec() == old(self).sockets_spec(),
            final(self).same_config(&*old(self)),
    {
        self.current_socket_handle = self.current_socket_handle + 1;
        self.current_socket_handle
    }

    /// Puts the TCP socket `socket` in the `Listen` state on (`server_ip`,
    /// `port`), if it is neither active nor listening.  Returns 0 when it
    /// now listens (the interface's poll delay then moves the clock on, see
    /// `advance_clock`), 1 otherwise, and then nothing changes.
    pub fn listen(&mut self, server_ip: IpAddr, socket: u8, port: u16) -> (r: u8)
        requires
            old(self).wf(),
            old(self).has_socket(socket, SocketType::TCP),
        ensures
            final(self).wf(),
            Stack::listen_post(*old(self), *final(self), server_ip, socket, port, r),
    {
        let handle = self.lookup(socket);
        let active = tcp_is_active(&mut self.socket_set, handle);
        let listening = tcp_is_listening(&mut self.socket_set, handle);
        if !active && !listening {
            if tcp_listen(&mut self.socket_set, handle, server_ip, port) {
                proof {
                    let v = old(self).tcp_of(socket);
                    Self::lemma_wf_after_socket_change(
                        &*old(self),
                        &*self,
                        socket,
                        SocketView::Tcp(tcp_reset_to(v, TcpState::Listen, Endpoint { addr: Some(server_ip), port }, unset_endpoint())),
                    );
                }
                0
            } else {
                1
            }
        } else {
            1
        }
    }

    /// Opens a connection from the TCP socket `client_socket`, at local port
    /// `client_port`, to (`server_ip`, `server_port`), if the socket is not
    /// open.  Returns 0 when the socket now waits for the handshake
    /// (`SynSent`; the interface's poll delay then moves the clock on), 1
    /// otherwise, and then nothing changes.
    pub fn connect(&mut self, server_ip: IpAddr, server_port: u16, client_socket: u8, client_port: u16) -> (r: u8)
        requires
            old(self).wf(),
            old(self).has_socket(client_socket, SocketType::TCP),
        ensures
            final(self).wf(),
            Stack::connect_post(*old(self), *final(self), server_ip, server_port, client_socket, client_port, r),
    {
        let handle = self.lookup(client_socket);
        if !tcp_is_open(&mut self.socket_set, handle) {
            if tcp_connect(&mut self.socket_set, handle, server_ip, server_port, client_port) {
                proof {
                    let v = old(self).tcp_of(client_socket);
                    Self::lemma_wf_after_socket_change(
                        &*old(self),
                        &*self,
                        client_socket,
                        SocketView::Tcp(tcp_reset_to(
                            v,
                            TcpState::SynSent,
                            Endpoint { addr: Some(unspecified_like(server_ip)), port: client_port },
                            Endpoint { addr: Some(server_ip), port: server_port },
                        )),
                    );
                }
                0
            } else {
                1
            }
        } else {
            1
        }
    }

    /// Binds the UDP socket `socket` to `port`, if it is not bound yet.
    /// Returns 0 when it is now bound (the interface's poll delay then moves
    /// the clock on), 1 otherwise, and then nothing changes.
    pub fn bind(&mut self, socket: u8, port: u16) -> (r: u8)
        requires
            old(self).wf(),
            old(self).has_socket(socket, SocketType::UDP),
        ensures
            final(self).wf(),
            Stack::bind_post(*old(self), *final(self), socket, port, r),
    {
        let handle = self.lookup(socket);
        if !udp_is_open(&mut self.socket_set, handle) {
            if udp_bind(&mut self.socket_set, handle, port) {
                proof {
                    Self::lemma_wf_after_socket_change(
                        &*old(self),
                        &*self,
                        socket,
                        SocketView::Udp(UdpView { local: Endpoint { addr: None, port }, ..old(self).udp_of(socket) }),
                    );
                }
                0
            } else {
                1
            }
        } else {
            1
        }
    }

    /// Sends `message` on the socket `client_socket`.  On a TCP socket that
    /// can send, it enqueues as much of the message as the transmit buffer
    /// has room for and returns 0; a TCP socket that cannot send is left as
    /// it is and 1 is returned.  A UDP socket is left as it is and 0 is
    /// returned.
    pub fn send(&mut self, client_socket: u8, message: &str) -> (r: u8)
        requires
            old(self).wf(),
            old(self).handles().contains_key(client_socket),
        ensures
            final(self).wf(),
            Stack::send_post(*old(self), *final(self), client_socket, message.spec_bytes(), r),
    {
        let handle = self.lookup(client_socket);
        let kind = match self.handle_map.get(&client_socket) {
            Some(entry) => entry.1,
            None => SocketType::UDP,
        };
        match kind {
            SocketType::UDP => 0,
            SocketType::TCP => {
                if tcp_can_send(&mut self.socket_set, handle) {
                    let sent = tcp_send_slice(&mut self.socket_set, handle, message.as_bytes());
                    proof {
                        let v = old(self).tcp_of(client_socket);
                        let n = tcp_tx_room(v, message.spec_bytes().len());
                        Self::lemma_wf_after_socket_change(
                            &*old(self),
                            &*self,
                            client_socket,
                            SocketView::Tcp(TcpView { tx_data: v.tx_data + message.spec_bytes().take(n as int), ..v }),
                        );
                    }
                    0
                } else {
                    1
                }
            },
        }
    }

    /// Receives on the TCP socket `server_socket`: when data is queued, it
    /// dequeues the contiguous run of queued octets and returns 0 with them;
    /// otherwise it returns 1 with nothing, and nothing changes.
    pub fn recv(&mut self, server_socket: u8) -> (r: (u8, Vec<u8>))
        requires
            old(self).wf(),
            old(self).has_socket(server_socket, SocketType::TCP),
        ensures
            final(self).wf(),
            Stack::recv_post(*old(self), *final(self), server_socket, r.0, r.1@),
    {
        let handle = self.lookup(server_socket);
        if tcp_can_recv(&mut self.socket_set, handle) {
            match tcp_recv(&mut self.socket_set, handle) {
                Some(data) => {
                    proof {
                        let v = old(self).tcp_of(server_socket);
                        Self::lemma_wf_after_socket_change(
                            &*old(self),
                            &*self,
                            server_socket,
                            SocketView::Tcp(tcp_after_recv(v, tcp_rx_run(v))),
                        );
                    }
                    (0, data)
                },
                None => {
                    proof {
                        assert(false);
                    }
                    (1, Vec::new())
                },
            }
        } else {
            (1, Vec::new())
        }
    }

    /// Closes the transmit half of the TCP socket `socket`: its state moves
    /// as smoltcp's `close` says and nothing else changes.
    pub fn close(&mut self, socket: u8)
        requires
            old(self).wf(),
            old(self).has_socket(socket, SocketType::TCP),
        ensures
            final(self).wf(),
            Stack::close_post(*old(self), *final(self), socket),
    {
        let handle = self.lookup(socket);
        tcp_close(&mut self.socket_set, handle);
        proof {
            let v = old(self).tcp_of(socket);
            Self::lemma_wf_after_socket_change(
                &*old(self),
                &*self,
                socket,
                SocketView::Tcp(TcpView { state: tcp_close_spec(v.state), ..v }),
            );
        }
    }
}

/// The clock never goes back, and moves by exactly the delay asked for: a
/// poll delay of `d` milliseconds, at most `i64::MAX`, moves it on by `d`,
/// and none by one millisecond.  (A larger delay
/// wraps in smoltcp's `Instant + Duration` and moves it back.)
pub proof fn lemma_clock_never_goes_back(delay: Option<u64>)
    requires
        delay matches Some(d) ==> d <= i64::MAX,
    ensures
        delay_step(delay) >= 0,
        delay is None ==> delay_step(delay) == 1,
        delay matches Some(d) ==> delay_step(delay) == d,
{
}

/// A socket is never added under a handle that is in use: the next handle
/// of a well-formed stack stands for no socket yet.
pub proof fn lemma_next_handle_is_free(s: Stack)
    requires
        s.wf(),
    ensures
        !s.handles().contains_key(s.next_handle()),
{
}

/// Two sockets added one after the other get increasing handles, stand for
/// different slots of the set, and the first keeps its slot and kind.
pub proof fn lemma_added_sockets_are_distinct(
    s0: Stack,
    s1: Stack,
    s2: Stack,
    req1: SmolSocket,
    req2: SmolSocket,
    r1: u8,
    r2: u8,
)
    requires
        s0.wf(),
        s1.wf(),
        Stack::add_socket_post(s0, s1, req1, r1),
        Stack::add_socket_post(s1, s2, req2, r2),
    ensures
        r1 < r2,
        s2.slot_of(r1) != s2.slot_of(r2),
        s2.handles()[r1] == s1.handles()[r1],
        s2.handles()[r1].1 == req1.socket_type,
{
    assert(s1.handles().contains_key(r1));
    lemma_first_free_slot(s1.table());
}

/// Adding a socket is determined by the stack's state and the request:
/// from stacks in the same state, requests that differ at most in their
/// `socket_handle` give the same handle and leave the stacks in the same
/// state.  In particular `add_socket` is `add_socket_with_buffer` with
/// buffers of 65535 octets.
pub proof fn lemma_add_socket_is_determined(
    s1: Stack,
    s2: Stack,
    t1: Stack,
    t2: Stack,
    req1: SmolSocket,
    req2: SmolSocket,
    r1: u8,
    r2: u8,
)
    requires
        s1.same_state(&s2),
        req1.socket_type == req2.socket_type,
        req1.rx_buffer == req2.rx_buffer,
        req1.tx_buffer == req2.tx_buffer,
        Stack::add_socket_post(s1, t1, req1, r1),
        Stack::add_socket_post(s2, t2, req2, r2),
    ensures
        r1 == r2,
        t1.same_state(&t2),
{
    assert(t1.handles().dom() =~= t2.handles().dom());
    assert forall|k: u8| #[trigger] t1.handles().contains_key(k) implies t1.slot_of(k) == t2.slot_of(k)
        && t1.handles()[k].1 == t2.handles()[k].1 by {
        if k != r1 {
            assert(s1.handles().contains_key(k));
        }
    }
}

/// Listening twice: once a socket listens, a second `listen` on it is
/// refused and changes nothing.
pub proof fn lemma_listen_twice_refused(
    s0: Stack,
    s1: Stack,
    s2: Stack,
    ip1: IpAddr,
    ip2: IpAddr,
    socket: u8,
    port1: u16,
    port2: u16,
    r2: u8,
)
    requires
        s0.wf(),
        s0.has_socket(socket, SocketType::TCP),
        Stack::listen_post(s0, s1, ip1, socket, port1, 0),
        Stack::listen_post(s1, s2, ip2, socket, port2, r2),
    ensures
        r2 == 1,
        s2.sockets_spec() == s1.sockets_spec(),
{
    assert(s1.tcp_of(socket).state == TcpState::Listen);
}

/// Closing a socket that listens makes it `Closed` again, so that it may
/// listen anew.
pub proof fn lemma_close_ends_listen(
    s0: Stack,
    s1: Stack,
    s2: Stack,
    ip: IpAddr,
    socket: u8,
    port: u16,
)
    requires
        s0.wf(),
        s0.has_socket(socket, SocketType::TCP),
        Stack::listen_post(s0, s1, ip, socket, port, 0),
        Stack::close_post(s1, s2, socket),
    ensures
        s2.tcp_of(socket).state == TcpState::Closed,
        s2.same_handles(&s0),
        s2.same_config(&s0),
{
}

/// Binding twice: once a UDP socket is bound, a second `bind` on it is
/// refused and changes nothing.
pub proof fn lemma_bind_twice_refused(s0: Stack, s1: Stack, s2: Stack, socket: u8, port1: u16, port2: u16, r2: u8)
    requires
        s0.wf(),
        s0.has_socket(socket, SocketType::UDP),
        Stack::bind_post(s0, s1, socket, port1, 0),
        Stack::bind_post(s1, s2, socket, port2, r2),
    ensures
        r2 == 1,
        s2.sockets_spec() == s1.sockets_spec(),
{
}

/// Received octets leave the queue in order: what `recv` hands over,
/// followed by what stays queued, is what was queued before.
pub proof fn lemma_recv_conserves_octets(s0: Stack, s1: Stack, socket: u8, data: Seq<u8>)
    requires
        s0.wf(),
        s0.has_socket(socket, SocketType::TCP),
        Stack::recv_post(s0, s1, socket, 0, data),
    ensures
        data + s1.tcp_of(socket).rx_data == s0.tcp_of(socket).rx_data,
{
    let v = s0.tcp_of(socket);
    assert(data + v.rx_data.skip(tcp_rx_run(v) as int) =~= v.rx_data);
}

/// Sent octets join the transmit queue in order: after a successful `send`
/// the queue is what it was, followed by the leading octets of the message.
pub proof fn lemma_send_appends(s0: Stack, s1: Stack, socket: u8, msg: Seq<u8>)
    requires
        s0.wf(),
        s0.has_socket(socket, SocketType::TCP),
        Stack::send_post(s0, s1, socket, msg, 0),
    ensures
        ({
            let before = s0.tcp_of(socket).tx_data;
            let after = s1.tcp_of(socket).tx_data;
            &&& after.subrange(0, before.len() as int) == before
            &&& msg.take(after.len() - before.len()) == after.skip(before.len() as int)
        }),
{
    let v = s0.tcp_of(socket);
    let n = tcp_tx_room(v, msg.len());
    let after = v.tx_data + msg.take(n as int);
    assert(after.subrange(0, v.tx_data.len() as int) =~= v.tx_data);
    assert(after.skip(v.tx_data.len() as int) =~= msg.take(n as int));
}

/// A stack together with the kind of device it drives.  The device itself,
/// and the smoltcp interface built on it, stay with the host.
pub enum StackType {
    Tap(Stack),
    Loopback(Stack),
    UkNetdevInterface(Stack),
}

impl StackType {
    /// The stack, whatever the device.
    pub open spec fn stack(&self) -> Stack {
        match self {
            StackType::Tap(s) => *s,
            StackType::Loopback(s) => *s,
            StackType::UkNetdevInterface(s) => *s,
        }
    }

    /// Whether the stack drives a uknetdev device.
    pub open spec fn is_uknetdev(&self) -> bool {
        self is UkNetdevInterface
    }

    /// Whether `self` and `other` drive the same kind of device.
    pub open spec fn same_device(&self, other: &StackType) -> bool {
        &&& (self is Tap <==> other is Tap)
        &&& (self is Loopback <==> other is Loopback)
        &&& (self is UkNetdevInterface <==> other is UkNetdevInterface)
    }

    /// A fresh stack for a TAP interface.
    pub fn new_tap_stack() -> (s: StackType)
        ensures
            s is Tap,
            s.stack().wf(),
            s.stack().is_fresh(),
    {
        StackType::Tap(Stack::new())
    }

    /// A fresh stack for a loopback device.
    pub fn new_loopback_stack() -> (s: StackType)
        ensures
            s is Loopback,
            s.stack().wf(),
            s.stack().is_fresh(),
    {
        StackType::Loopback(Stack::new())
    }

    /// A fresh stack for a uknetdev device.
    pub fn new_uknetdev_stack() -> (s: StackType)
        ensures
            s is UkNetdevInterface,
            s.stack().wf(),
            s.stack().is_fresh(),
    {
        StackType::UkNetdevInterface(Stack::new())
    }

    /// The stack, to operate on.  The kind of device stays.
    pub fn stack_mut(&mut self) -> (r: &mut Stack)
        ensures
            *r == old(self).stack(),
            final(self).stack() == *final(r),
            final(self).same_device(&*old(self)),
    {
        match self {
            StackType::Tap(s) => s,
            StackType::Loopback(s) => s,
            StackType::UkNetdevInterface(s) => s,
        }
    }
}

} // verus!
