//! Reflecting frames back to where they came from.
//!
//! A uknetdev stack answers every Ethernet frame addressed to it by sending
//! it back with the source and destination exchanged at each layer it
//! knows: the Ethernet addresses, then for IPv4 the IP addresses, then for
//! UDP the ports.  `Stack::uk_recv` does so through smoltcp's packet views;
//! `uknetdev_input` does the same on the fixed C header layout.

use vstd::prelude::*;
use smoltcp::wire::{EthernetAddress, EthernetFrame, EthernetProtocol, IpProtocol, Ipv4Address, Ipv4Packet, UdpPacket};
use crate::interface::{ETH_HEADER_SIZE, ETH_IPV4, IP_HEADER_SIZE, PROTO_UDP, UDP_HEADER_SIZE};
use crate::stack::Stack;

verus! {

/// The 16-bit big-endian number at `i`.
pub open spec fn be16(f: Seq<u8>, i: int) -> int {
    f[i] * 256 + f[i + 1]
}

/// The 16-bit little-endian number at `i`.
pub open spec fn le16(f: Seq<u8>, i: int) -> int {
    f[i] + f[i + 1] * 256
}

/// `f` with the octets from `at` on replaced by `a`.
pub open spec fn put(f: Seq<u8>, at: int, a: Seq<u8>) -> Seq<u8> {
    f.subrange(0, at) + a + f.subrange(at + a.len(), f.len() as int)
}

/// `f` with the `n` octets at `i` and the `n` octets at `j` exchanged (the
/// second run written last).
pub open spec fn exchange(f: Seq<u8>, i: int, j: int, n: int) -> Seq<u8> {
    put(put(f, i, f.subrange(j, j + n)), j, f.subrange(i, i + n))
}

/// `f` with the 16-bit big-endian number `v` written at `i`.
pub open spec fn put16(f: Seq<u8>, i: int, v: int) -> Seq<u8> {
    put(f, i, seq![(v / 256) as u8, (v % 256) as u8])
}

// ---------------------------------------------------------------------------
// smoltcp's packet views.

/// Offset of the IPv4 header in a frame.
pub open spec fn ip_at() -> int {
    ETH_HEADER_SIZE as int
}

/// The header length that smoltcp's `Ipv4Packet::header_len` reads from the
/// IPv4 header at `s`: the low nibble of its first octet, in 32-bit words.
pub open spec fn ipv4_hl(f: Seq<u8>, s: int) -> int {
    (f[s] % 16) * 4
}

/// The total length field of the IPv4 header at `s`.
pub open spec fn ipv4_tl(f: Seq<u8>, s: int) -> int {
    be16(f, s + 2)
}

/// `Ipv4Packet::check_len` on the octets of `f` from `s` on: the fixed
/// header fits, and the header length, the total length and the buffer
/// agree.
pub open spec fn ipv4_ok(f: Seq<u8>, s: int) -> bool {
    let n = f.len() - s;
    &&& n >= 20
    &&& n >= ipv4_hl(f, s)
    &&& ipv4_hl(f, s) <= ipv4_tl(f, s)
    &&& n >= ipv4_tl(f, s)
}

/// `UdpPacket::check_len` on the octets of `f` from `a` to `b`: the header
/// fits, and the length field is at least a header and at most the buffer.
pub open spec fn udp_ok(f: Seq<u8>, a: int, b: int) -> bool {
    let n = b - a;
    &&& n >= 8
    &&& be16(f, a + 4) <= n
    &&& be16(f, a + 4) >= 8
}

/// Whether the frame's EtherType (big-endian at 12) is IPv4.
pub open spec fn is_ipv4_frame(f: Seq<u8>) -> bool {
    be16(f, 12) == 0x0800
}

/// The frame after the Ethernet addresses are exchanged, as `uk_recv` does
/// it: the source set to the old destination, then the destination to the
/// old source.
pub open spec fn swap_eth(f: Seq<u8>) -> Seq<u8> {
    put(put(f, 6, f.subrange(0, 6)), 0, f.subrange(6, 12))
}

/// The frame after the IPv4 addresses are exchanged.
pub open spec fn swap_ip(f: Seq<u8>) -> Seq<u8> {
    put(put(f, ip_at() + 12, f.subrange(ip_at() + 16, ip_at() + 20)), ip_at() + 16, f.subrange(ip_at() + 12, ip_at() + 16))
}

/// The frame after the UDP ports of the datagram at `s` are exchanged.
pub open spec fn swap_ports(f: Seq<u8>, s: int) -> Seq<u8> {
    put16(put16(f, s, be16(f, s + 2)), s + 2, be16(f, s))
}

/// What `uk_recv` makes of a frame addressed to `own`, layer by layer.
pub open spec fn reflect(f: Seq<u8>, own: Seq<u8>) -> Seq<u8> {
    if f.subrange(0, 6) != own {
        f
    } else {
        let g1 = swap_eth(f);
        if !is_ipv4_frame(g1) {
            g1
        } else {
            let g2 = swap_ip(g1);
            if g2[ip_at() + 9] != PROTO_UDP {
                g2
            } else {
                swap_ports(g2, ip_at() + ipv4_hl(g2, ip_at()))
            }
        }
    }
}

/// Why a frame could not be reflected: the check of smoltcp's view of that
/// layer refused it.
#[derive(Clone, Copy, Debug, PartialEq, Eq, Structural)]
pub enum FrameError {
    Ethernet,
    Ipv4,
    Udp,
}

/// What `check_frame` answers on a frame: the first layer whose check fails,
/// or whether the frame was addressed to `own` (and is to be sent back).
pub open spec fn reflect_result(f: Seq<u8>, own: Seq<u8>) -> Result<bool, FrameError> {
    if f.len() < 14 {
        Err(FrameError::Ethernet)
    } else if f.subrange(0, 6) != own {
        Ok(false)
    } else {
        let g1 = swap_eth(f);
        if !is_ipv4_frame(g1) {
            Ok(true)
        } else if !ipv4_ok(g1, ip_at()) {
            Err(FrameError::Ipv4)
        } else {
            let g2 = swap_ip(g1);
            if g2[ip_at() + 9] != PROTO_UDP {
                Ok(true)
            } else if !udp_ok(g2, ip_at() + ipv4_hl(g2, ip_at()), ip_at() + ipv4_tl(g2, ip_at())) {
                Err(FrameError::Udp)
            } else {
                Ok(true)
            }
        }
    }
}

/// `EthernetFrame::new_checked(frame)` succeeds: the frame holds a header.
#[verifier::external_body]
fn ethernet_frame_checked(frame: &[u8]) -> (r: bool)
    ensures
        r == (frame@.len() >= 14),
{
    EthernetFrame::new_checked(frame).is_ok()
}

/// `EthernetFrame::dst_addr`: octets 0 to 6.
#[verifier::external_body]
fn ethernet_dst_addr(frame: &[u8]) -> (r: [u8; 6])
    requires
        frame@.len() >= 14,
    ensures
        r@ == frame@.subrange(0, 6),
{
    EthernetFrame::new_unchecked(frame).dst_addr().0
}

/// `EthernetFrame::src_addr`: octets 6 to 12.
#[verifier::external_body]
fn ethernet_src_addr(frame: &[u8]) -> (r: [u8; 6])
    requires
        frame@.len() >= 14,
    ensures
        r@ == frame@.subrange(6, 12),
{
    EthernetFrame::new_unchecked(frame).src_addr().0
}

/// `EthernetFrame::set_dst_addr`: writes octets 0 to 6.
#[verifier::external_body]
fn ethernet_set_dst_addr(frame: &mut [u8], a: [u8; 6])
    requires
        old(frame)@.len() >= 14,
    ensures
        final(frame)@ == put(old(frame)@, 0, a@),
{
    EthernetFrame::new_unchecked(frame).set_dst_addr(EthernetAddress(a))
}

/// `EthernetFrame::set_src_addr`: writes octets 6 to 12.
#[verifier::external_body]
fn ethernet_set_src_addr(frame: &mut [u8], a: [u8; 6])
    requires
        old(frame)@.len() >= 14,
    ensures
        final(frame)@ == put(old(frame)@, 6, a@),
{
    EthernetFrame::new_unchecked(frame).set_src_addr(EthernetAddress(a))
}

/// `EthernetFrame::ethertype` is `EthernetProtocol::Ipv4`: the big-endian
/// field at 12 is 0x0800.
#[verifier::external_body]
fn ethernet_is_ipv4(frame: &[u8]) -> (r: bool)
    requires
        frame@.len() >= 14,
    ensures
        r == is_ipv4_frame(frame@),
{
    match EthernetFrame::new_unchecked(frame).ethertype() {
        EthernetProtocol::Ipv4 => true,
        _ => false,
    }
}

/// `Ipv4Packet::new_checked` on the octets from `start` on succeeds.
#[verifier::external_body]
fn ipv4_packet_checked(frame: &[u8], start: usize) -> (r: bool)
    requires
        start <= frame@.len(),
    ensures
        r == ipv4_ok(frame@, start as int),
{
    Ipv4Packet::new_checked(&frame[start..]).is_ok()
}

/// `Ipv4Packet::header_len` of the header at `start`.
#[verifier::external_body]
fn ipv4_header_len(frame: &[u8], start: usize) -> (r: u8)
    requires
        start + 20 <= frame@.len(),
    ensures
        r == ipv4_hl(frame@, start as int),
{
    Ipv4Packet::new_unchecked(&frame[start..]).header_len()
}

/// `Ipv4Packet::total_len` of the header at `start`.
#[verifier::external_body]
fn ipv4_total_len(frame: &[u8], start: usize) -> (r: u16)
    requires
        start + 20 <= frame@.len(),
    ensures
        r == ipv4_tl(frame@, start as int),
{
    Ipv4Packet::new_unchecked(&frame[start..]).total_len()
}

/// `Ipv4Packet::protocol` of the header at `start` is `IpProtocol::Udp`:
/// the octet at 9 is 17.
#[verifier::external_body]
fn ipv4_is_udp(frame: &[u8], start: usize) -> (r: bool)
    requires
        start + 20 <= frame@.len(),
    ensures
        r == (frame@[start + 9] == PROTO_UDP),
{
    match Ipv4Packet::new_unchecked(&frame[start..]).protocol() {
        IpProtocol::Udp => true,
        _ => false,
    }
}

/// `Ipv4Packet::src_addr` of the header at `start`: its octets 12 to 16.
#[verifier::external_body]
fn ipv4_src_addr(frame: &[u8], start: usize) -> (r: [u8; 4])
    requires
        start + 20 <= frame@.len(),
    ensures
        r@ == frame@.subrange(start + 12, start + 16),
{
    Ipv4Packet::new_unchecked(&frame[start..]).src_addr().0
}

/// `Ipv4Packet::dst_addr` of the header at `start`: its octets 16 to 20.
#[verifier::external_body]
fn ipv4_dst_addr(frame: &[u8], start: usize) -> (r: [u8; 4])
    requires
        start + 20 <= frame@.len(),
    ensures
        r@ == frame@.subrange(start + 16, start + 20),
{
    Ipv4Packet::new_unchecked(&frame[start..]).dst_addr().0
}

/// `Ipv4Packet::set_src_addr` of the header at `start`.
#[verifier::external_body]
fn ipv4_set_src_addr(frame: &mut [u8], start: usize, a: [u8; 4])
    requires
        start + 20 <= old(frame)@.len(),
    ensures
        final(frame)@ == put(old(frame)@, start + 12, a@),
{
    Ipv4Packet::new_unchecked(&mut frame[start..]).set_src_addr(Ipv4Address(a))
}

/// `Ipv4Packet::set_dst_addr` of the header at `start`.
#[verifier::external_body]
fn ipv4_set_dst_addr(frame: &mut [u8], start: usize, a: [u8; 4])
    requires
        start + 20 <= old(frame)@.len(),
    ensures
        final(frame)@ == put(old(frame)@, start + 16, a@),
{
    Ipv4Packet::new_unchecked(&mut frame[start..]).set_dst_addr(Ipv4Address(a))
}

/// `UdpPacket::new_checked` on the octets from `start` to `end` succeeds.
#[verifier::external_body]
fn udp_packet_checked(frame: &[u8], start: usize, end: usize) -> (r: bool)
    requires
        start <= end <= frame@.len(),
    ensures
        r == udp_ok(frame@, start as int, end as int),
{
    UdpPacket::new_checked(&frame[start..end]).is_ok()
}

/// `UdpPacket::src_port` of the datagram at `start`.
#[verifier::external_body]
fn udp_src_port(frame: &[u8], start: usize) -> (r: u16)
    requires
        start + 8 <= frame@.len(),
    ensures
        r == be16(frame@, start as int),
{
    UdpPacket::new_unchecked(&frame[start..]).src_port()
}

/// `UdpPacket::dst_port` of the datagram at `start`.
#[verifier::external_body]
fn udp_dst_port(frame: &[u8], start: usize) -> (r: u16)
    requires
        start + 8 <= frame@.len(),
    ensures
        r == be16(frame@, start + 2),
{
    UdpPacket::new_unchecked(&frame[start..]).dst_port()
}

/// `UdpPacket::set_src_port` of the datagram at `start`: big-endian.
#[verifier::external_body]
fn udp_set_src_port(frame: &mut [u8], start: usize, v: u16)
    requires
        start + 8 <= old(frame)@.len(),
    ensures
        final(frame)@ == put16(old(frame)@, start as int, v as int),
{
    UdpPacket::new_unchecked(&mut frame[start..]).set_src_port(v)
}

/// `UdpPacket::set_dst_port` of the datagram at `start`: big-endian.
#[verifier::external_body]
fn udp_set_dst_port(frame: &mut [u8], start: usize, v: u16)
    requires
        start + 8 <= old(frame)@.len(),
    ensures
        final(frame)@ == put16(old(frame)@, start + 2, v as int),
{
    UdpPacket::new_unchecked(&mut frame[start..]).set_dst_port(v)
}

/// Whether two Ethernet addresses are the same.
fn same_address(a: &[u8; 6], b: &[u8; 6]) -> (r: bool)
    ensures
        r == (a@ == b@),
{
    let mut i: usize = 0;
    while i < 6
        invariant
            0 <= i <= 6,
            a@.len() == 6,
            b@.len() == 6,
            forall|j: int| 0 <= j < i ==> a@[j] == b@[j],
        decreases 6 - i,
    {
        if a[i] != b[i] {
            return false;
        }
        i = i + 1;
    }
    assert(a@ =~= b@);
    true
}

/// Reflects `frame` if it is addressed to `own_mac`, layer by layer through
/// smoltcp's packet views, and answers whether it is to be sent back, or the
/// layer whose check refused it (checks are made on the way down, after the
/// layers above were exchanged).
fn reflect_frame(frame: &mut [u8], own_mac: [u8; 6]) -> (r: Result<bool, FrameError>)
    ensures
        r == reflect_result(old(frame)@, own_mac@),
        r is Ok ==> final(frame)@ == reflect(old(frame)@, own_mac@),
{
    if !ethernet_frame_checked(frame) {
        return Err(FrameError::Ethernet);
    }
    let dst = ethernet_dst_addr(frame);
    if !same_address(&dst, &own_mac) {
        return Ok(false);
    }
    let src = ethernet_src_addr(frame);
    ethernet_set_src_addr(frame, dst);
    ethernet_set_dst_addr(frame, src);
    if ethernet_is_ipv4(frame) {
        if !ipv4_packet_checked(frame, ETH_HEADER_SIZE) {
            return Err(FrameError::Ipv4);
        }
        let ip_src = ipv4_src_addr(frame, ETH_HEADER_SIZE);
        let ip_dst = ipv4_dst_addr(frame, ETH_HEADER_SIZE);
        ipv4_set_src_addr(frame, ETH_HEADER_SIZE, ip_dst);
        ipv4_set_dst_addr(frame, ETH_HEADER_SIZE, ip_src);
        if ipv4_is_udp(frame, ETH_HEADER_SIZE) {
            let header_len = ipv4_header_len(frame, ETH_HEADER_SIZE) as usize;
            let total_len = ipv4_total_len(frame, ETH_HEADER_SIZE) as usize;
            let start = ETH_HEADER_SIZE + header_len;
            let end = ETH_HEADER_SIZE + total_len;
            if !udp_packet_checked(frame, start, end) {
                return Err(FrameError::Udp);
            }
            let src_port = udp_src_port(frame, start);
            let dst_port = udp_dst_port(frame, start);
            udp_set_src_port(frame, start, dst_port);
            udp_set_dst_port(frame, start, src_port);
        }
    }
    Ok(true)
}

impl Stack {
    /// Checks a received frame as `uk_recv` would, without changing it:
    /// the layer whose check refuses it, or whether it is addressed to
    /// `own_mac`.  `uk_recv` may be called exactly when this is `Ok`.
    pub fn check_frame(frame: &[u8], own_mac: [u8; 6]) -> (r: Result<bool, FrameError>)
        ensures
            r == reflect_result(frame@, own_mac@),
    {
        let mut copy = vstd::slice::slice_to_vec(frame);
        reflect_frame(copy.as_mut_slice(), own_mac)
    }

    /// Sends a received frame back if it is addressed to `own_mac`: the
    /// Ethernet addresses are exchanged, and for IPv4 the IP addresses, and
    /// for UDP the ports.  Answers whether the frame is to be sent back.
    /// The frame must pass the checks of smoltcp's views of each layer it
    /// reaches (see `check_frame`).
    pub fn uk_recv(frame: &mut [u8], own_mac: [u8; 6]) -> (reply: bool)
        requires
            reflect_result(old(frame)@, own_mac@) is Ok,
        ensures
            reflect_result(old(frame)@, own_mac@) == Ok::<bool, FrameError>(reply),
            final(frame)@ == reflect(old(frame)@, own_mac@),
    {
        match reflect_frame(frame, own_mac) {
            Ok(reply) => reply,
            Err(_) => false,
        }
    }
}

// ---------------------------------------------------------------------------
// The fixed C header layout.

/// Whether the packet holds every header that `uknetdev_input` reads: the
/// Ethernet header, for IPv4 the 20-octet IP header after it, and for UDP
/// the UDP header after that.
pub open spec fn input_fits(f: Seq<u8>) -> bool {
    &&& f.len() >= ETH_HEADER_SIZE
    &&& le16(f, 12) == ETH_IPV4 ==> f.len() >= ETH_HEADER_SIZE + IP_HEADER_SIZE
    &&& le16(f, 12) == ETH_IPV4 && f[23] == PROTO_UDP ==> f.len() >= ETH_HEADER_SIZE + IP_HEADER_SIZE + UDP_HEADER_SIZE
}

/// What `uknetdev_input` makes of a packet: an IPv4 UDP packet gets its IP
/// addresses (octets 26 to 30 and 30 to 34) and its ports (octets 34 to 36
/// and 36 to 38) exchanged; any other packet stays as it is.
pub open spec fn input_reflect(f: Seq<u8>) -> Seq<u8> {
    if le16(f, 12) == ETH_IPV4 && f[23] == PROTO_UDP {
        exchange(exchange(f, 26, 30, 4), 34, 36, 2)
    } else {
        f
    }
}

/// Exchanges two octets of `p` by three exclusive-ors, as the C layout
/// handling exchanges header fields.
fn xor_swap(p: &mut [u8], i: usize, j: usize)
    requires
        i < old(p)@.len(),
        j < old(p)@.len(),
        i != j,
    ensures
        final(p)@ == old(p)@.update(i as int, old(p)@[j as int]).update(j as int, old(p)@[i as int]),
{
    let a = p[i];
    let b = p[j];
    p[i] = p[i] ^ p[j];
    p[j] = p[j] ^ p[i];
    p[i] = p[i] ^ p[j];
    assert((b ^ (a ^ b)) == a && ((a ^ b) ^ (b ^ (a ^ b))) == b) by (bit_vector);
    assert(final(p)@ =~= old(p)@.update(i as int, old(p)@[j as int]).update(j as int, old(p)@[i as int])) by {
        assert(p@[i as int] == b);
        assert(p@[j as int] == a);
    }
}

/// Answers a UDP-over-IPv4 packet in place, on the fixed C header layout:
/// the EtherType is read as the host reads it (little-endian, where IPv4
/// is `ETH_IPV4`), the IP header is taken to be 20 octets, and the IP
/// addresses and then the UDP ports are exchanged.  Any other packet stays
/// as it is.  Returns 0.
pub fn uknetdev_input(packet: &mut [u8]) -> (r: u8)
    requires
        input_fits(old(packet)@),
    ensures
        r == 0,
        final(packet)@ == input_reflect(old(packet)@),
{
    let ether_type = (packet[12] as u16) + (packet[13] as u16) * 256;
    if ether_type == ETH_IPV4 {
        if packet[ETH_HEADER_SIZE + 9] == PROTO_UDP {
            let ghost f = packet@;
            let ip = ETH_HEADER_SIZE;
            xor_swap(packet, ip + 12, ip + 16);
            xor_swap(packet, ip + 13, ip + 17);
            xor_swap(packet, ip + 14, ip + 18);
            xor_swap(packet, ip + 15, ip + 19);
            let ghost g = packet@;
            assert(g =~= exchange(f, 26, 30, 4));
            let udp = ETH_HEADER_SIZE + IP_HEADER_SIZE;
            xor_swap(packet, udp, udp + 2);
            xor_swap(packet, udp + 1, udp + 3);
            assert(packet@ =~= exchange(g, 34, 36, 2));
        }
    }
    0
}

/// Answering a packet twice gives it back: `uknetdev_input` undoes itself.
pub proof fn lemma_uknetdev_input_involution(f: Seq<u8>)
    requires
        input_fits(f),
    ensures
        input_fits(input_reflect(f)),
        input_reflect(input_reflect(f)) == f,
{
    if le16(f, 12) == ETH_IPV4 && f[23] == PROTO_UDP {
        let g = input_reflect(f);
        assert(g[12] == f[12] && g[13] == f[13] && g[23] == f[23]);
        assert(input_reflect(g) =~= f);
    }
}

/// A big-endian 16-bit number splits back into its two octets.
proof fn lemma_be16_octets(a: u8, b: u8)
    ensures
        ((a * 256 + b) / 256) as u8 == a,
        ((a * 256 + b) % 256) as u8 == b,
{
    assert((a * 256 + b) / 256 == a as int && (a * 256 + b) % 256 == b as int) by (nonlinear_arith)
        requires
            0 <= a < 256,
            0 <= b < 256,
    ;
}

/// The octets of a frame after `put`.
proof fn lemma_put(f: Seq<u8>, at: int, a: Seq<u8>)
    requires
        0 <= at,
        at + a.len() <= f.len(),
    ensures
        put(f, at, a).len() == f.len(),
        forall|i: int|
            0 <= i < f.len() ==> #[trigger] put(f, at, a)[i] == (if at <= i < at + a.len() {
                a[i - at]
            } else {
                f[i]
            }),
{
}

/// The octets of a frame after the Ethernet addresses are exchanged.
proof fn lemma_swap_eth(f: Seq<u8>)
    requires
        f.len() >= 14,
    ensures
        swap_eth(f).len() == f.len(),
        forall|i: int|
            0 <= i < f.len() ==> #[trigger] swap_eth(f)[i] == (if i < 6 {
                f[i + 6]
            } else if i < 12 {
                f[i - 6]
            } else {
                f[i]
            }),
{
    lemma_put(f, 6, f.subrange(0, 6));
    lemma_put(put(f, 6, f.subrange(0, 6)), 0, f.subrange(6, 12));
}

/// The octets of a frame after the IP addresses are exchanged.
proof fn lemma_swap_ip(f: Seq<u8>)
    requires
        f.len() >= 34,
    ensures
        swap_ip(f).len() == f.len(),
        forall|i: int|
            0 <= i < f.len() ==> #[trigger] swap_ip(f)[i] == (if 26 <= i < 30 {
                f[i + 4]
            } else if 30 <= i < 34 {
                f[i - 4]
            } else {
                f[i]
            }),
{
    lemma_put(f, 26, f.subrange(30, 34));
    lemma_put(put(f, 26, f.subrange(30, 34)), 30, f.subrange(26, 30));
}

/// The octets of a frame after the UDP ports at `st` are exchanged.
proof fn lemma_swap_ports(f: Seq<u8>, st: int)
    requires
        0 <= st,
        st + 4 <= f.len(),
    ensures
        swap_ports(f, st).len() == f.len(),
        forall|i: int|
            0 <= i < f.len() ==> #[trigger] swap_ports(f, st)[i] == (if st <= i < st + 2 {
                f[i + 2]
            } else if st + 2 <= i < st + 4 {
                f[i - 2]
            } else {
                f[i]
            }),
{
    lemma_be16_octets(f[st + 2], f[st + 3]);
    lemma_be16_octets(f[st], f[st + 1]);
    let g = put16(f, st, be16(f, st + 2));
    lemma_put(f, st, seq![(be16(f, st + 2) / 256) as u8, (be16(f, st + 2) % 256) as u8]);
    lemma_put(g, st + 2, seq![(be16(f, st) / 256) as u8, (be16(f, st) % 256) as u8]);
}

/// Answering a reflected frame gives the received frame back: the frame
/// that `uk_recv` sends is addressed to the sender of the received one, and
/// reflecting it with the sender's address undoes every exchange.  This
/// holds when the IPv4 header of a UDP frame is at least 20 octets long, so
/// that the ports lie after the IP addresses.
pub proof fn lemma_reflect_involution(f: Seq<u8>, own: Seq<u8>)
    requires
        reflect_result(f, own) == Ok::<bool, FrameError>(true),
        is_ipv4_frame(swap_eth(f)) && swap_ip(swap_eth(f))[ip_at() + 9] == PROTO_UDP ==> ipv4_hl(f, ip_at()) >= 20,
    ensures
        reflect(f, own).subrange(0, 6) == f.subrange(6, 12),
        reflect(reflect(f, own), f.subrange(6, 12)) == f,
{
    let g1 = swap_eth(f);
    lemma_swap_eth(f);
    lemma_swap_eth(g1);
    assert(g1.subrange(0, 6) =~= f.subrange(6, 12));
    if !is_ipv4_frame(g1) {
        assert(reflect(g1, f.subrange(6, 12)) =~= f);
    } else {
        let g2 = swap_ip(g1);
        lemma_swap_ip(g1);
        assert(g2.subrange(0, 6) =~= f.subrange(6, 12));
        let h1 = swap_eth(g2);
        lemma_swap_eth(g2);
        lemma_swap_ip(h1);
        if g2[ip_at() + 9] != PROTO_UDP {
            assert(reflect(g2, f.subrange(6, 12)) =~= f);
        } else {
            let st = ip_at() + ipv4_hl(g2, ip_at());
            let g3 = swap_ports(g2, st);
            lemma_swap_ports(g2, st);
            assert(g3.subrange(0, 6) =~= f.subrange(6, 12));
            let k1 = swap_eth(g3);
            lemma_swap_eth(g3);
            let k2 = swap_ip(k1);
            lemma_swap_ip(k1);
            assert(ipv4_hl(k2, ip_at()) == ipv4_hl(g2, ip_at()));
            lemma_swap_ports(k2, st);
            assert(reflect(g3, f.subrange(6, 12)) =~= f);
        }
    }
}

/// The sum of the `n` big-endian 16-bit words of `f` from `a` on, as the
/// Internet checksum adds them up (before folding the carries).
pub open spec fn word_sum(f: Seq<u8>, a: int, n: nat) -> int
    decreases n,
{
    if n == 0 {
        0
    } else {
        word_sum(f, a, (n - 1) as nat) + be16(f, a + 2 * (n - 1))
    }
}

/// Word sums only read their words.
proof fn lemma_word_sum_same(f: Seq<u8>, g: Seq<u8>, a: int, n: nat)
    requires
        forall|i: int| a <= i < a + 2 * n ==> f[i] == g[i],
    ensures
        word_sum(f, a, n) == word_sum(g, a, n),
    decreases n,
{
    if n > 0 {
        lemma_word_sum_same(f, g, a, (n - 1) as nat);
    }
}

/// Exchanging the two address words pairs of an IPv4 header (octets 12 to
/// 16 and 16 to 20) leaves the word sum of any header of at least 20
/// octets unchanged.
proof fn lemma_word_sum_swap_addresses(f: Seq<u8>, g: Seq<u8>, a: int, n: nat)
    requires
        n >= 10,
        0 <= a,
        a + 2 * n <= f.len(),
        g.len() == f.len(),
        forall|i: int| a <= i < a + 12 ==> f[i] == g[i],
        forall|i: int| a + 20 <= i < a + 2 * n ==> f[i] == g[i],
        forall|i: int| a + 12 <= i < a + 16 ==> g[i] == f[i + 4],
        forall|i: int| a + 16 <= i < a + 20 ==> g[i] == f[i - 4],
    ensures
        word_sum(f, a, n) == word_sum(g, a, n),
    decreases n,
{
    if n > 10 {
        lemma_word_sum_swap_addresses(f, g, a, (n - 1) as nat);
    } else {
        lemma_word_sum_same(f, g, a, 6);
        assert(word_sum(f, a, 10) == word_sum(f, a, 6) + be16(f, a + 12) + be16(f, a + 14) + be16(f, a + 16)
            + be16(f, a + 18)) by {
            reveal_with_fuel(word_sum, 5);
        }
        assert(word_sum(g, a, 10) == word_sum(g, a, 6) + be16(g, a + 12) + be16(g, a + 14) + be16(g, a + 16)
            + be16(g, a + 18)) by {
            reveal_with_fuel(word_sum, 5);
        }
    }
}

/// The sum of the `len` octets of `f` from `a` on, read as big-endian
/// 16-bit words, an odd last octet counting as the high octet of a word, as
/// the Internet checksum adds up data.
pub open spec fn data_sum(f: Seq<u8>, a: int, len: nat) -> int {
    word_sum(f, a, len / 2) + if len % 2 == 1 {
        f[a + len - 1] * 256
    } else {
        0
    }
}

/// The sum over which the UDP checksum of the datagram in an IPv4 frame is
/// computed, before folding the carries: the pseudo-header (the two IP
/// addresses, the protocol and the UDP length) and the datagram itself, as
/// long as its length field says.
pub open spec fn udp_checksum_sum(f: Seq<u8>) -> int {
    let st = ip_at() + ipv4_hl(f, ip_at());
    let len = be16(f, st + 4);
    word_sum(f, ip_at() + 12, 4) + PROTO_UDP + len + data_sum(f, st, len as nat)
}

/// Exchanging the first two words of a run leaves its word sum unchanged.
proof fn lemma_word_sum_swap_first_words(f: Seq<u8>, g: Seq<u8>, a: int, n: nat)
    requires
        n >= 2,
        forall|i: int| a <= i < a + 2 ==> g[i] == f[i + 2],
        forall|i: int| a + 2 <= i < a + 4 ==> g[i] == f[i - 2],
        forall|i: int| a + 4 <= i < a + 2 * n ==> f[i] == g[i],
    ensures
        word_sum(f, a, n) == word_sum(g, a, n),
    decreases n,
{
    if n > 2 {
        lemma_word_sum_swap_first_words(f, g, a, (n - 1) as nat);
    } else {
        assert(word_sum(f, a, 2) == be16(f, a) + be16(f, a + 2)) by {
            reveal_with_fuel(word_sum, 3);
        }
        assert(word_sum(g, a, 2) == be16(g, a) + be16(g, a + 2)) by {
            reveal_with_fuel(word_sum, 3);
        }
    }
}

/// Reflecting an IPv4 frame that carries UDP keeps its UDP checksum valid:
/// the sum over the pseudo-header and the datagram is the same before and
/// after, since the IP addresses and the ports are only exchanged with each
/// other and the length and the payload stay.  This holds for IPv4 headers
/// of at least 20 octets.
pub proof fn lemma_reflect_keeps_udp_checksum(f: Seq<u8>, own: Seq<u8>)
    requires
        reflect_result(f, own) == Ok::<bool, FrameError>(true),
        is_ipv4_frame(swap_eth(f)),
        swap_ip(swap_eth(f))[ip_at() + 9] == PROTO_UDP,
        ipv4_hl(f, ip_at()) >= 20,
    ensures
        udp_checksum_sum(reflect(f, own)) == udp_checksum_sum(f),
{
    let g1 = swap_eth(f);
    lemma_swap_eth(f);
    let g2 = swap_ip(g1);
    lemma_swap_ip(g1);
    let st = ip_at() + ipv4_hl(g2, ip_at());
    let g3 = swap_ports(g2, st);
    lemma_swap_ports(g2, st);
    assert(g3 == reflect(f, own));
    assert(ipv4_hl(g3, ip_at()) == ipv4_hl(f, ip_at()));
    let len = be16(f, st + 4);
    assert(be16(g3, st + 4) == len);
    // The pseudo-header's addresses: the two address words pairs change places.
    assert(word_sum(f, ip_at() + 12, 4) == be16(f, 26) + be16(f, 28) + be16(f, 30) + be16(f, 32)) by {
        reveal_with_fuel(word_sum, 5);
    }
    assert(word_sum(g3, ip_at() + 12, 4) == be16(g3, 26) + be16(g3, 28) + be16(g3, 30) + be16(g3, 32)) by {
        reveal_with_fuel(word_sum, 5);
    }
    // The datagram: the two port words change places, the rest stays.
    let n = (len as nat) / 2;
    lemma_word_sum_swap_first_words(f, g3, st, n);
}

/// Reflecting an IPv4 frame keeps its header checksum valid: the word sum
/// of the IPv4 header, over which the checksum is computed, is the same
/// before and after, since the addresses are only exchanged and the other
/// exchanges lie outside the header.  This holds for headers of at least
/// 20 octets.
pub proof fn lemma_reflect_keeps_ipv4_checksum(f: Seq<u8>, own: Seq<u8>)
    requires
        reflect_result(f, own) == Ok::<bool, FrameError>(true),
        is_ipv4_frame(swap_eth(f)),
        ipv4_hl(f, ip_at()) >= 20,
    ensures
        word_sum(reflect(f, own), ip_at(), (ipv4_hl(f, ip_at()) / 2) as nat) == word_sum(
            f,
            ip_at(),
            (ipv4_hl(f, ip_at()) / 2) as nat,
        ),
{
    let n = (ipv4_hl(f, ip_at()) / 2) as nat;
    let g1 = swap_eth(f);
    lemma_swap_eth(f);
    let g2 = swap_ip(g1);
    lemma_swap_ip(g1);
    lemma_word_sum_same(f, g1, ip_at(), n);
    lemma_word_sum_swap_addresses(g1, g2, ip_at(), n);
    if g2[ip_at() + 9] == PROTO_UDP {
        let st = ip_at() + ipv4_hl(g2, ip_at());
        lemma_swap_ports(g2, st);
        lemma_word_sum_same(g2, swap_ports(g2, st), ip_at(), n);
    }
}


/// Only frames addressed to the interface are answered: a frame is to be
/// sent back only when its destination (octets 0 to 6) is `own`, and every
/// frame of at least a header whose destination is another address,
/// broadcast included, is answered "not for us" and stays as it is.
/// A frame shorter than an Ethernet header, and only such a frame, is
/// refused at the Ethernet layer.
pub proof fn lemma_reflect_only_frames_for_us(f: Seq<u8>, own: Seq<u8>)
    requires
        own.len() == 6,
    ensures
        reflect_result(f, own) == Ok::<bool, FrameError>(true) ==> f.subrange(0, 6) == own,
        f.len() >= 14 && f.subrange(0, 6) != own ==> reflect_result(f, own) == Ok::<bool, FrameError>(false)
            && reflect(f, own) == f,
        (reflect_result(f, own) == Err::<bool, FrameError>(FrameError::Ethernet)) == (f.len() < 14),
        f.len() >= 14 && f.subrange(0, 6) == own ==> reflect_result(f, own) != Ok::<bool, FrameError>(false),
        f.len() >= 14 && f.subrange(0, 6) == own && !(f[12] == 0x08 && f[13] == 0x00) ==> reflect_result(f, own)
            == Ok::<bool, FrameError>(true),
{
    if f.len() >= 14 && f.subrange(0, 6) == own {
        lemma_swap_eth(f);
        assert(swap_eth(f)[12] == f[12] && swap_eth(f)[13] == f[13]);
    }
}

/// The IPv4 layer refuses a frame for us exactly when smoltcp's length
/// check fails on the octets after the Ethernet header: fewer than 20 of
/// them, or a header length (low nibble of octet 14, in words) or total
/// length (octets 16 and 17) that they do not hold, or a header longer than
/// the total length.  Octets beyond the total length (Ethernet padding) are
/// never a reason.
pub proof fn lemma_ipv4_refusal(f: Seq<u8>, own: Seq<u8>)
    requires
        own.len() == 6,
    ensures
        (reflect_result(f, own) == Err::<bool, FrameError>(FrameError::Ipv4)) == ({
            let n = f.len() - 14;
            let hl = (f[14] % 16) * 4;
            let tl = f[16] * 256 + f[17];
            &&& f.len() >= 14
            &&& f.subrange(0, 6) == own
            &&& f[12] == 0x08 && f[13] == 0x00
            &&& (n < 20 || hl > n || hl > tl || tl > n)
        }),
{
    if f.len() >= 14 && f.subrange(0, 6) == own {
        lemma_swap_eth(f);
        let g1 = swap_eth(f);
        assert(g1[12] == f[12] && g1[13] == f[13]);
        if f.len() >= 34 {
            assert(g1[14] == f[14] && g1[16] == f[16] && g1[17] == f[17]);
        }
    }
}

/// The UDP layer refuses an IPv4 frame for us, whose IPv4 header passes and
/// whose protocol octet 23 is 17, exactly when smoltcp's length check fails
/// on the datagram after the IP header (the IP total length less the header
/// length): it holds fewer than 8 octets, or its length field (octets 4 and
/// 5 of the datagram) is below 8 or beyond it.  This is stated for IPv4
/// headers of at least 20 octets, whose datagram lies after the addresses.
pub proof fn lemma_udp_refusal(f: Seq<u8>, own: Seq<u8>)
    requires
        own.len() == 6,
        f.len() >= 34,
        f.subrange(0, 6) == own,
        f[12] == 0x08 && f[13] == 0x00,
        f[23] == PROTO_UDP,
        reflect_result(f, own) != Err::<bool, FrameError>(FrameError::Ipv4),
        (f[14] % 16) * 4 >= 20,
    ensures
        (reflect_result(f, own) == Err::<bool, FrameError>(FrameError::Udp)) == ({
            let hl = (f[14] % 16) * 4;
            let tl = f[16] * 256 + f[17];
            let st = 14 + hl;
            let ulen = f[st + 4] * 256 + f[st + 5];
            tl - hl < 8 || ulen < 8 || ulen > tl - hl
        }),
{
    lemma_swap_eth(f);
    let g1 = swap_eth(f);
    assert(g1[12] == f[12] && g1[13] == f[13] && g1[14] == f[14] && g1[16] == f[16] && g1[17] == f[17]);
    lemma_swap_ip(g1);
    let g2 = swap_ip(g1);
    assert(g2[14] == f[14] && g2[16] == f[16] && g2[17] == f[17] && g2[23] == f[23]);
    let st = 14 + (f[14] % 16) * 4;
    if st + 6 <= f.len() {
        assert(g2[st + 4] == f[st + 4] && g2[st + 5] == f[st + 5]);
    }
}

/// Ethernet padding changes nothing: octets appended to a frame that is
/// answered keep the same answer, and are sent back after the same
/// reflected frame.
pub proof fn lemma_reflect_ignores_padding(f: Seq<u8>, pad: Seq<u8>, own: Seq<u8>)
    requires
        own.len() == 6,
        reflect_result(f, own) is Ok,
    ensures
        reflect_result(f + pad, own) == reflect_result(f, own),
        reflect(f + pad, own) == reflect(f, own) + pad,
{
    let p = f + pad;
    assert(p.subrange(0, 6) =~= f.subrange(0, 6));
    if f.subrange(0, 6) == own {
        let g1 = swap_eth(f);
        let h1 = swap_eth(p);
        lemma_swap_eth(f);
        lemma_swap_eth(p);
        assert(h1 =~= g1 + pad);
        if is_ipv4_frame(g1) {
            let g2 = swap_ip(g1);
            let h2 = swap_ip(h1);
            lemma_swap_ip(g1);
            lemma_swap_ip(h1);
            assert(h2 =~= g2 + pad);
            assert(h1[14] == g1[14] && h1[16] == g1[16] && h1[17] == g1[17]);
            assert(h2[14] == g2[14] && h2[16] == g2[16] && h2[17] == g2[17] && h2[23] == g2[23]);
            if g2[ip_at() + 9] == PROTO_UDP {
                let st = ip_at() + ipv4_hl(g2, ip_at());
                assert(h2[st + 4] == g2[st + 4] && h2[st + 5] == g2[st + 5]);
                lemma_swap_ports(g2, st);
                lemma_swap_ports(h2, st);
                assert(swap_ports(h2, st) =~= swap_ports(g2, st) + pad);
            }
        }
    } else {
        assert(reflect(p, own) =~= reflect(f, own) + pad);
    }
}

/// What an answered frame looks like, octet by octet: its Ethernet
/// addresses are exchanged; if it is IPv4 (EtherType octets 08 00),
/// whatever the protocol, its IP source and destination addresses (octets
/// 26 to 30 and 30 to 34) are exchanged; if it is UDP (protocol octet 23 is
/// 17), the source and destination ports of the datagram after the IP
/// header are exchanged; every other octet stays.  This holds when a UDP
/// frame's IPv4 header is at least 20 octets long.
pub proof fn lemma_reflect_octets(f: Seq<u8>, own: Seq<u8>)
    requires
        reflect_result(f, own) == Ok::<bool, FrameError>(true),
        f[12] == 0x08 && f[13] == 0x00 && f[23] == PROTO_UDP ==> (f[14] % 16) * 4 >= 20,
    ensures
        ({
            let ipv4 = f[12] == 0x08 && f[13] == 0x00;
            let udp = ipv4 && f[23] == PROTO_UDP;
            let st = 14 + (f[14] % 16) * 4;
            &&& reflect(f, own).len() == f.len()
            &&& forall|i: int| 0 <= i < 6 ==> #[trigger] reflect(f, own)[i] == f[i + 6]
            &&& forall|i: int| 6 <= i < 12 ==> #[trigger] reflect(f, own)[i] == f[i - 6]
            &&& ipv4 ==> f.len() >= 34
            &&& ipv4 ==> forall|i: int| 26 <= i < 30 ==> #[trigger] reflect(f, own)[i] == f[i + 4]
            &&& ipv4 ==> forall|i: int| 30 <= i < 34 ==> #[trigger] reflect(f, own)[i] == f[i - 4]
            &&& udp ==> st + 4 <= f.len()
            &&& udp ==> forall|i: int| st <= i < st + 2 ==> #[trigger] reflect(f, own)[i] == f[i + 2]
            &&& udp ==> forall|i: int| st + 2 <= i < st + 4 ==> #[trigger] reflect(f, own)[i] == f[i - 2]
            &&& forall|i: int|
                12 <= i < f.len() && !(ipv4 && 26 <= i < 34) && !(udp && st <= i < st + 4)
                    ==> #[trigger] reflect(f, own)[i] == f[i]
        }),
{
    let g1 = swap_eth(f);
    lemma_swap_eth(f);
    assert(g1[12] == f[12] && g1[13] == f[13]);
    if is_ipv4_frame(g1) {
        assert(g1[14] == f[14] && g1[16] == f[16] && g1[17] == f[17]);
        let g2 = swap_ip(g1);
        lemma_swap_ip(g1);
        assert(g2[14] == f[14] && g2[16] == f[16] && g2[17] == f[17] && g2[23] == f[23]);
        if g2[ip_at() + 9] == PROTO_UDP {
            let st = ip_at() + ipv4_hl(g2, ip_at());
            lemma_swap_ports(g2, st);
        }
    }
}

/// What `uknetdev_input` makes of a packet, octet by octet: an IPv4
/// packet (EtherType octets 08 00) carrying UDP (protocol octet 23 is 17)
/// gets its IP addresses (octets 26 to 30 and 30 to 34) and its ports
/// (octets 34 to 36 and 36 to 38) exchanged and keeps every other octet;
/// any other packet comes out unchanged.
pub proof fn lemma_uknetdev_input_octets(f: Seq<u8>)
    requires
        input_fits(f),
    ensures
        !(f[12] == 0x08 && f[13] == 0x00 && f[23] == PROTO_UDP) ==> input_reflect(f) == f,
        f[12] == 0x08 && f[13] == 0x00 && f[23] == PROTO_UDP ==> {
            &&& f.len() >= 42
            &&& input_reflect(f).len() == f.len()
            &&& forall|i: int| 26 <= i < 30 ==> #[trigger] input_reflect(f)[i] == f[i + 4]
            &&& forall|i: int| 30 <= i < 34 ==> #[trigger] input_reflect(f)[i] == f[i - 4]
            &&& forall|i: int| 34 <= i < 36 ==> #[trigger] input_reflect(f)[i] == f[i + 2]
            &&& forall|i: int| 36 <= i < 38 ==> #[trigger] input_reflect(f)[i] == f[i - 2]
            &&& forall|i: int|
                0 <= i < f.len() && !(26 <= i < 38) ==> #[trigger] input_reflect(f)[i] == f[i]
        },
{
    if f[12] == 0x08 && f[13] == 0x00 && f[23] == PROTO_UDP {
        let g = exchange(f, 26, 30, 4);
        lemma_put(f, 26, f.subrange(30, 34));
        lemma_put(put(f, 26, f.subrange(30, 34)), 30, f.subrange(26, 30));
        lemma_put(g, 34, g.subrange(36, 38));
        lemma_put(put(g, 34, g.subrange(36, 38)), 36, g.subrange(34, 36));
    }
}

} // verus!
