//! The state of a uknetdev device: one receive and one transmit buffer of
//! the size of an Ethernet frame.  The device offers both to smoltcp, and
//! the host moves frames in and out of them.

use vstd::prelude::*;

verus! {

/// The size of each buffer of a uknetdev device, and its MTU.
pub const UKNETDEV_BUFFER_SIZE: usize = 1536;

/// How many frames a uknetdev device handles at once.
pub const UKNETDEV_MAX_BURST: usize = 1;

/// A uknetdev device.
#[derive(Debug)]
pub struct UkNetdevInterface {
    rx_buffer: [u8; 1536],
    tx_buffer: [u8; 1536],
}

impl UkNetdevInterface {
    /// The receive buffer.
    pub closed spec fn rx(&self) -> Seq<u8> {
        self.rx_buffer@
    }

    /// The transmit buffer.
    pub closed spec fn tx(&self) -> Seq<u8> {
        self.tx_buffer@
    }

    /// A device with both buffers zeroed.
    pub fn new() -> (d: UkNetdevInterface)
        ensures
            d.rx().len() == UKNETDEV_BUFFER_SIZE,
            d.tx().len() == UKNETDEV_BUFFER_SIZE,
            forall|i: int| 0 <= i < UKNETDEV_BUFFER_SIZE ==> d.rx()[i] == 0 && d.tx()[i] == 0,
    {
        UkNetdevInterface { rx_buffer: [0u8; 1536], tx_buffer: [0u8; 1536] }
    }

    /// The two buffers, receive first, for the host to drive the device
    /// with.
    pub fn into_buffers(self) -> (r: ([u8; 1536], [u8; 1536]))
        ensures
            r.0@ == self.rx(),
            r.1@ == self.tx(),
    {
        (self.rx_buffer, self.tx_buffer)
    }
}

} // verus!
