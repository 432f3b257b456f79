//! A small network stack over smoltcp, driven from C through handles.
pub mod addresses;
pub mod sockets;
pub mod stack;
pub mod interface;
pub mod frames;
pub mod uknetdev_interface;
