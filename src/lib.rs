//! Packet layers and the stack serializer that lays them out, outermost
//! first, in one contiguous byte buffer.

pub mod bytes;
pub mod layer;
pub mod ethernet;
pub mod arp;
pub mod ipv4;
pub mod tcp;
pub mod udp;
pub mod payload;
pub mod stack;
