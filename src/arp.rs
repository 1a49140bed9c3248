//! The ARP packet for IPv4 over Ethernet.
use crate::bytes::{be16, lemma_splice_twice, put_bytes, put_u16, put_u8};
use crate::layer::{Layer, LayerType};
use vstd::prelude::*;

verus! {

/// An ARP packet that maps IPv4 addresses to Ethernet addresses.
#[derive(Clone, Copy, Debug, PartialEq, Eq, Hash)]
pub struct Arp {
    pub hardware_type: u16,
    pub protocol_type: u16,
    pub hardware_size: u8,
    pub protocol_size: u8,
    pub operation: u16,
    pub sender_mac: [u8; 6],
    pub sender_ip: [u8; 4],
    pub target_mac: [u8; 6],
    pub target_ip: [u8; 4],
}

impl Arp {
    /// An Ethernet/IPv4 ARP packet with the given operation and addresses.
    pub fn new(
        operation: u16,
        sender_mac: [u8; 6],
        sender_ip: [u8; 4],
        target_mac: [u8; 6],
        target_ip: [u8; 4],
    ) -> (r: Arp)
        ensures
            r.hardware_type == 1,
            r.protocol_type == 0x0800,
            r.hardware_size == 6,
            r.protocol_size == 4,
            r.operation == operation,
            r.sender_mac@ == sender_mac@,
            r.sender_ip@ == sender_ip@,
            r.target_mac@ == target_mac@,
            r.target_ip@ == target_ip@,
    {
        Arp {
            hardware_type: 1,
            protocol_type: 0x0800,
            hardware_size: 6,
            protocol_size: 4,
            operation,
            sender_mac,
            sender_ip,
            target_mac,
            target_ip,
        }
    }
}

impl Layer for Arp {
    open spec fn tag(&self) -> LayerType {
        LayerType(1)
    }

    open spec fn size(&self) -> nat {
        28
    }

    open spec fn render(&self, n: Option<usize>) -> Seq<u8> {
        be16(self.hardware_type) + be16(self.protocol_type) + seq![self.hardware_size]
            + seq![self.protocol_size] + be16(self.operation) + self.sender_mac@
            + self.sender_ip@ + self.target_mac@ + self.target_ip@
    }

    proof fn lemma_render_len(&self, n: Option<usize>) {
    }

    fn get_type(&self) -> (r: LayerType) {
        LayerType::arp()
    }

    fn get_size(&self) -> (r: usize) {
        28
    }

    fn write_at(&self, buffer: &mut [u8], pos: usize, n: Option<usize>) {
        let ghost start = buffer@;
        let ghost p = pos as int;
        proof {
            assert(buffer@.len() == buffer.len());
        }
        put_u16(buffer, pos, self.hardware_type);
        put_u16(buffer, pos + 2, self.protocol_type);
        let ghost a = be16(self.hardware_type);
        proof { lemma_splice_twice(start, p, a, be16(self.protocol_type)); }
        let ghost a = a + be16(self.protocol_type);
        put_u8(buffer, pos + 4, self.hardware_size);
        proof { lemma_splice_twice(start, p, a, seq![self.hardware_size]); }
        let ghost a = a + seq![self.hardware_size];
        put_u8(buffer, pos + 5, self.protocol_size);
        proof { lemma_splice_twice(start, p, a, seq![self.protocol_size]); }
        let ghost a = a + seq![self.protocol_size];
        put_u16(buffer, pos + 6, self.operation);
        proof { lemma_splice_twice(start, p, a, be16(self.operation)); }
        let ghost a = a + be16(self.operation);
        put_bytes(buffer, pos + 8, &self.sender_mac);
        proof { lemma_splice_twice(start, p, a, self.sender_mac@); }
        let ghost a = a + self.sender_mac@;
        put_bytes(buffer, pos + 14, &self.sender_ip);
        proof { lemma_splice_twice(start, p, a, self.sender_ip@); }
        let ghost a = a + self.sender_ip@;
        put_bytes(buffer, pos + 18, &self.target_mac);
        proof { lemma_splice_twice(start, p, a, self.target_mac@); }
        let ghost a = a + self.target_mac@;
        put_bytes(buffer, pos + 24, &self.target_ip);
        proof {
            lemma_splice_twice(start, p, a, self.target_ip@);
            assert(a + self.target_ip@ =~= self.render(n));
        }
    }
}

} // verus!
