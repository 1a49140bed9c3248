//! The TCP header without options.
use crate::bytes::{be16, be32, lemma_splice_twice, put_u16, put_u32, put_u8};
use crate::layer::{Layer, LayerType};
use vstd::prelude::*;

verus! {

/// A TCP header of five words; its fields are written as they are held.
#[derive(Clone, Copy, Debug, PartialEq, Eq, Hash)]
pub struct Tcp {
    pub src_port: u16,
    pub dst_port: u16,
    pub sequence: u32,
    pub acknowledgment: u32,
    pub flags: u8,
    pub window: u16,
    pub checksum: u16,
    pub urgent: u16,
}

impl Tcp {
    /// A header between the two ports with the given flag bits.
    pub fn new(src_port: u16, dst_port: u16, flags: u8) -> (r: Tcp)
        ensures
            r.src_port == src_port,
            r.dst_port == dst_port,
            r.sequence == 0,
            r.acknowledgment == 0,
            r.flags == flags,
            r.window == 0xffff,
            r.checksum == 0,
            r.urgent == 0,
    {
        Tcp {
            src_port,
            dst_port,
            sequence: 0,
            acknowledgment: 0,
            flags,
            window: 0xffff,
            checksum: 0,
            urgent: 0,
        }
    }
}

impl Layer for Tcp {
    open spec fn tag(&self) -> LayerType {
        LayerType(3)
    }

    open spec fn size(&self) -> nat {
        20
    }

    open spec fn render(&self, n: Option<usize>) -> Seq<u8> {
        be16(self.src_port) + be16(self.dst_port) + be32(self.sequence) + be32(
            self.acknowledgment,
        ) + seq![0x50u8, self.flags] + be16(self.window) + be16(self.checksum) + be16(
            self.urgent,
        )
    }

    proof fn lemma_render_len(&self, n: Option<usize>) {
    }

    fn get_type(&self) -> (r: LayerType) {
        LayerType::tcp()
    }

    fn get_size(&self) -> (r: usize) {
        20
    }

    fn write_at(&self, buffer: &mut [u8], pos: usize, n: Option<usize>) {
        let ghost start = buffer@;
        let ghost p = pos as int;
        proof {
            assert(buffer@.len() == buffer.len());
        }
        put_u16(buffer, pos, self.src_port);
        put_u16(buffer, pos + 2, self.dst_port);
        proof { lemma_splice_twice(start, p, be16(self.src_port), be16(self.dst_port)); }
        let ghost a = be16(self.src_port) + be16(self.dst_port);
        put_u32(buffer, pos + 4, self.sequence);
        proof { lemma_splice_twice(start, p, a, be32(self.sequence)); }
        let ghost a = a + be32(self.sequence);
        put_u32(buffer, pos + 8, self.acknowledgment);
        proof { lemma_splice_twice(start, p, a, be32(self.acknowledgment)); }
        let ghost a = a + be32(self.acknowledgment);
        put_u8(buffer, pos + 12, 0x50);
        proof { lemma_splice_twice(start, p, a, seq![0x50u8]); }
        let ghost a = a + seq![0x50u8];
        put_u8(buffer, pos + 13, self.flags);
        proof { lemma_splice_twice(start, p, a, seq![self.flags]); }
        let ghost a = a + seq![self.flags];
        put_u16(buffer, pos + 14, self.window);
        proof { lemma_splice_twice(start, p, a, be16(self.window)); }
        let ghost a = a + be16(self.window);
        put_u16(buffer, pos + 16, self.checksum);
        proof { lemma_splice_twice(start, p, a, be16(self.checksum)); }
        let ghost a = a + be16(self.checksum);
        put_u16(buffer, pos + 18, self.urgent);
        proof {
            lemma_splice_twice(start, p, a, be16(self.urgent));
            assert(a + be16(self.urgent) =~= self.render(n));
        }
    }
}

} // verus!
