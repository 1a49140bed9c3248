//! The UDP header.
use crate::bytes::{be16, fill_length, length_field, lemma_splice_twice, put_u16};
use crate::layer::{Layer, LayerType};
use vstd::prelude::*;

verus! {

/// A UDP header. Its length field is `length` when written on its own, and
/// the encapsulated size when that is given.
#[derive(Clone, Copy, Debug, PartialEq, Eq, Hash)]
pub struct Udp {
    pub src_port: u16,
    pub dst_port: u16,
    pub length: u16,
    pub checksum: u16,
}

impl Udp {
    /// A header between the two ports, with a length still to be filled in.
    pub fn new(src_port: u16, dst_port: u16) -> (r: Udp)
        ensures
            r.src_port == src_port,
            r.dst_port == dst_port,
            r.length == 0,
            r.checksum == 0,
    {
        Udp { src_port, dst_port, length: 0, checksum: 0 }
    }
}

impl Layer for Udp {
    open spec fn tag(&self) -> LayerType {
        LayerType(4)
    }

    open spec fn size(&self) -> nat {
        8
    }

    open spec fn render(&self, n: Option<usize>) -> Seq<u8> {
        be16(self.src_port) + be16(self.dst_port) + be16(length_field(self.length, n)) + be16(
            self.checksum,
        )
    }

    proof fn lemma_render_len(&self, n: Option<usize>) {
    }

    fn get_type(&self) -> (r: LayerType) {
        LayerType::udp()
    }

    fn get_size(&self) -> (r: usize) {
        8
    }

    fn write_at(&self, buffer: &mut [u8], pos: usize, n: Option<usize>) {
        let ghost start = buffer@;
        let ghost p = pos as int;
        proof {
            assert(buffer@.len() == buffer.len());
        }
        let length = fill_length(self.length, n);
        put_u16(buffer, pos, self.src_port);
        put_u16(buffer, pos + 2, self.dst_port);
        proof { lemma_splice_twice(start, p, be16(self.src_port), be16(self.dst_port)); }
        let ghost a = be16(self.src_port) + be16(self.dst_port);
        put_u16(buffer, pos + 4, length);
        proof { lemma_splice_twice(start, p, a, be16(length)); }
        let ghost a = a + be16(length);
        put_u16(buffer, pos + 6, self.checksum);
        proof { lemma_splice_twice(start, p, a, be16(self.checksum)); }
    }
}

} // verus!
