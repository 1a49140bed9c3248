//! The Ethernet II link-layer header.
use crate::bytes::{be16, lemma_splice_twice, put_bytes, put_u16};
use crate::layer::{Layer, LayerType};
use vstd::prelude::*;

verus! {

/// An Ethernet II header: destination and source addresses and the type of
/// what it carries.
#[derive(Clone, Copy, Debug, PartialEq, Eq, Hash)]
pub struct Ethernet {
    pub dst: [u8; 6],
    pub src: [u8; 6],
    pub ether_type: u16,
}

impl Ethernet {
    pub fn new(dst: [u8; 6], src: [u8; 6], ether_type: u16) -> (r: Ethernet)
        ensures
            r.dst@ == dst@,
            r.src@ == src@,
            r.ether_type == ether_type,
    {
        Ethernet { dst, src, ether_type }
    }
}

impl Layer for Ethernet {
    open spec fn tag(&self) -> LayerType {
        LayerType(0)
    }

    open spec fn size(&self) -> nat {
        14
    }

    open spec fn render(&self, n: Option<usize>) -> Seq<u8> {
        self.dst@ + self.src@ + be16(self.ether_type)
    }

    proof fn lemma_render_len(&self, n: Option<usize>) {
    }

    fn get_type(&self) -> (r: LayerType) {
        LayerType::ethernet()
    }

    fn get_size(&self) -> (r: usize) {
        14
    }

    fn write_at(&self, buffer: &mut [u8], pos: usize, n: Option<usize>) {
        let ghost start = buffer@;
        proof {
            assert(buffer@.len() == buffer.len());
        }
        put_bytes(buffer, pos, &self.dst);
        put_bytes(buffer, pos + 6, &self.src);
        put_u16(buffer, pos + 12, self.ether_type);
        proof {
            lemma_splice_twice(start, pos as int, self.dst@, self.src@);
            lemma_splice_twice(start, pos as int, self.dst@ + self.src@, be16(self.ether_type));
        }
    }
}

} // verus!
