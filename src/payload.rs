//! Raw bytes carried innermost in a packet.
use crate::bytes::put_bytes;
use crate::layer::{Layer, LayerType};
use vstd::prelude::*;

verus! {

/// Opaque application bytes, written as they are.
#[derive(Clone, Debug, PartialEq, Eq, Hash)]
pub struct Payload {
    pub data: Vec<u8>,
}

impl Payload {
    pub fn new(data: Vec<u8>) -> (r: Payload)
        ensures
            r.data@ == data@,
    {
        Payload { data }
    }
}

impl Layer for Payload {
    open spec fn tag(&self) -> LayerType {
        LayerType(5)
    }

    open spec fn size(&self) -> nat {
        self.data@.len()
    }

    open spec fn render(&self, n: Option<usize>) -> Seq<u8> {
        self.data@
    }

    proof fn lemma_render_len(&self, n: Option<usize>) {
    }

    fn get_type(&self) -> (r: LayerType) {
        LayerType::payload()
    }

    fn get_size(&self) -> (r: usize) {
        self.data.len()
    }

    fn write_at(&self, buffer: &mut [u8], pos: usize, n: Option<usize>) {
        put_bytes(buffer, pos, self.data.as_slice());
    }
}

} // verus!
