//! The layer contract: type tags, the outcome of a write, and the
//! operations every protocol layer offers.
use crate::arp::Arp;
use crate::bytes::splice;
use crate::ethernet::Ethernet;
use crate::ipv4::Ipv4;
use crate::payload::Payload;
use crate::tcp::Tcp;
use crate::udp::Udp;
use vstd::prelude::*;

verus! {

/// Identifies the protocol of a layer.
#[derive(Clone, Copy, Debug, PartialEq, Eq, Hash, Structural)]
pub struct LayerType(pub u8);

/// Display name of the tag with identity `id`.
pub open spec fn tag_name(id: u8) -> Seq<char> {
    if id == 0 {
        "Ethernet"@
    } else if id == 1 {
        "ARP"@
    } else if id == 2 {
        "IPv4"@
    } else if id == 3 {
        "TCP"@
    } else if id == 4 {
        "UDP"@
    } else if id == 5 {
        "Payload"@
    } else {
        "unknown"@
    }
}

impl LayerType {
    pub fn ethernet() -> (r: LayerType)
        ensures
            r == LayerType(0),
    {
        LayerType(0)
    }

    pub fn arp() -> (r: LayerType)
        ensures
            r == LayerType(1),
    {
        LayerType(1)
    }

    pub fn ipv4() -> (r: LayerType)
        ensures
            r == LayerType(2),
    {
        LayerType(2)
    }

    pub fn tcp() -> (r: LayerType)
        ensures
            r == LayerType(3),
    {
        LayerType(3)
    }

    pub fn udp() -> (r: LayerType)
        ensures
            r == LayerType(4),
    {
        LayerType(4)
    }

    pub fn payload() -> (r: LayerType)
        ensures
            r == LayerType(5),
    {
        LayerType(5)
    }

    /// The human-readable name of this tag.
    pub fn name(&self) -> (r: &'static str)
        ensures
            r@ == tag_name(self.0),
    {
        if self.0 == 0 {
            "Ethernet"
        } else if self.0 == 1 {
            "ARP"
        } else if self.0 == 2 {
            "IPv4"
        } else if self.0 == 3 {
            "TCP"
        } else if self.0 == 4 {
            "UDP"
        } else if self.0 == 5 {
            "Payload"
        } else {
            "unknown"
        }
    }
}

/// Why a write could not be made.
#[derive(Clone, Copy, Debug, PartialEq, Eq, Structural)]
pub enum SerializeError {
    /// The destination is shorter than the bytes to be written.
    BufferTooSmallError,
    /// A layer was told that it encapsulates fewer bytes than its own size.
    LengthTooSmallError,
}

impl SerializeError {
    /// The human-readable description of the failure.
    pub fn message(&self) -> (r: &'static str)
        ensures
            *self == SerializeError::BufferTooSmallError ==> r@ == "buffer too small"@,
            *self == SerializeError::LengthTooSmallError ==> r@ == "encapsulated length too small"@,
    {
        match self {
            SerializeError::BufferTooSmallError => "buffer too small",
            SerializeError::LengthTooSmallError => "encapsulated length too small",
        }
    }
}

/// Either the number of bytes written or the reason nothing was.
pub type SerializeResult = Result<usize, SerializeError>;

/// A protocol layer that renders itself into a byte buffer.
///
/// `render(None)` is what the layer writes on its own; `render(Some(n))` is
/// what it writes when told that it and every layer nested inside it take
/// `n` bytes. Both are exactly `size()` bytes long.
pub trait Layer {
    /// The protocol tag of this layer.
    spec fn tag(&self) -> LayerType;

    /// The number of bytes this layer renders to.
    spec fn size(&self) -> nat;

    /// The bytes this layer renders to, given the encapsulated size if known.
    spec fn render(&self, n: Option<usize>) -> Seq<u8>;

    /// Rendering never changes the size.
    proof fn lemma_render_len(&self, n: Option<usize>)
        ensures
            self.render(n).len() == self.size(),
    ;

    /// The tag of this layer.
    fn get_type(&self) -> (r: LayerType)
        ensures
            r == self.tag(),
    ;

    /// The number of bytes a write of this layer takes; the same on every
    /// call on an unchanged layer.
    fn get_size(&self) -> (r: usize)
        ensures
            r as nat == self.size(),
    ;

    /// Writes the layer at `pos`, leaving every other byte as it was.
    fn write_at(&self, buffer: &mut [u8], pos: usize, n: Option<usize>)
        requires
            pos + self.size() <= old(buffer)@.len(),
        ensures
            final(buffer)@ == splice(old(buffer)@, pos as int, self.render(n)),
    ;

    /// Writes the layer at the start of `buffer` and returns its size, or
    /// fails, writing nothing, when `buffer` is too short.
    fn serialize(&self, buffer: &mut [u8]) -> (r: SerializeResult)
        ensures
            self.size() <= old(buffer)@.len() ==> r == Ok::<usize, SerializeError>(
                self.size() as usize,
            ) && final(buffer)@ == splice(old(buffer)@, 0, self.render(None)),
            self.size() > old(buffer)@.len() ==> r == Err::<usize, SerializeError>(
                SerializeError::BufferTooSmallError,
            ) && final(buffer)@ == old(buffer)@,
    {
        let size = self.get_size();
        if size > buffer.len() {
            return Err(SerializeError::BufferTooSmallError);
        }
        self.write_at(buffer, 0, None);
        Ok(size)
    }

    /// Writes the layer at the start of `buffer`, told that it and every
    /// layer it encapsulates take `n` bytes, and returns its size. Fails,
    /// writing nothing, when `buffer` is too short or `n` is below the
    /// layer's own size.
    fn serialize_n(&self, buffer: &mut [u8], n: usize) -> (r: SerializeResult)
        ensures
            self.size() > old(buffer)@.len() ==> r == Err::<usize, SerializeError>(
                SerializeError::BufferTooSmallError,
            ) && final(buffer)@ == old(buffer)@,
            self.size() <= old(buffer)@.len() && n < self.size() ==> r == Err::<
                usize,
                SerializeError,
            >(SerializeError::LengthTooSmallError) && final(buffer)@ == old(buffer)@,
            self.size() <= old(buffer)@.len() && n >= self.size() ==> r == Ok::<
                usize,
                SerializeError,
            >(self.size() as usize) && final(buffer)@ == splice(
                old(buffer)@,
                0,
                self.render(Some(n)),
            ),
    {
        let size = self.get_size();
        if size > buffer.len() {
            return Err(SerializeError::BufferTooSmallError);
        }
        if n < size {
            return Err(SerializeError::LengthTooSmallError);
        }
        self.write_at(buffer, 0, Some(n));
        Ok(size)
    }
}

/// One layer of any supported protocol, so that a packet can be a sequence
/// of a single type. Every operation forwards to the layer held.
#[derive(Clone, Debug, PartialEq, Eq)]
pub enum Layers {
    Ethernet(Ethernet),
    Arp(Arp),
    Ipv4(Ipv4),
    Tcp(Tcp),
    Udp(Udp),
    Payload(Payload),
}

impl Layer for Layers {
    open spec fn tag(&self) -> LayerType {
        match self {
            Layers::Ethernet(l) => l.tag(),
            Layers::Arp(l) => l.tag(),
            Layers::Ipv4(l) => l.tag(),
            Layers::Tcp(l) => l.tag(),
            Layers::Udp(l) => l.tag(),
            Layers::Payload(l) => l.tag(),
        }
    }

    open spec fn size(&self) -> nat {
        match self {
            Layers::Ethernet(l) => l.size(),
            Layers::Arp(l) => l.size(),
            Layers::Ipv4(l) => l.size(),
            Layers::Tcp(l) => l.size(),
            Layers::Udp(l) => l.size(),
            Layers::Payload(l) => l.size(),
        }
    }

    open spec fn render(&self, n: Option<usize>) -> Seq<u8> {
        match self {
            Layers::Ethernet(l) => l.render(n),
            Layers::Arp(l) => l.render(n),
            Layers::Ipv4(l) => l.render(n),
            Layers::Tcp(l) => l.render(n),
            Layers::Udp(l) => l.render(n),
            Layers::Payload(l) => l.render(n),
        }
    }

    proof fn lemma_render_len(&self, n: Option<usize>) {
        match self {
            Layers::Ethernet(l) => l.lemma_render_len(n),
            Layers::Arp(l) => l.lemma_render_len(n),
            Layers::Ipv4(l) => l.lemma_render_len(n),
            Layers::Tcp(l) => l.lemma_render_len(n),
            Layers::Udp(l) => l.lemma_render_len(n),
            Layers::Payload(l) => l.lemma_render_len(n),
        }
    }

    fn get_type(&self) -> (r: LayerType) {
        match self {
            Layers::Ethernet(l) => l.get_type(),
            Layers::Arp(l) => l.get_type(),
            Layers::Ipv4(l) => l.get_type(),
            Layers::Tcp(l) => l.get_type(),
            Layers::Udp(l) => l.get_type(),
            Layers::Payload(l) => l.get_type(),
        }
    }

    fn get_size(&self) -> (r: usize) {
        match self {
            Layers::Ethernet(l) => l.get_size(),
            Layers::Arp(l) => l.get_size(),
            Layers::Ipv4(l) => l.get_size(),
            Layers::Tcp(l) => l.get_size(),
            Layers::Udp(l) => l.get_size(),
            Layers::Payload(l) => l.get_size(),
        }
    }

    fn write_at(&self, buffer: &mut [u8], pos: usize, n: Option<usize>) {
        match self {
            Layers::Ethernet(l) => l.write_at(buffer, pos, n),
            Layers::Arp(l) => l.write_at(buffer, pos, n),
            Layers::Ipv4(l) => l.write_at(buffer, pos, n),
            Layers::Tcp(l) => l.write_at(buffer, pos, n),
            Layers::Udp(l) => l.write_at(buffer, pos, n),
            Layers::Payload(l) => l.write_at(buffer, pos, n),
        }
    }
}

} // verus!
