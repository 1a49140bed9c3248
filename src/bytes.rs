//! Writing big-endian fields into a region of a byte buffer.
use vstd::prelude::*;

verus! {

/// `s` with the bytes `b` placed at `pos`, everything else kept.
pub open spec fn splice(s: Seq<u8>, pos: int, b: Seq<u8>) -> Seq<u8> {
    s.subrange(0, pos) + b + s.subrange(pos + b.len(), s.len() as int)
}

/// Two bytes, most significant first.
pub open spec fn be16(x: u16) -> Seq<u8> {
    seq![(x >> 8u16) as u8, x as u8]
}

/// Four bytes, most significant first.
pub open spec fn be32(x: u32) -> Seq<u8> {
    seq![(x >> 24u32) as u8, (x >> 16u32) as u8, (x >> 8u32) as u8, x as u8]
}

/// Two splices side by side are one splice of the joined bytes.
pub proof fn lemma_splice_twice(s: Seq<u8>, pos: int, a: Seq<u8>, b: Seq<u8>)
    requires
        0 <= pos,
        pos + a.len() + b.len() <= s.len(),
    ensures
        splice(splice(s, pos, a), pos + a.len(), b) == splice(s, pos, a + b),
{
    assert(splice(splice(s, pos, a), pos + a.len(), b) =~= splice(s, pos, a + b));
}

/// Writes `b` into `buf` at `pos`.
pub fn put_bytes(buf: &mut [u8], pos: usize, b: &[u8])
    requires
        pos + b@.len() <= old(buf)@.len(),
    ensures
        final(buf)@ == splice(old(buf)@, pos as int, b@),
{
    let len = buf.len();
    let mut i: usize = 0;
    while i < b.len()
        invariant
            i <= b@.len(),
            len == old(buf)@.len(),
            pos + b@.len() <= old(buf)@.len(),
            buf@.len() == old(buf)@.len(),
            buf@ == splice(old(buf)@, pos as int, b@.subrange(0, i as int)),
        decreases b@.len() - i,
    {
        let ghost prev = buf@;
        buf[pos + i] = b[i];
        assert(b@.subrange(0, i + 1) =~= b@.subrange(0, i as int).push(b@[i as int]));
        assert(buf@ =~= splice(old(buf)@, pos as int, b@.subrange(0, i + 1)));
        i = i + 1;
    }
    assert(b@.subrange(0, b@.len() as int) =~= b@);
}

/// Writes one byte into `buf` at `pos`.
pub fn put_u8(buf: &mut [u8], pos: usize, x: u8)
    requires
        pos + 1 <= old(buf)@.len(),
    ensures
        final(buf)@ == splice(old(buf)@, pos as int, seq![x]),
{
    buf[pos] = x;
    assert(buf@ =~= splice(old(buf)@, pos as int, seq![x]));
}

/// Writes `x` big-endian into `buf` at `pos`.
pub fn put_u16(buf: &mut [u8], pos: usize, x: u16)
    requires
        pos + 2 <= old(buf)@.len(),
    ensures
        final(buf)@ == splice(old(buf)@, pos as int, be16(x)),
{
    buf[pos] = (x >> 8u16) as u8;
    buf[pos + 1] = x as u8;
    assert(buf@ =~= splice(old(buf)@, pos as int, be16(x)));
}

/// Writes `x` big-endian into `buf` at `pos`.
pub fn put_u32(buf: &mut [u8], pos: usize, x: u32)
    requires
        pos + 4 <= old(buf)@.len(),
    ensures
        final(buf)@ == splice(old(buf)@, pos as int, be32(x)),
{
    buf[pos] = (x >> 24u32) as u8;
    buf[pos + 1] = (x >> 16u32) as u8;
    buf[pos + 2] = (x >> 8u32) as u8;
    buf[pos + 3] = x as u8;
    assert(buf@ =~= splice(old(buf)@, pos as int, be32(x)));
}

/// The value of a 16-bit length field: the encapsulated size when known, cut
/// to its low 16 bits, else the value the header holds.
pub open spec fn length_field(stored: u16, n: Option<usize>) -> u16 {
    match n {
        Some(n) => n as u16,
        None => stored,
    }
}

/// Computes the value of a 16-bit length field.
pub fn fill_length(stored: u16, n: Option<usize>) -> (r: u16)
    ensures
        r == length_field(stored, n),
{
    match n {
        Some(n) => n as u16,
        None => stored,
    }
}

} // verus!
