//! The IPv4 header without options.
use crate::bytes::{be16, fill_length, length_field, lemma_splice_twice, put_bytes, put_u16, put_u8};
use crate::layer::{Layer, LayerType};
use vstd::prelude::*;

verus! {

/// The 16-bit word of two bytes, the first most significant.
pub open spec fn word(hi: u8, lo: u8) -> u16 {
    (hi as int * 256 + lo as int) as u16
}

/// Ones'-complement addition of two 16-bit words: the carry out of the top
/// bit is added back in at the bottom.
pub open spec fn ones_add(a: u16, b: u16) -> u16 {
    if a as int + b as int > 0xffff {
        (a as int + b as int - 0xffff) as u16
    } else {
        (a as int + b as int) as u16
    }
}

/// The ones'-complement sum of `words`.
pub open spec fn ones_sum(words: Seq<u16>) -> u16
    decreases words.len(),
{
    if words.len() == 0 {
        0
    } else {
        ones_add(ones_sum(words.drop_last()), words.last())
    }
}

/// The Internet checksum of `words`: the complement of their
/// ones'-complement sum.
pub open spec fn internet_checksum(words: Seq<u16>) -> u16 {
    !ones_sum(words)
}

fn word_of(hi: u8, lo: u8) -> (r: u16)
    ensures
        r == word(hi, lo),
{
    hi as u16 * 256 + lo as u16
}

fn ones_add_exec(a: u16, b: u16) -> (r: u16)
    ensures
        r == ones_add(a, b),
{
    let t: u32 = a as u32 + b as u32;
    if t > 0xffff {
        (t - 0xffff) as u16
    } else {
        t as u16
    }
}

/// Computes the Internet checksum of `words`.
pub fn checksum(words: &[u16]) -> (r: u16)
    ensures
        r == internet_checksum(words@),
{
    let mut acc: u16 = 0;
    let mut i: usize = 0;
    while i < words.len()
        invariant
            i <= words@.len(),
            acc == ones_sum(words@.take(i as int)),
        decreases words@.len() - i,
    {
        assert(words@.take(i + 1).drop_last() =~= words@.take(i as int));
        acc = ones_add_exec(acc, words[i]);
        i = i + 1;
    }
    assert(words@.take(words@.len() as int) =~= words@);
    !acc
}

/// An IPv4 header of five words. Its total-length field is `total_length`
/// when written on its own, and the encapsulated size when that is given;
/// its checksum is computed over the header as written.
#[derive(Clone, Copy, Debug, PartialEq, Eq, Hash)]
pub struct Ipv4 {
    pub tos: u8,
    pub total_length: u16,
    pub identification: u16,
    pub flags_fragment: u16,
    pub ttl: u8,
    pub protocol: u8,
    pub src: [u8; 4],
    pub dst: [u8; 4],
}

impl Ipv4 {
    /// The words of the header as written, without the checksum word.
    pub open spec fn header_words(&self, n: Option<usize>) -> Seq<u16> {
        seq![
            word(0x45, self.tos),
            length_field(self.total_length, n),
            self.identification,
            self.flags_fragment,
            word(self.ttl, self.protocol),
            word(self.src@[0], self.src@[1]),
            word(self.src@[2], self.src@[3]),
            word(self.dst@[0], self.dst@[1]),
            word(self.dst@[2], self.dst@[3]),
        ]
    }

    /// The header checksum as written, given the encapsulated size if known.
    pub open spec fn header_checksum(&self, n: Option<usize>) -> u16 {
        internet_checksum(self.header_words(n))
    }

    /// A header from `src` to `dst` carrying `protocol`, with a
    /// total length still to be filled in.
    pub fn new(src: [u8; 4], dst: [u8; 4], protocol: u8) -> (r: Ipv4)
        ensures
            r.tos == 0,
            r.total_length == 0,
            r.identification == 0,
            r.flags_fragment == 0,
            r.ttl == 64,
            r.protocol == protocol,
            r.src@ == src@,
            r.dst@ == dst@,
    {
        Ipv4 {
            tos: 0,
            total_length: 0,
            identification: 0,
            flags_fragment: 0,
            ttl: 64,
            protocol,
            src,
            dst,
        }
    }
}

impl Layer for Ipv4 {
    open spec fn tag(&self) -> LayerType {
        LayerType(2)
    }

    open spec fn size(&self) -> nat {
        20
    }

    open spec fn render(&self, n: Option<usize>) -> Seq<u8> {
        seq![0x45u8, self.tos] + be16(length_field(self.total_length, n)) + be16(
            self.identification,
        ) + be16(self.flags_fragment) + seq![self.ttl, self.protocol] + be16(self.header_checksum(n))
            + self.src@ + self.dst@
    }

    proof fn lemma_render_len(&self, n: Option<usize>) {
    }

    fn get_type(&self) -> (r: LayerType) {
        LayerType::ipv4()
    }

    fn get_size(&self) -> (r: usize) {
        20
    }

    fn write_at(&self, buffer: &mut [u8], pos: usize, n: Option<usize>) {
        let ghost start = buffer@;
        let ghost p = pos as int;
        proof {
            assert(buffer@.len() == buffer.len());
        }
        let total = fill_length(self.total_length, n);
        let words: [u16; 9] = [
            word_of(0x45, self.tos),
            total,
            self.identification,
            self.flags_fragment,
            word_of(self.ttl, self.protocol),
            word_of(self.src[0], self.src[1]),
            word_of(self.src[2], self.src[3]),
            word_of(self.dst[0], self.dst[1]),
            word_of(self.dst[2], self.dst[3]),
        ];
        proof {
            assert(words@ =~= self.header_words(n));
        }
        let sum = checksum(&words);
        put_u8(buffer, pos, 0x45);
        put_u8(buffer, pos + 1, self.tos);
        proof { lemma_splice_twice(start, p, seq![0x45u8], seq![self.tos]); }
        let ghost a = seq![0x45u8] + seq![self.tos];
        put_u16(buffer, pos + 2, total);
        proof { lemma_splice_twice(start, p, a, be16(total)); }
        let ghost a = a + be16(total);
        put_u16(buffer, pos + 4, self.identification);
        proof { lemma_splice_twice(start, p, a, be16(self.identification)); }
        let ghost a = a + be16(self.identification);
        put_u16(buffer, pos + 6, self.flags_fragment);
        proof { lemma_splice_twice(start, p, a, be16(self.flags_fragment)); }
        let ghost a = a + be16(self.flags_fragment);
        put_u8(buffer, pos + 8, self.ttl);
        proof { lemma_splice_twice(start, p, a, seq![self.ttl]); }
        let ghost a = a + seq![self.ttl];
        put_u8(buffer, pos + 9, self.protocol);
        proof { lemma_splice_twice(start, p, a, seq![self.protocol]); }
        let ghost a = a + seq![self.protocol];
        put_u16(buffer, pos + 10, sum);
        proof { lemma_splice_twice(start, p, a, be16(sum)); }
        let ghost a = a + be16(sum);
        put_bytes(buffer, pos + 12, &self.src);
        proof { lemma_splice_twice(start, p, a, self.src@); }
        let ghost a = a + self.src@;
        put_bytes(buffer, pos + 16, &self.dst);
        proof {
            lemma_splice_twice(start, p, a, self.dst@);
            assert(a + self.dst@ =~= self.render(n));
        }
    }
}

} // verus!
