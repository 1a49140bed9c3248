//! Serializing a stack of layers, outermost first, into one buffer.
//!
//! Layer `i` of a stack `s` starts at `offset(s, i)`, the sum of the sizes
//! before it, and is told `encapsulated(s, i)`, the sum of its own size and
//! the sizes after it.
use crate::layer::{Layer, Layers, SerializeError, SerializeResult};
use vstd::prelude::*;

verus! {

/// The sum of the sizes of the layers of `s`.
pub open spec fn stack_size(s: Seq<Layers>) -> nat
    decreases s.len(),
{
    if s.len() == 0 {
        0
    } else {
        stack_size(s.drop_last()) + s.last().size()
    }
}

/// Where layer `i` of `s` begins in the buffer.
pub open spec fn offset(s: Seq<Layers>, i: int) -> nat {
    stack_size(s.take(i))
}

/// The size of layer `i` of `s` together with every layer nested inside it.
pub open spec fn encapsulated(s: Seq<Layers>, i: int) -> nat {
    stack_size(s.skip(i))
}

/// The bytes of the first `k` layers of `s`, each told what it encapsulates.
pub open spec fn stack_image(s: Seq<Layers>, k: int) -> Seq<u8>
    decreases k,
{
    if k <= 0 {
        Seq::empty()
    } else {
        stack_image(s, k - 1) + s[k - 1].render(Some(encapsulated(s, k - 1) as usize))
    }
}

/// The size of a stack is the size of a prefix plus that of the rest.
pub proof fn lemma_size_split(s: Seq<Layers>, i: int)
    requires
        0 <= i <= s.len(),
    ensures
        offset(s, i) + encapsulated(s, i) == stack_size(s),
    decreases s.len(),
{
    if i == s.len() {
        assert(s.take(i) =~= s);
        assert(s.skip(i).len() == 0);
    } else {
        let d = s.drop_last();
        lemma_size_split(d, i);
        assert(d.take(i) =~= s.take(i));
        assert(s.skip(i).drop_last() =~= d.skip(i));
        assert(s.skip(i).last() == s.last());
    }
}

/// Each layer ends where the next begins.
pub proof fn lemma_offset_step(s: Seq<Layers>, i: int)
    requires
        0 <= i < s.len(),
    ensures
        offset(s, i + 1) == offset(s, i) + s[i].size(),
        encapsulated(s, i) == s[i].size() + encapsulated(s, i + 1),
{
    assert(s.take(i + 1).drop_last() =~= s.take(i));
    lemma_size_split(s, i);
    lemma_size_split(s, i + 1);
}

/// The image of the first `k` layers is as long as they are.
pub proof fn lemma_image_len(s: Seq<Layers>, k: int)
    requires
        0 <= k <= s.len(),
    ensures
        stack_image(s, k).len() == offset(s, k),
    decreases k,
{
    if k > 0 {
        lemma_image_len(s, k - 1);
        lemma_offset_step(s, k - 1);
        s[k - 1].lemma_render_len(Some(encapsulated(s, k - 1) as usize));
    } else {
        assert(s.take(0).len() == 0);
    }
}

/// The regions of a stack's layers tile the bytes it writes: the first
/// begins at zero, each ends where the next begins, the last ends at the
/// stack's size, and no two of them overlap.
pub proof fn lemma_regions_tile(s: Seq<Layers>)
    ensures
        offset(s, 0) == 0,
        offset(s, s.len() as int) == stack_size(s),
        forall|i: int|
            0 <= i < s.len() ==> #[trigger] offset(s, i + 1) == offset(s, i) + s[i].size(),
        forall|i: int, j: int|
            0 <= i < j < s.len() ==> #[trigger] offset(s, i) + s[i].size() <= #[trigger] offset(
                s,
                j,
            ),
{
    assert(s.take(0).len() == 0);
    assert(s.take(s.len() as int) =~= s);
    assert forall|i: int| 0 <= i < s.len() implies #[trigger] offset(s, i + 1) == offset(s, i)
        + s[i].size() by {
        lemma_offset_step(s, i);
    }
    assert forall|i: int, j: int| 0 <= i < j < s.len() implies #[trigger] offset(s, i)
        + s[i].size() <= #[trigger] offset(s, j) by {
        lemma_offset_step(s, i);
        let p = s.take(j);
        lemma_size_split(p, i + 1);
        assert(p.take(i + 1) =~= s.take(i + 1));
    }
}

/// In the image of a stack, the region of layer `i` holds exactly that
/// layer's bytes, rendered with what it encapsulates.
pub proof fn lemma_image_region(s: Seq<Layers>, k: int, i: int)
    requires
        0 <= i < k <= s.len(),
    ensures
        stack_image(s, k).subrange(offset(s, i) as int, (offset(s, i) + s[i].size()) as int) == s[i].render(
            Some(encapsulated(s, i) as usize),
        ),
    decreases k,
{
    lemma_image_len(s, k - 1);
    lemma_offset_step(s, i);
    s[i].lemma_render_len(Some(encapsulated(s, i) as usize));
    if i == k - 1 {
        assert(stack_image(s, k).subrange(offset(s, i) as int, (offset(s, i) + s[i].size()) as int)
            =~= s[i].render(Some(encapsulated(s, i) as usize)));
    } else {
        lemma_image_region(s, k - 1, i);
        lemma_regions_tile(s);
        assert(offset(s, i) + s[i].size() <= offset(s, k - 1));
        assert(stack_image(s, k).subrange(offset(s, i) as int, (offset(s, i) + s[i].size()) as int)
            =~= stack_image(s, k - 1).subrange(offset(s, i) as int, (offset(s, i) + s[i].size()) as int));
    }
}

/// Taking one layer out of a stack takes away its size and no more.
pub proof fn lemma_size_remove(t: Seq<Layers>, k: int)
    requires
        0 <= k < t.len(),
    ensures
        stack_size(t) == stack_size(t.remove(k)) + t[k].size(),
    decreases t.len(),
{
    if k == t.len() - 1 {
        assert(t.remove(k) =~= t.drop_last());
    } else {
        lemma_size_remove(t.drop_last(), k);
        assert(t.remove(k).drop_last() =~= t.drop_last().remove(k));
        assert(t.remove(k).last() == t.last());
    }
}

/// Sizes belong to layers, not to their places: a stack holding the same
/// layers in another order has the same size.
pub proof fn lemma_reorder_keeps_size(s: Seq<Layers>, t: Seq<Layers>)
    requires
        s.to_multiset() == t.to_multiset(),
    ensures
        stack_size(s) == stack_size(t),
    decreases s.len(),
{
    broadcast use vstd::seq_lib::group_to_multiset_ensures;

    if s.len() == 0 {
        assert(t.to_multiset().len() == 0);
    } else {
        let x = s.last();
        assert(s.remove(s.len() - 1) =~= s.drop_last());
        assert(s.to_multiset().count(x) > 0);
        assert(t.contains(x));
        let k = choose|k: int| 0 <= k < t.len() && t[k] == x;
        assert(t.remove(k).to_multiset() == t.to_multiset().remove(x));
        lemma_reorder_keeps_size(s.drop_last(), t.remove(k));
        lemma_size_remove(t, k);
    }
}

/// Serializes `layers` into the start of `buffer`, each layer at its offset
/// and told what it encapsulates, and returns the number of bytes written.
/// When the whole stack does not fit it fails before writing anything.
pub fn serialize_layers(layers: &[Layers], buffer: &mut [u8]) -> (r: SerializeResult)
    ensures
        stack_size(layers@) <= old(buffer)@.len() ==> r == Ok::<usize, SerializeError>(
            stack_size(layers@) as usize,
        ) && final(buffer)@ == stack_image(layers@, layers@.len() as int) + old(
            buffer,
        )@.subrange(stack_size(layers@) as int, old(buffer)@.len() as int),
        stack_size(layers@) <= old(buffer)@.len() ==> forall|i: int|
            0 <= i < layers@.len() ==> #[trigger] final(buffer)@.subrange(
                offset(layers@, i) as int,
                (offset(layers@, i) + layers@[i].size()) as int,
            ) == layers@[i].render(Some(encapsulated(layers@, i) as usize)),
        stack_size(layers@) > old(buffer)@.len() ==> r == Err::<usize, SerializeError>(
            SerializeError::BufferTooSmallError,
        ) && final(buffer)@ == old(buffer)@,
        layers@.len() == 0 ==> r == Ok::<usize, SerializeError>(0) && final(buffer)@ == old(
            buffer,
        )@,
{
    let ghost s = layers@;
    let ghost start = buffer@;
    let len = buffer.len();
    let count = layers.len();
    let mut total: usize = 0;
    let mut i: usize = 0;
    while i < count
        invariant
            count == s.len(),
            len == buffer@.len(),
            buffer@ == start,
            s == layers@,
            i <= count,
            total == offset(s, i as int),
            total <= len,
        decreases count - i,
    {
        let size = layers[i].get_size();
        proof {
            lemma_offset_step(s, i as int);
        }
        if size > len - total {
            proof {
                lemma_size_split(s, i + 1);
            }
            return Err(SerializeError::BufferTooSmallError);
        }
        total = total + size;
        i = i + 1;
    }
    proof {
        assert(s.take(count as int) =~= s);
        lemma_size_split(s, 0);
        assert(s.take(0).len() == 0);
    }
    let mut pos: usize = 0;
    let mut remaining: usize = total;
    i = 0;
    while i < count
        invariant
            count == s.len(),
            len == buffer@.len(),
            len == start.len(),
            s == layers@,
            total == stack_size(s),
            total <= len,
            i <= count,
            pos == offset(s, i as int),
            remaining == encapsulated(s, i as int),
            pos + remaining == total,
            buffer@ == stack_image(s, i as int) + start.subrange(pos as int, len as int),
        decreases count - i,
    {
        proof {
            lemma_offset_step(s, i as int);
            lemma_size_split(s, i as int);
            lemma_image_len(s, i as int);
            s[i as int].lemma_render_len(Some(remaining));
        }
        let size = layers[i].get_size();
        layers[i].write_at(buffer, pos, Some(remaining));
        proof {
            let img = s[i as int].render(Some(remaining));
            assert(stack_image(s, i + 1) == stack_image(s, i as int) + img);
            assert(buffer@ =~= stack_image(s, i + 1) + start.subrange(
                pos + size,
                len as int,
            ));
        }
        pos = pos + size;
        remaining = remaining - size;
        i = i + 1;
    }
    proof {
        lemma_size_split(s, count as int);
        lemma_image_len(s, count as int);
        assert forall|j: int| 0 <= j < count implies #[trigger] buffer@.subrange(
            offset(s, j) as int,
            (offset(s, j) + s[j].size()) as int,
        ) == s[j].render(Some(encapsulated(s, j) as usize)) by {
            lemma_image_region(s, count as int, j);
            lemma_offset_step(s, j);
            lemma_size_split(s, j + 1);
            assert(buffer@.subrange(offset(s, j) as int, (offset(s, j) + s[j].size()) as int)
                =~= stack_image(s, count as int).subrange(
                offset(s, j) as int,
                (offset(s, j) + s[j].size()) as int,
            ));
        }
    }
    Ok(total)
}

} // verus!
