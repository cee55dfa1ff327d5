//! The executable operations: length computation, concatenation, splitting.

use vstd::prelude::*;

use crate::model::len_sum;
use crate::model::lemma_flatten_len;
use crate::model::lemma_flatten_take_succ;
use crate::model::lemma_len_sum_prefix_le;
use crate::model::lemma_len_sum_take_succ;
use crate::model::lemma_segments_concat;
use crate::model::lemma_segments_singleton;
use crate::model::nat_lens;
use crate::model::part_lens;
use crate::model::segments;
use crate::model::views;

verus! {

/// The length of the sequence that concatenating parts of the given lengths
/// produces: a pure sum, exposed on its own so a caller can size the output
/// before constructing it.
pub fn concatenated_length(lengths: &Vec<usize>) -> (total: usize)
    requires
        len_sum(nat_lens(lengths@)) <= usize::MAX,
    ensures
        total == len_sum(nat_lens(lengths@)),
{
    let ghost model_lens = nat_lens(lengths@);
    let mut total: usize = 0;
    let mut i: usize = 0;
    while i < lengths.len()
        invariant
            0 <= i <= lengths.len(),
            model_lens == nat_lens(lengths@),
            model_lens.len() == lengths@.len(),
            total == len_sum(model_lens.take(i as int)),
            len_sum(model_lens) <= usize::MAX,
        decreases lengths.len() - i,
    {
        proof {
            lemma_len_sum_take_succ(model_lens, i as int);
            lemma_len_sum_prefix_le(model_lens, i + 1);
        }
        total = total + lengths[i];
        i = i + 1;
    }
    proof {
        assert(model_lens.take(lengths@.len() as int) =~= model_lens);
    }
    total
}

/// Concatenates the parts, in argument order, into one sequence. The filler
/// initializes the output storage before the elements are copied in and is
/// never part of the observable output: every slot is overwritten.
pub fn concatenate<T: Copy>(parts: &Vec<Vec<T>>, filler: T) -> (r: Vec<T>)
    requires
        len_sum(part_lens(views(parts@))) <= usize::MAX,
    ensures
        r@ == views(parts@).flatten(),
        r@.len() == len_sum(part_lens(views(parts@))),
{
    let ghost vs = views(parts@);
    let ghost pl = part_lens(vs);

    // First pass: the output length, a pure sum of the parts' lengths.
    let mut total: usize = 0;
    let mut i: usize = 0;
    while i < parts.len()
        invariant
            0 <= i <= parts.len(),
            vs == views(parts@),
            pl == part_lens(vs),
            pl.len() == parts@.len(),
            total == len_sum(pl.take(i as int)),
            len_sum(pl) <= usize::MAX,
        decreases parts.len() - i,
    {
        proof {
            lemma_len_sum_take_succ(pl, i as int);
            lemma_len_sum_prefix_le(pl, i + 1);
        }
        total = total + parts[i].len();
        i = i + 1;
    }
    proof {
        assert(pl.take(parts@.len() as int) =~= pl);
    }

    // Initialize the output storage with the filler.
    let mut out: Vec<T> = Vec::with_capacity(total);
    let mut k: usize = 0;
    while k < total
        invariant
            0 <= k <= total,
            out@.len() == k,
        decreases total - k,
    {
        out.push(filler);
        k = k + 1;
    }

    // Second pass: copy every element into the next output slot.
    let mut cursor: usize = 0;
    let mut i: usize = 0;
    while i < parts.len()
        invariant
            0 <= i <= parts.len(),
            vs == views(parts@),
            pl == part_lens(vs),
            pl.len() == parts@.len(),
            total == len_sum(pl),
            out@.len() == total,
            cursor == len_sum(pl.take(i as int)),
            out@.take(cursor as int) == vs.take(i as int).flatten(),
        decreases parts.len() - i,
    {
        proof {
            lemma_len_sum_take_succ(pl, i as int);
            lemma_len_sum_prefix_le(pl, i + 1);
        }
        let part_len = parts[i].len();
        let mut j: usize = 0;
        while j < part_len
            invariant
                0 <= j <= part_len,
                i < parts.len(),
                vs == views(parts@),
                pl == part_lens(vs),
                pl.len() == parts@.len(),
                part_len == vs[i as int].len(),
                out@.len() == total,
                cursor == len_sum(pl.take(i as int)) + j,
                len_sum(pl.take(i as int)) + part_len <= total,
                out@.take(cursor as int) == vs.take(i as int).flatten() + vs[i as int].take(
                    j as int,
                ),
            decreases part_len - j,
        {
            let ghost before = out@;
            out[cursor] = parts[i][j];
            proof {
                assert(out@.take(cursor as int) =~= before.take(cursor as int));
                assert(out@.take(cursor + 1) =~= before.take(cursor as int).push(
                    vs[i as int][j as int],
                ));
                assert(vs[i as int].take(j + 1) =~= vs[i as int].take(j as int).push(
                    vs[i as int][j as int],
                ));
                assert(out@.take(cursor + 1) =~= vs.take(i as int).flatten() + vs[i as int].take(
                    j + 1,
                ));
            }
            cursor = cursor + 1;
            j = j + 1;
        }
        proof {
            assert(vs[i as int].take(part_len as int) =~= vs[i as int]);
            lemma_flatten_take_succ(vs, i as int);
        }
        i = i + 1;
    }
    proof {
        assert(pl.take(parts@.len() as int) =~= pl);
        assert(vs.take(parts@.len() as int) =~= vs);
        lemma_flatten_len(vs);
        assert(out@.take(total as int) =~= out@);
    }
    out
}

/// Concatenates the parts into a sequence of a length the caller declares in
/// advance. The declared length is validated against the actual sum of the
/// parts' lengths before any element is copied: a mismatch is rejected, and
/// no partially constructed sequence is ever returned.
pub fn concatenate_with_size<T: Copy>(parts: &Vec<Vec<T>>, filler: T, declared_len: usize) -> (r:
    Option<Vec<T>>)
    ensures
        r is Some <==> len_sum(part_lens(views(parts@))) == declared_len,
        r matches Some(v) ==> v@ == views(parts@).flatten(),
        r matches Some(v) ==> v@.len() == declared_len,
{
    let ghost pl = part_lens(views(parts@));
    let mut acc: usize = 0;
    let mut i: usize = 0;
    while i < parts.len()
        invariant
            0 <= i <= parts.len(),
            pl == part_lens(views(parts@)),
            pl.len() == parts@.len(),
            acc == len_sum(pl.take(i as int)),
            acc <= declared_len,
        decreases parts.len() - i,
    {
        proof {
            lemma_len_sum_take_succ(pl, i as int);
            lemma_len_sum_prefix_le(pl, i + 1);
        }
        let l = parts[i].len();
        if l > declared_len - acc {
            return None;
        }
        acc = acc + l;
        i = i + 1;
    }
    proof {
        assert(pl.take(parts@.len() as int) =~= pl);
    }
    if acc != declared_len {
        return None;
    }
    Some(concatenate(parts, filler))
}

/// Splits the source into contiguous segments of the requested lengths, in
/// order. Returns the segments exactly when the requested lengths sum to the
/// source's length; any mismatched partition is rejected before any segment
/// is produced.
pub fn split<T: Copy>(source: &Vec<T>, segment_lengths: &Vec<usize>) -> (r: Option<Vec<Vec<T>>>)
    ensures
        r is Some <==> len_sum(nat_lens(segment_lengths@)) == source@.len(),
        r matches Some(segs) ==> views(segs@) == segments(source@, nat_lens(segment_lengths@)),
        r matches Some(segs) ==> segs@.len() == segment_lengths@.len(),
{
    let ghost ml = nat_lens(segment_lengths@);

    // First pass: the requested lengths must sum to exactly the source
    // length; reject any other partition before producing anything.
    let mut acc: usize = 0;
    let mut i: usize = 0;
    while i < segment_lengths.len()
        invariant
            0 <= i <= segment_lengths.len(),
            ml == nat_lens(segment_lengths@),
            ml.len() == segment_lengths@.len(),
            acc == len_sum(ml.take(i as int)),
            acc <= source@.len(),
        decreases segment_lengths.len() - i,
    {
        proof {
            lemma_len_sum_take_succ(ml, i as int);
            lemma_len_sum_prefix_le(ml, i + 1);
        }
        let l = segment_lengths[i];
        if l > source.len() - acc {
            return None;
        }
        acc = acc + l;
        i = i + 1;
    }
    proof {
        assert(ml.take(segment_lengths@.len() as int) =~= ml);
    }
    if acc != source.len() {
        return None;
    }

    // Second pass: copy each segment out of the source, advancing a running
    // offset by each segment's length.
    let n = source.len();
    let mut segs: Vec<Vec<T>> = Vec::with_capacity(segment_lengths.len());
    let mut off: usize = 0;
    let mut i: usize = 0;
    while i < segment_lengths.len()
        invariant
            0 <= i <= segment_lengths.len(),
            ml == nat_lens(segment_lengths@),
            ml.len() == segment_lengths@.len(),
            n == source@.len(),
            len_sum(ml) == n,
            off == len_sum(ml.take(i as int)),
            segs@.len() == i,
            views(segs@) == segments(source@, ml.take(i as int)),
        decreases segment_lengths.len() - i,
    {
        proof {
            lemma_len_sum_take_succ(ml, i as int);
            lemma_len_sum_prefix_le(ml, i + 1);
        }
        let l = segment_lengths[i];
        let mut seg: Vec<T> = Vec::with_capacity(l);
        let mut j: usize = 0;
        while j < l
            invariant
                0 <= j <= l,
                n == source@.len(),
                off + l <= n,
                seg@ == source@.subrange(off as int, off + j),
            decreases l - j,
        {
            seg.push(source[off + j]);
            proof {
                assert(seg@ =~= source@.subrange(off as int, off + j + 1));
            }
            j = j + 1;
        }
        segs.push(seg);
        proof {
            lemma_len_sum_prefix_le(ml, i as int);
            assert(ml.take(i + 1) =~= ml.take(i as int) + seq![ml[i as int]]);
            lemma_segments_concat(source@, ml.take(i as int), seq![ml[i as int]]);
            lemma_segments_singleton(source@.skip(off as int), ml[i as int]);
            assert(source@.skip(off as int).take(l as int) =~= source@.subrange(
                off as int,
                off + l,
            ));
            assert(views(segs@) =~= segments(source@, ml.take(i + 1)));
        }
        off = off + l;
        i = i + 1;
    }
    proof {
        assert(ml.take(segment_lengths@.len() as int) =~= ml);
    }
    Some(segs)
}

/// Asserts that two types have the same size, the consistency check behind
/// reinterpreting a composite of fixed-size sequences as one flat sequence.
/// Callers must already know the sizes agree; the returned flag confirms it.
pub fn _const_assert_same_size<A, B>() -> (same: bool)
    requires
        vstd::layout::size_of::<A>() == vstd::layout::size_of::<B>(),
    ensures
        same,
{
    core::mem::size_of::<A>() == core::mem::size_of::<B>()
}

} // verus!
