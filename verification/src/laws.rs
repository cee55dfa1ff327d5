//! The general laws the two operations obey, stated over the model.

use vstd::prelude::*;
use vstd::seq_lib::lemma_flatten_concat;

use crate::model::len_sum;
use crate::model::lemma_flatten_len;
use crate::model::lemma_len_sum_concat;
use crate::model::lemma_len_sum_prefix_le;
use crate::model::lemma_len_sum_singleton;
use crate::model::lemma_len_sum_take_succ;
use crate::model::lemma_segments_concat;
use crate::model::lemma_segments_len;
use crate::model::lemma_segments_singleton;
use crate::model::part_lens;
use crate::model::segments;

verus! {

/// Concatenation conserves length: joining two sequences yields exactly
/// as many elements as the two held together.
pub proof fn lemma_concat_pair_length<T>(a: Seq<T>, b: Seq<T>)
    ensures
        seq![a, b].flatten().len() == a.len() + b.len(),
{
    lemma_flatten_len(seq![a, b]);
    assert(part_lens(seq![a, b]) =~= seq![a.len()] + seq![b.len()]);
    lemma_len_sum_concat(seq![a.len()], seq![b.len()]);
    lemma_len_sum_singleton(a.len());
    lemma_len_sum_singleton(b.len());
}

/// Splitting is the exact left inverse of concatenating: cutting a
/// flattened list of parts back along the parts' own lengths reproduces
/// every part unchanged, element for element, in order.
pub proof fn lemma_split_of_concatenate<T>(parts: Seq<Seq<T>>)
    ensures
        segments(parts.flatten(), part_lens(parts)) == parts,
    decreases parts.len(),
{
    if parts.len() == 0 {
        assert(part_lens(parts) =~= Seq::<nat>::empty());
        assert(segments(parts.flatten(), part_lens(parts)) =~= parts);
    } else {
        let rest = parts.drop_first();
        let head_len = parts[0].len() as int;
        lemma_split_of_concatenate(rest);
        assert(parts.flatten() == parts[0] + rest.flatten());
        assert(part_lens(parts).drop_first() =~= part_lens(rest));
        assert(parts.flatten().take(head_len) =~= parts[0]);
        assert(parts.flatten().skip(head_len) =~= rest.flatten());
        assert(segments(parts.flatten(), part_lens(parts)) =~= seq![parts[0]] + segments(
            rest.flatten(),
            part_lens(rest),
        ));
        assert(seq![parts[0]] + rest =~= parts);
    }
}

/// The two-part round trip: concatenating `a` and `b`, then splitting along
/// their lengths, yields `a` and `b` back.
pub proof fn lemma_split_of_concatenate_pair<T>(a: Seq<T>, b: Seq<T>)
    ensures
        segments(seq![a, b].flatten(), seq![a.len(), b.len()]) == seq![a, b],
{
    lemma_split_of_concatenate(seq![a, b]);
    assert(part_lens(seq![a, b]) =~= seq![a.len(), b.len()]);
}

/// The round trip in the other direction: concatenating the segments of a
/// valid split, in order, reproduces the original sequence value for value.
pub proof fn lemma_concatenate_of_split<T>(s: Seq<T>, lens: Seq<nat>)
    requires
        len_sum(lens) == s.len(),
    ensures
        segments(s, lens).flatten() == s,
    decreases lens.len(),
{
    if lens.len() == 0 {
        assert(segments(s, lens).flatten() =~= s);
    } else {
        let head = lens[0] as int;
        let tail = s.skip(head);
        lemma_concatenate_of_split(tail, lens.drop_first());
        assert(segments(s, lens) == seq![s.take(head)] + segments(tail, lens.drop_first()));
        lemma_flatten_concat(seq![s.take(head)], segments(tail, lens.drop_first()));
        seq![s.take(head)].lemma_flatten_singleton();
        assert(s.take(head) + tail =~= s);
    }
}

/// Concatenating zero sequences yields a zero-length sequence.
pub proof fn lemma_concat_of_none<T>()
    ensures
        Seq::<Seq<T>>::empty().flatten() == Seq::<T>::empty(),
{
}

/// A zero-length part contributes nothing: concatenating with it is the
/// same as concatenating without it.
pub proof fn lemma_concat_omits_empty<T>(parts: Seq<Seq<T>>, i: int)
    requires
        0 <= i < parts.len(),
        parts[i].len() == 0,
    ensures
        parts.remove(i).flatten() == parts.flatten(),
{
    let before = parts.take(i);
    let after = parts.skip(i + 1);
    assert(parts =~= before + (seq![parts[i]] + after));
    lemma_flatten_concat(before, seq![parts[i]] + after);
    lemma_flatten_concat(seq![parts[i]], after);
    seq![parts[i]].lemma_flatten_singleton();
    assert(parts[i] =~= Seq::<T>::empty());
    assert(seq![parts[i]].flatten() + after.flatten() =~= after.flatten());
    assert(parts.remove(i) =~= before + after);
    lemma_flatten_concat(before, after);
    assert(parts.remove(i).flatten() =~= parts.flatten());
}

/// Splitting into a single segment of the sequence's full length returns
/// the sequence unchanged.
pub proof fn lemma_split_whole<T>(s: Seq<T>)
    ensures
        segments(s, seq![s.len()]) == seq![s],
{
    lemma_segments_singleton(s, s.len());
    assert(s.take(s.len() as int) =~= s);
}

/// Every segment of a split is contiguous and order-preserving: the i-th
/// segment is exactly the run of `lens[i]` elements starting where the
/// preceding segments' lengths end, however many segments there are.
pub proof fn lemma_segment_at<T>(s: Seq<T>, lens: Seq<nat>, i: int)
    requires
        len_sum(lens) <= s.len(),
        0 <= i < lens.len(),
    ensures
        segments(s, lens).len() == lens.len(),
        segments(s, lens)[i] == s.subrange(
            len_sum(lens.take(i)) as int,
            (len_sum(lens.take(i)) + lens[i]) as int,
        ),
{
    let off = len_sum(lens.take(i)) as int;
    lemma_segments_len(s, lens);
    lemma_len_sum_prefix_le(lens, i);
    lemma_len_sum_take_succ(lens, i);
    lemma_len_sum_prefix_le(lens, i + 1);
    assert(lens =~= lens.take(i) + lens.skip(i));
    lemma_segments_concat(s, lens.take(i), lens.skip(i));
    lemma_segments_len(s, lens.take(i));
    assert(segments(s, lens)[i] == segments(s.skip(off), lens.skip(i))[0]);
    assert(lens.skip(i)[0] == lens[i]);
    assert(segments(s.skip(off), lens.skip(i))[0] == s.skip(off).take(lens[i] as int));
    assert(s.skip(off).take(lens[i] as int) =~= s.subrange(off, off + lens[i]));
}

} // verus!
