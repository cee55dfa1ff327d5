//! The mathematical model: sequences of sequences, length partitions, and
//! the segment decomposition that splitting realizes.

use vstd::prelude::*;

verus! {

/// The views of a list of vectors, as a sequence of sequences.
pub open spec fn views<T>(parts: Seq<Vec<T>>) -> Seq<Seq<T>> {
    parts.map_values(|p: Vec<T>| p@)
}

/// The lengths of the parts, in order.
pub open spec fn part_lens<T>(parts: Seq<Seq<T>>) -> Seq<nat> {
    parts.map_values(|p: Seq<T>| p.len())
}

/// A list of segment lengths, lifted to the model.
pub open spec fn nat_lens(lens: Seq<usize>) -> Seq<nat> {
    lens.map_values(|n: usize| n as nat)
}

/// The total of a length partition: a pure sum.
pub open spec fn len_sum(lens: Seq<nat>) -> nat
    decreases lens.len(),
{
    if lens.len() == 0 {
        0
    } else {
        (lens[0] + len_sum(lens.drop_first())) as nat
    }
}

/// The segments of `s` under the partition `lens`: the i-th segment is the
/// contiguous run of `lens[i]` elements starting where the previous
/// segments end.
pub open spec fn segments<T>(s: Seq<T>, lens: Seq<nat>) -> Seq<Seq<T>>
    decreases lens.len(),
{
    if lens.len() == 0 {
        Seq::empty()
    } else {
        seq![s.take(lens[0] as int)] + segments(s.skip(lens[0] as int), lens.drop_first())
    }
}

/// A sum over a concatenation of partitions is the sum of the sums.
pub proof fn lemma_len_sum_concat(a: Seq<nat>, b: Seq<nat>)
    ensures
        len_sum(a + b) == len_sum(a) + len_sum(b),
    decreases a.len(),
{
    if a.len() == 0 {
        assert(a + b =~= b);
    } else {
        assert((a + b).drop_first() =~= a.drop_first() + b);
        lemma_len_sum_concat(a.drop_first(), b);
    }
}

/// A one-length partition sums to its single entry.
pub proof fn lemma_len_sum_singleton(n: nat)
    ensures
        len_sum(seq![n]) == n,
{
    assert(seq![n].drop_first() =~= Seq::<nat>::empty());
    assert(len_sum(Seq::<nat>::empty()) == 0);
}

/// Extending a prefix of a partition by one entry adds that entry to the sum.
pub proof fn lemma_len_sum_take_succ(lens: Seq<nat>, i: int)
    requires
        0 <= i < lens.len(),
    ensures
        len_sum(lens.take(i + 1)) == len_sum(lens.take(i)) + lens[i],
{
    assert(lens.take(i + 1) =~= lens.take(i) + seq![lens[i]]);
    lemma_len_sum_concat(lens.take(i), seq![lens[i]]);
    lemma_len_sum_singleton(lens[i]);
}

/// No prefix of a partition sums to more than the whole.
pub proof fn lemma_len_sum_prefix_le(lens: Seq<nat>, i: int)
    requires
        0 <= i <= lens.len(),
    ensures
        len_sum(lens.take(i)) <= len_sum(lens),
{
    assert(lens =~= lens.take(i) + lens.skip(i));
    lemma_len_sum_concat(lens.take(i), lens.skip(i));
}

/// Flattening one more part appends that part to the flattened prefix.
pub proof fn lemma_flatten_take_succ<T>(parts: Seq<Seq<T>>, i: int)
    requires
        0 <= i < parts.len(),
    ensures
        parts.take(i + 1).flatten() == parts.take(i).flatten() + parts[i],
{
    assert(parts.take(i + 1) =~= parts.take(i).push(parts[i]));
    parts.take(i).lemma_flatten_push(parts[i]);
}

/// A flattened list of sequences holds exactly as many elements as the
/// lengths of its parts sum to.
pub proof fn lemma_flatten_len<T>(parts: Seq<Seq<T>>)
    ensures
        parts.flatten().len() == len_sum(part_lens(parts)),
    decreases parts.len(),
{
    if parts.len() == 0 {
    } else {
        lemma_flatten_len(parts.drop_first());
        assert(part_lens(parts).drop_first() =~= part_lens(parts.drop_first()));
    }
}

/// A partition of n lengths cuts a sequence into n segments.
pub proof fn lemma_segments_len<T>(s: Seq<T>, lens: Seq<nat>)
    ensures
        segments(s, lens).len() == lens.len(),
    decreases lens.len(),
{
    if lens.len() == 0 {
    } else {
        lemma_segments_len(s.skip(lens[0] as int), lens.drop_first());
    }
}

/// A one-length partition yields the single leading segment.
pub proof fn lemma_segments_singleton<T>(s: Seq<T>, n: nat)
    ensures
        segments(s, seq![n]) == seq![s.take(n as int)],
{
    assert(seq![n].drop_first() =~= Seq::<nat>::empty());
    assert(segments(s.skip(n as int), Seq::<nat>::empty()) =~= Seq::<Seq<T>>::empty());
    assert(segments(s, seq![n]) =~= seq![s.take(n as int)]);
}

/// Splitting under a concatenated partition first cuts the segments of the
/// left partition, then those of the right, starting where the left ends.
pub proof fn lemma_segments_concat<T>(s: Seq<T>, a: Seq<nat>, b: Seq<nat>)
    requires
        len_sum(a) <= s.len(),
    ensures
        segments(s, a + b) == segments(s, a) + segments(s.skip(len_sum(a) as int), b),
    decreases a.len(),
{
    if a.len() == 0 {
        assert(a + b =~= b);
        assert(s.skip(0) =~= s);
        assert(segments(s, a + b) =~= segments(s, a) + segments(s.skip(len_sum(a) as int), b));
    } else {
        let a0 = a[0] as int;
        assert((a + b)[0] == a[0]);
        assert((a + b).drop_first() =~= a.drop_first() + b);
        lemma_segments_concat(s.skip(a0), a.drop_first(), b);
        assert(s.skip(a0).skip(len_sum(a.drop_first()) as int) =~= s.skip(len_sum(a) as int));
        assert(segments(s, a + b) =~= segments(s, a) + segments(s.skip(len_sum(a) as int), b));
    }
}

} // verus!
