use concat_arrays::_const_assert_same_size;
use concat_arrays::concatenate;
use concat_arrays::concatenate_with_size;
use concat_arrays::concatenated_length;
use concat_arrays::split;

#[test]
fn concat_length_is_sum_of_part_lengths() {
    let r = concatenate(&vec![vec![10u8, 20], vec![30u8, 40, 50]], 0);
    assert_eq!(r.len(), 2 + 3);
    assert_eq!(concatenated_length(&vec![2, 3]), 5);
    assert_eq!(concatenated_length(&vec![]), 0);
}

#[test]
fn split_undoes_concatenate() {
    let a = vec![7u64, 8, 9];
    let b = vec![10u64, 11];
    let joined = concatenate(&vec![a.clone(), b.clone()], 0);
    let back = split(&joined, &vec![a.len(), b.len()]).unwrap();
    assert_eq!(back, vec![a, b]);
}

#[test]
fn concatenate_undoes_split() {
    let s = vec![3u32, 1, 4, 1, 5, 9];
    let segs = split(&s, &vec![2, 3, 1]).unwrap();
    let joined = concatenate(&segs, 0);
    assert_eq!(joined, s);
}

#[test]
fn concat_of_no_parts_is_empty() {
    let r = concatenate(&vec![], 9u16);
    assert_eq!(r, Vec::<u16>::new());
}

#[test]
fn empty_part_contributes_nothing() {
    let with_empty = concatenate(&vec![vec![1u32, 2], vec![], vec![3u32]], 0);
    let without = concatenate(&vec![vec![1u32, 2], vec![3u32]], 0);
    assert_eq!(with_empty, without);
    assert_eq!(with_empty, vec![1, 2, 3]);
}

#[test]
fn split_whole_returns_sequence_unchanged() {
    let s = vec![5u32, 6, 7, 8];
    let segs = split(&s, &vec![4]).unwrap();
    assert_eq!(segs, vec![vec![5, 6, 7, 8]]);
}

#[test]
fn split_many_segments_keeps_contiguity_and_order() {
    let s = vec![1u32, 2, 3, 4, 5, 6];
    let segs = split(&s, &vec![1, 4, 1]).unwrap();
    assert_eq!(segs, vec![vec![1], vec![2, 3, 4, 5], vec![6]]);
}

#[test]
fn concat_of_two_and_three_parts() {
    let two = concatenate(&vec![vec![1u32, 2, 3], vec![4u32, 5]], 0);
    assert_eq!(two, vec![1, 2, 3, 4, 5]);
    let three = concatenate(&vec![vec![1u32, 2, 3], vec![4u32, 5], vec![6u32, 7, 8]], 0);
    assert_eq!(three, vec![1, 2, 3, 4, 5, 6, 7, 8]);
}

#[test]
fn split_into_halves_and_singletons() {
    let s = vec![1u32, 2, 3, 4, 5, 6];
    assert_eq!(
        split(&s, &vec![3, 3]).unwrap(),
        vec![vec![1, 2, 3], vec![4, 5, 6]]
    );
    assert_eq!(
        split(&s, &vec![1, 1, 1, 1, 1, 1]).unwrap(),
        vec![vec![1], vec![2], vec![3], vec![4], vec![5], vec![6]]
    );
}

#[test]
fn mismatched_total_lengths_are_rejected() {
    let s = vec![1u32, 2, 3, 4, 5];
    assert_eq!(split(&s, &vec![2, 2]), None);
    assert_eq!(split(&s, &vec![3, 3]), None);
    assert_eq!(split(&s, &vec![]), None);
    assert_eq!(split(&s, &vec![6]), None);
    assert_eq!(concatenate_with_size(&vec![vec![1u32, 2], vec![3u32]], 0, 4), None);
    assert_eq!(concatenate_with_size(&vec![vec![1u32, 2], vec![3u32]], 0, 2), None);
}

#[test]
fn declared_size_that_matches_is_accepted() {
    let r = concatenate_with_size(&vec![vec![1u32, 2], vec![3u32]], 0, 3).unwrap();
    assert_eq!(r, vec![1, 2, 3]);
}

#[test]
fn filler_never_reaches_the_output() {
    let r = concatenate(&vec![vec![1u32], vec![2u32]], 99);
    assert_eq!(r, vec![1, 2]);
    assert!(!r.contains(&99));
}

#[test]
fn zero_length_segments_are_legal() {
    let s = vec![1u32, 2];
    let segs = split(&s, &vec![0, 2, 0]).unwrap();
    assert_eq!(segs, vec![vec![], vec![1, 2], vec![]]);
}

#[test]
fn splitting_empty_sequence_into_no_segments() {
    let s: Vec<u32> = vec![];
    assert_eq!(split(&s, &vec![]), Some(vec![]));
}

#[test]
fn same_size_assertion_holds_for_equal_sizes() {
    assert!(_const_assert_same_size::<u32, [u8; 4]>());
    assert!(_const_assert_same_size::<[u64; 2], [u32; 4]>());
}
