use concat_arrays::concatenate;
use concat_arrays::concatenate_with_size;
use concat_arrays::concatenated_length;
use concat_arrays::split;

fn a() -> Vec<u32> {
    vec![1, 2, 3]
}

fn b() -> Vec<u32> {
    vec![4, 5, 6]
}

fn c() -> Vec<u32> {
    vec![4, 5]
}

#[test]
fn test_simple_concat() {
    let d = concatenate(&vec![a(), b()], 0);
    let size = concatenated_length(&vec![a().len(), b().len()]);
    let d_sized = concatenate_with_size(&vec![a(), b()], 0, size).unwrap();
    assert_eq!(vec![1, 2, 3, 4, 5, 6], d_sized);
    assert_eq!(vec![1, 2, 3, 4, 5, 6], d);
}

#[test]
fn test_simple_split() {
    let d = concatenate(&vec![a(), b()], 0);

    let a_b = split(&d, &vec![a().len(), b().len()]).unwrap();

    assert_eq!(vec![a(), b()], a_b);
    assert_eq!(vec![a(), b()], split(&d, &vec![3, 3]).unwrap());
    assert_eq!(
        vec![vec![1], vec![2, 3, 4, 5, 6]],
        split(&d, &vec![1, 5]).unwrap()
    );
    assert_eq!(
        vec![vec![1, 2, 3, 4, 5], vec![6]],
        split(&d, &vec![5, 1]).unwrap()
    );
    assert_eq!(
        vec![vec![1], vec![2, 3, 4, 5], vec![6]],
        split(&d, &vec![1, 4, 1]).unwrap()
    );
    assert_eq!(
        vec![vec![1], vec![2, 3], vec![4, 5, 6]],
        split(&d, &vec![1, 2, 3]).unwrap()
    );
    assert_eq!(
        vec![vec![1], vec![2], vec![3], vec![4], vec![5], vec![6]],
        split(&d, &vec![1, 1, 1, 1, 1, 1]).unwrap()
    );
}

#[test]
fn test_different_sizes() {
    let e = concatenate(&vec![a(), c()], 0);
    let size = concatenated_length(&vec![a().len(), c().len()]);
    let e_sized = concatenate_with_size(&vec![a(), c()], 0, size).unwrap();
    assert_eq!(vec![1, 2, 3, 4, 5], e_sized);
    assert_eq!(vec![1, 2, 3, 4, 5], e);
}

#[test]
fn test_literal_arrays() {
    let f = concatenate(&vec![a(), c(), vec![6, 7, 8]], 0);
    let size = concatenated_length(&vec![a().len(), c().len(), 3]);
    let f_sized = concatenate_with_size(&vec![a(), c(), vec![6, 7, 8]], 0, size).unwrap();
    assert_eq!(vec![1, 2, 3, 4, 5, 6, 7, 8], f_sized);
    assert_eq!(vec![1, 2, 3, 4, 5, 6, 7, 8], f);
}

#[test]
fn test_non_const_arrays() {
    let a = vec![1, 2, 3];
    let c = vec![4, 5];
    let f = concatenate(&vec![a, c, vec![6, 7, 8]], 0);
    assert_eq!(vec![1, 2, 3, 4, 5, 6, 7, 8], f);
}
