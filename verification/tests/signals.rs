use tennessee_eastman::signals::overwrite_prefix;

#[test]
fn overwrite_copies_the_common_prefix() {
    let mut dst = vec![0.0, 0.0, 0.0];
    overwrite_prefix(&mut dst, &[1.0, 2.0]);
    assert_eq!(dst, vec![1.0, 2.0, 0.0]);
    let mut dst = vec![9, 9];
    overwrite_prefix(&mut dst, &[1, 2, 3, 4]);
    assert_eq!(dst, vec![1, 2]);
    let mut dst: Vec<i32> = vec![];
    overwrite_prefix(&mut dst, &[1]);
    assert!(dst.is_empty());
    let mut dst = vec![7, 8];
    overwrite_prefix(&mut dst, &[]);
    assert_eq!(dst, vec![7, 8]);
}
