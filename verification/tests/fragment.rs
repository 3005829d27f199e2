use freegsm::fragment::split_hello;

fn hello() -> Vec<u8> {
    vec![22, 3, 1, 0, 6, 10, 11, 12, 13, 14, 15]
}

#[test]
fn a_greeting_is_cut_at_the_lengths() {
    assert_eq!(
        split_hello(&hello(), &vec![2, 0, 3, 9]),
        vec![
            vec![22, 3, 1, 0, 2, 10, 11],
            vec![22, 3, 1, 0, 3, 12, 13, 14],
            vec![22, 3, 1, 0, 1, 15]
        ]
    );
}

#[test]
fn what_no_length_is_drawn_for_stays_together() {
    assert_eq!(split_hello(&hello(), &vec![]), vec![hello()]);
    assert_eq!(
        split_hello(&hello(), &vec![1]),
        vec![vec![22, 3, 1, 0, 1, 10], vec![22, 3, 1, 0, 5, 11, 12, 13, 14, 15]]
    );
    assert_eq!(split_hello(&hello(), &vec![6]), vec![hello()]);
    assert_eq!(split_hello(&hello(), &vec![usize::MAX]), vec![hello()]);
}

#[test]
fn what_follows_the_first_record_is_unchanged() {
    let mut more = hello();
    more.extend_from_slice(&[20, 3, 3, 0, 1, 1]);
    let cut = split_hello(&more, &vec![4, 2]);
    assert_eq!(cut.len(), 3);
    assert_eq!(cut[0], vec![22, 3, 1, 0, 4, 10, 11, 12, 13]);
    assert_eq!(cut[1], vec![22, 3, 1, 0, 2, 14, 15]);
    assert_eq!(cut[2], vec![20, 3, 3, 0, 1, 1]);
}

#[test]
fn a_record_that_is_not_whole_is_left_alone() {
    for part in [
        vec![22],
        vec![22, 3, 1, 0],
        vec![22, 3, 1, 0, 0],
        vec![22, 3, 1, 0, 0, 7, 7],
        hello()[..10].to_vec(),
    ] {
        assert_eq!(split_hello(&part, &vec![1, 1]), vec![part]);
    }
}

#[test]
fn long_records_tell_their_length() {
    let mut long = vec![22, 3, 1, 2, 0];
    long.extend_from_slice(&[5; 512]);
    let cut = split_hello(&long, &vec![300, 300]);
    assert_eq!(cut[0][3..5], [1, 44]);
    assert_eq!(cut[0].len(), 305);
    assert_eq!(cut[1][3..5], [0, 212]);
}
