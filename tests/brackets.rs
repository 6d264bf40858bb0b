use bfrun::brackets::gather_matching_brackets;
use bfrun::error::BfError;

#[test]
fn matches_simple_pair() {
    let p = b"[]".to_vec();
    assert_eq!(gather_matching_brackets(&p), Ok(vec![1, 0]));
}

#[test]
fn matches_nested_pairs_and_zeroes_other_bytes() {
    let p = b"a[b[]c]d".to_vec();
    assert_eq!(gather_matching_brackets(&p), Ok(vec![0, 6, 0, 4, 3, 0, 1, 0]));
}

#[test]
fn matches_sibling_loops() {
    let p = b"[][]".to_vec();
    assert_eq!(gather_matching_brackets(&p), Ok(vec![1, 0, 3, 2]));
}

#[test]
fn empty_program_has_empty_table() {
    let p: Vec<u8> = Vec::new();
    assert_eq!(gather_matching_brackets(&p), Ok(vec![]));
}

#[test]
fn lone_open_fails() {
    let p = b"[".to_vec();
    assert_eq!(gather_matching_brackets(&p), Err(BfError::UnmatchedOpen));
}

#[test]
fn lone_close_fails() {
    let p = b"]".to_vec();
    assert_eq!(
        gather_matching_brackets(&p),
        Err(BfError::MismatchedClose { position: 0 })
    );
}

#[test]
fn only_closers_fail_at_first_byte() {
    let p = b"]]]".to_vec();
    assert_eq!(
        gather_matching_brackets(&p),
        Err(BfError::MismatchedClose { position: 0 })
    );
}

#[test]
fn excess_close_is_reported_where_it_stands() {
    let p = b"+[]]+[".to_vec();
    assert_eq!(
        gather_matching_brackets(&p),
        Err(BfError::MismatchedClose { position: 3 })
    );
}

#[test]
fn unclosed_open_after_pairs_fails() {
    let p = b"[[]".to_vec();
    assert_eq!(gather_matching_brackets(&p), Err(BfError::UnmatchedOpen));
}

#[test]
fn resolving_twice_gives_the_same_table() {
    let p = b"+[>[-]<[>+<-]]".to_vec();
    let first = gather_matching_brackets(&p).unwrap();
    let second = gather_matching_brackets(&p).unwrap();
    assert_eq!(first, second);
    for (i, b) in p.iter().enumerate() {
        if *b == b'[' || *b == b']' {
            assert_eq!(first[first[i]], i);
        }
    }
}
