use comparable::scalar::I32Change;
use comparable::types::{Changed, Comparable};

#[test]
fn test_box() {
    assert_eq!(
        Changed::Changed(I32Change(100, 200)),
        Box::new(100).comparison(&Box::new(200))
    );
    assert_eq!(Changed::Unchanged, Box::new(100).comparison(&Box::new(100)));
}

#[test]
fn test_tuple_pair() {
    assert_eq!(
        Changed::Unchanged,
        (1 as i32, true).comparison(&(1 as i32, true))
    );
    assert_eq!(
        Changed::Changed((Changed::Changed(I32Change(1, 2)), Changed::Unchanged)),
        (1 as i32, true).comparison(&(2 as i32, true))
    );
}

#[test]
fn test_empty_placeholder() {
    assert_eq!(
        Changed::Unchanged,
        std::iter::empty::<i32>().comparison(&std::iter::empty::<i32>())
    );
}
