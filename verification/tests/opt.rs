use comparable::opt::OptionChange;
use comparable::scalar::I32Change;
use comparable::types::{Changed, Comparable};

#[test]
fn test_option() {
    assert_eq!(
        Changed::Unchanged,
        (None as Option<i32>).comparison(&(None as Option<i32>))
    );
    assert_eq!(
        Changed::Changed(OptionChange::Different(None, Some(100))),
        (None as Option<i32>).comparison(&Some(100))
    );
    assert_eq!(
        Changed::Changed(OptionChange::Different(Some(100), None)),
        Some(100).comparison(&(None as Option<i32>))
    );
    assert_eq!(Changed::Unchanged, Some(100).comparison(&Some(100)));
    assert_eq!(
        Changed::Changed(OptionChange::BothSome(I32Change(100, 200))),
        Some(100).comparison(&Some(200))
    );
}
