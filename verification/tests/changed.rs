use comparable::scalar::U8Change;
use comparable::types::Changed;

#[test]
fn test_changed_map() {
    let c: Changed<u8> = Changed::Changed(3);
    assert_eq!(Changed::Changed(6), c.map(|x| x * 2));
    let u: Changed<u8> = Changed::Unchanged;
    assert_eq!(Changed::<u8>::Unchanged, u.map(|x| x * 2));
}

#[test]
fn test_changed_take() {
    let mut c: Changed<u8> = Changed::Changed(3);
    assert_eq!(Some(3), c.take());
    assert_eq!(Changed::<u8>::Unchanged, c);
    assert_eq!(None, c.take());
}

#[test]
fn test_changed_to_changes() {
    let mut c: Changed<u8> = Changed::Changed(3);
    assert_eq!(vec![3], c.to_changes());
    assert_eq!(Vec::<u8>::new(), c.to_changes());
}

#[test]
fn test_changed_is_unchanged() {
    assert!(Changed::<u8>::Unchanged.is_unchanged());
    assert!(!Changed::Changed(1u8).is_unchanged());
}

#[test]
fn test_changed_unwrap_or_default() {
    assert_eq!(7u8, Changed::Changed(7u8).unwrap_or_default());
    assert_eq!(0u8, Changed::<u8>::Unchanged.unwrap_or_default());
}

#[test]
fn test_changed_default_and_from() {
    assert_eq!(Changed::<u8>::Unchanged, Changed::default());
    assert_eq!(Changed::Changed(4u8), Changed::from(Some(4u8)));
    assert_eq!(Changed::<u8>::Unchanged, Changed::from(None));
}

#[test]
fn test_changed_payload() {
    assert_eq!(
        Changed::Changed(U8Change(1, 2)),
        Changed::from(Some(U8Change(1, 2)))
    );
}
