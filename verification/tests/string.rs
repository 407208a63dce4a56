use comparable::string::StringChange;
use comparable::types::{Changed, Comparable};

#[test]
fn test_string() {
    assert_eq!(
        Changed::Unchanged,
        "hello".to_string().comparison(&"hello".to_string())
    );
    assert_eq!(
        Changed::Changed(StringChange("hello".to_string(), "goodbye".to_string())),
        "hello".to_string().comparison(&"goodbye".to_string())
    );
}

#[test]
fn test_string_describe() {
    assert_eq!("hello".to_string(), "hello".to_string().describe());
}
