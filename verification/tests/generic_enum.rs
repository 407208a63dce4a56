use comparable::generic_enum::{IdOrObject, IdOrObjectChange, IdOrObjectDesc};
use comparable::scalar::I32Change;
use comparable::string::StringChange;
use comparable::types::{Changed, Comparable};

#[test]
fn test_generic_enum_basic() {
    let id1 = IdOrObject::<i32>::ID("abc".to_string());
    let id2 = IdOrObject::<i32>::ID("def".to_string());

    let changes = id1.comparison(&id2);
    println!("Changes: {:?}", changes);
    assert_eq!(
        Changed::Changed(IdOrObjectChange::BothID(StringChange(
            "abc".to_string(),
            "def".to_string()
        ))),
        changes
    );
}

#[test]
fn test_generic_enum_with_object() {
    let obj1 = IdOrObject::Object(42);
    let obj2 = IdOrObject::Object(100);

    let changes = obj1.comparison(&obj2);
    println!("Changes: {:?}", changes);
    assert_eq!(
        Changed::Changed(IdOrObjectChange::BothObject(I32Change(42, 100))),
        changes
    );
}

#[test]
fn test_generic_enum_cross_variant() {
    let id = IdOrObject::<i32>::ID("abc".to_string());
    let obj = IdOrObject::Object(7);
    assert_eq!(
        Changed::Changed(IdOrObjectChange::Different(
            IdOrObjectDesc::ID("abc".to_string()),
            IdOrObjectDesc::Object(7),
        )),
        id.comparison(&obj)
    );
}
