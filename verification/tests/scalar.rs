use comparable::scalar::{
    BoolChange, CharChange, I16Change, I32Change, I64Change, I8Change, IsizeChange, U16Change,
    U32Change, U64Change, U8Change, UsizeChange,
};
use comparable::types::{Changed, Comparable};

#[test]
fn test_unit() {
    assert_eq!(Changed::Unchanged, ().comparison(&()));
}

#[test]
fn test_bool() {
    assert_eq!(Changed::Unchanged, ().comparison(&()));
    assert_eq!(Changed::Unchanged, true.comparison(&true));
    assert_eq!(
        Changed::Changed(BoolChange(true, false)),
        true.comparison(&false)
    );
}

#[test]
fn test_u8() {
    assert_eq!(Changed::Unchanged, (100 as u8).comparison(&(100 as u8)));
    assert_eq!(
        Changed::Changed(U8Change(100, 200)),
        (100 as u8).comparison(&(200 as u8))
    );
}

#[test]
fn test_i8() {
    assert_eq!(Changed::Unchanged, (100 as i8).comparison(&(100 as i8)));
    assert_eq!(
        Changed::Changed(I8Change(100, 120)),
        (100 as i8).comparison(&(120 as i8))
    );
}

#[test]
fn test_u16() {
    assert_eq!(Changed::Unchanged, (100 as u16).comparison(&(100 as u16)));
    assert_eq!(
        Changed::Changed(U16Change(100, 200)),
        (100 as u16).comparison(&(200 as u16))
    );
}

#[test]
fn test_i16() {
    assert_eq!(Changed::Unchanged, (100 as i16).comparison(&(100 as i16)));
    assert_eq!(
        Changed::Changed(I16Change(100, 200)),
        (100 as i16).comparison(&(200 as i16))
    );
}

#[test]
fn test_u32() {
    assert_eq!(Changed::Unchanged, (100 as u32).comparison(&(100 as u32)));
    assert_eq!(
        Changed::Changed(U32Change(100, 200)),
        (100 as u32).comparison(&(200 as u32))
    );
}

#[test]
fn test_i32() {
    assert_eq!(Changed::Unchanged, (100 as i32).comparison(&(100 as i32)));
    assert_eq!(
        Changed::Changed(I32Change(100, 200)),
        (100 as i32).comparison(&(200 as i32))
    );
}

#[test]
fn test_u64() {
    assert_eq!(Changed::Unchanged, (100 as u64).comparison(&(100 as u64)));
    assert_eq!(
        Changed::Changed(U64Change(100, 200)),
        (100 as u64).comparison(&(200 as u64))
    );
}

#[test]
fn test_i64() {
    assert_eq!(Changed::Unchanged, (100 as i64).comparison(&(100 as i64)));
    assert_eq!(
        Changed::Changed(I64Change(100, 200)),
        (100 as i64).comparison(&(200 as i64))
    );
}

#[test]
fn test_usize() {
    assert_eq!(
        Changed::Unchanged,
        (100 as usize).comparison(&(100 as usize))
    );
    assert_eq!(
        Changed::Changed(UsizeChange(100, 200)),
        (100 as usize).comparison(&(200 as usize))
    );
}

#[test]
fn test_isize() {
    assert_eq!(
        Changed::Unchanged,
        (100 as isize).comparison(&(100 as isize))
    );
    assert_eq!(
        Changed::Changed(IsizeChange(100, 200)),
        (100 as isize).comparison(&(200 as isize))
    );
}

#[test]
fn test_char() {
    assert_eq!(Changed::Unchanged, 'a'.comparison(&'a'));
    assert_eq!(Changed::Changed(CharChange('a', 'b')), 'a'.comparison(&'b'));
}

#[test]
fn test_scalar_describe() {
    assert_eq!(42u8, 42u8.describe());
    assert_eq!('z', 'z'.describe());
    assert_eq!(true, true.describe());
}
