use classvm::error::ClassLoadError;
use classvm::flags::{AccessFlags, FlagContext};
use classvm::pool::{read_entry, read_pool, ConstantPoolTag};

fn one(bytes: &[u8]) -> (Vec<ConstantPoolTag>, usize) {
    read_entry(bytes, 0).unwrap()
}

#[test]
fn entries_round_trip_per_tag() {
    assert_eq!(one(&[7, 0x12, 0x34]), (vec![ConstantPoolTag::Class(0x1234)], 3));
    assert_eq!(one(&[8, 0, 9]), (vec![ConstantPoolTag::String(9)], 3));
    assert_eq!(one(&[16, 1, 0]), (vec![ConstantPoolTag::MethodType(256)], 3));
    assert_eq!(one(&[9, 0, 1, 0, 2]), (vec![ConstantPoolTag::FieldRef(1, 2)], 5));
    assert_eq!(one(&[10, 0, 3, 0, 4]), (vec![ConstantPoolTag::MethodRef(3, 4)], 5));
    assert_eq!(one(&[11, 0, 5, 0, 6]), (vec![ConstantPoolTag::InterfaceMethodRef(5, 6)], 5));
    assert_eq!(one(&[12, 0xAB, 0xCD, 0, 7]), (vec![ConstantPoolTag::NameAndType(0xABCD, 7)], 5));
    assert_eq!(one(&[18, 0, 1, 0xFF, 0xFF]), (vec![ConstantPoolTag::InvokeDynamic(1, 0xFFFF)], 5));
    assert_eq!(one(&[15, 6, 0, 8]), (vec![ConstantPoolTag::MethodHandle(6, 8)], 4));
    assert_eq!(one(&[3, 0xDE, 0xAD, 0xBE, 0xEF]), (vec![ConstantPoolTag::Integer(0xDEADBEEF)], 5));
    assert_eq!(one(&[4, 0x3F, 0x80, 0, 0]), (vec![ConstantPoolTag::Float(0x3F800000)], 5));
    assert_eq!(
        one(&[5, 0, 0, 0, 1, 0, 0, 0, 2]),
        (vec![ConstantPoolTag::Long(1, 2), ConstantPoolTag::Placeholder], 9)
    );
    assert_eq!(
        one(&[6, 0x40, 0, 0, 0, 0, 0, 0, 0]),
        (vec![ConstantPoolTag::Double(0x40000000, 0), ConstantPoolTag::Placeholder], 9)
    );
    assert_eq!(
        one(&[1, 0, 2, b'h', b'i', 99]),
        (vec![ConstantPoolTag::Utf8(2, vec![b'h', b'i'], "hi".to_string())], 5)
    );
}

#[test]
fn invalid_utf8_becomes_placeholder_text() {
    assert_eq!(
        one(&[1, 0, 2, 0xC3, 0x28]),
        (vec![ConstantPoolTag::Utf8(2, vec![0xC3, 0x28], "<nil>".to_string())], 5)
    );
}

#[test]
fn unknown_tag_fails() {
    assert_eq!(read_entry(&[2, 0, 0], 0), Err(ClassLoadError::UnknownConstantPoolTag(2)));
}

#[test]
fn truncated_entry_fails() {
    assert_eq!(read_entry(&[9, 0, 1, 0], 0), Err(ClassLoadError::ClassFileReadFailure));
    assert_eq!(read_entry(&[1, 0, 5, b'a'], 0), Err(ClassLoadError::ClassFileReadFailure));
}

#[test]
fn wide_entry_takes_two_slots() {
    // count 5: a Long (slots 1 and 2), then Class #7 (slot 3), then String #8 (slot 4)
    let bytes: Vec<u8> = vec![0, 5, 5, 0, 0, 0, 0, 0, 0, 0, 42, 7, 0, 7, 8, 0, 8];
    let (pool, end) = read_pool(&bytes, 0).unwrap();
    assert_eq!(end, bytes.len());
    assert_eq!(
        pool,
        vec![
            ConstantPoolTag::Long(0, 42),
            ConstantPoolTag::Placeholder,
            ConstantPoolTag::Class(7),
            ConstantPoolTag::String(8),
        ]
    );
}

#[test]
fn zero_count_pool_is_empty() {
    let (pool, end) = read_pool(&[0, 0, 7], 0).unwrap();
    assert!(pool.is_empty());
    assert_eq!(end, 2);
}

#[test]
fn flag_bit_meaning_depends_on_context() {
    assert_eq!(AccessFlags::decode(0x0020, FlagContext::Class), vec![AccessFlags::Super]);
    assert_eq!(AccessFlags::decode(0x0020, FlagContext::Method), vec![AccessFlags::Synchronized]);
    assert_eq!(AccessFlags::decode(0x0040, FlagContext::Field), vec![AccessFlags::Volatile]);
    assert_eq!(AccessFlags::decode(0x0040, FlagContext::Method), vec![AccessFlags::Bridge]);
    assert_eq!(AccessFlags::decode(0x0080, FlagContext::Field), vec![AccessFlags::Transient]);
    assert_eq!(AccessFlags::decode(0x0080, FlagContext::Method), vec![AccessFlags::Varargs]);
}

#[test]
fn flags_in_bit_order() {
    assert_eq!(
        AccessFlags::decode(0x4411, FlagContext::Class),
        vec![AccessFlags::Public, AccessFlags::Final, AccessFlags::Abstract, AccessFlags::Enum]
    );
    assert!(AccessFlags::decode(0, FlagContext::Method).is_empty());
}
