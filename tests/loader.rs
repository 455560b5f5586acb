use classvm::annotations::{read_annotations, read_parameters, Annotation, ElementValue};
use classvm::attributes::AttributeValue;
use classvm::env::VMEnv;
use classvm::error::ClassLoadError;
use classvm::header::ClassFileHeader;
use classvm::interpret::Interpreter;
use classvm::loader::{ClassReader, Loader};
use classvm::vm::{VMValue, VM};

fn u16_be(out: &mut Vec<u8>, v: u16) {
    out.extend_from_slice(&v.to_be_bytes());
}

fn u32_be(out: &mut Vec<u8>, v: u32) {
    out.extend_from_slice(&v.to_be_bytes());
}

fn utf8(out: &mut Vec<u8>, s: &str) {
    out.push(1);
    u16_be(out, s.len() as u16);
    out.extend_from_slice(s.as_bytes());
}

fn attribute(out: &mut Vec<u8>, name_index: u16, info: &[u8]) {
    u16_be(out, name_index);
    u32_be(out, info.len() as u32);
    out.extend_from_slice(info);
}

fn code_info(code: &[u8]) -> Vec<u8> {
    let mut info = Vec::new();
    u16_be(&mut info, 2);
    u16_be(&mut info, 1);
    u32_be(&mut info, code.len() as u32);
    info.extend_from_slice(code);
    u16_be(&mut info, 1);
    for v in [0u16, 2, 2, 0] {
        u16_be(&mut info, v);
    }
    u16_be(&mut info, 1);
    attribute(&mut info, 14, &[0, 0]);
    info
}

/// Pool:
///  1 Utf8 "Test"            2 Class #1
///  3 Utf8 "java/lang/Object" 4 Class #3
///  5 Utf8 "SourceFile"      6 Utf8 "Test.java"
///  7 Utf8 "main"            8 Utf8 "([Ljava/lang/String;)V"
///  9 Utf8 "Code"            10 Long (10 and 11)
///  12 Utf8 "RuntimeInvisibleAnnotations"
///  13 Utf8 "x"              14 Utf8 "LineNumberTable"
///  15 Utf8 "ConstantValue"  16 Utf8 "I"
fn class_file(with_source: bool, main_code: &[u8]) -> Vec<u8> {
    let mut b = Vec::new();
    u32_be(&mut b, 0xCAFEBABE);
    u16_be(&mut b, 0);
    u16_be(&mut b, 52);
    u16_be(&mut b, 17);
    utf8(&mut b, "Test");
    b.extend_from_slice(&[7, 0, 1]);
    utf8(&mut b, "java/lang/Object");
    b.extend_from_slice(&[7, 0, 3]);
    utf8(&mut b, "SourceFile");
    utf8(&mut b, "Test.java");
    utf8(&mut b, "main");
    utf8(&mut b, "([Ljava/lang/String;)V");
    utf8(&mut b, "Code");
    b.extend_from_slice(&[5, 0, 0, 0, 0, 0, 0, 0, 1]);
    utf8(&mut b, "RuntimeInvisibleAnnotations");
    utf8(&mut b, "x");
    utf8(&mut b, "LineNumberTable");
    utf8(&mut b, "ConstantValue");
    utf8(&mut b, "I");
    u16_be(&mut b, 0x0021);
    u16_be(&mut b, 2);
    u16_be(&mut b, 4);
    // interfaces
    u16_be(&mut b, 1);
    u16_be(&mut b, 4);
    // fields: static final int x = #10
    u16_be(&mut b, 1);
    u16_be(&mut b, 0x0018);
    u16_be(&mut b, 13);
    u16_be(&mut b, 16);
    u16_be(&mut b, 1);
    attribute(&mut b, 15, &[0, 10]);
    // methods: x()I with no code, then main with code and an annotation
    u16_be(&mut b, 2);
    u16_be(&mut b, 0x0401);
    u16_be(&mut b, 13);
    u16_be(&mut b, 16);
    u16_be(&mut b, 0);
    u16_be(&mut b, 0x0009);
    u16_be(&mut b, 7);
    u16_be(&mut b, 8);
    u16_be(&mut b, 2);
    // one annotation of type #16 with pair x = [const #10, enum (#16, #13), nested @#16{}]
    let annotation: Vec<u8> =
        vec![0, 1, 0, 16, 0, 1, 0, 13, b'[', 0, 3, b'I', 0, 10, b'e', 0, 16, 0, 13, b'@', 0, 16, 0, 0];
    attribute(&mut b, 12, &annotation);
    attribute(&mut b, 9, &code_info(main_code));
    // class attributes
    if with_source {
        u16_be(&mut b, 2);
        attribute(&mut b, 13, &[1, 2, 3]);
        attribute(&mut b, 5, &[0, 6]);
    } else {
        u16_be(&mut b, 1);
        attribute(&mut b, 13, &[1, 2, 3]);
    }
    b
}

#[test]
fn test_basic_class_load() {
    let loader = Loader::new();
    let class = loader.load_from_bytes(&class_file(true, &[0x04])).unwrap();
    assert_eq!(class.class_name(), "Test");
    assert_eq!(class.source_file_name(), "Test.java");
}

#[test]
fn test_hard_class_load() {
    let loader = Loader::new();
    let class = loader.load_from_bytes(&class_file(true, &[0x04, 0x05, 0x60])).unwrap();
    let methods = class.methods();
    assert_eq!(methods.len(), 2);
    assert_eq!(methods[0].method_name, "x");
    assert_eq!(methods[0].descriptor, "I");
    assert!(methods[0].code.is_empty());
    assert_eq!(methods[1].method_name, "main");
    assert_eq!(methods[1].descriptor, "([Ljava/lang/String;)V");
    assert_eq!(methods[1].code, vec![0x04, 0x05, 0x60]);
}

#[test]
fn test_very_hard_class_load() {
    let header = ClassFileHeader::from_bytes(&class_file(true, &[])).unwrap();
    assert_eq!(header.magic, 0xCAFEBABE);
    assert_eq!(header.version_major, 52);
    assert_eq!(header.constant_pool.len(), 16);
    assert_eq!(header.interfaces, vec![4]);
    assert_eq!(header.fields.len(), 1);
    assert_eq!(header.fields[0].name_index, 13);
    assert_eq!(header.fields[0].attributes[0].info, vec![0, 10]);
    assert_eq!(header.methods.len(), 2);
    let reader = ClassReader::new(header);
    assert!(matches!(reader.get_constant_value(11), Some(classvm::pool::ConstantPoolTag::Placeholder)));
    assert_eq!(reader.get_constant_utf8(11), None);
    assert_eq!(reader.get_constant_utf8(12).unwrap(), "RuntimeInvisibleAnnotations");
    assert_eq!(reader.get_constant_value(0), None);
    assert_eq!(reader.get_constant_value(17), None);
}

#[test]
fn test_impossibly_hard_class_load() {
    let header = ClassFileHeader::from_bytes(&class_file(true, &[0x03])).unwrap();
    let reader = ClassReader::new(header);
    let code = reader.get_attribute_value(&reader.header.methods[1].attributes[1]).unwrap();
    assert_eq!(code.0, "Code");
    match code.1 {
        AttributeValue::Code(c) => {
            assert_eq!(c.max_stack, 2);
            assert_eq!(c.max_locals, 1);
            assert_eq!(c.code, vec![0x03]);
            assert_eq!(c.exception_table.len(), 1);
            assert_eq!(c.exception_table[0].handler_pc, 2);
            assert_eq!(c.attributes.len(), 1);
            assert_eq!(c.attributes[0].attribute_name_index, 14);
        }
        other => panic!("not code: {:?}", other),
    }
    let ann = reader.get_attribute_value(&reader.header.methods[1].attributes[0]).unwrap();
    match ann.1 {
        AttributeValue::RuntimeInvisibleAnnotations(v) => {
            assert_eq!(v.len(), 1);
            assert_eq!(v[0].type_index, 16);
            assert_eq!(v[0].element_value_pairs.len(), 1);
            assert_eq!(v[0].element_value_pairs[0].name_index, 13);
            assert_eq!(
                v[0].element_value_pairs[0].value,
                ElementValue::ArrayValue(vec![
                    ElementValue::ConstValueIndex(10),
                    ElementValue::EnumConstValue(16, 13),
                    ElementValue::AnnotationValue(Annotation { type_index: 16, element_value_pairs: vec![] }),
                ])
            );
        }
        other => panic!("not annotations: {:?}", other),
    }
    let all = reader.get_attributes_map().unwrap();
    assert_eq!(all.len(), 2);
    assert_eq!(all[0].0, "x");
    assert_eq!(all[0].1, AttributeValue::Unidentified(vec![1, 2, 3]));
    assert_eq!(all[1].1, AttributeValue::SourceFile(6));
}

#[test]
fn test_impossibly_hard_class_load_with_interpret() {
    let loader = Loader::new();
    // iconst_3 iconst_4 iadd
    let class = loader.load_from_bytes(&class_file(true, &[0x06, 0x07, 0x60])).unwrap();
    let main = class.get_main().unwrap();
    let mut env = VMEnv::of(VM::new(1024), Interpreter::new());
    env.execute(&main.code).expect("executed");
    assert_eq!(env.pop(), Ok(VMValue::Int(7)));
}

#[test]
fn missing_source_file_is_reported() {
    let bytes = class_file(false, &[]);
    let loader = Loader::new();
    assert_eq!(
        loader.load_from_bytes(&bytes),
        Err(ClassLoadError::AttributeMissing("SourceFile".to_string()))
    );
    let reader = ClassReader::new(ClassFileHeader::from_bytes(&bytes).unwrap());
    assert_eq!(
        reader.get_class_attribute("SourceFile"),
        Err(ClassLoadError::AttributeMissing("SourceFile".to_string()))
    );
    assert_eq!(reader.get_class_name().unwrap(), "Test");
}

#[test]
fn wrong_magic_is_reported() {
    let mut bytes = class_file(true, &[]);
    bytes[0] = 0xCA;
    bytes[1] = 0xFE;
    bytes[2] = 0xD0;
    bytes[3] = 0x0D;
    assert_eq!(Loader::new().load_from_bytes(&bytes), Err(ClassLoadError::MagicMismatch(0xCAFED00D)));
    assert_eq!(
        Loader::new().load_from_bytes(&[1, 2, 3, 4]),
        Err(ClassLoadError::MagicMismatch(0x01020304))
    );
}

#[test]
fn unsupported_version_is_reported() {
    let mut bytes = class_file(true, &[]);
    bytes[5] = 3;
    bytes[7] = 61;
    assert_eq!(Loader::new().load_from_bytes(&bytes), Err(ClassLoadError::VersionUnsupported(61, 3)));
}

#[test]
fn truncated_input_is_reported() {
    let bytes = class_file(true, &[]);
    assert_eq!(
        Loader::new().load_from_bytes(&bytes[..bytes.len() - 1]),
        Err(ClassLoadError::ClassFileReadFailure)
    );
    assert_eq!(Loader::new().load_from_bytes(&[0xCA, 0xFE]), Err(ClassLoadError::ClassFileReadFailure));
}

#[test]
fn loading_twice_gives_equal_classes() {
    let bytes = class_file(true, &[0x04]);
    let loader = Loader::new();
    let a = loader.load_from_bytes(&bytes).unwrap();
    let b = loader.load_from_bytes(&bytes).unwrap();
    assert_eq!(a.class_name(), b.class_name());
    assert_eq!(a.source_file_name(), b.source_file_name());
    assert_eq!(a.methods(), b.methods());
    assert_eq!(a, b);
}

#[test]
fn unknown_element_tag_fails_only_where_read() {
    let mut bytes = class_file(true, &[0x04]);
    let at = bytes.windows(3).position(|w| w == [b'[', 0, 3]).unwrap();
    bytes[at] = b'?';
    // a method's non-Code attributes are not read when the class is built
    let class = Loader::new().load_from_bytes(&bytes).unwrap();
    assert_eq!(class.get_main().unwrap().code, vec![0x04]);
    let reader = ClassReader::new(ClassFileHeader::from_bytes(&bytes).unwrap());
    assert_eq!(
        reader.get_attribute_value(&reader.header.methods[1].attributes[0]),
        Err(ClassLoadError::UnknownElementValueTag(b'?'))
    );
}

#[test]
fn lookup_skips_bodies_of_other_attributes() {
    let mut bytes = class_file(false, &[]);
    let n = bytes.len();
    bytes.truncate(n - 9);
    // the only class attribute: ConstantValue (#15) with an empty body
    bytes.extend_from_slice(&[0, 15, 0, 0, 0, 0]);
    let reader = ClassReader::new(ClassFileHeader::from_bytes(&bytes).unwrap());
    assert_eq!(
        reader.get_class_attribute("SourceFile"),
        Err(ClassLoadError::AttributeMissing("SourceFile".to_string()))
    );
    assert_eq!(reader.get_class_attribute("ConstantValue"), Err(ClassLoadError::ClassFileReadFailure));
    assert_eq!(
        Loader::new().load_from_bytes(&bytes),
        Err(ClassLoadError::AttributeMissing("SourceFile".to_string()))
    );
}

#[test]
fn name_index_at_other_kind_is_a_type_mismatch() {
    let mut bytes = class_file(true, &[]);
    let at = bytes.windows(8).position(|w| w == [0, 9, 0, 7, 0, 8, 0, 2]).unwrap();
    bytes[at + 3] = 2;
    assert_eq!(
        Loader::new().load_from_bytes(&bytes),
        Err(ClassLoadError::ConstantPoolTypeMismatch("Utf8".to_string(), "Class".to_string()))
    );
    bytes[at + 3] = 0;
    assert_eq!(Loader::new().load_from_bytes(&bytes), Err(ClassLoadError::ConstantPoolMissing(0)));
    let reader = ClassReader::new(ClassFileHeader::from_bytes(&bytes).unwrap());
    assert_eq!(reader.resolve_utf8(1).unwrap(), "Test");
    assert_eq!(
        reader.resolve_utf8(10),
        Err(ClassLoadError::ConstantPoolTypeMismatch("Utf8".to_string(), "Long".to_string()))
    );
    assert_eq!(reader.resolve_utf8(17), Err(ClassLoadError::ConstantPoolMissing(17)));
}

#[test]
fn source_file_index_at_other_kind_is_a_type_mismatch() {
    let mut bytes = class_file(true, &[]);
    let n = bytes.len();
    assert_eq!(&bytes[n - 8..], &[0, 5, 0, 0, 0, 2, 0, 6]);
    bytes[n - 1] = 2;
    assert_eq!(
        Loader::new().load_from_bytes(&bytes),
        Err(ClassLoadError::ConstantPoolTypeMismatch("Utf8".to_string(), "Class".to_string()))
    );
}

#[test]
fn this_class_not_a_class_entry() {
    let mut bytes = class_file(true, &[]);
    // this_class sits right after the class flags; point it at the Utf8 entry #1
    let at = bytes.windows(6).position(|w| w == [0, 0x21, 0, 2, 0, 4]).unwrap();
    bytes[at + 3] = 1;
    let reader = ClassReader::new(ClassFileHeader::from_bytes(&bytes).unwrap());
    assert_eq!(
        reader.get_class_name(),
        Err(ClassLoadError::ConstantPoolTypeMismatch("Class".to_string(), "Utf8".to_string()))
    );
    bytes[at + 3] = 0;
    let reader = ClassReader::new(ClassFileHeader::from_bytes(&bytes).unwrap());
    assert_eq!(reader.get_class_name(), Err(ClassLoadError::ConstantPoolMissing(0)));
}

#[test]
fn get_method_by_name() {
    let class = Loader::new().load_from_bytes(&class_file(true, &[0x04])).unwrap();
    assert_eq!(class.get_method("x").unwrap().descriptor, "I");
    assert!(class.get_method("y").is_none());
    assert_eq!(class.get_main().unwrap().code, vec![0x04]);
}

fn nested_arrays(levels: usize) -> Vec<u8> {
    let mut b = vec![0, 16, 0, 1, 0, 13];
    for _ in 0..levels {
        b.extend_from_slice(&[b'[', 0, 1]);
    }
    b.extend_from_slice(&[b'Z', 0, 10]);
    b
}

#[test]
fn nesting_is_bounded() {
    let ok = nested_arrays(63);
    let (anns, end) = read_annotations(&ok, 0, 1).unwrap();
    assert_eq!(end, ok.len());
    assert_eq!(anns.len(), 1);
    let deep = nested_arrays(64);
    assert_eq!(read_annotations(&deep, 0, 1), Err(ClassLoadError::NestingTooDeep));
}

#[test]
fn parameter_annotations_decode() {
    // two parameters: the first with one annotation of type #16 and no pairs, the second with none
    let b: Vec<u8> = vec![0, 1, 0, 16, 0, 0, 0, 0];
    let (params, end) = read_parameters(&b, 0, 2).unwrap();
    assert_eq!(end, b.len());
    assert_eq!(params.len(), 2);
    assert_eq!(params[0].annotations, vec![Annotation { type_index: 16, element_value_pairs: vec![] }]);
    assert!(params[1].annotations.is_empty());
    assert_eq!(
        AttributeValue::from_name_and_info("RuntimeInvisibleParameterAnnotations", &[1, 0, 0]).unwrap(),
        AttributeValue::RuntimeInvisibleParameterAnnotations(vec![classvm::annotations::ParameterAnnotation {
            annotations: vec![]
        }])
    );
}

#[test]
fn attribute_interpretation_by_name() {
    assert_eq!(AttributeValue::from_name_and_info("ConstantValue", &[0, 7]).unwrap(), AttributeValue::ConstantValue(7));
    assert_eq!(AttributeValue::from_name_and_info("SourceFile", &[1, 0, 9]).unwrap(), AttributeValue::SourceFile(256));
    assert_eq!(AttributeValue::from_name_and_info("Other", &[1, 2]).unwrap(), AttributeValue::Unidentified(vec![1, 2]));
    assert_eq!(AttributeValue::from_name_and_info("SourceFile", &[1]), Err(ClassLoadError::ClassFileReadFailure));
    assert_eq!(
        AttributeValue::from_name_and_info("RuntimeInvisibleAnnotations", &[0, 1, 0, 2, 0, 1, 0, 3, b'x']),
        Err(ClassLoadError::UnknownElementValueTag(b'x'))
    );
}
