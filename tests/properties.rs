use canopen::dictionary::{ArrayInfo, Object, ObjectError};
use canopen::sections::Section;
use canopen::eds::{eds_section_to_cobid, parse_value_type, Eds, EdsError, InvalidObjectError};
use canopen::number::{eds_string_to_i16, eds_string_to_i32, eds_string_to_i8, eds_string_to_u16, eds_string_to_u32, eds_string_to_u8};
use canopen::pdo::{unpack_mapping, MappedPdo, PdoDecoder, PdoMapping};
use canopen::types::{AccessType, AccessTypeError, CobId, DataType, DataTypeError, ObjectType, ObjectTypeError, ValueType};

fn variable(section: &str, name: &str, data_type: &str, default: &str) -> String {
    format!(
        "[{}]\nParameterName={}\nObjectType=0x7\nDataType={}\nAccessType=ro\nDefaultValue={}\nPDOMapping=1\n\n",
        section, name, data_type, default
    )
}

#[test]
fn access_type_codes() {
    assert_eq!(AccessType::try_from("const"), Ok(AccessType::Const));
    assert_eq!(AccessType::try_from("rww"), Ok(AccessType::ReadWriteProcessOutput));
    assert_eq!(AccessType::try_from("rwr"), Ok(AccessType::ReadWriteProcessInput));
    assert_eq!(AccessType::try_from("RW"), Err(AccessTypeError::Invalid(String::from("RW"))));
    assert_eq!(AccessType::parse(""), Err(AccessTypeError::Invalid(String::new())));
}

#[test]
fn unknown_type_codes() {
    assert_eq!(DataType::try_from(0x000B), Err(DataTypeError::Invalid(0x000B)));
    assert_eq!(DataType::try_from(0x0000), Err(DataTypeError::Invalid(0)));
    assert_eq!(ObjectType::try_from(0x06), Err(ObjectTypeError::Invalid(0x06)));
}

#[test]
fn eds_numbers() {
    assert_eq!(eds_string_to_u8("").unwrap(), 0);
    assert_eq!(eds_string_to_u8("255").unwrap(), 255);
    assert!(eds_string_to_u8("256").is_err());
    assert!(eds_string_to_u8("0x").is_err());
    assert!(eds_string_to_u8("-1").is_err());
    assert!(eds_string_to_u8("12a").is_err());
    assert!(eds_string_to_u8("10x5").is_err());
    assert_eq!(eds_string_to_u8("0x0x1F").unwrap(), 0x1F);
    assert_eq!(eds_string_to_u16("0xFFFF").unwrap(), 0xFFFF);
    assert!(eds_string_to_u16("0x10000").is_err());
    assert_eq!(eds_string_to_u32("4294967295").unwrap(), u32::MAX);
    assert!(eds_string_to_u32("4294967296").is_err());
    assert_eq!(eds_string_to_i8("-128").unwrap(), -128);
    assert!(eds_string_to_i8("128").is_err());
    assert_eq!(eds_string_to_i16("-300").unwrap(), -300);
    assert_eq!(eds_string_to_i32("+42").unwrap(), 42);
    assert_eq!(eds_string_to_i32("").unwrap(), 0);
    assert!(eds_string_to_u8("0xé1").is_err());
    assert!(eds_string_to_u8("１").is_err());
    assert!(eds_string_to_u16("5é").is_err());
    assert_eq!(eds_string_to_u16("0x0x0x").is_err(), true);
    assert_eq!(eds_string_to_i16("0x-10").unwrap(), -16);
}

#[test]
fn section_names() {
    assert_eq!(eds_section_to_cobid("1a0F").unwrap(), CobId(0x1A0F, 0));
    assert_eq!(eds_section_to_cobid("6000subA").unwrap(), CobId(0x6000, 0x0A));
    for bad in ["600", "60000", "6000sub", "6000sub12", "60G0", "6000xyz2", "FileInfo", "6000süb1", ""] {
        match eds_section_to_cobid(bad) {
            Err(EdsError::InvalidCobIdSection(s)) => assert_eq!(s, bad),
            other => panic!("{:?} accepted as {:?}", bad, other),
        }
    }
}

#[test]
fn unsigned_values() {
    assert_eq!(ValueType::Bool(true).to_unsigned_int(), Some(1));
    assert_eq!(ValueType::Bool(false).to_unsigned_int(), Some(0));
    assert_eq!(ValueType::U16(0xBEEF).to_unsigned_int(), Some(0xBEEF));
    assert_eq!(ValueType::U32(u32::MAX).to_unsigned_int(), Some(u32::MAX as usize));
    assert_eq!(ValueType::I8(1).to_unsigned_int(), None);
    assert_eq!(ValueType::VString(String::from("1")).to_unsigned_int(), None);
}

#[test]
fn default_values_by_type() {
    assert_eq!(parse_value_type("0", DataType::Bool).unwrap(), ValueType::Bool(false));
    assert_eq!(parse_value_type("-2", DataType::I8).unwrap(), ValueType::I8(-2));
    assert_eq!(parse_value_type("0x7FFF", DataType::I16).unwrap(), ValueType::I16(0x7FFF));
    assert_eq!(parse_value_type("1.5", DataType::F32).unwrap(), ValueType::F32(String::from("1.5")));
    assert_eq!(parse_value_type("abc", DataType::VString).unwrap(), ValueType::VString(String::from("abc")));
    assert_eq!(parse_value_type("xyz", DataType::OString).unwrap(), ValueType::OString(String::from("xyz")));
    assert!(matches!(parse_value_type("300", DataType::U8), Err(EdsError::ParseIntError(_))));
    assert!(matches!(parse_value_type("ab", DataType::U32), Err(EdsError::ParseIntError(_))));
}

#[test]
fn packed_mapping_entries() {
    assert_eq!(unpack_mapping(0x60000020), MappedPdo(CobId(0x6000, 0x00), 4));
    assert_eq!(unpack_mapping(0x2001_0310), MappedPdo(CobId(0x2001, 0x03), 2));
    assert_eq!(unpack_mapping(0x6000_000C), MappedPdo(CobId(0x6000, 0x00), 1));
    assert_eq!(unpack_mapping(0x6000_0007), MappedPdo(CobId(0x6000, 0x00), 0));
}

#[test]
fn mapping_keeps_eight_slots() {
    let items: Vec<MappedPdo> = (0..10u8).map(|i| MappedPdo(CobId(0x6000, i), 1)).collect();
    let m = PdoMapping::from(items);
    for i in 0..8u8 {
        assert_eq!(m.slots[i as usize], Some(MappedPdo(CobId(0x6000, i), 1)));
    }
    let m = PdoMapping::from(vec![MappedPdo(CobId(1, 2), 3)]);
    assert_eq!(m.slots[0], Some(MappedPdo(CobId(1, 2), 3)));
    assert!(m.slots[1..].iter().all(|s| s.is_none()));
}

fn decoder(entries: &[(u16, u8, DataType)]) -> PdoDecoder {
    let mut mapping: [Option<(MappedPdo, DataType)>; 8] = [None; 8];
    for (i, (index, len, t)) in entries.iter().enumerate() {
        mapping[i] = Some((MappedPdo(CobId(*index, 0), *len), *t));
    }
    PdoDecoder { mapping }
}

#[test]
fn short_payload_stops_decoding() {
    let d = decoder(&[(0x6000, 1, DataType::U8), (0x6001, 4, DataType::U32), (0x6002, 1, DataType::U8)]);
    let values = d.decode(&[0x01, 0x02, 0x03]);
    assert_eq!(values[0], Some((CobId(0x6000, 0), ValueType::U8(1))));
    assert!(values[1..].iter().all(|v| v.is_none()));
}

#[test]
fn width_mismatch_skips_one_slot() {
    let d = decoder(&[(0x6000, 2, DataType::U8), (0x6001, 1, DataType::I8)]);
    let values = d.decode(&[0x01, 0x02, 0xFE]);
    assert_eq!(values[0], None);
    assert_eq!(values[1], Some((CobId(0x6001, 0), ValueType::I8(-2))));
}

#[test]
fn decoding_twice_agrees() {
    let d = decoder(&[(0x6000, 2, DataType::I16), (0x6001, 4, DataType::U32), (0x6002, 4, DataType::F32)]);
    let data = [0xFE, 0xFF, 0x78, 0x56, 0x34, 0x12, 0, 0];
    let first = d.decode(&data);
    let second = d.decode(&data);
    assert_eq!(first, second);
    assert_eq!(first[0], Some((CobId(0x6000, 0), ValueType::I16(-2))));
    assert_eq!(first[1], Some((CobId(0x6001, 0), ValueType::U32(0x12345678))));
    assert_eq!(first[2], None);
}

#[test]
fn decoder_compacts_empty_slots() {
    let mut mapping: [Option<(MappedPdo, DataType)>; 8] = [None; 8];
    mapping[3] = Some((MappedPdo(CobId(0x6000, 0), 1), DataType::Bool));
    let values = PdoDecoder { mapping }.decode(&[7]);
    assert_eq!(values[0], Some((CobId(0x6000, 0), ValueType::Bool(true))));
}

#[test]
fn malformed_variable_is_skipped() {
    let text = format!(
        "{}{}[1A00]\nParameterName=Map\nObjectType=0x8\nSubNumber=2\n\n{}",
        variable("6000", "Broken", "0x0005", "0x1FF"),
        variable("6001", "Fine", "0x0005", "3"),
        variable("1A00sub0", "Count", "0x0005", "0"),
    );
    let eds = Eds::from_str(&text).unwrap();
    assert!(eds.get_variable(&CobId(0x6000, 0)).is_none());
    let fine = eds.get_variable(&CobId(0x6001, 0)).unwrap();
    assert_eq!(fine.default_value, ValueType::U8(3));
    assert!(fine.pdo_mapping);
    assert_eq!(fine.access_type, AccessType::ReadOnly);
    let array = eds.get_array(&CobId(0x1A00, 0)).unwrap();
    assert_eq!(array.max_len, 2);
    assert!(array.items.is_empty());
    assert_eq!(eds.objects().len(), 2);
    assert_eq!(eds.metadata().len(), 1);
}

#[test]
fn malformed_group_fails_the_load() {
    let missing_count = format!("{}[1A00]\nParameterName=Map\nObjectType=0x8\n", variable("6001", "Fine", "0x0005", "3"));
    match Eds::from_str(&missing_count) {
        Err(EdsError::MissingProperty(p)) => assert_eq!(p, "SubNumber"),
        _ => panic!("load accepted"),
    }
    let missing_name = "[1A00]\nObjectType=0x9\nSubNumber=2\n";
    match Eds::from_str(missing_name) {
        Err(EdsError::IncorrectProperties(p)) => assert_eq!(p, "ParameterName"),
        _ => panic!("load accepted"),
    }
    let bad_count = "[1A00]\nParameterName=Map\nObjectType=0x9\nSubNumber=zz\n";
    assert!(matches!(Eds::from_str(bad_count), Err(EdsError::ParseIntError(_))));
}

#[test]
fn structural_errors() {
    assert!(matches!(
        Eds::from_str("[6000]\nObjectType=0x6\n"),
        Err(EdsError::InvalidObject(InvalidObjectError::InvalidObjectType(ObjectTypeError::Invalid(6))))
    ));
    assert!(matches!(Eds::from_str("[6000]\nObjectType=seven\n"), Err(EdsError::ParseIntError(_))));
    match Eds::from_str("[Objects]\nObjectType=0x7\n") {
        Err(EdsError::InvalidCobIdSection(s)) => assert_eq!(s, "Objects"),
        _ => panic!("load accepted"),
    }
    assert!(matches!(Eds::from_str("[6000\nObjectType=0x7\n"), Err(EdsError::ConfigError(_))));
}

#[test]
fn named_section_without_object_type_fails() {
    for text in ["[6000]\n", "[FileInfo]\nFileName=x.eds\n", "[6000]\nParameterName=Foo\nSubNumber=2\n"] {
        match Eds::from_str(text) {
            Err(EdsError::MissingProperty(p)) => assert_eq!(p, "ObjectType"),
            _ => panic!("load of {:?} accepted", text),
        }
    }
}

#[test]
fn keys_before_first_section_are_ignored() {
    let eds = Eds::from_str("Comment=none\n").unwrap();
    assert!(eds.objects().is_empty());
    assert!(eds.metadata().is_empty());
}

#[test]
fn load_from_given_sections() {
    let props = |pairs: &[(&str, &str)]| pairs.iter().map(|(k, v)| (k.to_string(), v.to_string())).collect::<Vec<_>>();
    let sections = vec![
        Section { name: None, props: props(&[("Comment", "x")]) },
        Section {
            name: Some(String::from("6000")),
            props: props(&[
                ("ParameterName", "Foo"),
                ("ObjectType", "0x7"),
                ("DataType", "0x0006"),
                ("AccessType", "rw"),
                ("DefaultValue", "0x1234"),
                ("PDOMapping", "1"),
                ("DataType", "0x0005"),
            ]),
        },
        Section { name: Some(String::from("6001")), props: props(&[("ObjectType", "0x7"), ("ParameterName", "Bad")]) },
    ];
    let eds = Eds::from_sections(&sections).unwrap();
    let foo = eds.get_variable(&CobId(0x6000, 0)).unwrap();
    assert_eq!(foo.data_type, DataType::U16);
    assert_eq!(foo.default_value, ValueType::U16(0x1234));
    assert!(eds.get_variable(&CobId(0x6001, 0)).is_none());
    let bad = vec![Section { name: Some(String::from("6002")), props: props(&[("ParameterName", "NoType")]) }];
    assert!(matches!(Eds::from_sections(&bad), Err(EdsError::MissingProperty(_))));
}

#[test]
fn array_omits_missing_members() {
    let text = format!(
        "[2000]\nParameterName=Arr\nObjectType=0x8\nSubNumber=4\n\n{}{}",
        variable("2000sub0", "Count", "0x0005", "3"),
        variable("2000sub2", "Two", "0x0006", "0x0202"),
    );
    let eds = Eds::from_str(&text).unwrap();
    let array = eds.get_array(&CobId(0x2000, 0)).unwrap();
    assert_eq!(array.items.len(), 1);
    assert_eq!(array.items[0].parameter_name, "Two");
    assert_eq!(array.items[0].default_value, ValueType::U16(0x0202));
    assert!(eds.get_record(&CobId(0x2000, 0)).is_some());
    assert!(eds.get_array(&CobId(0x2001, 0)).is_none());
}

#[test]
fn record_keeps_last_of_a_name() {
    let text = format!(
        "[2000]\nParameterName=Rec\nObjectType=0x9\nSubNumber=4\n\n{}{}{}",
        variable("2000sub0", "Count", "0x0005", "2"),
        variable("2000sub1", "Same", "0x0005", "1"),
        variable("2000sub2", "Same", "0x0005", "2"),
    );
    let eds = Eds::from_str(&text).unwrap();
    assert!(eds.get_array(&CobId(0x2000, 0)).is_none());
    let record = eds.get_record(&CobId(0x2000, 0)).unwrap();
    assert_eq!(record.num_items, 2);
    assert_eq!(record.items.len(), 1);
    assert_eq!(record.get("Same").unwrap().default_value, ValueType::U8(2));
    assert!(record.get("Other").is_none());
}

#[test]
fn decoder_leaves_unknown_targets_empty() {
    let text = format!(
        "[1A01]\nParameterName=Map\nObjectType=0x8\nSubNumber=3\n\n{}{}{}{}",
        variable("1A01sub0", "Count", "0x0005", "2"),
        variable("1A01sub1", "First", "0x0007", "0x70000010"),
        variable("1A01sub2", "Second", "0x0007", "0x60000008"),
        variable("6000", "Target", "0x0002", "0"),
    );
    let eds = Eds::from_str(&text).unwrap();
    assert!(eds.get_tpdo1_decoder().is_none());
    let mapping = eds.get_tpdo2_mapping().unwrap();
    assert_eq!(mapping.slots[0], Some(MappedPdo(CobId(0x7000, 0), 2)));
    let decoder = eds.get_tpdo2_decoder().unwrap();
    assert_eq!(decoder.mapping[0], None);
    assert_eq!(decoder.mapping[1], Some((MappedPdo(CobId(0x6000, 0), 1), DataType::I8)));
    let values = decoder.decode(&[0x80, 0x00]);
    assert_eq!(values[0], Some((CobId(0x6000, 0), ValueType::I8(-128))));
    assert!(eds.get_tpdo3_mapping().is_none());
    assert!(eds.get_tpdo4_decoder().is_none());
}

#[test]
fn object_kinds() {
    let array = Object::Array(ArrayInfo { parameter_name: String::from("A"), subnumber: 3 });
    assert!(array.is_array() && array.is_metadata());
    assert!(!array.is_variable() && !array.is_record());
    assert!(matches!(array.clone().into_variable(), Err(ObjectError::FailedToConvert)));
    assert!(matches!(array.clone().into_record(), Err(ObjectError::FailedToConvert)));
    assert_eq!(array.into_array().unwrap().subnumber, 3);
}

#[test]
fn value_text_forms() {
    assert_eq!(ValueType::Bool(true).to_string(), "true");
    assert_eq!(ValueType::Bool(false).to_string(), "false");
    assert_eq!(ValueType::U8(0).to_string(), "0");
    assert_eq!(ValueType::U8(42).to_string(), "42");
    assert_eq!(ValueType::U32(u32::MAX).to_string(), "4294967295");
    assert_eq!(ValueType::I8(i8::MIN).to_string(), "-128");
    assert_eq!(ValueType::I16(-300).to_string(), "-300");
    assert_eq!(ValueType::I32(i32::MIN).to_string(), "-2147483648");
    assert_eq!(ValueType::F32(String::from("1.5")).to_string(), "1.5");
    assert_eq!(ValueType::VString(String::from("abc")).to_string(), "abc");
    assert_eq!(ValueType::OString(String::from("")).to_string(), "");
}

#[test]
fn cobid_text_form() {
    assert_eq!(CobId(0x1A00, 0x02).to_string(), "1A00.02");
    assert_eq!(CobId(0x0000, 0x00).to_string(), "0000.00");
    assert_eq!(CobId(0xFFFF, 0xFF).to_string(), "FFFF.FF");
    assert_eq!(CobId(0x607C, 0x1B).to_string(), "607C.1B");
}
