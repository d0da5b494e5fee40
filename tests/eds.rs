use std::collections::HashMap;

use canopen::dictionary::Object;
use canopen::eds::{eds_section_to_cobid, parse_value_type, Eds, EdsError};
use canopen::number::{eds_string_to_i16, eds_string_to_u32, eds_string_to_u8};
use canopen::pdo::{value_type_from_bytes, MappedPdo, PdoDecoder, PdoMapping};
use canopen::types::{AccessType, CobId, DataType, ObjectType, ValueType};

const MAPPING_ENTRIES: &str = r#"
        [1A00sub0]
        ParameterName=Number of Entries
        ObjectType=0x7
        DataType=0x0005
        AccessType=rw
        DefaultValue=8
        PDOMapping=0

        [1A00sub1]
        ParameterName=PDO 1 Mapping for a process data variable 1
        ObjectType=0x7
        DataType=0x0007
        AccessType=rw
        DefaultValue=0x60000008
        PDOMapping=0

        [1A00sub2]
        ParameterName=PDO 1 Mapping for a process data variable 2
        ObjectType=0x7
        DataType=0x0007
        AccessType=rw
        DefaultValue=0x60010008
        PDOMapping=0

        [6000]
        ParameterName=Foo
        ObjectType=0x7
        DataType=0x0005
        AccessType=rw
        DefaultValue=0
        PDOMapping=0

        [6001]
        ParameterName=Bar
        ObjectType=0x7
        DataType=0x0005
        AccessType=rw
        DefaultValue=0
        PDOMapping=0
        "#;

fn mapping_eds(object_type: &str) -> String {
    format!(
        "\n        [1A00]\n        ParameterName=Transmit PDO 1 Mapping\n        ObjectType={}\n        SubNumber=9\n{}",
        object_type, MAPPING_ENTRIES
    )
}

#[test]
fn pdo_decode_from_record() {
    let eds = Eds::from_str(&mapping_eds("0x9")).unwrap();
    let decoder = eds.get_tpdo1_decoder().unwrap();

    let values = decoder.decode(&[0x01u8, 0x02u8]);
    let value_map = values.into_iter().flatten().collect::<HashMap<_, _>>();

    assert_eq!(value_map.get(&CobId(0x6000, 0x00)).unwrap(), &ValueType::U8(0x01));
    assert_eq!(value_map.get(&CobId(0x6001, 0x00)).unwrap(), &ValueType::U8(0x02));
}

#[test]
fn pdo_decode_from_array() {
    let eds = Eds::from_str(&mapping_eds("0x8")).unwrap();
    let decoder = eds.get_tpdo1_decoder().unwrap();

    let values = decoder.decode(&[0x01u8, 0x02u8]);
    let mut value_iter = values.iter();

    assert_eq!(value_iter.next(), Some(&Some((CobId(0x6000, 0x00), ValueType::U8(0x01)))));
    assert_eq!(value_iter.next(), Some(&Some((CobId(0x6001, 0x00), ValueType::U8(0x02)))));
}

#[test]
fn convert_value_type_from_bytes() {
    assert_eq!(value_type_from_bytes(&[0], DataType::Bool), Some(ValueType::Bool(false)));
    assert_eq!(value_type_from_bytes(&[1], DataType::Bool), Some(ValueType::Bool(true)));

    assert_eq!(value_type_from_bytes(&[1], DataType::U8), Some(ValueType::U8(1)));
    assert_eq!(value_type_from_bytes(&[0xFF], DataType::I8), Some(ValueType::I8(-1)));

    assert_eq!(value_type_from_bytes(&[0xAD, 0xDE], DataType::U16), Some(ValueType::U16(0xDEAD)));
    assert_eq!(value_type_from_bytes(&[0xFF, 0xFF], DataType::I16), Some(ValueType::I16(-1)));

    assert_eq!(value_type_from_bytes(&[0xEF, 0xBE, 0xAD, 0xDE], DataType::U32), Some(ValueType::U32(0xDEADBEEF)));
    assert_eq!(value_type_from_bytes(&[0xFF, 0xFF, 0xFF, 0xFF], DataType::I32), Some(ValueType::I32(-1)));
}

#[test]
fn get_tpdo1_mapping() {
    let eds = r#"
        [1A00]
        ParameterName=Transmit PDO 1 Mapping
        ObjectType=0x8
        SubNumber=9

        [1A00sub0]
        ParameterName=Number of Entries
        ObjectType=0x7
        DataType=0x0005
        AccessType=rw
        DefaultValue=8
        PDOMapping=0

        [1A00sub1]
        ParameterName=PDO 1 Mapping for a process data variable 1
        ObjectType=0x7
        DataType=0x0007
        AccessType=rw
        DefaultValue=0x60000020
        PDOMapping=0

        [1A00sub2]
        ParameterName=PDO 1 Mapping for a process data variable 2
        ObjectType=0x7
        DataType=0x0007
        AccessType=rw
        DefaultValue=0x60000120
        PDOMapping=0
        "#;

    let eds = Eds::from_str(eds).unwrap();
    let tpdo_mapping = eds.get_tpdo1_mapping().unwrap();

    assert_eq!(tpdo_mapping.slots[0], Some(MappedPdo(CobId(0x6000, 0x00), 0x04)));
    assert_eq!(tpdo_mapping.slots[1], Some(MappedPdo(CobId(0x6000, 0x01), 0x04)));
    assert_eq!(tpdo_mapping.slots[2], None);
}

const GROUP_1600: &str = r#"
        [1600sub0]
        ParameterName=Number of Entries
        ObjectType=0x7
        DataType=0x0005
        AccessType=rw
        DefaultValue=2
        PDOMapping=0

        [1600sub1]
        ParameterName=Foo
        ObjectType=0x7
        DataType=0x0007
        AccessType=rw
        DefaultValue=1
        PDOMapping=0

        [1600sub2]
        ParameterName=Bar
        ObjectType=0x7
        DataType=0x0007
        AccessType=rw
        DefaultValue=2
        PDOMapping=0
        "#;

fn group_eds(object_type: &str) -> String {
    format!(
        "\n        [1600]\n        ParameterName=Receive PDO 1 Mapping\n        ObjectType={}\n        SubNumber=9\n{}",
        object_type, GROUP_1600
    )
}

#[test]
fn parse_array() {
    let eds = Eds::from_str(&group_eds("0x8")).unwrap();
    let array = eds.get_array(&CobId(0x1600, 0x00)).unwrap();

    assert_eq!(array.max_len, 9);
    assert_eq!(array.items.len(), 2);

    let var1 = array.items[0].clone();
    assert_eq!(var1.default_value.to_unsigned_int().unwrap(), 1);

    let var2 = array.items[1].clone();
    assert_eq!(var2.default_value.to_unsigned_int().unwrap(), 2);
}

#[test]
fn parse_record() {
    let eds = Eds::from_str(&group_eds("0x9")).unwrap();
    let record = eds.get_record(&CobId(0x1600, 0x00)).unwrap();

    let foo = record.get("Foo").unwrap();
    assert_eq!(foo.default_value, ValueType::U32(1));

    let bar = record.get("Bar").unwrap();
    assert_eq!(bar.default_value, ValueType::U32(2));
}

#[test]
fn parse_record_info() {
    let eds = r#"
        [1800]
        ParameterName=Foo
        ObjectType=0x9
        SubNumber=6
        "#;

    let eds = Eds::from_str(eds).unwrap();
    let foo = eds.metadata().get(&CobId(0x1800, 0x00).key()).unwrap();
    let array = foo.clone().into_record().unwrap();

    assert_eq!(array.parameter_name, String::from("Foo"));
    assert_eq!(array.subnumber, 0x06);
}

#[test]
fn parse_array_info() {
    let eds = r#"
        [1600]
        ParameterName=Foo
        ObjectType=0x8
        SubNumber=5
        "#;

    let eds = Eds::from_str(eds).unwrap();
    let foo = eds.metadata().get(&CobId(0x1600, 0x00).key()).unwrap();
    let array = foo.clone().into_array().unwrap();

    assert_eq!(array.parameter_name, String::from("Foo"));
    assert_eq!(array.subnumber, 0x05);
}

#[test]
fn parse_variable() {
    let eds = r#"
        [607C]
        ParameterName=Foo
        ObjectType=0x7
        DataType=0x0004
        AccessType=rw
        DefaultValue=0
        PDOMapping=0
        "#;

    let eds = Eds::from_str(eds).unwrap();

    let foo = eds.objects().get(&CobId(0x607C, 0x00).key()).unwrap();
    let var = foo.clone().into_variable().unwrap();

    assert_eq!(var.parameter_name, String::from("Foo"));
    assert_eq!(var.data_type, DataType::I32);
    assert_eq!(var.access_type, AccessType::ReadWrite);
    assert_eq!(var.pdo_mapping, false);
}

#[test]
fn section_to_cobid() {
    let section = "6000";
    let cobid = eds_section_to_cobid(section).unwrap();
    assert_eq!(cobid, CobId(0x6000, 0x00))
}

#[test]
fn section_to_cobid_with_subindex() {
    let section = "6000sub2";
    let cobid = eds_section_to_cobid(section).unwrap();
    assert_eq!(cobid, CobId(0x6000, 0x02))
}

#[test]
fn value_type_conversion() {
    let s = "0x01";
    let value_type = parse_value_type(s, DataType::Bool).unwrap();
    assert_eq!(value_type, ValueType::Bool(true));

    let s = "0x05";
    let value_type = parse_value_type(s, DataType::U8).unwrap();
    assert_eq!(value_type, ValueType::U8(5));

    let s = "0xDEAD";
    let value_type = parse_value_type(s, DataType::U16).unwrap();
    assert_eq!(value_type, ValueType::U16(0xDEAD));

    let s = "0xDEADBEEF";
    let value_type = parse_value_type(s, DataType::U32).unwrap();
    assert_eq!(value_type, ValueType::U32(0xDEADBEEF));
}

#[test]
fn parse_data_type() {
    assert_eq!(DataType::try_from(0x0001), Ok(DataType::Bool));
    assert_eq!(DataType::try_from(0x0002), Ok(DataType::I8));
    assert_eq!(DataType::try_from(0x0003), Ok(DataType::I16));
    assert_eq!(DataType::try_from(0x0004), Ok(DataType::I32));
    assert_eq!(DataType::try_from(0x0005), Ok(DataType::U8));
    assert_eq!(DataType::try_from(0x0006), Ok(DataType::U16));
    assert_eq!(DataType::try_from(0x0007), Ok(DataType::U32));
    assert_eq!(DataType::try_from(0x0008), Ok(DataType::F32));
    assert_eq!(DataType::try_from(0x0009), Ok(DataType::VString));
    assert_eq!(DataType::try_from(0x000A), Ok(DataType::OString));
}

#[test]
fn parse_access_type() {
    assert_eq!(AccessType::try_from("ro"), Ok(AccessType::ReadOnly));
    assert_eq!(AccessType::try_from("wo"), Ok(AccessType::WriteOnly));
    assert_eq!(AccessType::try_from("rw"), Ok(AccessType::ReadWrite));
}

#[test]
fn parse_object_type() {
    assert_eq!(ObjectType::try_from(0x07), Ok(ObjectType::Variable));
    assert_eq!(ObjectType::try_from(0x08), Ok(ObjectType::Array));
    assert_eq!(ObjectType::try_from(0x09), Ok(ObjectType::Record));
}

#[test]
fn string_to_int_hex() {
    let s = "0x0A";
    let i = eds_string_to_u8(s).unwrap();
    assert_eq!(i, 10);
}

#[test]
fn string_to_int_dec() {
    let s = "7";
    let i = eds_string_to_u8(s).unwrap();
    assert_eq!(i, 7);
}
