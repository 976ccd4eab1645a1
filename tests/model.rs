use openpid::config::{LiteralValue, OneOrMany, PacketSegment, Payload, SizedDataType, UnsizedDataType};
use openpid::error::{CodegenError, Direction};
use openpid::text::{decimal_string, signed_decimal_string};

fn payload(segments: Vec<PacketSegment>) -> Payload {
    Payload { segments, metadata: Vec::new(), description: String::new() }
}

#[test]
fn one_or_many_as_many() {
    assert_eq!(OneOrMany::One(3).as_many(), vec![3]);
    assert_eq!(OneOrMany::Many(vec![1, 2]).as_many(), vec![1, 2]);
    let many = OneOrMany::Many(vec![4, 5, 6]);
    assert_eq!(many.as_many_ref(), vec![&4, &5, &6]);
    let one = OneOrMany::One(9);
    assert_eq!(one.as_many_ref(), vec![&9]);
}

#[test]
fn literal_to_string() {
    assert_eq!(LiteralValue::Int(-42).to_string(), "-42");
    assert_eq!(LiteralValue::Int(0).to_string(), "0");
    assert_eq!(LiteralValue::Int(i64::MIN).to_string(), "-9223372036854775808");
    assert_eq!(LiteralValue::Int(i64::MAX).to_string(), "9223372036854775807");
    assert_eq!(LiteralValue::String("abc".to_string()).to_string(), "\"abc\"");
    assert_eq!(LiteralValue::String("5".to_string()).to_string(), "\"5\"");
    assert_eq!(LiteralValue::Int(5).to_string(), "5");
}

#[test]
fn decimal_text() {
    assert_eq!(decimal_string(0), "0");
    assert_eq!(decimal_string(1234567890), "1234567890");
    assert_eq!(decimal_string(u64::MAX), "18446744073709551615");
    assert_eq!(signed_decimal_string(-7), "-7");
}

#[test]
fn segment_names() {
    let a = PacketSegment::Sized { name: "a".to_string(), bits: 8, datatype: SizedDataType::Raw, description: None };
    let b = PacketSegment::Unsized { name: "b".to_string(), datatype: UnsizedDataType::Raw, termination: None, description: None };
    let c = PacketSegment::Struct { name: "c".to_string(), struct_name: "s".to_string() };
    assert_eq!(a.get_name(), "a");
    assert_eq!(b.get_name(), "b");
    assert_eq!(c.get_name(), "c");
}

#[test]
fn payload_size_of_sized_segments() {
    let p = payload(vec![
        PacketSegment::Sized { name: "a".to_string(), bits: 8, datatype: SizedDataType::Raw, description: None },
        PacketSegment::Sized { name: "b".to_string(), bits: 24, datatype: SizedDataType::StringUTF8, description: None },
    ]);
    assert_eq!(p.get_size(), Some(32));
    let q = payload(vec![PacketSegment::Unsized {
        name: "v".to_string(),
        datatype: UnsizedDataType::Raw,
        termination: None,
        description: None,
    }]);
    assert_eq!(q.get_size(), None);
    let big = payload(vec![
        PacketSegment::Sized { name: "a".to_string(), bits: u32::MAX, datatype: SizedDataType::Raw, description: None },
        PacketSegment::Sized { name: "b".to_string(), bits: 1, datatype: SizedDataType::Raw, description: None },
    ]);
    assert_eq!(big.get_size(), None);
    assert_eq!(payload(Vec::new()).get_size(), Some(0));
}

#[test]
fn diagram_fields_in_segment_order() {
    let p = payload(vec![
        PacketSegment::Sized { name: "id".to_string(), bits: 8, datatype: SizedDataType::Raw, description: None },
        PacketSegment::Unsized { name: "data".to_string(), datatype: UnsizedDataType::Raw, termination: None, description: None },
    ]);
    assert_eq!(p.diagram_fields(), vec![("id".to_string(), Some(8)), ("data".to_string(), None)]);
}

#[test]
fn error_messages() {
    let e = CodegenError::IOError("disk full".to_string());
    assert_eq!(e.message(), "Input/Output Error: disk full");
    let e = CodegenError::NoPayload { wanted_by_transaction: "t".to_string(), payload: "p".to_string(), direction: Direction::Tx };
    assert_eq!(e.message(), "Undefined TX payload \"p\" referenced by transaction \"t\"");
    let e = CodegenError::Arity { wanted_by_payload: "p".to_string(), wanted_by_field: "f".to_string(), slots: 2 };
    assert_eq!(e.message(), "Metadata literal for p->f does not match its 2 storage slot(s)");
    let e = CodegenError::Unimplemented { wanted_by_payload: "p".to_string(), wanted_by_field: "f".to_string() };
    assert_eq!(e.message(), "Code generation does not support p->f");
    let e = CodegenError::BadCountField { wanted_by_payload: "p".to_string(), wanted_by_field: "f".to_string(), field_name: "n".to_string() };
    assert_eq!(e.message(), "Count field n of p->f is not a sized, non-constant sibling");
    let e = CodegenError::CyclicStruct { wanted_by_payload: "p".to_string(), wanted_by_field: "f".to_string(), struct_name: "s".to_string() };
    assert_eq!(e.message(), "Struct s contains itself, referenced by p->f");
}

#[test]
fn escaping_for_c_strings() {
    let mut out = String::from("x=");
    openpid::text::push_escaped(&mut out, "say \"hi\"\n\\");
    assert_eq!(out, "x=say \\\"hi\\\"\\n\\\\");
    let mut plain = String::new();
    openpid::text::push_escaped(&mut plain, "héllo");
    assert_eq!(plain, "héllo");
}
