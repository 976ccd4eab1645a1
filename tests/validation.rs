use openpid::config::{
    Action, AllPayloads, DeviceInfo, OpenPID, PacketSegment, Payload, ReusableStruct, SizedDataType, Signing,
    Endianness, Terminator, Transaction, UnsizedDataType,
};
use openpid::error::{CodegenError, Direction, NameKind};
use openpid::naming::is_snake_case;

fn int_seg(name: &str, bits: u32) -> PacketSegment {
    PacketSegment::Sized {
        name: name.to_string(),
        bits,
        datatype: SizedDataType::Integer { endianness: Endianness::LittleEndian, signing: Signing::Unsigned },
        description: None,
    }
}

fn array_seg(name: &str, item: &str, termination: Option<Terminator>) -> PacketSegment {
    PacketSegment::Unsized {
        name: name.to_string(),
        datatype: UnsizedDataType::Array { item_struct: item.to_string() },
        termination,
        description: None,
    }
}

fn raw_seg(name: &str, termination: Option<Terminator>) -> PacketSegment {
    PacketSegment::Unsized { name: name.to_string(), datatype: UnsizedDataType::Raw, termination, description: None }
}

fn payload(segments: Vec<PacketSegment>) -> Payload {
    Payload { segments, metadata: Vec::new(), description: String::new() }
}

fn document(
    structs: Vec<(String, ReusableStruct)>,
    tx: Vec<(String, Payload)>,
    rx: Vec<(String, Payload)>,
    transactions: Vec<(String, Transaction)>,
) -> OpenPID {
    OpenPID {
        device_info: DeviceInfo { name: "Sensor".to_string(), description: String::new() },
        openpid_version: None,
        doc_version: None,
        uart: None,
        spi: None,
        i2c: None,
        structs,
        payloads: AllPayloads { tx, rx },
        transactions,
    }
}

fn reusable(name: &str, fields: Vec<PacketSegment>) -> (String, ReusableStruct) {
    (name.to_string(), ReusableStruct { name: name.to_string(), fields, description: None })
}

#[test]
fn missing_struct_names_referencer_and_struct() {
    let doc = document(
        Vec::new(),
        vec![("sensor_frame".to_string(), payload(vec![array_seg("readings", "reading_t", Some(Terminator::CountFixed { count: 2 }))]))],
        Vec::new(),
        Vec::new(),
    );
    let errs = doc.validate().unwrap_err();
    assert_eq!(errs.len(), 1);
    match &errs[0] {
        CodegenError::NoStruct { wanted_by_payload, wanted_by_field, struct_name } => {
            assert_eq!(wanted_by_payload, "sensor_frame");
            assert_eq!(wanted_by_field, "readings");
            assert_eq!(struct_name, "reading_t");
        }
        other => panic!("unexpected error {:?}", other),
    }
    let message = errs[0].message();
    assert!(message.contains("sensor_frame->readings"));
    assert!(message.contains("reading_t"));
}

#[test]
fn missing_struct_in_nested_struct_is_reported_with_path() {
    let doc = document(
        vec![reusable("outer", vec![PacketSegment::Struct { name: "inner".to_string(), struct_name: "absent".to_string() }])],
        vec![("frame".to_string(), payload(vec![PacketSegment::Struct { name: "body".to_string(), struct_name: "outer".to_string() }]))],
        Vec::new(),
        Vec::new(),
    );
    let errs = doc.validate().unwrap_err();
    assert_eq!(errs.len(), 1);
    assert_eq!(
        errs[0].message(),
        "Couldn't find struct named absent referenced by frame->[Struct outer]body->inner"
    );
}

#[test]
fn cyclic_struct_is_reported() {
    let doc = document(
        vec![reusable("node", vec![array_seg("children", "node", Some(Terminator::CountFixed { count: 1 }))])],
        vec![("tree".to_string(), payload(vec![array_seg("roots", "node", Some(Terminator::CountFixed { count: 1 }))]))],
        Vec::new(),
        Vec::new(),
    );
    let errs = doc.validate().unwrap_err();
    assert_eq!(errs.len(), 1);
    match &errs[0] {
        CodegenError::CyclicStruct { wanted_by_payload, wanted_by_field, struct_name } => {
            assert_eq!(wanted_by_payload, "tree->[Array of node]roots");
            assert_eq!(wanted_by_field, "children");
            assert_eq!(struct_name, "node");
        }
        other => panic!("unexpected error {:?}", other),
    }
}

#[test]
fn unterminated_top_level_rx_segment_fails() {
    let doc = document(Vec::new(), Vec::new(), vec![("reply".to_string(), payload(vec![raw_seg("data", None)]))], Vec::new());
    let errs = doc.validate().unwrap_err();
    assert_eq!(errs.len(), 1);
    match &errs[0] {
        CodegenError::Unterminated { wanted_by_payload, wanted_by_field } => {
            assert_eq!(wanted_by_payload, "reply");
            assert_eq!(wanted_by_field, "data");
        }
        other => panic!("unexpected error {:?}", other),
    }
}

#[test]
fn unterminated_rx_segment_nested_in_array_of_struct_fails() {
    let doc = document(
        vec![reusable("reading", vec![int_seg("id", 8), raw_seg("blob", None)])],
        Vec::new(),
        vec![("reply".to_string(), payload(vec![array_seg("readings", "reading", Some(Terminator::CountFixed { count: 3 }))]))],
        Vec::new(),
    );
    let errs = doc.validate().unwrap_err();
    assert_eq!(errs.len(), 1);
    match &errs[0] {
        CodegenError::Unterminated { wanted_by_payload, wanted_by_field } => {
            assert_eq!(wanted_by_payload, "reply->[Array of reading]readings");
            assert_eq!(wanted_by_field, "blob");
        }
        other => panic!("unexpected error {:?}", other),
    }
}

#[test]
fn unterminated_rx_segment_two_structs_deep_fails() {
    let doc = document(
        vec![
            reusable("inner", vec![raw_seg("tail", None)]),
            reusable("outer", vec![PacketSegment::Struct { name: "nested".to_string(), struct_name: "inner".to_string() }]),
        ],
        Vec::new(),
        vec![("reply".to_string(), payload(vec![PacketSegment::Struct { name: "body".to_string(), struct_name: "outer".to_string() }]))],
        Vec::new(),
    );
    let errs = doc.validate().unwrap_err();
    assert!(errs.iter().any(|e| matches!(e, CodegenError::Unterminated { wanted_by_field, .. } if wanted_by_field == "tail")));
}

#[test]
fn unterminated_tx_segment_is_allowed() {
    let doc = document(Vec::new(), vec![("send".to_string(), payload(vec![raw_seg("data", None)]))], Vec::new(), Vec::new());
    assert!(doc.validate().is_ok());
}

#[test]
fn payload_name_not_in_snake_case_fails() {
    let doc = document(Vec::new(), vec![("SensorFrame".to_string(), payload(vec![int_seg("id", 8)]))], Vec::new(), Vec::new());
    let errs = doc.validate().unwrap_err();
    assert_eq!(errs.len(), 1);
    match &errs[0] {
        CodegenError::NotSnakeCase { kind, name } => {
            assert_eq!(*kind, NameKind::TxPayload);
            assert_eq!(name, "SensorFrame");
        }
        other => panic!("unexpected error {:?}", other),
    }
    assert_eq!(errs[0].message(), "TX Payload \"SensorFrame\" is not snake case");
}

#[test]
fn payload_name_in_snake_case_passes() {
    let doc = document(Vec::new(), vec![("sensor_frame".to_string(), payload(vec![int_seg("id", 8)]))], Vec::new(), Vec::new());
    assert!(doc.validate().is_ok());
}

#[test]
fn snake_case_check() {
    assert!(is_snake_case(&"sensor_frame".to_string()));
    assert!(!is_snake_case(&"SensorFrame".to_string()));
    assert!(!is_snake_case(&"sensorFrame".to_string()));
    assert!(is_snake_case(&"crc16".to_string()));
    assert!(is_snake_case(&"vector4d_value".to_string()));
    assert!(!is_snake_case(&"Crc16".to_string()));
}

#[test]
fn transaction_references_are_checked() {
    let transaction = Transaction {
        actions: vec![
            Action::Tx { payload: "ping".to_string() },
            Action::Rx { payload: "pong".to_string() },
            Action::Sleep { milliseconds: 10 },
            Action::Flush,
            Action::Rx { payload: "ping".to_string() },
        ],
        returns: Vec::new(),
        description: String::new(),
    };
    let doc = document(
        Vec::new(),
        vec![("ping".to_string(), payload(vec![int_seg("id", 8)]))],
        vec![("pong".to_string(), payload(vec![int_seg("id", 8)]))],
        vec![("round_trip".to_string(), transaction)],
    );
    let errs = doc.validate().unwrap_err();
    assert_eq!(errs.len(), 1);
    match &errs[0] {
        CodegenError::NoPayload { wanted_by_transaction, payload, direction } => {
            assert_eq!(wanted_by_transaction, "round_trip");
            assert_eq!(payload, "ping");
            assert_eq!(*direction, Direction::Rx);
        }
        other => panic!("unexpected error {:?}", other),
    }
    assert_eq!(errs[0].message(), "Undefined RX payload \"ping\" referenced by transaction \"round_trip\"");
}

#[test]
fn all_violations_are_reported_together() {
    let doc = document(
        vec![reusable("BadStruct", vec![int_seg("x", 8)])],
        vec![("Frame".to_string(), payload(vec![array_seg("items", "missing", None)]))],
        vec![("reply".to_string(), payload(vec![raw_seg("data", None)]))],
        Vec::new(),
    );
    let errs = doc.validate().unwrap_err();
    assert_eq!(errs.len(), 4);
    assert!(matches!(errs[0], CodegenError::Unterminated { .. }));
    assert!(matches!(errs[1], CodegenError::NoStruct { .. }));
    assert!(matches!(errs[2], CodegenError::NotSnakeCase { kind: NameKind::Struct, .. }));
    assert!(matches!(errs[3], CodegenError::NotSnakeCase { kind: NameKind::TxPayload, .. }));
}

#[test]
fn struct_ref_walk_alone() {
    let doc = document(Vec::new(), Vec::new(), Vec::new(), Vec::new());
    let segs = vec![int_seg("a", 8), array_seg("b", "nope", None)];
    let errs = doc.validate_struct_refs("top", &segs);
    assert_eq!(errs.len(), 1);
    let term = doc.validate_no_unsized_unterminated_rx("top", &segs);
    assert_eq!(term.len(), 1);
    assert_eq!(term[0].message(), "Unterminated unsized reads are not possible. One was found in top->b");
}

#[test]
fn termination_walk_reports_cycles() {
    let doc = document(
        vec![reusable("node", vec![array_seg("children", "node", Some(Terminator::CountFixed { count: 1 }))])],
        Vec::new(),
        vec![("tree".to_string(), payload(vec![array_seg("roots", "node", Some(Terminator::CountFixed { count: 1 }))]))],
        Vec::new(),
    );
    let segs = vec![array_seg("roots", "node", Some(Terminator::CountFixed { count: 1 }))];
    let errs = doc.validate_no_unsized_unterminated_rx("tree", &segs);
    assert_eq!(errs.len(), 1);
    assert!(matches!(&errs[0], CodegenError::CyclicStruct { struct_name, .. } if struct_name == "node"));
    let all = doc.validate().unwrap_err();
    assert_eq!(all.len(), 1);
    assert!(matches!(&all[0], CodegenError::CyclicStruct { .. }));
}
