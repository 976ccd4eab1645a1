use openpid::config::{
    AllPayloads, Crc, DeviceInfo, LiteralValue, OneOrMany, OpenPID, PacketFormatElement, PacketSegment, Payload,
    ReusableStruct, Signing, SizedDataType, Endianness, Terminator, UARTConfig, UnsizedDataType, BitsOrBytes,
};
use openpid::emit::{emit_reads, emit_writes, write_statements, WriteOp};
use openpid::error::CodegenError;
use openpid::generate::CGenerator;
use openpid::slots::{declaration, storage_slots, CType};
use openpid::Codegen;

fn int_seg(name: &str, bits: u32, signing: Signing) -> PacketSegment {
    PacketSegment::Sized {
        name: name.to_string(),
        bits,
        datatype: SizedDataType::Integer { endianness: Endianness::LittleEndian, signing },
        description: None,
    }
}

fn unsized_seg(name: &str, datatype: UnsizedDataType, termination: Option<Terminator>) -> PacketSegment {
    PacketSegment::Unsized { name: name.to_string(), datatype, termination, description: None }
}

fn payload(segments: Vec<PacketSegment>, metadata: Vec<(String, OneOrMany<LiteralValue>)>) -> Payload {
    Payload { segments, metadata, description: String::new() }
}

fn document(
    uart: Option<UARTConfig>,
    structs: Vec<(String, ReusableStruct)>,
    tx: Vec<(String, Payload)>,
    rx: Vec<(String, Payload)>,
) -> OpenPID {
    OpenPID {
        device_info: DeviceInfo { name: "Thermo".to_string(), description: String::new() },
        openpid_version: None,
        doc_version: None,
        uart,
        spi: None,
        i2c: None,
        structs,
        payloads: AllPayloads { tx, rx },
        transactions: Vec::new(),
    }
}

fn count_in_packet(field: &str) -> Option<Terminator> {
    Some(Terminator::CountInPacket { field_name: field.to_string() })
}

#[test]
fn count_assignment_is_hoisted_before_writes() {
    let segs = vec![
        int_seg("len", 16, Signing::Unsigned),
        unsized_seg("payload_bytes", UnsizedDataType::Raw, count_in_packet("len")),
    ];
    let ops = emit_writes("frame", &segs).unwrap();
    assert_eq!(
        ops,
        vec![WriteOp::AssignCount { target: 0, source: 1 }, WriteOp::Write { seg: 0 }, WriteOp::Write { seg: 1 }]
    );
    let text = write_statements(&segs, "", &ops);
    assert_eq!(
        text,
        "    len = payload_bytes_length;\n    write(device, &len, 16);\n    write(device, payload_bytes, payload_bytes_length);\n"
    );
}

#[test]
fn count_assignment_precedes_data_in_generated_source() {
    let segs = vec![
        int_seg("len", 16, Signing::Unsigned),
        unsized_seg("payload_bytes", UnsizedDataType::Raw, count_in_packet("len")),
    ];
    let doc = document(None, Vec::new(), vec![("send_blob".to_string(), payload(segs, Vec::new()))], Vec::new());
    let text = doc.generate().unwrap().0;
    let assign = text.find("len = payload_bytes_length;").unwrap();
    let write_data = text.find("write(device, payload_bytes,").unwrap();
    let write_len = text.find("write(device, &len, 16);").unwrap();
    assert!(assign < write_data);
    assert!(assign < write_len);
    assert!(text.contains("int TXSendBlob(Device *device, uint16_t len, uint8_t *payload_bytes, size_t payload_bytes_length) {"));
}

#[test]
fn sequence_terminator_is_written_after_data() {
    let segs = vec![unsized_seg(
        "line",
        UnsizedDataType::StringUTF8,
        Some(Terminator::Sequence { sequence: vec![13, 10] }),
    )];
    let ops = emit_writes("frame", &segs).unwrap();
    assert_eq!(ops, vec![WriteOp::Write { seg: 0 }, WriteOp::WriteTerminator { seg: 0 }]);
    let text = write_statements(&segs, "value->", &ops);
    assert_eq!(
        text,
        "    write(device, value->line, strlen(value->line) * 8);\n    { static const uint8_t terminator[] = {13, 10}; write(device, terminator, sizeof terminator * 8); }\n"
    );
}

#[test]
fn count_field_must_be_sized_sibling() {
    let segs = vec![unsized_seg("data", UnsizedDataType::Raw, count_in_packet("missing"))];
    match emit_writes("frame", &segs).unwrap_err() {
        CodegenError::BadCountField { wanted_by_payload, wanted_by_field, field_name } => {
            assert_eq!(wanted_by_payload, "frame");
            assert_eq!(wanted_by_field, "data");
            assert_eq!(field_name, "missing");
        }
        other => panic!("unexpected error {:?}", other),
    }
}

#[test]
fn struct_segment_is_unimplemented() {
    let segs = vec![PacketSegment::Struct { name: "body".to_string(), struct_name: "thing".to_string() }];
    assert!(matches!(emit_writes("frame", &segs), Err(CodegenError::Unimplemented { .. })));
    assert!(matches!(storage_slots("frame", &segs[0], true, true), Err(CodegenError::Unimplemented { .. })));
}

#[test]
fn array_of_struct_uses_struct_layout() {
    let reading = ReusableStruct {
        name: "reading".to_string(),
        fields: vec![int_seg("channel", 8, Signing::Unsigned), int_seg("value", 32, Signing::TwosComplement)],
        description: None,
    };
    let segs = vec![
        int_seg("count", 8, Signing::Unsigned),
        unsized_seg("readings", UnsizedDataType::Array { item_struct: "reading".to_string() }, count_in_packet("count")),
    ];
    let doc = document(None, vec![("reading".to_string(), reading)], vec![("report".to_string(), payload(segs, Vec::new()))], Vec::new());
    let text = doc.generate().unwrap().0;
    assert!(text.contains("typedef struct Reading Reading;\n"));
    assert!(text.contains("\nstruct Reading {\n    uint8_t channel;\n    int32_t value;\n};\n"));
    assert!(text.contains("static int write_reading(Device *device, Reading *value) {\n    write(device, &value->channel, 8);\n    write(device, &value->value, 32);\n    return 0;\n}\n"));
    assert!(text.contains("int TXReport(Device *device, uint8_t count, Reading *readings, size_t readings_length) {"));
    assert!(text.contains("    count = readings_length;\n"));
    assert!(text.contains("for (size_t i = 0; i < readings_length; i++) { write_reading(device, &readings[i]); }"));
}

fn metadata_doc(value: OneOrMany<LiteralValue>) -> OpenPID {
    let uart = UARTConfig {
        tx_format: vec![
            PacketFormatElement::Const { data: vec![0xAA], bits: None, description: None },
            PacketFormatElement::Metadata {
                segment: unsized_seg("magic", UnsizedDataType::Raw, None),
                description: None,
            },
            PacketFormatElement::Payload,
        ],
        rx_format: vec![PacketFormatElement::Payload],
    };
    let p = payload(vec![int_seg("level", 8, Signing::Unsigned)], vec![("magic".to_string(), value)]);
    document(Some(uart), Vec::new(), vec![("set_level".to_string(), p)], Vec::new())
}

#[test]
fn metadata_pair_with_scalar_literal_is_arity_error() {
    let doc = metadata_doc(OneOrMany::One(LiteralValue::Int(5)));
    let errs = doc.generate().unwrap().1;
    assert_eq!(errs.len(), 1);
    match &errs[0] {
        CodegenError::Arity { wanted_by_payload, wanted_by_field, slots } => {
            assert_eq!(wanted_by_payload, "set_level");
            assert_eq!(wanted_by_field, "magic");
            assert_eq!(*slots, 2);
        }
        other => panic!("unexpected error {:?}", other),
    }
}

#[test]
fn metadata_pair_with_array_literal_sets_length_in_bits() {
    let doc = metadata_doc(OneOrMany::Many(vec![LiteralValue::Int(1), LiteralValue::Int(2), LiteralValue::Int(3)]));
    let text = doc.generate().unwrap().0;
    let body = "int TXSetLevel(Device *device, uint8_t level) {\n    { static const uint8_t constant[] = {170}; write(device, constant, sizeof constant * 8); }\n    uint8_t magic[] = {1, 2, 3};\n    size_t magic_length = 24;\n    write(device, magic, magic_length);\n    write(device, &level, 8);\n    return 0;\n}\n";
    assert!(text.contains(body));
}

#[test]
fn metadata_scalar_and_missing_metadata() {
    let uart = UARTConfig {
        tx_format: vec![
            PacketFormatElement::Metadata { segment: int_seg("packet_id", 8, Signing::Unsigned), description: None },
            PacketFormatElement::Payload,
            PacketFormatElement::Crc { algorithm: Crc::Crc16XModem },
        ],
        rx_format: vec![
            PacketFormatElement::SizeOfPayload { size_bits: 8, express_as: BitsOrBytes::Bytes },
            PacketFormatElement::Metadata { segment: int_seg("packet_id", 8, Signing::Unsigned), description: None },
            PacketFormatElement::Payload,
        ],
    };
    let tx = payload(Vec::new(), vec![("packet_id".to_string(), OneOrMany::One(LiteralValue::Int(7)))]);
    let rx = payload(vec![int_seg("status", 8, Signing::Unsigned)], vec![("packet_id".to_string(), OneOrMany::One(LiteralValue::Int(8)))]);
    let doc = document(Some(uart), Vec::new(), vec![("ping".to_string(), tx)], vec![("pong".to_string(), rx)]);
    let text = doc.generate().unwrap().0;
    assert!(text.contains("int TXPing(Device *device) {\n    uint8_t packet_id = 7;\n    write(device, &packet_id, 8);\n    { uint8_t placeholder[(16 + 7) / 8] = {0}; write(device, placeholder, 16); }\n    return 0;\n}\n"));
    assert!(text.contains("typedef struct {\n    uint8_t status;\n} RXPongResult;\n\nint RXPong(Device *device, RXPongResult *result) {\n    { uint8_t skipped[(8 + 7) / 8]; read(device, skipped, 8); }\n    { uint8_t packet_id; read(device, &packet_id, 8); if (packet_id != 8) return -1; }\n    read(device, &result->status, 8);\n    return 0;\n}\n"));

    let uart2 = UARTConfig {
        tx_format: vec![PacketFormatElement::Metadata { segment: int_seg("packet_id", 8, Signing::Unsigned), description: None }],
        rx_format: Vec::new(),
    };
    let doc2 = document(Some(uart2), Vec::new(), vec![("ping".to_string(), payload(Vec::new(), Vec::new()))], Vec::new());
    let errs = doc2.generate().unwrap().1;
    assert!(matches!(&errs[0], CodegenError::MissingMetadata { wanted_by_field, .. } if wanted_by_field == "packet_id"));
    assert_eq!(errs[0].message(), "No metadata value for ping->packet_id");
}

#[test]
fn generation_is_idempotent() {
    let segs = vec![
        int_seg("len", 16, Signing::Unsigned),
        unsized_seg("payload_bytes", UnsizedDataType::Raw, count_in_packet("len")),
    ];
    let rx = vec![
        int_seg("n", 8, Signing::Unsigned),
        unsized_seg("data", UnsizedDataType::Raw, count_in_packet("n")),
    ];
    let doc = document(
        None,
        Vec::new(),
        vec![("send_blob".to_string(), payload(segs, Vec::new()))],
        vec![("recv_blob".to_string(), payload(rx, Vec::new()))],
    );
    let first = doc.generate().unwrap().0;
    let second = doc.generate().unwrap().0;
    assert_eq!(first, second);
    assert!(first.starts_with("/* Device interface for Thermo */\n#include <stddef.h>\n"));
}

#[test]
fn reads_follow_termination() {
    let segs = vec![
        int_seg("n", 8, Signing::Unsigned),
        unsized_seg("data", UnsizedDataType::Raw, count_in_packet("n")),
        unsized_seg("fixed", UnsizedDataType::Raw, Some(Terminator::CountFixed { count: 4 })),
        unsized_seg("name", UnsizedDataType::StringUTF8, Some(Terminator::Sequence { sequence: vec![0] })),
        PacketSegment::Sized { name: "sync".to_string(), bits: 8, datatype: SizedDataType::Const { data: vec![0x55] }, description: None },
    ];
    let text = emit_reads("reply", &segs, "result->").unwrap();
    assert_eq!(
        text,
        "    read(device, &result->n, 8);\n    result->data_length = result->n;\n    read(device, result->data, result->data_length);\n    result->fixed_length = 32;\n    read(device, result->fixed, result->fixed_length);\n    { static const uint8_t terminator[] = {0}; read_until(device, result->name, NULL, terminator, sizeof terminator); }\n    { static const uint8_t expected[] = {85}; uint8_t actual[sizeof expected]; read(device, actual, 8); if (memcmp(actual, expected, sizeof expected) != 0) return -1; }\n"
    );
}

#[test]
fn read_count_field_must_come_first() {
    let segs = vec![
        unsized_seg("data", UnsizedDataType::Raw, count_in_packet("n")),
        int_seg("n", 8, Signing::Unsigned),
    ];
    assert!(matches!(emit_reads("reply", &segs, "result->"), Err(CodegenError::BadCountField { .. })));
    let unterminated = vec![unsized_seg("data", UnsizedDataType::Raw, None)];
    assert!(matches!(emit_reads("reply", &unterminated, "result->"), Err(CodegenError::Unterminated { .. })));
}

#[test]
fn slots_by_type() {
    let u16seg = int_seg("a", 16, Signing::Unsigned);
    let s = storage_slots("p", &u16seg, false, true).unwrap();
    assert_eq!(s.len(), 1);
    assert_eq!(declaration(&s[0]), "uint16_t a");

    let i64seg = int_seg("b", 64, Signing::OnesComplement);
    assert_eq!(declaration(&storage_slots("p", &i64seg, false, true).unwrap()[0]), "int64_t b");

    let odd = int_seg("c", 12, Signing::Unsigned);
    match storage_slots("p", &odd, false, true).unwrap_err() {
        CodegenError::UnsupportedType { wanted_by_payload, wanted_by_field, bits } => {
            assert_eq!(wanted_by_payload, "p");
            assert_eq!(wanted_by_field, "c");
            assert_eq!(bits, 12);
        }
        other => panic!("unexpected error {:?}", other),
    }

    let f32seg = PacketSegment::Sized {
        name: "f".to_string(),
        bits: 32,
        datatype: SizedDataType::FloatIEEE { endianness: Endianness::BigEndian },
        description: None,
    };
    assert_eq!(declaration(&storage_slots("p", &f32seg, true, true).unwrap()[0]), "float f");
    let f16seg = PacketSegment::Sized {
        name: "g".to_string(),
        bits: 16,
        datatype: SizedDataType::FloatIEEE { endianness: Endianness::BigEndian },
        description: None,
    };
    assert!(matches!(storage_slots("p", &f16seg, true, true), Err(CodegenError::UnsupportedType { bits: 16, .. })));

    let raw = PacketSegment::Sized { name: "r".to_string(), bits: 20, datatype: SizedDataType::Raw, description: None };
    assert_eq!(declaration(&storage_slots("p", &raw, true, true).unwrap()[0]), "uint8_t r[3]");
    assert_eq!(declaration(&storage_slots("p", &raw, false, true).unwrap()[0]), "uint8_t *r");

    let text = PacketSegment::Sized { name: "t".to_string(), bits: 32, datatype: SizedDataType::StringUTF8, description: None };
    assert_eq!(declaration(&storage_slots("p", &text, true, true).unwrap()[0]), "char t[4]");
    assert_eq!(declaration(&storage_slots("p", &text, false, true).unwrap()[0]), "char *t");

    let constant = PacketSegment::Sized { name: "k".to_string(), bits: 16, datatype: SizedDataType::Const { data: vec![1, 2] }, description: None };
    assert_eq!(storage_slots("p", &constant, true, true).unwrap().len(), 0);
    assert_eq!(declaration(&storage_slots("p", &constant, true, false).unwrap()[0]), "uint8_t k[2]");

    let blob = unsized_seg("blob", UnsizedDataType::Raw, None);
    let s = storage_slots("p", &blob, false, true).unwrap();
    assert_eq!(s.len(), 2);
    assert_eq!(declaration(&s[0]), "uint8_t *blob");
    assert_eq!(declaration(&s[1]), "size_t blob_length");
    assert!(matches!(s[1].ctype, CType::Length));

    let line = unsized_seg("line", UnsizedDataType::StringUTF8, None);
    let s = storage_slots("p", &line, false, true).unwrap();
    assert_eq!(s.len(), 1);
    assert_eq!(declaration(&s[0]), "char *line");

    let arr = unsized_seg("items", UnsizedDataType::Array { item_struct: "gps_fix".to_string() }, None);
    let s = storage_slots("p", &arr, false, true).unwrap();
    assert_eq!(declaration(&s[0]), "GpsFix *items");
    assert_eq!(s[1].name, "items_length");
}

#[test]
fn unsupported_width_aborts_only_its_payload() {
    let doc = document(
        None,
        Vec::new(),
        vec![
            ("good".to_string(), payload(vec![int_seg("a", 8, Signing::Unsigned)], Vec::new())),
            ("odd".to_string(), payload(vec![int_seg("b", 24, Signing::Unsigned)], Vec::new())),
        ],
        Vec::new(),
    );
    let errs = doc.generate().unwrap().1;
    assert_eq!(errs.len(), 1);
    assert_eq!(errs[0].message(), "Unsupported width of 24 bits in odd->b");
}

#[test]
fn invalid_document_is_not_generated() {
    let doc = document(None, Vec::new(), vec![("BadName".to_string(), payload(Vec::new(), Vec::new()))], Vec::new());
    let errs = doc.generate().unwrap_err();
    assert!(matches!(errs[0], CodegenError::NotSnakeCase { .. }));
}

#[test]
fn codegen_backend_fills_output() {
    let doc = document(None, Vec::new(), vec![("ping".to_string(), payload(vec![int_seg("id", 8, Signing::Unsigned)], Vec::new()))], Vec::new());
    let mut backend = CGenerator::new(&doc);
    assert!(backend.codegen().is_ok());
    assert_eq!(backend.output, doc.generate().unwrap().0);
    assert!(backend.output.contains("int TXPing(Device *device, uint8_t id) {\n    write(device, &id, 8);\n    return 0;\n}\n"));

    let bad = document(None, Vec::new(), vec![("Ping".to_string(), payload(Vec::new(), Vec::new()))], Vec::new());
    let mut backend = CGenerator::new(&bad);
    assert!(matches!(backend.codegen(), Err(CodegenError::NotSnakeCase { .. })));
    assert_eq!(backend.output, "");
}

#[test]
fn string_metadata_is_escaped() {
    let uart = UARTConfig {
        tx_format: vec![PacketFormatElement::Metadata {
            segment: PacketSegment::Sized { name: "tag".to_string(), bits: 48, datatype: SizedDataType::StringUTF8, description: None },
            description: None,
        }],
        rx_format: Vec::new(),
    };
    let p = payload(Vec::new(), vec![("tag".to_string(), OneOrMany::One(LiteralValue::String("a\"b\\c".to_string())))]);
    let doc = document(Some(uart), Vec::new(), vec![("hello".to_string(), p)], Vec::new());
    let text = doc.generate().unwrap().0;
    assert!(text.contains("    char tag[6] = \"a\\\"b\\\\c\";\n    write(device, tag, 48);\n"));
}

#[test]
fn unsupported_rx_constructs_are_reported() {
    let uart = UARTConfig {
        tx_format: vec![PacketFormatElement::Payload],
        rx_format: vec![
            PacketFormatElement::Metadata {
                segment: PacketSegment::Sized { name: "tag".to_string(), bits: 16, datatype: SizedDataType::Raw, description: None },
                description: None,
            },
            PacketFormatElement::Payload,
        ],
    };
    let rx = payload(Vec::new(), vec![("tag".to_string(), OneOrMany::One(LiteralValue::Int(1)))]);
    let doc = document(Some(uart), Vec::new(), Vec::new(), vec![("answer".to_string(), rx)]);
    let errs = doc.generate().unwrap().1;
    assert_eq!(errs.len(), 1);
    assert!(matches!(&errs[0], CodegenError::Unimplemented { wanted_by_field, .. } if wanted_by_field == "tag"));

    let segs = vec![unsized_seg(
        "items",
        UnsizedDataType::Array { item_struct: "x".to_string() },
        Some(Terminator::Sequence { sequence: vec![0] }),
    )];
    assert_eq!(
        emit_reads("reply", &segs, "result->").unwrap(),
        "    { static const uint8_t terminator[] = {0}; result->items_length = 0; while (!read_sequence(device, terminator, sizeof terminator)) { read_x(device, &result->items[result->items_length]); result->items_length++; } }\n"
    );
}

#[test]
fn failed_payload_does_not_stop_the_others() {
    let uart = UARTConfig {
        tx_format: vec![
            PacketFormatElement::Metadata { segment: int_seg("packet_id", 8, Signing::Unsigned), description: None },
            PacketFormatElement::Payload,
        ],
        rx_format: vec![PacketFormatElement::Payload],
    };
    let lacking = payload(vec![int_seg("a", 8, Signing::Unsigned)], Vec::new());
    let fine = payload(vec![int_seg("b", 8, Signing::Unsigned)], vec![("packet_id".to_string(), OneOrMany::One(LiteralValue::Int(2)))]);
    let doc = document(Some(uart), Vec::new(), vec![("lacking".to_string(), lacking), ("fine".to_string(), fine)], Vec::new());
    let (text, errs) = doc.generate().unwrap();
    assert_eq!(errs.len(), 1);
    assert!(matches!(&errs[0], CodegenError::MissingMetadata { wanted_by_payload, wanted_by_field }
        if wanted_by_payload == "lacking" && wanted_by_field == "packet_id"));
    assert!(!text.contains("TXLacking"));
    assert!(text.contains("int TXFine(Device *device, uint8_t b) {\n    uint8_t packet_id = 2;\n    write(device, &packet_id, 8);\n    write(device, &b, 8);\n    return 0;\n}\n"));

    let mut backend = CGenerator::new(&doc);
    assert!(matches!(backend.codegen(), Err(CodegenError::MissingMetadata { .. })));
    assert_eq!(backend.output, text);
}

#[test]
fn rx_result_record_holds_array_pair() {
    let reading = ReusableStruct {
        name: "reading".to_string(),
        fields: vec![int_seg("value", 16, Signing::Unsigned)],
        description: None,
    };
    let segs = vec![
        int_seg("count", 8, Signing::Unsigned),
        unsized_seg("readings", UnsizedDataType::Array { item_struct: "reading".to_string() }, count_in_packet("count")),
    ];
    let doc = document(None, vec![("reading".to_string(), reading)], Vec::new(), vec![("crc16_report".to_string(), payload(segs, Vec::new()))]);
    let (text, errs) = doc.generate().unwrap();
    assert!(errs.is_empty());
    assert!(text.contains("typedef struct {\n    uint8_t count;\n    Reading *readings;\n    size_t readings_length;\n} RXCrc16ReportResult;\n"));
    assert!(text.contains("    result->readings_length = result->count;\n    for (size_t i = 0; i < result->readings_length; i++) { read_reading(device, &result->readings[i]); }\n"));
}
