//! The top-level code generator: a whole document to one C source file.

use vstd::prelude::*;
use crate::config::{
    find_key, literal_text, lookup, segment_name, Crc, LiteralValue, OneOrMany, OpenPID, PacketFormatElement, PacketSegment,
    Payload, ReusableStruct, SizedDataType, Terminator,
};
use crate::emit::{
    emit_reads, emit_writes, lemma_write_ops_shape, reads_text, terminator_text, write_ops, write_statements, write_text,
    writes_text,
};
use crate::error::{append_errors, error_models, push_error, CodegenError, ErrorModel};
use crate::validate::{concat_map, lemma_concat_map_all, lemma_concat_map_step, validation_errors};
use crate::naming::{pascal_case_of, to_pascal_case};
use crate::slots::{decl_text, declaration, slot_models, slots_spec, storage_slots, Slot, SlotModel};
use crate::text::{
    bytes_text, decimal, push_bytes, push_decimal,
};
use crate::slots::CTypeModel;
use crate::slots::CType;

verus! {

/// The slots of each segment of `segs`, in order, or the first error.
pub open spec fn segs_slots_upto(
    wanted_by: Seq<char>,
    segs: Seq<PacketSegment>,
    fixed_size_local: bool,
    skip_const: bool,
    i: nat,
) -> Result<Seq<SlotModel>, ErrorModel>
    decreases i,
{
    if i == 0 {
        Ok(seq![])
    } else {
        match segs_slots_upto(wanted_by, segs, fixed_size_local, skip_const, (i - 1) as nat) {
            Err(e) => Err(e),
            Ok(prev) => match slots_spec(wanted_by, segs[i - 1], fixed_size_local, skip_const) {
                Err(e) => Err(e),
                Ok(s) => Ok(prev + s),
            },
        }
    }
}

/// The slots of all of `segs`.
pub open spec fn segs_slots(wanted_by: Seq<char>, segs: Seq<PacketSegment>, fixed_size_local: bool, skip_const: bool) -> Result<
    Seq<SlotModel>,
    ErrorModel,
> {
    segs_slots_upto(wanted_by, segs, fixed_size_local, skip_const, segs.len())
}

proof fn lemma_slots_err_kept(
    wanted_by: Seq<char>,
    segs: Seq<PacketSegment>,
    fixed_size_local: bool,
    skip_const: bool,
    i: nat,
    n: nat,
)
    requires
        i <= n,
        segs_slots_upto(wanted_by, segs, fixed_size_local, skip_const, i) is Err,
    ensures
        segs_slots_upto(wanted_by, segs, fixed_size_local, skip_const, n) == segs_slots_upto(
            wanted_by,
            segs,
            fixed_size_local,
            skip_const,
            i,
        ),
    decreases n,
{
    if i < n {
        lemma_slots_err_kept(wanted_by, segs, fixed_size_local, skip_const, i, (n - 1) as nat);
    }
}

/// The slots of every segment of `segs`, in order.
pub fn all_slots(wanted_by: &str, segs: &Vec<PacketSegment>, fixed_size_local: bool, skip_const: bool) -> (r: Result<
    Vec<Slot>,
    CodegenError,
>)
    ensures
        match segs_slots(wanted_by@, segs@, fixed_size_local, skip_const) {
            Ok(s) => r matches Ok(v) && slot_models(v@) == s,
            Err(e) => r matches Err(x) && x@ == e,
        },
{
    let mut out: Vec<Slot> = Vec::new();
    let mut i: usize = 0;
    assert(slot_models(out@) =~= seq![]);
    while i < segs.len()
        invariant
            0 <= i <= segs@.len(),
            segs_slots_upto(wanted_by@, segs@, fixed_size_local, skip_const, i as nat) == Ok::<Seq<SlotModel>, ErrorModel>(
                slot_models(out@),
            ),
        decreases segs@.len() - i,
    {
        match storage_slots(wanted_by, &segs[i], fixed_size_local, skip_const) {
            Ok(mut s) => {
                let ghost before = out@;
                let ghost added = s@;
                out.append(&mut s);
                assert(slot_models(out@) =~= slot_models(before) + slot_models(added));
            },
            Err(e) => {
                proof { lemma_slots_err_kept(wanted_by@, segs@, fixed_size_local, skip_const, (i + 1) as nat, segs@.len()); }
                return Err(e);
            },
        }
        i = i + 1;
    }
    Ok(out)
}

/// Slots declared as fields, one per line.
pub open spec fn fields_text(slots: Seq<SlotModel>) -> Seq<char>
    decreases slots.len(),
{
    if slots.len() == 0 {
        seq![]
    } else {
        fields_text(slots.drop_last()) + "    "@ + decl_text(slots.last()) + ";\n"@
    }
}

/// Slots declared as parameters, each after `, `.
pub open spec fn params_text(slots: Seq<SlotModel>) -> Seq<char>
    decreases slots.len(),
{
    if slots.len() == 0 {
        seq![]
    } else {
        params_text(slots.drop_last()) + ", "@ + decl_text(slots.last())
    }
}

/// The field declarations of `slots`.
pub fn field_declarations(slots: &Vec<Slot>) -> (r: String)
    ensures
        r@ == fields_text(slot_models(slots@)),
{
    let mut r = String::new();
    let mut i: usize = 0;
    assert(slot_models(slots@).take(0) =~= seq![]);
    assert(r@ =~= fields_text(slot_models(slots@).take(0)));
    while i < slots.len()
        invariant
            0 <= i <= slots@.len(),
            r@ == fields_text(slot_models(slots@).take(i as int)),
        decreases slots@.len() - i,
    {
        assert(slot_models(slots@).take(i + 1).drop_last() =~= slot_models(slots@).take(i as int));
        r.append("    ");
        let d = declaration(&slots[i]);
        r.append(d.as_str());
        r.append(";\n");
        i = i + 1;
    }
    assert(slot_models(slots@).take(slots@.len() as int) =~= slot_models(slots@));
    r
}

/// The parameter declarations of `slots`.
pub fn parameter_declarations(slots: &Vec<Slot>) -> (r: String)
    ensures
        r@ == params_text(slot_models(slots@)),
{
    let mut r = String::new();
    let mut i: usize = 0;
    assert(slot_models(slots@).take(0) =~= seq![]);
    assert(r@ =~= params_text(slot_models(slots@).take(0)));
    while i < slots.len()
        invariant
            0 <= i <= slots@.len(),
            r@ == params_text(slot_models(slots@).take(i as int)),
        decreases slots@.len() - i,
    {
        assert(slot_models(slots@).take(i + 1).drop_last() =~= slot_models(slots@).take(i as int));
        r.append(", ");
        let d = declaration(&slots[i]);
        r.append(d.as_str());
        i = i + 1;
    }
    assert(slot_models(slots@).take(slots@.len() as int) =~= slot_models(slots@));
    r
}

/// The C type name of the struct keyed `key`.
pub open spec fn struct_type_name(key: Seq<char>) -> Seq<char> {
    pascal_case_of(key)
}

/// The forward declaration of a struct type.
pub open spec fn typedef_text(key: Seq<char>) -> Seq<char> {
    "typedef struct "@ + struct_type_name(key) + " "@ + struct_type_name(key) + ";\n"@
}

/// The prototypes of a struct's writer and reader.
pub open spec fn prototypes_text(key: Seq<char>) -> Seq<char> {
    "static int write_"@ + key + "(Device *device, "@ + struct_type_name(key) + " *value);\nstatic int read_"@ + key
        + "(Device *device, "@ + struct_type_name(key) + " *value);\n"@
}

/// A struct's definition and its writer and reader functions, or the first
/// error met in its fields.
pub open spec fn struct_part(key: Seq<char>, rs: ReusableStruct) -> Result<(Seq<char>, Seq<char>), ErrorModel> {
    match segs_slots(key, rs.fields@, true, true) {
        Err(e) => Err(e),
        Ok(slots) => match write_ops(key, rs.fields@) {
            Err(e) => Err(e),
            Ok(ops) => match reads_text(key, rs.fields@, "value->"@) {
                Err(e) => Err(e),
                Ok(reads) => Ok(
                    (
                        "\nstruct "@ + struct_type_name(key) + " {\n"@ + fields_text(slots) + "};\n"@,
                        "\nstatic int write_"@ + key + "(Device *device, "@ + struct_type_name(key) + " *value) {\n"@
                            + writes_text(rs.fields@, "value->"@, ops) + "    return 0;\n}\n\nstatic int read_"@ + key
                            + "(Device *device, "@ + struct_type_name(key) + " *value) {\n"@ + reads
                            + "    return 0;\n}\n"@,
                    ),
                ),
            },
        },
    }
}

fn typedef_line(key: &String) -> (r: String)
    ensures
        r@ == typedef_text(key@),
{
    let t = to_pascal_case(key.as_str());
    let mut r = String::from_str("typedef struct ");
    r.append(t.as_str());
    r.append(" ");
    r.append(t.as_str());
    r.append(";\n");
    r
}

fn prototypes(key: &String) -> (r: String)
    ensures
        r@ == prototypes_text(key@),
{
    let t = to_pascal_case(key.as_str());
    let mut r = String::from_str("static int write_");
    r.append(key.as_str());
    r.append("(Device *device, ");
    r.append(t.as_str());
    r.append(" *value);\nstatic int read_");
    r.append(key.as_str());
    r.append("(Device *device, ");
    r.append(t.as_str());
    r.append(" *value);\n");
    r
}

/// The definition and the writer and reader functions of struct `rs`, keyed `key`.
pub fn emit_struct(key: &String, rs: &ReusableStruct) -> (r: Result<(String, String), CodegenError>)
    ensures
        match struct_part(key@, *rs) {
            Ok(t) => r matches Ok(s) && s.0@ == t.0 && s.1@ == t.1,
            Err(e) => r matches Err(x) && x@ == e,
        },
{
    let slots = match all_slots(key.as_str(), &rs.fields, true, true) {
        Ok(s) => s,
        Err(e) => return Err(e),
    };
    let ops = match emit_writes(key.as_str(), &rs.fields) {
        Ok(o) => o,
        Err(e) => return Err(e),
    };
    let reads = match emit_reads(key.as_str(), &rs.fields, "value->") {
        Ok(t) => t,
        Err(e) => return Err(e),
    };
    proof { lemma_write_ops_shape(key@, rs.fields@, rs.fields@.len()); }
    let t = to_pascal_case(key.as_str());
    let mut def = String::from_str("\nstruct ");
    def.append(t.as_str());
    def.append(" {\n");
    let fields = field_declarations(&slots);
    def.append(fields.as_str());
    def.append("};\n");
    let mut funcs = String::from_str("\nstatic int write_");
    funcs.append(key.as_str());
    funcs.append("(Device *device, ");
    funcs.append(t.as_str());
    funcs.append(" *value) {\n");
    let writes = write_statements(&rs.fields, "value->", &ops);
    funcs.append(writes.as_str());
    funcs.append("    return 0;\n}\n\nstatic int read_");
    funcs.append(key.as_str());
    funcs.append("(Device *device, ");
    funcs.append(t.as_str());
    funcs.append(" *value) {\n");
    funcs.append(reads.as_str());
    funcs.append("    return 0;\n}\n");
    Ok((def, funcs))
}

/// Literals as a comma-separated list of C expressions.
pub open spec fn literals_text(ls: Seq<LiteralValue>) -> Seq<char>
    decreases ls.len(),
{
    if ls.len() == 0 {
        seq![]
    } else if ls.len() == 1 {
        literal_text(ls[0])
    } else {
        literals_text(ls.drop_last()) + ", "@ + literal_text(ls.last())
    }
}

fn literal_list(ls: &Vec<LiteralValue>) -> (r: String)
    ensures
        r@ == literals_text(ls@),
{
    let mut r = String::new();
    let mut i: usize = 0;
    assert(r@ =~= literals_text(ls@.take(0)));
    while i < ls.len()
        invariant
            0 <= i <= ls@.len(),
            r@ == literals_text(ls@.take(i as int)),
        decreases ls@.len() - i,
    {
        assert(ls@.take(i + 1).drop_last() =~= ls@.take(i as int));
        if i > 0 {
            r.append(", ");
        }
        let e = ls[i].to_string();
        r.append(e.as_str());
        if i == 0 {
            assert(r@ =~= literals_text(ls@.take(1)));
        }
        i = i + 1;
    }
    assert(ls@.take(ls@.len() as int) =~= ls@);
    r
}

/// The declaration of an array that holds a paired slot's elements.
pub open spec fn array_decl_text(s: SlotModel) -> Seq<char> {
    match s.ctype {
        CTypeModel::StructPtr(t) => pascal_case_of(t) + " "@ + s.name + "[]"@,
        _ => "uint8_t "@ + s.name + "[]"@,
    }
}

fn array_declaration(slot: &Slot) -> (r: String)
    ensures
        r@ == array_decl_text(slot@),
{
    let mut r = match &slot.ctype {
        CType::StructPtr(t) => {
            let mut r = to_pascal_case(t.as_str());
            r.append(" ");
            r
        },
        _ => String::from_str("uint8_t "),
    };
    r.append(slot.name.as_str());
    r.append("[]");
    r
}

/// The statements that write one segment on its own, outside any segment list.
pub open spec fn lone_write_text(wanted_by: Seq<char>, seg: PacketSegment) -> Result<Seq<char>, ErrorModel> {
    match seg {
        PacketSegment::Struct { name, .. } => Err(
            ErrorModel::Unimplemented { wanted_by_payload: wanted_by, wanted_by_field: name@ },
        ),
        PacketSegment::Unsized { name, termination: Some(Terminator::CountInPacket { field_name }), .. } => Err(
            ErrorModel::BadCountField { wanted_by_payload: wanted_by, wanted_by_field: name@, field_name: field_name@ },
        ),
        _ => Ok(write_text(seq![], seg) + terminator_text(seg)),
    }
}

/// A metadata segment of a TX format: its slots initialised from the payload's
/// literal, then written. One slot takes a single literal; a pair takes a list,
/// and its length slot is set to the list's length in bits.
pub open spec fn tx_metadata_text(wanted_by: Seq<char>, payload: Payload, seg: PacketSegment) -> Result<Seq<char>, ErrorModel> {
    let name = segment_name(seg);
    match find_key(payload.metadata@, name) {
        None => Err(ErrorModel::MissingMetadata { wanted_by_payload: wanted_by, wanted_by_field: name }),
        Some(m) => match slots_spec(wanted_by, seg, true, false) {
            Err(e) => Err(e),
            Ok(slots) => {
                let value = payload.metadata@[m].1;
                let init = if slots.len() == 1 && value is One {
                    Some("    "@ + decl_text(slots[0]) + " = "@ + literal_text(value->One_0) + ";\n"@)
                } else if slots.len() == 2 && value is Many {
                    Some(
                        "    "@ + array_decl_text(slots[0]) + " = {"@ + literals_text(value->Many_0@) + "};\n    size_t "@
                            + slots[1].name + " = "@ + decimal(8 * value->Many_0@.len()) + ";\n"@,
                    )
                } else {
                    None
                };
                match init {
                    None => Err(
                        ErrorModel::Arity { wanted_by_payload: wanted_by, wanted_by_field: name, slots: slots.len() },
                    ),
                    Some(t) => match lone_write_text(wanted_by, seg) {
                        Err(e) => Err(e),
                        Ok(w) => Ok(t + w),
                    },
                }
            },
        },
    }
}

fn lone_write(wanted_by: &str, seg: &PacketSegment) -> (r: Result<String, CodegenError>)
    ensures
        match lone_write_text(wanted_by@, *seg) {
            Ok(t) => r matches Ok(s) && s@ == t,
            Err(e) => r matches Err(x) && x@ == e,
        },
{
    match seg {
        PacketSegment::Struct { name, .. } => Err(
            CodegenError::Unimplemented { wanted_by_payload: String::from_str(wanted_by), wanted_by_field: name.clone() },
        ),
        PacketSegment::Unsized { name, termination: Some(Terminator::CountInPacket { field_name }), .. } => Err(
            CodegenError::BadCountField {
                wanted_by_payload: String::from_str(wanted_by),
                wanted_by_field: name.clone(),
                field_name: field_name.clone(),
            },
        ),
        _ => {
            let mut r = crate::emit::write_statement("", seg);
            proof { reveal_strlit(""); }
            assert(""@ =~= Seq::<char>::empty());
            let t = crate::emit::terminator_statement(seg);
            r.append(t.as_str());
            Ok(r)
        },
    }
}

/// The statements for a TX metadata segment.
pub fn tx_metadata(wanted_by: &str, payload: &Payload, seg: &PacketSegment) -> (r: Result<String, CodegenError>)
    ensures
        match tx_metadata_text(wanted_by@, *payload, *seg) {
            Ok(t) => r matches Ok(s) && s@ == t,
            Err(e) => r matches Err(x) && x@ == e,
        },
{
    let name = String::from_str(seg.get_name());
    let m = match lookup(&payload.metadata, &name) {
        None => {
            return Err(
                CodegenError::MissingMetadata { wanted_by_payload: String::from_str(wanted_by), wanted_by_field: name },
            );
        },
        Some(m) => m,
    };
    let slots = match storage_slots(wanted_by, seg, true, false) {
        Ok(s) => s,
        Err(e) => return Err(e),
    };
    let value = &payload.metadata[m].1;
    let init = match value {
        OneOrMany::One(lit) => {
            if slots.len() == 1 {
                let mut t = String::from_str("    ");
                let d = declaration(&slots[0]);
                t.append(d.as_str());
                t.append(" = ");
                let l = lit.to_string();
                t.append(l.as_str());
                t.append(";\n");
                Some(t)
            } else {
                None
            }
        },
        OneOrMany::Many(lits) => {
            if slots.len() == 2 {
                let mut t = String::from_str("    ");
                let d = array_declaration(&slots[0]);
                t.append(d.as_str());
                t.append(" = {");
                let l = literal_list(lits);
                t.append(l.as_str());
                t.append("};\n    size_t ");
                t.append(slots[1].name.as_str());
                t.append(" = ");
                push_decimal(&mut t, 8 * lits.len() as u128);
                t.append(";\n");
                Some(t)
            } else {
                None
            }
        },
    };
    match init {
        None => Err(
            CodegenError::Arity { wanted_by_payload: String::from_str(wanted_by), wanted_by_field: name, slots: slots.len() },
        ),
        Some(mut t) => match lone_write(wanted_by, seg) {
            Err(e) => Err(e),
            Ok(w) => {
                t.append(w.as_str());
                Ok(t)
            },
        },
    }
}

/// Width in bits of a CRC algorithm's value.
pub open spec fn crc_bits(c: Crc) -> nat {
    match c {
        Crc::Crc32 => 32,
        Crc::Crc16XModem => 16,
    }
}

/// A zero-filled field of `bits` bits, written where a value is not yet computed.
pub open spec fn placeholder_write_text(bits: nat) -> Seq<char> {
    "    { uint8_t placeholder[("@ + decimal(bits) + " + 7) / 8] = {0}; write(device, placeholder, "@ + decimal(bits)
        + "); }\n"@
}

/// A field of `bits` bits, read and discarded.
pub open spec fn skip_read_text(bits: nat) -> Seq<char> {
    "    { uint8_t skipped[("@ + decimal(bits) + " + 7) / 8]; read(device, skipped, "@ + decimal(bits) + "); }\n"@
}

/// The bit count of a constant element: as declared, else from its bytes.
pub open spec fn const_bits_text(bits: Option<usize>, array: Seq<char>) -> Seq<char> {
    match bits {
        Some(b) => decimal(b as nat),
        None => "sizeof "@ + array + " * 8"@,
    }
}

/// The statements for one element of a TX packet format.
pub open spec fn tx_element_text(wanted_by: Seq<char>, payload: Payload, el: PacketFormatElement) -> Result<
    Seq<char>,
    ErrorModel,
> {
    match el {
        PacketFormatElement::SizeTotal { size_bits, .. } => Ok(placeholder_write_text(size_bits as nat)),
        PacketFormatElement::SizeOfPayload { size_bits, .. } => Ok(placeholder_write_text(size_bits as nat)),
        PacketFormatElement::SizeOfElements { size_bits, .. } => Ok(placeholder_write_text(size_bits as nat)),
        PacketFormatElement::Crc { algorithm } => Ok(placeholder_write_text(crc_bits(algorithm))),
        PacketFormatElement::Payload => match write_ops(wanted_by, payload.segments@) {
            Err(e) => Err(e),
            Ok(ops) => Ok(writes_text(payload.segments@, seq![], ops)),
        },
        PacketFormatElement::Metadata { segment, .. } => tx_metadata_text(wanted_by, payload, segment),
        PacketFormatElement::Const { data, bits, .. } => Ok(
            "    { static const uint8_t constant[] = {"@ + bytes_text(data@) + "}; write(device, constant, "@
                + const_bits_text(bits, "constant"@) + "); }\n"@,
        ),
    }
}

/// A metadata segment of an RX format: read, then compared with the payload's
/// literal. Only integer segments with a single literal can be compared.
pub open spec fn rx_metadata_text(wanted_by: Seq<char>, payload: Payload, seg: PacketSegment) -> Result<Seq<char>, ErrorModel> {
    let name = segment_name(seg);
    match find_key(payload.metadata@, name) {
        None => Err(ErrorModel::MissingMetadata { wanted_by_payload: wanted_by, wanted_by_field: name }),
        Some(m) => match slots_spec(wanted_by, seg, true, false) {
            Err(e) => Err(e),
            Ok(slots) => {
                let value = payload.metadata@[m].1;
                if !((slots.len() == 1 && value is One) || (slots.len() == 2 && value is Many)) {
                    Err(ErrorModel::Arity { wanted_by_payload: wanted_by, wanted_by_field: name, slots: slots.len() })
                } else {
                    match seg {
                        PacketSegment::Sized { bits, datatype: SizedDataType::Integer { .. }, .. } => Ok(
                            "    { "@ + decl_text(slots[0]) + "; read(device, &"@ + name + ", "@ + decimal(bits as nat)
                                + "); if ("@ + name + " != "@ + literal_text(value->One_0) + ") return -1; }\n"@,
                        ),
                        _ => Err(ErrorModel::Unimplemented { wanted_by_payload: wanted_by, wanted_by_field: name }),
                    }
                }
            },
        },
    }
}

/// The statements for one element of an RX packet format.
pub open spec fn rx_element_text(wanted_by: Seq<char>, payload: Payload, el: PacketFormatElement) -> Result<
    Seq<char>,
    ErrorModel,
> {
    match el {
        PacketFormatElement::SizeTotal { size_bits, .. } => Ok(skip_read_text(size_bits as nat)),
        PacketFormatElement::SizeOfPayload { size_bits, .. } => Ok(skip_read_text(size_bits as nat)),
        PacketFormatElement::SizeOfElements { size_bits, .. } => Ok(skip_read_text(size_bits as nat)),
        PacketFormatElement::Crc { algorithm } => Ok(skip_read_text(crc_bits(algorithm))),
        PacketFormatElement::Payload => reads_text(wanted_by, payload.segments@, "result->"@),
        PacketFormatElement::Metadata { segment, .. } => rx_metadata_text(wanted_by, payload, segment),
        PacketFormatElement::Const { data, bits, .. } => Ok(
            "    { static const uint8_t expected[] = {"@ + bytes_text(data@) + "}; uint8_t actual[sizeof expected]; read(device, actual, "@
                + const_bits_text(bits, "expected"@) + "); if (memcmp(actual, expected, sizeof expected) != 0) return -1; }\n"@,
        ),
    }
}

fn placeholder_write(bits: u32) -> (r: String)
    ensures
        r@ == placeholder_write_text(bits as nat),
{
    let mut r = String::from_str("    { uint8_t placeholder[(");
    push_decimal(&mut r, bits as u128);
    r.append(" + 7) / 8] = {0}; write(device, placeholder, ");
    push_decimal(&mut r, bits as u128);
    r.append("); }\n");
    r
}

fn skip_read(bits: u32) -> (r: String)
    ensures
        r@ == skip_read_text(bits as nat),
{
    let mut r = String::from_str("    { uint8_t skipped[(");
    push_decimal(&mut r, bits as u128);
    r.append(" + 7) / 8]; read(device, skipped, ");
    push_decimal(&mut r, bits as u128);
    r.append("); }\n");
    r
}

fn crc_width(c: Crc) -> (r: u32)
    ensures
        r as nat == crc_bits(c),
{
    match c {
        Crc::Crc32 => 32,
        Crc::Crc16XModem => 16,
    }
}

fn push_const_bits(out: &mut String, bits: &Option<usize>, array: &str)
    ensures
        final(out)@ == old(out)@ + const_bits_text(*bits, array@),
{
    match bits {
        Some(b) => push_decimal(out, *b as u128),
        None => {
            let ghost start = out@;
            out.append("sizeof ");
            out.append(array);
            out.append(" * 8");
            assert(out@ =~= start + const_bits_text(*bits, array@));
        },
    }
}

/// The statements for one element of a TX format.
pub fn tx_element(wanted_by: &str, payload: &Payload, el: &PacketFormatElement) -> (r: Result<String, CodegenError>)
    ensures
        match tx_element_text(wanted_by@, *payload, *el) {
            Ok(t) => r matches Ok(s) && s@ == t,
            Err(e) => r matches Err(x) && x@ == e,
        },
{
    match el {
        PacketFormatElement::SizeTotal { size_bits, .. } => Ok(placeholder_write(*size_bits)),
        PacketFormatElement::SizeOfPayload { size_bits, .. } => Ok(placeholder_write(*size_bits)),
        PacketFormatElement::SizeOfElements { size_bits, .. } => Ok(placeholder_write(*size_bits)),
        PacketFormatElement::Crc { algorithm } => Ok(placeholder_write(crc_width(*algorithm))),
        PacketFormatElement::Payload => match emit_writes(wanted_by, &payload.segments) {
            Err(e) => Err(e),
            Ok(ops) => {
                proof {
                    lemma_write_ops_shape(wanted_by@, payload.segments@, payload.segments@.len());
                    reveal_strlit("");
                }
                let r = write_statements(&payload.segments, "", &ops);
                assert(""@ =~= Seq::<char>::empty());
                Ok(r)
            },
        },
        PacketFormatElement::Metadata { segment, .. } => tx_metadata(wanted_by, payload, segment),
        PacketFormatElement::Const { data, bits, .. } => {
            let mut r = String::from_str("    { static const uint8_t constant[] = {");
            push_bytes(&mut r, data);
            r.append("}; write(device, constant, ");
            push_const_bits(&mut r, bits, "constant");
            r.append("); }\n");
            Ok(r)
        },
    }
}

/// The statements for an RX metadata segment.
pub fn rx_metadata(wanted_by: &str, payload: &Payload, seg: &PacketSegment) -> (r: Result<String, CodegenError>)
    ensures
        match rx_metadata_text(wanted_by@, *payload, *seg) {
            Ok(t) => r matches Ok(s) && s@ == t,
            Err(e) => r matches Err(x) && x@ == e,
        },
{
    let name = String::from_str(seg.get_name());
    let m = match lookup(&payload.metadata, &name) {
        None => {
            return Err(
                CodegenError::MissingMetadata { wanted_by_payload: String::from_str(wanted_by), wanted_by_field: name },
            );
        },
        Some(m) => m,
    };
    let slots = match storage_slots(wanted_by, seg, true, false) {
        Ok(s) => s,
        Err(e) => return Err(e),
    };
    let value = &payload.metadata[m].1;
    let fits = match value {
        OneOrMany::One(_) => slots.len() == 1,
        OneOrMany::Many(_) => slots.len() == 2,
    };
    if !fits {
        return Err(
            CodegenError::Arity { wanted_by_payload: String::from_str(wanted_by), wanted_by_field: name, slots: slots.len() },
        );
    }
    match (seg, value) {
        (PacketSegment::Sized { bits, datatype: SizedDataType::Integer { .. }, .. }, OneOrMany::One(lit)) => {
            let mut r = String::from_str("    { ");
            let d = declaration(&slots[0]);
            r.append(d.as_str());
            r.append("; read(device, &");
            r.append(name.as_str());
            r.append(", ");
            push_decimal(&mut r, *bits as u128);
            r.append("); if (");
            r.append(name.as_str());
            r.append(" != ");
            let l = lit.to_string();
            r.append(l.as_str());
            r.append(") return -1; }\n");
            Ok(r)
        },
        _ => Err(CodegenError::Unimplemented { wanted_by_payload: String::from_str(wanted_by), wanted_by_field: name }),
    }
}

/// The statements for one element of an RX format.
pub fn rx_element(wanted_by: &str, payload: &Payload, el: &PacketFormatElement) -> (r: Result<String, CodegenError>)
    ensures
        match rx_element_text(wanted_by@, *payload, *el) {
            Ok(t) => r matches Ok(s) && s@ == t,
            Err(e) => r matches Err(x) && x@ == e,
        },
{
    match el {
        PacketFormatElement::SizeTotal { size_bits, .. } => Ok(skip_read(*size_bits)),
        PacketFormatElement::SizeOfPayload { size_bits, .. } => Ok(skip_read(*size_bits)),
        PacketFormatElement::SizeOfElements { size_bits, .. } => Ok(skip_read(*size_bits)),
        PacketFormatElement::Crc { algorithm } => Ok(skip_read(crc_width(*algorithm))),
        PacketFormatElement::Payload => emit_reads(wanted_by, &payload.segments, "result->"),
        PacketFormatElement::Metadata { segment, .. } => rx_metadata(wanted_by, payload, segment),
        PacketFormatElement::Const { data, bits, .. } => {
            let mut r = String::from_str("    { static const uint8_t expected[] = {");
            push_bytes(&mut r, data);
            r.append("}; uint8_t actual[sizeof expected]; read(device, actual, ");
            push_const_bits(&mut r, bits, "expected");
            r.append("); if (memcmp(actual, expected, sizeof expected) != 0) return -1; }\n");
            Ok(r)
        },
    }
}

/// The packet format around payloads of one direction; without a UART
/// configuration a packet is its payload alone.
pub open spec fn format_of(doc: OpenPID, tx: bool) -> Seq<PacketFormatElement> {
    match doc.uart {
        Some(u) => if tx { u.tx_format@ } else { u.rx_format@ },
        None => seq![PacketFormatElement::Payload],
    }
}

/// The statements for the first `i` elements of `fmt`, or the first error.
pub open spec fn body_upto(wanted_by: Seq<char>, payload: Payload, fmt: Seq<PacketFormatElement>, tx: bool, i: nat) -> Result<
    Seq<char>,
    ErrorModel,
>
    decreases i,
{
    if i == 0 {
        Ok(seq![])
    } else {
        match body_upto(wanted_by, payload, fmt, tx, (i - 1) as nat) {
            Err(e) => Err(e),
            Ok(prev) => match (if tx {
                tx_element_text(wanted_by, payload, fmt[i - 1])
            } else {
                rx_element_text(wanted_by, payload, fmt[i - 1])
            }) {
                Err(e) => Err(e),
                Ok(t) => Ok(prev + t),
            },
        }
    }
}

proof fn lemma_body_err_kept(wanted_by: Seq<char>, payload: Payload, fmt: Seq<PacketFormatElement>, tx: bool, i: nat, n: nat)
    requires
        i <= n,
        body_upto(wanted_by, payload, fmt, tx, i) is Err,
    ensures
        body_upto(wanted_by, payload, fmt, tx, n) == body_upto(wanted_by, payload, fmt, tx, i),
    decreases n,
{
    if i < n {
        lemma_body_err_kept(wanted_by, payload, fmt, tx, i, (n - 1) as nat);
    }
}

/// The function for a TX payload (`tx`) or the result type and function for
/// an RX payload, or the first error met in it.
pub open spec fn payload_part(doc: OpenPID, tx: bool, e: (String, Payload)) -> Result<Seq<char>, ErrorModel> {
    let key = e.0@;
    let fmt = format_of(doc, tx);
    match segs_slots(key, e.1.segments@, !tx, true) {
        Err(x) => Err(x),
        Ok(slots) => match body_upto(key, e.1, fmt, tx, fmt.len()) {
            Err(x) => Err(x),
            Ok(b) => Ok(
                if tx {
                    "\nint TX"@ + pascal_case_of(key) + "(Device *device"@ + params_text(slots) + ") {\n"@ + b
                        + "    return 0;\n}\n"@
                } else {
                    "\ntypedef struct {\n"@ + fields_text(slots) + "} RX"@ + pascal_case_of(key) + "Result;\n\nint RX"@
                        + pascal_case_of(key) + "(Device *device, RX"@ + pascal_case_of(key) + "Result *result) {\n"@ + b
                        + "    return 0;\n}\n"@
                },
            ),
        },
    }
}

pub open spec fn payload_ok(doc: OpenPID, tx: bool) -> spec_fn((String, Payload)) -> Seq<char> {
    |e: (String, Payload)|
        match payload_part(doc, tx, e) {
            Ok(t) => t,
            Err(_) => seq![],
        }
}

pub open spec fn payload_err(doc: OpenPID, tx: bool) -> spec_fn((String, Payload)) -> Seq<ErrorModel> {
    |e: (String, Payload)|
        match payload_part(doc, tx, e) {
            Ok(_) => seq![],
            Err(x) => seq![x],
        }
}

pub open spec fn struct_typedef() -> spec_fn((String, ReusableStruct)) -> Seq<char> {
    |e: (String, ReusableStruct)| typedef_text(e.0@)
}

pub open spec fn struct_prototypes() -> spec_fn((String, ReusableStruct)) -> Seq<char> {
    |e: (String, ReusableStruct)| prototypes_text(e.0@)
}

pub open spec fn struct_definition() -> spec_fn((String, ReusableStruct)) -> Seq<char> {
    |e: (String, ReusableStruct)|
        match struct_part(e.0@, e.1) {
            Ok(t) => t.0,
            Err(_) => seq![],
        }
}

pub open spec fn struct_functions() -> spec_fn((String, ReusableStruct)) -> Seq<char> {
    |e: (String, ReusableStruct)|
        match struct_part(e.0@, e.1) {
            Ok(t) => t.1,
            Err(_) => seq![],
        }
}

pub open spec fn struct_err() -> spec_fn((String, ReusableStruct)) -> Seq<ErrorModel> {
    |e: (String, ReusableStruct)|
        match struct_part(e.0@, e.1) {
            Ok(_) => seq![],
            Err(x) => seq![x],
        }
}

/// The opening of the generated file: includes and the transport it relies on.
pub open spec fn header_text(doc: OpenPID) -> Seq<char> {
    "/* Device interface for "@ + doc.device_info.name@
        + " */\n#include <stddef.h>\n#include <stdint.h>\n#include <string.h>\n\ntypedef struct Device Device;\nint write(Device *device, const void *bytes, size_t length_bits);\nint read(Device *device, void *bytes, size_t max_length_bits);\nint read_until(Device *device, void *bytes, size_t *length_bits, const uint8_t *pattern, size_t pattern_length);\nint read_sequence(Device *device, const uint8_t *pattern, size_t pattern_length);\n\n"@
}

/// The source text generated for a document.
pub open spec fn generated_text(doc: OpenPID) -> Seq<char> {
    header_text(doc) + concat_map(doc.structs@, struct_typedef()) + concat_map(doc.structs@, struct_definition()) + "\n"@
        + concat_map(doc.structs@, struct_prototypes()) + concat_map(doc.structs@, struct_functions()) + concat_map(
        doc.payloads.tx@,
        payload_ok(doc, true),
    ) + concat_map(doc.payloads.rx@, payload_ok(doc, false))
}

/// Every generation error: one for each struct, then each TX and each RX
/// payload, that cannot be generated.
pub open spec fn generation_errors(doc: OpenPID) -> Seq<ErrorModel> {
    concat_map(doc.structs@, struct_err()) + concat_map(doc.payloads.tx@, payload_err(doc, true)) + concat_map(
        doc.payloads.rx@,
        payload_err(doc, false),
    )
}

/// What `generate` produces for a document: its violations if it is invalid,
/// else the source text together with the generation errors. A struct or
/// payload that cannot be generated contributes an error and no text; the
/// rest of the document is generated regardless.
pub open spec fn generation_result(doc: OpenPID) -> Result<(Seq<char>, Seq<ErrorModel>), Seq<ErrorModel>> {
    if validation_errors(doc).len() > 0 {
        Err(validation_errors(doc))
    } else {
        Ok((generated_text(doc), generation_errors(doc)))
    }
}

fn payload_format() -> (r: Vec<PacketFormatElement>)
    ensures
        r@ == seq![PacketFormatElement::Payload],
{
    let mut r: Vec<PacketFormatElement> = Vec::new();
    r.push(PacketFormatElement::Payload);
    assert(r@ =~= seq![PacketFormatElement::Payload]);
    r
}

impl OpenPID {
    fn emit_body(&self, wanted_by: &str, payload: &Payload, fmt: &Vec<PacketFormatElement>, tx: bool) -> (r: Result<
        String,
        CodegenError,
    >)
        ensures
            match body_upto(wanted_by@, *payload, fmt@, tx, fmt@.len()) {
                Ok(t) => r matches Ok(s) && s@ == t,
                Err(e) => r matches Err(x) && x@ == e,
            },
    {
        let mut out = String::new();
        let mut i: usize = 0;
        assert(out@ =~= seq![]);
        while i < fmt.len()
            invariant
                0 <= i <= fmt@.len(),
                body_upto(wanted_by@, *payload, fmt@, tx, i as nat) == Ok::<Seq<char>, ErrorModel>(out@),
            decreases fmt@.len() - i,
        {
            let piece = if tx {
                tx_element(wanted_by, payload, &fmt[i])
            } else {
                rx_element(wanted_by, payload, &fmt[i])
            };
            match piece {
                Ok(t) => out.append(t.as_str()),
                Err(e) => {
                    proof { lemma_body_err_kept(wanted_by@, *payload, fmt@, tx, (i + 1) as nat, fmt@.len()); }
                    return Err(e);
                },
            }
            i = i + 1;
        }
        Ok(out)
    }

    /// The code for one payload: a TX function, or an RX result type and function.
    pub fn emit_payload(&self, tx: bool, key: &String, payload: &Payload) -> (r: Result<String, CodegenError>)
        ensures
            match payload_part(*self, tx, (*key, *payload)) {
                Ok(t) => r matches Ok(s) && s@ == t,
                Err(e) => r matches Err(x) && x@ == e,
            },
    {
        let slots = match all_slots(key.as_str(), &payload.segments, !tx, true) {
            Ok(s) => s,
            Err(e) => return Err(e),
        };
        let default_format = payload_format();
        let fmt = match &self.uart {
            Some(u) => if tx {
                &u.tx_format
            } else {
                &u.rx_format
            },
            None => &default_format,
        };
        let body = match self.emit_body(key.as_str(), payload, fmt, tx) {
            Ok(b) => b,
            Err(e) => return Err(e),
        };
        let t = to_pascal_case(key.as_str());
        if tx {
            let mut r = String::from_str("\nint TX");
            r.append(t.as_str());
            r.append("(Device *device");
            let params = parameter_declarations(&slots);
            r.append(params.as_str());
            r.append(") {\n");
            r.append(body.as_str());
            r.append("    return 0;\n}\n");
            Ok(r)
        } else {
            let mut r = String::from_str("\ntypedef struct {\n");
            let fields = field_declarations(&slots);
            r.append(fields.as_str());
            r.append("} RX");
            r.append(t.as_str());
            r.append("Result;\n\nint RX");
            r.append(t.as_str());
            r.append("(Device *device, RX");
            r.append(t.as_str());
            r.append("Result *result) {\n");
            r.append(body.as_str());
            r.append("    return 0;\n}\n");
            Ok(r)
        }
    }

    fn emit_payloads(&self, tx: bool) -> (r: (String, Vec<CodegenError>))
        ensures
            r.0@ == concat_map(if tx { self.payloads.tx@ } else { self.payloads.rx@ }, payload_ok(*self, tx)),
            error_models(r.1@) == concat_map(if tx { self.payloads.tx@ } else { self.payloads.rx@ }, payload_err(*self, tx)),
    {
        let entries = if tx {
            &self.payloads.tx
        } else {
            &self.payloads.rx
        };
        let mut text = String::new();
        let mut errs: Vec<CodegenError> = Vec::new();
        let mut i: usize = 0;
        assert(text@ =~= concat_map(entries@.take(0), payload_ok(*self, tx)));
        assert(error_models(errs@) =~= concat_map(entries@.take(0), payload_err(*self, tx)));
        while i < entries.len()
            invariant
                0 <= i <= entries@.len(),
                entries@ == (if tx { self.payloads.tx@ } else { self.payloads.rx@ }),
                text@ == concat_map(entries@.take(i as int), payload_ok(*self, tx)),
                error_models(errs@) == concat_map(entries@.take(i as int), payload_err(*self, tx)),
            decreases entries@.len() - i,
        {
            proof {
                lemma_concat_map_step(entries@, payload_ok(*self, tx), i as int);
                lemma_concat_map_step(entries@, payload_err(*self, tx), i as int);
            }
            let ghost t0 = text@;
            let ghost e0 = error_models(errs@);
            match self.emit_payload(tx, &entries[i].0, &entries[i].1) {
                Ok(t) => {
                    text.append(t.as_str());
                    assert(error_models(errs@) =~= e0 + seq![]);
                },
                Err(e) => {
                    push_error(&mut errs, e);
                    assert(text@ =~= t0 + seq![]);
                },
            }
            i = i + 1;
        }
        proof {
            lemma_concat_map_all(entries@, payload_ok(*self, tx));
            lemma_concat_map_all(entries@, payload_err(*self, tx));
        }
        (text, errs)
    }

    fn emit_structs(&self) -> (r: (String, String, String, String, Vec<CodegenError>))
        ensures
            r.0@ == concat_map(self.structs@, struct_typedef()),
            r.1@ == concat_map(self.structs@, struct_definition()),
            r.2@ == concat_map(self.structs@, struct_prototypes()),
            r.3@ == concat_map(self.structs@, struct_functions()),
            error_models(r.4@) == concat_map(self.structs@, struct_err()),
    {
        let entries = &self.structs;
        let mut typedefs = String::new();
        let mut defs = String::new();
        let mut protos = String::new();
        let mut funcs = String::new();
        let mut errs: Vec<CodegenError> = Vec::new();
        let mut i: usize = 0;
        assert(typedefs@ =~= concat_map(entries@.take(0), struct_typedef()));
        assert(defs@ =~= concat_map(entries@.take(0), struct_definition()));
        assert(protos@ =~= concat_map(entries@.take(0), struct_prototypes()));
        assert(funcs@ =~= concat_map(entries@.take(0), struct_functions()));
        assert(error_models(errs@) =~= concat_map(entries@.take(0), struct_err()));
        while i < entries.len()
            invariant
                0 <= i <= entries@.len(),
                entries@ == self.structs@,
                typedefs@ == concat_map(entries@.take(i as int), struct_typedef()),
                defs@ == concat_map(entries@.take(i as int), struct_definition()),
                protos@ == concat_map(entries@.take(i as int), struct_prototypes()),
                funcs@ == concat_map(entries@.take(i as int), struct_functions()),
                error_models(errs@) == concat_map(entries@.take(i as int), struct_err()),
            decreases entries@.len() - i,
        {
            proof {
                lemma_concat_map_step(entries@, struct_typedef(), i as int);
                lemma_concat_map_step(entries@, struct_definition(), i as int);
                lemma_concat_map_step(entries@, struct_prototypes(), i as int);
                lemma_concat_map_step(entries@, struct_functions(), i as int);
                lemma_concat_map_step(entries@, struct_err(), i as int);
            }
            let key = &entries[i].0;
            let t = typedef_line(key);
            typedefs.append(t.as_str());
            let p = prototypes(key);
            protos.append(p.as_str());
            let ghost d0 = defs@;
            let ghost f0 = funcs@;
            let ghost e0 = error_models(errs@);
            match emit_struct(key, &entries[i].1) {
                Ok((d, f)) => {
                    defs.append(d.as_str());
                    funcs.append(f.as_str());
                    assert(error_models(errs@) =~= e0 + seq![]);
                },
                Err(e) => {
                    push_error(&mut errs, e);
                    assert(defs@ =~= d0 + seq![]);
                    assert(funcs@ =~= f0 + seq![]);
                },
            }
            i = i + 1;
        }
        proof {
            lemma_concat_map_all(entries@, struct_typedef());
            lemma_concat_map_all(entries@, struct_definition());
            lemma_concat_map_all(entries@, struct_prototypes());
            lemma_concat_map_all(entries@, struct_functions());
            lemma_concat_map_all(entries@, struct_err());
        }
        (typedefs, defs, protos, funcs, errs)
    }

    /// Validates the document, then generates its C source: a record per
    /// struct, a function per TX payload, and a result record and function per
    /// RX payload. Fails with every violation of an invalid document. On a
    /// valid one, returns the source together with one error for each struct
    /// or payload that could not be generated and was left out of it.
    pub fn generate(&self) -> (r: Result<(String, Vec<CodegenError>), Vec<CodegenError>>)
        ensures
            match generation_result(*self) {
                Ok((t, es)) => r matches Ok((s, v)) && s@ == t && error_models(v@) == es,
                Err(es) => r matches Err(v) && error_models(v@) == es,
            },
    {
        match self.validate() {
            Err(e) => return Err(e),
            Ok(()) => {},
        }
        let (typedefs, defs, protos, funcs, mut errs) = self.emit_structs();
        let (tx_text, tx_errs) = self.emit_payloads(true);
        let (rx_text, rx_errs) = self.emit_payloads(false);
        append_errors(&mut errs, tx_errs);
        append_errors(&mut errs, rx_errs);
        let mut out = String::from_str("/* Device interface for ");
        out.append(self.device_info.name.as_str());
        out.append(
            " */\n#include <stddef.h>\n#include <stdint.h>\n#include <string.h>\n\ntypedef struct Device Device;\nint write(Device *device, const void *bytes, size_t length_bits);\nint read(Device *device, void *bytes, size_t max_length_bits);\nint read_until(Device *device, void *bytes, size_t *length_bits, const uint8_t *pattern, size_t pattern_length);\nint read_sequence(Device *device, const uint8_t *pattern, size_t pattern_length);\n\n",
        );
        out.append(typedefs.as_str());
        out.append(defs.as_str());
        out.append("\n");
        out.append(protos.as_str());
        out.append(funcs.as_str());
        out.append(tx_text.as_str());
        out.append(rx_text.as_str());
        Ok((out, errs))
    }
}

/// Two generations of the same document give the same result, byte for byte.
pub proof fn lemma_generation_deterministic(a: OpenPID, b: OpenPID)
    requires
        a == b,
    ensures
        generation_result(a) == generation_result(b),
{
}

/// The C backend: generates one source file for a document into `output`.
pub struct CGenerator<'a> {
    pub pid: &'a OpenPID,
    pub output: String,
}

impl<'a> CGenerator<'a> {
    pub fn new(pid: &'a OpenPID) -> (r: Self)
        ensures
            r.pid == pid,
            r.output@ == Seq::<char>::empty(),
    {
        CGenerator { pid, output: String::new() }
    }
}

impl<'a> crate::Codegen for CGenerator<'a> {
    /// For a valid document `output` receives the generated source, also when
    /// some structs or payloads could not be generated; the first of their
    /// errors is returned (`OpenPID::generate` gives all of them). For an
    /// invalid document the first violation is returned and `output` is left
    /// as it was.
    fn codegen(&mut self) -> (r: Result<(), CodegenError>)
        ensures
            final(self).pid == old(self).pid,
            match generation_result(*old(self).pid) {
                Ok((t, es)) => final(self).output@ == t && if es.len() == 0 {
                    r is Ok
                } else {
                    r matches Err(e) && e@ == es[0]
                },
                Err(es) => r matches Err(e) && e@ == es[0] && final(self).output@ == old(self).output@,
            },
    {
        match self.pid.generate() {
            Ok((text, mut errs)) => {
                self.output = text;
                if errs.len() == 0 {
                    Ok(())
                } else {
                    assert(error_models(errs@).len() == errs@.len());
                    let e = errs.remove(0);
                    Err(e)
                }
            },
            Err(mut errs) => {
                assert(errs@.len() > 0) by {
                    assert(error_models(errs@).len() == errs@.len());
                }
                let e = errs.remove(0);
                Err(e)
            },
        }
    }
}

/// A struct and an array of it use one layout: the array segment's pointer
/// slot has the C type that the struct's forward declaration and definition
/// name, its count slot is `<name>_length`, and its elements are written and
/// read by the functions the struct's own code defines.
pub proof fn lemma_array_matches_struct(
    doc: OpenPID,
    wanted_by: Seq<char>,
    prefix: Seq<char>,
    seg: PacketSegment,
    fixed_size_local: bool,
    skip_const: bool,
    j: int,
)
    requires
        seg matches PacketSegment::Unsized { datatype: crate::config::UnsizedDataType::Array { item_struct }, .. }
            && find_key(doc.structs@, item_struct@) == Some(j),
    ensures
        ({
            let key = doc.structs@[j].0@;
            let name = segment_name(seg);
            let slots = slots_spec(wanted_by, seg, fixed_size_local, skip_const)->Ok_0;
            &&& slots_spec(wanted_by, seg, fixed_size_local, skip_const) is Ok
            &&& slots.len() == 2
            &&& decl_text(slots[0]) == struct_type_name(key) + " *"@ + name
            &&& decl_text(slots[1]) == "size_t "@ + name + "_length"@
            &&& typedef_text(key) == "typedef struct "@ + struct_type_name(key) + " "@ + struct_type_name(key) + ";\n"@
            &&& struct_part(key, doc.structs@[j].1) matches Ok(t) ==> t.0 == "\nstruct "@ + struct_type_name(key)
                + " {\n"@ + fields_text(segs_slots(key, doc.structs@[j].1.fields@, true, true)->Ok_0) + "};\n"@
            &&& write_text(prefix, seg) == "    for (size_t i = 0; i < "@ + prefix + name + "_length; i++) { write_"@
                + key + "(device, &"@ + prefix + name + "[i]); }\n"@
            &&& prototypes_text(key) == "static int write_"@ + key + "(Device *device, "@ + struct_type_name(key)
                + " *value);\nstatic int read_"@ + key + "(Device *device, "@ + struct_type_name(key) + " *value);\n"@
        }),
{
    crate::config::lemma_find_from_bounds(doc.structs@, seg->Unsized_datatype->Array_item_struct@, 0);
}

/// A metadata segment that needs a length-paired slot: a single literal fails
/// with an arity error; a list of literals succeeds, and the output first
/// declares the elements and sets the length slot to their count in bits,
/// and only then writes the data.
pub proof fn lemma_metadata_arity(wanted_by: Seq<char>, payload: Payload, seg: PacketSegment)
    requires
        find_key(payload.metadata@, segment_name(seg)) is Some,
        slots_spec(wanted_by, seg, true, false) matches Ok(s) && s.len() == 2,
    ensures
        ({
            let name = segment_name(seg);
            let value = payload.metadata@[find_key(payload.metadata@, name)->Some_0].1;
            let slots = slots_spec(wanted_by, seg, true, false)->Ok_0;
            &&& value is One ==> tx_metadata_text(wanted_by, payload, seg) == Err::<Seq<char>, ErrorModel>(
                ErrorModel::Arity { wanted_by_payload: wanted_by, wanted_by_field: name, slots: 2 },
            )
            &&& value is Many && lone_write_text(wanted_by, seg) is Ok ==> tx_metadata_text(wanted_by, payload, seg)
                == Ok::<Seq<char>, ErrorModel>(
                "    "@ + array_decl_text(slots[0]) + " = {"@ + literals_text(value->Many_0@) + "};\n    size_t "@
                    + crate::slots::length_name(name) + " = "@ + decimal(8 * value->Many_0@.len()) + ";\n"@
                    + lone_write_text(wanted_by, seg)->Ok_0,
            )
        }),
{
    crate::slots::lemma_slots_shape(wanted_by, seg, true, false);
}

proof fn lemma_slots_prefix(wanted_by: Seq<char>, segs: Seq<PacketSegment>, fsl: bool, skip: bool, m: nat, n: nat)
    requires
        m <= n,
        segs_slots_upto(wanted_by, segs, fsl, skip, n) is Ok,
    ensures
        segs_slots_upto(wanted_by, segs, fsl, skip, m) is Ok,
        segs_slots_upto(wanted_by, segs, fsl, skip, m)->Ok_0.len() <= segs_slots_upto(wanted_by, segs, fsl, skip, n)->Ok_0.len(),
        segs_slots_upto(wanted_by, segs, fsl, skip, n)->Ok_0.take(
            segs_slots_upto(wanted_by, segs, fsl, skip, m)->Ok_0.len() as int,
        ) == segs_slots_upto(wanted_by, segs, fsl, skip, m)->Ok_0,
    decreases n,
{
    if m < n {
        lemma_slots_prefix(wanted_by, segs, fsl, skip, m, (n - 1) as nat);
        let a = segs_slots_upto(wanted_by, segs, fsl, skip, m)->Ok_0;
        let b = segs_slots_upto(wanted_by, segs, fsl, skip, (n - 1) as nat)->Ok_0;
        let c = segs_slots_upto(wanted_by, segs, fsl, skip, n)->Ok_0;
        assert(c.take(b.len() as int) =~= b);
        assert(c.take(a.len() as int) =~= b.take(a.len() as int));
    } else {
        let c = segs_slots_upto(wanted_by, segs, fsl, skip, n)->Ok_0;
        assert(c.take(c.len() as int) =~= c);
    }
}

proof fn lemma_params_text_concat(a: Seq<SlotModel>, b: Seq<SlotModel>)
    ensures
        params_text(a + b) == params_text(a) + params_text(b),
    decreases b.len(),
{
    if b.len() == 0 {
        assert(a + b =~= a);
        assert(params_text(a) + params_text(b) =~= params_text(a));
    } else {
        lemma_params_text_concat(a, b.drop_last());
        assert((a + b).drop_last() =~= a + b.drop_last());
        assert((a + b).last() == b.last());
        assert(params_text(a + b) =~= params_text(a) + params_text(b));
    }
}

proof fn lemma_pair_params(pair: Seq<SlotModel>, item: Seq<char>, name: Seq<char>)
    requires
        pair == seq![
            SlotModel { ctype: CTypeModel::StructPtr(item), name },
            SlotModel { ctype: CTypeModel::Length, name: name + "_length"@ },
        ],
    ensures
        params_text(pair) == ", "@ + pascal_case_of(item) + " *"@ + name + ", "@ + "size_t "@ + name + "_length"@,
{
    let first = pair.drop_last();
    assert(first =~= seq![pair[0]]);
    assert(first.drop_last() =~= Seq::<SlotModel>::empty());
    assert(params_text(first.drop_last()) == Seq::<char>::empty());
    assert(first.last() == pair[0]);
    assert(params_text(first) =~= ", "@ + pascal_case_of(item) + " *"@ + name);
    assert(params_text(pair) == params_text(first) + ", "@ + decl_text(pair[1]));
    assert(decl_text(pair[1]) == "size_t "@ + (name + "_length"@));
    assert(params_text(pair) =~= ", "@ + pascal_case_of(item) + " *"@ + name + ", "@ + "size_t "@ + name + "_length"@);
}

/// An array segment of a payload or struct gets two adjacent slots among all
/// the slots of its segment list: a pointer to the struct's C type named after
/// the segment, then `<name>_length`. So a TX parameter list reads
/// `..., Reading *readings, size_t readings_length, ...`.
#[verifier::rlimit(40)]
pub proof fn lemma_array_slots_adjacent(wanted_by: Seq<char>, segs: Seq<PacketSegment>, fsl: bool, skip: bool, k: int)
    requires
        0 <= k < segs.len(),
        segs_slots(wanted_by, segs, fsl, skip) is Ok,
        segs[k] matches PacketSegment::Unsized { datatype: crate::config::UnsizedDataType::Array { .. }, .. },
    ensures
        ({
            let all = segs_slots(wanted_by, segs, fsl, skip)->Ok_0;
            let name = segment_name(segs[k]);
            let item = segs[k]->Unsized_datatype->Array_item_struct@;
            &&& exists|o: int|
                0 <= o && o + 1 < all.len() && #[trigger] all[o] == (SlotModel { ctype: CTypeModel::StructPtr(item), name })
                    && all[o + 1] == (SlotModel { ctype: CTypeModel::Length, name: name + "_length"@ })
            &&& exists|x: Seq<char>, z: Seq<char>|
                params_text(all) == x + ", "@ + pascal_case_of(item) + " *"@ + name + ", "@ + "size_t "@ + name
                    + "_length"@ + z
        }),
{
    let n = segs.len();
    lemma_slots_prefix(wanted_by, segs, fsl, skip, k as nat, n);
    lemma_slots_prefix(wanted_by, segs, fsl, skip, (k + 1) as nat, n);
    let all = segs_slots(wanted_by, segs, fsl, skip)->Ok_0;
    let before = segs_slots_upto(wanted_by, segs, fsl, skip, k as nat)->Ok_0;
    let upto = segs_slots_upto(wanted_by, segs, fsl, skip, (k + 1) as nat)->Ok_0;
    let pair = slots_spec(wanted_by, segs[k], fsl, skip)->Ok_0;
    let name = segment_name(segs[k]);
    let item = segs[k]->Unsized_datatype->Array_item_struct@;
    assert(upto == before + pair);
    assert(pair == seq![
        SlotModel { ctype: CTypeModel::StructPtr(item), name },
        SlotModel { ctype: CTypeModel::Length, name: name + "_length"@ },
    ]);
    let o = before.len() as int;
    assert(all.take(upto.len() as int) == upto);
    assert(all[o] == upto[o]);
    assert(all[o + 1] == upto[o + 1]);
    let rest = all.skip(o + 2);
    assert(all =~= before + pair + rest);
    lemma_params_text_concat(before + pair, rest);
    lemma_params_text_concat(before, pair);
    lemma_pair_params(pair, item, name);
    let x = params_text(before);
    let z = params_text(rest);
    assert(params_text(all) =~= x + ", "@ + pascal_case_of(item) + " *"@ + name + ", "@ + "size_t "@ + name + "_length"@ + z);
}

/// `a` occurs in `t`, and `b` occurs after it.
pub open spec fn in_order(t: Seq<char>, a: Seq<char>, b: Seq<char>) -> bool {
    exists|x: Seq<char>, y: Seq<char>, z: Seq<char>| t == x + a + y + b + z
}

/// `m` occurs in `t`.
pub open spec fn infix(t: Seq<char>, m: Seq<char>) -> bool {
    exists|u: Seq<char>, v: Seq<char>| #[trigger] (u + m + v) == t
}

proof fn lemma_in_order_wrap(t: Seq<char>, a: Seq<char>, b: Seq<char>, pre: Seq<char>, post: Seq<char>)
    requires
        in_order(t, a, b),
    ensures
        in_order(pre + t + post, a, b),
{
    let (x, y, z) = choose|x: Seq<char>, y: Seq<char>, z: Seq<char>| t == x + a + y + b + z;
    assert(pre + t + post =~= (pre + x) + a + y + b + (z + post));
}

proof fn lemma_concat_map_infix<A>(s: Seq<A>, f: spec_fn(A) -> Seq<char>, i: int)
    requires
        0 <= i < s.len(),
    ensures
        infix(concat_map(s, f), f(s[i])),
    decreases s.len(),
{
    if i == s.len() - 1 {
        assert(concat_map(s, f) =~= concat_map(s.drop_last(), f) + f(s[i]) + Seq::<char>::empty());
        assert(infix(concat_map(s, f), f(s[i])));
    } else {
        lemma_concat_map_infix(s.drop_last(), f, i);
        let (u, v) = choose|u: Seq<char>, v: Seq<char>| #[trigger] (u + f(s.drop_last()[i]) + v) == concat_map(s.drop_last(), f);
        assert(concat_map(s, f) =~= u + f(s[i]) + (v + f(s.last())));
    }
}

proof fn lemma_body_has_element(wanted_by: Seq<char>, payload: Payload, fmt: Seq<PacketFormatElement>, i: int, n: nat)
    requires
        0 <= i < n <= fmt.len(),
        body_upto(wanted_by, payload, fmt, true, n) is Ok,
    ensures
        tx_element_text(wanted_by, payload, fmt[i]) is Ok,
        infix(body_upto(wanted_by, payload, fmt, true, n)->Ok_0, tx_element_text(wanted_by, payload, fmt[i])->Ok_0),
    decreases n,
{
    let prev = body_upto(wanted_by, payload, fmt, true, (n - 1) as nat);
    let body = body_upto(wanted_by, payload, fmt, true, n)->Ok_0;
    let t = tx_element_text(wanted_by, payload, fmt[i])->Ok_0;
    if i == n - 1 {
        assert(body =~= prev->Ok_0 + t + Seq::<char>::empty());
        assert(infix(body, t));
    } else {
        lemma_body_has_element(wanted_by, payload, fmt, i, (n - 1) as nat);
        let (u, v) = choose|u: Seq<char>, v: Seq<char>| #[trigger] (u + t + v) == prev->Ok_0;
        let last = tx_element_text(wanted_by, payload, fmt[n - 1])->Ok_0;
        assert(body =~= u + t + (v + last));
        assert(infix(body, t));
    }
}

/// In the generated source, inside the function of a TX payload whose
/// format carries the payload, the statement that sets a count field from
/// the length of the data it counts comes before the statement that writes
/// that data: `len = payload_bytes_length;` precedes
/// `write(device, payload_bytes, payload_bytes_length);`.
pub proof fn lemma_generated_count_before_data(doc: OpenPID, p: int, i: int, k: int)
    requires
        0 <= p < doc.payloads.tx@.len(),
        payload_part(doc, true, doc.payloads.tx@[p]) is Ok,
        0 <= i < format_of(doc, true).len(),
        format_of(doc, true)[i] is Payload,
        0 <= k < doc.payloads.tx@[p].1.segments@.len() <= usize::MAX,
        doc.payloads.tx@[p].1.segments@[k] matches PacketSegment::Unsized {
            termination: Some(Terminator::CountInPacket { .. }),
            ..
        },
    ensures
        ({
            let segs = doc.payloads.tx@[p].1.segments@;
            let field = segs[k]->Unsized_termination->Some_0->CountInPacket_field_name;
            let j = crate::emit::count_target(segs, field@)->Some_0;
            in_order(
                generated_text(doc),
                crate::emit::assign_text(seq![], segment_name(segs[j]), segs[k]),
                write_text(seq![], segs[k]),
            )
        }),
{
    let e = doc.payloads.tx@[p];
    let key = e.0@;
    let payload = e.1;
    let segs = payload.segments@;
    let fmt = format_of(doc, true);
    let field = segs[k]->Unsized_termination->Some_0->CountInPacket_field_name;
    let j = crate::emit::count_target(segs, field@)->Some_0;
    let a = crate::emit::assign_text(seq![], segment_name(segs[j]), segs[k]);
    let b = write_text(seq![], segs[k]);
    let slots = segs_slots(key, segs, false, true)->Ok_0;
    let body = body_upto(key, payload, fmt, true, fmt.len())->Ok_0;
    lemma_body_has_element(key, payload, fmt, i, fmt.len());
    // the payload element's text is the statements of its write operations
    crate::emit::lemma_count_statement_before_data(key, segs, seq![], k);
    let ops = write_ops(key, segs)->Ok_0;
    let w = writes_text(segs, seq![], ops);
    assert(tx_element_text(key, payload, fmt[i])->Ok_0 == w);
    assert(in_order(w, a, b));
    let (u, v) = choose|u: Seq<char>, v: Seq<char>| #[trigger] (u + w + v) == body;
    lemma_in_order_wrap(w, a, b, u, v);
    let pre = "\nint TX"@ + pascal_case_of(key) + "(Device *device"@ + params_text(slots) + ") {\n"@;
    let post = "    return 0;\n}\n"@;
    let part = payload_part(doc, true, e)->Ok_0;
    assert(part == pre + body + post);
    lemma_in_order_wrap(body, a, b, pre, post);
    assert(payload_ok(doc, true)(e) == part);
    lemma_concat_map_infix(doc.payloads.tx@, payload_ok(doc, true), p);
    let (u2, v2) = choose|u2: Seq<char>, v2: Seq<char>|
        #[trigger] (u2 + payload_ok(doc, true)(doc.payloads.tx@[p]) + v2) == concat_map(doc.payloads.tx@, payload_ok(doc, true));
    lemma_in_order_wrap(part, a, b, u2, v2);
    let tx_all = concat_map(doc.payloads.tx@, payload_ok(doc, true));
    let head = header_text(doc) + concat_map(doc.structs@, struct_typedef()) + concat_map(doc.structs@, struct_definition())
        + "\n"@ + concat_map(doc.structs@, struct_prototypes()) + concat_map(doc.structs@, struct_functions());
    let tail = concat_map(doc.payloads.rx@, payload_ok(doc, false));
    assert(generated_text(doc) == head + tx_all + tail);
    lemma_in_order_wrap(tx_all, a, b, head, tail);
}

proof fn lemma_fields_text_concat(a: Seq<SlotModel>, b: Seq<SlotModel>)
    ensures
        fields_text(a + b) == fields_text(a) + fields_text(b),
    decreases b.len(),
{
    if b.len() == 0 {
        assert(a + b =~= a);
        assert(fields_text(a) + fields_text(b) =~= fields_text(a));
    } else {
        lemma_fields_text_concat(a, b.drop_last());
        assert((a + b).drop_last() =~= a + b.drop_last());
        assert((a + b).last() == b.last());
        assert(fields_text(a + b) =~= fields_text(a) + fields_text(b));
    }
}

/// The record form of `lemma_array_slots_adjacent`: an RX result record or a
/// struct definition declares an array segment as a struct pointer named
/// after it, directly followed by its `<name>_length` count.
#[verifier::rlimit(40)]
pub proof fn lemma_array_fields_adjacent(wanted_by: Seq<char>, segs: Seq<PacketSegment>, fsl: bool, skip: bool, k: int)
    requires
        0 <= k < segs.len(),
        segs_slots(wanted_by, segs, fsl, skip) is Ok,
        segs[k] matches PacketSegment::Unsized { datatype: crate::config::UnsizedDataType::Array { .. }, .. },
    ensures
        ({
            let all = segs_slots(wanted_by, segs, fsl, skip)->Ok_0;
            let name = segment_name(segs[k]);
            let item = segs[k]->Unsized_datatype->Array_item_struct@;
            infix(
                fields_text(all),
                "    "@ + pascal_case_of(item) + " *"@ + name + ";\n"@ + "    "@ + "size_t "@ + name + "_length"@ + ";\n"@,
            )
        }),
{
    let n = segs.len();
    lemma_slots_prefix(wanted_by, segs, fsl, skip, k as nat, n);
    lemma_slots_prefix(wanted_by, segs, fsl, skip, (k + 1) as nat, n);
    let all = segs_slots(wanted_by, segs, fsl, skip)->Ok_0;
    let before = segs_slots_upto(wanted_by, segs, fsl, skip, k as nat)->Ok_0;
    let upto = segs_slots_upto(wanted_by, segs, fsl, skip, (k + 1) as nat)->Ok_0;
    let pair = slots_spec(wanted_by, segs[k], fsl, skip)->Ok_0;
    let name = segment_name(segs[k]);
    let item = segs[k]->Unsized_datatype->Array_item_struct@;
    assert(upto == before + pair);
    let o = before.len() as int;
    let rest = all.skip(o + 2);
    assert(all.take(upto.len() as int) == upto);
    assert(all =~= before + pair + rest);
    lemma_fields_text_concat(before + pair, rest);
    lemma_fields_text_concat(before, pair);
    let first = pair.drop_last();
    assert(first =~= seq![pair[0]]);
    assert(first.drop_last() =~= Seq::<SlotModel>::empty());
    assert(fields_text(first.drop_last()) == Seq::<char>::empty());
    assert(fields_text(first) =~= "    "@ + pascal_case_of(item) + " *"@ + name + ";\n"@);
    assert(decl_text(pair[1]) == "size_t "@ + (name + "_length"@));
    let m = "    "@ + pascal_case_of(item) + " *"@ + name + ";\n"@ + "    "@ + "size_t "@ + name + "_length"@ + ";\n"@;
    assert(fields_text(pair) =~= m);
    assert(fields_text(all) =~= fields_text(before) + m + fields_text(rest));
    assert(infix(fields_text(all), m));
}

} // verus!
