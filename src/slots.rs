//! The segment variable mapper: the typed storage slots that hold a segment's
//! value, and their C declarations.

use vstd::prelude::*;
use crate::config::{PacketSegment, Signing, SizedDataType, UnsizedDataType};
use crate::error::{CodegenError, ErrorModel};
use crate::naming::{pascal_case_of, to_pascal_case};
use crate::text::{decimal, push_decimal};

verus! {

/// A C type for a storage slot.
#[derive(Debug)]
pub enum CType {
    Unsigned(u32),
    Signed(u32),
    Float32,
    Float64,
    /// Fixed-size byte array of this many bytes.
    ByteArray(usize),
    /// Fixed-size character array of this many characters.
    CharArray(usize),
    BytePtr,
    CharPtr,
    /// Pointer to instances of the struct with this name.
    StructPtr(String),
    /// An explicit length or count.
    Length,
}

/// The mathematical value of a [`CType`].
pub enum CTypeModel {
    Unsigned(nat),
    Signed(nat),
    Float32,
    Float64,
    ByteArray(nat),
    CharArray(nat),
    BytePtr,
    CharPtr,
    StructPtr(Seq<char>),
    Length,
}

impl View for CType {
    type V = CTypeModel;

    open spec fn view(&self) -> CTypeModel {
        match self {
            CType::Unsigned(b) => CTypeModel::Unsigned(*b as nat),
            CType::Signed(b) => CTypeModel::Signed(*b as nat),
            CType::Float32 => CTypeModel::Float32,
            CType::Float64 => CTypeModel::Float64,
            CType::ByteArray(n) => CTypeModel::ByteArray(*n as nat),
            CType::CharArray(n) => CTypeModel::CharArray(*n as nat),
            CType::BytePtr => CTypeModel::BytePtr,
            CType::CharPtr => CTypeModel::CharPtr,
            CType::StructPtr(s) => CTypeModel::StructPtr(s@),
            CType::Length => CTypeModel::Length,
        }
    }
}

/// A named, typed storage slot: an argument, a field or a local.
#[derive(Debug)]
pub struct Slot {
    pub ctype: CType,
    pub name: String,
}

/// The mathematical value of a [`Slot`].
pub struct SlotModel {
    pub ctype: CTypeModel,
    pub name: Seq<char>,
}

impl View for Slot {
    type V = SlotModel;

    open spec fn view(&self) -> SlotModel {
        SlotModel { ctype: self.ctype@, name: self.name@ }
    }
}

/// The models of a list of slots.
pub open spec fn slot_models(s: Seq<Slot>) -> Seq<SlotModel> {
    s.map_values(|x: Slot| x@)
}

/// Integer widths the target has native types for.
pub open spec fn native_width(bits: nat) -> bool {
    bits == 8 || bits == 16 || bits == 32 || bits == 64
}

/// Bytes needed for `bits` bits.
pub open spec fn bytes_for(bits: nat) -> nat {
    (bits + 7) / 8
}

/// The name of the length slot paired with the slot named `name`.
pub open spec fn length_name(name: Seq<char>) -> Seq<char> {
    name + "_length"@
}

pub open spec fn one_slot(ctype: CTypeModel, name: Seq<char>) -> Seq<SlotModel> {
    seq![SlotModel { ctype, name }]
}

pub open spec fn paired_slots(ctype: CTypeModel, name: Seq<char>) -> Seq<SlotModel> {
    seq![SlotModel { ctype, name }, SlotModel { ctype: CTypeModel::Length, name: length_name(name) }]
}

/// The storage slots for `seg`. With `fixed_size_local`, sized data gets
/// fixed-size arrays, else pointers; with `skip_const`, a constant segment gets
/// no slot. `wanted_by` names the payload or struct in errors.
pub open spec fn slots_spec(wanted_by: Seq<char>, seg: PacketSegment, fixed_size_local: bool, skip_const: bool) -> Result<
    Seq<SlotModel>,
    ErrorModel,
> {
    match seg {
        PacketSegment::Sized { name, bits, datatype, .. } => match datatype {
            SizedDataType::Integer { signing, .. } => if native_width(bits as nat) {
                Ok(
                    one_slot(
                        if signing == Signing::Unsigned {
                            CTypeModel::Unsigned(bits as nat)
                        } else {
                            CTypeModel::Signed(bits as nat)
                        },
                        name@,
                    ),
                )
            } else {
                Err(ErrorModel::UnsupportedType { wanted_by_payload: wanted_by, wanted_by_field: name@, bits: bits as nat })
            },
            SizedDataType::FloatIEEE { .. } => if bits == 32 {
                Ok(one_slot(CTypeModel::Float32, name@))
            } else if bits == 64 {
                Ok(one_slot(CTypeModel::Float64, name@))
            } else {
                Err(ErrorModel::UnsupportedType { wanted_by_payload: wanted_by, wanted_by_field: name@, bits: bits as nat })
            },
            SizedDataType::Raw => Ok(
                one_slot(
                    if fixed_size_local {
                        CTypeModel::ByteArray(bytes_for(bits as nat))
                    } else {
                        CTypeModel::BytePtr
                    },
                    name@,
                ),
            ),
            SizedDataType::StringUTF8 => Ok(
                one_slot(
                    if fixed_size_local {
                        CTypeModel::CharArray(bytes_for(bits as nat))
                    } else {
                        CTypeModel::CharPtr
                    },
                    name@,
                ),
            ),
            SizedDataType::Const { data } => if skip_const {
                Ok(seq![])
            } else {
                Ok(one_slot(CTypeModel::ByteArray(data@.len()), name@))
            },
        },
        PacketSegment::Unsized { name, datatype, .. } => match datatype {
            UnsizedDataType::Array { item_struct } => Ok(paired_slots(CTypeModel::StructPtr(item_struct@), name@)),
            UnsizedDataType::StringUTF8 => Ok(one_slot(CTypeModel::CharPtr, name@)),
            UnsizedDataType::Raw => Ok(paired_slots(CTypeModel::BytePtr, name@)),
        },
        PacketSegment::Struct { name, .. } => Err(
            ErrorModel::Unimplemented { wanted_by_payload: wanted_by, wanted_by_field: name@ },
        ),
    }
}

/// A segment has at most two slots; when it has two, the second is the length
/// slot named after the first.
pub proof fn lemma_slots_shape(wanted_by: Seq<char>, seg: PacketSegment, fixed_size_local: bool, skip_const: bool)
    ensures
        slots_spec(wanted_by, seg, fixed_size_local, skip_const) matches Ok(s) ==> {
            &&& s.len() <= 2
            &&& s.len() == 2 ==> s[1].ctype == CTypeModel::Length && s[1].name == length_name(s[0].name)
            &&& s.len() >= 1 ==> s[0].name == crate::config::segment_name(seg)
        },
{
}

fn single(ctype: CType, name: &String) -> (r: Vec<Slot>)
    ensures
        slot_models(r@) == one_slot(ctype@, name@),
{
    let mut r: Vec<Slot> = Vec::new();
    r.push(Slot { ctype, name: name.clone() });
    assert(slot_models(r@) =~= one_slot(ctype@, name@));
    r
}

fn paired(ctype: CType, name: &String) -> (r: Vec<Slot>)
    ensures
        slot_models(r@) == paired_slots(ctype@, name@),
{
    let mut r: Vec<Slot> = Vec::new();
    let ghost m = ctype@;
    r.push(Slot { ctype, name: name.clone() });
    let mut len_name = name.clone();
    len_name.append("_length");
    r.push(Slot { ctype: CType::Length, name: len_name });
    assert(slot_models(r@) =~= paired_slots(m, name@));
    r
}

fn bytes_for_bits(bits: u32) -> (r: usize)
    ensures
        r as nat == bytes_for(bits as nat),
{
    ((bits as u64 + 7) / 8) as usize
}

/// The storage slots needed to hold `segment`'s value.
pub fn storage_slots(wanted_by: &str, segment: &PacketSegment, fixed_size_local: bool, skip_const: bool) -> (r: Result<
    Vec<Slot>,
    CodegenError,
>)
    ensures
        match slots_spec(wanted_by@, *segment, fixed_size_local, skip_const) {
            Ok(s) => r matches Ok(v) && slot_models(v@) == s,
            Err(e) => r matches Err(x) && x@ == e,
        },
{
    match segment {
        PacketSegment::Sized { name, bits, datatype, .. } => match datatype {
            SizedDataType::Integer { signing, .. } => {
                if *bits == 8 || *bits == 16 || *bits == 32 || *bits == 64 {
                    let ctype = match signing {
                        Signing::Unsigned => CType::Unsigned(*bits),
                        _ => CType::Signed(*bits),
                    };
                    Ok(single(ctype, name))
                } else {
                    Err(
                        CodegenError::UnsupportedType {
                            wanted_by_payload: String::from_str(wanted_by),
                            wanted_by_field: name.clone(),
                            bits: *bits,
                        },
                    )
                }
            },
            SizedDataType::FloatIEEE { .. } => {
                if *bits == 32 {
                    Ok(single(CType::Float32, name))
                } else if *bits == 64 {
                    Ok(single(CType::Float64, name))
                } else {
                    Err(
                        CodegenError::UnsupportedType {
                            wanted_by_payload: String::from_str(wanted_by),
                            wanted_by_field: name.clone(),
                            bits: *bits,
                        },
                    )
                }
            },
            SizedDataType::Raw => {
                if fixed_size_local {
                    Ok(single(CType::ByteArray(bytes_for_bits(*bits)), name))
                } else {
                    Ok(single(CType::BytePtr, name))
                }
            },
            SizedDataType::StringUTF8 => {
                if fixed_size_local {
                    Ok(single(CType::CharArray(bytes_for_bits(*bits)), name))
                } else {
                    Ok(single(CType::CharPtr, name))
                }
            },
            SizedDataType::Const { data } => {
                if skip_const {
                    let r: Vec<Slot> = Vec::new();
                    assert(slot_models(r@) =~= seq![]);
                    Ok(r)
                } else {
                    Ok(single(CType::ByteArray(data.len()), name))
                }
            },
        },
        PacketSegment::Unsized { name, datatype, .. } => match datatype {
            UnsizedDataType::Array { item_struct } => Ok(paired(CType::StructPtr(item_struct.clone()), name)),
            UnsizedDataType::StringUTF8 => Ok(single(CType::CharPtr, name)),
            UnsizedDataType::Raw => Ok(paired(CType::BytePtr, name)),
        },
        PacketSegment::Struct { name, .. } => Err(
            CodegenError::Unimplemented { wanted_by_payload: String::from_str(wanted_by), wanted_by_field: name.clone() },
        ),
    }
}

/// The C declaration of a slot, without a terminating `;`.
pub open spec fn decl_text(s: SlotModel) -> Seq<char> {
    match s.ctype {
        CTypeModel::Unsigned(b) => "uint"@ + decimal(b) + "_t "@ + s.name,
        CTypeModel::Signed(b) => "int"@ + decimal(b) + "_t "@ + s.name,
        CTypeModel::Float32 => "float "@ + s.name,
        CTypeModel::Float64 => "double "@ + s.name,
        CTypeModel::ByteArray(n) => "uint8_t "@ + s.name + "["@ + decimal(n) + "]"@,
        CTypeModel::CharArray(n) => "char "@ + s.name + "["@ + decimal(n) + "]"@,
        CTypeModel::BytePtr => "uint8_t *"@ + s.name,
        CTypeModel::CharPtr => "char *"@ + s.name,
        CTypeModel::StructPtr(t) => pascal_case_of(t) + " *"@ + s.name,
        CTypeModel::Length => "size_t "@ + s.name,
    }
}

/// The C declaration of `slot`.
pub fn declaration(slot: &Slot) -> (r: String)
    ensures
        r@ == decl_text(slot@),
{
    match &slot.ctype {
        CType::Unsigned(b) => {
            let mut r = String::from_str("uint");
            push_decimal(&mut r, *b as u128);
            r.append("_t ");
            r.append(slot.name.as_str());
            r
        },
        CType::Signed(b) => {
            let mut r = String::from_str("int");
            push_decimal(&mut r, *b as u128);
            r.append("_t ");
            r.append(slot.name.as_str());
            r
        },
        CType::Float32 => {
            let mut r = String::from_str("float ");
            r.append(slot.name.as_str());
            r
        },
        CType::Float64 => {
            let mut r = String::from_str("double ");
            r.append(slot.name.as_str());
            r
        },
        CType::ByteArray(n) => {
            let mut r = String::from_str("uint8_t ");
            r.append(slot.name.as_str());
            r.append("[");
            push_decimal(&mut r, *n as u128);
            r.append("]");
            r
        },
        CType::CharArray(n) => {
            let mut r = String::from_str("char ");
            r.append(slot.name.as_str());
            r.append("[");
            push_decimal(&mut r, *n as u128);
            r.append("]");
            r
        },
        CType::BytePtr => {
            let mut r = String::from_str("uint8_t *");
            r.append(slot.name.as_str());
            r
        },
        CType::CharPtr => {
            let mut r = String::from_str("char *");
            r.append(slot.name.as_str());
            r
        },
        CType::StructPtr(t) => {
            let mut r = to_pascal_case(t.as_str());
            r.append(" *");
            r.append(slot.name.as_str());
            r
        },
        CType::Length => {
            let mut r = String::from_str("size_t ");
            r.append(slot.name.as_str());
            r
        },
    }
}

} // verus!
