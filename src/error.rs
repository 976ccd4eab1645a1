//! Errors reported by validation and generation.

use vstd::prelude::*;
use crate::text::{decimal, push_decimal};

verus! {

/// Direction of a payload table.
#[derive(Debug, Clone, Copy, PartialEq, Eq, Structural)]
pub enum Direction {
    Tx,
    Rx,
}

/// Which table of the document a name belongs to.
#[derive(Debug, Clone, Copy, PartialEq, Eq, Structural)]
pub enum NameKind {
    Struct,
    TxPayload,
    RxPayload,
    Transaction,
}

/// A violation found in a document, or a failure to generate code for it.
///
/// `wanted_by_payload` is the path to the place of the problem: a payload,
/// struct or transaction name, followed by `->[Struct s]field` or
/// `->[Array of s]field` for each struct expanded on the way.
#[derive(Debug)]
pub enum CodegenError {
    /// The generated code could not be written.
    IOError(String),
    /// A segment refers to a struct that the document does not define.
    NoStruct { wanted_by_payload: String, wanted_by_field: String, struct_name: String },
    /// A struct is reached again while it is being expanded.
    CyclicStruct { wanted_by_payload: String, wanted_by_field: String, struct_name: String },
    /// An unsized segment without a terminator is reachable from an RX payload.
    Unterminated { wanted_by_payload: String, wanted_by_field: String },
    /// A transaction names a payload that its table does not hold.
    NoPayload { wanted_by_transaction: String, payload: String, direction: Direction },
    /// A name that must be lower snake case is not.
    NotSnakeCase { kind: NameKind, name: String },
    /// A metadata segment has no literal in the payload.
    MissingMetadata { wanted_by_payload: String, wanted_by_field: String },
    /// A metadata literal's shape does not match the slots its segment needs.
    Arity { wanted_by_payload: String, wanted_by_field: String, slots: usize },
    /// A numeric width that the target has no type for.
    UnsupportedType { wanted_by_payload: String, wanted_by_field: String, bits: u32 },
    /// A construct that code generation does not support.
    Unimplemented { wanted_by_payload: String, wanted_by_field: String },
    /// A count-in-packet terminator names no sized, non-constant sibling.
    BadCountField { wanted_by_payload: String, wanted_by_field: String, field_name: String },
}

/// The mathematical value of a [`CodegenError`].
pub enum ErrorModel {
    IOError(Seq<char>),
    NoStruct { wanted_by_payload: Seq<char>, wanted_by_field: Seq<char>, struct_name: Seq<char> },
    CyclicStruct { wanted_by_payload: Seq<char>, wanted_by_field: Seq<char>, struct_name: Seq<char> },
    Unterminated { wanted_by_payload: Seq<char>, wanted_by_field: Seq<char> },
    NoPayload { wanted_by_transaction: Seq<char>, payload: Seq<char>, direction: Direction },
    NotSnakeCase { kind: NameKind, name: Seq<char> },
    MissingMetadata { wanted_by_payload: Seq<char>, wanted_by_field: Seq<char> },
    Arity { wanted_by_payload: Seq<char>, wanted_by_field: Seq<char>, slots: nat },
    UnsupportedType { wanted_by_payload: Seq<char>, wanted_by_field: Seq<char>, bits: nat },
    Unimplemented { wanted_by_payload: Seq<char>, wanted_by_field: Seq<char> },
    BadCountField { wanted_by_payload: Seq<char>, wanted_by_field: Seq<char>, field_name: Seq<char> },
}

impl View for CodegenError {
    type V = ErrorModel;

    open spec fn view(&self) -> ErrorModel {
        match self {
            CodegenError::IOError(m) => ErrorModel::IOError(m@),
            CodegenError::NoStruct { wanted_by_payload, wanted_by_field, struct_name } => ErrorModel::NoStruct {
                wanted_by_payload: wanted_by_payload@,
                wanted_by_field: wanted_by_field@,
                struct_name: struct_name@,
            },
            CodegenError::CyclicStruct { wanted_by_payload, wanted_by_field, struct_name } => ErrorModel::CyclicStruct {
                wanted_by_payload: wanted_by_payload@,
                wanted_by_field: wanted_by_field@,
                struct_name: struct_name@,
            },
            CodegenError::Unterminated { wanted_by_payload, wanted_by_field } => ErrorModel::Unterminated {
                wanted_by_payload: wanted_by_payload@,
                wanted_by_field: wanted_by_field@,
            },
            CodegenError::NoPayload { wanted_by_transaction, payload, direction } => ErrorModel::NoPayload {
                wanted_by_transaction: wanted_by_transaction@,
                payload: payload@,
                direction: *direction,
            },
            CodegenError::NotSnakeCase { kind, name } => ErrorModel::NotSnakeCase { kind: *kind, name: name@ },
            CodegenError::MissingMetadata { wanted_by_payload, wanted_by_field } => ErrorModel::MissingMetadata {
                wanted_by_payload: wanted_by_payload@,
                wanted_by_field: wanted_by_field@,
            },
            CodegenError::Arity { wanted_by_payload, wanted_by_field, slots } => ErrorModel::Arity {
                wanted_by_payload: wanted_by_payload@,
                wanted_by_field: wanted_by_field@,
                slots: *slots as nat,
            },
            CodegenError::UnsupportedType { wanted_by_payload, wanted_by_field, bits } => ErrorModel::UnsupportedType {
                wanted_by_payload: wanted_by_payload@,
                wanted_by_field: wanted_by_field@,
                bits: *bits as nat,
            },
            CodegenError::Unimplemented { wanted_by_payload, wanted_by_field } => ErrorModel::Unimplemented {
                wanted_by_payload: wanted_by_payload@,
                wanted_by_field: wanted_by_field@,
            },
            CodegenError::BadCountField { wanted_by_payload, wanted_by_field, field_name } => ErrorModel::BadCountField {
                wanted_by_payload: wanted_by_payload@,
                wanted_by_field: wanted_by_field@,
                field_name: field_name@,
            },
        }
    }
}

/// The models of a list of errors.
pub open spec fn error_models(errs: Seq<CodegenError>) -> Seq<ErrorModel> {
    errs.map_values(|e: CodegenError| e@)
}

/// Appends `more` to `errs`, keeping the models in step.
pub fn append_errors(errs: &mut Vec<CodegenError>, more: Vec<CodegenError>)
    ensures
        error_models(final(errs)@) == error_models(old(errs)@) + error_models(more@),
{
    let mut more = more;
    let ghost added = more@;
    errs.append(&mut more);
    assert(error_models(errs@) =~= error_models(old(errs)@) + error_models(added));
}

/// Appends one error to `errs`.
pub fn push_error(errs: &mut Vec<CodegenError>, e: CodegenError)
    ensures
        error_models(final(errs)@) == error_models(old(errs)@).push(e@),
{
    errs.push(e);
    assert(error_models(errs@) =~= error_models(old(errs)@).push(e@));
}

/// The word for a kind of name in messages.
pub open spec fn kind_text(k: NameKind) -> Seq<char> {
    match k {
        NameKind::Struct => "Struct"@,
        NameKind::TxPayload => "TX Payload"@,
        NameKind::RxPayload => "RX Payload"@,
        NameKind::Transaction => "Transaction"@,
    }
}

/// The human-readable message for an error.
pub open spec fn message_text(e: ErrorModel) -> Seq<char> {
    match e {
        ErrorModel::IOError(m) => "Input/Output Error: "@ + m,
        ErrorModel::NoStruct { wanted_by_payload, wanted_by_field, struct_name } => "Couldn't find struct named "@
            + struct_name + " referenced by "@ + wanted_by_payload + "->"@ + wanted_by_field,
        ErrorModel::CyclicStruct { wanted_by_payload, wanted_by_field, struct_name } => "Struct "@ + struct_name
            + " contains itself, referenced by "@ + wanted_by_payload + "->"@ + wanted_by_field,
        ErrorModel::Unterminated { wanted_by_payload, wanted_by_field } =>
            "Unterminated unsized reads are not possible. One was found in "@ + wanted_by_payload + "->"@
                + wanted_by_field,
        ErrorModel::NoPayload { wanted_by_transaction, payload, direction } => (match direction {
            Direction::Tx => "Undefined TX payload \""@,
            Direction::Rx => "Undefined RX payload \""@,
        }) + payload + "\" referenced by transaction \""@ + wanted_by_transaction + "\""@,
        ErrorModel::NotSnakeCase { kind, name } => kind_text(kind) + " \""@ + name + "\" is not snake case"@,
        ErrorModel::MissingMetadata { wanted_by_payload, wanted_by_field } => "No metadata value for "@
            + wanted_by_payload + "->"@ + wanted_by_field,
        ErrorModel::Arity { wanted_by_payload, wanted_by_field, slots } => "Metadata literal for "@ + wanted_by_payload
            + "->"@ + wanted_by_field + " does not match its "@ + decimal(slots) + " storage slot(s)"@,
        ErrorModel::UnsupportedType { wanted_by_payload, wanted_by_field, bits } => "Unsupported width of "@ + decimal(
            bits,
        ) + " bits in "@ + wanted_by_payload + "->"@ + wanted_by_field,
        ErrorModel::Unimplemented { wanted_by_payload, wanted_by_field } => "Code generation does not support "@
            + wanted_by_payload + "->"@ + wanted_by_field,
        ErrorModel::BadCountField { wanted_by_payload, wanted_by_field, field_name } => "Count field "@ + field_name
            + " of "@ + wanted_by_payload + "->"@ + wanted_by_field + " is not a sized, non-constant sibling"@,
    }
}

fn path_of(out: &mut String, payload: &String, field: &String)
    ensures
        final(out)@ == old(out)@ + payload@ + "->"@ + field@,
{
    out.append(payload.as_str());
    out.append("->");
    out.append(field.as_str());
}

impl CodegenError {
    /// A human-readable description of the error.
    pub fn message(&self) -> (r: String)
        ensures
            r@ == message_text(self@),
    {
        match self {
            CodegenError::IOError(m) => {
                let mut r = String::from_str("Input/Output Error: ");
                r.append(m.as_str());
                r
            },
            CodegenError::NoStruct { wanted_by_payload, wanted_by_field, struct_name } => {
                let mut r = String::from_str("Couldn't find struct named ");
                r.append(struct_name.as_str());
                r.append(" referenced by ");
                path_of(&mut r, wanted_by_payload, wanted_by_field);
                r
            },
            CodegenError::CyclicStruct { wanted_by_payload, wanted_by_field, struct_name } => {
                let mut r = String::from_str("Struct ");
                r.append(struct_name.as_str());
                r.append(" contains itself, referenced by ");
                path_of(&mut r, wanted_by_payload, wanted_by_field);
                r
            },
            CodegenError::Unterminated { wanted_by_payload, wanted_by_field } => {
                let mut r = String::from_str("Unterminated unsized reads are not possible. One was found in ");
                path_of(&mut r, wanted_by_payload, wanted_by_field);
                r
            },
            CodegenError::NoPayload { wanted_by_transaction, payload, direction } => {
                let mut r = match direction {
                    Direction::Tx => String::from_str("Undefined TX payload \""),
                    Direction::Rx => String::from_str("Undefined RX payload \""),
                };
                r.append(payload.as_str());
                r.append("\" referenced by transaction \"");
                r.append(wanted_by_transaction.as_str());
                r.append("\"");
                r
            },
            CodegenError::NotSnakeCase { kind, name } => {
                let mut r = match kind {
                    NameKind::Struct => String::from_str("Struct"),
                    NameKind::TxPayload => String::from_str("TX Payload"),
                    NameKind::RxPayload => String::from_str("RX Payload"),
                    NameKind::Transaction => String::from_str("Transaction"),
                };
                r.append(" \"");
                r.append(name.as_str());
                r.append("\" is not snake case");
                r
            },
            CodegenError::MissingMetadata { wanted_by_payload, wanted_by_field } => {
                let mut r = String::from_str("No metadata value for ");
                path_of(&mut r, wanted_by_payload, wanted_by_field);
                r
            },
            CodegenError::Arity { wanted_by_payload, wanted_by_field, slots } => {
                let mut r = String::from_str("Metadata literal for ");
                path_of(&mut r, wanted_by_payload, wanted_by_field);
                r.append(" does not match its ");
                push_decimal(&mut r, *slots as u128);
                r.append(" storage slot(s)");
                r
            },
            CodegenError::UnsupportedType { wanted_by_payload, wanted_by_field, bits } => {
                let mut r = String::from_str("Unsupported width of ");
                push_decimal(&mut r, *bits as u128);
                r.append(" bits in ");
                path_of(&mut r, wanted_by_payload, wanted_by_field);
                r
            },
            CodegenError::Unimplemented { wanted_by_payload, wanted_by_field } => {
                let mut r = String::from_str("Code generation does not support ");
                path_of(&mut r, wanted_by_payload, wanted_by_field);
                r
            },
            CodegenError::BadCountField { wanted_by_payload, wanted_by_field, field_name } => {
                let mut r = String::from_str("Count field ");
                r.append(field_name.as_str());
                r.append(" of ");
                path_of(&mut r, wanted_by_payload, wanted_by_field);
                r.append(" is not a sized, non-constant sibling");
                r
            },
        }
    }
}

} // verus!
