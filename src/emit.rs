//! The write/read emitter: the ordered operations that put a segment list on
//! the wire, and the C statements for them and for reading it back.

use vstd::prelude::*;
use crate::config::{segment_name, PacketSegment, SizedDataType, Terminator, UnsizedDataType};
use crate::error::{CodegenError, ErrorModel};
use crate::text::{bytes_text, decimal, push_bytes, push_decimal};

verus! {

/// One step of writing a segment list; indices refer to the list.
#[derive(Debug, Clone, Copy, PartialEq, Eq, Structural)]
pub enum WriteOp {
    /// Write the bytes of segment `seg`.
    Write { seg: usize },
    /// Set segment `target` to the runtime length of segment `source`.
    AssignCount { target: usize, source: usize },
    /// Write the terminator pattern of segment `seg`.
    WriteTerminator { seg: usize },
}

/// The index of the first segment at or after `i` named `name`.
pub open spec fn find_segment_from(segs: Seq<PacketSegment>, name: Seq<char>, i: int) -> Option<int>
    decreases segs.len() - i,
{
    if i < 0 || i >= segs.len() {
        None
    } else if segment_name(segs[i]) == name {
        Some(i)
    } else {
        find_segment_from(segs, name, i + 1)
    }
}

pub proof fn lemma_find_segment_bounds(segs: Seq<PacketSegment>, name: Seq<char>, i: int)
    requires
        0 <= i,
    ensures
        find_segment_from(segs, name, i) matches Some(j) ==> i <= j < segs.len(),
    decreases segs.len() - i,
{
    if i < segs.len() && segment_name(segs[i]) != name {
        lemma_find_segment_bounds(segs, name, i + 1);
    }
}

/// A segment that can hold a count: sized and not constant.
pub open spec fn holds_count(seg: PacketSegment) -> bool {
    seg matches PacketSegment::Sized { datatype, .. } && !(datatype is Const)
}

/// The sibling that a count-in-packet terminator naming `name` stores its count in.
pub open spec fn count_target(segs: Seq<PacketSegment>, name: Seq<char>) -> Option<int> {
    match find_segment_from(segs, name, 0) {
        Some(j) => if holds_count(segs[j]) { Some(j) } else { None },
        None => None,
    }
}

/// Finds the segment named `name`.
pub fn find_segment(segs: &Vec<PacketSegment>, name: &String) -> (r: Option<usize>)
    ensures
        r matches Some(j) ==> find_segment_from(segs@, name@, 0) == Some(j as int) && j < segs@.len(),
        r is None ==> find_segment_from(segs@, name@, 0) is None,
{
    let mut i: usize = 0;
    while i < segs.len()
        invariant
            0 <= i <= segs@.len(),
            find_segment_from(segs@, name@, 0) == find_segment_from(segs@, name@, i as int),
        decreases segs@.len() - i,
    {
        let n = segs[i].get_name();
        if String::from_str(n).eq(name) {
            return Some(i);
        }
        i = i + 1;
    }
    None
}

/// Finds the sibling that holds the count for a terminator naming `name`.
pub fn find_count_target(segs: &Vec<PacketSegment>, name: &String) -> (r: Option<usize>)
    ensures
        r matches Some(j) ==> count_target(segs@, name@) == Some(j as int) && j < segs@.len(),
        r is None ==> count_target(segs@, name@) is None,
{
    match find_segment(segs, name) {
        Some(j) => match &segs[j] {
            PacketSegment::Sized { datatype: SizedDataType::Const { .. }, .. } => None,
            PacketSegment::Sized { .. } => Some(j),
            _ => None,
        },
        None => None,
    }
}

/// The write operations for the first `i` segments of `segs`, or the first
/// error. A count assignment is put in front of everything emitted so far, so
/// it comes before the count field is written and before the data it measures.
pub open spec fn write_ops_upto(wanted_by: Seq<char>, segs: Seq<PacketSegment>, i: nat) -> Result<Seq<WriteOp>, ErrorModel>
    decreases i,
{
    if i == 0 {
        Ok(seq![])
    } else {
        let k = (i - 1) as nat;
        match write_ops_upto(wanted_by, segs, k) {
            Err(e) => Err(e),
            Ok(prev) => match segs[k as int] {
                PacketSegment::Struct { name, .. } => Err(
                    ErrorModel::Unimplemented { wanted_by_payload: wanted_by, wanted_by_field: name@ },
                ),
                PacketSegment::Sized { .. } => Ok(prev.push(WriteOp::Write { seg: k as usize })),
                PacketSegment::Unsized { name, termination, .. } => match termination {
                    Some(Terminator::Sequence { .. }) => Ok(
                        prev.push(WriteOp::Write { seg: k as usize }).push(WriteOp::WriteTerminator { seg: k as usize }),
                    ),
                    Some(Terminator::CountInPacket { field_name }) => match count_target(segs, field_name@) {
                        None => Err(
                            ErrorModel::BadCountField {
                                wanted_by_payload: wanted_by,
                                wanted_by_field: name@,
                                field_name: field_name@,
                            },
                        ),
                        Some(j) => Ok(
                            seq![WriteOp::AssignCount { target: j as usize, source: k as usize }] + prev.push(
                                WriteOp::Write { seg: k as usize },
                            ),
                        ),
                    },
                    _ => Ok(prev.push(WriteOp::Write { seg: k as usize })),
                },
            },
        }
    }
}

/// The write operations for all of `segs`.
pub open spec fn write_ops(wanted_by: Seq<char>, segs: Seq<PacketSegment>) -> Result<Seq<WriteOp>, ErrorModel> {
    write_ops_upto(wanted_by, segs, segs.len())
}

/// Every index an operation names is a segment of the list.
pub open spec fn ops_in_range(ops: Seq<WriteOp>, n: nat) -> bool {
    forall|a: int|
        0 <= a < ops.len() ==> match #[trigger] ops[a] {
            WriteOp::Write { seg } => seg < n,
            WriteOp::AssignCount { target, source } => target < n && source < n,
            WriteOp::WriteTerminator { seg } => seg < n,
        }
}

/// All count assignments come before every other operation.
pub open spec fn counts_first(ops: Seq<WriteOp>) -> bool {
    forall|a: int, b: int|
        0 <= a < ops.len() && 0 <= b < ops.len() && (#[trigger] ops[a] is AssignCount) && !(#[trigger] ops[b] is AssignCount)
            ==> a < b
}

pub proof fn lemma_write_ops_shape(wanted_by: Seq<char>, segs: Seq<PacketSegment>, i: nat)
    requires
        i <= segs.len(),
    ensures
        write_ops_upto(wanted_by, segs, i) matches Ok(ops) ==> ops_in_range(ops, segs.len()) && counts_first(ops),
    decreases i,
{
    if i > 0 {
        let k = (i - 1) as nat;
        lemma_write_ops_shape(wanted_by, segs, k);
        if let Ok(prev) = write_ops_upto(wanted_by, segs, k) {
            if let PacketSegment::Unsized { termination: Some(Terminator::CountInPacket { field_name }), .. } = segs[k as int] {
                lemma_find_segment_bounds(segs, field_name@, 0);
                if let Some(j) = count_target(segs, field_name@) {
                    let ops = seq![WriteOp::AssignCount { target: j as usize, source: k as usize }] + prev.push(
                        WriteOp::Write { seg: k as usize },
                    );
                    assert forall|a: int| 0 <= a < ops.len() implies match #[trigger] ops[a] {
                        WriteOp::Write { seg } => seg < segs.len(),
                        WriteOp::AssignCount { target, source } => target < segs.len() && source < segs.len(),
                        WriteOp::WriteTerminator { seg } => seg < segs.len(),
                    } by {
                        if a > 0 && a < ops.len() - 1 {
                            assert(ops[a] == prev[a - 1]);
                        }
                    }
                    assert forall|a: int, b: int|
                        0 <= a < ops.len() && 0 <= b < ops.len() && (#[trigger] ops[a] is AssignCount) && !(
                        #[trigger] ops[b] is AssignCount) implies a < b by {
                        if a > 0 && a < ops.len() - 1 {
                            assert(ops[a] == prev[a - 1]);
                        }
                        if b > 0 && b < ops.len() - 1 {
                            assert(ops[b] == prev[b - 1]);
                        }
                    }
                }
            }
        }
    }
}

/// Every count-in-packet segment's count assignment is emitted, and it comes
/// before the write of the data it is derived from and before every other
/// write: the count field's bytes precede the data on the wire although its
/// value is known only from the data.
pub proof fn lemma_count_assigned_before_data(wanted_by: Seq<char>, segs: Seq<PacketSegment>, k: int)
    requires
        0 <= k < segs.len(),
        write_ops(wanted_by, segs) is Ok,
        segs[k] matches PacketSegment::Unsized { termination: Some(Terminator::CountInPacket { .. }), .. },
    ensures
        ({
            let ops = write_ops(wanted_by, segs)->Ok_0;
            let field = segs[k]->Unsized_termination->Some_0->CountInPacket_field_name;
            &&& count_target(segs, field@) is Some
            &&& exists|a: int, b: int|
                0 <= a < b < ops.len() && ops[a] == (WriteOp::AssignCount {
                    target: count_target(segs, field@)->Some_0 as usize,
                    source: k as usize,
                }) && ops[b] == (WriteOp::Write { seg: k as usize })
            &&& counts_first(ops)
        }),
{
    lemma_write_ops_shape(wanted_by, segs, segs.len());
    lemma_ops_kept(wanted_by, segs, (k + 1) as nat, segs.len());
}

/// The operations emitted for the first `i` segments stay in the result, in
/// order, once count assignments are set aside; the assignments stay too.
proof fn lemma_ops_kept(wanted_by: Seq<char>, segs: Seq<PacketSegment>, i: nat, n: nat)
    requires
        0 < i <= n <= segs.len(),
        write_ops_upto(wanted_by, segs, n) is Ok,
        segs[i - 1] matches PacketSegment::Unsized { termination: Some(Terminator::CountInPacket { .. }), .. },
    ensures
        ({
            let ops = write_ops_upto(wanted_by, segs, n)->Ok_0;
            let k = i - 1;
            let field = segs[k]->Unsized_termination->Some_0->CountInPacket_field_name;
            &&& count_target(segs, field@) is Some
            &&& exists|a: int, b: int|
                0 <= a < b < ops.len() && ops[a] == (WriteOp::AssignCount {
                    target: count_target(segs, field@)->Some_0 as usize,
                    source: k as usize,
                }) && ops[b] == (WriteOp::Write { seg: k as usize })
        }),
    decreases n,
{
    lemma_write_ops_err_sticky(wanted_by, segs, (n - 1) as nat, n);
    let k = i - 1;
    let field = segs[k]->Unsized_termination->Some_0->CountInPacket_field_name;
    if n == i {
        let prev = write_ops_upto(wanted_by, segs, k as nat)->Ok_0;
        let ops = write_ops_upto(wanted_by, segs, n)->Ok_0;
        assert(ops[0] == (WriteOp::AssignCount { target: count_target(segs, field@)->Some_0 as usize, source: k as usize }));
        assert(ops[ops.len() - 1] == (WriteOp::Write { seg: k as usize }));
    } else {
        lemma_ops_kept(wanted_by, segs, i, (n - 1) as nat);
        let prev = write_ops_upto(wanted_by, segs, (n - 1) as nat)->Ok_0;
        let ops = write_ops_upto(wanted_by, segs, n)->Ok_0;
        let (a, b) = choose|a: int, b: int|
            0 <= a < b < prev.len() && prev[a] == (WriteOp::AssignCount {
                target: count_target(segs, field@)->Some_0 as usize,
                source: k as usize,
            }) && prev[b] == (WriteOp::Write { seg: k as usize });
        // the new operations are appended, or one assignment is put in front
        let m = n - 1;
        if let PacketSegment::Unsized { termination: Some(Terminator::CountInPacket { field_name: f2 }), .. } = segs[m] {
            let j2 = count_target(segs, f2@)->Some_0;
            assert(ops == seq![WriteOp::AssignCount { target: j2 as usize, source: m as usize }] + prev.push(
                WriteOp::Write { seg: m as usize },
            ));
            assert(ops[a + 1] == prev[a]);
            assert(ops[b + 1] == prev[b]);
        } else {
            assert(ops[a] == prev[a]);
            assert(ops[b] == prev[b]);
        }
    }
}

proof fn lemma_write_ops_err_kept(wanted_by: Seq<char>, segs: Seq<PacketSegment>, i: nat, n: nat)
    requires
        i <= n,
        write_ops_upto(wanted_by, segs, i) is Err,
    ensures
        write_ops_upto(wanted_by, segs, n) == write_ops_upto(wanted_by, segs, i),
    decreases n,
{
    if i < n {
        lemma_write_ops_err_kept(wanted_by, segs, i, (n - 1) as nat);
    }
}

proof fn lemma_write_ops_err_sticky(wanted_by: Seq<char>, segs: Seq<PacketSegment>, i: nat, n: nat)
    requires
        i <= n,
        write_ops_upto(wanted_by, segs, n) is Ok,
    ensures
        write_ops_upto(wanted_by, segs, i) is Ok,
    decreases n,
{
    if i < n {
        lemma_write_ops_err_sticky(wanted_by, segs, i, (n - 1) as nat);
    }
}

/// The write operations for `segments`, in emission order.
pub fn emit_writes(wanted_by: &str, segments: &Vec<PacketSegment>) -> (r: Result<Vec<WriteOp>, CodegenError>)
    ensures
        match write_ops(wanted_by@, segments@) {
            Ok(ops) => r matches Ok(v) && v@ == ops,
            Err(e) => r matches Err(x) && x@ == e,
        },
{
    let mut ops: Vec<WriteOp> = Vec::new();
    let mut i: usize = 0;
    while i < segments.len()
        invariant
            0 <= i <= segments@.len(),
            write_ops_upto(wanted_by@, segments@, i as nat) == Ok::<Seq<WriteOp>, ErrorModel>(ops@),
        decreases segments@.len() - i,
    {
        match &segments[i] {
            PacketSegment::Struct { name, .. } => {
                proof { lemma_write_ops_err_kept(wanted_by@, segments@, (i + 1) as nat, segments@.len()); }
                return Err(
                    CodegenError::Unimplemented {
                        wanted_by_payload: String::from_str(wanted_by),
                        wanted_by_field: name.clone(),
                    },
                );
            },
            PacketSegment::Sized { .. } => {
                ops.push(WriteOp::Write { seg: i });
            },
            PacketSegment::Unsized { name, termination, .. } => match termination {
                Some(Terminator::Sequence { .. }) => {
                    ops.push(WriteOp::Write { seg: i });
                    ops.push(WriteOp::WriteTerminator { seg: i });
                },
                Some(Terminator::CountInPacket { field_name }) => {
                    match find_count_target(segments, field_name) {
                        None => {
                            proof { lemma_write_ops_err_kept(wanted_by@, segments@, (i + 1) as nat, segments@.len()); }
                            return Err(
                                CodegenError::BadCountField {
                                    wanted_by_payload: String::from_str(wanted_by),
                                    wanted_by_field: name.clone(),
                                    field_name: field_name.clone(),
                                },
                            );
                        },
                        Some(j) => {
                            let mut front: Vec<WriteOp> = Vec::new();
                            front.push(WriteOp::AssignCount { target: j, source: i });
                            ops.push(WriteOp::Write { seg: i });
                            front.append(&mut ops);
                            ops = front;
                        },
                    }
                },
                _ => {
                    ops.push(WriteOp::Write { seg: i });
                },
            },
        }
        i = i + 1;
    }
    Ok(ops)
}

/// The statement that writes `seg`'s own bytes; `p` prefixes field accesses.
pub open spec fn write_text(p: Seq<char>, seg: PacketSegment) -> Seq<char> {
    match seg {
        PacketSegment::Sized { name, bits, datatype, .. } => match datatype {
            SizedDataType::Integer { .. } | SizedDataType::FloatIEEE { .. } =>
                "    write(device, &"@ + p + name@ + ", "@ + decimal(bits as nat) + ");\n"@,
            SizedDataType::Raw | SizedDataType::StringUTF8 =>
                "    write(device, "@ + p + name@ + ", "@ + decimal(bits as nat) + ");\n"@,
            SizedDataType::Const { data } => "    { static const uint8_t "@ + name@ + "[] = {"@ + bytes_text(data@)
                + "}; write(device, "@ + name@ + ", "@ + decimal(bits as nat) + "); }\n"@,
        },
        PacketSegment::Unsized { name, datatype, .. } => match datatype {
            UnsizedDataType::Raw => "    write(device, "@ + p + name@ + ", "@ + p + name@ + "_length);\n"@,
            UnsizedDataType::StringUTF8 => "    write(device, "@ + p + name@ + ", strlen("@ + p + name@ + ") * 8);\n"@,
            UnsizedDataType::Array { item_struct } => "    for (size_t i = 0; i < "@ + p + name@ + "_length; i++) { write_"@
                + item_struct@ + "(device, &"@ + p + name@ + "[i]); }\n"@,
        },
        PacketSegment::Struct { .. } => seq![],
    }
}

/// The statement that sets the count field `target` from the length of `source`.
pub open spec fn assign_text(p: Seq<char>, target: Seq<char>, source: PacketSegment) -> Seq<char> {
    match source {
        PacketSegment::Unsized { name, datatype: UnsizedDataType::StringUTF8, .. } =>
            "    "@ + p + target + " = strlen("@ + p + name@ + ");\n"@,
        _ => "    "@ + p + target + " = "@ + p + segment_name(source) + "_length;\n"@,
    }
}

/// The statement that writes `seg`'s terminator pattern.
pub open spec fn terminator_text(seg: PacketSegment) -> Seq<char> {
    match seg {
        PacketSegment::Unsized { termination: Some(Terminator::Sequence { sequence }), .. } =>
            "    { static const uint8_t terminator[] = {"@ + bytes_text(sequence@)
                + "}; write(device, terminator, sizeof terminator * 8); }\n"@,
        _ => seq![],
    }
}

/// The statement for one write operation.
pub open spec fn write_op_text(segs: Seq<PacketSegment>, p: Seq<char>, op: WriteOp) -> Seq<char> {
    match op {
        WriteOp::Write { seg } => write_text(p, segs[seg as int]),
        WriteOp::AssignCount { target, source } => assign_text(p, segment_name(segs[target as int]), segs[source as int]),
        WriteOp::WriteTerminator { seg } => terminator_text(segs[seg as int]),
    }
}

/// The statements for a sequence of write operations.
pub open spec fn writes_text(segs: Seq<PacketSegment>, p: Seq<char>, ops: Seq<WriteOp>) -> Seq<char>
    decreases ops.len(),
{
    if ops.len() == 0 {
        seq![]
    } else {
        writes_text(segs, p, ops.drop_last()) + write_op_text(segs, p, ops.last())
    }
}

pub(crate) fn write_statement(p: &str, seg: &PacketSegment) -> (r: String)
    ensures
        r@ == write_text(p@, *seg),
{
    match seg {
        PacketSegment::Sized { name, bits, datatype, .. } => match datatype {
            SizedDataType::Integer { .. } | SizedDataType::FloatIEEE { .. } => {
                let mut r = String::from_str("    write(device, &");
                r.append(p);
                r.append(name.as_str());
                r.append(", ");
                push_decimal(&mut r, *bits as u128);
                r.append(");\n");
                r
            },
            SizedDataType::Raw | SizedDataType::StringUTF8 => {
                let mut r = String::from_str("    write(device, ");
                r.append(p);
                r.append(name.as_str());
                r.append(", ");
                push_decimal(&mut r, *bits as u128);
                r.append(");\n");
                r
            },
            SizedDataType::Const { data } => {
                let mut r = String::from_str("    { static const uint8_t ");
                r.append(name.as_str());
                r.append("[] = {");
                push_bytes(&mut r, data);
                r.append("}; write(device, ");
                r.append(name.as_str());
                r.append(", ");
                push_decimal(&mut r, *bits as u128);
                r.append("); }\n");
                r
            },
        },
        PacketSegment::Unsized { name, datatype, .. } => match datatype {
            UnsizedDataType::Raw => {
                let mut r = String::from_str("    write(device, ");
                r.append(p);
                r.append(name.as_str());
                r.append(", ");
                r.append(p);
                r.append(name.as_str());
                r.append("_length);\n");
                r
            },
            UnsizedDataType::StringUTF8 => {
                let mut r = String::from_str("    write(device, ");
                r.append(p);
                r.append(name.as_str());
                r.append(", strlen(");
                r.append(p);
                r.append(name.as_str());
                r.append(") * 8);\n");
                r
            },
            UnsizedDataType::Array { item_struct } => {
                let mut r = String::from_str("    for (size_t i = 0; i < ");
                r.append(p);
                r.append(name.as_str());
                r.append("_length; i++) { write_");
                r.append(item_struct.as_str());
                r.append("(device, &");
                r.append(p);
                r.append(name.as_str());
                r.append("[i]); }\n");
                r
            },
        },
        PacketSegment::Struct { .. } => {
            let r = String::new();
            assert(r@ =~= seq![]);
            r
        },
    }
}

fn assign_statement(p: &str, target: &str, source: &PacketSegment) -> (r: String)
    ensures
        r@ == assign_text(p@, target@, *source),
{
    match source {
        PacketSegment::Unsized { name, datatype: UnsizedDataType::StringUTF8, .. } => {
            let mut r = String::from_str("    ");
            r.append(p);
            r.append(target);
            r.append(" = strlen(");
            r.append(p);
            r.append(name.as_str());
            r.append(");\n");
            r
        },
        _ => {
            let mut r = String::from_str("    ");
            r.append(p);
            r.append(target);
            r.append(" = ");
            r.append(p);
            r.append(source.get_name());
            r.append("_length;\n");
            r
        },
    }
}

pub(crate) fn terminator_statement(seg: &PacketSegment) -> (r: String)
    ensures
        r@ == terminator_text(*seg),
{
    match seg {
        PacketSegment::Unsized { termination: Some(Terminator::Sequence { sequence }), .. } => {
            let mut r = String::from_str("    { static const uint8_t terminator[] = {");
            push_bytes(&mut r, sequence);
            r.append("}; write(device, terminator, sizeof terminator * 8); }\n");
            r
        },
        _ => {
            let r = String::new();
            assert(r@ =~= seq![]);
            r
        },
    }
}

/// The C statements that perform `ops` over `segs`, with `p` prefixing each
/// field access.
pub fn write_statements(segs: &Vec<PacketSegment>, p: &str, ops: &Vec<WriteOp>) -> (r: String)
    requires
        ops_in_range(ops@, segs@.len()),
    ensures
        r@ == writes_text(segs@, p@, ops@),
{
    let mut r = String::new();
    let mut i: usize = 0;
    assert(r@ =~= writes_text(segs@, p@, ops@.take(0)));
    while i < ops.len()
        invariant
            0 <= i <= ops@.len(),
            ops_in_range(ops@, segs@.len()),
            r@ == writes_text(segs@, p@, ops@.take(i as int)),
        decreases ops@.len() - i,
    {
        assert(ops@.take(i + 1).drop_last() =~= ops@.take(i as int));
        let op = ops[i];
        assert(ops@[i as int] == op);
        let piece = match op {
            WriteOp::Write { seg } => write_statement(p, &segs[seg]),
            WriteOp::AssignCount { target, source } => assign_statement(p, segs[target].get_name(), &segs[source]),
            WriteOp::WriteTerminator { seg } => terminator_statement(&segs[seg]),
        };
        r.append(piece.as_str());
        i = i + 1;
    }
    assert(ops@.take(ops@.len() as int) =~= ops@);
    r
}

/// The statements that read a segment whose length comes from `count`.
pub open spec fn counted_read_text(p: Seq<char>, name: Seq<char>, datatype: UnsizedDataType, count: Seq<char>) -> Seq<char> {
    match datatype {
        UnsizedDataType::Raw => "    "@ + p + name + "_length = "@ + count + ";\n    read(device, "@ + p + name + ", "@ + p
            + name + "_length);\n"@,
        UnsizedDataType::StringUTF8 => "    read(device, "@ + p + name + ", ("@ + count + ") * 8);\n"@,
        UnsizedDataType::Array { item_struct } => "    "@ + p + name + "_length = "@ + count
            + ";\n    for (size_t i = 0; i < "@ + p + name + "_length; i++) { read_"@ + item_struct@ + "(device, &"@ + p
            + name + "[i]); }\n"@,
    }
}

/// The length a fixed count stands for: bits for raw data, elements otherwise.
pub open spec fn fixed_count_units(datatype: UnsizedDataType, count: nat) -> nat {
    match datatype {
        UnsizedDataType::Raw => count * 8,
        _ => count,
    }
}

/// The statements that read segment `k` of `segs` into `p`-prefixed fields,
/// or why it cannot be read.
pub open spec fn read_text(wanted_by: Seq<char>, segs: Seq<PacketSegment>, p: Seq<char>, k: int) -> Result<Seq<char>, ErrorModel> {
    match segs[k] {
        PacketSegment::Sized { name, bits, datatype, .. } => Ok(
            match datatype {
                SizedDataType::Integer { .. } | SizedDataType::FloatIEEE { .. } =>
                    "    read(device, &"@ + p + name@ + ", "@ + decimal(bits as nat) + ");\n"@,
                SizedDataType::Raw | SizedDataType::StringUTF8 =>
                    "    read(device, "@ + p + name@ + ", "@ + decimal(bits as nat) + ");\n"@,
                SizedDataType::Const { data } => "    { static const uint8_t expected[] = {"@ + bytes_text(data@)
                    + "}; uint8_t actual[sizeof expected]; read(device, actual, "@ + decimal(bits as nat)
                    + "); if (memcmp(actual, expected, sizeof expected) != 0) return -1; }\n"@,
            },
        ),
        PacketSegment::Unsized { name, datatype, termination, .. } => match termination {
            None => Err(ErrorModel::Unterminated { wanted_by_payload: wanted_by, wanted_by_field: name@ }),
            Some(Terminator::Sequence { sequence }) => match datatype {
                UnsizedDataType::Raw => Ok(
                    "    { static const uint8_t terminator[] = {"@ + bytes_text(sequence@) + "}; read_until(device, "@ + p
                        + name@ + ", &"@ + p + name@ + "_length, terminator, sizeof terminator); }\n"@,
                ),
                UnsizedDataType::StringUTF8 => Ok(
                    "    { static const uint8_t terminator[] = {"@ + bytes_text(sequence@) + "}; read_until(device, "@ + p
                        + name@ + ", NULL, terminator, sizeof terminator); }\n"@,
                ),
                UnsizedDataType::Array { item_struct } => Ok(
                    "    { static const uint8_t terminator[] = {"@ + bytes_text(sequence@) + "}; "@ + p + name@
                        + "_length = 0; while (!read_sequence(device, terminator, sizeof terminator)) { read_"@
                        + item_struct@ + "(device, &"@ + p + name@ + "["@ + p + name@ + "_length]); "@ + p + name@
                        + "_length++; } }\n"@,
                ),
            },
            Some(Terminator::CountFixed { count }) => Ok(
                counted_read_text(p, name@, datatype, decimal(fixed_count_units(datatype, count as nat))),
            ),
            Some(Terminator::CountInPacket { field_name }) => match count_target(segs, field_name@) {
                Some(j) => if j < k {
                    Ok(counted_read_text(p, name@, datatype, p + field_name@))
                } else {
                    Err(
                        ErrorModel::BadCountField {
                            wanted_by_payload: wanted_by,
                            wanted_by_field: name@,
                            field_name: field_name@,
                        },
                    )
                },
                None => Err(
                    ErrorModel::BadCountField { wanted_by_payload: wanted_by, wanted_by_field: name@, field_name: field_name@ },
                ),
            },
        },
        PacketSegment::Struct { name, .. } => Err(
            ErrorModel::Unimplemented { wanted_by_payload: wanted_by, wanted_by_field: name@ },
        ),
    }
}

/// The statements that read the first `i` segments, or the first error.
pub open spec fn reads_upto(wanted_by: Seq<char>, segs: Seq<PacketSegment>, p: Seq<char>, i: nat) -> Result<Seq<char>, ErrorModel>
    decreases i,
{
    if i == 0 {
        Ok(seq![])
    } else {
        match reads_upto(wanted_by, segs, p, (i - 1) as nat) {
            Err(e) => Err(e),
            Ok(prev) => match read_text(wanted_by, segs, p, i - 1) {
                Err(e) => Err(e),
                Ok(t) => Ok(prev + t),
            },
        }
    }
}

/// The statements that read all of `segs`.
pub open spec fn reads_text(wanted_by: Seq<char>, segs: Seq<PacketSegment>, p: Seq<char>) -> Result<Seq<char>, ErrorModel> {
    reads_upto(wanted_by, segs, p, segs.len())
}

proof fn lemma_reads_err_kept(wanted_by: Seq<char>, segs: Seq<PacketSegment>, p: Seq<char>, i: nat, n: nat)
    requires
        i <= n,
        reads_upto(wanted_by, segs, p, i) is Err,
    ensures
        reads_upto(wanted_by, segs, p, n) == reads_upto(wanted_by, segs, p, i),
    decreases n,
{
    if i < n {
        lemma_reads_err_kept(wanted_by, segs, p, i, (n - 1) as nat);
    }
}

fn counted_read(p: &str, name: &String, datatype: &UnsizedDataType, count: &String) -> (r: String)
    ensures
        r@ == counted_read_text(p@, name@, *datatype, count@),
{
    match datatype {
        UnsizedDataType::Raw => {
            let mut r = String::from_str("    ");
            r.append(p);
            r.append(name.as_str());
            r.append("_length = ");
            r.append(count.as_str());
            r.append(";\n    read(device, ");
            r.append(p);
            r.append(name.as_str());
            r.append(", ");
            r.append(p);
            r.append(name.as_str());
            r.append("_length);\n");
            r
        },
        UnsizedDataType::StringUTF8 => {
            let mut r = String::from_str("    read(device, ");
            r.append(p);
            r.append(name.as_str());
            r.append(", (");
            r.append(count.as_str());
            r.append(") * 8);\n");
            r
        },
        UnsizedDataType::Array { item_struct } => {
            let mut r = String::from_str("    ");
            r.append(p);
            r.append(name.as_str());
            r.append("_length = ");
            r.append(count.as_str());
            r.append(";\n    for (size_t i = 0; i < ");
            r.append(p);
            r.append(name.as_str());
            r.append("_length; i++) { read_");
            r.append(item_struct.as_str());
            r.append("(device, &");
            r.append(p);
            r.append(name.as_str());
            r.append("[i]); }\n");
            r
        },
    }
}

fn read_statement(wanted_by: &str, segs: &Vec<PacketSegment>, p: &str, k: usize) -> (r: Result<String, CodegenError>)
    requires
        k < segs@.len(),
    ensures
        match read_text(wanted_by@, segs@, p@, k as int) {
            Ok(t) => r matches Ok(s) && s@ == t,
            Err(e) => r matches Err(x) && x@ == e,
        },
{
    match &segs[k] {
        PacketSegment::Sized { name, bits, datatype, .. } => match datatype {
            SizedDataType::Integer { .. } | SizedDataType::FloatIEEE { .. } => {
                let mut r = String::from_str("    read(device, &");
                r.append(p);
                r.append(name.as_str());
                r.append(", ");
                push_decimal(&mut r, *bits as u128);
                r.append(");\n");
                Ok(r)
            },
            SizedDataType::Raw | SizedDataType::StringUTF8 => {
                let mut r = String::from_str("    read(device, ");
                r.append(p);
                r.append(name.as_str());
                r.append(", ");
                push_decimal(&mut r, *bits as u128);
                r.append(");\n");
                Ok(r)
            },
            SizedDataType::Const { data } => {
                let mut r = String::from_str("    { static const uint8_t expected[] = {");
                push_bytes(&mut r, data);
                r.append("}; uint8_t actual[sizeof expected]; read(device, actual, ");
                push_decimal(&mut r, *bits as u128);
                r.append("); if (memcmp(actual, expected, sizeof expected) != 0) return -1; }\n");
                Ok(r)
            },
        },
        PacketSegment::Unsized { name, datatype, termination, .. } => match termination {
            None => Err(
                CodegenError::Unterminated { wanted_by_payload: String::from_str(wanted_by), wanted_by_field: name.clone() },
            ),
            Some(Terminator::Sequence { sequence }) => match datatype {
                UnsizedDataType::Raw => {
                    let mut r = String::from_str("    { static const uint8_t terminator[] = {");
                    push_bytes(&mut r, sequence);
                    r.append("}; read_until(device, ");
                    r.append(p);
                    r.append(name.as_str());
                    r.append(", &");
                    r.append(p);
                    r.append(name.as_str());
                    r.append("_length, terminator, sizeof terminator); }\n");
                    Ok(r)
                },
                UnsizedDataType::StringUTF8 => {
                    let mut r = String::from_str("    { static const uint8_t terminator[] = {");
                    push_bytes(&mut r, sequence);
                    r.append("}; read_until(device, ");
                    r.append(p);
                    r.append(name.as_str());
                    r.append(", NULL, terminator, sizeof terminator); }\n");
                    Ok(r)
                },
                UnsizedDataType::Array { item_struct } => {
                    let mut r = String::from_str("    { static const uint8_t terminator[] = {");
                    push_bytes(&mut r, sequence);
                    r.append("}; ");
                    r.append(p);
                    r.append(name.as_str());
                    r.append("_length = 0; while (!read_sequence(device, terminator, sizeof terminator)) { read_");
                    r.append(item_struct.as_str());
                    r.append("(device, &");
                    r.append(p);
                    r.append(name.as_str());
                    r.append("[");
                    r.append(p);
                    r.append(name.as_str());
                    r.append("_length]); ");
                    r.append(p);
                    r.append(name.as_str());
                    r.append("_length++; } }\n");
                    Ok(r)
                },
            },
            Some(Terminator::CountFixed { count }) => {
                let units: u128 = match datatype {
                    UnsizedDataType::Raw => *count as u128 * 8,
                    _ => *count as u128,
                };
                let mut c = String::new();
                push_decimal(&mut c, units);
                assert(c@ =~= decimal(fixed_count_units(*datatype, *count as nat)));
                Ok(counted_read(p, name, datatype, &c))
            },
            Some(Terminator::CountInPacket { field_name }) => match find_count_target(segs, field_name) {
                Some(j) => {
                    if j < k {
                        let mut c = String::from_str(p);
                        c.append(field_name.as_str());
                        Ok(counted_read(p, name, datatype, &c))
                    } else {
                        Err(
                            CodegenError::BadCountField {
                                wanted_by_payload: String::from_str(wanted_by),
                                wanted_by_field: name.clone(),
                                field_name: field_name.clone(),
                            },
                        )
                    }
                },
                None => Err(
                    CodegenError::BadCountField {
                        wanted_by_payload: String::from_str(wanted_by),
                        wanted_by_field: name.clone(),
                        field_name: field_name.clone(),
                    },
                ),
            },
        },
        PacketSegment::Struct { name, .. } => Err(
            CodegenError::Unimplemented { wanted_by_payload: String::from_str(wanted_by), wanted_by_field: name.clone() },
        ),
    }
}

/// The C statements that read `segments` into `p`-prefixed fields, in order.
/// A constant segment is read and compared with its literal.
pub fn emit_reads(wanted_by: &str, segments: &Vec<PacketSegment>, p: &str) -> (r: Result<String, CodegenError>)
    ensures
        match reads_text(wanted_by@, segments@, p@) {
            Ok(t) => r matches Ok(s) && s@ == t,
            Err(e) => r matches Err(x) && x@ == e,
        },
{
    let mut out = String::new();
    let mut i: usize = 0;
    assert(out@ =~= seq![]);
    while i < segments.len()
        invariant
            0 <= i <= segments@.len(),
            reads_upto(wanted_by@, segments@, p@, i as nat) == Ok::<Seq<char>, ErrorModel>(out@),
        decreases segments@.len() - i,
    {
        match read_statement(wanted_by, segments, p, i) {
            Ok(t) => {
                out.append(t.as_str());
            },
            Err(e) => {
                proof { lemma_reads_err_kept(wanted_by@, segments@, p@, (i + 1) as nat, segments@.len()); }
                return Err(e);
            },
        }
        i = i + 1;
    }
    Ok(out)
}

proof fn lemma_writes_text_concat(segs: Seq<PacketSegment>, p: Seq<char>, a: Seq<WriteOp>, b: Seq<WriteOp>)
    ensures
        writes_text(segs, p, a + b) == writes_text(segs, p, a) + writes_text(segs, p, b),
    decreases b.len(),
{
    if b.len() == 0 {
        assert(a + b =~= a);
        assert(writes_text(segs, p, a) + writes_text(segs, p, b) =~= writes_text(segs, p, a));
    } else {
        lemma_writes_text_concat(segs, p, a, b.drop_last());
        assert((a + b).drop_last() =~= a + b.drop_last());
        assert((a + b).last() == b.last());
        assert(writes_text(segs, p, a + b) =~= writes_text(segs, p, a) + writes_text(segs, p, b));
    }
}

proof fn lemma_writes_text_single(segs: Seq<PacketSegment>, p: Seq<char>, op: WriteOp)
    ensures
        writes_text(segs, p, seq![op]) == write_op_text(segs, p, op),
{
    assert(seq![op].drop_last() =~= Seq::<WriteOp>::empty());
    assert(seq![op].last() == op);
    assert(writes_text(segs, p, Seq::<WriteOp>::empty()) == Seq::<char>::empty());
    assert(writes_text(segs, p, seq![op]) =~= write_op_text(segs, p, op));
}

/// In the text of the operations, the text of operation `a` comes before the
/// text of a later operation `b`.
pub proof fn lemma_op_texts_in_order(segs: Seq<PacketSegment>, p: Seq<char>, ops: Seq<WriteOp>, a: int, b: int)
    requires
        0 <= a < b < ops.len(),
    ensures
        exists|x: Seq<char>, y: Seq<char>, z: Seq<char>|
            writes_text(segs, p, ops) == x + write_op_text(segs, p, ops[a]) + y + write_op_text(segs, p, ops[b]) + z,
{
    let s1 = ops.take(a);
    let s2 = ops.subrange(a + 1, b);
    let s3 = ops.skip(b + 1);
    assert(ops =~= s1 + seq![ops[a]] + s2 + seq![ops[b]] + s3);
    lemma_writes_text_concat(segs, p, s1 + seq![ops[a]] + s2 + seq![ops[b]], s3);
    lemma_writes_text_concat(segs, p, s1 + seq![ops[a]] + s2, seq![ops[b]]);
    lemma_writes_text_concat(segs, p, s1 + seq![ops[a]], s2);
    lemma_writes_text_concat(segs, p, s1, seq![ops[a]]);
    lemma_writes_text_single(segs, p, ops[a]);
    lemma_writes_text_single(segs, p, ops[b]);
    let x = writes_text(segs, p, s1);
    let y = writes_text(segs, p, s2);
    let z = writes_text(segs, p, s3);
    assert(writes_text(segs, p, ops) == x + write_op_text(segs, p, ops[a]) + y + write_op_text(segs, p, ops[b]) + z);
}

/// In the emitted statements, the statement that sets a count field from the
/// length of the data it counts comes before the statement that writes that
/// data: `len = payload_bytes_length;` precedes `write(device, payload_bytes, ...)`.
pub proof fn lemma_count_statement_before_data(wanted_by: Seq<char>, segs: Seq<PacketSegment>, p: Seq<char>, k: int)
    requires
        0 <= k < segs.len() <= usize::MAX,
        write_ops(wanted_by, segs) is Ok,
        segs[k] matches PacketSegment::Unsized { termination: Some(Terminator::CountInPacket { .. }), .. },
    ensures
        ({
            let ops = write_ops(wanted_by, segs)->Ok_0;
            let field = segs[k]->Unsized_termination->Some_0->CountInPacket_field_name;
            let j = count_target(segs, field@)->Some_0;
            exists|x: Seq<char>, y: Seq<char>, z: Seq<char>|
                writes_text(segs, p, ops) == x + assign_text(p, segment_name(segs[j]), segs[k]) + y + write_text(p, segs[k]) + z
        }),
{
    lemma_count_assigned_before_data(wanted_by, segs, k);
    let ops = write_ops(wanted_by, segs)->Ok_0;
    let field = segs[k]->Unsized_termination->Some_0->CountInPacket_field_name;
    let j = count_target(segs, field@)->Some_0;
    let (a, b) = choose|a: int, b: int|
        0 <= a < b < ops.len() && ops[a] == (WriteOp::AssignCount { target: j as usize, source: k as usize })
            && ops[b] == (WriteOp::Write { seg: k as usize });
    lemma_find_segment_bounds(segs, field@, 0);
    lemma_op_texts_in_order(segs, p, ops, a, b);
    assert(write_op_text(segs, p, ops[a]) == assign_text(p, segment_name(segs[j]), segs[k]));
    assert(write_op_text(segs, p, ops[b]) == write_text(p, segs[k]));
}

} // verus!
