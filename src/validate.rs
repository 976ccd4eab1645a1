//! Whole-document validation: struct references, RX termination, transaction
//! references and naming.

use vstd::prelude::*;
use crate::config::{
    segment_name,
    find_key, lookup, Action, OpenPID, PacketSegment, Payload, Transaction,
    UnsizedDataType,
};
use crate::error::{append_errors, error_models, push_error, CodegenError, Direction, ErrorModel, NameKind};
use crate::naming::{is_snake_case, is_snake_case_spec};

verus! {

/// Which rule a walk over segments checks.
#[derive(Debug, Clone, Copy, PartialEq, Eq, Structural)]
///
/// Every mode reports a struct that contains itself, since the walk cannot go
/// on through it.
pub enum CheckMode {
    /// Every referenced struct exists.
    StructRefs,
    /// No unsized segment lacks a terminator.
    Termination,
    /// Both of the above, in one walk.
    All,
}

/// Whether a walk in `mode` reports references to missing structs.
pub open spec fn reports_missing(mode: CheckMode) -> bool {
    mode != CheckMode::Termination
}

/// Whether a walk in `mode` reports unterminated unsized segments.
pub open spec fn reports_unterminated(mode: CheckMode) -> bool {
    mode != CheckMode::StructRefs
}

/// `f` applied to each element of `s`, results joined in order.
pub open spec fn concat_map<A, B>(s: Seq<A>, f: spec_fn(A) -> Seq<B>) -> Seq<B>
    decreases s.len(),
{
    if s.len() == 0 {
        seq![]
    } else {
        concat_map(s.drop_last(), f) + f(s.last())
    }
}

pub proof fn lemma_concat_map_step<A, B>(s: Seq<A>, f: spec_fn(A) -> Seq<B>, i: int)
    requires
        0 <= i < s.len(),
    ensures
        concat_map(s.take(i + 1), f) == concat_map(s.take(i), f) + f(s[i]),
{
    assert(s.take(i + 1).drop_last() =~= s.take(i));
}

pub proof fn lemma_concat_map_all<A, B>(s: Seq<A>, f: spec_fn(A) -> Seq<B>)
    ensures
        concat_map(s.take(s.len() as int), f) == concat_map(s, f),
{
    assert(s.take(s.len() as int) =~= s);
}

/// Path of a field reached through an array of `item` structs.
pub open spec fn array_path(wanted_by: Seq<char>, item: Seq<char>, field: Seq<char>) -> Seq<char> {
    wanted_by + "->[Array of "@ + item + "]"@ + field
}

/// Path of a field reached through a nested `s` struct.
pub open spec fn struct_path(wanted_by: Seq<char>, s: Seq<char>, field: Seq<char>) -> Seq<char> {
    wanted_by + "->[Struct "@ + s + "]"@ + field
}

/// Violations of `mode` in `segs` and in every struct they reach, in order.
/// `stack` holds the structs being expanded on the way here.
pub open spec fn segment_checks(
    doc: OpenPID,
    mode: CheckMode,
    wanted_by: Seq<char>,
    segs: Seq<PacketSegment>,
    stack: Seq<usize>,
) -> Seq<ErrorModel>
    decreases doc.structs@.len() - stack.len(), segs.len(), 1nat,
{
    if segs.len() == 0 {
        seq![]
    } else {
        let init = segment_checks(doc, mode, wanted_by, segs.drop_last(), stack);
        match segs.last() {
            PacketSegment::Sized { .. } => init,
            PacketSegment::Unsized { name, datatype, termination, .. } => {
                let own = if reports_unterminated(mode) && termination is None {
                    seq![ErrorModel::Unterminated { wanted_by_payload: wanted_by, wanted_by_field: name@ }]
                } else {
                    seq![]
                };
                match datatype {
                    UnsizedDataType::Array { item_struct } => init + own + struct_checks(
                        doc,
                        mode,
                        wanted_by,
                        name@,
                        item_struct@,
                        array_path(wanted_by, item_struct@, name@),
                        stack,
                    ),
                    _ => init + own,
                }
            },
            PacketSegment::Struct { name, struct_name } => init + struct_checks(
                doc,
                mode,
                wanted_by,
                name@,
                struct_name@,
                struct_path(wanted_by, struct_name@, name@),
                stack,
            ),
        }
    }
}

/// Violations of `mode` found by following field `field` of `wanted_by` into
/// the struct named `s`.
pub open spec fn struct_checks(
    doc: OpenPID,
    mode: CheckMode,
    wanted_by: Seq<char>,
    field: Seq<char>,
    s: Seq<char>,
    path: Seq<char>,
    stack: Seq<usize>,
) -> Seq<ErrorModel>
    decreases doc.structs@.len() - stack.len(), 0nat, 0nat,
{
    match find_key(doc.structs@, s) {
        None => if reports_missing(mode) {
            seq![ErrorModel::NoStruct { wanted_by_payload: wanted_by, wanted_by_field: field, struct_name: s }]
        } else {
            seq![]
        },
        // a struct already being expanded is a cycle; so is a path longer than
        // the struct table, which must repeat one
        Some(j) => if stack.contains(j as usize) || stack.len() >= doc.structs@.len() || j < 0 {
            seq![ErrorModel::CyclicStruct { wanted_by_payload: wanted_by, wanted_by_field: field, struct_name: s }]
        } else {
            segment_checks(doc, mode, path, doc.structs@[j].1.fields@, stack.push(j as usize))
        },
    }
}

/// Errors for the transaction actions that name a payload missing from its table.
pub open spec fn action_check(doc: OpenPID, transaction: Seq<char>) -> spec_fn(Action) -> Seq<ErrorModel> {
    |a: Action|
        match a {
            Action::Tx { payload } => if find_key(doc.payloads.tx@, payload@) is None {
                seq![ErrorModel::NoPayload { wanted_by_transaction: transaction, payload: payload@, direction: Direction::Tx }]
            } else {
                seq![]
            },
            Action::Rx { payload } => if find_key(doc.payloads.rx@, payload@) is None {
                seq![ErrorModel::NoPayload { wanted_by_transaction: transaction, payload: payload@, direction: Direction::Rx }]
            } else {
                seq![]
            },
            _ => seq![],
        }
}

/// Errors for one transaction's actions.
pub open spec fn transaction_check(doc: OpenPID) -> spec_fn((String, Transaction)) -> Seq<ErrorModel> {
    |e: (String, Transaction)| concat_map(e.1.actions@, action_check(doc, e.0@))
}

/// Errors of `mode` for one payload's segments.
pub open spec fn payload_check(doc: OpenPID, mode: CheckMode) -> spec_fn((String, Payload)) -> Seq<ErrorModel> {
    |e: (String, Payload)| segment_checks(doc, mode, e.0@, e.1.segments@, seq![])
}

/// The naming error for a table key that is not in snake case.
pub open spec fn name_check<T>(kind: NameKind) -> spec_fn((String, T)) -> Seq<ErrorModel> {
    |e: (String, T)|
        if is_snake_case_spec(e.0@) {
            seq![]
        } else {
            seq![ErrorModel::NotSnakeCase { kind, name: e.0@ }]
        }
}

/// Every violation in a document, in the order `validate` reports them: the
/// struct and termination problems of RX payloads, transaction references,
/// the struct problems of TX payloads, then names of structs, TX payloads, RX
/// payloads and transactions.
pub open spec fn validation_errors(doc: OpenPID) -> Seq<ErrorModel> {
    concat_map(doc.payloads.rx@, payload_check(doc, CheckMode::All))
        + concat_map(doc.transactions@, transaction_check(doc))
        + concat_map(doc.payloads.tx@, payload_check(doc, CheckMode::StructRefs))
        + concat_map(doc.structs@, name_check(NameKind::Struct))
        + concat_map(doc.payloads.tx@, name_check(NameKind::TxPayload))
        + concat_map(doc.payloads.rx@, name_check(NameKind::RxPayload))
        + concat_map(doc.transactions@, name_check(NameKind::Transaction))
}

fn contains_index(v: &Vec<usize>, x: usize) -> (r: bool)
    ensures
        r == v@.contains(x),
{
    let mut i: usize = 0;
    while i < v.len()
        invariant
            0 <= i <= v@.len(),
            forall|k: int| 0 <= k < i ==> v@[k] != x,
        decreases v@.len() - i,
    {
        if v[i] == x {
            return true;
        }
        i = i + 1;
    }
    false
}

fn pushed(v: &Vec<usize>, x: usize) -> (r: Vec<usize>)
    ensures
        r@ == v@.push(x),
{
    let mut r: Vec<usize> = Vec::new();
    let mut i: usize = 0;
    while i < v.len()
        invariant
            0 <= i <= v@.len(),
            r@ == v@.take(i as int),
        decreases v@.len() - i,
    {
        r.push(v[i]);
        assert(v@.take(i + 1) =~= v@.take(i as int).push(v@[i as int]));
        i = i + 1;
    }
    r.push(x);
    assert(v@.take(v@.len() as int) =~= v@);
    r
}

fn path_through(wanted_by: &str, label: &str, s: &String, field: &String) -> (r: String)
    ensures
        r@ == wanted_by@ + label@ + s@ + "]"@ + field@,
{
    let mut r = String::from_str(wanted_by);
    r.append(label);
    r.append(s.as_str());
    r.append("]");
    r.append(field.as_str());
    r
}

impl OpenPID {
    fn check_segments(&self, mode: CheckMode, wanted_by: &str, segs: &Vec<PacketSegment>, stack: &Vec<usize>) -> (r: Vec<
        CodegenError,
    >)
        ensures
            error_models(r@) == segment_checks(*self, mode, wanted_by@, segs@, stack@),
        decreases self.structs@.len() - stack@.len(), segs@.len(), 1nat,
    {
        let mut errs: Vec<CodegenError> = Vec::new();
        let mut i: usize = 0;
        assert(error_models(errs@) =~= seq![]);
        assert(segs@.take(0) =~= seq![]);
        while i < segs.len()
            invariant
                0 <= i <= segs@.len(),
                error_models(errs@) == segment_checks(*self, mode, wanted_by@, segs@.take(i as int), stack@),
            decreases segs@.len() - i,
        {
            let ghost pre = segs@.take(i as int);
            assert(segs@.take(i + 1).drop_last() =~= pre);
            assert(segs@.take(i + 1).last() == segs@[i as int]);
            match &segs[i] {
                PacketSegment::Sized { .. } => {},
                PacketSegment::Unsized { name, datatype, termination, .. } => {
                    if mode != CheckMode::StructRefs && termination.is_none() {
                        push_error(
                            &mut errs,
                            CodegenError::Unterminated {
                                wanted_by_payload: String::from_str(wanted_by),
                                wanted_by_field: name.clone(),
                            },
                        );
                    }
                    assert(error_models(errs@) == segment_checks(*self, mode, wanted_by@, pre, stack@) + (
                    if reports_unterminated(mode) && termination is None {
                        seq![ErrorModel::Unterminated { wanted_by_payload: wanted_by@, wanted_by_field: name@ }]
                    } else {
                        seq![]
                    })) by {
                        if !(reports_unterminated(mode) && termination is None) {
                            assert(error_models(errs@) =~= segment_checks(*self, mode, wanted_by@, pre, stack@) + seq![]);
                        }
                    }
                    match datatype {
                        UnsizedDataType::Array { item_struct } => {
                            let path = path_through(wanted_by, "->[Array of ", item_struct, name);
                            let more = self.check_struct(mode, wanted_by, name, item_struct, &path, stack);
                            append_errors(&mut errs, more);
                        },
                        _ => {},
                    }
                },
                PacketSegment::Struct { name, struct_name } => {
                    let path = path_through(wanted_by, "->[Struct ", struct_name, name);
                    let more = self.check_struct(mode, wanted_by, name, struct_name, &path, stack);
                    append_errors(&mut errs, more);
                },
            }
            i = i + 1;
        }
        assert(segs@.take(segs@.len() as int) =~= segs@);
        errs
    }

    fn check_struct(
        &self,
        mode: CheckMode,
        wanted_by: &str,
        field: &String,
        s: &String,
        path: &String,
        stack: &Vec<usize>,
    ) -> (r: Vec<CodegenError>)
        ensures
            error_models(r@) == struct_checks(*self, mode, wanted_by@, field@, s@, path@, stack@),
        decreases self.structs@.len() - stack@.len(), 0nat, 0nat,
    {
        let mut errs: Vec<CodegenError> = Vec::new();
        match lookup(&self.structs, s) {
            None => {
                if mode != CheckMode::Termination {
                    push_error(
                        &mut errs,
                        CodegenError::NoStruct {
                            wanted_by_payload: String::from_str(wanted_by),
                            wanted_by_field: field.clone(),
                            struct_name: s.clone(),
                        },
                    );
                }
                assert(error_models(errs@) =~= struct_checks(*self, mode, wanted_by@, field@, s@, path@, stack@));
            },
            Some(j) => {
                if contains_index(stack, j) || stack.len() >= self.structs.len() {
                    push_error(
                        &mut errs,
                        CodegenError::CyclicStruct {
                            wanted_by_payload: String::from_str(wanted_by),
                            wanted_by_field: field.clone(),
                            struct_name: s.clone(),
                        },
                    );
                    assert(error_models(errs@) =~= struct_checks(*self, mode, wanted_by@, field@, s@, path@, stack@));
                } else {
                    let inner = pushed(stack, j);
                    errs = self.check_segments(mode, path.as_str(), &self.structs[j].1.fields, &inner);
                }
            },
        }
        errs
    }

    /// Checks that every struct reachable from `segments` exists and that no
    /// struct contains itself.
    pub fn validate_struct_refs(&self, wanted_by: &str, segments: &Vec<PacketSegment>) -> (r: Vec<CodegenError>)
        ensures
            error_models(r@) == segment_checks(*self, CheckMode::StructRefs, wanted_by@, segments@, seq![]),
    {
        let stack: Vec<usize> = Vec::new();
        self.check_segments(CheckMode::StructRefs, wanted_by, segments, &stack)
    }

    /// Checks that no unsized segment reachable from `segments`, directly or
    /// through structs and arrays of structs, lacks a terminator. A struct
    /// that contains itself is reported too, as the walk cannot go through it.
    pub fn validate_no_unsized_unterminated_rx(&self, wanted_by: &str, segments: &Vec<PacketSegment>) -> (r: Vec<
        CodegenError,
    >)
        ensures
            error_models(r@) == segment_checks(*self, CheckMode::Termination, wanted_by@, segments@, seq![]),
    {
        let stack: Vec<usize> = Vec::new();
        self.check_segments(CheckMode::Termination, wanted_by, segments, &stack)
    }
}

fn name_errors<T>(kind: NameKind, entries: &Vec<(String, T)>) -> (r: Vec<CodegenError>)
    ensures
        error_models(r@) == concat_map(entries@, name_check::<T>(kind)),
{
    let mut errs: Vec<CodegenError> = Vec::new();
    let mut i: usize = 0;
    assert(error_models(errs@) =~= concat_map(entries@.take(0), name_check::<T>(kind)));
    while i < entries.len()
        invariant
            0 <= i <= entries@.len(),
            error_models(errs@) == concat_map(entries@.take(i as int), name_check::<T>(kind)),
        decreases entries@.len() - i,
    {
        proof { lemma_concat_map_step(entries@, name_check::<T>(kind), i as int); }
        let name = &entries[i].0;
        if !is_snake_case(name) {
            push_error(&mut errs, CodegenError::NotSnakeCase { kind, name: name.clone() });
            assert(error_models(errs@) =~= concat_map(entries@.take(i as int), name_check::<T>(kind)) + seq![
                ErrorModel::NotSnakeCase { kind, name: name@ },
            ]);
        } else {
            assert(error_models(errs@) =~= concat_map(entries@.take(i as int), name_check::<T>(kind)) + seq![]);
        }
        i = i + 1;
    }
    proof { lemma_concat_map_all(entries@, name_check::<T>(kind)); }
    errs
}

impl OpenPID {
    fn payload_errors(&self, mode: CheckMode, entries: &Vec<(String, Payload)>) -> (r: Vec<CodegenError>)
        ensures
            error_models(r@) == concat_map(entries@, payload_check(*self, mode)),
    {
        let mut errs: Vec<CodegenError> = Vec::new();
        let mut i: usize = 0;
        assert(error_models(errs@) =~= concat_map(entries@.take(0), payload_check(*self, mode)));
        while i < entries.len()
            invariant
                0 <= i <= entries@.len(),
                error_models(errs@) == concat_map(entries@.take(i as int), payload_check(*self, mode)),
            decreases entries@.len() - i,
        {
            proof { lemma_concat_map_step(entries@, payload_check(*self, mode), i as int); }
            let stack: Vec<usize> = Vec::new();
            let more = self.check_segments(mode, entries[i].0.as_str(), &entries[i].1.segments, &stack);
            append_errors(&mut errs, more);
            i = i + 1;
        }
        proof { lemma_concat_map_all(entries@, payload_check(*self, mode)); }
        errs
    }

    fn action_errors(&self, transaction: &String, actions: &Vec<Action>) -> (r: Vec<CodegenError>)
        ensures
            error_models(r@) == concat_map(actions@, action_check(*self, transaction@)),
    {
        let mut errs: Vec<CodegenError> = Vec::new();
        let mut i: usize = 0;
        assert(error_models(errs@) =~= concat_map(actions@.take(0), action_check(*self, transaction@)));
        while i < actions.len()
            invariant
                0 <= i <= actions@.len(),
                error_models(errs@) == concat_map(actions@.take(i as int), action_check(*self, transaction@)),
            decreases actions@.len() - i,
        {
            proof { lemma_concat_map_step(actions@, action_check(*self, transaction@), i as int); }
            let ghost before = error_models(errs@);
            match &actions[i] {
                Action::Tx { payload } => {
                    if lookup(&self.payloads.tx, payload).is_none() {
                        push_error(
                            &mut errs,
                            CodegenError::NoPayload {
                                wanted_by_transaction: transaction.clone(),
                                payload: payload.clone(),
                                direction: Direction::Tx,
                            },
                        );
                    }
                },
                Action::Rx { payload } => {
                    if lookup(&self.payloads.rx, payload).is_none() {
                        push_error(
                            &mut errs,
                            CodegenError::NoPayload {
                                wanted_by_transaction: transaction.clone(),
                                payload: payload.clone(),
                                direction: Direction::Rx,
                            },
                        );
                    }
                },
                _ => {},
            }
            assert(error_models(errs@) =~= before + action_check(*self, transaction@)(actions@[i as int]));
            i = i + 1;
        }
        proof { lemma_concat_map_all(actions@, action_check(*self, transaction@)); }
        errs
    }

    fn transaction_errors(&self) -> (r: Vec<CodegenError>)
        ensures
            error_models(r@) == concat_map(self.transactions@, transaction_check(*self)),
    {
        let mut errs: Vec<CodegenError> = Vec::new();
        let mut i: usize = 0;
        assert(error_models(errs@) =~= concat_map(self.transactions@.take(0), transaction_check(*self)));
        while i < self.transactions.len()
            invariant
                0 <= i <= self.transactions@.len(),
                error_models(errs@) == concat_map(self.transactions@.take(i as int), transaction_check(*self)),
            decreases self.transactions@.len() - i,
        {
            proof { lemma_concat_map_step(self.transactions@, transaction_check(*self), i as int); }
            let more = self.action_errors(&self.transactions[i].0, &self.transactions[i].1.actions);
            append_errors(&mut errs, more);
            i = i + 1;
        }
        proof { lemma_concat_map_all(self.transactions@, transaction_check(*self)); }
        errs
    }

    /// Checks the whole document and reports every violation found, or `Ok`
    /// when there is none.
    pub fn validate(&self) -> (r: Result<(), Vec<CodegenError>>)
        ensures
            r is Ok <==> validation_errors(*self).len() == 0,
            r matches Err(e) ==> error_models(e@) == validation_errors(*self),
    {
        let mut errs = self.payload_errors(CheckMode::All, &self.payloads.rx);
        append_errors(&mut errs, self.transaction_errors());
        append_errors(&mut errs, self.payload_errors(CheckMode::StructRefs, &self.payloads.tx));
        append_errors(&mut errs, name_errors(NameKind::Struct, &self.structs));
        append_errors(&mut errs, name_errors(NameKind::TxPayload, &self.payloads.tx));
        append_errors(&mut errs, name_errors(NameKind::RxPayload, &self.payloads.rx));
        append_errors(&mut errs, name_errors(NameKind::Transaction, &self.transactions));
        if errs.len() == 0 {
            Ok(())
        } else {
            Err(errs)
        }
    }
}

proof fn lemma_contains_concat<A>(a: Seq<A>, b: Seq<A>, x: A)
    requires
        a.contains(x) || b.contains(x),
    ensures
        (a + b).contains(x),
{
    if a.contains(x) {
        let i = choose|i: int| 0 <= i < a.len() && a[i] == x;
        assert((a + b)[i] == x);
    } else {
        let i = choose|i: int| 0 <= i < b.len() && b[i] == x;
        assert((a + b)[a.len() + i] == x);
    }
}

proof fn lemma_concat_map_contains<A, B>(s: Seq<A>, f: spec_fn(A) -> Seq<B>, i: int, x: B)
    requires
        0 <= i < s.len(),
        f(s[i]).contains(x),
    ensures
        concat_map(s, f).contains(x),
    decreases s.len(),
{
    if i == s.len() - 1 {
        lemma_contains_concat(concat_map(s.drop_last(), f), f(s.last()), x);
    } else {
        lemma_concat_map_contains(s.drop_last(), f, i, x);
        lemma_contains_concat(concat_map(s.drop_last(), f), f(s.last()), x);
    }
}

/// What segment `segs[k]` contributes to a walk is reported by the walk over
/// the whole list.
pub proof fn lemma_segment_error_reported(
    doc: OpenPID,
    mode: CheckMode,
    wanted_by: Seq<char>,
    segs: Seq<PacketSegment>,
    stack: Seq<usize>,
    k: int,
    x: ErrorModel,
)
    requires
        0 <= k < segs.len(),
        segment_checks(doc, mode, wanted_by, seq![segs[k]], stack).contains(x),
    ensures
        segment_checks(doc, mode, wanted_by, segs, stack).contains(x),
    decreases segs.len(),
{
    let single = seq![segs[k]];
    assert(single.drop_last() =~= Seq::<PacketSegment>::empty());
    let init = segment_checks(doc, mode, wanted_by, segs.drop_last(), stack);
    if k == segs.len() - 1 {
        let own_single = segment_checks(doc, mode, wanted_by, single, stack);
        let empty_checks = segment_checks(doc, mode, wanted_by, single.drop_last(), stack);
        assert(empty_checks == Seq::<ErrorModel>::empty());
        // the walk over `segs` is `init` followed by what the last segment adds,
        // which is exactly the walk over `single`
        assert(segment_checks(doc, mode, wanted_by, segs, stack) =~= init + own_single);
        lemma_contains_concat(init, own_single, x);
    } else {
        lemma_segment_error_reported(doc, mode, wanted_by, segs.drop_last(), stack, k, x);
        let whole = segment_checks(doc, mode, wanted_by, segs, stack);
        let j = choose|j: int| 0 <= j < init.len() && init[j] == x;
        assert(whole.subrange(0, init.len() as int) =~= init);
        assert(whole[j] == x);
    }
}

/// The struct a segment refers to, and the path of the fields beneath it.
pub open spec fn struct_step(wanted_by: Seq<char>, seg: PacketSegment) -> Option<(Seq<char>, Seq<char>)> {
    match seg {
        PacketSegment::Unsized { name, datatype: UnsizedDataType::Array { item_struct }, .. } => Some(
            (item_struct@, array_path(wanted_by, item_struct@, name@)),
        ),
        PacketSegment::Struct { name, struct_name } => Some((struct_name@, struct_path(wanted_by, struct_name@, name@))),
        _ => None,
    }
}

/// Where a walk arrives by following, level by level, the segments at the
/// indices `steps` into the structs they refer to: the path, the segments and
/// the stack of expanded structs there. `None` when a step names no segment,
/// a segment that refers to no struct, a missing struct or a repeated one.
pub open spec fn descend(
    doc: OpenPID,
    wanted_by: Seq<char>,
    segs: Seq<PacketSegment>,
    stack: Seq<usize>,
    steps: Seq<int>,
) -> Option<(Seq<char>, Seq<PacketSegment>, Seq<usize>)>
    decreases steps.len(),
{
    if steps.len() == 0 {
        Some((wanted_by, segs, stack))
    } else if 0 <= steps[0] < segs.len() {
        match struct_step(wanted_by, segs[steps[0]]) {
            Some(st) => match find_key(doc.structs@, st.0) {
                Some(j) => if 0 <= j && !stack.contains(j as usize) && stack.len() < doc.structs@.len() {
                    descend(doc, st.1, doc.structs@[j].1.fields@, stack.push(j as usize), steps.drop_first())
                } else {
                    None
                },
                None => None,
            },
            None => None,
        }
    } else {
        None
    }
}

proof fn lemma_nested_error_reported(
    doc: OpenPID,
    mode: CheckMode,
    wanted_by: Seq<char>,
    segs: Seq<PacketSegment>,
    stack: Seq<usize>,
    k: int,
    j: int,
    x: ErrorModel,
)
    requires
        0 <= k < segs.len(),
        0 <= j,
        !stack.contains(j as usize),
        stack.len() < doc.structs@.len(),
        struct_step(wanted_by, segs[k]) matches Some(st) && find_key(doc.structs@, st.0) == Some(j)
            && segment_checks(doc, mode, st.1, doc.structs@[j].1.fields@, stack.push(j as usize)).contains(x),
    ensures
        segment_checks(doc, mode, wanted_by, segs, stack).contains(x),
{
    let single = seq![segs[k]];
    assert(single.drop_last() =~= Seq::<PacketSegment>::empty());
    let empty_checks = segment_checks(doc, mode, wanted_by, single.drop_last(), stack);
    assert(empty_checks == Seq::<ErrorModel>::empty());
    match segs[k] {
        PacketSegment::Unsized { name, datatype: UnsizedDataType::Array { item_struct }, termination, .. } => {
            let own = if reports_unterminated(mode) && termination is None {
                seq![ErrorModel::Unterminated { wanted_by_payload: wanted_by, wanted_by_field: name@ }]
            } else {
                seq![]
            };
            let inner = struct_checks(doc, mode, wanted_by, name@, item_struct@, array_path(wanted_by, item_struct@, name@), stack);
            lemma_contains_concat(empty_checks + own, inner, x);
        },
        PacketSegment::Struct { name, struct_name } => {
            let inner = struct_checks(doc, mode, wanted_by, name@, struct_name@, struct_path(wanted_by, struct_name@, name@), stack);
            lemma_contains_concat(empty_checks, inner, x);
        },
        _ => {},
    }
    lemma_segment_error_reported(doc, mode, wanted_by, segs, stack, k, x);
}

/// An error that a walk finds at any depth below `segs` is reported by the
/// walk over `segs`.
pub proof fn lemma_descended_error_reported(
    doc: OpenPID,
    mode: CheckMode,
    wanted_by: Seq<char>,
    segs: Seq<PacketSegment>,
    stack: Seq<usize>,
    steps: Seq<int>,
    x: ErrorModel,
)
    requires
        descend(doc, wanted_by, segs, stack, steps) matches Some(t) && segment_checks(doc, mode, t.0, t.1, t.2).contains(x),
    ensures
        segment_checks(doc, mode, wanted_by, segs, stack).contains(x),
    decreases steps.len(),
{
    if steps.len() > 0 {
        let k = steps[0];
        let st = struct_step(wanted_by, segs[k])->Some_0;
        let j = find_key(doc.structs@, st.0)->Some_0;
        lemma_descended_error_reported(doc, mode, st.1, doc.structs@[j].1.fields@, stack.push(j as usize), steps.drop_first(), x);
        lemma_nested_error_reported(doc, mode, wanted_by, segs, stack, k, j, x);
    }
}

/// A segment that refers to a missing struct is reported as `NoStruct`,
/// naming the path to it, the segment and the missing struct.
pub proof fn lemma_missing_struct_at(
    doc: OpenPID,
    mode: CheckMode,
    wanted_by: Seq<char>,
    segs: Seq<PacketSegment>,
    stack: Seq<usize>,
    k: int,
)
    requires
        reports_missing(mode),
        0 <= k < segs.len(),
        struct_step(wanted_by, segs[k]) matches Some(st) && find_key(doc.structs@, st.0) is None,
    ensures
        segment_checks(doc, mode, wanted_by, segs, stack).contains(
            ErrorModel::NoStruct {
                wanted_by_payload: wanted_by,
                wanted_by_field: segment_name(segs[k]),
                struct_name: struct_step(wanted_by, segs[k])->Some_0.0,
            },
        ),
{
    let seg = segs[k];
    let single = seq![seg];
    assert(single.drop_last() =~= Seq::<PacketSegment>::empty());
    let empty_checks = segment_checks(doc, mode, wanted_by, single.drop_last(), stack);
    assert(empty_checks == Seq::<ErrorModel>::empty());
    let x = ErrorModel::NoStruct {
        wanted_by_payload: wanted_by,
        wanted_by_field: segment_name(seg),
        struct_name: struct_step(wanted_by, seg)->Some_0.0,
    };
    let whole = segment_checks(doc, mode, wanted_by, single, stack);
    match seg {
        PacketSegment::Unsized { name, datatype: UnsizedDataType::Array { item_struct }, termination, .. } => {
            let own = if reports_unterminated(mode) && termination is None {
                seq![ErrorModel::Unterminated { wanted_by_payload: wanted_by, wanted_by_field: name@ }]
            } else {
                seq![]
            };
            let inner = struct_checks(doc, mode, wanted_by, name@, item_struct@, array_path(wanted_by, item_struct@, name@), stack);
            assert(inner[0] == x);
            assert(whole =~= empty_checks + own + inner);
            lemma_contains_concat(empty_checks + own, inner, x);
        },
        PacketSegment::Struct { name, struct_name } => {
            let inner = struct_checks(doc, mode, wanted_by, name@, struct_name@, struct_path(wanted_by, struct_name@, name@), stack);
            assert(inner[0] == x);
            assert(whole =~= empty_checks + inner);
            assert(whole[0] == x);
        },
        _ => {},
    }
    lemma_segment_error_reported(doc, mode, wanted_by, segs, stack, k, x);
}

/// A segment that refers to a struct already being expanded is reported as
/// `CyclicStruct`, in every mode.
pub proof fn lemma_cycle_reported(
    doc: OpenPID,
    mode: CheckMode,
    wanted_by: Seq<char>,
    segs: Seq<PacketSegment>,
    stack: Seq<usize>,
    k: int,
)
    requires
        0 <= k < segs.len(),
        struct_step(wanted_by, segs[k]) matches Some(st) && find_key(doc.structs@, st.0) matches Some(j)
            && stack.contains(j as usize),
    ensures
        segment_checks(doc, mode, wanted_by, segs, stack).contains(
            ErrorModel::CyclicStruct {
                wanted_by_payload: wanted_by,
                wanted_by_field: segment_name(segs[k]),
                struct_name: struct_step(wanted_by, segs[k])->Some_0.0,
            },
        ),
{
    let seg = segs[k];
    let single = seq![seg];
    assert(single.drop_last() =~= Seq::<PacketSegment>::empty());
    let empty_checks = segment_checks(doc, mode, wanted_by, single.drop_last(), stack);
    assert(empty_checks == Seq::<ErrorModel>::empty());
    let x = ErrorModel::CyclicStruct {
        wanted_by_payload: wanted_by,
        wanted_by_field: segment_name(seg),
        struct_name: struct_step(wanted_by, seg)->Some_0.0,
    };
    let whole = segment_checks(doc, mode, wanted_by, single, stack);
    match seg {
        PacketSegment::Unsized { name, datatype: UnsizedDataType::Array { item_struct }, termination, .. } => {
            let own = if reports_unterminated(mode) && termination is None {
                seq![ErrorModel::Unterminated { wanted_by_payload: wanted_by, wanted_by_field: name@ }]
            } else {
                seq![]
            };
            let inner = struct_checks(doc, mode, wanted_by, name@, item_struct@, array_path(wanted_by, item_struct@, name@), stack);
            assert(inner[0] == x);
            assert(whole =~= empty_checks + own + inner);
            lemma_contains_concat(empty_checks + own, inner, x);
        },
        PacketSegment::Struct { name, struct_name } => {
            let inner = struct_checks(doc, mode, wanted_by, name@, struct_name@, struct_path(wanted_by, struct_name@, name@), stack);
            assert(inner[0] == x);
            assert(whole =~= empty_checks + inner);
            assert(whole[0] == x);
        },
        _ => {},
    }
    lemma_segment_error_reported(doc, mode, wanted_by, segs, stack, k, x);
}

/// An unsized segment without a terminator is reported as `Unterminated`,
/// naming the path to it and the segment.
pub proof fn lemma_unterminated_at(
    doc: OpenPID,
    mode: CheckMode,
    wanted_by: Seq<char>,
    segs: Seq<PacketSegment>,
    stack: Seq<usize>,
    k: int,
)
    requires
        reports_unterminated(mode),
        0 <= k < segs.len(),
        segs[k] matches PacketSegment::Unsized { termination, .. } && termination is None,
    ensures
        segment_checks(doc, mode, wanted_by, segs, stack).contains(
            ErrorModel::Unterminated { wanted_by_payload: wanted_by, wanted_by_field: segment_name(segs[k]) },
        ),
{
    let seg = segs[k];
    let single = seq![seg];
    assert(single.drop_last() =~= Seq::<PacketSegment>::empty());
    let empty_checks = segment_checks(doc, mode, wanted_by, single.drop_last(), stack);
    assert(empty_checks == Seq::<ErrorModel>::empty());
    let x = ErrorModel::Unterminated { wanted_by_payload: wanted_by, wanted_by_field: segment_name(seg) };
    let whole = segment_checks(doc, mode, wanted_by, single, stack);
    assert(whole[0] == x);
    lemma_segment_error_reported(doc, mode, wanted_by, segs, stack, k, x);
}

/// Any depth: `validate_struct_refs` reports every reference to a missing
/// struct that is reached without repeating a struct, with the path to it.
pub proof fn lemma_struct_refs_report_missing(doc: OpenPID, wanted_by: Seq<char>, segs: Seq<PacketSegment>, steps: Seq<int>, k: int)
    requires
        descend(doc, wanted_by, segs, seq![], steps) is Some,
        ({
            let t = descend(doc, wanted_by, segs, seq![], steps)->Some_0;
            &&& 0 <= k < t.1.len()
            &&& (struct_step(t.0, t.1[k]) matches Some(st) && find_key(doc.structs@, st.0) is None)
        }),
    ensures
        ({
            let t = descend(doc, wanted_by, segs, seq![], steps)->Some_0;
            segment_checks(doc, CheckMode::StructRefs, wanted_by, segs, seq![]).contains(
                ErrorModel::NoStruct {
                    wanted_by_payload: t.0,
                    wanted_by_field: segment_name(t.1[k]),
                    struct_name: struct_step(t.0, t.1[k])->Some_0.0,
                },
            )
        }),
{
    let t = descend(doc, wanted_by, segs, seq![], steps)->Some_0;
    lemma_missing_struct_at(doc, CheckMode::StructRefs, t.0, t.1, t.2, k);
    let x = ErrorModel::NoStruct {
        wanted_by_payload: t.0,
        wanted_by_field: segment_name(t.1[k]),
        struct_name: struct_step(t.0, t.1[k])->Some_0.0,
    };
    lemma_descended_error_reported(doc, CheckMode::StructRefs, wanted_by, segs, seq![], steps, x);
}

/// Any depth: `validate_no_unsized_unterminated_rx` reports every unsized
/// segment without a terminator that is reached without repeating a struct,
/// with the path to it.
pub proof fn lemma_termination_reports_unterminated(
    doc: OpenPID,
    wanted_by: Seq<char>,
    segs: Seq<PacketSegment>,
    steps: Seq<int>,
    k: int,
)
    requires
        descend(doc, wanted_by, segs, seq![], steps) is Some,
        ({
            let t = descend(doc, wanted_by, segs, seq![], steps)->Some_0;
            &&& 0 <= k < t.1.len()
            &&& (t.1[k] matches PacketSegment::Unsized { termination, .. } && termination is None)
        }),
    ensures
        ({
            let t = descend(doc, wanted_by, segs, seq![], steps)->Some_0;
            segment_checks(doc, CheckMode::Termination, wanted_by, segs, seq![]).contains(
                ErrorModel::Unterminated { wanted_by_payload: t.0, wanted_by_field: segment_name(t.1[k]) },
            )
        }),
{
    let t = descend(doc, wanted_by, segs, seq![], steps)->Some_0;
    lemma_unterminated_at(doc, CheckMode::Termination, t.0, t.1, t.2, k);
    let x = ErrorModel::Unterminated { wanted_by_payload: t.0, wanted_by_field: segment_name(t.1[k]) };
    lemma_descended_error_reported(doc, CheckMode::Termination, wanted_by, segs, seq![], steps, x);
}

/// The walks `validate` makes over payloads: RX payloads with every check, TX
/// payloads for struct references.
pub open spec fn payload_walk(doc: OpenPID, rx: bool, p: int) -> Seq<ErrorModel> {
    if rx {
        segment_checks(doc, CheckMode::All, doc.payloads.rx@[p].0@, doc.payloads.rx@[p].1.segments@, seq![])
    } else {
        segment_checks(doc, CheckMode::StructRefs, doc.payloads.tx@[p].0@, doc.payloads.tx@[p].1.segments@, seq![])
    }
}

/// The payload table of one direction.
pub open spec fn payload_table(doc: OpenPID, rx: bool) -> Seq<(String, Payload)> {
    if rx { doc.payloads.rx@ } else { doc.payloads.tx@ }
}

/// An error that the walk over a payload finds is among the document's violations.
pub proof fn lemma_payload_error_in_validation(doc: OpenPID, rx: bool, p: int, x: ErrorModel)
    requires
        0 <= p < payload_table(doc, rx).len(),
        payload_walk(doc, rx, p).contains(x),
    ensures
        validation_errors(doc).contains(x),
{
    let a = concat_map(doc.payloads.rx@, payload_check(doc, CheckMode::All));
    let b = concat_map(doc.transactions@, transaction_check(doc));
    let c = concat_map(doc.payloads.tx@, payload_check(doc, CheckMode::StructRefs));
    let e = concat_map(doc.structs@, name_check(NameKind::Struct));
    let f = concat_map(doc.payloads.tx@, name_check(NameKind::TxPayload));
    let g = concat_map(doc.payloads.rx@, name_check(NameKind::RxPayload));
    let h = concat_map(doc.transactions@, name_check(NameKind::Transaction));
    if rx {
        lemma_concat_map_contains(doc.payloads.rx@, payload_check(doc, CheckMode::All), p, x);
        lemma_contains_concat(a, b, x);
        lemma_contains_concat(a + b, c, x);
    } else {
        lemma_concat_map_contains(doc.payloads.tx@, payload_check(doc, CheckMode::StructRefs), p, x);
        lemma_contains_concat(a + b, c, x);
    }
    lemma_contains_concat(a + b + c, e, x);
    lemma_contains_concat(a + b + c + e, f, x);
    lemma_contains_concat(a + b + c + e + f, g, x);
    lemma_contains_concat(a + b + c + e + f + g, h, x);
}

/// A reference to a struct the document does not define, at any depth of a
/// TX or RX payload reached without repeating a struct, makes `validate` fail
/// with `NoStruct`, naming the path to the referring segment, the segment and
/// the missing struct.
pub proof fn lemma_missing_struct_reported(doc: OpenPID, rx: bool, p: int, steps: Seq<int>, k: int)
    requires
        0 <= p < payload_table(doc, rx).len(),
        descend(doc, payload_table(doc, rx)[p].0@, payload_table(doc, rx)[p].1.segments@, seq![], steps) is Some,
        ({
            let t = descend(doc, payload_table(doc, rx)[p].0@, payload_table(doc, rx)[p].1.segments@, seq![], steps)->Some_0;
            &&& 0 <= k < t.1.len()
            &&& (struct_step(t.0, t.1[k]) matches Some(st) && find_key(doc.structs@, st.0) is None)
        }),
    ensures
        ({
            let t = descend(doc, payload_table(doc, rx)[p].0@, payload_table(doc, rx)[p].1.segments@, seq![], steps)->Some_0;
            &&& validation_errors(doc).len() > 0
            &&& validation_errors(doc).contains(
                ErrorModel::NoStruct {
                    wanted_by_payload: t.0,
                    wanted_by_field: segment_name(t.1[k]),
                    struct_name: struct_step(t.0, t.1[k])->Some_0.0,
                },
            )
        }),
{
    let entry = payload_table(doc, rx)[p];
    let mode = if rx { CheckMode::All } else { CheckMode::StructRefs };
    let t = descend(doc, entry.0@, entry.1.segments@, seq![], steps)->Some_0;
    lemma_missing_struct_at(doc, mode, t.0, t.1, t.2, k);
    let x = ErrorModel::NoStruct {
        wanted_by_payload: t.0,
        wanted_by_field: segment_name(t.1[k]),
        struct_name: struct_step(t.0, t.1[k])->Some_0.0,
    };
    lemma_descended_error_reported(doc, mode, entry.0@, entry.1.segments@, seq![], steps, x);
    lemma_payload_error_in_validation(doc, rx, p, x);
}

/// An RX payload with an unsized segment without a terminator, at its top
/// level (`steps` empty) or at any depth through structs and arrays of
/// structs reached without repeating a struct, fails validation with
/// `Unterminated`, naming the path to the segment and the segment.
pub proof fn lemma_unterminated_rx_fails(doc: OpenPID, p: int, steps: Seq<int>, k: int)
    requires
        0 <= p < doc.payloads.rx@.len(),
        descend(doc, doc.payloads.rx@[p].0@, doc.payloads.rx@[p].1.segments@, seq![], steps) is Some,
        ({
            let t = descend(doc, doc.payloads.rx@[p].0@, doc.payloads.rx@[p].1.segments@, seq![], steps)->Some_0;
            &&& 0 <= k < t.1.len()
            &&& (t.1[k] matches PacketSegment::Unsized { termination, .. } && termination is None)
        }),
    ensures
        ({
            let t = descend(doc, doc.payloads.rx@[p].0@, doc.payloads.rx@[p].1.segments@, seq![], steps)->Some_0;
            &&& validation_errors(doc).len() > 0
            &&& validation_errors(doc).contains(
                ErrorModel::Unterminated { wanted_by_payload: t.0, wanted_by_field: segment_name(t.1[k]) },
            )
        }),
{
    let entry = doc.payloads.rx@[p];
    let t = descend(doc, entry.0@, entry.1.segments@, seq![], steps)->Some_0;
    lemma_unterminated_at(doc, CheckMode::All, t.0, t.1, t.2, k);
    let x = ErrorModel::Unterminated { wanted_by_payload: t.0, wanted_by_field: segment_name(t.1[k]) };
    lemma_descended_error_reported(doc, CheckMode::All, entry.0@, entry.1.segments@, seq![], steps, x);
    lemma_payload_error_in_validation(doc, true, p, x);
}

/// A TX or RX payload whose name is not in snake case fails validation with
/// a naming error for that name.
pub proof fn lemma_payload_name_must_be_snake_case(doc: OpenPID, rx: bool, p: int)
    requires
        0 <= p < payload_table(doc, rx).len(),
        !is_snake_case_spec(payload_table(doc, rx)[p].0@),
    ensures
        validation_errors(doc).contains(
            ErrorModel::NotSnakeCase {
                kind: if rx { NameKind::RxPayload } else { NameKind::TxPayload },
                name: payload_table(doc, rx)[p].0@,
            },
        ),
{
    let a = concat_map(doc.payloads.rx@, payload_check(doc, CheckMode::All));
    let b = concat_map(doc.transactions@, transaction_check(doc));
    let c = concat_map(doc.payloads.tx@, payload_check(doc, CheckMode::StructRefs));
    let e = concat_map(doc.structs@, name_check(NameKind::Struct));
    let f = concat_map(doc.payloads.tx@, name_check(NameKind::TxPayload));
    let g = concat_map(doc.payloads.rx@, name_check(NameKind::RxPayload));
    let h = concat_map(doc.transactions@, name_check(NameKind::Transaction));
    if rx {
        let x = ErrorModel::NotSnakeCase { kind: NameKind::RxPayload, name: doc.payloads.rx@[p].0@ };
        assert(name_check::<Payload>(NameKind::RxPayload)(doc.payloads.rx@[p])[0] == x);
        lemma_concat_map_contains(doc.payloads.rx@, name_check(NameKind::RxPayload), p, x);
        lemma_contains_concat(a + b + c + e + f, g, x);
        lemma_contains_concat(a + b + c + e + f + g, h, x);
    } else {
        let x = ErrorModel::NotSnakeCase { kind: NameKind::TxPayload, name: doc.payloads.tx@[p].0@ };
        assert(name_check::<Payload>(NameKind::TxPayload)(doc.payloads.tx@[p])[0] == x);
        lemma_concat_map_contains(doc.payloads.tx@, name_check(NameKind::TxPayload), p, x);
        lemma_contains_concat(a + b + c + e, f, x);
        lemma_contains_concat(a + b + c + e + f, g, x);
        lemma_contains_concat(a + b + c + e + f + g, h, x);
    }
}

} // verus!
