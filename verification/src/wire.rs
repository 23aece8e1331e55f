//! A model of the two wire strategies that the emitted codec logic follows.
//!
//! The emitted text is run by another program; what it does there is not
//! within reach of this crate. This module states the two strategies over
//! plain values instead, so that what is asked of them can be proved: a
//! positional payload carries one element per field, is read from its tail,
//! last field first, and must have exactly as many elements as there are
//! fields; an object with the field names is accepted in its place; a fixed
//! field of a tagged payload may be absent and, where present, must hold its
//! literal. Field values are scalars here: neither strategy looks inside a
//! value.

use vstd::prelude::*;
use crate::text::str_eq;

verus! {

/// A scalar value on the wire.
#[derive(Debug, PartialEq, Eq)]
pub enum WireValue {
    Null,
    Bool(bool),
    Number(i64),
    Text(String),
}

/// What a field accepts.
#[derive(Debug, Clone, Copy, PartialEq, Eq, Structural)]
pub enum WireKind {
    Bool,
    Number,
    Text,
}

/// A named member of an object payload.
#[derive(Debug, PartialEq, Eq)]
pub struct Member {
    pub name: String,
    pub value: WireValue,
}

/// A payload: an array of elements, an object of members, or a single scalar.
#[derive(Debug, PartialEq, Eq)]
pub enum Payload {
    Array(Vec<WireValue>),
    Object(Vec<Member>),
    Scalar(WireValue),
}

/// A field of a type on the wire. A field with a literal is fixed: the
/// literal is written on encode and is not part of the decoded value.
#[derive(Debug)]
pub struct WireField {
    pub name: String,
    pub kind: WireKind,
    pub fixed: Option<WireValue>,
}

/// Why a payload was rejected.
#[derive(Debug, Clone, Copy, PartialEq, Eq, Structural)]
pub enum DecodeError {
    /// The payload has not the shape of the type: an array of another
    /// length, or neither an array nor an object with the field names.
    InvalidSequenceLength,
    /// The element for the field at this position is not of the field's kind.
    InvalidElement(usize),
    /// The payload of a tagged type is not an object with a member of the
    /// right kind for the field at this position.
    InvalidObject(usize),
    /// The fixed field at this position is present with another value than
    /// its literal.
    InvalidFixedValue(usize),
}

/// What a [`WireValue`] is, with strings as character sequences.
pub enum ValueView {
    Null,
    Bool(bool),
    Number(i64),
    Text(Seq<char>),
}

/// What a [`Member`] is.
pub struct MemberView {
    pub name: Seq<char>,
    pub value: ValueView,
}

/// What a [`Payload`] is.
pub enum PayloadView {
    Array(Seq<ValueView>),
    Object(Seq<MemberView>),
    Scalar(ValueView),
}

/// What a [`WireField`] is.
pub struct FieldShape {
    pub name: Seq<char>,
    pub kind: WireKind,
    pub fixed: Option<ValueView>,
}

impl DeepView for WireValue {
    type V = ValueView;

    open spec fn deep_view(&self) -> ValueView {
        match self {
            WireValue::Null => ValueView::Null,
            WireValue::Bool(b) => ValueView::Bool(*b),
            WireValue::Number(n) => ValueView::Number(*n),
            WireValue::Text(s) => ValueView::Text(s@),
        }
    }
}

impl DeepView for Member {
    type V = MemberView;

    open spec fn deep_view(&self) -> MemberView {
        MemberView { name: self.name@, value: self.value.deep_view() }
    }
}

impl DeepView for Payload {
    type V = PayloadView;

    open spec fn deep_view(&self) -> PayloadView {
        match self {
            Payload::Array(elements) => PayloadView::Array(elements.deep_view()),
            Payload::Object(members) => PayloadView::Object(members.deep_view()),
            Payload::Scalar(value) => PayloadView::Scalar(value.deep_view()),
        }
    }
}

impl DeepView for WireField {
    type V = FieldShape;

    open spec fn deep_view(&self) -> FieldShape {
        FieldShape { name: self.name@, kind: self.kind, fixed: self.fixed.deep_view() }
    }
}

/// Whether a value is of a kind.
pub open spec fn kind_accepts(kind: WireKind, v: ValueView) -> bool {
    match (kind, v) {
        (WireKind::Bool, ValueView::Bool(_)) => true,
        (WireKind::Number, ValueView::Number(_)) => true,
        (WireKind::Text, ValueView::Text(_)) => true,
        _ => false,
    }
}

/// The position of the first of the first `n` members that is named `name`,
/// or `n` where there is none.
pub open spec fn member_position(members: Seq<MemberView>, name: Seq<char>, n: nat) -> nat
    decreases n,
{
    if n == 0 {
        0
    } else {
        let before = member_position(members, name, (n - 1) as nat);
        if before < n - 1 {
            before
        } else if members[n - 1].name == name {
            (n - 1) as nat
        } else {
            n
        }
    }
}

/// Reading an array from its tail: after `k` elements were taken for the last
/// `k` fields, `remaining` is what is left of the array and `taken` holds the
/// values of those fields in field order. An element is taken for each field,
/// last field first; an array that runs out, or that has an element left when
/// every field has its own, is of the wrong length.
pub open spec fn taken_from_tail(
    fields: Seq<FieldShape>,
    remaining: Seq<ValueView>,
    k: nat,
    taken: Seq<ValueView>,
) -> Result<Seq<ValueView>, DecodeError>
    decreases fields.len() - k,
{
    if k >= fields.len() {
        if remaining.len() > 0 {
            Err(DecodeError::InvalidSequenceLength)
        } else {
            Ok(taken)
        }
    } else if remaining.len() == 0 {
        Err(DecodeError::InvalidSequenceLength)
    } else {
        let i = (fields.len() - 1 - k) as nat;
        let v = remaining.last();
        if !kind_accepts(fields[i as int].kind, v) {
            Err(DecodeError::InvalidElement(i as usize))
        } else {
            taken_from_tail(fields, remaining.drop_last(), k + 1, seq![v] + taken)
        }
    }
}

/// Reading an object: from field `i` on, each field takes the value of the
/// first member with its name. Members that no field names are passed over.
/// An object that lacks a field, or holds a value of another kind for it, is
/// no object of the type, and the payload is of no accepted shape.
pub open spec fn found_by_name(
    fields: Seq<FieldShape>,
    members: Seq<MemberView>,
    i: nat,
    acc: Seq<ValueView>,
) -> Result<Seq<ValueView>, DecodeError>
    decreases fields.len() - i,
{
    if i >= fields.len() {
        Ok(acc)
    } else {
        let j = member_position(members, fields[i as int].name, members.len());
        if j >= members.len() || !kind_accepts(fields[i as int].kind, members[j as int].value) {
            Err(DecodeError::InvalidSequenceLength)
        } else {
            found_by_name(fields, members, i + 1, acc.push(members[j as int].value))
        }
    }
}

/// What a payload decodes to as a positional type with the given fields: an
/// array is read from its tail, an object by name, anything else is rejected.
pub open spec fn decoded_positional(fields: Seq<FieldShape>, payload: PayloadView) -> Result<
    Seq<ValueView>,
    DecodeError,
> {
    match payload {
        PayloadView::Array(elements) => taken_from_tail(fields, elements, 0, Seq::empty()),
        PayloadView::Object(members) => found_by_name(fields, members, 0, Seq::empty()),
        PayloadView::Scalar(_) => Err(DecodeError::InvalidSequenceLength),
    }
}

/// The object that carries the first `n` values under the names of their fields.
pub open spec fn named_members(fields: Seq<FieldShape>, values: Seq<ValueView>, n: nat) -> Seq<
    MemberView,
>
    decreases n,
{
    if n == 0 {
        Seq::empty()
    } else {
        named_members(fields, values, (n - 1) as nat).push(
            MemberView { name: fields[n - 1].name, value: values[n - 1] },
        )
    }
}

/// Whether the values are one for each field and of the field's kind.
pub open spec fn conforms(fields: Seq<FieldShape>, values: Seq<ValueView>) -> bool {
    &&& values.len() == fields.len()
    &&& forall|i: int| 0 <= i < fields.len() ==> kind_accepts(#[trigger] fields[i].kind, values[i])
}

/// Whether no two fields have the same name.
pub open spec fn distinct_names(fields: Seq<FieldShape>) -> bool {
    forall|i: int, j: int|
        0 <= i < fields.len() && 0 <= j < fields.len() && i != j ==> (#[trigger] fields[i]).name
            != (#[trigger] fields[j]).name
}

/// What the check of one fixed field says of an object: nothing where the
/// field is absent or holds its literal, an error that names the field where
/// it holds anything else.
pub open spec fn fixed_field_verdict(
    members: Seq<MemberView>,
    field: FieldShape,
    i: nat,
) -> Option<DecodeError> {
    match field.fixed {
        None => None,
        Some(literal) => {
            let j = member_position(members, field.name, members.len());
            if j < members.len() && members[j as int].value != literal {
                Some(DecodeError::InvalidFixedValue(i as usize))
            } else {
                None
            }
        },
    }
}

/// Reading a tagged object, from field `i` on: a fixed field is checked and
/// not stored; any other field takes the value of the member with its name.
pub open spec fn tagged_fields(
    fields: Seq<FieldShape>,
    members: Seq<MemberView>,
    i: nat,
    acc: Seq<ValueView>,
) -> Result<Seq<ValueView>, DecodeError>
    decreases fields.len() - i,
{
    if i >= fields.len() {
        Ok(acc)
    } else if fields[i as int].fixed is Some {
        match fixed_field_verdict(members, fields[i as int], i) {
            Some(e) => Err(e),
            None => tagged_fields(fields, members, i + 1, acc),
        }
    } else {
        let j = member_position(members, fields[i as int].name, members.len());
        if j >= members.len() || !kind_accepts(fields[i as int].kind, members[j as int].value) {
            Err(DecodeError::InvalidObject(i as usize))
        } else {
            tagged_fields(fields, members, i + 1, acc.push(members[j as int].value))
        }
    }
}

/// What a payload decodes to as a tagged type with the given fields.
pub open spec fn decoded_tagged(fields: Seq<FieldShape>, payload: PayloadView) -> Result<
    Seq<ValueView>,
    DecodeError,
> {
    match payload {
        PayloadView::Object(members) => tagged_fields(fields, members, 0, Seq::empty()),
        _ => Err(DecodeError::InvalidObject(0)),
    }
}

/// What a payload decodes to as a type without fields: only the empty array
/// is accepted.
pub open spec fn decoded_unit(payload: PayloadView) -> Result<(), DecodeError> {
    match payload {
        PayloadView::Array(elements) => if elements.len() == 0 {
            Ok(())
        } else {
            Err(DecodeError::InvalidSequenceLength)
        },
        _ => Err(DecodeError::InvalidSequenceLength),
    }
}

/// The view of a decoding result.
pub open spec fn decoded_view(r: Result<Vec<WireValue>, DecodeError>) -> Result<
    Seq<ValueView>,
    DecodeError,
> {
    match r {
        Ok(values) => Ok(values.deep_view()),
        Err(e) => Err(e),
    }
}

impl WireValue {
    /// A copy of this value.
    pub fn duplicate(&self) -> (r: WireValue)
        ensures
            r.deep_view() == self.deep_view(),
    {
        match self {
            WireValue::Null => WireValue::Null,
            WireValue::Bool(b) => WireValue::Bool(*b),
            WireValue::Number(n) => WireValue::Number(*n),
            WireValue::Text(s) => WireValue::Text(s.clone()),
        }
    }

    /// Whether this value and `other` are the same.
    pub fn same_as(&self, other: &WireValue) -> (r: bool)
        ensures
            r == (self.deep_view() == other.deep_view()),
    {
        match (self, other) {
            (WireValue::Null, WireValue::Null) => true,
            (WireValue::Bool(a), WireValue::Bool(b)) => *a == *b,
            (WireValue::Number(a), WireValue::Number(b)) => *a == *b,
            (WireValue::Text(a), WireValue::Text(b)) => str_eq(a.as_str(), b.as_str()),
            _ => false,
        }
    }
}

impl WireKind {
    /// Whether `value` is of this kind.
    pub fn accepts(&self, value: &WireValue) -> (r: bool)
        ensures
            r == kind_accepts(*self, value.deep_view()),
    {
        match (self, value) {
            (WireKind::Bool, WireValue::Bool(_)) => true,
            (WireKind::Number, WireValue::Number(_)) => true,
            (WireKind::Text, WireValue::Text(_)) => true,
            _ => false,
        }
    }
}

fn push_value(values: &mut Vec<WireValue>, value: WireValue)
    ensures
        final(values).deep_view() == old(values).deep_view().push(value.deep_view()),
        final(values).len() == old(values).len() + 1,
{
    let ghost before = values.deep_view();
    values.push(value);
    assert(values.deep_view() =~= before.push(value.deep_view()));
}

fn copy_values(values: &Vec<WireValue>) -> (r: Vec<WireValue>)
    ensures
        r.deep_view() == values.deep_view(),
{
    let mut out: Vec<WireValue> = Vec::new();
    let mut i: usize = 0;
    assert(out.deep_view() =~= values.deep_view().take(0));
    while i < values.len()
        invariant
            i <= values.len(),
            out.deep_view() == values.deep_view().take(i as int),
        decreases values.len() - i,
    {
        assert(values[i as int].deep_view() == values.deep_view()[i as int]);
        push_value(&mut out, values[i].duplicate());
        assert(out.deep_view() =~= values.deep_view().take(i + 1));
        i = i + 1;
    }
    assert(values.deep_view().take(values.len() as int) =~= values.deep_view());
    out
}

/// The positional payload of the given values: one element per value, in order.
pub fn encode_positional(values: &Vec<WireValue>) -> (r: Payload)
    ensures
        r.deep_view() == PayloadView::Array(values.deep_view()),
{
    Payload::Array(copy_values(values))
}

/// The object payload of the given values: each under the name of its field.
pub fn encode_named(fields: &Vec<WireField>, values: &Vec<WireValue>) -> (r: Payload)
    requires
        fields.len() == values.len(),
    ensures
        r.deep_view() == PayloadView::Object(
            named_members(fields.deep_view(), values.deep_view(), fields.len() as nat),
        ),
{
    let mut members: Vec<Member> = Vec::new();
    let mut i: usize = 0;
    assert(members.deep_view() =~= Seq::<MemberView>::empty());
    while i < fields.len()
        invariant
            i <= fields.len(),
            fields.len() == values.len(),
            members.deep_view() == named_members(
                fields.deep_view(),
                values.deep_view(),
                i as nat,
            ),
        decreases fields.len() - i,
    {
        let ghost before = members.deep_view();
        assert(fields[i as int].deep_view() == fields.deep_view()[i as int]);
        assert(values[i as int].deep_view() == values.deep_view()[i as int]);
        let member = Member { name: fields[i].name.clone(), value: values[i].duplicate() };
        members.push(member);
        assert(members.deep_view() =~= before.push(member.deep_view()));
        i = i + 1;
    }
    Payload::Object(members)
}

fn find_member(members: &Vec<Member>, name: &str) -> (j: usize)
    ensures
        j == member_position(members.deep_view(), name@, members.len() as nat),
{
    let ghost all = members.deep_view();
    let mut i: usize = 0;
    while i < members.len()
        invariant
            i <= members.len(),
            all == members.deep_view(),
            member_position(all, name@, i as nat) == i,
        decreases members.len() - i,
    {
        assert(members[i as int].deep_view() == all[i as int]);
        if str_eq(members[i].name.as_str(), name) {
            proof {
                lemma_member_position_stays(all, name@, (i + 1) as nat, all.len());
            }
            return i;
        }
        i = i + 1;
    }
    i
}

/// A position found among the first `k` members is the one found among more.
pub proof fn lemma_member_position_stays(members: Seq<MemberView>, name: Seq<char>, k: nat, n: nat)
    requires
        k <= n,
        member_position(members, name, k) < k,
    ensures
        member_position(members, name, n) == member_position(members, name, k),
    decreases n - k,
{
    if k < n {
        lemma_member_position_stays(members, name, k, (n - 1) as nat);
    }
}

/// Decodes a payload as a positional type with the given fields. An array is
/// read from its tail and must have one element of the right kind for each
/// field, no more and no less; the values come out in field order. An object
/// is read by name. Anything else is rejected.
pub fn decode_positional(fields: &Vec<WireField>, payload: &Payload) -> (r: Result<
    Vec<WireValue>,
    DecodeError,
>)
    ensures
        decoded_view(r) == decoded_positional(fields.deep_view(), payload.deep_view()),
{
    let ghost shapes = fields.deep_view();
    match payload {
        Payload::Array(given) => {
            let mut elements = copy_values(given);
            let mut reversed: Vec<WireValue> = Vec::new();
            let ghost mut taken: Seq<ValueView> = Seq::empty();
            let mut k: usize = 0;
            assert(reversed.deep_view() =~= taken.reverse());
            while k < fields.len()
                invariant
                    k <= fields.len(),
                    shapes == fields.deep_view(),
                    payload.deep_view() == PayloadView::Array(given.deep_view()),
                    reversed.deep_view() == taken.reverse(),
                    taken.len() == k,
                    taken_from_tail(shapes, given.deep_view(), 0, Seq::empty())
                        == taken_from_tail(shapes, elements.deep_view(), k as nat, taken),
                decreases fields.len() - k,
            {
                let ghost before = elements.deep_view();
                let i = fields.len() - 1 - k;
                assert(fields[i as int].deep_view() == shapes[i as int]);
                let value = match elements.pop() {
                    Some(value) => value,
                    None => {
                        return Err(DecodeError::InvalidSequenceLength);
                    },
                };
                assert(value.deep_view() == before.last());
                assert(elements.deep_view() =~= before.drop_last());
                if !fields[i].kind.accepts(&value) {
                    return Err(DecodeError::InvalidElement(i));
                }
                proof {
                    let next = seq![value.deep_view()] + taken;
                    assert(next.reverse() =~= taken.reverse().push(value.deep_view()));
                    taken = next;
                }
                push_value(&mut reversed, value);
                k = k + 1;
            }
            if elements.len() > 0 {
                return Err(DecodeError::InvalidSequenceLength);
            }
            let mut out: Vec<WireValue> = Vec::new();
            assert(out.deep_view() =~= taken.take(0));
            while reversed.len() > 0
                invariant
                    out.len() + reversed.len() == taken.len(),
                    reversed.deep_view() == taken.reverse().take(reversed.len() as int),
                    out.deep_view() == taken.take(out.len() as int),
                decreases reversed.len(),
            {
                let ghost before = reversed.deep_view();
                let ghost done = out.len() as int;
                match reversed.pop() {
                    Some(value) => {
                        assert(value.deep_view() == before.last());
                        assert(before.last() == taken[done]);
                        assert(reversed.deep_view() =~= taken.reverse().take(
                            reversed.len() as int,
                        ));
                        push_value(&mut out, value);
                        assert(out.deep_view() =~= taken.take(done + 1));
                    },
                    None => {},
                }
            }
            assert(taken.take(taken.len() as int) =~= taken);
            Ok(out)
        },
        Payload::Object(members) => {
            let mut out: Vec<WireValue> = Vec::new();
            let mut i: usize = 0;
            assert(out.deep_view() =~= Seq::<ValueView>::empty());
            while i < fields.len()
                invariant
                    i <= fields.len(),
                    shapes == fields.deep_view(),
                    payload.deep_view() == PayloadView::Object(members.deep_view()),
                    found_by_name(shapes, members.deep_view(), 0, Seq::empty()) == found_by_name(
                        shapes,
                        members.deep_view(),
                        i as nat,
                        out.deep_view(),
                    ),
                decreases fields.len() - i,
            {
                assert(fields[i as int].deep_view() == shapes[i as int]);
                let j = find_member(members, fields[i].name.as_str());
                if j >= members.len() {
                    return Err(DecodeError::InvalidSequenceLength);
                }
                assert(members[j as int].deep_view() == members.deep_view()[j as int]);
                if !fields[i].kind.accepts(&members[j].value) {
                    return Err(DecodeError::InvalidSequenceLength);
                }
                push_value(&mut out, members[j].value.duplicate());
                i = i + 1;
            }
            Ok(out)
        },
        Payload::Scalar(_) => Err(DecodeError::InvalidSequenceLength),
    }
}

/// Decodes a payload as a tagged type with the given fields. The values of
/// the fields that are not fixed come out in field order.
pub fn decode_tagged(fields: &Vec<WireField>, payload: &Payload) -> (r: Result<
    Vec<WireValue>,
    DecodeError,
>)
    ensures
        decoded_view(r) == decoded_tagged(fields.deep_view(), payload.deep_view()),
{
    let ghost shapes = fields.deep_view();
    match payload {
        Payload::Object(members) => {
            let mut out: Vec<WireValue> = Vec::new();
            let mut i: usize = 0;
            assert(out.deep_view() =~= Seq::<ValueView>::empty());
            while i < fields.len()
                invariant
                    i <= fields.len(),
                    shapes == fields.deep_view(),
                    payload.deep_view() == PayloadView::Object(members.deep_view()),
                    tagged_fields(shapes, members.deep_view(), 0, Seq::empty()) == tagged_fields(
                        shapes,
                        members.deep_view(),
                        i as nat,
                        out.deep_view(),
                    ),
                decreases fields.len() - i,
            {
                assert(fields[i as int].deep_view() == shapes[i as int]);
                let j = find_member(members, fields[i].name.as_str());
                match &fields[i].fixed {
                    Some(literal) => {
                        if j < members.len() {
                            assert(members[j as int].deep_view() == members.deep_view()[j as int]);
                            if !members[j].value.same_as(literal) {
                                return Err(DecodeError::InvalidFixedValue(i));
                            }
                        }
                    },
                    None => {
                        if j >= members.len() {
                            return Err(DecodeError::InvalidObject(i));
                        }
                        assert(members[j as int].deep_view() == members.deep_view()[j as int]);
                        if !fields[i].kind.accepts(&members[j].value) {
                            return Err(DecodeError::InvalidObject(i));
                        }
                        push_value(&mut out, members[j].value.duplicate());
                    },
                }
                i = i + 1;
            }
            Ok(out)
        },
        _ => Err(DecodeError::InvalidObject(0)),
    }
}

/// Decodes a payload as a type without fields.
pub fn decode_unit(payload: &Payload) -> (r: Result<(), DecodeError>)
    ensures
        r == decoded_unit(payload.deep_view()),
{
    match payload {
        Payload::Array(elements) => {
            if elements.len() == 0 {
                Ok(())
            } else {
                Err(DecodeError::InvalidSequenceLength)
            }
        },
        _ => Err(DecodeError::InvalidSequenceLength),
    }
}

/// Reading from the tail gives each field the element at its own position:
/// once the last `k` fields have taken the last `k` values, what is left
/// decodes to the values in field order.
pub proof fn lemma_tail_keeps_positions(fields: Seq<FieldShape>, values: Seq<ValueView>, k: nat)
    requires
        conforms(fields, values),
        k <= fields.len(),
    ensures
        taken_from_tail(
            fields,
            values.take(fields.len() - k),
            k,
            values.skip(fields.len() - k),
        ) == Ok::<Seq<ValueView>, DecodeError>(values),
    decreases fields.len() - k,
{
    let n = fields.len() as int;
    if k >= fields.len() {
        assert(values.skip(0) =~= values);
        assert(values.take(0).len() == 0);
    } else {
        let remaining = values.take(n - k);
        let i = n - 1 - k;
        assert(remaining.last() == values[i]);
        assert(kind_accepts(fields[i].kind, values[i]));
        assert(remaining.drop_last() =~= values.take(n - (k + 1)));
        assert(seq![values[i]] + values.skip(n - k) =~= values.skip(n - (k + 1)));
        lemma_tail_keeps_positions(fields, values, k + 1);
    }
}

/// Round trip, array form: the positional payload of values that conform to
/// the fields decodes to these values, each at the position of its field.
pub proof fn lemma_positional_round_trip(fields: Seq<FieldShape>, values: Seq<ValueView>)
    requires
        conforms(fields, values),
    ensures
        decoded_positional(fields, PayloadView::Array(values)) == Ok::<
            Seq<ValueView>,
            DecodeError,
        >(values),
{
    lemma_tail_keeps_positions(fields, values, 0);
    assert(values.take(fields.len() as int) =~= values);
    assert(values.skip(fields.len() as int) =~= Seq::<ValueView>::empty());
}

/// An array that has not one element left for each field that still waits is
/// rejected.
pub proof fn lemma_tail_checks_length(
    fields: Seq<FieldShape>,
    remaining: Seq<ValueView>,
    k: nat,
    taken: Seq<ValueView>,
)
    requires
        k <= fields.len(),
        remaining.len() != fields.len() - k,
    ensures
        taken_from_tail(fields, remaining, k, taken) is Err,
    decreases fields.len() - k,
{
    if k < fields.len() && remaining.len() > 0 {
        let i = (fields.len() - 1 - k) as int;
        if kind_accepts(fields[i].kind, remaining.last()) {
            lemma_tail_checks_length(
                fields,
                remaining.drop_last(),
                k + 1,
                seq![remaining.last()] + taken,
            );
        }
    }
}

/// Arity: an array with fewer or with more elements than the type has fields
/// is rejected.
pub proof fn lemma_wrong_arity_rejected(fields: Seq<FieldShape>, elements: Seq<ValueView>)
    requires
        elements.len() != fields.len(),
    ensures
        decoded_positional(fields, PayloadView::Array(elements)) is Err,
{
    lemma_tail_checks_length(fields, elements, 0, Seq::empty());
}

/// The member found under a name is the first one with that name.
pub proof fn lemma_member_position(members: Seq<MemberView>, name: Seq<char>, i: nat, n: nat)
    requires
        i < n <= members.len(),
        members[i as int].name == name,
        forall|j: int| 0 <= j < i ==> (#[trigger] members[j]).name != name,
    ensures
        member_position(members, name, n) == i,
    decreases n,
{
    if n - 1 > i {
        lemma_member_position(members, name, i, (n - 1) as nat);
    } else {
        lemma_member_position_none(members, name, i);
    }
}

/// No position is found among members none of which has the name.
pub proof fn lemma_member_position_none(members: Seq<MemberView>, name: Seq<char>, n: nat)
    requires
        n <= members.len(),
        forall|j: int| 0 <= j < n ==> (#[trigger] members[j]).name != name,
    ensures
        member_position(members, name, n) == n,
    decreases n,
{
    if n > 0 {
        lemma_member_position_none(members, name, (n - 1) as nat);
    }
}

/// The named payload has one member for each value, under the name of the
/// field at the same position.
pub proof fn lemma_named_members(fields: Seq<FieldShape>, values: Seq<ValueView>, n: nat)
    requires
        n <= fields.len(),
        n <= values.len(),
    ensures
        named_members(fields, values, n).len() == n,
        forall|j: int|
            0 <= j < n ==> (#[trigger] named_members(fields, values, n)[j]) == (MemberView {
                name: fields[j].name,
                value: values[j],
            }),
    decreases n,
{
    if n > 0 {
        lemma_named_members(fields, values, (n - 1) as nat);
    }
}

/// Reading the named payload by name, from field `i` on.
pub proof fn lemma_named_found(fields: Seq<FieldShape>, values: Seq<ValueView>, i: nat)
    requires
        conforms(fields, values),
        distinct_names(fields),
        i <= fields.len(),
    ensures
        found_by_name(
            fields,
            named_members(fields, values, fields.len()),
            i,
            values.take(i as int),
        ) == Ok::<Seq<ValueView>, DecodeError>(values),
    decreases fields.len() - i,
{
    let n = fields.len();
    let members = named_members(fields, values, n);
    lemma_named_members(fields, values, n);
    if i >= n {
        assert(values.take(n as int) =~= values);
    } else {
        assert(members[i as int].name == fields[i as int].name);
        assert forall|j: int| 0 <= j < i implies (#[trigger] members[j]).name != fields[i as int].name by {
            assert(members[j].name == fields[j].name);
        }
        lemma_member_position(members, fields[i as int].name, i, n);
        assert(members[i as int].value == values[i as int]);
        assert(values.take(i as int).push(values[i as int]) =~= values.take(i as int + 1));
        lemma_named_found(fields, values, i + 1);
    }
}

/// Round trip, object form: where no two fields have the same name, the
/// object that carries conforming values under the names of their fields
/// decodes to these values.
pub proof fn lemma_named_round_trip(fields: Seq<FieldShape>, values: Seq<ValueView>)
    requires
        conforms(fields, values),
        distinct_names(fields),
    ensures
        decoded_positional(
            fields,
            PayloadView::Object(named_members(fields, values, fields.len())),
        ) == Ok::<Seq<ValueView>, DecodeError>(values),
{
    lemma_named_found(fields, values, 0);
    assert(values.take(0) =~= Seq::<ValueView>::empty());
}

/// Whether the object has what the field at position `i` asks for: a fixed
/// field is absent or holds its literal, any other field has a member of its
/// kind.
pub open spec fn member_fits(members: Seq<MemberView>, fields: Seq<FieldShape>, i: int) -> bool {
    let j = member_position(members, fields[i].name, members.len());
    match fields[i].fixed {
        Some(literal) => j >= members.len() || members[j as int].value == literal,
        None => j < members.len() && kind_accepts(fields[i].kind, members[j as int].value),
    }
}

/// Fixed-field tolerance: an object in which every fixed field is absent or
/// holds its literal, and every other field has a member of its kind, is
/// accepted.
pub proof fn lemma_tagged_accepted(
    fields: Seq<FieldShape>,
    members: Seq<MemberView>,
    i: nat,
    acc: Seq<ValueView>,
)
    requires
        forall|k: int| i <= k < fields.len() ==> member_fits(members, fields, k),
    ensures
        tagged_fields(fields, members, i, acc) is Ok,
    decreases fields.len() - i,
{
    if i < fields.len() {
        assert(member_fits(members, fields, i as int));
        let j = member_position(members, fields[i as int].name, members.len());
        if fields[i as int].fixed is Some {
            lemma_tagged_accepted(fields, members, i + 1, acc);
        } else {
            lemma_tagged_accepted(fields, members, i + 1, acc.push(members[j as int].value));
        }
    }
}

/// Fixed-field check: an object in which a fixed field is present with
/// another value than its literal is rejected.
pub proof fn lemma_tagged_rejected(
    fields: Seq<FieldShape>,
    members: Seq<MemberView>,
    i: nat,
    acc: Seq<ValueView>,
    wrong: nat,
)
    requires
        i <= wrong < fields.len(),
        fields[wrong as int].fixed is Some,
        member_position(members, fields[wrong as int].name, members.len()) < members.len(),
        members[member_position(
            members,
            fields[wrong as int].name,
            members.len(),
        ) as int].value != fields[wrong as int].fixed->0,
    ensures
        tagged_fields(fields, members, i, acc) is Err,
    decreases fields.len() - i,
{
    if i < wrong {
        let j = member_position(members, fields[i as int].name, members.len());
        if fields[i as int].fixed is Some {
            if fixed_field_verdict(members, fields[i as int], i) is None {
                lemma_tagged_rejected(fields, members, i + 1, acc, wrong);
            }
        } else if j < members.len() && kind_accepts(fields[i as int].kind, members[j as int].value) {
            lemma_tagged_rejected(fields, members, i + 1, acc.push(members[j as int].value), wrong);
        }
    }
}

} // verus!
