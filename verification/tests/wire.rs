use starknet_jsonrpc_codegen::wire::{
    decode_positional, decode_tagged, decode_unit, encode_named, encode_positional, DecodeError,
    Member, Payload, WireField, WireKind, WireValue,
};

fn field(name: &str, kind: WireKind) -> WireField {
    WireField { name: String::from(name), kind, fixed: None }
}

fn fixed(name: &str, literal: WireValue) -> WireField {
    let kind = match literal {
        WireValue::Number(_) => WireKind::Number,
        WireValue::Bool(_) => WireKind::Bool,
        _ => WireKind::Text,
    };
    WireField { name: String::from(name), kind, fixed: Some(literal) }
}

fn text(s: &str) -> WireValue {
    WireValue::Text(String::from(s))
}

fn member(name: &str, value: WireValue) -> Member {
    Member { name: String::from(name), value }
}

fn three_fields() -> Vec<WireField> {
    vec![field("name", WireKind::Text), field("count", WireKind::Number), field("flag", WireKind::Bool)]
}

fn two_fields() -> Vec<WireField> {
    vec![field("count", WireKind::Number), field("name", WireKind::Text)]
}

#[test]
fn positional_round_trip_through_the_array_form() {
    let values = vec![text("abc"), WireValue::Number(7), WireValue::Bool(true)];
    let payload = encode_positional(&values);
    assert_eq!(
        payload,
        Payload::Array(vec![text("abc"), WireValue::Number(7), WireValue::Bool(true)])
    );
    assert_eq!(decode_positional(&three_fields(), &payload), Ok(values));
}

#[test]
fn positional_round_trip_through_the_object_form() {
    let values = vec![text("abc"), WireValue::Number(7), WireValue::Bool(true)];
    let payload = encode_named(&three_fields(), &values);
    assert_eq!(
        payload,
        Payload::Object(vec![
            member("name", text("abc")),
            member("count", WireValue::Number(7)),
            member("flag", WireValue::Bool(true)),
        ])
    );
    assert_eq!(decode_positional(&three_fields(), &payload), Ok(values));
}

#[test]
fn object_form_is_read_by_name_in_any_order() {
    let payload = Payload::Object(vec![
        member("flag", WireValue::Bool(false)),
        member("extra", WireValue::Null),
        member("count", WireValue::Number(-3)),
        member("name", text("x")),
    ]);
    assert_eq!(
        decode_positional(&three_fields(), &payload),
        Ok(vec![text("x"), WireValue::Number(-3), WireValue::Bool(false)])
    );
}

#[test]
fn elements_taken_from_the_tail_keep_their_fields() {
    let payload = Payload::Array(vec![text("first"), WireValue::Number(2), WireValue::Bool(false)]);
    let decoded = decode_positional(&three_fields(), &payload).unwrap();
    assert_eq!(decoded[0], text("first"));
    assert_eq!(decoded[1], WireValue::Number(2));
    assert_eq!(decoded[2], WireValue::Bool(false));
    let transposed = Payload::Array(vec![WireValue::Bool(false), WireValue::Number(2), text("first")]);
    assert_eq!(
        decode_positional(&three_fields(), &transposed),
        Err(DecodeError::InvalidElement(2))
    );
}

#[test]
fn array_of_another_length_is_rejected() {
    let fields = two_fields();
    assert_eq!(
        decode_positional(&fields, &Payload::Array(vec![])),
        Err(DecodeError::InvalidSequenceLength)
    );
    assert_eq!(
        decode_positional(&fields, &Payload::Array(vec![text("x")])),
        Err(DecodeError::InvalidSequenceLength)
    );
    assert_eq!(
        decode_positional(&fields, &Payload::Array(vec![WireValue::Number(7)])),
        Err(DecodeError::InvalidElement(1))
    );
    assert_eq!(
        decode_positional(
            &fields,
            &Payload::Array(vec![WireValue::Number(1), WireValue::Number(7), text("x")])
        ),
        Err(DecodeError::InvalidSequenceLength)
    );
    assert_eq!(
        decode_positional(&fields, &Payload::Array(vec![WireValue::Number(7), text("x"), text("y")])),
        Err(DecodeError::InvalidElement(0))
    );
    assert_eq!(
        decode_positional(&fields, &Payload::Array(vec![WireValue::Number(7), text("x")])),
        Ok(vec![WireValue::Number(7), text("x")])
    );
}

#[test]
fn neither_array_nor_object_is_rejected() {
    assert_eq!(
        decode_positional(&two_fields(), &Payload::Scalar(WireValue::Number(1))),
        Err(DecodeError::InvalidSequenceLength)
    );
    assert_eq!(
        decode_positional(&two_fields(), &Payload::Object(vec![member("count", WireValue::Number(1))])),
        Err(DecodeError::InvalidSequenceLength)
    );
    assert_eq!(
        decode_positional(
            &two_fields(),
            &Payload::Object(vec![member("count", text("one")), member("name", text("x"))])
        ),
        Err(DecodeError::InvalidSequenceLength)
    );
}

#[test]
fn type_without_fields_takes_the_empty_array_only() {
    assert_eq!(decode_unit(&Payload::Array(vec![])), Ok(()));
    assert_eq!(
        decode_unit(&Payload::Array(vec![WireValue::Null])),
        Err(DecodeError::InvalidSequenceLength)
    );
    assert_eq!(decode_unit(&Payload::Object(vec![])), Err(DecodeError::InvalidSequenceLength));
    assert_eq!(
        decode_unit(&Payload::Scalar(WireValue::Null)),
        Err(DecodeError::InvalidSequenceLength)
    );
    assert_eq!(decode_positional(&vec![], &Payload::Array(vec![])), Ok(vec![]));
}

#[test]
fn fixed_field_may_be_absent_and_must_hold_its_literal() {
    let fields = vec![
        fixed("type", text("INVOKE")),
        field("hash", WireKind::Number),
        fixed("version", WireValue::Number(1)),
    ];
    let omitted = Payload::Object(vec![member("hash", WireValue::Number(5))]);
    assert_eq!(decode_tagged(&fields, &omitted), Ok(vec![WireValue::Number(5)]));
    let correct = Payload::Object(vec![
        member("type", text("INVOKE")),
        member("hash", WireValue::Number(5)),
        member("version", WireValue::Number(1)),
    ]);
    assert_eq!(decode_tagged(&fields, &correct), Ok(vec![WireValue::Number(5)]));
    let wrong = Payload::Object(vec![
        member("type", text("DECLARE")),
        member("hash", WireValue::Number(5)),
    ]);
    assert_eq!(decode_tagged(&fields, &wrong), Err(DecodeError::InvalidFixedValue(0)));
    let wrong_version = Payload::Object(vec![
        member("type", text("INVOKE")),
        member("hash", WireValue::Number(5)),
        member("version", WireValue::Number(2)),
    ]);
    assert_eq!(decode_tagged(&fields, &wrong_version), Err(DecodeError::InvalidFixedValue(2)));
    let wrong_kind = Payload::Object(vec![
        member("hash", WireValue::Number(5)),
        member("version", text("1")),
    ]);
    assert_eq!(decode_tagged(&fields, &wrong_kind), Err(DecodeError::InvalidFixedValue(2)));
}

#[test]
fn tagged_payload_needs_every_other_field() {
    let fields = vec![fixed("type", text("INVOKE")), field("hash", WireKind::Number)];
    assert_eq!(
        decode_tagged(&fields, &Payload::Object(vec![member("type", text("INVOKE"))])),
        Err(DecodeError::InvalidObject(1))
    );
    assert_eq!(
        decode_tagged(&fields, &Payload::Object(vec![member("hash", text("5"))])),
        Err(DecodeError::InvalidObject(1))
    );
    assert_eq!(
        decode_tagged(&fields, &Payload::Array(vec![WireValue::Number(5)])),
        Err(DecodeError::InvalidObject(0))
    );
}

#[test]
fn values_are_compared_and_copied_by_content() {
    assert!(text("a").same_as(&text("a")));
    assert!(!text("a").same_as(&text("b")));
    assert!(!text("1").same_as(&WireValue::Number(1)));
    assert!(WireValue::Null.same_as(&WireValue::Null));
    assert!(WireValue::Bool(true).same_as(&WireValue::Bool(true)));
    assert!(!WireValue::Number(1).same_as(&WireValue::Number(2)));
    assert_eq!(text("a").duplicate(), text("a"));
    assert!(WireKind::Text.accepts(&text("a")));
    assert!(!WireKind::Text.accepts(&WireValue::Null));
    assert!(WireKind::Number.accepts(&WireValue::Number(0)));
    assert!(!WireKind::Bool.accepts(&WireValue::Number(0)));
}
