use starknet_jsonrpc_codegen::ir::FixedField;
use starknet_jsonrpc_codegen::output::render_header;
use starknet_jsonrpc_codegen::schema::{
    AllOf, ArrayPrimitive, ErrorDefinition, ErrorType, Meta, ObjectPrimitive, OneOf, Primitive,
    Reference, Schema, StringPrimitive,
};
use starknet_jsonrpc_codegen::text::{copy_text, push_empty, push_line, push_lines, push_text};

fn annotated(n: usize) -> Meta {
    Meta {
        title: Some(format!("title {}", n)),
        description: Some(format!("description {}", n)),
        summary: Some(format!("summary {}", n)),
    }
}

#[test]
fn annotations_are_read_from_every_kind_of_schema() {
    let schemas = vec![
        Schema::Ref(Reference { meta: annotated(0), name: String::from("X") }),
        Schema::OneOf(OneOf { meta: annotated(1), one_of: vec![] }),
        Schema::AllOf(AllOf { meta: annotated(2), all_of: vec![] }),
        Schema::Primitive(Primitive::Array(ArrayPrimitive {
            meta: annotated(3),
            items: Box::new(Schema::Primitive(Primitive::Boolean(Meta::none()))),
        })),
        Schema::Primitive(Primitive::Boolean(annotated(4))),
        Schema::Primitive(Primitive::Integer(annotated(5))),
        Schema::Primitive(Primitive::Object(ObjectPrimitive {
            meta: annotated(6),
            properties: vec![],
            required: None,
        })),
        Schema::Primitive(Primitive::String(StringPrimitive { meta: annotated(7), enum_values: None })),
    ];
    for (n, schema) in schemas.iter().enumerate() {
        assert_eq!(schema.title().as_deref(), Some(format!("title {}", n).as_str()));
        assert_eq!(schema.description().as_deref(), Some(format!("description {}", n).as_str()));
        assert_eq!(schema.summary().as_deref(), Some(format!("summary {}", n).as_str()));
        assert_eq!(schema.meta().title, schema.title().clone());
    }
    let none = Meta::none();
    assert!(none.title.is_none() && none.description.is_none() && none.summary.is_none());
}

#[test]
fn copies_hold_what_was_copied() {
    let meta = annotated(1).duplicate();
    assert_eq!(meta.title.as_deref(), Some("title 1"));
    assert_eq!(meta.description.as_deref(), Some("description 1"));
    assert_eq!(meta.summary.as_deref(), Some("summary 1"));
    let literal = ErrorType::Error(ErrorDefinition { code: 20, message: String::from("Contract not found") });
    match literal.duplicate() {
        ErrorType::Error(definition) => {
            assert_eq!(definition.code, 20);
            assert_eq!(definition.message, "Contract not found");
        }
        _ => panic!("a literal definition was expected"),
    }
    let pointer = ErrorType::Reference(Reference { meta: annotated(2), name: String::from("OTHER") });
    match pointer.duplicate() {
        ErrorType::Reference(reference) => {
            assert_eq!(reference.name, "OTHER");
            assert_eq!(reference.meta.summary.as_deref(), Some("summary 2"));
        }
        _ => panic!("a pointer was expected"),
    }
    let fixed = FixedField { name: String::from("type"), value: String::from("\"DEPLOY\"") }.duplicate();
    assert_eq!(fixed.name, "type");
    assert_eq!(fixed.value, "\"DEPLOY\"");
    assert_eq!(copy_text(&Some(String::from("x"))), Some(String::from("x")));
    assert_eq!(copy_text(&None), None);
}

#[test]
fn lines_are_appended_in_order() {
    let mut lines: Vec<String> = vec![];
    push_text(&mut lines, "a");
    push_line(&mut lines, String::from("b"));
    push_empty(&mut lines);
    push_lines(&mut lines, vec![String::from("c"), String::from("d")]);
    assert_eq!(lines, vec!["a", "b", "", "c", "d"]);
}

#[test]
fn header_names_the_tool_and_what_is_ignored() {
    assert_eq!(
        render_header("tool", Some("r1"), &vec![String::from("A"), String::from("B")]),
        vec![
            "// AUTO-GENERATED CODE. DO NOT EDIT",
            "// To change the code generated, modify the codegen tool instead:",
            "//     tool",
            "",
            "// Code generated with version:",
            "//     tool#r1",
            "",
            "// These types are ignored from code generation. Implement them manually:",
            "// - `A`",
            "// - `B`",
            "",
        ]
    );
    assert_eq!(render_header("tool", None, &vec![]).len(), 7);
}
