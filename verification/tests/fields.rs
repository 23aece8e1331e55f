use indexmap::IndexMap;
use starknet_jsonrpc_codegen::error::CodegenError;
use starknet_jsonrpc_codegen::fields::{
    get_field_type_override, get_rust_type_for_field, get_schema_fields,
};
use starknet_jsonrpc_codegen::flatten::{
    get_flatten_only_schemas, insert_name, visit_schema_for_flatten_only,
};
use starknet_jsonrpc_codegen::ir::{FixedField, RustField, SerializerOverride};
use starknet_jsonrpc_codegen::options::{
    contains_name, ArcWrappingOptions, FixedFieldsOptions, FlattenOption,
    RustTypeWithArcWrappedFields, RustTypeWithFixedFields, SpecVersion,
};
use starknet_jsonrpc_codegen::order::{sort_by_keys, sort_names};
use starknet_jsonrpc_codegen::pattern::DocPatterns;
use starknet_jsonrpc_codegen::resolve::schema_to_rust_type_kind;
use starknet_jsonrpc_codegen::ir::RustTypeKind;
use starknet_jsonrpc_codegen::schema::{
    AllOf, ArrayPrimitive, Components, Meta, ObjectPrimitive, OneOf, Primitive, Property,
    Reference, Schema, Specification, StringPrimitive,
};

fn meta(description: Option<&str>) -> Meta {
    Meta { title: None, description: description.map(String::from), summary: None }
}

fn reference(name: &str) -> Schema {
    Schema::Ref(Reference { meta: meta(None), name: String::from(name) })
}

fn text(description: Option<&str>) -> Schema {
    Schema::Primitive(Primitive::String(StringPrimitive {
        meta: meta(description),
        enum_values: None,
    }))
}

fn array(items: Schema) -> Schema {
    Schema::Primitive(Primitive::Array(ArrayPrimitive { meta: meta(None), items: Box::new(items) }))
}

fn object(properties: Vec<(&str, Schema)>, required: Option<Vec<&str>>) -> Schema {
    Schema::Primitive(Primitive::Object(ObjectPrimitive {
        meta: meta(None),
        properties: properties
            .into_iter()
            .map(|(name, schema)| Property { name: String::from(name), schema })
            .collect(),
        required: required.map(|names| names.into_iter().map(String::from).collect()),
    }))
}

fn all_of(fragments: Vec<Schema>) -> Schema {
    Schema::AllOf(AllOf { meta: meta(None), all_of: fragments })
}

fn one_of(variants: Vec<Schema>) -> Schema {
    Schema::OneOf(OneOf { meta: meta(None), one_of: variants })
}

fn document(schemas: Vec<(&str, Schema)>) -> Specification {
    let mut map: IndexMap<String, Schema> = IndexMap::new();
    for (name, schema) in schemas {
        map.insert(String::from(name), schema);
    }
    Specification { components: Components { schemas: map, errors: IndexMap::new() }, methods: vec![] }
}

fn serde_as(serializer: &Option<SerializerOverride>) -> Option<&str> {
    match serializer {
        Some(SerializerOverride::SerdeAs(adapter)) => Some(adapter.as_str()),
        _ => None,
    }
}

fn plain_field(name: &str, type_text: &str) -> RustField {
    RustField {
        description: None,
        name: String::from(name),
        optional: false,
        fixed: None,
        arc_wrap: false,
        type_text: String::from(type_text),
        serde_rename: None,
        serde_flatten: false,
        serializer: None,
    }
}

#[test]
fn version_selector_is_read_with_and_without_prefix() {
    assert_eq!(SpecVersion::from_str("0.1.0").unwrap(), SpecVersion::V0_1_0);
    assert_eq!(SpecVersion::from_str("v0.1.0").unwrap(), SpecVersion::V0_1_0);
    assert_eq!(SpecVersion::from_str("0.2.1").unwrap(), SpecVersion::V0_2_1);
    assert_eq!(SpecVersion::from_str("v0.2.1").unwrap(), SpecVersion::V0_2_1);
    assert_eq!(SpecVersion::from_str("0.3.0").unwrap(), SpecVersion::V0_3_0);
    assert_eq!(SpecVersion::from_str("v0.3.0").unwrap(), SpecVersion::V0_3_0);
}

#[test]
fn unknown_version_selector_is_an_error() {
    let failure = SpecVersion::from_str("0.4.0").unwrap_err();
    assert!(matches!(&failure, CodegenError::UnknownSpecVersion(s) if s == "0.4.0"));
    assert_eq!(failure.message(), "unknown spec version: 0.4.0");
    assert!(SpecVersion::from_str("").is_err());
    assert!(SpecVersion::from_str("V0.1.0").is_err());
}

#[test]
fn every_error_has_its_text() {
    assert_eq!(CodegenError::ReferenceCycle.message(), "Reference cycle while collecting object fields");
    assert_eq!(
        CodegenError::AnonymousOneOf.message(),
        "Anonymous oneOf types should not be used for properties"
    );
    assert_eq!(
        CodegenError::AnonymousAllOf.message(),
        "Anonymous allOf types should not be used for properties"
    );
    assert_eq!(
        CodegenError::AnonymousObject.message(),
        "Anonymous object types should not be used for properties"
    );
    assert_eq!(
        CodegenError::UnexpectedFieldSource.message(),
        "Unexpected schema type when getting object fields"
    );
    assert_eq!(CodegenError::ErrorRedirection.message(), "Error redirection not implemented");
    assert_eq!(
        CodegenError::OptionalSerdeWith.message(),
        "Optional transformation of #[serde(with)] not implemented"
    );
    assert_eq!(
        CodegenError::ArraySerdeWith.message(),
        "Array wrapper for #[serde(with)] not implemented"
    );
    assert_eq!(
        CodegenError::SerdeBlockUnsupported.message(),
        "serde blocks only implemented for structs and unit"
    );
    assert_eq!(CodegenError::InvalidPattern.message(), "documentation pattern rejected");
}

#[test]
fn fixed_field_is_found_by_type_and_field() {
    let table = FixedFieldsOptions {
        fixed_field_types: vec![
            RustTypeWithFixedFields { name: String::from("A"), fields: vec![] },
            RustTypeWithFixedFields {
                name: String::from("A"),
                fields: vec![
                    FixedField { name: String::from("type"), value: String::from("\"DECLARE\"") },
                    FixedField { name: String::from("version"), value: String::from("&1") },
                    FixedField { name: String::from("version"), value: String::from("&2") },
                ],
            },
            RustTypeWithFixedFields {
                name: String::from("B"),
                fields: vec![FixedField { name: String::from("type"), value: String::from("\"DEPLOY\"") }],
            },
        ],
    };
    assert_eq!(table.find_fixed_field("A", "type").unwrap().value, "\"DECLARE\"");
    assert_eq!(table.find_fixed_field("A", "version").unwrap().value, "&1");
    assert_eq!(table.find_fixed_field("B", "type").unwrap().value, "\"DEPLOY\"");
    assert_eq!(table.find_fixed_field("B", "type").unwrap().name, "type");
    assert!(table.find_fixed_field("B", "version").is_none());
    assert!(table.find_fixed_field("C", "type").is_none());
}

#[test]
fn shared_field_is_found_by_type_and_field() {
    let table = ArcWrappingOptions {
        arc_wrapped_types: vec![
            RustTypeWithArcWrappedFields { name: String::from("A"), fields: vec![String::from("x")] },
            RustTypeWithArcWrappedFields {
                name: String::from("A"),
                fields: vec![String::from("contract_class")],
            },
        ],
    };
    assert!(table.in_field_wrapped("A", "contract_class"));
    assert!(table.in_field_wrapped("A", "x"));
    assert!(!table.in_field_wrapped("A", "y"));
    assert!(!table.in_field_wrapped("B", "contract_class"));
}

#[test]
fn flatten_policy_selects_by_name() {
    assert!(FlattenOption::All.should_flatten("ANYTHING"));
    let selected = FlattenOption::Selected(vec![String::from("EVENT")]);
    assert!(selected.should_flatten("EVENT"));
    assert!(!selected.should_flatten("EVENT_CONTENT"));
    assert!(contains_name(&vec![String::from("a"), String::from("b")], "b"));
    assert!(!contains_name(&vec![], "b"));
}

#[test]
fn override_table_gives_library_types() {
    for name in ["ADDRESS", "STORAGE_KEY", "TXN_HASH", "FELT", "BLOCK_HASH", "CHAIN_ID", "PROTOCOL_VERSION"] {
        let found = get_field_type_override(name).unwrap();
        assert_eq!(found.type_text, "FieldElement");
        assert_eq!(serde_as(&found.serializer), Some("UfeHex"));
    }
    let number = get_field_type_override("BLOCK_NUMBER").unwrap();
    assert_eq!(number.type_text, "u64");
    assert!(number.serializer.is_none());
    let hex = get_field_type_override("NUM_AS_HEX").unwrap();
    assert_eq!(hex.type_text, "u64");
    assert_eq!(serde_as(&hex.serializer), Some("NumAsHex"));
    let eth = get_field_type_override("ETH_ADDRESS").unwrap();
    assert_eq!(eth.type_text, "EthAddress");
    assert!(eth.serializer.is_none());
    let signature = get_field_type_override("SIGNATURE").unwrap();
    assert_eq!(signature.type_text, "Vec<FieldElement>");
    assert_eq!(serde_as(&signature.serializer), Some("Vec<UfeHex>"));
    assert_eq!(get_field_type_override("CONTRACT_ABI").unwrap().type_text, "Vec<LegacyContractAbiEntry>");
    assert_eq!(
        get_field_type_override("CONTRACT_ENTRY_POINT_LIST").unwrap().type_text,
        "Vec<ContractEntryPoint>"
    );
    assert_eq!(
        get_field_type_override("LEGACY_CONTRACT_ENTRY_POINT_LIST").unwrap().type_text,
        "Vec<LegacyContractEntryPoint>"
    );
    assert_eq!(get_field_type_override("TXN_TYPE").unwrap().type_text, "String");
    assert!(get_field_type_override("EVENT").is_none());
    assert!(get_field_type_override("felt").is_none());
}

#[test]
fn field_type_follows_the_schema() {
    let specs = document(vec![("FELT", text(None)), ("EVENT", object(vec![], None))]);
    let felt = get_rust_type_for_field(&reference("FELT"), &specs).unwrap();
    assert_eq!(felt.type_text, "FieldElement");
    assert_eq!(serde_as(&felt.serializer), Some("UfeHex"));
    let event = get_rust_type_for_field(&reference("EVENT"), &specs).unwrap();
    assert_eq!(event.type_text, "Event");
    assert!(event.serializer.is_none());
    let felts = get_rust_type_for_field(&array(array(reference("FELT"))), &specs).unwrap();
    assert_eq!(felts.type_text, "Vec<Vec<FieldElement>>");
    assert_eq!(serde_as(&felts.serializer), Some("Vec<Vec<UfeHex>>"));
    let events = get_rust_type_for_field(&array(reference("EVENT")), &specs).unwrap();
    assert_eq!(events.type_text, "Vec<Event>");
    assert!(events.serializer.is_none());
    let flag = get_rust_type_for_field(&Schema::Primitive(Primitive::Boolean(meta(None))), &specs).unwrap();
    assert_eq!(flag.type_text, "bool");
    let count = get_rust_type_for_field(&Schema::Primitive(Primitive::Integer(meta(None))), &specs).unwrap();
    assert_eq!(count.type_text, "u64");
    let plain = get_rust_type_for_field(&text(Some("a name")), &specs).unwrap();
    assert_eq!(plain.type_text, "String");
    assert!(plain.serializer.is_none());
    let blob = get_rust_type_for_field(&text(Some("a base64 encoded program")), &specs).unwrap();
    assert_eq!(blob.type_text, "Vec<u8>");
    assert!(matches!(&blob.serializer, Some(SerializerOverride::Serde(module)) if module == "base64"));
}

#[test]
fn field_type_rejects_what_is_no_field_type() {
    let specs = document(vec![("FELT", text(None))]);
    assert!(matches!(
        get_rust_type_for_field(&reference("GONE"), &specs),
        Err(CodegenError::RefTargetNotFound(name)) if name == "GONE"
    ));
    assert!(matches!(
        get_rust_type_for_field(&one_of(vec![]), &specs),
        Err(CodegenError::AnonymousOneOf)
    ));
    assert!(matches!(
        get_rust_type_for_field(&all_of(vec![]), &specs),
        Err(CodegenError::AnonymousAllOf)
    ));
    assert!(matches!(
        get_rust_type_for_field(&object(vec![], None), &specs),
        Err(CodegenError::AnonymousObject)
    ));
    assert!(matches!(
        get_rust_type_for_field(&array(text(Some("base64"))), &specs),
        Err(CodegenError::ArraySerdeWith)
    ));
    assert!(matches!(
        get_rust_type_for_field(&array(reference("GONE")), &specs),
        Err(CodegenError::RefTargetNotFound(_))
    ));
}

#[test]
fn object_properties_become_fields_in_order() {
    let specs = document(vec![("FELT", text(None))]);
    let patterns = DocPatterns::compile().unwrap();
    let schema = object(
        vec![
            ("blockHash", reference("FELT")),
            ("ABI", text(Some("the abi on ethereum"))),
            ("keys", array(reference("FELT"))),
        ],
        Some(vec!["blockHash"]),
    );
    let start = vec![plain_field("first", "bool")];
    let fields = get_schema_fields(&schema, &specs, start, &FlattenOption::All, &patterns).unwrap();
    assert_eq!(fields.len(), 4);
    assert_eq!(fields[0].name, "first");
    assert_eq!(fields[1].name, "block_hash");
    assert_eq!(fields[1].serde_rename.as_deref(), Some("blockHash"));
    assert_eq!(fields[1].type_text, "FieldElement");
    assert_eq!(serde_as(&fields[1].serializer), Some("UfeHex"));
    assert!(!fields[1].optional);
    assert!(fields[1].description.is_none());
    assert_eq!(fields[2].name, "abi");
    assert_eq!(fields[2].serde_rename.as_deref(), Some("ABI"));
    assert_eq!(fields[2].type_text, "Option<String>");
    assert!(fields[2].optional);
    assert_eq!(fields[2].description.as_deref(), Some("The abi on Ethereum"));
    assert_eq!(fields[3].name, "keys");
    assert!(fields[3].serde_rename.is_none());
    assert_eq!(fields[3].type_text, "Option<Vec<FieldElement>>");
    assert_eq!(serde_as(&fields[3].serializer), Some("Option<Vec<UfeHex>>"));
    for field in fields.iter() {
        assert!(field.fixed.is_none());
        assert!(!field.arc_wrap);
        assert!(!field.serde_flatten);
    }
}

#[test]
fn property_documentation_falls_back_to_title_and_summary() {
    let specs = document(vec![]);
    let patterns = DocPatterns::compile().unwrap();
    let titled = Schema::Primitive(Primitive::Boolean(Meta {
        title: Some(String::from("the title")),
        description: None,
        summary: Some(String::from("the summary")),
    }));
    let summarized = Schema::Primitive(Primitive::Boolean(Meta {
        title: None,
        description: None,
        summary: Some(String::from("the summary")),
    }));
    let schema = object(vec![("a", titled), ("b", summarized)], None);
    let fields = get_schema_fields(&schema, &specs, vec![], &FlattenOption::All, &patterns).unwrap();
    assert_eq!(fields[0].description.as_deref(), Some("The title"));
    assert_eq!(fields[1].description.as_deref(), Some("The summary"));
    assert!(!fields[0].optional);
    assert_eq!(fields[0].type_text, "bool");
}

#[test]
fn optional_encoded_blob_is_not_supported() {
    let specs = document(vec![]);
    let patterns = DocPatterns::compile().unwrap();
    let schema = object(vec![("program", text(Some("base64 text")))], Some(vec![]));
    assert!(matches!(
        get_schema_fields(&schema, &specs, vec![], &FlattenOption::All, &patterns),
        Err(CodegenError::OptionalSerdeWith)
    ));
    let required = object(vec![("program", text(Some("base64 text")))], None);
    let fields = get_schema_fields(&required, &specs, vec![], &FlattenOption::All, &patterns).unwrap();
    assert_eq!(fields[0].type_text, "Vec<u8>");
}

#[test]
fn fields_cannot_come_from_a_scalar_or_a_union() {
    let specs = document(vec![]);
    let patterns = DocPatterns::compile().unwrap();
    assert!(matches!(
        get_schema_fields(&text(None), &specs, vec![], &FlattenOption::All, &patterns),
        Err(CodegenError::UnexpectedFieldSource)
    ));
    assert!(matches!(
        get_schema_fields(&one_of(vec![]), &specs, vec![], &FlattenOption::All, &patterns),
        Err(CodegenError::UnexpectedFieldSource)
    ));
    assert!(matches!(
        get_schema_fields(&all_of(vec![text(None)]), &specs, vec![], &FlattenOption::All, &patterns),
        Err(CodegenError::UnexpectedFieldSource)
    ));
}

#[test]
fn references_are_followed_through_the_document() {
    let specs = document(vec![
        ("A", reference("B")),
        ("B", reference("C")),
        ("C", object(vec![("x", Schema::Primitive(Primitive::Integer(meta(None))))], None)),
    ]);
    let patterns = DocPatterns::compile().unwrap();
    let fields =
        get_schema_fields(&reference("A"), &specs, vec![], &FlattenOption::All, &patterns).unwrap();
    assert_eq!(fields.len(), 1);
    assert_eq!(fields[0].name, "x");
    let looped = document(vec![("A", reference("A"))]);
    assert!(matches!(
        get_schema_fields(&reference("A"), &looped, vec![], &FlattenOption::All, &patterns),
        Err(CodegenError::ReferenceCycle)
    ));
}

#[test]
fn classification_follows_the_shape() {
    let specs = document(vec![("FELT", text(None)), ("BODY", object(vec![("x", reference("FELT"))], None))]);
    let patterns = DocPatterns::compile().unwrap();
    let values = Schema::Primitive(Primitive::String(StringPrimitive {
        meta: meta(None),
        enum_values: Some(vec![String::from("ACCEPTED_ON_L1"), String::from("REJECTED")]),
    }));
    match schema_to_rust_type_kind(&specs, &values, &FlattenOption::All, &patterns).unwrap() {
        Some(RustTypeKind::Enum(content)) => {
            assert!(!content.thiserror);
            assert_eq!(content.variants.len(), 2);
            assert_eq!(content.variants[0].name, "AcceptedOnL1");
            assert_eq!(content.variants[0].serde_name.as_deref(), Some("ACCEPTED_ON_L1"));
            assert!(content.variants[0].description.is_none());
            assert!(content.variants[0].error_text.is_none());
            assert_eq!(content.variants[1].name, "Rejected");
        }
        _ => panic!("an enum was expected"),
    }
    match schema_to_rust_type_kind(&specs, &reference("BODY"), &FlattenOption::All, &patterns).unwrap() {
        Some(RustTypeKind::Struct(content)) => assert_eq!(content.fields.len(), 1),
        _ => panic!("a struct was expected"),
    }
    assert!(schema_to_rust_type_kind(&specs, &one_of(vec![]), &FlattenOption::All, &patterns)
        .unwrap()
        .is_none());
    assert!(schema_to_rust_type_kind(&specs, &text(None), &FlattenOption::All, &patterns)
        .unwrap()
        .is_none());
    assert!(schema_to_rust_type_kind(&specs, &array(text(None)), &FlattenOption::All, &patterns)
        .unwrap()
        .is_none());
    assert!(matches!(
        schema_to_rust_type_kind(&specs, &reference("GONE"), &FlattenOption::All, &patterns),
        Err(CodegenError::RefTargetNotFound(_))
    ));
}

#[test]
fn names_are_recorded_by_the_place_that_names_them() {
    let schema = all_of(vec![
        reference("MERGED"),
        reference("KEPT"),
        object(vec![("a", reference("IN_PROPERTY")), ("b", array(reference("IN_ARRAY")))], None),
        one_of(vec![reference("IN_UNION"), all_of(vec![reference("MERGED")])]),
    ]);
    let policy = FlattenOption::Selected(vec![String::from("MERGED")]);
    let mut merged: Vec<String> = vec![];
    let mut other: Vec<String> = vec![String::from("BEFORE")];
    visit_schema_for_flatten_only(&schema, &policy, &mut merged, &mut other);
    assert_eq!(merged, vec!["MERGED"]);
    assert_eq!(other, vec!["BEFORE", "KEPT", "IN_PROPERTY", "IN_ARRAY", "IN_UNION"]);
    let mut names = vec![String::from("a")];
    insert_name(&mut names, "a");
    insert_name(&mut names, "b");
    assert_eq!(names, vec!["a", "b"]);
}

#[test]
fn flatten_only_names_are_merged_and_named_nowhere_else() {
    let policy = FlattenOption::Selected(vec![
        String::from("ONLY_MERGED"),
        String::from("ALSO_PROPERTY"),
        String::from("FUNCTION_CALL"),
        String::from("PENDING_STATE_UPDATE"),
    ]);
    let specs = document(vec![
        (
            "PARENT",
            all_of(vec![
                reference("ONLY_MERGED"),
                reference("ALSO_PROPERTY"),
                reference("FUNCTION_CALL"),
                reference("PENDING_STATE_UPDATE"),
                reference("NOT_SELECTED"),
            ]),
        ),
        ("SECOND", all_of(vec![reference("ONLY_MERGED")])),
        ("HOLDER", object(vec![("x", reference("ALSO_PROPERTY"))], None)),
    ]);
    assert_eq!(get_flatten_only_schemas(&specs, &policy), vec!["ONLY_MERGED"]);
    let mut all = get_flatten_only_schemas(&specs, &FlattenOption::All);
    all.sort();
    assert_eq!(all, vec!["NOT_SELECTED", "ONLY_MERGED"]);
    assert!(get_flatten_only_schemas(&document(vec![]), &FlattenOption::All).is_empty());
}

#[test]
fn sorting_is_by_name_and_keeps_equal_names_in_order() {
    let items = vec![3u8, 1, 2, 4];
    let keys = vec![String::from("b"), String::from("a"), String::from("b"), String::from("B")];
    assert_eq!(sort_by_keys(items, keys), vec![4u8, 1, 3, 2]);
    assert_eq!(
        sort_names(vec![String::from("TXN"), String::from("EVENT"), String::from("Txn"), String::from("")]),
        vec!["", "EVENT", "TXN", "Txn"]
    );
    assert!(sort_names(vec![]).is_empty());
}
