use indexmap::IndexMap;
use starknet_jsonrpc_codegen::error::CodegenError;
use starknet_jsonrpc_codegen::ir::{FixedField, RustTypeKind};
use starknet_jsonrpc_codegen::options::{
    ArcWrappingOptions, FixedFieldsOptions, FlattenOption, RustTypeWithArcWrappedFields,
    RustTypeWithFixedFields, SpecVersion,
};
use starknet_jsonrpc_codegen::output::render_document;
use starknet_jsonrpc_codegen::merge::merge_specifications;
use starknet_jsonrpc_codegen::resolve::resolve_types;
use starknet_jsonrpc_codegen::schema::{
    AllOf, ArrayPrimitive, Components, ErrorDefinition, ErrorType, Meta, Method, ObjectPrimitive,
    OneOf, Param, Primitive, Property, Reference, Schema, Specification, StringPrimitive,
};

fn meta(description: Option<&str>) -> Meta {
    Meta { title: None, description: description.map(String::from), summary: None }
}

fn reference(name: &str) -> Schema {
    Schema::Ref(Reference { meta: meta(None), name: String::from(name) })
}

fn text(description: Option<&str>) -> Schema {
    Schema::Primitive(Primitive::String(StringPrimitive { meta: meta(description), enum_values: None }))
}

fn property(name: &str, schema: Schema) -> Property {
    Property { name: String::from(name), schema }
}

fn sample() -> Specification {
    let mut schemas: IndexMap<String, Schema> = IndexMap::new();
    schemas.insert(String::from("FELT"), text(Some("A field element")));
    schemas.insert(
        String::from("TXN_STATUS"),
        Schema::Primitive(Primitive::String(StringPrimitive {
            meta: Meta { title: Some(String::from("status")), description: Some(String::from("the status of the transaction on starknet")), summary: None },
            enum_values: Some(vec![String::from("PENDING"), String::from("ACCEPTED_ON_L2")]),
        })),
    );
    schemas.insert(
        String::from("COMMON_TXN_PROPERTIES"),
        Schema::Primitive(Primitive::Object(ObjectPrimitive {
            meta: meta(None),
            properties: vec![
                property("transaction_hash", reference("FELT")),
                property("maxFee", Schema::Primitive(Primitive::Integer(meta(Some("the max fee. paid on l1"))))),
            ],
            required: Some(vec![String::from("transaction_hash")]),
        })),
    );
    schemas.insert(
        String::from("INVOKE_TXN_V1"),
        Schema::AllOf(AllOf {
            meta: Meta { title: Some(String::from("invoke v1")), description: None, summary: Some(String::from("an invoke")) },
            all_of: vec![
                reference("COMMON_TXN_PROPERTIES"),
                Schema::Primitive(Primitive::Object(ObjectPrimitive {
                    meta: meta(None),
                    properties: vec![
                        property("type", text(None)),
                        property("version", Schema::Primitive(Primitive::Integer(meta(None)))),
                        property("calldata", Schema::Primitive(Primitive::Array(ArrayPrimitive { meta: meta(None), items: Box::new(reference("FELT")) }))),
                        property("status", reference("TXN_STATUS")),
                    ],
                    required: None,
                })),
            ],
        }),
    );
    schemas.insert(
        String::from("TXN"),
        Schema::OneOf(OneOf { meta: meta(None), one_of: vec![reference("INVOKE_TXN_V1")] }),
    );
    let mut errors: IndexMap<String, ErrorType> = IndexMap::new();
    errors.insert(
        String::from("BLOCK_NOT_FOUND"),
        ErrorType::Error(ErrorDefinition { code: 24, message: String::from("Block not found") }),
    );
    Specification {
        components: Components { schemas, errors },
        methods: vec![
            Method {
                name: String::from("starknet_getTransactionByHash"),
                params: vec![Param { name: String::from("transaction_hash"), description: None, schema: reference("FELT"), required: true }],
                result: None,
            },
            Method { name: String::from("starknet_blockNumber"), params: vec![], result: None },
        ],
    }
}


fn fixed_table() -> FixedFieldsOptions {
    FixedFieldsOptions {
        fixed_field_types: vec![RustTypeWithFixedFields {
            name: String::from("InvokeTransactionV1"),
            fields: vec![
                FixedField { name: String::from("type"), value: String::from("\"INVOKE\"") },
                FixedField { name: String::from("version"), value: String::from("&1") },
            ],
        }],
    }
}

fn shared_table() -> ArcWrappingOptions {
    ArcWrappingOptions {
        arc_wrapped_types: vec![RustTypeWithArcWrappedFields {
            name: String::from("InvokeTransactionV1"),
            fields: vec![String::from("calldata")],
        }],
    }
}

fn no_fixed() -> FixedFieldsOptions {
    FixedFieldsOptions { fixed_field_types: vec![] }
}

fn no_shared() -> ArcWrappingOptions {
    ArcWrappingOptions { arc_wrapped_types: vec![] }
}

fn policy() -> FlattenOption {
    FlattenOption::Selected(vec![String::from("COMMON_TXN_PROPERTIES")])
}

fn names(types: &Vec<starknet_jsonrpc_codegen::ir::RustType>) -> Vec<String> {
    types.iter().map(|t| t.name.clone()).collect()
}

const EXPECTED: &str = r##"// AUTO-GENERATED CODE. DO NOT EDIT
// To change the code generated, modify the codegen tool instead:
//     https://example.org/tool

// Code generated with version:
//     https://example.org/tool#abc123

// These types are ignored from code generation. Implement them manually:
// - `X`

// Code generation requested but not implemented for these types:
// - `TXN`

use serde::{Deserialize, Deserializer, Serialize, Serializer};
use serde_with::serde_as;

use crate::{
    serde::{byte_array::base64, unsigned_field_element::UfeHex},
    types::FieldElement,
    stdlib::sync::Arc,
    stdlib::Error,
};

use super::{serde_impls::NumAsHex, *};

/// Invoke v1.
///
/// An invoke.
#[derive(Debug, Clone)]
pub struct InvokeTransactionV1 {
    pub transaction_hash: FieldElement,
    /// The max fee. Paid on L1
    pub max_fee: Option<u64>,
    pub calldata: Arc<Vec<FieldElement>>,
    pub status: TransactionStatus,
}

/// JSON-RPC error codes
#[derive(Debug, Clone, Copy, PartialEq, Eq, Serialize, Deserialize, Error)]
pub enum StarknetError {
    /// Block not found
    #[error("Block not found")]
    BlockNotFound,
}

/// Status.
///
/// The status of the transaction on Starknet.
#[derive(Debug, Clone, Copy, PartialEq, Eq, Serialize, Deserialize)]
pub enum TransactionStatus {
    #[serde(rename = "PENDING")]
    Pending,
    #[serde(rename = "ACCEPTED_ON_L2")]
    AcceptedOnL2,
}

/// Request for method starknet_blockNumber
#[derive(Debug, Clone)]
pub struct BlockNumberRequest;

/// Request for method starknet_getTransactionByHash
#[derive(Debug, Clone)]
pub struct GetTransactionByHashRequest {
    pub transaction_hash: FieldElement,
}

/// Reference version of [GetTransactionByHashRequest].
#[derive(Debug, Clone)]
pub struct GetTransactionByHashRequestRef<'a> {
    pub transaction_hash: &'a FieldElement,
}

impl Serialize for InvokeTransactionV1 {
    fn serialize<S: Serializer>(&self, serializer: S) -> Result<S::Ok, S::Error> {
        #[serde_as]
        #[derive(Serialize)]
        struct Tagged<'a> {
            #[serde_as(as = "UfeHex")]
            pub transaction_hash: &'a FieldElement,
            #[serde(skip_serializing_if = "Option::is_none")]
            #[serde(rename = "maxFee")]
            pub max_fee: &'a Option<u64>,
            pub r#type: &'a str,
            pub version: &'a u64,
            #[serde_as(as = "[UfeHex]")]
            pub calldata: &'a [FieldElement],
            pub status: &'a TransactionStatus,
        }

        let tagged = Tagged {
            transaction_hash: &self.transaction_hash,
            max_fee: &self.max_fee,
            r#type: "INVOKE",
            version: &1,
            calldata: &self.calldata,
            status: &self.status,
        };

        Tagged::serialize(&tagged, serializer)
    }
}

impl<'de> Deserialize<'de> for InvokeTransactionV1 {
    fn deserialize<D: Deserializer<'de>>(deserializer: D) -> Result<Self, D::Error> {
        #[serde_as]
        #[derive(Deserialize)]
        #[cfg_attr(feature = "no_unknown_fields", serde(deny_unknown_fields))]
        struct Tagged {
            #[serde_as(as = "UfeHex")]
            pub transaction_hash: FieldElement,
            #[serde(skip_serializing_if = "Option::is_none")]
            #[serde(rename = "maxFee")]
            pub max_fee: Option<u64>,
            #[serde(skip_serializing_if = "Option::is_none")]
            pub r#type: Option<String>,
            #[serde(skip_serializing_if = "Option::is_none")]
            pub version: Option<u64>,
            #[serde_as(as = "Vec<UfeHex>")]
            pub calldata: Vec<FieldElement>,
            pub status: TransactionStatus,
        }

        let tagged = Tagged::deserialize(deserializer)?;

        if let Some(tag_field) = &tagged.r#type {
            if tag_field != "INVOKE" {
                return Err(serde::de::Error::custom("invalid `type` value"));
            }
        }

        if let Some(tag_field) = &tagged.version {
            if tag_field != &1 {
                return Err(serde::de::Error::custom("invalid `version` value"));
            }
        }

        Ok(Self {
            transaction_hash: tagged.transaction_hash,
            max_fee: tagged.max_fee,
            calldata: Arc::new(tagged.calldata),
            status: tagged.status,
        })
    }
}

impl Serialize for BlockNumberRequest {
    fn serialize<S: Serializer>(&self, serializer: S) -> Result<S::Ok, S::Error> {
        use serde::ser::SerializeSeq;

        let seq = serializer.serialize_seq(Some(0))?;
        seq.end()
    }
}

impl<'de> Deserialize<'de> for BlockNumberRequest {
    fn deserialize<D: Deserializer<'de>>(deserializer: D) -> Result<Self, D::Error> {
        let elements = Vec::<()>::deserialize(deserializer)?;
        if !elements.is_empty() {
            return Err(serde::de::Error::custom("invalid sequence length"));
        }
        Ok(Self)
    }
}

impl Serialize for GetTransactionByHashRequest {
    fn serialize<S: Serializer>(&self, serializer: S) -> Result<S::Ok, S::Error> {
        #[serde_as]
        #[derive(Serialize)]
        #[serde(transparent)]
        struct Field0<'a> {
            #[serde_as(as = "UfeHex")]
            pub transaction_hash: &'a FieldElement,
        }

        use serde::ser::SerializeSeq;

        let mut seq = serializer.serialize_seq(None)?;

        seq.serialize_element(&Field0 {
            transaction_hash: &self.transaction_hash,
        })?;

        seq.end()
    }
}

impl<'a> Serialize for GetTransactionByHashRequestRef<'a> {
    fn serialize<S: Serializer>(&self, serializer: S) -> Result<S::Ok, S::Error> {
        #[serde_as]
        #[derive(Serialize)]
        #[serde(transparent)]
        struct Field0<'a> {
            #[serde_as(as = "UfeHex")]
            pub transaction_hash: &'a FieldElement,
        }

        use serde::ser::SerializeSeq;

        let mut seq = serializer.serialize_seq(None)?;

        seq.serialize_element(&Field0 {
            transaction_hash: self.transaction_hash,
        })?;

        seq.end()
    }
}

impl<'de> Deserialize<'de> for GetTransactionByHashRequest {
    fn deserialize<D: Deserializer<'de>>(deserializer: D) -> Result<Self, D::Error> {
        #[serde_as]
        #[derive(Deserialize)]
        struct AsObject {
            #[serde_as(as = "UfeHex")]
            pub transaction_hash: FieldElement,
        }

        #[serde_as]
        #[derive(Deserialize)]
        #[serde(transparent)]
        struct Field0 {
            #[serde_as(as = "UfeHex")]
            pub transaction_hash: FieldElement,
        }

        let temp = serde_json::Value::deserialize(deserializer)?;

        if let Ok(mut elements) = Vec::<serde_json::Value>::deserialize(&temp) {
            let field0 = serde_json::from_value::<Field0>(
                elements
                    .pop()
                    .ok_or_else(|| serde::de::Error::custom("invalid sequence length"))?,
            )
            .map_err(|err| serde::de::Error::custom(format!("failed to parse element: {}", err)))?;

            if !elements.is_empty() {
                return Err(serde::de::Error::custom("invalid sequence length"));
            }

            Ok(Self {
                transaction_hash: field0.transaction_hash,
            })
        } else if let Ok(object) = AsObject::deserialize(&temp) {
            Ok(Self {
                transaction_hash: object.transaction_hash,
            })
        } else {
            Err(serde::de::Error::custom("invalid sequence length"))
        }
    }
}"##;

#[test]
fn whole_document_is_rendered_line_by_line() {
    let specs = sample();
    let result = resolve_types(&specs, &policy(), &vec![], &fixed_table(), &shared_table()).unwrap();
    let lines = render_document(
        SpecVersion::V0_2_1,
        "https://example.org/tool",
        Some("abc123"),
        &vec![String::from("X")],
        &result,
    )
    .unwrap();
    let expected: Vec<&str> = EXPECTED.split('\n').collect();
    assert_eq!(lines.len(), expected.len());
    for (line, wanted) in lines.iter().zip(expected.iter()) {
        assert_eq!(line, wanted);
    }
}

#[test]
fn rendering_twice_gives_the_same_text() {
    let specs = sample();
    let first = resolve_types(&specs, &policy(), &vec![], &fixed_table(), &shared_table()).unwrap();
    let second = resolve_types(&specs, &policy(), &vec![], &fixed_table(), &shared_table()).unwrap();
    let a = render_document(SpecVersion::V0_3_0, "tool", None, &vec![], &first).unwrap();
    let b = render_document(SpecVersion::V0_3_0, "tool", None, &vec![], &second).unwrap();
    assert_eq!(a, b);
}

#[test]
fn first_version_imports_from_the_core_crate() {
    let specs = sample();
    let result = resolve_types(&specs, &policy(), &vec![], &no_fixed(), &no_shared()).unwrap();
    let lines = render_document(SpecVersion::V0_1_0, "tool", None, &vec![], &result).unwrap();
    assert_eq!(lines[0], "// AUTO-GENERATED CODE. DO NOT EDIT");
    assert_eq!(lines[2], "//     tool");
    assert_eq!(lines[5], "    <Unable to determine Git commit hash>");
    assert_eq!(lines[7], "// Code generation requested but not implemented for these types:");
    assert_eq!(lines[8], "// - `TXN`");
    assert_eq!(lines[10], "use serde::{Deserialize, Deserializer, Serialize, Serializer};");
    assert_eq!(lines[11], "use serde_with::serde_as;");
    assert_eq!(lines[12], "use starknet_core::{");
    assert_eq!(lines[15], "};");
    assert_eq!(lines[16], "");
    assert_eq!(lines[17], "pub use starknet_core::types::L1Address as EthAddress;");
    assert_eq!(lines[18], "");
    assert_eq!(lines[19], "use super::{serde_impls::NumAsHex, *};");
}

#[test]
fn unsupported_union_is_listed_and_the_rest_is_emitted() {
    let specs = sample();
    let result = resolve_types(&specs, &policy(), &vec![], &no_fixed(), &no_shared()).unwrap();
    assert_eq!(result.not_implemented, vec![String::from("TXN")]);
    assert_eq!(
        names(&result.model_types),
        vec!["InvokeTransactionV1", "StarknetError", "TransactionStatus"]
    );
    assert_eq!(
        names(&result.request_response_types),
        vec!["BlockNumberRequest", "GetTransactionByHashRequest"]
    );
}

#[test]
fn string_without_values_and_other_shapes_are_not_implemented() {
    let mut specs = sample();
    specs.components.schemas.insert(String::from("PLAIN"), text(None));
    specs.components.schemas.insert(
        String::from("COUNT"),
        Schema::Primitive(Primitive::Integer(meta(None))),
    );
    let result = resolve_types(&specs, &policy(), &vec![], &no_fixed(), &no_shared()).unwrap();
    assert_eq!(
        result.not_implemented,
        vec![String::from("COUNT"), String::from("PLAIN"), String::from("TXN")]
    );
    assert_eq!(result.model_types.len(), 3);
}

#[test]
fn ignored_schema_gets_no_type() {
    let specs = sample();
    let ignored = vec![String::from("TXN_STATUS"), String::from("TXN")];
    let result = resolve_types(&specs, &policy(), &ignored, &no_fixed(), &no_shared()).unwrap();
    assert_eq!(names(&result.model_types), vec!["InvokeTransactionV1", "StarknetError"]);
    assert!(result.not_implemented.is_empty());
}

#[test]
fn flatten_only_schema_is_emitted_once_a_property_refers_to_it() {
    let mut specs = sample();
    let before = resolve_types(&specs, &policy(), &vec![], &no_fixed(), &no_shared()).unwrap();
    assert!(!names(&before.model_types).contains(&String::from("TransactionMeta")));
    specs.components.schemas.insert(
        String::from("HOLDER"),
        Schema::Primitive(Primitive::Object(ObjectPrimitive {
            meta: meta(None),
            properties: vec![property("meta", reference("COMMON_TXN_PROPERTIES"))],
            required: None,
        })),
    );
    let after = resolve_types(&specs, &policy(), &vec![], &no_fixed(), &no_shared()).unwrap();
    assert_eq!(
        names(&after.model_types),
        vec!["Holder", "InvokeTransactionV1", "StarknetError", "TransactionMeta", "TransactionStatus"]
    );
}

#[test]
fn fragment_outside_the_policy_becomes_a_nested_field() {
    let specs = sample();
    let none = FlattenOption::Selected(vec![]);
    let result = resolve_types(&specs, &none, &vec![], &no_fixed(), &no_shared()).unwrap();
    assert_eq!(
        names(&result.model_types),
        vec!["InvokeTransactionV1", "StarknetError", "TransactionMeta", "TransactionStatus"]
    );
    match &result.model_types[0].content {
        RustTypeKind::Struct(content) => {
            assert_eq!(content.fields.len(), 5);
            assert_eq!(content.fields[0].name, "common_txn_properties");
            assert_eq!(content.fields[0].type_text, "TransactionMeta");
            assert!(content.fields[0].serde_flatten);
            assert!(!content.fields[0].optional);
            assert_eq!(content.fields[1].name, "type");
        }
        _ => panic!("a struct was expected"),
    }
}

#[test]
fn flatten_everything_merges_every_fragment() {
    let specs = sample();
    let result = resolve_types(&specs, &FlattenOption::All, &vec![], &no_fixed(), &no_shared()).unwrap();
    match &result.model_types[0].content {
        RustTypeKind::Struct(content) => {
            let fields: Vec<&str> = content.fields.iter().map(|f| f.name.as_str()).collect();
            assert_eq!(fields, vec!["transaction_hash", "max_fee", "type", "version", "calldata", "status"]);
            assert!(!content.serde_as_array);
            assert!(!content.extra_ref_type);
        }
        _ => panic!("a struct was expected"),
    }
}

#[test]
fn override_tables_mark_fixed_and_shared_fields() {
    let specs = sample();
    let result = resolve_types(&specs, &policy(), &vec![], &fixed_table(), &shared_table()).unwrap();
    match &result.model_types[0].content {
        RustTypeKind::Struct(content) => {
            assert_eq!(content.fields[2].name, "type");
            assert_eq!(content.fields[2].fixed.as_ref().unwrap().value, "\"INVOKE\"");
            assert_eq!(content.fields[3].fixed.as_ref().unwrap().value, "&1");
            assert!(content.fields[0].fixed.is_none());
            assert!(content.fields[4].arc_wrap);
            assert!(!content.fields[5].arc_wrap);
        }
        _ => panic!("a struct was expected"),
    }
    assert!(result.model_types[0].need_custom_serde());
    assert!(!result.model_types[1].need_custom_serde());
}

#[test]
fn request_types_are_positional() {
    let specs = sample();
    let result = resolve_types(&specs, &policy(), &vec![], &no_fixed(), &no_shared()).unwrap();
    match &result.request_response_types[0].content {
        RustTypeKind::Unit(content) => assert!(content.serde_as_array),
        _ => panic!("a unit was expected"),
    }
    match &result.request_response_types[1].content {
        RustTypeKind::Struct(content) => {
            assert!(content.serde_as_array);
            assert!(content.extra_ref_type);
            assert_eq!(content.fields.len(), 1);
            assert_eq!(content.fields[0].type_text, "FieldElement");
        }
        _ => panic!("a struct was expected"),
    }
    assert_eq!(
        result.request_response_types[1].title.as_deref(),
        Some("Request for method starknet_getTransactionByHash")
    );
}

#[test]
fn missing_reference_is_fatal() {
    let mut specs = sample();
    specs.components.schemas.insert(
        String::from("BROKEN"),
        Schema::Primitive(Primitive::Object(ObjectPrimitive {
            meta: meta(None),
            properties: vec![property("x", reference("NOWHERE"))],
            required: None,
        })),
    );
    let failure = resolve_types(&specs, &policy(), &vec![], &no_fixed(), &no_shared()).unwrap_err();
    assert!(matches!(&failure, CodegenError::RefTargetNotFound(name) if name == "NOWHERE"));
    assert_eq!(failure.message(), "Ref target type not found: NOWHERE");
}

#[test]
fn top_level_reference_stands_for_its_target() {
    let mut specs = sample();
    specs.components.schemas.insert(String::from("ALIAS"), reference("COMMON_TXN_PROPERTIES"));
    let result = resolve_types(&specs, &policy(), &vec![], &no_fixed(), &no_shared()).unwrap();
    assert_eq!(result.model_types[0].name, "Alias");
    match &result.model_types[0].content {
        RustTypeKind::Struct(content) => {
            assert_eq!(content.fields.len(), 2);
            assert_eq!(content.fields[1].name, "max_fee");
            assert_eq!(content.fields[1].serde_rename.as_deref(), Some("maxFee"));
            assert_eq!(content.fields[1].type_text, "Option<u64>");
            assert!(content.fields[1].optional);
        }
        _ => panic!("a struct was expected"),
    }
}

#[test]
fn reference_cycle_is_fatal() {
    let mut specs = sample();
    specs.components.schemas.insert(String::from("A"), reference("B"));
    specs.components.schemas.insert(String::from("B"), reference("A"));
    let failure = resolve_types(&specs, &policy(), &vec![], &no_fixed(), &no_shared()).unwrap_err();
    assert!(matches!(failure, CodegenError::ReferenceCycle));
}

#[test]
fn indirected_error_definition_is_fatal() {
    let mut specs = sample();
    specs.components.errors.insert(
        String::from("OTHER"),
        ErrorType::Reference(Reference { meta: meta(None), name: String::from("BLOCK_NOT_FOUND") }),
    );
    let failure = resolve_types(&specs, &policy(), &vec![], &no_fixed(), &no_shared()).unwrap_err();
    assert!(matches!(failure, CodegenError::ErrorRedirection));
}

#[test]
fn anonymous_composite_parameter_is_fatal() {
    let mut specs = sample();
    specs.methods.push(Method {
        name: String::from("starknet_call"),
        params: vec![Param {
            name: String::from("request"),
            description: None,
            schema: Schema::OneOf(OneOf { meta: meta(None), one_of: vec![] }),
            required: true,
        }],
        result: None,
    });
    let failure = resolve_types(&specs, &policy(), &vec![], &no_fixed(), &no_shared()).unwrap_err();
    assert!(matches!(failure, CodegenError::AnonymousOneOf));
}

#[test]
fn merge_keeps_the_first_definition() {
    let mut core = sample();
    let mut extra = sample();
    extra.components.errors.insert(
        String::from("BLOCK_NOT_FOUND"),
        ErrorType::Error(ErrorDefinition { code: 99, message: String::from("Another text") }),
    );
    extra.components.errors.insert(
        String::from("CLASS_HASH_NOT_FOUND"),
        ErrorType::Error(ErrorDefinition { code: 28, message: String::from("Class hash not found") }),
    );
    extra.methods = vec![Method { name: String::from("starknet_addInvokeTransaction"), params: vec![], result: None }];
    merge_specifications(&mut core, extra);
    let keys: Vec<&String> = core.components.errors.keys().collect();
    assert_eq!(keys, vec!["BLOCK_NOT_FOUND", "CLASS_HASH_NOT_FOUND"]);
    match core.components.errors.get("BLOCK_NOT_FOUND").unwrap() {
        ErrorType::Error(definition) => {
            assert_eq!(definition.message, "Block not found");
            assert_eq!(definition.code, 24);
        }
        _ => panic!("a literal definition was expected"),
    }
    match core.components.errors.get("CLASS_HASH_NOT_FOUND").unwrap() {
        ErrorType::Error(definition) => assert_eq!(definition.message, "Class hash not found"),
        _ => panic!("a literal definition was expected"),
    }
    let methods: Vec<&str> = core.methods.iter().map(|m| m.name.as_str()).collect();
    assert_eq!(
        methods,
        vec!["starknet_getTransactionByHash", "starknet_blockNumber", "starknet_addInvokeTransaction"]
    );
    assert_eq!(core.components.schemas.len(), 5);
}
