use starknet_jsonrpc_codegen::error::CodegenError;
use starknet_jsonrpc_codegen::ir::{
    FixedField, RustEnum, RustField, RustStruct, RustType, RustTypeKind, RustUnit, RustVariant,
    RustWrapper, SerializerOverride,
};

fn field(name: &str, type_text: &str) -> RustField {
    RustField {
        description: None,
        name: String::from(name),
        optional: false,
        fixed: None,
        arc_wrap: false,
        type_text: String::from(type_text),
        serde_rename: None,
        serde_flatten: false,
        serializer: None,
    }
}

fn adapted(name: &str, type_text: &str, adapter: &str) -> RustField {
    let mut f = field(name, type_text);
    f.serializer = Some(SerializerOverride::SerdeAs(String::from(adapter)));
    f
}

fn text_of(lines: &[String]) -> String {
    lines.join("\n")
}

#[test]
fn field_is_declared_with_its_attributes() {
    let f = RustField {
        description: Some(String::from("ignored here")),
        name: String::from("type"),
        optional: true,
        fixed: None,
        arc_wrap: true,
        type_text: String::from("String"),
        serde_rename: Some(String::from("Type")),
        serde_flatten: true,
        serializer: Some(SerializerOverride::SerdeAs(String::from("Vec<UfeHex>"))),
    };
    assert_eq!(
        f.def_lines(4, true, false, false),
        vec![
            "    #[serde(skip_serializing_if = \"Option::is_none\")]",
            "    #[serde(rename = \"Type\")]",
            "    #[serde(flatten)]",
            "    #[serde_as(as = \"Vec<UfeHex>\")]",
            "    pub r#type: Arc<String>,",
        ]
    );
    assert_eq!(
        f.def_lines(0, true, true, false),
        vec![
            "#[serde(skip_serializing_if = \"Option::is_none\")]",
            "#[serde(rename = \"Type\")]",
            "#[serde(flatten)]",
            "#[serde_as(as = \"[UfeHex]\")]",
            "pub r#type: &'a str,",
        ]
    );
    assert_eq!(f.def_lines(2, false, false, true), vec!["  pub r#type: String,"]);
    assert_eq!(f.def_lines(2, false, false, false), vec!["  pub r#type: Arc<String>,"]);
}

#[test]
fn borrowed_field_borrows_a_slice_or_a_value() {
    assert_eq!(
        field("keys", "Vec<FieldElement>").def_lines(4, false, true, false),
        vec!["    pub keys: &'a [FieldElement],"]
    );
    assert_eq!(field("n", "u64").def_lines(4, false, true, false), vec!["    pub n: &'a u64,"]);
    assert_eq!(field("n", "Vec<").def_lines(0, false, true, false), vec!["pub n: &'a [],"]);
    assert_eq!(
        field("n", "Vec<Vec<u8>>").def_lines(0, false, true, false),
        vec!["pub n: &'a [Vec<u8>],"]
    );
    let mut blob = field("program", "Vec<u8>");
    blob.serializer = Some(SerializerOverride::Serde(String::from("base64")));
    assert_eq!(
        blob.def_lines(4, true, false, false),
        vec!["    #[serde(with = \"base64\")]", "    pub program: Vec<u8>,"]
    );
    assert_eq!(
        adapted("h", "FieldElement", "UfeHex").def_lines(1, true, true, false),
        vec![" #[serde_as(as = \"UfeHex\")]", " pub h: &'a FieldElement,"]
    );
}

#[test]
fn optional_codec_wraps_the_adapter() {
    let adapter = SerializerOverride::SerdeAs(String::from("UfeHex"));
    assert!(matches!(
        adapter.to_optional(),
        Ok(SerializerOverride::SerdeAs(wrapped)) if wrapped == "Option<UfeHex>"
    ));
    let module = SerializerOverride::Serde(String::from("base64"));
    assert!(matches!(module.to_optional(), Err(CodegenError::OptionalSerdeWith)));
    assert!(matches!(
        module.duplicate(),
        SerializerOverride::Serde(name) if name == "base64"
    ));
}

#[test]
fn derived_struct_is_rendered() {
    let mut keys = adapted("keys", "Vec<FieldElement>", "Vec<UfeHex>");
    keys.description = Some(String::from("The keys"));
    let content = RustStruct {
        serde_as_array: false,
        extra_ref_type: false,
        fields: vec![keys, field("data", "u64")],
    };
    assert!(!content.need_custom_serde());
    assert!(content.uses_serde_as());
    assert_eq!(
        text_of(&content.render_stdout("Event")),
        "#[serde_as]
#[derive(Debug, Clone, Serialize, Deserialize)]
#[cfg_attr(feature = \"no_unknown_fields\", serde(deny_unknown_fields))]
pub struct Event {
    /// The keys
    #[serde_as(as = \"Vec<UfeHex>\")]
    pub keys: Vec<FieldElement>,
    pub data: u64,
}"
    );
    let plain = RustStruct { serde_as_array: false, extra_ref_type: false, fields: vec![] };
    assert_eq!(
        plain.render_stdout("Empty"),
        vec![
            "#[derive(Debug, Clone, Serialize, Deserialize)]",
            "#[cfg_attr(feature = \"no_unknown_fields\", serde(deny_unknown_fields))]",
            "pub struct Empty {",
            "}",
        ]
    );
}

#[test]
fn struct_with_fixed_field_does_not_store_it() {
    let mut kind = field("type", "String");
    kind.fixed = Some(FixedField { name: String::from("type"), value: String::from("\"DEPLOY\"") });
    let mut class = field("contract_class", "ContractClass");
    class.arc_wrap = true;
    let content = RustStruct {
        serde_as_array: false,
        extra_ref_type: true,
        fields: vec![kind, class],
    };
    assert!(content.need_custom_serde());
    assert_eq!(
        text_of(&content.render_stdout("DeployTransaction")),
        "#[derive(Debug, Clone)]
pub struct DeployTransaction {
    pub contract_class: Arc<ContractClass>,
}

/// Reference version of [DeployTransaction].
#[derive(Debug, Clone)]
pub struct DeployTransactionRef<'a> {
    pub contract_class: &'a ContractClass,
}"
    );
}

#[test]
fn enum_is_rendered_with_names_and_messages() {
    let content = RustEnum {
        thiserror: true,
        variants: vec![
            RustVariant {
                description: Some(String::from("Block not found")),
                name: String::from("BlockNotFound"),
                serde_name: Some(String::from("BLOCK_NOT_FOUND")),
                error_text: Some(String::from("Block not found")),
            },
            RustVariant {
                description: None,
                name: String::from("Other"),
                serde_name: None,
                error_text: None,
            },
        ],
    };
    assert!(!content.need_custom_serde());
    assert_eq!(
        text_of(&content.render_stdout("StarknetError")),
        "#[derive(Debug, Clone, Copy, PartialEq, Eq, Serialize, Deserialize, Error)]
pub enum StarknetError {
    /// Block not found
    #[serde(rename = \"BLOCK_NOT_FOUND\")]
    #[error(\"Block not found\")]
    BlockNotFound,
    Other,
}"
    );
    let plain = RustEnum { thiserror: false, variants: vec![] };
    assert_eq!(
        plain.render_stdout("Nothing"),
        vec![
            "#[derive(Debug, Clone, Copy, PartialEq, Eq, Serialize, Deserialize)]",
            "pub enum Nothing {",
            "}",
        ]
    );
}

#[test]
fn wrapper_and_unit_are_rendered() {
    let wrapper = RustWrapper { type_text: String::from("u64") };
    assert!(!wrapper.need_custom_serde());
    assert_eq!(
        wrapper.render_stdout("BlockNumber"),
        vec!["#[derive(Debug, Clone, Serialize, Deserialize)]", "pub struct BlockNumber(pub u64);"]
    );
    let derived = RustUnit { serde_as_array: false };
    assert!(!derived.need_custom_serde());
    assert_eq!(
        derived.render_stdout("Nothing"),
        vec!["#[derive(Debug, Clone, Serialize, Deserialize)]", "pub struct Nothing;"]
    );
    let positional = RustUnit { serde_as_array: true };
    assert!(positional.need_custom_serde());
    assert_eq!(
        positional.render_stdout("Nothing"),
        vec!["#[derive(Debug, Clone)]", "pub struct Nothing;"]
    );
    assert_eq!(
        RustTypeKind::Wrapper(RustWrapper { type_text: String::from("u8") }).render_stdout("W"),
        vec!["#[derive(Debug, Clone, Serialize, Deserialize)]", "pub struct W(pub u8);"]
    );
}

#[test]
fn type_is_rendered_behind_its_documentation() {
    let both = RustType {
        title: Some(String::from("Title.")),
        description: Some(String::from("Description.")),
        name: String::from("W"),
        content: RustTypeKind::Unit(RustUnit { serde_as_array: false }),
    };
    assert_eq!(
        both.render_stdout(),
        vec![
            "/// Title.",
            "///",
            "/// Description.",
            "#[derive(Debug, Clone, Serialize, Deserialize)]",
            "pub struct W;",
        ]
    );
    let described = RustType {
        title: None,
        description: Some(String::from("Description.")),
        name: String::from("W"),
        content: RustTypeKind::Unit(RustUnit { serde_as_array: true }),
    };
    assert_eq!(
        described.render_stdout(),
        vec!["/// Description.", "#[derive(Debug, Clone)]", "pub struct W;"]
    );
    let bare = RustType {
        title: None,
        description: None,
        name: String::from("W"),
        content: RustTypeKind::Unit(RustUnit { serde_as_array: true }),
    };
    assert_eq!(bare.render_stdout(), vec!["#[derive(Debug, Clone)]", "pub struct W;"]);
}

#[test]
fn positional_codec_is_rendered() {
    let content = RustStruct {
        serde_as_array: true,
        extra_ref_type: false,
        fields: vec![field("id", "u64"), adapted("block_hash", "FieldElement", "UfeHex")],
    };
    assert!(content.need_custom_serde());
    assert_eq!(
        text_of(&content.render_serde_stdout("BlockRequest").unwrap()),
        "impl Serialize for BlockRequest {
    fn serialize<S: Serializer>(&self, serializer: S) -> Result<S::Ok, S::Error> {
        #[derive(Serialize)]
        #[serde(transparent)]
        struct Field0<'a> {
            pub id: &'a u64,
        }

        #[serde_as]
        #[derive(Serialize)]
        #[serde(transparent)]
        struct Field1<'a> {
            #[serde_as(as = \"UfeHex\")]
            pub block_hash: &'a FieldElement,
        }

        use serde::ser::SerializeSeq;

        let mut seq = serializer.serialize_seq(None)?;

        seq.serialize_element(&Field0 { id: &self.id })?;
        seq.serialize_element(&Field1 {
            block_hash: &self.block_hash,
        })?;

        seq.end()
    }
}

impl<'de> Deserialize<'de> for BlockRequest {
    fn deserialize<D: Deserializer<'de>>(deserializer: D) -> Result<Self, D::Error> {
        #[serde_as]
        #[derive(Deserialize)]
        struct AsObject {
            pub id: u64,
            #[serde_as(as = \"UfeHex\")]
            pub block_hash: FieldElement,
        }

        #[derive(Deserialize)]
        #[serde(transparent)]
        struct Field0 {
            pub id: u64,
        }

        #[serde_as]
        #[derive(Deserialize)]
        #[serde(transparent)]
        struct Field1 {
            #[serde_as(as = \"UfeHex\")]
            pub block_hash: FieldElement,
        }

        let temp = serde_json::Value::deserialize(deserializer)?;

        if let Ok(mut elements) = Vec::<serde_json::Value>::deserialize(&temp) {
            let field1 = serde_json::from_value::<Field1>(
                elements
                    .pop()
                    .ok_or_else(|| serde::de::Error::custom(\"invalid sequence length\"))?,
            )
            .map_err(|err| serde::de::Error::custom(format!(\"failed to parse element: {}\", err)))?;
            let field0 = serde_json::from_value::<Field0>(
                elements
                    .pop()
                    .ok_or_else(|| serde::de::Error::custom(\"invalid sequence length\"))?,
            )
            .map_err(|err| serde::de::Error::custom(format!(\"failed to parse element: {}\", err)))?;

            if !elements.is_empty() {
                return Err(serde::de::Error::custom(\"invalid sequence length\"));
            }

            Ok(Self {
                id: field0.id,
                block_hash: field1.block_hash,
            })
        } else if let Ok(object) = AsObject::deserialize(&temp) {
            Ok(Self {
                id: object.id,
                block_hash: object.block_hash,
            })
        } else {
            Err(serde::de::Error::custom(\"invalid sequence length\"))
        }
    }
}"
    );
}

#[test]
fn elements_are_taken_last_field_first() {
    let names = ["a", "b", "c", "d", "e", "f", "g", "h", "i", "j", "k"];
    let content = RustStruct {
        serde_as_array: true,
        extra_ref_type: false,
        fields: names.iter().map(|name| field(name, "u64")).collect(),
    };
    let lines = content.render_impl_deserialize_stdout("Wide").unwrap();
    let taken: Vec<&String> = lines.iter().filter(|line| line.starts_with("            let field")).collect();
    assert_eq!(taken.len(), 11);
    for (k, line) in taken.iter().enumerate() {
        let index = 10 - k;
        assert_eq!(
            **line,
            format!("            let field{} = serde_json::from_value::<Field{}>(", index, index)
        );
    }
    assert!(lines.contains(&String::from("                k: field10.k,")));
    assert!(lines.contains(&String::from("                a: field0.a,")));
    let written = content.render_impl_serialize_stdout("Wide");
    assert!(written.contains(&String::from(
        "        seq.serialize_element(&Field10 { k: &self.k })?;"
    )));
    assert!(written.contains(&String::from("        struct Field10<'a> {")));
}

#[test]
fn borrowed_counterpart_has_its_own_impl() {
    let content = RustStruct {
        serde_as_array: true,
        extra_ref_type: true,
        fields: vec![field("block", "String")],
    };
    let lines = content.render_impl_serialize_stdout("CallRequest");
    assert_eq!(lines[0], "impl Serialize for CallRequest {");
    assert!(lines.contains(&String::from("impl<'a> Serialize for CallRequestRef<'a> {")));
    assert!(lines.contains(&String::from(
        "        seq.serialize_element(&Field0 { block: &self.block })?;"
    )));
    assert!(lines.contains(&String::from(
        "        seq.serialize_element(&Field0 { block: self.block })?;"
    )));
    assert_eq!(lines.iter().filter(|line| line.as_str() == "            pub block: &'a str,").count(), 2);
}

#[test]
fn unit_codec_is_rendered() {
    let unit = RustUnit { serde_as_array: true };
    assert_eq!(
        text_of(&unit.render_serde_stdout("BlockNumberRequest")),
        "impl Serialize for BlockNumberRequest {
    fn serialize<S: Serializer>(&self, serializer: S) -> Result<S::Ok, S::Error> {
        use serde::ser::SerializeSeq;

        let seq = serializer.serialize_seq(Some(0))?;
        seq.end()
    }
}

impl<'de> Deserialize<'de> for BlockNumberRequest {
    fn deserialize<D: Deserializer<'de>>(deserializer: D) -> Result<Self, D::Error> {
        let elements = Vec::<()>::deserialize(deserializer)?;
        if !elements.is_empty() {
            return Err(serde::de::Error::custom(\"invalid sequence length\"));
        }
        Ok(Self)
    }
}"
    );
}

#[test]
fn codec_is_only_there_for_structs_and_units() {
    let wrapper = RustType {
        title: None,
        description: None,
        name: String::from("W"),
        content: RustTypeKind::Wrapper(RustWrapper { type_text: String::from("u8") }),
    };
    assert!(matches!(wrapper.render_serde_stdout(), Err(CodegenError::SerdeBlockUnsupported)));
    assert!(!wrapper.need_custom_serde());
    let an_enum = RustType {
        title: None,
        description: None,
        name: String::from("E"),
        content: RustTypeKind::Enum(RustEnum { thiserror: false, variants: vec![] }),
    };
    assert!(matches!(an_enum.render_serde_stdout(), Err(CodegenError::SerdeBlockUnsupported)));
    let unit = RustType {
        title: None,
        description: None,
        name: String::from("U"),
        content: RustTypeKind::Unit(RustUnit { serde_as_array: true }),
    };
    assert_eq!(unit.render_serde_stdout().unwrap().len(), 18);
}

#[test]
fn fixed_field_with_a_module_codec_has_no_tagged_form() {
    let mut blob = field("program", "Vec<u8>");
    blob.serializer = Some(SerializerOverride::Serde(String::from("base64")));
    blob.fixed = Some(FixedField { name: String::from("program"), value: String::from("&[]") });
    let content = RustStruct { serde_as_array: false, extra_ref_type: false, fields: vec![blob] };
    assert!(matches!(
        content.render_serde_stdout("Program"),
        Err(CodegenError::OptionalSerdeWith)
    ));
    assert!(matches!(
        content.render_impl_deserialize_stdout("Program"),
        Err(CodegenError::OptionalSerdeWith)
    ));
}

#[test]
fn tagged_codec_checks_fixed_fields() {
    let mut kind = field("type", "String");
    kind.fixed = Some(FixedField { name: String::from("type"), value: String::from("\"DEPLOY\"") });
    let mut version = adapted("version", "u64", "NumAsHex");
    version.fixed = Some(FixedField { name: String::from("version"), value: String::from("&1") });
    let mut class = field("contract_class", "ContractClass");
    class.arc_wrap = true;
    let content = RustStruct {
        serde_as_array: false,
        extra_ref_type: false,
        fields: vec![kind, version, class],
    };
    assert_eq!(
        text_of(&content.render_impl_deserialize_stdout("DeployTransaction").unwrap()),
        "impl<'de> Deserialize<'de> for DeployTransaction {
    fn deserialize<D: Deserializer<'de>>(deserializer: D) -> Result<Self, D::Error> {
        #[serde_as]
        #[derive(Deserialize)]
        #[cfg_attr(feature = \"no_unknown_fields\", serde(deny_unknown_fields))]
        struct Tagged {
            #[serde(skip_serializing_if = \"Option::is_none\")]
            pub r#type: Option<String>,
            #[serde(skip_serializing_if = \"Option::is_none\")]
            #[serde_as(as = \"Option<NumAsHex>\")]
            pub version: Option<u64>,
            pub contract_class: ContractClass,
        }

        let tagged = Tagged::deserialize(deserializer)?;

        if let Some(tag_field) = &tagged.r#type {
            if tag_field != \"DEPLOY\" {
                return Err(serde::de::Error::custom(\"invalid `type` value\"));
            }
        }

        if let Some(tag_field) = &tagged.version {
            if tag_field != &1 {
                return Err(serde::de::Error::custom(\"invalid `version` value\"));
            }
        }

        Ok(Self {
            contract_class: Arc::new(tagged.contract_class),
        })
    }
}"
    );
    assert_eq!(
        text_of(&content.render_impl_serialize_stdout("DeployTransaction")),
        "impl Serialize for DeployTransaction {
    fn serialize<S: Serializer>(&self, serializer: S) -> Result<S::Ok, S::Error> {
        #[serde_as]
        #[derive(Serialize)]
        struct Tagged<'a> {
            pub r#type: &'a str,
            #[serde_as(as = \"NumAsHex\")]
            pub version: &'a u64,
            pub contract_class: &'a ContractClass,
        }

        let tagged = Tagged {
            r#type: \"DEPLOY\",
            version: &1,
            contract_class: &self.contract_class,
        };

        Tagged::serialize(&tagged, serializer)
    }
}"
    );
}
