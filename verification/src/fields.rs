//! From schemas to fields: the native type of a schema in field position, and
//! the fields that an object or a composition contributes to a struct.

use vstd::prelude::*;
use vstd::string::StringExecFns;
use crate::error::{result_view, CodegenError, ErrorView};
use crate::field::optional_serializer;
use crate::ir::{
    FieldTypeView, FieldView, RustField, RustFieldType, SerializerOverride, SerializerView,
};
use crate::naming::{
    rust_field_name, starknet_rs_doc, starknet_rs_name, to_rust_field_name, to_starknet_rs_doc,
    to_starknet_rs_name,
};
use crate::options::{contains_name, should_flatten, FlattenOption, FlattenView};
use crate::pattern::DocPatterns;
use crate::schema::{
    lookup, schema_count, schema_entries, schema_get, schema_meta, Meta, Primitive, Property,
    Reference, Schema, Specification,
};
use crate::text::{cat3, contains_str, copy_text, occurs_in, str_eq, unicode_lower};

verus! {

/// The field type of a schema name that has a type of its own in the target
/// library, whatever the document says of it.
pub open spec fn field_type_override(name: Seq<char>) -> Option<FieldTypeView> {
    if name == "ADDRESS"@ || name == "STORAGE_KEY"@ || name == "TXN_HASH"@ || name == "FELT"@
        || name == "BLOCK_HASH"@ || name == "CHAIN_ID"@ || name == "PROTOCOL_VERSION"@ {
        Some(
            FieldTypeView {
                type_text: "FieldElement"@,
                serializer: Some(SerializerView::SerdeAs("UfeHex"@)),
            },
        )
    } else if name == "BLOCK_NUMBER"@ {
        Some(FieldTypeView { type_text: "u64"@, serializer: None })
    } else if name == "NUM_AS_HEX"@ {
        Some(
            FieldTypeView {
                type_text: "u64"@,
                serializer: Some(SerializerView::SerdeAs("NumAsHex"@)),
            },
        )
    } else if name == "ETH_ADDRESS"@ {
        Some(FieldTypeView { type_text: "EthAddress"@, serializer: None })
    } else if name == "SIGNATURE"@ {
        Some(
            FieldTypeView {
                type_text: "Vec<FieldElement>"@,
                serializer: Some(SerializerView::SerdeAs("Vec<UfeHex>"@)),
            },
        )
    } else if name == "CONTRACT_ABI"@ {
        Some(FieldTypeView { type_text: "Vec<LegacyContractAbiEntry>"@, serializer: None })
    } else if name == "CONTRACT_ENTRY_POINT_LIST"@ {
        Some(FieldTypeView { type_text: "Vec<ContractEntryPoint>"@, serializer: None })
    } else if name == "LEGACY_CONTRACT_ENTRY_POINT_LIST"@ {
        Some(FieldTypeView { type_text: "Vec<LegacyContractEntryPoint>"@, serializer: None })
    } else if name == "TXN_TYPE"@ {
        Some(FieldTypeView { type_text: "String"@, serializer: None })
    } else {
        None
    }
}

/// The type of a sequence of items of the given type: the item's adapter, if
/// it has one, is applied to every element.
pub open spec fn sequence_type(item: FieldTypeView) -> Result<FieldTypeView, ErrorView> {
    match item.serializer {
        Some(SerializerView::Serde(_)) => Err(ErrorView::ArraySerdeWith),
        Some(SerializerView::SerdeAs(adapter)) => Ok(
            FieldTypeView {
                type_text: "Vec<"@ + item.type_text + ">"@,
                serializer: Some(SerializerView::SerdeAs("Vec<"@ + adapter + ">"@)),
            },
        ),
        None => Ok(
            FieldTypeView { type_text: "Vec<"@ + item.type_text + ">"@, serializer: None },
        ),
    }
}

/// The native type of a schema that stands where a field or a parameter is
/// declared, in a document with the given named schemas.
pub open spec fn field_type(entries: Seq<(Seq<char>, Schema)>, s: Schema) -> Result<
    FieldTypeView,
    ErrorView,
>
    decreases s,
{
    match s {
        Schema::Ref(r) => if lookup(entries, r.name@) is None {
            Err(ErrorView::RefTargetNotFound(r.name@))
        } else {
            match field_type_override(r.name@) {
                Some(t) => Ok(t),
                None => Ok(FieldTypeView { type_text: starknet_rs_name(r.name@), serializer: None }),
            }
        },
        Schema::OneOf(_) => Err(ErrorView::AnonymousOneOf),
        Schema::AllOf(_) => Err(ErrorView::AnonymousAllOf),
        Schema::Primitive(Primitive::Array(a)) => match field_type(entries, *a.items) {
            Ok(item) => sequence_type(item),
            Err(e) => Err(e),
        },
        Schema::Primitive(Primitive::Boolean(_)) => Ok(
            FieldTypeView { type_text: "bool"@, serializer: None },
        ),
        Schema::Primitive(Primitive::Integer(_)) => Ok(
            FieldTypeView { type_text: "u64"@, serializer: None },
        ),
        Schema::Primitive(Primitive::Object(_)) => Err(ErrorView::AnonymousObject),
        Schema::Primitive(Primitive::String(p)) => if p.meta.description matches Some(d)
            && occurs_in("base64"@, d@) {
            Ok(
                FieldTypeView {
                    type_text: "Vec<u8>"@,
                    serializer: Some(SerializerView::Serde("base64"@)),
                },
            )
        } else {
            Ok(FieldTypeView { type_text: "String"@, serializer: None })
        },
    }
}

/// The field that stands for a fragment kept as a nested value: named after
/// the reference in lower case, typed by the referenced schema, and merged
/// into the enclosing object on the wire.
pub open spec fn nested_field(r: Reference) -> FieldView {
    FieldView {
        description: r.meta.description.deep_view(),
        name: unicode_lower(r.name@),
        optional: false,
        fixed: None,
        arc_wrap: false,
        type_text: starknet_rs_name(r.name@),
        serde_rename: None,
        serde_flatten: true,
        serializer: None,
    }
}

/// The one line of documentation of a property: its description, else its
/// title, else its summary.
pub open spec fn property_doc(m: Meta) -> Option<Seq<char>> {
    match m.description {
        Some(text) => Some(text@),
        None => match m.title {
            Some(text) => Some(text@),
            None => m.summary.deep_view(),
        },
    }
}

/// Whether a property may be left out: the object lists its required
/// properties, and this one is not among them.
pub open spec fn property_optional(required: Option<Seq<Seq<char>>>, name: Seq<char>) -> bool {
    match required {
        Some(names) => !names.contains(name),
        None => false,
    }
}

/// The field that a property becomes.
pub open spec fn property_field(
    entries: Seq<(Seq<char>, Schema)>,
    p: Property,
    required: Option<Seq<Seq<char>>>,
) -> Result<FieldView, ErrorView> {
    match field_type(entries, p.schema) {
        Err(e) => Err(e),
        Ok(t) => {
            let field_name = rust_field_name(p.name@);
            let optional = property_optional(required, p.name@);
            let serializer = if optional {
                match t.serializer {
                    Some(s) => match optional_serializer(s) {
                        Ok(o) => Ok(Some(o)),
                        Err(e) => Err(e),
                    },
                    None => Ok(None),
                }
            } else {
                Ok(t.serializer)
            };
            match serializer {
                Err(e) => Err(e),
                Ok(serializer) => Ok(
                    FieldView {
                        description: match property_doc(schema_meta(p.schema)) {
                            Some(doc) => Some(starknet_rs_doc(doc, false)),
                            None => None,
                        },
                        name: field_name,
                        optional,
                        fixed: None,
                        arc_wrap: false,
                        type_text: if optional {
                            "Option<"@ + t.type_text + ">"@
                        } else {
                            t.type_text
                        },
                        serde_rename: if p.name@ == field_name {
                            None
                        } else {
                            Some(p.name@)
                        },
                        serde_flatten: false,
                        serializer,
                    },
                ),
            }
        },
    }
}

/// `acc` followed by the fields of the properties from position `i` on, or
/// the error of the first property that has no field.
pub open spec fn property_fields(
    entries: Seq<(Seq<char>, Schema)>,
    items: Seq<Property>,
    required: Option<Seq<Seq<char>>>,
    i: nat,
    acc: Seq<FieldView>,
) -> Result<Seq<FieldView>, ErrorView>
    decreases items.len() - i,
{
    if i >= items.len() {
        Ok(acc)
    } else {
        match property_field(entries, items[i as int], required) {
            Ok(f) => property_fields(entries, items, required, i + 1, acc.push(f)),
            Err(e) => Err(e),
        }
    }
}

/// `acc` followed by what the fragments of a composition contribute from
/// position `i` on. A fragment that is a reference is merged, its fields
/// taking this place in the list, where the policy says so, and is kept as one
/// nested field where it does not. Any other fragment is merged.
pub open spec fn fragment_fields(
    entries: Seq<(Seq<char>, Schema)>,
    items: Seq<Schema>,
    i: nat,
    option: FlattenView,
    acc: Seq<FieldView>,
    depth: nat,
) -> Result<Seq<FieldView>, ErrorView>
    decreases depth, items, items.len() - i,
{
    if i >= items.len() {
        Ok(acc)
    } else {
        let after = match items[i as int] {
            Schema::Ref(r) => if should_flatten(option, r.name@) {
                schema_fields(entries, items[i as int], option, acc, depth)
            } else {
                Ok(acc.push(nested_field(r)))
            },
            _ => schema_fields(entries, items[i as int], option, acc, depth),
        };
        match after {
            Ok(fields) => fragment_fields(entries, items, i + 1, option, fields, depth),
            Err(e) => Err(e),
        }
    }
}

/// `acc` followed by the fields that a schema contributes to a struct, in
/// order. A reference contributes what its target contributes; `depth` is the
/// number of references that may still be followed, one inside the other.
pub open spec fn schema_fields(
    entries: Seq<(Seq<char>, Schema)>,
    s: Schema,
    option: FlattenView,
    acc: Seq<FieldView>,
    depth: nat,
) -> Result<Seq<FieldView>, ErrorView>
    decreases depth, s, 0nat,
{
    match s {
        Schema::Ref(r) => match lookup(entries, r.name@) {
            None => Err(ErrorView::RefTargetNotFound(r.name@)),
            Some(target) => if depth == 0 {
                Err(ErrorView::ReferenceCycle)
            } else {
                schema_fields(entries, target, option, acc, (depth - 1) as nat)
            },
        },
        Schema::AllOf(a) => fragment_fields(entries, a.all_of@, 0, option, acc, depth),
        Schema::Primitive(Primitive::Object(o)) => property_fields(
            entries,
            o.properties@,
            o.required.deep_view(),
            0,
            acc,
        ),
        _ => Err(ErrorView::UnexpectedFieldSource),
    }
}

fn plain_type(text: &str) -> (r: RustFieldType)
    ensures
        r.deep_view() == (FieldTypeView { type_text: text@, serializer: None }),
{
    RustFieldType { type_text: String::from_str(text), serializer: None }
}

fn adapted_type(text: &str, adapter: &str) -> (r: RustFieldType)
    ensures
        r.deep_view() == (FieldTypeView {
            type_text: text@,
            serializer: Some(SerializerView::SerdeAs(adapter@)),
        }),
{
    RustFieldType {
        type_text: String::from_str(text),
        serializer: Some(SerializerOverride::SerdeAs(String::from_str(adapter))),
    }
}

/// The field type of a schema name that has a type of its own in the target
/// library.
pub fn get_field_type_override(name: &str) -> (r: Option<RustFieldType>)
    ensures
        r.deep_view() == field_type_override(name@),
{
    if str_eq(name, "ADDRESS") || str_eq(name, "STORAGE_KEY") || str_eq(name, "TXN_HASH")
        || str_eq(name, "FELT") || str_eq(name, "BLOCK_HASH") || str_eq(name, "CHAIN_ID")
        || str_eq(name, "PROTOCOL_VERSION") {
        Some(adapted_type("FieldElement", "UfeHex"))
    } else if str_eq(name, "BLOCK_NUMBER") {
        Some(plain_type("u64"))
    } else if str_eq(name, "NUM_AS_HEX") {
        Some(adapted_type("u64", "NumAsHex"))
    } else if str_eq(name, "ETH_ADDRESS") {
        Some(plain_type("EthAddress"))
    } else if str_eq(name, "SIGNATURE") {
        Some(adapted_type("Vec<FieldElement>", "Vec<UfeHex>"))
    } else if str_eq(name, "CONTRACT_ABI") {
        Some(plain_type("Vec<LegacyContractAbiEntry>"))
    } else if str_eq(name, "CONTRACT_ENTRY_POINT_LIST") {
        Some(plain_type("Vec<ContractEntryPoint>"))
    } else if str_eq(name, "LEGACY_CONTRACT_ENTRY_POINT_LIST") {
        Some(plain_type("Vec<LegacyContractEntryPoint>"))
    } else if str_eq(name, "TXN_TYPE") {
        Some(plain_type("String"))
    } else {
        None
    }
}

/// The native type of a schema that stands where a field or a parameter is
/// declared. A reference must name a schema of the document; an anonymous
/// composition or object is an error.
pub fn get_rust_type_for_field(schema: &Schema, specs: &Specification) -> (r: Result<
    RustFieldType,
    CodegenError,
>)
    ensures
        result_view(r) == field_type(schema_entries(specs.components.schemas), *schema),
    decreases schema,
{
    match schema {
        Schema::Ref(value) => {
            let name = value.name.as_str();
            if schema_get(&specs.components.schemas, name).is_none() {
                return Err(CodegenError::RefTargetNotFound(value.name.clone()));
            }
            match get_field_type_override(name) {
                Some(t) => Ok(t),
                None => Ok(
                    RustFieldType { type_text: to_starknet_rs_name(name), serializer: None },
                ),
            }
        },
        Schema::OneOf(_) => Err(CodegenError::AnonymousOneOf),
        Schema::AllOf(_) => Err(CodegenError::AnonymousAllOf),
        Schema::Primitive(value) => match value {
            Primitive::Array(value) => {
                let item = match get_rust_type_for_field(&value.items, specs) {
                    Ok(item) => item,
                    Err(e) => {
                        return Err(e);
                    },
                };
                let serializer = match &item.serializer {
                    Some(SerializerOverride::Serde(_)) => {
                        return Err(CodegenError::ArraySerdeWith);
                    },
                    Some(SerializerOverride::SerdeAs(adapter)) => Some(
                        SerializerOverride::SerdeAs(cat3("Vec<", adapter.as_str(), ">")),
                    ),
                    None => None,
                };
                Ok(
                    RustFieldType {
                        type_text: cat3("Vec<", item.type_text.as_str(), ">"),
                        serializer,
                    },
                )
            },
            Primitive::Boolean(_) => Ok(plain_type("bool")),
            Primitive::Integer(_) => Ok(plain_type("u64")),
            Primitive::Object(_) => Err(CodegenError::AnonymousObject),
            Primitive::String(value) => {
                let encoded = match &value.meta.description {
                    Some(desc) => contains_str(desc.as_str(), "base64"),
                    None => false,
                };
                if encoded {
                    Ok(
                        RustFieldType {
                            type_text: String::from_str("Vec<u8>"),
                            serializer: Some(
                                SerializerOverride::Serde(String::from_str("base64")),
                            ),
                        },
                    )
                } else {
                    Ok(plain_type("String"))
                }
            },
        },
    }
}

fn nested_field_of(reference: &Reference) -> (r: RustField)
    ensures
        r.deep_view() == nested_field(*reference),
{
    RustField {
        description: copy_text(&reference.meta.description),
        name: reference.name.as_str().to_lowercase(),
        optional: false,
        fixed: None,
        arc_wrap: false,
        type_text: to_starknet_rs_name(reference.name.as_str()),
        serde_rename: None,
        serde_flatten: true,
        serializer: None,
    }
}

fn property_doc_of<'a>(m: &'a Meta) -> (r: Option<&'a String>)
    ensures
        match r {
            Some(text) => property_doc(*m) == Some(text@),
            None => property_doc(*m) is None,
        },
{
    match &m.description {
        Some(text) => Some(text),
        None => match &m.title {
            Some(text) => Some(text),
            None => match &m.summary {
                Some(text) => Some(text),
                None => None,
            },
        },
    }
}

fn property_field_of(
    property: &Property,
    required: &Option<Vec<String>>,
    specs: &Specification,
    patterns: &DocPatterns,
) -> (r: Result<RustField, CodegenError>)
    ensures
        result_view(r) == property_field(
            schema_entries(specs.components.schemas),
            *property,
            required.deep_view(),
        ),
{
    let name = property.name.as_str();
    let field_type = match get_rust_type_for_field(&property.schema, specs) {
        Ok(t) => t,
        Err(e) => {
            return Err(e);
        },
    };
    let field_name = to_rust_field_name(name, patterns);
    let rename = if str_eq(name, field_name.as_str()) {
        None
    } else {
        Some(property.name.clone())
    };
    let field_optional = match required {
        Some(names) => !contains_name(names, name),
        None => false,
    };
    let type_text = if field_optional {
        cat3("Option<", field_type.type_text.as_str(), ">")
    } else {
        field_type.type_text
    };
    let serializer = if field_optional {
        match &field_type.serializer {
            Some(s) => match s.to_optional() {
                Ok(o) => Some(o),
                Err(e) => {
                    return Err(e);
                },
            },
            None => None,
        }
    } else {
        field_type.serializer
    };
    let description = match property_doc_of(property.schema.meta()) {
        Some(text) => Some(to_starknet_rs_doc(text.as_str(), false, patterns)),
        None => None,
    };
    Ok(
        RustField {
            description,
            name: field_name,
            optional: field_optional,
            fixed: None,
            arc_wrap: false,
            type_text,
            serde_rename: rename,
            serde_flatten: false,
            serializer,
        },
    )
}

fn push_field(fields: Vec<RustField>, field: RustField) -> (r: Vec<RustField>)
    ensures
        r.deep_view() == fields.deep_view().push(field.deep_view()),
{
    let mut fields = fields;
    let ghost before = fields.deep_view();
    fields.push(field);
    assert(fields.deep_view() =~= before.push(field.deep_view()));
    fields
}

fn collect_fields(
    schema: &Schema,
    specs: &Specification,
    fields: Vec<RustField>,
    flatten_option: &FlattenOption,
    patterns: &DocPatterns,
    depth: usize,
) -> (r: Result<Vec<RustField>, CodegenError>)
    ensures
        result_view(r) == schema_fields(
            schema_entries(specs.components.schemas),
            *schema,
            flatten_option.deep_view(),
            fields.deep_view(),
            depth as nat,
        ),
    decreases depth, schema,
{
    let ghost entries = schema_entries(specs.components.schemas);
    let ghost option = flatten_option.deep_view();
    let ghost start = fields.deep_view();
    match schema {
        Schema::Ref(value) => {
            match schema_get(&specs.components.schemas, value.name.as_str()) {
                None => Err(CodegenError::RefTargetNotFound(value.name.clone())),
                Some(target) => {
                    if depth == 0 {
                        Err(CodegenError::ReferenceCycle)
                    } else {
                        collect_fields(target, specs, fields, flatten_option, patterns, depth - 1)
                    }
                },
            }
        },
        Schema::AllOf(value) => {
            let mut acc = fields;
            let mut i: usize = 0;
            while i < value.all_of.len()
                invariant
                    i <= value.all_of.len(),
                    *schema == Schema::AllOf(*value),
                    entries == schema_entries(specs.components.schemas),
                    option == flatten_option.deep_view(),
                    start == fields.deep_view(),
                    fragment_fields(entries, value.all_of@, 0, option, start, depth as nat)
                        == fragment_fields(
                        entries,
                        value.all_of@,
                        i as nat,
                        option,
                        acc.deep_view(),
                        depth as nat,
                    ),
                decreases value.all_of.len() - i,
            {
                let item = &value.all_of[i];
                assert(schema->AllOf_0 == *value);
                assert(decreases_to!(value.all_of => value.all_of[i as int]));
                let merged = match item {
                    Schema::Ref(reference) => flatten_option.should_flatten(
                        reference.name.as_str(),
                    ),
                    _ => true,
                };
                if merged {
                    acc = match collect_fields(item, specs, acc, flatten_option, patterns, depth) {
                        Ok(fields) => fields,
                        Err(e) => {
                            return Err(e);
                        },
                    };
                } else {
                    match item {
                        Schema::Ref(reference) => {
                            acc = push_field(acc, nested_field_of(reference));
                        },
                        _ => {},
                    }
                }
                i = i + 1;
            }
            Ok(acc)
        },
        Schema::Primitive(Primitive::Object(value)) => {
            let mut acc = fields;
            let ghost required = value.required.deep_view();
            let mut i: usize = 0;
            while i < value.properties.len()
                invariant
                    i <= value.properties.len(),
                    *schema == Schema::Primitive(Primitive::Object(*value)),
                    entries == schema_entries(specs.components.schemas),
                    required == value.required.deep_view(),
                    start == fields.deep_view(),
                    property_fields(entries, value.properties@, required, 0, start)
                        == property_fields(
                        entries,
                        value.properties@,
                        required,
                        i as nat,
                        acc.deep_view(),
                    ),
                decreases value.properties.len() - i,
            {
                let field = match property_field_of(
                    &value.properties[i],
                    &value.required,
                    specs,
                    patterns,
                ) {
                    Ok(field) => field,
                    Err(e) => {
                        return Err(e);
                    },
                };
                acc = push_field(acc, field);
                i = i + 1;
            }
            Ok(acc)
        },
        _ => Err(CodegenError::UnexpectedFieldSource),
    }
}

/// Appends to `fields` the fields that a schema contributes to a struct, in
/// the order of its properties and fragments. References are followed through
/// the document, at most as many, one inside the other, as the document has
/// schemas: a longer chain returns to a schema that is being expanded and is
/// an error.
pub fn get_schema_fields(
    schema: &Schema,
    specs: &Specification,
    fields: Vec<RustField>,
    flatten_option: &FlattenOption,
    patterns: &DocPatterns,
) -> (r: Result<Vec<RustField>, CodegenError>)
    ensures
        result_view(r) == schema_fields(
            schema_entries(specs.components.schemas),
            *schema,
            flatten_option.deep_view(),
            fields.deep_view(),
            schema_entries(specs.components.schemas).len(),
        ),
{
    let depth = schema_count(&specs.components.schemas);
    collect_fields(schema, specs, fields, flatten_option, patterns, depth)
}

} // verus!
