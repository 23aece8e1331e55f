//! From a document to the types to emit.
//!
//! Every named schema that is not ignored, not replaced by a type of the
//! target library and not flatten-only is classified: as a struct, as an enum
//! of strings, or as not implemented. An enum of the document's errors and one
//! request type per method are added. The types come out sorted by name.

use vstd::prelude::*;
use vstd::string::StringExecFns;
use crate::error::{result_view, CodegenError, ErrorView};
use crate::fields::{
    field_type, field_type_override, get_field_type_override, get_rust_type_for_field,
    get_schema_fields, schema_fields,
};
use crate::flatten::{flatten_only, get_flatten_only_schemas, name_set};
use crate::ir::{
    EnumView, FieldView, KindView, ResolutionView, RustEnum, RustField, RustStruct, RustType,
    RustTypeKind, RustUnit, RustVariant, StructView, TypeResolutionResult, TypeView, UnitView,
    VariantView,
};
use crate::naming::{
    camel_to_snake_case, snake_case, starknet_rs_doc, starknet_rs_name, to_starknet_rs_doc,
    to_starknet_rs_name,
};
use crate::options::{
    contains_name, field_shared, fixed_field_of, ArcWrappingOptions, FixedFieldsOptions,
    FlattenOption, FlattenView, TypeFixedView, TypeSharedView,
};
use crate::order::{
    lemma_sorted_is_permutation, lemma_sorted_items_follow_keys, lemma_sorted_keys_ordered,
    lemma_sorted_len, ordered, sort_by_keys, sort_names, sorted_items, sorted_keys,
};
use crate::pattern::{patterns_compile, DocPatterns};
use crate::schema::{
    error_at, error_count, error_entries, lookup, schema_at, schema_count, schema_entries,
    schema_get, schema_meta, ErrorType, Method, Param, Primitive, Schema, Specification,
};
use crate::text::{cat, lex_le, trim_prefix, without_prefix};

verus! {

/// The variants of an enum of strings, for the first `n` values: each value is
/// the wire name of its variant.
pub open spec fn enum_variants(values: Seq<Seq<char>>, n: nat) -> Seq<VariantView>
    decreases n,
{
    if n == 0 {
        Seq::empty()
    } else {
        enum_variants(values, (n - 1) as nat).push(
            VariantView {
                description: None,
                name: starknet_rs_name(values[n - 1]),
                serde_name: Some(values[n - 1]),
                error_text: None,
            },
        )
    }
}

/// The struct made of the given fields, written as a tagged object.
pub open spec fn plain_struct(fields: Seq<FieldView>) -> KindView {
    KindView::Struct(StructView { serde_as_array: false, extra_ref_type: false, fields })
}

/// The kind of type that a named schema becomes, or `None` where its shape is
/// not implemented. A reference stands for its target; a composition or an
/// object becomes a struct; a string with a list of values becomes an enum.
pub open spec fn classified(entries: Seq<(Seq<char>, Schema)>, s: Schema, option: FlattenView) -> Result<
    Option<KindView>,
    ErrorView,
> {
    match s {
        Schema::Ref(r) => match lookup(entries, r.name@) {
            None => Err(ErrorView::RefTargetNotFound(r.name@)),
            Some(target) => match schema_fields(
                entries,
                target,
                option,
                Seq::empty(),
                entries.len(),
            ) {
                Ok(fields) => Ok(Some(plain_struct(fields))),
                Err(e) => Err(e),
            },
        },
        Schema::AllOf(_) | Schema::Primitive(Primitive::Object(_)) => match schema_fields(
            entries,
            s,
            option,
            Seq::empty(),
            entries.len(),
        ) {
            Ok(fields) => Ok(Some(plain_struct(fields))),
            Err(e) => Err(e),
        },
        Schema::Primitive(Primitive::String(p)) => match p.enum_values {
            Some(values) => Ok(
                Some(
                    KindView::Enum(
                        EnumView {
                            thiserror: false,
                            variants: enum_variants(values.deep_view(), values.len() as nat),
                        },
                    ),
                ),
            ),
            None => Ok(None),
        },
        _ => Ok(None),
    }
}

/// The field with what the override tables say of it, for the type `owner`.
pub open spec fn overridden_field(
    f: FieldView,
    owner: Seq<char>,
    fixed: Seq<TypeFixedView>,
    shared: Seq<TypeSharedView>,
) -> FieldView {
    FieldView {
        description: f.description,
        name: f.name,
        optional: f.optional,
        fixed: fixed_field_of(fixed, owner, f.name, fixed.len()),
        arc_wrap: field_shared(shared, owner, f.name, shared.len()),
        type_text: f.type_text,
        serde_rename: f.serde_rename,
        serde_flatten: f.serde_flatten,
        serializer: f.serializer,
    }
}

/// The fields with what the override tables say of them.
pub open spec fn overridden_fields(
    fields: Seq<FieldView>,
    owner: Seq<char>,
    fixed: Seq<TypeFixedView>,
    shared: Seq<TypeSharedView>,
) -> Seq<FieldView> {
    Seq::new(fields.len(), |i: int| overridden_field(fields[i], owner, fixed, shared))
}

/// The kind with what the override tables say of its fields. Only a struct
/// has any.
pub open spec fn overridden(
    kind: KindView,
    owner: Seq<char>,
    fixed: Seq<TypeFixedView>,
    shared: Seq<TypeSharedView>,
) -> KindView {
    match kind {
        KindView::Struct(s) => KindView::Struct(
            StructView {
                serde_as_array: s.serde_as_array,
                extra_ref_type: s.extra_ref_type,
                fields: overridden_fields(s.fields, owner, fixed, shared),
            },
        ),
        _ => kind,
    }
}

/// The documentation of a type, as it is emitted.
pub open spec fn type_doc(text: Option<String>) -> Option<Seq<char>> {
    match text {
        Some(t) => Some(starknet_rs_doc(t@, true)),
        None => None,
    }
}

/// What the tables and the policy of a run say, as far as model types go.
pub struct Profile {
    pub option: FlattenView,
    pub ignored: Seq<Seq<char>>,
    pub fixed: Seq<TypeFixedView>,
    pub shared: Seq<TypeSharedView>,
}

/// Whether a named schema gets no type of its own: it is ignored, replaced by
/// a type of the target library, or flatten-only.
pub open spec fn skipped(entries: Seq<(Seq<char>, Schema)>, name: Seq<char>, profile: Profile) -> bool {
    profile.ignored.contains(name) || field_type_override(name) is Some || flatten_only(
        entries,
        profile.option,
    ).contains(name)
}

/// The type that a named schema of a given kind becomes.
pub open spec fn model_type(name: Seq<char>, s: Schema, kind: KindView, profile: Profile) -> TypeView {
    let meta = schema_meta(s);
    TypeView {
        title: type_doc(meta.title),
        description: type_doc(
            match meta.description {
                Some(d) => Some(d),
                None => meta.summary,
            },
        ),
        name: starknet_rs_name(name),
        content: overridden(kind, starknet_rs_name(name), profile.fixed, profile.shared),
    }
}

/// The model types and the names that are not implemented, for the named
/// schemas from position `i` on, behind those already found; or the error of
/// the first schema that cannot be classified.
pub open spec fn model_rows(
    entries: Seq<(Seq<char>, Schema)>,
    i: nat,
    profile: Profile,
    types: Seq<TypeView>,
    missing: Seq<Seq<char>>,
) -> Result<(Seq<TypeView>, Seq<Seq<char>>), ErrorView>
    decreases entries.len() - i,
{
    if i >= entries.len() {
        Ok((types, missing))
    } else {
        let (name, s) = entries[i as int];
        if skipped(entries, name, profile) {
            model_rows(entries, i + 1, profile, types, missing)
        } else {
            match classified(entries, s, profile.option) {
                Err(e) => Err(e),
                Ok(None) => model_rows(entries, i + 1, profile, types, missing.push(name)),
                Ok(Some(kind)) => model_rows(
                    entries,
                    i + 1,
                    profile,
                    types.push(model_type(name, s, kind, profile)),
                    missing,
                ),
            }
        }
    }
}

/// The variants of the error enum for the error definitions from position `i`
/// on, behind `acc`: each carries its message as documentation and as text. A
/// definition that points to another one is an error.
pub open spec fn error_variants(errors: Seq<(Seq<char>, ErrorType)>, i: nat, acc: Seq<VariantView>) -> Result<
    Seq<VariantView>,
    ErrorView,
>
    decreases errors.len() - i,
{
    if i >= errors.len() {
        Ok(acc)
    } else {
        match errors[i as int].1 {
            ErrorType::Error(definition) => error_variants(
                errors,
                i + 1,
                acc.push(
                    VariantView {
                        description: Some(definition.message@),
                        name: starknet_rs_name(errors[i as int].0),
                        serde_name: None,
                        error_text: Some(definition.message@),
                    },
                ),
            ),
            ErrorType::Reference(_) => Err(ErrorView::ErrorRedirection),
        }
    }
}

/// The enum of the document's errors.
pub open spec fn error_type(variants: Seq<VariantView>) -> TypeView {
    TypeView {
        title: Some("JSON-RPC error codes"@),
        description: None,
        name: "StarknetError"@,
        content: KindView::Enum(EnumView { thiserror: true, variants }),
    }
}

/// The field that a parameter becomes.
pub open spec fn param_field(entries: Seq<(Seq<char>, Schema)>, p: Param) -> Result<
    FieldView,
    ErrorView,
> {
    match field_type(entries, p.schema) {
        Ok(t) => Ok(
            FieldView {
                description: p.description.deep_view(),
                name: p.name@,
                optional: !p.required,
                fixed: None,
                arc_wrap: false,
                type_text: t.type_text,
                serde_rename: None,
                serde_flatten: false,
                serializer: t.serializer,
            },
        ),
        Err(e) => Err(e),
    }
}

/// The fields of the parameters from position `i` on, behind `acc`, in the
/// order in which the method declares them.
pub open spec fn param_fields(
    entries: Seq<(Seq<char>, Schema)>,
    params: Seq<Param>,
    i: nat,
    acc: Seq<FieldView>,
) -> Result<Seq<FieldView>, ErrorView>
    decreases params.len() - i,
{
    if i >= params.len() {
        Ok(acc)
    } else {
        match param_field(entries, params[i as int]) {
            Ok(f) => param_fields(entries, params, i + 1, acc.push(f)),
            Err(e) => Err(e),
        }
    }
}

/// The name of the request type of a method.
pub open spec fn request_name(method: Seq<char>) -> Seq<char> {
    starknet_rs_name(snake_case(without_prefix(method, "starknet_"@))) + "Request"@
}

/// The request type of a method: written as a positional array, a unit type
/// where the method takes no parameter, else a struct with a borrowed
/// counterpart whose fields are the parameters in declaration order.
pub open spec fn request_type(entries: Seq<(Seq<char>, Schema)>, m: Method) -> Result<
    TypeView,
    ErrorView,
> {
    match param_fields(entries, m.params@, 0, Seq::empty()) {
        Ok(fields) => Ok(
            TypeView {
                title: Some("Request for method "@ + m.name@),
                description: None,
                name: request_name(m.name@),
                content: if fields.len() == 0 {
                    KindView::Unit(UnitView { serde_as_array: true })
                } else {
                    KindView::Struct(
                        StructView { serde_as_array: true, extra_ref_type: true, fields },
                    )
                },
            },
        ),
        Err(e) => Err(e),
    }
}

/// The request types of the methods from position `i` on, behind `acc`.
pub open spec fn request_rows(
    entries: Seq<(Seq<char>, Schema)>,
    methods: Seq<Method>,
    i: nat,
    acc: Seq<TypeView>,
) -> Result<Seq<TypeView>, ErrorView>
    decreases methods.len() - i,
{
    if i >= methods.len() {
        Ok(acc)
    } else {
        match request_type(entries, methods[i as int]) {
            Ok(t) => request_rows(entries, methods, i + 1, acc.push(t)),
            Err(e) => Err(e),
        }
    }
}

/// The names of the first `n` types.
pub open spec fn type_names(types: Seq<TypeView>, n: nat) -> Seq<Seq<char>>
    decreases n,
{
    if n == 0 {
        Seq::empty()
    } else {
        type_names(types, (n - 1) as nat).push(types[n - 1].name)
    }
}

/// The types in the order of their names.
pub open spec fn sorted_types(types: Seq<TypeView>) -> Seq<TypeView> {
    sorted_items(types, type_names(types, types.len()), types.len())
}

/// What a document resolves to: the model types with the error enum among
/// them, the request types, and the names of the schemas whose shape is not
/// implemented, each list in the order of its names; or the first error, where
/// schemas come before error definitions and these before methods.
pub open spec fn resolved(
    entries: Seq<(Seq<char>, Schema)>,
    errors: Seq<(Seq<char>, ErrorType)>,
    methods: Seq<Method>,
    profile: Profile,
) -> Result<ResolutionView, ErrorView> {
    match model_rows(entries, 0, profile, Seq::empty(), Seq::empty()) {
        Err(e) => Err(e),
        Ok((types, missing)) => match error_variants(errors, 0, Seq::empty()) {
            Err(e) => Err(e),
            Ok(variants) => match request_rows(entries, methods, 0, Seq::empty()) {
                Err(e) => Err(e),
                Ok(requests) => Ok(
                    ResolutionView {
                        model_types: sorted_types(types.push(error_type(variants))),
                        request_response_types: sorted_types(requests),
                        not_implemented: sorted_keys(missing, missing.len()),
                    },
                ),
            },
        },
    }
}

/// The profile that the arguments of a run stand for.
pub open spec fn profile_of(
    flatten_option: &FlattenOption,
    ignore_types: &Vec<String>,
    fixed_fields: &FixedFieldsOptions,
    arc_wrapping: &ArcWrappingOptions,
) -> Profile {
    Profile {
        option: flatten_option.deep_view(),
        ignored: ignore_types.deep_view(),
        fixed: fixed_fields.deep_view(),
        shared: arc_wrapping.deep_view(),
    }
}

fn plain_struct_of(fields: Vec<RustField>) -> (r: RustTypeKind)
    ensures
        r.deep_view() == plain_struct(fields.deep_view()),
{
    RustTypeKind::Struct(RustStruct { serde_as_array: false, extra_ref_type: false, fields })
}

/// The kind of type that a named schema becomes, or `None` where its shape is
/// not implemented.
pub fn schema_to_rust_type_kind(
    specs: &Specification,
    entity: &Schema,
    flatten_option: &FlattenOption,
    patterns: &DocPatterns,
) -> (r: Result<Option<RustTypeKind>, CodegenError>)
    ensures
        result_view(r) == classified(
            schema_entries(specs.components.schemas),
            *entity,
            flatten_option.deep_view(),
        ),
{
    match entity {
        Schema::Ref(reference) => {
            let target = match schema_get(&specs.components.schemas, reference.name.as_str()) {
                Some(target) => target,
                None => {
                    return Err(CodegenError::RefTargetNotFound(reference.name.clone()));
                },
            };
            let start: Vec<RustField> = Vec::new();
            assert(start.deep_view() =~= Seq::<FieldView>::empty());
            match get_schema_fields(target, specs, start, flatten_option, patterns) {
                Ok(fields) => Ok(Some(plain_struct_of(fields))),
                Err(e) => Err(e),
            }
        },
        Schema::AllOf(_) | Schema::Primitive(Primitive::Object(_)) => {
            let start: Vec<RustField> = Vec::new();
            assert(start.deep_view() =~= Seq::<FieldView>::empty());
            match get_schema_fields(entity, specs, start, flatten_option, patterns) {
                Ok(fields) => Ok(Some(plain_struct_of(fields))),
                Err(e) => Err(e),
            }
        },
        Schema::Primitive(Primitive::String(value)) => match &value.enum_values {
            Some(values) => {
                let mut variants: Vec<RustVariant> = Vec::new();
                let mut i: usize = 0;
                assert(variants.deep_view() =~= Seq::<VariantView>::empty());
                while i < values.len()
                    invariant
                        i <= values.len(),
                        variants.deep_view() == enum_variants(values.deep_view(), i as nat),
                    decreases values.len() - i,
                {
                    let ghost before = variants.deep_view();
                    let item = &values[i];
                    assert(item@ == values.deep_view()[i as int]);
                    let variant = RustVariant {
                        description: None,
                        name: to_starknet_rs_name(item.as_str()),
                        serde_name: Some(item.clone()),
                        error_text: None,
                    };
                    variants.push(variant);
                    assert(variants.deep_view() =~= before.push(variant.deep_view()));
                    i = i + 1;
                }
                Ok(Some(RustTypeKind::Enum(RustEnum { thiserror: false, variants })))
            },
            None => Ok(None),
        },
        _ => Ok(None),
    }
}

fn apply_overrides(
    content: RustTypeKind,
    owner: &str,
    fixed_fields: &FixedFieldsOptions,
    arc_wrapping: &ArcWrappingOptions,
) -> (r: RustTypeKind)
    ensures
        r.deep_view() == overridden(
            content.deep_view(),
            owner@,
            fixed_fields.deep_view(),
            arc_wrapping.deep_view(),
        ),
{
    match content {
        RustTypeKind::Struct(inner) => {
            let ghost all = inner.fields.deep_view();
            let ghost fixed = fixed_fields.deep_view();
            let ghost shared = arc_wrapping.deep_view();
            let serde_as_array = inner.serde_as_array;
            let extra_ref_type = inner.extra_ref_type;
            let mut rest = inner.fields;
            let mut out: Vec<RustField> = Vec::new();
            assert(rest.deep_view() =~= all.skip(0));
            while rest.len() > 0
                invariant
                    fixed == fixed_fields.deep_view(),
                    shared == arc_wrapping.deep_view(),
                    out.len() + rest.len() == all.len(),
                    rest.deep_view() == all.skip(out.len() as int),
                    out.deep_view() == overridden_fields(all, owner@, fixed, shared).take(
                        out.len() as int,
                    ),
                decreases rest.len(),
            {
                let ghost rest_before = rest.deep_view();
                let ghost out_before = out.deep_view();
                let ghost k = out.len() as int;
                let f = rest.remove(0);
                assert(f.deep_view() == rest_before[0]);
                assert forall|i: int| 0 <= i < rest.len() implies rest.deep_view()[i] == all.skip(
                    k + 1,
                )[i] by {
                    assert(rest.deep_view()[i] == rest@[i].deep_view());
                    assert(rest_before[i + 1] == all[k + i + 1]);
                }
                assert(rest.deep_view() =~= all.skip(k + 1));
                let fixed_field = fixed_fields.find_fixed_field(owner, f.name.as_str());
                let arc_wrap = arc_wrapping.in_field_wrapped(owner, f.name.as_str());
                let field = RustField {
                    description: f.description,
                    name: f.name,
                    optional: f.optional,
                    fixed: fixed_field,
                    arc_wrap,
                    type_text: f.type_text,
                    serde_rename: f.serde_rename,
                    serde_flatten: f.serde_flatten,
                    serializer: f.serializer,
                };
                assert(field.deep_view() == overridden_field(all[k], owner@, fixed, shared));
                out.push(field);
                assert(out.deep_view() =~= overridden_fields(all, owner@, fixed, shared).take(
                    k + 1,
                ));
            }
            assert(out.deep_view() =~= overridden_fields(all, owner@, fixed, shared));
            RustTypeKind::Struct(RustStruct { serde_as_array, extra_ref_type, fields: out })
        },
        other => other,
    }
}

fn type_doc_of(text: &Option<String>, patterns: &DocPatterns) -> (r: Option<String>)
    ensures
        r.deep_view() == type_doc(*text),
{
    match text {
        Some(value) => Some(to_starknet_rs_doc(value.as_str(), true, patterns)),
        None => None,
    }
}

fn push_type(types: &mut Vec<RustType>, item: RustType)
    ensures
        final(types).deep_view() == old(types).deep_view().push(item.deep_view()),
{
    let ghost before = types.deep_view();
    types.push(item);
    assert(types.deep_view() =~= before.push(item.deep_view()));
}

fn push_name(names: &mut Vec<String>, name: String)
    ensures
        final(names).deep_view() == old(names).deep_view().push(name@),
        final(names).len() == old(names).len() + 1,
{
    let ghost before = names.deep_view();
    names.push(name);
    assert(names.deep_view() =~= before.push(name@));
}

fn sort_types(types: Vec<RustType>) -> (r: Vec<RustType>)
    ensures
        r.deep_view() == sorted_types(types.deep_view()),
{
    let mut keys: Vec<String> = Vec::new();
    let mut i: usize = 0;
    assert(keys.deep_view() =~= Seq::<Seq<char>>::empty());
    while i < types.len()
        invariant
            i <= types.len(),
            keys.len() == i,
            keys.deep_view() == type_names(types.deep_view(), i as nat),
        decreases types.len() - i,
    {
        assert(types[i as int].name@ == types.deep_view()[i as int].name);
        push_name(&mut keys, types[i].name.clone());
        i = i + 1;
    }
    sort_by_keys(types, keys)
}

fn request_type_of(method: &Method, specs: &Specification) -> (r: Result<RustType, CodegenError>)
    ensures
        result_view(r) == request_type(schema_entries(specs.components.schemas), *method),
{
    let ghost entries = schema_entries(specs.components.schemas);
    let mut request_fields: Vec<RustField> = Vec::new();
    let mut i: usize = 0;
    assert(request_fields.deep_view() =~= Seq::<FieldView>::empty());
    while i < method.params.len()
        invariant
            i <= method.params.len(),
            entries == schema_entries(specs.components.schemas),
            param_fields(entries, method.params@, 0, Seq::empty()) == param_fields(
                entries,
                method.params@,
                i as nat,
                request_fields.deep_view(),
            ),
        decreases method.params.len() - i,
    {
        let param = &method.params[i];
        let field_type = match get_rust_type_for_field(&param.schema, specs) {
            Ok(t) => t,
            Err(e) => {
                return Err(e);
            },
        };
        let ghost before = request_fields.deep_view();
        let field = RustField {
            description: match &param.description {
                Some(text) => Some(text.clone()),
                None => None,
            },
            name: param.name.clone(),
            optional: !param.required,
            fixed: None,
            arc_wrap: false,
            type_text: field_type.type_text,
            serde_rename: None,
            serde_flatten: false,
            serializer: field_type.serializer,
        };
        request_fields.push(field);
        assert(request_fields.deep_view() =~= before.push(field.deep_view()));
        i = i + 1;
    }
    let trimmed = trim_prefix(method.name.as_str(), "starknet_");
    let words = camel_to_snake_case(trimmed.as_str());
    let mut name = to_starknet_rs_name(words.as_str());
    name.append("Request");
    Ok(
        RustType {
            title: Some(cat("Request for method ", method.name.as_str())),
            description: None,
            name,
            content: if request_fields.len() == 0 {
                RustTypeKind::Unit(RustUnit { serde_as_array: true })
            } else {
                RustTypeKind::Struct(
                    RustStruct {
                        serde_as_array: true,
                        extra_ref_type: true,
                        fields: request_fields,
                    },
                )
            },
        },
    )
}

/// Resolves a document with patterns that are already compiled.
pub fn resolve_types_with(
    specs: &Specification,
    flatten_option: &FlattenOption,
    ignore_types: &Vec<String>,
    fixed_fields: &FixedFieldsOptions,
    arc_wrapping: &ArcWrappingOptions,
    patterns: &DocPatterns,
) -> (r: Result<TypeResolutionResult, CodegenError>)
    ensures
        result_view(r) == resolved(
            schema_entries(specs.components.schemas),
            error_entries(specs.components.errors),
            specs.methods@,
            profile_of(flatten_option, ignore_types, fixed_fields, arc_wrapping),
        ),
{
    let ghost entries = schema_entries(specs.components.schemas);
    let ghost errors = error_entries(specs.components.errors);
    let ghost profile = profile_of(flatten_option, ignore_types, fixed_fields, arc_wrapping);
    let mut types: Vec<RustType> = Vec::new();
    let mut req_types: Vec<RustType> = Vec::new();
    let mut not_implemented_types: Vec<String> = Vec::new();
    let flatten_only_types = get_flatten_only_schemas(specs, flatten_option);
    let count = schema_count(&specs.components.schemas);
    let mut i: usize = 0;
    assert(types.deep_view() =~= Seq::<TypeView>::empty());
    assert(req_types.deep_view() =~= Seq::<TypeView>::empty());
    assert(not_implemented_types.deep_view() =~= Seq::<Seq<char>>::empty());
    while i < count
        invariant
            i <= count,
            count == entries.len(),
            entries == schema_entries(specs.components.schemas),
            profile == profile_of(flatten_option, ignore_types, fixed_fields, arc_wrapping),
            name_set(flatten_only_types.deep_view()) == flatten_only(entries, profile.option),
            model_rows(entries, 0, profile, Seq::empty(), Seq::empty()) == model_rows(
                entries,
                i as nat,
                profile,
                types.deep_view(),
                not_implemented_types.deep_view(),
            ),
        decreases count - i,
    {
        match schema_at(&specs.components.schemas, i) {
            Some((name, entity)) => {
                let rusty_name = to_starknet_rs_name(name.as_str());
                let skip = contains_name(ignore_types, name.as_str()) || get_field_type_override(
                    name.as_str(),
                ).is_some() || contains_name(&flatten_only_types, name.as_str());
                assert(skip == skipped(entries, name@, profile));
                if !skip {
                    match schema_to_rust_type_kind(specs, entity, flatten_option, patterns) {
                        Err(e) => {
                            return Err(e);
                        },
                        Ok(None) => {
                            push_name(&mut not_implemented_types, name.clone());
                        },
                        Ok(Some(content)) => {
                            let meta = entity.meta();
                            let title = type_doc_of(&meta.title, patterns);
                            let description = match &meta.description {
                                Some(_) => type_doc_of(&meta.description, patterns),
                                None => type_doc_of(&meta.summary, patterns),
                            };
                            let content = apply_overrides(
                                content,
                                rusty_name.as_str(),
                                fixed_fields,
                                arc_wrapping,
                            );
                            push_type(
                                &mut types,
                                RustType { title, description, name: rusty_name, content },
                            );
                        },
                    }
                }
            },
            None => {},
        }
        i = i + 1;
    }
    let ghost model_types = types.deep_view();
    let ghost missing = not_implemented_types.deep_view();
    let error_total = error_count(&specs.components.errors);
    let mut variants: Vec<RustVariant> = Vec::new();
    let mut j: usize = 0;
    assert(variants.deep_view() =~= Seq::<VariantView>::empty());
    while j < error_total
        invariant
            j <= error_total,
            error_total == errors.len(),
            entries == schema_entries(specs.components.schemas),
            errors == error_entries(specs.components.errors),
            profile == profile_of(flatten_option, ignore_types, fixed_fields, arc_wrapping),
            model_rows(entries, 0, profile, Seq::empty(), Seq::empty()) == Ok::<
                (Seq<TypeView>, Seq<Seq<char>>),
                ErrorView,
            >((model_types, missing)),
            error_variants(errors, 0, Seq::empty()) == error_variants(
                errors,
                j as nat,
                variants.deep_view(),
            ),
        decreases error_total - j,
    {
        match error_at(&specs.components.errors, j) {
            Some((name, definition)) => match definition {
                ErrorType::Error(err) => {
                    let ghost before = variants.deep_view();
                    let variant = RustVariant {
                        description: Some(err.message.clone()),
                        name: to_starknet_rs_name(name.as_str()),
                        serde_name: None,
                        error_text: Some(err.message.clone()),
                    };
                    variants.push(variant);
                    assert(variants.deep_view() =~= before.push(variant.deep_view()));
                },
                ErrorType::Reference(_) => {
                    return Err(CodegenError::ErrorRedirection);
                },
            },
            None => {},
        }
        j = j + 1;
    }
    push_type(
        &mut types,
        RustType {
            title: Some(String::from_str("JSON-RPC error codes")),
            description: None,
            name: String::from_str("StarknetError"),
            content: RustTypeKind::Enum(RustEnum { thiserror: true, variants }),
        },
    );
    let ghost error_rows = variants.deep_view();
    let mut k: usize = 0;
    while k < specs.methods.len()
        invariant
            k <= specs.methods.len(),
            entries == schema_entries(specs.components.schemas),
            errors == error_entries(specs.components.errors),
            profile == profile_of(flatten_option, ignore_types, fixed_fields, arc_wrapping),
            model_rows(entries, 0, profile, Seq::empty(), Seq::empty()) == Ok::<
                (Seq<TypeView>, Seq<Seq<char>>),
                ErrorView,
            >((model_types, missing)),
            error_variants(errors, 0, Seq::empty()) == Ok::<Seq<VariantView>, ErrorView>(
                error_rows,
            ),
            request_rows(entries, specs.methods@, 0, Seq::empty()) == request_rows(
                entries,
                specs.methods@,
                k as nat,
                req_types.deep_view(),
            ),
        decreases specs.methods.len() - k,
    {
        match request_type_of(&specs.methods[k], specs) {
            Ok(request_type) => {
                push_type(&mut req_types, request_type);
            },
            Err(e) => {
                return Err(e);
            },
        }
        k = k + 1;
    }
    Ok(
        TypeResolutionResult {
            model_types: sort_types(types),
            request_response_types: sort_types(req_types),
            not_implemented: sort_names(not_implemented_types),
        },
    )
}

/// Resolves a document: compiles the documentation patterns, then resolves
/// with them. Where the engine accepts the patterns the result is that of
/// `resolved`; where it rejects one the call fails with `InvalidPattern`.
pub fn resolve_types(
    specs: &Specification,
    flatten_option: &FlattenOption,
    ignore_types: &Vec<String>,
    fixed_fields: &FixedFieldsOptions,
    arc_wrapping: &ArcWrappingOptions,
) -> (r: Result<TypeResolutionResult, CodegenError>)
    ensures
        patterns_compile() ==> result_view(r) == resolved(
            schema_entries(specs.components.schemas),
            error_entries(specs.components.errors),
            specs.methods@,
            profile_of(flatten_option, ignore_types, fixed_fields, arc_wrapping),
        ),
        !patterns_compile() ==> r matches Err(CodegenError::InvalidPattern),
{
    match DocPatterns::compile() {
        Ok(patterns) => resolve_types_with(
            specs,
            flatten_option,
            ignore_types,
            fixed_fields,
            arc_wrapping,
            &patterns,
        ),
        Err(_) => Err(CodegenError::InvalidPattern),
    }
}

/// The names, from position `i` on, of the schemas that get no type because
/// their shape is not implemented.
pub open spec fn missing_from(entries: Seq<(Seq<char>, Schema)>, profile: Profile, i: nat) -> Seq<
    Seq<char>,
>
    decreases entries.len() - i,
{
    if i >= entries.len() {
        Seq::empty()
    } else {
        let rest = missing_from(entries, profile, i + 1);
        if !skipped(entries, entries[i as int].0, profile) && classified(
            entries,
            entries[i as int].1,
            profile.option,
        ) == Ok::<Option<KindView>, ErrorView>(None) {
            seq![entries[i as int].0] + rest
        } else {
            rest
        }
    }
}

/// The types, from position `i` on, of the schemas that have one.
pub open spec fn types_from(entries: Seq<(Seq<char>, Schema)>, profile: Profile, i: nat) -> Seq<
    TypeView,
>
    decreases entries.len() - i,
{
    if i >= entries.len() {
        Seq::empty()
    } else {
        let rest = types_from(entries, profile, i + 1);
        if skipped(entries, entries[i as int].0, profile) {
            rest
        } else {
            match classified(entries, entries[i as int].1, profile.option) {
                Ok(Some(kind)) => seq![
                    model_type(entries[i as int].0, entries[i as int].1, kind, profile),
                ] + rest,
                _ => rest,
            }
        }
    }
}

/// A flatten-only schema gets no type of its own.
pub proof fn lemma_flatten_only_gets_no_type(
    entries: Seq<(Seq<char>, Schema)>,
    name: Seq<char>,
    profile: Profile,
)
    requires
        flatten_only(entries, profile.option).contains(name),
    ensures
        skipped(entries, name, profile),
{
}

/// A union has no type: its shape is not implemented.
pub proof fn lemma_union_not_implemented(
    entries: Seq<(Seq<char>, Schema)>,
    s: Schema,
    option: FlattenView,
)
    requires
        s is OneOf,
    ensures
        classified(entries, s, option) == Ok::<Option<KindView>, ErrorView>(None),
{
}

/// Whether the schema at position `k` resolves: it gets no type of its own,
/// or its classification does not fail.
pub open spec fn resolves(entries: Seq<(Seq<char>, Schema)>, profile: Profile, k: int) -> bool {
    skipped(entries, entries[k].0, profile) || classified(
        entries,
        entries[k].1,
        profile.option,
    ) is Ok
}

/// A shape that is not implemented does not stop the run: where no schema
/// fails to resolve, every schema that has a type gets it, and exactly the
/// names of the schemas whose shape is not implemented are listed, both in
/// the order of the document.
pub proof fn lemma_unsupported_is_listed(
    entries: Seq<(Seq<char>, Schema)>,
    i: nat,
    profile: Profile,
    types: Seq<TypeView>,
    missing: Seq<Seq<char>>,
)
    requires
        forall|k: int| i <= k < entries.len() ==> resolves(entries, profile, k),
    ensures
        model_rows(entries, i, profile, types, missing) == Ok::<
            (Seq<TypeView>, Seq<Seq<char>>),
            ErrorView,
        >((types + types_from(entries, profile, i), missing + missing_from(entries, profile, i))),
    decreases entries.len() - i,
{
    if i >= entries.len() {
        assert(missing + Seq::<Seq<char>>::empty() =~= missing);
        assert(types + Seq::<TypeView>::empty() =~= types);
    } else {
        let name = entries[i as int].0;
        let s = entries[i as int].1;
        let skip = skipped(entries, name, profile);
        let outcome = classified(entries, s, profile.option);
        let rest_missing = missing_from(entries, profile, i + 1);
        let rest_types = types_from(entries, profile, i + 1);
        assert(resolves(entries, profile, i as int));
        if skip {
            lemma_unsupported_is_listed(entries, i + 1, profile, types, missing);
        } else {
            match outcome {
                Ok(None) => {
                    lemma_unsupported_is_listed(entries, i + 1, profile, types, missing.push(name));
                    assert(missing.push(name) + rest_missing =~= missing + (seq![name]
                        + rest_missing));
                },
                Ok(Some(kind)) => {
                    let t = model_type(name, s, kind, profile);
                    lemma_unsupported_is_listed(entries, i + 1, profile, types.push(t), missing);
                    assert(types.push(t) + rest_types =~= types + (seq![t] + rest_types));
                },
                Err(_) => {},
            }
        }
    }
}

/// Whether a type keeps what is asked of its kind: an error enum carries a
/// message text on every variant.
pub open spec fn type_well_formed(t: TypeView) -> bool {
    match t.content {
        KindView::Enum(e) => e.thiserror ==> forall|i: int|
            0 <= i < e.variants.len() ==> (#[trigger] e.variants[i]).error_text is Some,
        _ => true,
    }
}

/// Whether every type of a list is well formed.
pub open spec fn all_well_formed(types: Seq<TypeView>) -> bool {
    forall|i: int| 0 <= i < types.len() ==> type_well_formed(#[trigger] types[i])
}

/// Every variant made from an error definition carries its message text.
pub proof fn lemma_error_variants_carry_text(
    errors: Seq<(Seq<char>, ErrorType)>,
    i: nat,
    acc: Seq<VariantView>,
)
    requires
        forall|k: int| 0 <= k < acc.len() ==> (#[trigger] acc[k]).error_text is Some,
    ensures
        error_variants(errors, i, acc) matches Ok(variants) ==> type_well_formed(
            error_type(variants),
        ),
    decreases errors.len() - i,
{
    if i < errors.len() {
        match errors[i as int].1 {
            ErrorType::Error(definition) => {
                let variant = VariantView {
                    description: Some(definition.message@),
                    name: starknet_rs_name(errors[i as int].0),
                    serde_name: None,
                    error_text: Some(definition.message@),
                };
                lemma_error_variants_carry_text(errors, i + 1, acc.push(variant));
            },
            ErrorType::Reference(_) => {},
        }
    }
}

/// A schema is classified as a struct or as an enum that is no error enum.
pub proof fn lemma_classified_kind(
    entries: Seq<(Seq<char>, Schema)>,
    s: Schema,
    option: FlattenView,
)
    ensures
        classified(entries, s, option) matches Ok(Some(kind)) ==> (kind is Struct || (
        kind matches KindView::Enum(e) && !e.thiserror)),
{
}

/// The types made from the schemas of a document are well formed.
pub proof fn lemma_model_types_well_formed(
    entries: Seq<(Seq<char>, Schema)>,
    i: nat,
    profile: Profile,
    types: Seq<TypeView>,
    missing: Seq<Seq<char>>,
)
    requires
        all_well_formed(types),
    ensures
        model_rows(entries, i, profile, types, missing) matches Ok(found) ==> all_well_formed(
            found.0,
        ),
    decreases entries.len() - i,
{
    if i < entries.len() {
        let name = entries[i as int].0;
        let s = entries[i as int].1;
        let skip = skipped(entries, name, profile);
        let outcome = classified(entries, s, profile.option);
        if skip {
            lemma_model_types_well_formed(entries, i + 1, profile, types, missing);
        } else {
            match outcome {
                Ok(None) => {
                    lemma_model_types_well_formed(
                        entries,
                        i + 1,
                        profile,
                        types,
                        missing.push(name),
                    );
                },
                Ok(Some(kind)) => {
                    let t = model_type(name, s, kind, profile);
                    lemma_classified_kind(entries, s, profile.option);
                    assert(type_well_formed(t));
                    lemma_model_types_well_formed(entries, i + 1, profile, types.push(t), missing);
                },
                Err(_) => {},
            }
        }
    }
}

/// The fields of a request type are the parameters of its method, in the
/// order in which the method declares them.
pub proof fn lemma_request_fields_follow_parameters(
    entries: Seq<(Seq<char>, Schema)>,
    params: Seq<Param>,
    i: nat,
    acc: Seq<FieldView>,
)
    requires
        i <= params.len(),
        acc.len() == i,
        forall|k: int| 0 <= k < i ==> (#[trigger] acc[k]).name == params[k].name@,
    ensures
        param_fields(entries, params, i, acc) matches Ok(fields) ==> fields.len() == params.len()
            && forall|k: int|
            0 <= k < params.len() ==> (#[trigger] fields[k]).name == params[k].name@,
    decreases params.len() - i,
{
    if i < params.len() {
        match param_field(entries, params[i as int]) {
            Ok(f) => {
                lemma_request_fields_follow_parameters(entries, params, i + 1, acc.push(f));
            },
            Err(_) => {},
        }
    }
}

/// The request types are well formed.
pub proof fn lemma_request_types_well_formed(
    entries: Seq<(Seq<char>, Schema)>,
    methods: Seq<Method>,
    i: nat,
    acc: Seq<TypeView>,
)
    requires
        all_well_formed(acc),
    ensures
        request_rows(entries, methods, i, acc) matches Ok(types) ==> all_well_formed(types),
    decreases methods.len() - i,
{
    if i < methods.len() {
        match request_type(entries, methods[i as int]) {
            Ok(t) => {
                lemma_request_types_well_formed(entries, methods, i + 1, acc.push(t));
            },
            Err(_) => {},
        }
    }
}

/// Sorting types that are well formed gives types that are well formed.
pub proof fn lemma_sorted_types_well_formed(types: Seq<TypeView>)
    requires
        all_well_formed(types),
    ensures
        all_well_formed(sorted_types(types)),
{
    let sorted = sorted_types(types);
    lemma_sorted_is_permutation(types, type_names(types, types.len()), types.len());
    assert(types.take(types.len() as int) =~= types);
    sorted.to_multiset_ensures();
    types.to_multiset_ensures();
    assert forall|i: int| 0 <= i < sorted.len() implies type_well_formed(
        #[trigger] sorted[i],
    ) by {
        assert(sorted.contains(sorted[i]));
        assert(types.to_multiset().count(sorted[i]) > 0);
        assert(types.contains(sorted[i]));
        let k = choose|k: int| 0 <= k < types.len() && types[k] == sorted[i];
        assert(type_well_formed(types[k]));
    }
}

/// Every type that a document resolves to is well formed.
pub proof fn lemma_resolved_well_formed(
    entries: Seq<(Seq<char>, Schema)>,
    errors: Seq<(Seq<char>, ErrorType)>,
    methods: Seq<Method>,
    profile: Profile,
)
    ensures
        resolved(entries, errors, methods, profile) matches Ok(r) ==> all_well_formed(
            r.model_types,
        ) && all_well_formed(r.request_response_types),
{
    lemma_model_types_well_formed(entries, 0, profile, Seq::empty(), Seq::empty());
    lemma_error_variants_carry_text(errors, 0, Seq::empty());
    lemma_request_types_well_formed(entries, methods, 0, Seq::empty());
    match model_rows(entries, 0, profile, Seq::empty(), Seq::empty()) {
        Ok((types, missing)) => match error_variants(errors, 0, Seq::empty()) {
            Ok(variants) => match request_rows(entries, methods, 0, Seq::empty()) {
                Ok(requests) => {
                    let all = types.push(error_type(variants));
                    assert(all_well_formed(all));
                    lemma_sorted_types_well_formed(all);
                    lemma_sorted_types_well_formed(requests);
                },
                Err(_) => {},
            },
            Err(_) => {},
        },
        Err(_) => {},
    }
}

/// Whether the name of each type comes before the name of the next one or
/// equals it.
pub open spec fn in_name_order(types: Seq<TypeView>) -> bool {
    forall|j: int|
        0 <= j < types.len() - 1 ==> lex_le((#[trigger] types[j]).name, types[j + 1].name)
}

/// The names of the first `n` types, one by one.
pub proof fn lemma_type_names(types: Seq<TypeView>, n: nat)
    requires
        n <= types.len(),
    ensures
        type_names(types, n).len() == n,
        forall|i: int| 0 <= i < n ==> #[trigger] type_names(types, n)[i] == types[i].name,
    decreases n,
{
    if n > 0 {
        lemma_type_names(types, (n - 1) as nat);
    }
}

/// Sorted types are as many as were given and come in the order of their
/// names.
pub proof fn lemma_sorted_types_in_name_order(types: Seq<TypeView>)
    ensures
        sorted_types(types).len() == types.len(),
        in_name_order(sorted_types(types)),
{
    let n = types.len();
    let keys = type_names(types, n);
    let sorted = sorted_types(types);
    lemma_type_names(types, n);
    lemma_sorted_items_follow_keys(types, keys, |t: TypeView| t.name, n);
    lemma_sorted_keys_ordered(keys, n);
    assert forall|j: int| 0 <= j < sorted.len() - 1 implies lex_le(
        (#[trigger] sorted[j]).name,
        sorted[j + 1].name,
    ) by {
        assert(sorted[j].name == sorted_keys(keys, n)[j]);
        assert(sorted[j + 1].name == sorted_keys(keys, n)[j + 1]);
        assert(lex_le(sorted_keys(keys, n)[j], sorted_keys(keys, n)[j + 1]));
    }
}

/// What a document resolves to comes in the order of its names: the model
/// types, the request types and the names that are not implemented.
pub proof fn lemma_resolved_in_name_order(
    entries: Seq<(Seq<char>, Schema)>,
    errors: Seq<(Seq<char>, ErrorType)>,
    methods: Seq<Method>,
    profile: Profile,
)
    ensures
        resolved(entries, errors, methods, profile) matches Ok(r) ==> in_name_order(r.model_types)
            && in_name_order(r.request_response_types) && ordered(r.not_implemented),
{
    match model_rows(entries, 0, profile, Seq::empty(), Seq::empty()) {
        Ok((types, missing)) => match error_variants(errors, 0, Seq::empty()) {
            Ok(variants) => match request_rows(entries, methods, 0, Seq::empty()) {
                Ok(requests) => {
                    lemma_sorted_types_in_name_order(types.push(error_type(variants)));
                    lemma_sorted_types_in_name_order(requests);
                    lemma_sorted_keys_ordered(missing, missing.len());
                },
                Err(_) => {},
            },
            Err(_) => {},
        },
        Err(_) => {},
    }
}

/// A union never stops the run: it resolves, to no type.
pub proof fn lemma_union_resolves(entries: Seq<(Seq<char>, Schema)>, profile: Profile, k: int)
    requires
        0 <= k < entries.len(),
        entries[k].1 is OneOf,
    ensures
        resolves(entries, profile, k),
{
    lemma_union_not_implemented(entries, entries[k].1, profile.option);
}

/// Where every schema that is no union resolves, and so do the error
/// definitions and the methods, the document resolves: every schema that has
/// a type gets it, beside the enum of the errors, and the names that are
/// listed as not implemented are, in order, exactly those of the schemas
/// whose shape is not implemented. No type is lost to a union, wherever the
/// union stands in the document.
pub proof fn lemma_resolved_lists_unsupported(
    entries: Seq<(Seq<char>, Schema)>,
    errors: Seq<(Seq<char>, ErrorType)>,
    methods: Seq<Method>,
    profile: Profile,
)
    requires
        forall|k: int|
            0 <= k < entries.len() ==> (#[trigger] entries[k]).1 is OneOf || resolves(
                entries,
                profile,
                k,
            ),
        error_variants(errors, 0, Seq::empty()) is Ok,
        request_rows(entries, methods, 0, Seq::empty()) is Ok,
    ensures
        resolved(entries, errors, methods, profile) matches Ok(r) && r.not_implemented
            == sorted_keys(
            missing_from(entries, profile, 0),
            missing_from(entries, profile, 0).len(),
        ) && r.model_types == sorted_types(
            types_from(entries, profile, 0).push(
                error_type(error_variants(errors, 0, Seq::empty())->Ok_0),
            ),
        ) && r.model_types.len() == types_from(entries, profile, 0).len() + 1,
{
    assert forall|k: int| 0 <= k < entries.len() implies resolves(entries, profile, k) by {
        if entries[k].1 is OneOf {
            lemma_union_resolves(entries, profile, k);
        }
    }
    lemma_unsupported_is_listed(entries, 0, profile, Seq::empty(), Seq::empty());
    let types = types_from(entries, profile, 0);
    let missing = missing_from(entries, profile, 0);
    assert(Seq::<TypeView>::empty() + types =~= types);
    assert(Seq::<Seq<char>>::empty() + missing =~= missing);
    let all = types.push(error_type(error_variants(errors, 0, Seq::empty())->Ok_0));
    lemma_sorted_len(all, type_names(all, all.len()), all.len());
}

} // verus!
