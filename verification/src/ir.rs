//! The intermediate representation of the types to emit, and its model.
//!
//! Each type has a view in which every string is a sequence of characters.
//! The contracts of the resolver and of the renderer are stated over these
//! views.

use vstd::prelude::*;

verus! {

/// A field whose wire value is a literal: written as is on encode and checked,
/// where present, on decode.
#[derive(Debug)]
pub struct FixedField {
    pub name: String,
    pub value: String,
}

/// A codec that replaces the derived encoding of a field.
#[derive(Debug)]
pub enum SerializerOverride {
    /// A module given to `serde(with = ..)`.
    Serde(String),
    /// An adapter given to `serde_as(as = ..)`.
    SerdeAs(String),
}

/// The native type of a field, with the codec it needs, if any.
#[derive(Debug)]
pub struct RustFieldType {
    pub type_text: String,
    pub serializer: Option<SerializerOverride>,
}

/// One field of an emitted struct.
#[derive(Debug)]
pub struct RustField {
    pub description: Option<String>,
    pub name: String,
    pub optional: bool,
    pub fixed: Option<FixedField>,
    pub arc_wrap: bool,
    pub type_text: String,
    pub serde_rename: Option<String>,
    pub serde_flatten: bool,
    pub serializer: Option<SerializerOverride>,
}

/// One variant of an emitted enum.
#[derive(Debug)]
pub struct RustVariant {
    pub description: Option<String>,
    pub name: String,
    pub serde_name: Option<String>,
    pub error_text: Option<String>,
}

/// An emitted struct. When `serde_as_array` is set the order of `fields` is
/// the order of the elements on the wire.
#[derive(Debug)]
pub struct RustStruct {
    pub serde_as_array: bool,
    pub extra_ref_type: bool,
    pub fields: Vec<RustField>,
}

/// An emitted enum. When `thiserror` is set every variant is meant to carry
/// its message in `error_text`.
#[derive(Debug)]
pub struct RustEnum {
    pub thiserror: bool,
    pub variants: Vec<RustVariant>,
}

/// An emitted wrapper around one inner type.
#[derive(Debug)]
pub struct RustWrapper {
    pub type_text: String,
}

/// An emitted type without fields.
#[derive(Debug)]
pub struct RustUnit {
    pub serde_as_array: bool,
}

/// The four kinds of emitted type.
#[derive(Debug)]
pub enum RustTypeKind {
    Struct(RustStruct),
    Enum(RustEnum),
    Wrapper(RustWrapper),
    Unit(RustUnit),
}

/// A type to emit.
#[derive(Debug)]
pub struct RustType {
    pub title: Option<String>,
    pub description: Option<String>,
    pub name: String,
    pub content: RustTypeKind,
}

/// What type resolution produces.
#[derive(Debug)]
pub struct TypeResolutionResult {
    pub model_types: Vec<RustType>,
    pub request_response_types: Vec<RustType>,
    pub not_implemented: Vec<String>,
}

/// What a [`FixedField`] is, with strings as character sequences.
pub struct FixedFieldView {
    pub name: Seq<char>,
    pub value: Seq<char>,
}

/// What a [`SerializerOverride`] is.
pub enum SerializerView {
    Serde(Seq<char>),
    SerdeAs(Seq<char>),
}

/// What a [`RustFieldType`] is.
pub struct FieldTypeView {
    pub type_text: Seq<char>,
    pub serializer: Option<SerializerView>,
}

/// What a [`RustField`] is.
pub struct FieldView {
    pub description: Option<Seq<char>>,
    pub name: Seq<char>,
    pub optional: bool,
    pub fixed: Option<FixedFieldView>,
    pub arc_wrap: bool,
    pub type_text: Seq<char>,
    pub serde_rename: Option<Seq<char>>,
    pub serde_flatten: bool,
    pub serializer: Option<SerializerView>,
}

/// What a [`RustVariant`] is.
pub struct VariantView {
    pub description: Option<Seq<char>>,
    pub name: Seq<char>,
    pub serde_name: Option<Seq<char>>,
    pub error_text: Option<Seq<char>>,
}

/// What a [`RustStruct`] is.
pub struct StructView {
    pub serde_as_array: bool,
    pub extra_ref_type: bool,
    pub fields: Seq<FieldView>,
}

/// What a [`RustEnum`] is.
pub struct EnumView {
    pub thiserror: bool,
    pub variants: Seq<VariantView>,
}

/// What a [`RustWrapper`] is.
pub struct WrapperView {
    pub type_text: Seq<char>,
}

/// What a [`RustUnit`] is.
pub struct UnitView {
    pub serde_as_array: bool,
}

/// What a [`RustTypeKind`] is.
pub enum KindView {
    Struct(StructView),
    Enum(EnumView),
    Wrapper(WrapperView),
    Unit(UnitView),
}

/// What a [`RustType`] is.
pub struct TypeView {
    pub title: Option<Seq<char>>,
    pub description: Option<Seq<char>>,
    pub name: Seq<char>,
    pub content: KindView,
}

/// What a [`TypeResolutionResult`] is.
pub struct ResolutionView {
    pub model_types: Seq<TypeView>,
    pub request_response_types: Seq<TypeView>,
    pub not_implemented: Seq<Seq<char>>,
}

impl DeepView for FixedField {
    type V = FixedFieldView;

    open spec fn deep_view(&self) -> FixedFieldView {
        FixedFieldView { name: self.name@, value: self.value@ }
    }
}

impl DeepView for SerializerOverride {
    type V = SerializerView;

    open spec fn deep_view(&self) -> SerializerView {
        match self {
            SerializerOverride::Serde(s) => SerializerView::Serde(s@),
            SerializerOverride::SerdeAs(s) => SerializerView::SerdeAs(s@),
        }
    }
}

impl DeepView for RustFieldType {
    type V = FieldTypeView;

    open spec fn deep_view(&self) -> FieldTypeView {
        FieldTypeView { type_text: self.type_text@, serializer: self.serializer.deep_view() }
    }
}

impl DeepView for RustField {
    type V = FieldView;

    open spec fn deep_view(&self) -> FieldView {
        FieldView {
            description: self.description.deep_view(),
            name: self.name@,
            optional: self.optional,
            fixed: self.fixed.deep_view(),
            arc_wrap: self.arc_wrap,
            type_text: self.type_text@,
            serde_rename: self.serde_rename.deep_view(),
            serde_flatten: self.serde_flatten,
            serializer: self.serializer.deep_view(),
        }
    }
}

impl DeepView for RustVariant {
    type V = VariantView;

    open spec fn deep_view(&self) -> VariantView {
        VariantView {
            description: self.description.deep_view(),
            name: self.name@,
            serde_name: self.serde_name.deep_view(),
            error_text: self.error_text.deep_view(),
        }
    }
}

impl DeepView for RustStruct {
    type V = StructView;

    open spec fn deep_view(&self) -> StructView {
        StructView {
            serde_as_array: self.serde_as_array,
            extra_ref_type: self.extra_ref_type,
            fields: self.fields.deep_view(),
        }
    }
}

impl DeepView for RustEnum {
    type V = EnumView;

    open spec fn deep_view(&self) -> EnumView {
        EnumView { thiserror: self.thiserror, variants: self.variants.deep_view() }
    }
}

impl DeepView for RustWrapper {
    type V = WrapperView;

    open spec fn deep_view(&self) -> WrapperView {
        WrapperView { type_text: self.type_text@ }
    }
}

impl DeepView for RustUnit {
    type V = UnitView;

    open spec fn deep_view(&self) -> UnitView {
        UnitView { serde_as_array: self.serde_as_array }
    }
}

impl DeepView for RustTypeKind {
    type V = KindView;

    open spec fn deep_view(&self) -> KindView {
        match self {
            RustTypeKind::Struct(v) => KindView::Struct(v.deep_view()),
            RustTypeKind::Enum(v) => KindView::Enum(v.deep_view()),
            RustTypeKind::Wrapper(v) => KindView::Wrapper(v.deep_view()),
            RustTypeKind::Unit(v) => KindView::Unit(v.deep_view()),
        }
    }
}

impl DeepView for RustType {
    type V = TypeView;

    open spec fn deep_view(&self) -> TypeView {
        TypeView {
            title: self.title.deep_view(),
            description: self.description.deep_view(),
            name: self.name@,
            content: self.content.deep_view(),
        }
    }
}

impl DeepView for TypeResolutionResult {
    type V = ResolutionView;

    open spec fn deep_view(&self) -> ResolutionView {
        ResolutionView {
            model_types: self.model_types.deep_view(),
            request_response_types: self.request_response_types.deep_view(),
            not_implemented: self.not_implemented.deep_view(),
        }
    }
}

/// Whether one of the first `n` fields is fixed.
pub open spec fn any_fixed(fields: Seq<FieldView>, n: nat) -> bool
    decreases n,
{
    n > 0 && (any_fixed(fields, (n - 1) as nat) || fields[n - 1].fixed is Some)
}

/// Whether one of the first `n` fields uses a `serde_as` adapter.
pub open spec fn any_serde_as(fields: Seq<FieldView>, n: nat) -> bool
    decreases n,
{
    n > 0 && (any_serde_as(fields, (n - 1) as nat) || fields[n - 1].serializer matches Some(
        SerializerView::SerdeAs(_),
    ))
}

/// A struct needs codec logic of its own when it is written as an array or has
/// a fixed field.
pub open spec fn struct_needs_custom_serde(s: StructView) -> bool {
    s.serde_as_array || any_fixed(s.fields, s.fields.len())
}

/// Whether a type needs codec logic of its own, by kind.
pub open spec fn kind_needs_custom_serde(k: KindView) -> bool {
    match k {
        KindView::Struct(s) => struct_needs_custom_serde(s),
        KindView::Enum(_) => false,
        KindView::Wrapper(_) => false,
        KindView::Unit(u) => u.serde_as_array,
    }
}

impl RustStruct {
    /// Whether one of the fields uses a `serde_as` adapter.
    pub fn uses_serde_as(&self) -> (r: bool)
        ensures
            r == any_serde_as(self.deep_view().fields, self.fields.len() as nat),
    {
        let mut i: usize = 0;
        let mut found = false;
        while i < self.fields.len()
            invariant
                i <= self.fields.len(),
                found == any_serde_as(self.deep_view().fields, i as nat),
            decreases self.fields.len() - i,
        {
            match &self.fields[i].serializer {
                Some(SerializerOverride::SerdeAs(_)) => {
                    found = true;
                },
                _ => {},
            }
            i = i + 1;
        }
        found
    }

    /// Whether the struct needs codec logic of its own.
    pub fn need_custom_serde(&self) -> (r: bool)
        ensures
            r == struct_needs_custom_serde(self.deep_view()),
    {
        if self.serde_as_array {
            return true;
        }
        let mut i: usize = 0;
        let mut found = false;
        while i < self.fields.len()
            invariant
                i <= self.fields.len(),
                found == any_fixed(self.deep_view().fields, i as nat),
            decreases self.fields.len() - i,
        {
            if self.fields[i].fixed.is_some() {
                found = true;
            }
            i = i + 1;
        }
        found
    }
}

impl RustEnum {
    /// An enum never needs codec logic of its own.
    pub fn need_custom_serde(&self) -> (r: bool)
        ensures
            !r,
    {
        false
    }
}

impl RustWrapper {
    /// A wrapper never needs codec logic of its own.
    pub fn need_custom_serde(&self) -> (r: bool)
        ensures
            !r,
    {
        false
    }
}

impl RustUnit {
    /// A unit needs codec logic of its own exactly when it is written as an array.
    pub fn need_custom_serde(&self) -> (r: bool)
        ensures
            r == self.serde_as_array,
    {
        self.serde_as_array
    }
}

impl RustType {
    /// Whether the type needs codec logic of its own.
    pub fn need_custom_serde(&self) -> (r: bool)
        ensures
            r == kind_needs_custom_serde(self.deep_view().content),
    {
        match &self.content {
            RustTypeKind::Struct(content) => content.need_custom_serde(),
            RustTypeKind::Enum(content) => content.need_custom_serde(),
            RustTypeKind::Wrapper(content) => content.need_custom_serde(),
            RustTypeKind::Unit(content) => content.need_custom_serde(),
        }
    }
}

} // verus!
