//! What a run is parameterized by: the version of the specification, the
//! flatten policy and the two override tables.

use vstd::prelude::*;
use crate::error::{result_view, CodegenError, ErrorView};
use crate::ir::{FixedField, FixedFieldView};
use crate::text::str_eq;

verus! {

/// The versions of the specification that types can be generated for.
#[derive(Debug, Clone, Copy, PartialEq, Eq, Structural)]
pub enum SpecVersion {
    V0_1_0,
    V0_2_1,
    V0_3_0,
}

/// Which `allOf` fragments are merged into the type that names them.
#[derive(Debug)]
pub enum FlattenOption {
    /// Every fragment is merged.
    All,
    /// The fragments with one of these names are merged.
    Selected(Vec<String>),
}

/// The fixed fields of one emitted type.
#[derive(Debug)]
pub struct RustTypeWithFixedFields {
    pub name: String,
    pub fields: Vec<FixedField>,
}

/// The shared fields of one emitted type.
#[derive(Debug)]
pub struct RustTypeWithArcWrappedFields {
    pub name: String,
    pub fields: Vec<String>,
}

/// The table of fixed fields, by emitted type.
#[derive(Debug)]
pub struct FixedFieldsOptions {
    pub fixed_field_types: Vec<RustTypeWithFixedFields>,
}

/// The table of shared fields, by emitted type.
#[derive(Debug)]
pub struct ArcWrappingOptions {
    pub arc_wrapped_types: Vec<RustTypeWithArcWrappedFields>,
}

/// What a [`FlattenOption`] is, with strings as character sequences.
pub enum FlattenView {
    All,
    Selected(Seq<Seq<char>>),
}

/// What a [`RustTypeWithFixedFields`] is.
pub struct TypeFixedView {
    pub name: Seq<char>,
    pub fields: Seq<FixedFieldView>,
}

/// What a [`RustTypeWithArcWrappedFields`] is.
pub struct TypeSharedView {
    pub name: Seq<char>,
    pub fields: Seq<Seq<char>>,
}

impl DeepView for SpecVersion {
    type V = SpecVersion;

    open spec fn deep_view(&self) -> SpecVersion {
        *self
    }
}

impl DeepView for FlattenOption {
    type V = FlattenView;

    open spec fn deep_view(&self) -> FlattenView {
        match self {
            FlattenOption::All => FlattenView::All,
            FlattenOption::Selected(names) => FlattenView::Selected(names.deep_view()),
        }
    }
}

impl DeepView for RustTypeWithFixedFields {
    type V = TypeFixedView;

    open spec fn deep_view(&self) -> TypeFixedView {
        TypeFixedView { name: self.name@, fields: self.fields.deep_view() }
    }
}

impl DeepView for RustTypeWithArcWrappedFields {
    type V = TypeSharedView;

    open spec fn deep_view(&self) -> TypeSharedView {
        TypeSharedView { name: self.name@, fields: self.fields.deep_view() }
    }
}

impl DeepView for FixedFieldsOptions {
    type V = Seq<TypeFixedView>;

    open spec fn deep_view(&self) -> Seq<TypeFixedView> {
        self.fixed_field_types.deep_view()
    }
}

impl DeepView for ArcWrappingOptions {
    type V = Seq<TypeSharedView>;

    open spec fn deep_view(&self) -> Seq<TypeSharedView> {
        self.arc_wrapped_types.deep_view()
    }
}

/// The version that a selector names: each version is written with or without
/// a leading `v`.
pub open spec fn parse_version(s: Seq<char>) -> Option<SpecVersion> {
    if s == "0.1.0"@ || s == "v0.1.0"@ {
        Some(SpecVersion::V0_1_0)
    } else if s == "0.2.1"@ || s == "v0.2.1"@ {
        Some(SpecVersion::V0_2_1)
    } else if s == "0.3.0"@ || s == "v0.3.0"@ {
        Some(SpecVersion::V0_3_0)
    } else {
        None
    }
}

/// Whether the policy merges the fragment named `name`.
pub open spec fn should_flatten(option: FlattenView, name: Seq<char>) -> bool {
    match option {
        FlattenView::All => true,
        FlattenView::Selected(names) => names.contains(name),
    }
}

/// The first of the first `n` fixed fields that is named `field_name`.
pub open spec fn fixed_field_in(fields: Seq<FixedFieldView>, field_name: Seq<char>, n: nat) -> Option<
    FixedFieldView,
>
    decreases n,
{
    if n == 0 {
        None
    } else {
        match fixed_field_in(fields, field_name, (n - 1) as nat) {
            Some(f) => Some(f),
            None => if fields[n - 1].name == field_name {
                Some(fields[n - 1])
            } else {
                None
            },
        }
    }
}

/// The fixed field that the first `n` rows of the table give for the field
/// `field_name` of the type `owner`: that of the first row for the type
/// that has one.
pub open spec fn fixed_field_of(
    table: Seq<TypeFixedView>,
    owner: Seq<char>,
    field_name: Seq<char>,
    n: nat,
) -> Option<FixedFieldView>
    decreases n,
{
    if n == 0 {
        None
    } else {
        match fixed_field_of(table, owner, field_name, (n - 1) as nat) {
            Some(f) => Some(f),
            None => if table[n - 1].name == owner {
                fixed_field_in(table[n - 1].fields, field_name, table[n - 1].fields.len())
            } else {
                None
            },
        }
    }
}

/// Whether one of the first `n` rows of the table, for the type `owner`,
/// lists the field `field_name`.
pub open spec fn field_shared(
    table: Seq<TypeSharedView>,
    owner: Seq<char>,
    field_name: Seq<char>,
    n: nat,
) -> bool
    decreases n,
{
    n > 0 && (field_shared(table, owner, field_name, (n - 1) as nat) || (table[n - 1].name
        == owner && table[n - 1].fields.contains(field_name)))
}

/// Whether `name` is one of `names`.
pub fn contains_name(names: &Vec<String>, name: &str) -> (r: bool)
    ensures
        r == names.deep_view().contains(name@),
{
    let mut i: usize = 0;
    while i < names.len()
        invariant
            i <= names.len(),
            forall|j: int| 0 <= j < i ==> names.deep_view()[j] != name@,
        decreases names.len() - i,
    {
        if str_eq(names[i].as_str(), name) {
            assert(names.deep_view()[i as int] == name@);
            return true;
        }
        i = i + 1;
    }
    false
}

impl SpecVersion {
    /// The version that a selector names. An unknown selector is an error
    /// that carries the selector.
    pub fn from_str(s: &str) -> (r: Result<SpecVersion, CodegenError>)
        ensures
            result_view(r) == (match parse_version(s@) {
                Some(v) => Ok::<SpecVersion, ErrorView>(v),
                None => Err(ErrorView::UnknownSpecVersion(s@)),
            }),
    {
        if str_eq(s, "0.1.0") || str_eq(s, "v0.1.0") {
            Ok(SpecVersion::V0_1_0)
        } else if str_eq(s, "0.2.1") || str_eq(s, "v0.2.1") {
            Ok(SpecVersion::V0_2_1)
        } else if str_eq(s, "0.3.0") || str_eq(s, "v0.3.0") {
            Ok(SpecVersion::V0_3_0)
        } else {
            Err(CodegenError::UnknownSpecVersion(s.to_owned()))
        }
    }
}

impl FlattenOption {
    /// Whether the policy merges the fragment named `name`.
    pub fn should_flatten(&self, name: &str) -> (r: bool)
        ensures
            r == should_flatten(self.deep_view(), name@),
    {
        match self {
            FlattenOption::All => true,
            FlattenOption::Selected(names) => contains_name(names, name),
        }
    }
}

impl FixedField {
    /// A copy of this fixed field.
    pub fn duplicate(&self) -> (r: FixedField)
        ensures
            r.deep_view() == self.deep_view(),
    {
        FixedField { name: self.name.clone(), value: self.value.clone() }
    }
}

impl FixedFieldsOptions {
    /// The fixed field that the table gives for the field `field_name` of the
    /// type `owner`, if any.
    pub fn find_fixed_field(&self, owner: &str, field_name: &str) -> (r: Option<FixedField>)
        ensures
            r.deep_view() == fixed_field_of(
                self.deep_view(),
                owner@,
                field_name@,
                self.fixed_field_types.len() as nat,
            ),
    {
        let ghost table = self.deep_view();
        let mut i: usize = 0;
        while i < self.fixed_field_types.len()
            invariant
                i <= self.fixed_field_types.len(),
                table == self.deep_view(),
                fixed_field_of(table, owner@, field_name@, i as nat) is None,
            decreases self.fixed_field_types.len() - i,
        {
            let item = &self.fixed_field_types[i];
            assert(item.deep_view() == table[i as int]);
            if str_eq(item.name.as_str(), owner) {
                let ghost fields = item.deep_view().fields;
                let mut j: usize = 0;
                while j < item.fields.len()
                    invariant
                        j <= item.fields.len(),
                        i < self.fixed_field_types.len(),
                        table == self.deep_view(),
                        table[i as int] == item.deep_view(),
                        item.name@ == owner@,
                        fields == item.deep_view().fields,
                        fixed_field_of(table, owner@, field_name@, i as nat) is None,
                        fixed_field_in(fields, field_name@, j as nat) is None,
                    decreases item.fields.len() - j,
                {
                    let field = &item.fields[j];
                    assert(field.deep_view() == fields[j as int]);
                    if str_eq(field.name.as_str(), field_name) {
                        let found = field.duplicate();
                        proof {
                            assert(fixed_field_in(fields, field_name@, (j + 1) as nat) == Some(
                                fields[j as int],
                            ));
                            lemma_fixed_field_in_stays(
                                fields,
                                field_name@,
                                (j + 1) as nat,
                                fields.len(),
                            );
                            assert(fixed_field_of(table, owner@, field_name@, (i + 1) as nat)
                                == Some(fields[j as int]));
                            lemma_fixed_field_of_stays(
                                table,
                                owner@,
                                field_name@,
                                (i + 1) as nat,
                                table.len(),
                            );
                        }
                        return Some(found);
                    }
                    j = j + 1;
                }
            }
            i = i + 1;
        }
        None
    }
}

/// Once a field is found among the first `k` fields, it is the one found among more.
pub proof fn lemma_fixed_field_in_stays(
    fields: Seq<FixedFieldView>,
    field_name: Seq<char>,
    k: nat,
    n: nat,
)
    requires
        k <= n,
        fixed_field_in(fields, field_name, k) is Some,
    ensures
        fixed_field_in(fields, field_name, n) == fixed_field_in(fields, field_name, k),
    decreases n - k,
{
    if k < n {
        lemma_fixed_field_in_stays(fields, field_name, k, (n - 1) as nat);
    }
}

/// Once a field is found in the first `k` rows, it is the one found in more.
pub proof fn lemma_fixed_field_of_stays(
    table: Seq<TypeFixedView>,
    owner: Seq<char>,
    field_name: Seq<char>,
    k: nat,
    n: nat,
)
    requires
        k <= n,
        fixed_field_of(table, owner, field_name, k) is Some,
    ensures
        fixed_field_of(table, owner, field_name, n) == fixed_field_of(
            table,
            owner,
            field_name,
            k,
        ),
    decreases n - k,
{
    if k < n {
        lemma_fixed_field_of_stays(table, owner, field_name, k, (n - 1) as nat);
    }
}

impl ArcWrappingOptions {
    /// Whether the table lists the field `field_name` of the type `owner`
    /// as shared.
    pub fn in_field_wrapped(&self, owner: &str, field_name: &str) -> (r: bool)
        ensures
            r == field_shared(
                self.deep_view(),
                owner@,
                field_name@,
                self.arc_wrapped_types.len() as nat,
            ),
    {
        let ghost table = self.deep_view();
        let mut found = false;
        let mut i: usize = 0;
        while i < self.arc_wrapped_types.len()
            invariant
                i <= self.arc_wrapped_types.len(),
                table == self.deep_view(),
                found == field_shared(table, owner@, field_name@, i as nat),
            decreases self.arc_wrapped_types.len() - i,
        {
            let item = &self.arc_wrapped_types[i];
            assert(item.deep_view() == table[i as int]);
            if str_eq(item.name.as_str(), owner) && contains_name(&item.fields, field_name) {
                found = true;
            }
            i = i + 1;
        }
        found
    }
}

} // verus!
