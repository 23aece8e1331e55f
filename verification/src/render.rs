//! The definitions of the emitted types, as lines of text.

use vstd::prelude::*;
use vstd::string::StringExecFns;
use crate::field::field_def_lines;
use crate::ir::{
    any_serde_as, struct_needs_custom_serde, EnumView, FieldView,
    KindView, RustEnum, RustStruct, RustType, RustTypeKind, RustUnit, RustWrapper, StructView,
    TypeView, UnitView, VariantView, WrapperView,
};
use crate::naming::{doc_comment, doc_lines};
use crate::text::{cat, cat3, push_empty, push_line, push_lines, push_text};

verus! {

/// `acc` followed by the declarations of the first `n` fields that are not
/// fixed, each behind its documentation.
pub open spec fn struct_field_rows(
    acc: Seq<Seq<char>>,
    fields: Seq<FieldView>,
    n: nat,
    derive_serde: bool,
) -> Seq<Seq<char>>
    decreases n,
{
    if n == 0 {
        acc
    } else {
        let before = struct_field_rows(acc, fields, (n - 1) as nat, derive_serde);
        let f = fields[n - 1];
        if f.fixed is Some {
            before
        } else {
            let documented = match f.description {
                Some(doc) => before + doc_comment(doc, 4),
                None => before,
            };
            documented + field_def_lines(f, 4, derive_serde, false, false)
        }
    }
}

/// `acc` followed by the borrowed declarations of the first `n` fields that
/// are not fixed.
pub open spec fn ref_field_rows(acc: Seq<Seq<char>>, fields: Seq<FieldView>, n: nat) -> Seq<
    Seq<char>,
>
    decreases n,
{
    if n == 0 {
        acc
    } else {
        let before = ref_field_rows(acc, fields, (n - 1) as nat);
        let f = fields[n - 1];
        if f.fixed is Some {
            before
        } else {
            before + field_def_lines(f, 4, false, true, false)
        }
    }
}

/// The definition of a struct named `name`: the struct itself and, where it
/// has one, its borrowed counterpart. The codec is derived unless the struct
/// needs one of its own. Fixed fields are not stored.
pub open spec fn struct_lines(s: StructView, name: Seq<char>) -> Seq<Seq<char>> {
    let derive_serde = !struct_needs_custom_serde(s);
    let l0 = Seq::<Seq<char>>::empty();
    let l1 = if derive_serde && any_serde_as(s.fields, s.fields.len()) {
        l0.push("#[serde_as]"@)
    } else {
        l0
    };
    let l2 = if derive_serde {
        l1.push("#[derive(Debug, Clone, Serialize, Deserialize)]"@).push(
            "#[cfg_attr(feature = \"no_unknown_fields\", serde(deny_unknown_fields))]"@,
        )
    } else {
        l1.push("#[derive(Debug, Clone)]"@)
    };
    let l3 = l2.push("pub struct "@ + name + " {"@);
    let l4 = struct_field_rows(l3, s.fields, s.fields.len(), derive_serde);
    let l5 = l4.push("}"@);
    if s.extra_ref_type {
        let r0 = l5.push(Seq::empty());
        let r1 = r0 + doc_comment("Reference version of ["@ + name + "]."@, 0);
        let r2 = r1.push("#[derive(Debug, Clone)]"@).push("pub struct "@ + name + "Ref<'a> {"@);
        ref_field_rows(r2, s.fields, s.fields.len()).push("}"@)
    } else {
        l5
    }
}

/// The lines of one enum variant, appended to `acc`.
pub open spec fn variant_rows_one(acc: Seq<Seq<char>>, v: VariantView) -> Seq<Seq<char>> {
    let l1 = match v.description {
        Some(doc) => acc + doc_comment(doc, 4),
        None => acc,
    };
    let l2 = match v.serde_name {
        Some(rename) => l1.push("    #[serde(rename = \""@ + rename + "\")]"@),
        None => l1,
    };
    let l3 = match v.error_text {
        Some(text) => l2.push("    #[error(\""@ + text + "\")]"@),
        None => l2,
    };
    l3.push("    "@ + v.name + ","@)
}

/// `acc` followed by the lines of the first `n` variants.
pub open spec fn variant_rows(acc: Seq<Seq<char>>, variants: Seq<VariantView>, n: nat) -> Seq<
    Seq<char>,
>
    decreases n,
{
    if n == 0 {
        acc
    } else {
        variant_rows_one(variant_rows(acc, variants, (n - 1) as nat), variants[n - 1])
    }
}

/// The definition of an enum named `name`. An error enum also derives `Error`,
/// with each variant's text as its message.
pub open spec fn enum_lines(e: EnumView, name: Seq<char>) -> Seq<Seq<char>> {
    let derive = "#[derive(Debug, Clone, Copy, PartialEq, Eq, Serialize, Deserialize"@ + (if e.thiserror {
        ", Error"@
    } else {
        ""@
    }) + ")]"@;
    let l0 = seq![derive, "pub enum "@ + name + " {"@];
    variant_rows(l0, e.variants, e.variants.len()).push("}"@)
}

/// The definition of a wrapper named `name`.
pub open spec fn wrapper_lines(w: WrapperView, name: Seq<char>) -> Seq<Seq<char>> {
    seq![
        "#[derive(Debug, Clone, Serialize, Deserialize)]"@,
        "pub struct "@ + name + "(pub "@ + w.type_text + ");"@,
    ]
}

/// The definition of a unit type named `name`.
pub open spec fn unit_lines(u: UnitView, name: Seq<char>) -> Seq<Seq<char>> {
    seq![
        if u.serde_as_array {
            "#[derive(Debug, Clone)]"@
        } else {
            "#[derive(Debug, Clone, Serialize, Deserialize)]"@
        },
        "pub struct "@ + name + ";"@,
    ]
}

/// The definition of a type of any kind.
pub open spec fn kind_lines(k: KindView, name: Seq<char>) -> Seq<Seq<char>> {
    match k {
        KindView::Struct(s) => struct_lines(s, name),
        KindView::Enum(e) => enum_lines(e, name),
        KindView::Wrapper(w) => wrapper_lines(w, name),
        KindView::Unit(u) => unit_lines(u, name),
    }
}

/// The documentation above a type: its title, then its description, with an
/// empty comment line between the two where both are there.
pub open spec fn type_doc_lines(title: Option<Seq<char>>, description: Option<Seq<char>>) -> Seq<
    Seq<char>,
> {
    match (title, description) {
        (Some(t), Some(d)) => doc_comment(t, 0).push("///"@) + doc_comment(d, 0),
        (Some(t), None) => doc_comment(t, 0),
        (None, Some(d)) => doc_comment(d, 0),
        (None, None) => Seq::empty(),
    }
}

/// Everything that is emitted for a type where it is defined.
pub open spec fn type_lines(t: TypeView) -> Seq<Seq<char>> {
    type_doc_lines(t.title, t.description) + kind_lines(t.content, t.name)
}

impl RustStruct {
    /// The definition of this struct under the name `name`.
    pub fn render_stdout(&self, name: &str) -> (lines: Vec<String>)
        ensures
            lines.deep_view() == struct_lines(self.deep_view(), name@),
    {
        let derive_serde = !self.need_custom_serde();
        let uses_adapter = self.uses_serde_as();
        let mut lines: Vec<String> = Vec::new();
        assert(lines.deep_view() =~= Seq::<Seq<char>>::empty());
        if derive_serde && uses_adapter {
            push_text(&mut lines, "#[serde_as]");
        }
        if derive_serde {
            push_text(&mut lines, "#[derive(Debug, Clone, Serialize, Deserialize)]");
            push_text(
                &mut lines,
                "#[cfg_attr(feature = \"no_unknown_fields\", serde(deny_unknown_fields))]",
            );
        } else {
            push_text(&mut lines, "#[derive(Debug, Clone)]");
        }
        push_line(&mut lines, cat3("pub struct ", name, " {"));
        let ghost head = lines.deep_view();
        let ghost fields = self.deep_view().fields;
        let mut i: usize = 0;
        while i < self.fields.len()
            invariant
                i <= self.fields.len(),
                fields == self.deep_view().fields,
                lines.deep_view() == struct_field_rows(head, fields, i as nat, derive_serde),
            decreases self.fields.len() - i,
        {
            let field = &self.fields[i];
            assert(field.deep_view() == fields[i as int]);
            if field.fixed.is_none() {
                match &field.description {
                    Some(doc) => {
                        push_lines(&mut lines, doc_lines(doc.as_str(), 4));
                    },
                    None => {},
                }
                push_lines(&mut lines, field.def_lines(4, derive_serde, false, false));
            }
            i = i + 1;
        }
        push_text(&mut lines, "}");
        if self.extra_ref_type {
            push_empty(&mut lines);
            let doc = cat3("Reference version of [", name, "].");
            push_lines(&mut lines, doc_lines(doc.as_str(), 0));
            push_text(&mut lines, "#[derive(Debug, Clone)]");
            push_line(&mut lines, cat3("pub struct ", name, "Ref<'a> {"));
            let ghost ref_head = lines.deep_view();
            let mut j: usize = 0;
            while j < self.fields.len()
                invariant
                    j <= self.fields.len(),
                    fields == self.deep_view().fields,
                    lines.deep_view() == ref_field_rows(ref_head, fields, j as nat),
                decreases self.fields.len() - j,
            {
                let field = &self.fields[j];
                assert(field.deep_view() == fields[j as int]);
                if field.fixed.is_none() {
                    push_lines(&mut lines, field.def_lines(4, false, true, false));
                }
                j = j + 1;
            }
            push_text(&mut lines, "}");
        }
        lines
    }
}

impl RustEnum {
    /// The definition of this enum under the name `name`.
    pub fn render_stdout(&self, name: &str) -> (lines: Vec<String>)
        ensures
            lines.deep_view() == enum_lines(self.deep_view(), name@),
    {
        let mut lines: Vec<String> = Vec::new();
        let mut derive = cat(
            "#[derive(Debug, Clone, Copy, PartialEq, Eq, Serialize, Deserialize",
            if self.thiserror {
                ", Error"
            } else {
                ""
            },
        );
        derive.append(")]");
        push_line(&mut lines, derive);
        push_line(&mut lines, cat3("pub enum ", name, " {"));
        let ghost head = lines.deep_view();
        assert(head =~= seq![derive@, "pub enum "@ + name@ + " {"@]);
        let ghost variants = self.deep_view().variants;
        let mut i: usize = 0;
        while i < self.variants.len()
            invariant
                i <= self.variants.len(),
                variants == self.deep_view().variants,
                lines.deep_view() == variant_rows(head, variants, i as nat),
            decreases self.variants.len() - i,
        {
            let variant = &self.variants[i];
            assert(variant.deep_view() == variants[i as int]);
            match &variant.description {
                Some(doc) => {
                    push_lines(&mut lines, doc_lines(doc.as_str(), 4));
                },
                None => {},
            }
            match &variant.serde_name {
                Some(rename) => {
                    push_line(&mut lines, cat3("    #[serde(rename = \"", rename.as_str(), "\")]"));
                },
                None => {},
            }
            match &variant.error_text {
                Some(text) => {
                    push_line(&mut lines, cat3("    #[error(\"", text.as_str(), "\")]"));
                },
                None => {},
            }
            push_line(&mut lines, cat3("    ", variant.name.as_str(), ","));
            i = i + 1;
        }
        push_text(&mut lines, "}");
        lines
    }
}

impl RustWrapper {
    /// The definition of this wrapper under the name `name`.
    pub fn render_stdout(&self, name: &str) -> (lines: Vec<String>)
        ensures
            lines.deep_view() == wrapper_lines(self.deep_view(), name@),
    {
        let mut lines: Vec<String> = Vec::new();
        push_text(&mut lines, "#[derive(Debug, Clone, Serialize, Deserialize)]");
        let mut line = cat3("pub struct ", name, "(pub ");
        line.append(self.type_text.as_str());
        line.append(");");
        push_line(&mut lines, line);
        assert(lines.deep_view() =~= wrapper_lines(self.deep_view(), name@));
        lines
    }
}

impl RustUnit {
    /// The definition of this unit type under the name `name`.
    pub fn render_stdout(&self, name: &str) -> (lines: Vec<String>)
        ensures
            lines.deep_view() == unit_lines(self.deep_view(), name@),
    {
        let mut lines: Vec<String> = Vec::new();
        if self.need_custom_serde() {
            push_text(&mut lines, "#[derive(Debug, Clone)]");
        } else {
            push_text(&mut lines, "#[derive(Debug, Clone, Serialize, Deserialize)]");
        }
        push_line(&mut lines, cat3("pub struct ", name, ";"));
        assert(lines.deep_view() =~= unit_lines(self.deep_view(), name@));
        lines
    }
}

impl RustTypeKind {
    /// The definition of a type of this kind under the name `name`.
    pub fn render_stdout(&self, name: &str) -> (lines: Vec<String>)
        ensures
            lines.deep_view() == kind_lines(self.deep_view(), name@),
    {
        match self {
            RustTypeKind::Struct(value) => value.render_stdout(name),
            RustTypeKind::Enum(value) => value.render_stdout(name),
            RustTypeKind::Wrapper(value) => value.render_stdout(name),
            RustTypeKind::Unit(value) => value.render_stdout(name),
        }
    }
}

impl RustType {
    /// Everything that is emitted for this type where it is defined: its
    /// documentation and its definition.
    pub fn render_stdout(&self) -> (lines: Vec<String>)
        ensures
            lines.deep_view() == type_lines(self.deep_view()),
    {
        let mut lines: Vec<String> = Vec::new();
        assert(lines.deep_view() =~= Seq::<Seq<char>>::empty());
        match (&self.title, &self.description) {
            (Some(title), Some(description)) => {
                push_lines(&mut lines, doc_lines(title.as_str(), 0));
                push_text(&mut lines, "///");
                push_lines(&mut lines, doc_lines(description.as_str(), 0));
            },
            (Some(title), None) => {
                push_lines(&mut lines, doc_lines(title.as_str(), 0));
            },
            (None, Some(description)) => {
                push_lines(&mut lines, doc_lines(description.as_str(), 0));
            },
            (None, None) => {},
        }
        assert(lines.deep_view() =~= type_doc_lines(
            self.deep_view().title,
            self.deep_view().description,
        ));
        push_lines(&mut lines, self.content.render_stdout(self.name.as_str()));
        lines
    }
}

} // verus!
