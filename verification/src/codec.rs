//! The codec logic emitted for types whose derived encoding would be wrong.
//!
//! A struct is written either as a tagged object or as a positional array. The
//! tagged form is needed where a field is fixed: the field is written as its
//! literal and, on decode, accepted when absent and checked when present. The
//! positional form writes one element per field, in declaration order; on
//! decode it takes the elements from the tail of the array, last field first,
//! rejects an array with elements left over, and accepts an object with the
//! field names in place of the array.

use vstd::prelude::*;
use vstd::string::StringExecFns;
use crate::error::{result_view, CodegenError, ErrorView};
use crate::field::{field_def_lines, optional_serializer};
use crate::ir::{
    any_serde_as, FieldView, FixedFieldView, KindView, RustField, RustStruct, RustType,
    RustTypeKind, RustUnit, StructView, TypeView,
};
use crate::naming::{escape_name, escaped};
use crate::text::{
    byte_len, cat3, copy_text, decimal, decimal_string, push_empty, push_line, push_lines,
    push_text,
};

verus! {

/// The line that opens every emitted `serialize`.
pub open spec fn serialize_header() -> Seq<char> {
    "    fn serialize<S: Serializer>(&self, serializer: S) -> Result<S::Ok, S::Error> {"@
}

/// The line that opens every emitted `deserialize`.
pub open spec fn deserialize_header() -> Seq<char> {
    "    fn deserialize<D: Deserializer<'de>>(deserializer: D) -> Result<Self, D::Error> {"@
}

/// `acc` followed by one single-field shadow struct for each of the first `n`
/// fields, for encoding. The struct for field `i` is named `Field` and `i`.
pub open spec fn ser_shadow_rows(acc: Seq<Seq<char>>, fields: Seq<FieldView>, n: nat) -> Seq<
    Seq<char>,
>
    decreases n,
{
    if n == 0 {
        acc
    } else {
        let before = ser_shadow_rows(acc, fields, (n - 1) as nat);
        let f = fields[n - 1];
        let l1 = if f.serializer is Some {
            before.push("        #[serde_as]"@)
        } else {
            before
        };
        let l2 = l1.push("        #[derive(Serialize)]"@).push("        #[serde(transparent)]"@).push(
            "        struct Field"@ + decimal((n - 1) as nat) + "<'a> {"@,
        );
        let l3 = l2 + field_def_lines(f, 12, true, true, false);
        l3.push("        }"@).push(Seq::empty())
    }
}

/// `acc` followed by the statements that write the first `n` fields as
/// elements of the sequence, in declaration order. A name of more than five
/// bytes spreads its statement over three lines.
pub open spec fn ser_element_rows(
    acc: Seq<Seq<char>>,
    fields: Seq<FieldView>,
    n: nat,
    is_ref: bool,
) -> Seq<Seq<char>>
    decreases n,
{
    if n == 0 {
        acc
    } else {
        let before = ser_element_rows(acc, fields, (n - 1) as nat, is_ref);
        let f = fields[n - 1];
        let index = decimal((n - 1) as nat);
        let amp = if is_ref {
            ""@
        } else {
            "&"@
        };
        if byte_len(f.name) > 5 {
            before.push("        seq.serialize_element(&Field"@ + index + " {"@).push(
                "            "@ + f.name + ": "@ + amp + "self."@ + f.name + ","@,
            ).push("        })?;"@)
        } else {
            before.push(
                "        seq.serialize_element(&Field"@ + index + " { "@ + f.name + ": "@ + amp
                    + "self."@ + f.name + " })?;"@,
            )
        }
    }
}

/// The positional-array `Serialize` impl of a struct named `name`, or of its
/// borrowed counterpart.
pub open spec fn array_serialize_lines(s: StructView, name: Seq<char>, is_ref: bool) -> Seq<
    Seq<char>,
> {
    let opening = "impl"@ + (if is_ref {
        "<'a>"@
    } else {
        ""@
    }) + " Serialize for "@ + name + (if is_ref {
        "Ref<'a>"@
    } else {
        ""@
    }) + " {"@;
    let l0 = seq![opening, serialize_header()];
    let l1 = ser_shadow_rows(l0, s.fields, s.fields.len());
    let l2 = l1.push("        use serde::ser::SerializeSeq;"@).push(Seq::empty()).push(
        "        let mut seq = serializer.serialize_seq(None)?;"@,
    ).push(Seq::empty());
    let l3 = ser_element_rows(l2, s.fields, s.fields.len(), is_ref);
    l3.push(Seq::empty()).push("        seq.end()"@).push("    }"@).push("}"@)
}

/// `acc` followed by the declarations of the first `n` fields inside a shadow
/// struct.
pub open spec fn shadow_field_rows(
    acc: Seq<Seq<char>>,
    fields: Seq<FieldView>,
    n: nat,
    is_ref: bool,
) -> Seq<Seq<char>>
    decreases n,
{
    if n == 0 {
        acc
    } else {
        shadow_field_rows(acc, fields, (n - 1) as nat, is_ref) + field_def_lines(
            fields[n - 1],
            12,
            true,
            is_ref,
            false,
        )
    }
}

/// `acc` followed by the initializers of the first `n` fields of the tagged
/// shadow struct: a fixed field is given its literal, any other field is
/// borrowed from the value.
pub open spec fn tagged_init_rows(acc: Seq<Seq<char>>, fields: Seq<FieldView>, n: nat) -> Seq<
    Seq<char>,
>
    decreases n,
{
    if n == 0 {
        acc
    } else {
        let before = tagged_init_rows(acc, fields, (n - 1) as nat);
        let f = fields[n - 1];
        match f.fixed {
            Some(fixed) => before.push(
                "            "@ + escaped(f.name) + ": "@ + fixed.value + ","@,
            ),
            None => before.push(
                "            "@ + escaped(f.name) + ": &self."@ + escaped(f.name) + ","@,
            ),
        }
    }
}

/// The tagged-object `Serialize` impl of a struct named `name`.
pub open spec fn tagged_serialize_lines(s: StructView, name: Seq<char>) -> Seq<Seq<char>> {
    let l0 = seq!["impl Serialize for "@ + name + " {"@, serialize_header()];
    let l1 = if any_serde_as(s.fields, s.fields.len()) {
        l0.push("        #[serde_as]"@)
    } else {
        l0
    };
    let l2 = l1.push("        #[derive(Serialize)]"@).push("        struct Tagged<'a> {"@);
    let l3 = shadow_field_rows(l2, s.fields, s.fields.len(), true);
    let l4 = l3.push("        }"@).push(Seq::empty()).push("        let tagged = Tagged {"@);
    let l5 = tagged_init_rows(l4, s.fields, s.fields.len());
    l5.push("        };"@).push(Seq::empty()).push("        Tagged::serialize(&tagged, serializer)"@).push(
        "    }"@,
    ).push("}"@)
}

/// The `Serialize` impls of a struct: positional where it is written as an
/// array, with a second impl for the borrowed counterpart where there is one;
/// tagged otherwise.
pub open spec fn struct_serialize_lines(s: StructView, name: Seq<char>) -> Seq<Seq<char>> {
    if s.serde_as_array {
        let own = array_serialize_lines(s, name, false);
        if s.extra_ref_type {
            own.push(Seq::empty()) + array_serialize_lines(s, name, true)
        } else {
            own
        }
    } else {
        tagged_serialize_lines(s, name)
    }
}

/// The line that opens the single-field shadow struct of the field at
/// position `index`, for decoding.
pub open spec fn wrapper_opening(index: nat) -> Seq<char> {
    "        struct Field"@ + decimal(index) + " {"@
}

/// `acc` followed by one single-field shadow struct for each of the first `n`
/// fields, for decoding.
pub open spec fn de_shadow_rows(acc: Seq<Seq<char>>, fields: Seq<FieldView>, n: nat) -> Seq<
    Seq<char>,
>
    decreases n,
{
    if n == 0 {
        acc
    } else {
        let before = de_shadow_rows(acc, fields, (n - 1) as nat);
        let f = fields[n - 1];
        let l1 = if f.serializer is Some {
            before.push("        #[serde_as]"@)
        } else {
            before
        };
        let l2 = l1.push("        #[derive(Deserialize)]"@).push(
            "        #[serde(transparent)]"@,
        ).push(wrapper_opening((n - 1) as nat));
        let l3 = l2 + field_def_lines(f, 12, true, false, false);
        l3.push("        }"@).push(Seq::empty())
    }
}

/// The statement that opens the reading of the element for the field at
/// position `index`.
pub open spec fn take_line(index: nat) -> Seq<char> {
    "            let field"@ + decimal(index) + " = serde_json::from_value::<Field"@ + decimal(
        index,
    ) + ">("@
}

/// `acc` followed by the first `k` statements that take an element from the
/// tail of the array, for a struct of `n` fields: the first statement fills
/// field `n - 1`, the next one field `n - 2`, and so on. Each statement takes
/// six lines.
pub open spec fn pop_rows(acc: Seq<Seq<char>>, n: nat, k: nat) -> Seq<Seq<char>>
    decreases k,
{
    if k == 0 || k > n {
        acc
    } else {
        let before = pop_rows(acc, n, (k - 1) as nat);
        before.push(take_line((n - k) as nat)).push("                elements"@).push(
            "                    .pop()"@,
        ).push(
            "                    .ok_or_else(|| serde::de::Error::custom(\"invalid sequence length\"))?,"@,
        ).push("            )"@).push(
            "            .map_err(|err| serde::de::Error::custom(format!(\"failed to parse element: {}\", err)))?;"@,
        )
    }
}

/// The statement that gives the field at position `index` the value that was
/// read for it.
pub open spec fn assign_line(f: FieldView, index: nat) -> Seq<char> {
    "                "@ + f.name + ": field"@ + decimal(index) + "."@ + f.name + ","@
}

/// `acc` followed by the statements that give the first `n` fields the values
/// taken from the array: field `i` gets what was read as `Field` `i`.
pub open spec fn assign_rows(acc: Seq<Seq<char>>, fields: Seq<FieldView>, n: nat) -> Seq<
    Seq<char>,
>
    decreases n,
{
    if n == 0 {
        acc
    } else {
        assign_rows(acc, fields, (n - 1) as nat).push(assign_line(fields[n - 1], (n - 1) as nat))
    }
}

/// `acc` followed by the statements that give the first `n` fields the values
/// found in the object.
pub open spec fn object_rows(acc: Seq<Seq<char>>, fields: Seq<FieldView>, n: nat) -> Seq<
    Seq<char>,
>
    decreases n,
{
    if n == 0 {
        acc
    } else {
        let f = fields[n - 1];
        object_rows(acc, fields, (n - 1) as nat).push(
            "                "@ + f.name + ": object."@ + f.name + ","@,
        )
    }
}

/// The lines of the positional-array `Deserialize` impl up to the branch that
/// reads an array.
pub open spec fn array_deserialize_opening(s: StructView, name: Seq<char>) -> Seq<Seq<char>> {
    let n = s.fields.len();
    let l0 = seq![
        "impl<'de> Deserialize<'de> for "@ + name + " {"@,
        deserialize_header(),
        "        #[serde_as]"@,
        "        #[derive(Deserialize)]"@,
        "        struct AsObject {"@,
    ];
    let l1 = shadow_field_rows(l0, s.fields, n, false);
    let l2 = l1.push("        }"@).push(Seq::empty());
    let l3 = de_shadow_rows(l2, s.fields, n);
    l3.push("        let temp = serde_json::Value::deserialize(deserializer)?;"@).push(
        Seq::empty(),
    ).push("        if let Ok(mut elements) = Vec::<serde_json::Value>::deserialize(&temp) {"@)
}

/// The lines between the last statement that takes an element and the first
/// statement that gives a field its value: an array with an element left over
/// is rejected.
pub open spec fn leftover_check(acc: Seq<Seq<char>>) -> Seq<Seq<char>> {
    acc.push(Seq::empty()).push("            if !elements.is_empty() {"@).push(
        "                return Err(serde::de::Error::custom(\"invalid sequence length\"));"@,
    ).push("            }"@).push(Seq::empty()).push("            Ok(Self {"@)
}

/// The positional-array `Deserialize` impl of a struct named `name`.
pub open spec fn array_deserialize_lines(s: StructView, name: Seq<char>) -> Seq<Seq<char>> {
    let n = s.fields.len();
    let l4 = array_deserialize_opening(s, name);
    let l5 = pop_rows(l4, n, n);
    let l6 = leftover_check(l5);
    let l7 = assign_rows(l6, s.fields, n);
    let l8 = l7.push("            })"@).push(
        "        } else if let Ok(object) = AsObject::deserialize(&temp) {"@,
    ).push("            Ok(Self {"@);
    let l9 = object_rows(l8, s.fields, n);
    l9.push("            })"@).push("        } else {"@).push(
        "            Err(serde::de::Error::custom(\"invalid sequence length\"))"@,
    ).push("        }"@).push("    }"@).push("}"@)
}

/// The field as the tagged shadow struct declares it for decoding: a fixed
/// field becomes optional, so that a payload may leave it out.
pub open spec fn relaxed_field(f: FieldView) -> Result<FieldView, ErrorView> {
    if f.fixed is Some {
        let serializer = match f.serializer {
            Some(s) => match optional_serializer(s) {
                Ok(o) => Ok(Some(o)),
                Err(e) => Err(e),
            },
            None => Ok(None),
        };
        match serializer {
            Ok(serializer) => Ok(
                FieldView {
                    description: f.description,
                    name: f.name,
                    optional: true,
                    fixed: None,
                    arc_wrap: false,
                    type_text: "Option<"@ + f.type_text + ">"@,
                    serde_rename: f.serde_rename,
                    serde_flatten: f.serde_flatten,
                    serializer,
                },
            ),
            Err(e) => Err(e),
        }
    } else {
        Ok(f)
    }
}

/// `acc` followed by the declarations of the first `n` fields inside the
/// tagged shadow struct for decoding, or the error of the first field that
/// has no such declaration.
pub open spec fn relaxed_rows(acc: Seq<Seq<char>>, fields: Seq<FieldView>, n: nat) -> Result<
    Seq<Seq<char>>,
    ErrorView,
>
    decreases n,
{
    if n == 0 {
        Ok(acc)
    } else {
        match relaxed_rows(acc, fields, (n - 1) as nat) {
            Ok(before) => match relaxed_field(fields[n - 1]) {
                Ok(f) => Ok(before + field_def_lines(f, 12, true, false, true)),
                Err(e) => Err(e),
            },
            Err(e) => Err(e),
        }
    }
}

/// The statements that check one fixed field: nothing happens where the
/// payload leaves the field out, and a value other than the literal is an
/// error that names the field.
pub open spec fn fixed_check(acc: Seq<Seq<char>>, fixed: FixedFieldView) -> Seq<Seq<char>> {
    acc.push("        if let Some(tag_field) = &tagged."@ + escaped(fixed.name) + " {"@).push(
        "            if tag_field != "@ + fixed.value + " {"@,
    ).push(
        "                return Err(serde::de::Error::custom(\"invalid `"@ + fixed.name
            + "` value\"));"@,
    ).push("            }"@).push("        }"@).push(Seq::empty())
}

/// `acc` followed by the checks of the fixed fields among the first `n` fields.
pub open spec fn fixed_check_rows(acc: Seq<Seq<char>>, fields: Seq<FieldView>, n: nat) -> Seq<
    Seq<char>,
>
    decreases n,
{
    if n == 0 {
        acc
    } else {
        let before = fixed_check_rows(acc, fields, (n - 1) as nat);
        match fields[n - 1].fixed {
            Some(fixed) => fixed_check(before, fixed),
            None => before,
        }
    }
}

/// `acc` followed by the statements that give each of the first `n` fields
/// that is not fixed its decoded value, behind `Arc` where the field is shared.
pub open spec fn tagged_assign_rows(acc: Seq<Seq<char>>, fields: Seq<FieldView>, n: nat) -> Seq<
    Seq<char>,
>
    decreases n,
{
    if n == 0 {
        acc
    } else {
        let before = tagged_assign_rows(acc, fields, (n - 1) as nat);
        let f = fields[n - 1];
        if f.fixed is Some {
            before
        } else if f.arc_wrap {
            before.push(
                "            "@ + escaped(f.name) + ": Arc::new(tagged."@ + escaped(f.name) + "),"@,
            )
        } else {
            before.push("            "@ + escaped(f.name) + ": tagged."@ + escaped(f.name) + ","@)
        }
    }
}

/// The lines of the tagged-object `Deserialize` impl up to the opening of the
/// shadow struct.
pub open spec fn tagged_deserialize_opening(s: StructView, name: Seq<char>) -> Seq<Seq<char>> {
    let l0 = seq!["impl<'de> Deserialize<'de> for "@ + name + " {"@, deserialize_header()];
    let l1 = if any_serde_as(s.fields, s.fields.len()) {
        l0.push("        #[serde_as]"@)
    } else {
        l0
    };
    l1.push("        #[derive(Deserialize)]"@).push(
        "        #[cfg_attr(feature = \"no_unknown_fields\", serde(deny_unknown_fields))]"@,
    ).push("        struct Tagged {"@)
}

/// The tagged-object `Deserialize` impl of a struct named `name`.
pub open spec fn tagged_deserialize_lines(s: StructView, name: Seq<char>) -> Result<
    Seq<Seq<char>>,
    ErrorView,
> {
    let n = s.fields.len();
    match relaxed_rows(tagged_deserialize_opening(s, name), s.fields, n) {
        Ok(l3) => {
            let l4 = l3.push("        }"@).push(Seq::empty()).push(
                "        let tagged = Tagged::deserialize(deserializer)?;"@,
            ).push(Seq::empty());
            let l5 = fixed_check_rows(l4, s.fields, n);
            let l6 = l5.push("        Ok(Self {"@);
            let l7 = tagged_assign_rows(l6, s.fields, n);
            Ok(l7.push("        })"@).push("    }"@).push("}"@))
        },
        Err(e) => Err(e),
    }
}

/// The `Deserialize` impl of a struct.
pub open spec fn struct_deserialize_lines(s: StructView, name: Seq<char>) -> Result<
    Seq<Seq<char>>,
    ErrorView,
> {
    if s.serde_as_array {
        Ok(array_deserialize_lines(s, name))
    } else {
        tagged_deserialize_lines(s, name)
    }
}

/// The codec logic of a struct: its `Serialize` impls, an empty line, its
/// `Deserialize` impl.
pub open spec fn struct_serde_lines(s: StructView, name: Seq<char>) -> Result<
    Seq<Seq<char>>,
    ErrorView,
> {
    match struct_deserialize_lines(s, name) {
        Ok(de) => Ok(struct_serialize_lines(s, name).push(Seq::empty()) + de),
        Err(e) => Err(e),
    }
}

/// The `Serialize` impl of a unit type: an empty sequence.
pub open spec fn unit_serialize_lines(name: Seq<char>) -> Seq<Seq<char>> {
    seq![
        "impl Serialize for "@ + name + " {"@,
        serialize_header(),
        "        use serde::ser::SerializeSeq;"@,
        Seq::empty(),
        "        let seq = serializer.serialize_seq(Some(0))?;"@,
        "        seq.end()"@,
        "    }"@,
        "}"@,
    ]
}

/// The `Deserialize` impl of a unit type: only an empty array is accepted.
pub open spec fn unit_deserialize_lines(name: Seq<char>) -> Seq<Seq<char>> {
    seq![
        "impl<'de> Deserialize<'de> for "@ + name + " {"@,
        deserialize_header(),
        "        let elements = Vec::<()>::deserialize(deserializer)?;"@,
        "        if !elements.is_empty() {"@,
        "            return Err(serde::de::Error::custom(\"invalid sequence length\"));"@,
        "        }"@,
        "        Ok(Self)"@,
        "    }"@,
        "}"@,
    ]
}

/// The codec logic of a unit type.
pub open spec fn unit_serde_lines(name: Seq<char>) -> Seq<Seq<char>> {
    unit_serialize_lines(name).push(Seq::empty()) + unit_deserialize_lines(name)
}

/// The codec logic of a type. Only structs and unit types have any.
pub open spec fn type_serde_lines(t: TypeView) -> Result<Seq<Seq<char>>, ErrorView> {
    match t.content {
        KindView::Struct(s) => struct_serde_lines(s, t.name),
        KindView::Unit(_) => Ok(unit_serde_lines(t.name)),
        _ => Err(ErrorView::SerdeBlockUnsupported),
    }
}

/// The view of a list of lines, or of the error in its place.
pub open spec fn lines_view(r: Result<Vec<String>, CodegenError>) -> Result<
    Seq<Seq<char>>,
    ErrorView,
> {
    result_view(r)
}

impl RustField {
    /// This field as the tagged shadow struct declares it for decoding.
    fn relaxed(&self) -> (r: Result<RustField, CodegenError>)
        requires
            self.fixed is Some,
        ensures
            result_view(r) == relaxed_field(self.deep_view()),
    {
        let serializer = match &self.serializer {
            Some(s) => match s.to_optional() {
                Ok(o) => Some(o),
                Err(e) => {
                    return Err(e);
                },
            },
            None => None,
        };
        Ok(
            RustField {
                description: copy_text(&self.description),
                name: self.name.clone(),
                optional: true,
                fixed: None,
                arc_wrap: false,
                type_text: cat3("Option<", self.type_text.as_str(), ">"),
                serde_rename: copy_text(&self.serde_rename),
                serde_flatten: self.serde_flatten,
                serializer,
            },
        )
    }
}

impl RustStruct {
    /// The codec logic of this struct under the name `name`: its `Serialize`
    /// impls, an empty line, its `Deserialize` impl.
    pub fn render_serde_stdout(&self, name: &str) -> (r: Result<Vec<String>, CodegenError>)
        ensures
            lines_view(r) == struct_serde_lines(self.deep_view(), name@),
    {
        let mut lines = self.render_impl_serialize_stdout(name);
        let de = match self.render_impl_deserialize_stdout(name) {
            Ok(de) => de,
            Err(e) => {
                return Err(e);
            },
        };
        push_empty(&mut lines);
        push_lines(&mut lines, de);
        Ok(lines)
    }

    /// The `Serialize` impls of this struct.
    pub fn render_impl_serialize_stdout(&self, name: &str) -> (lines: Vec<String>)
        ensures
            lines.deep_view() == struct_serialize_lines(self.deep_view(), name@),
    {
        if self.serde_as_array {
            self.render_impl_array_serialize_stdout(name)
        } else {
            self.render_impl_tagged_serialize_stdout(name)
        }
    }

    /// The `Deserialize` impl of this struct.
    pub fn render_impl_deserialize_stdout(&self, name: &str) -> (r: Result<
        Vec<String>,
        CodegenError,
    >)
        ensures
            lines_view(r) == struct_deserialize_lines(self.deep_view(), name@),
    {
        if self.serde_as_array {
            Ok(self.render_impl_array_deserialize_stdout(name))
        } else {
            self.render_impl_tagged_deserialize_stdout(name)
        }
    }

    fn render_impl_array_serialize_stdout(&self, name: &str) -> (lines: Vec<String>)
        requires
            self.serde_as_array,
        ensures
            lines.deep_view() == struct_serialize_lines(self.deep_view(), name@),
    {
        let mut lines = self.render_impl_array_serialize_stdout_inner(name, false);
        if self.extra_ref_type {
            push_empty(&mut lines);
            push_lines(&mut lines, self.render_impl_array_serialize_stdout_inner(name, true));
        }
        lines
    }

    fn render_impl_array_serialize_stdout_inner(&self, name: &str, is_ref_type: bool) -> (lines:
        Vec<String>)
        ensures
            lines.deep_view() == array_serialize_lines(self.deep_view(), name@, is_ref_type),
    {
        let mut lines: Vec<String> = Vec::new();
        let mut opening = cat3(
            "impl",
            if is_ref_type {
                "<'a>"
            } else {
                ""
            },
            " Serialize for ",
        );
        opening.append(name);
        opening.append(
            if is_ref_type {
                "Ref<'a>"
            } else {
                ""
            },
        );
        opening.append(" {");
        push_line(&mut lines, opening);
        push_text(
            &mut lines,
            "    fn serialize<S: Serializer>(&self, serializer: S) -> Result<S::Ok, S::Error> {",
        );
        let ghost fields = self.deep_view().fields;
        let ghost l0 = lines.deep_view();
        assert(l0 =~= seq![opening@, serialize_header()]);
        let mut i: usize = 0;
        while i < self.fields.len()
            invariant
                i <= self.fields.len(),
                fields == self.deep_view().fields,
                lines.deep_view() == ser_shadow_rows(l0, fields, i as nat),
            decreases self.fields.len() - i,
        {
            let field = &self.fields[i];
            assert(field.deep_view() == fields[i as int]);
            if field.serializer.is_some() {
                push_text(&mut lines, "        #[serde_as]");
            }
            push_text(&mut lines, "        #[derive(Serialize)]");
            push_text(&mut lines, "        #[serde(transparent)]");
            push_line(
                &mut lines,
                cat3("        struct Field", decimal_string(i).as_str(), "<'a> {"),
            );
            push_lines(&mut lines, field.def_lines(12, true, true, false));
            push_text(&mut lines, "        }");
            push_empty(&mut lines);
            i = i + 1;
        }
        push_text(&mut lines, "        use serde::ser::SerializeSeq;");
        push_empty(&mut lines);
        push_text(&mut lines, "        let mut seq = serializer.serialize_seq(None)?;");
        push_empty(&mut lines);
        let ghost l2 = lines.deep_view();
        let amp = if is_ref_type {
            ""
        } else {
            "&"
        };
        let mut j: usize = 0;
        while j < self.fields.len()
            invariant
                j <= self.fields.len(),
                fields == self.deep_view().fields,
                amp@ == (if is_ref_type {
                    ""@
                } else {
                    "&"@
                }),
                lines.deep_view() == ser_element_rows(l2, fields, j as nat, is_ref_type),
            decreases self.fields.len() - j,
        {
            let field = &self.fields[j];
            assert(field.deep_view() == fields[j as int]);
            let field_name = field.name.as_str();
            let index = decimal_string(j);
            if field_name.len() > 5 {
                push_line(
                    &mut lines,
                    cat3("        seq.serialize_element(&Field", index.as_str(), " {"),
                );
                let mut line = cat3("            ", field_name, ": ");
                line.append(amp);
                line.append("self.");
                line.append(field_name);
                line.append(",");
                push_line(&mut lines, line);
                push_text(&mut lines, "        })?;");
            } else {
                let mut line = cat3("        seq.serialize_element(&Field", index.as_str(), " { ");
                line.append(field_name);
                line.append(": ");
                line.append(amp);
                line.append("self.");
                line.append(field_name);
                line.append(" })?;");
                push_line(&mut lines, line);
            }
            j = j + 1;
        }
        push_empty(&mut lines);
        push_text(&mut lines, "        seq.end()");
        push_text(&mut lines, "    }");
        push_text(&mut lines, "}");
        lines
    }

    fn push_shadow_fields(&self, lines: &mut Vec<String>, is_ref: bool)
        ensures
            final(lines).deep_view() == shadow_field_rows(
                old(lines).deep_view(),
                self.deep_view().fields,
                self.fields.len() as nat,
                is_ref,
            ),
    {
        let ghost fields = self.deep_view().fields;
        let ghost head = lines.deep_view();
        let mut i: usize = 0;
        while i < self.fields.len()
            invariant
                i <= self.fields.len(),
                fields == self.deep_view().fields,
                lines.deep_view() == shadow_field_rows(head, fields, i as nat, is_ref),
            decreases self.fields.len() - i,
        {
            let field = &self.fields[i];
            assert(field.deep_view() == fields[i as int]);
            push_lines(lines, field.def_lines(12, true, is_ref, false));
            i = i + 1;
        }
    }

    fn render_impl_tagged_serialize_stdout(&self, name: &str) -> (lines: Vec<String>)
        ensures
            lines.deep_view() == tagged_serialize_lines(self.deep_view(), name@),
    {
        let mut lines: Vec<String> = Vec::new();
        push_line(&mut lines, cat3("impl Serialize for ", name, " {"));
        push_text(
            &mut lines,
            "    fn serialize<S: Serializer>(&self, serializer: S) -> Result<S::Ok, S::Error> {",
        );
        assert(lines.deep_view() =~= seq![
            "impl Serialize for "@ + name@ + " {"@,
            serialize_header(),
        ]);
        if self.uses_serde_as() {
            push_text(&mut lines, "        #[serde_as]");
        }
        push_text(&mut lines, "        #[derive(Serialize)]");
        push_text(&mut lines, "        struct Tagged<'a> {");
        self.push_shadow_fields(&mut lines, true);
        push_text(&mut lines, "        }");
        push_empty(&mut lines);
        push_text(&mut lines, "        let tagged = Tagged {");
        let ghost fields = self.deep_view().fields;
        let ghost l4 = lines.deep_view();
        let mut i: usize = 0;
        while i < self.fields.len()
            invariant
                i <= self.fields.len(),
                fields == self.deep_view().fields,
                lines.deep_view() == tagged_init_rows(l4, fields, i as nat),
            decreases self.fields.len() - i,
        {
            let field = &self.fields[i];
            assert(field.deep_view() == fields[i as int]);
            let shown = escape_name(field.name.as_str());
            match &field.fixed {
                Some(fixed) => {
                    let mut line = cat3("            ", shown, ": ");
                    line.append(fixed.value.as_str());
                    line.append(",");
                    push_line(&mut lines, line);
                },
                None => {
                    let mut line = cat3("            ", shown, ": &self.");
                    line.append(shown);
                    line.append(",");
                    push_line(&mut lines, line);
                },
            }
            i = i + 1;
        }
        push_text(&mut lines, "        };");
        push_empty(&mut lines);
        push_text(&mut lines, "        Tagged::serialize(&tagged, serializer)");
        push_text(&mut lines, "    }");
        push_text(&mut lines, "}");
        lines
    }

    fn render_impl_array_deserialize_stdout(&self, name: &str) -> (lines: Vec<String>)
        ensures
            lines.deep_view() == array_deserialize_lines(self.deep_view(), name@),
    {
        let n = self.fields.len();
        let ghost fields = self.deep_view().fields;
        let mut lines: Vec<String> = Vec::new();
        push_line(&mut lines, cat3("impl<'de> Deserialize<'de> for ", name, " {"));
        push_text(
            &mut lines,
            "    fn deserialize<D: Deserializer<'de>>(deserializer: D) -> Result<Self, D::Error> {",
        );
        push_text(&mut lines, "        #[serde_as]");
        push_text(&mut lines, "        #[derive(Deserialize)]");
        push_text(&mut lines, "        struct AsObject {");
        assert(lines.deep_view() =~= seq![
            "impl<'de> Deserialize<'de> for "@ + name@ + " {"@,
            deserialize_header(),
            "        #[serde_as]"@,
            "        #[derive(Deserialize)]"@,
            "        struct AsObject {"@,
        ]);
        self.push_shadow_fields(&mut lines, false);
        push_text(&mut lines, "        }");
        push_empty(&mut lines);
        let ghost l2 = lines.deep_view();
        let mut i: usize = 0;
        while i < n
            invariant
                i <= n,
                n == self.fields.len(),
                fields == self.deep_view().fields,
                lines.deep_view() == de_shadow_rows(l2, fields, i as nat),
            decreases n - i,
        {
            let field = &self.fields[i];
            assert(field.deep_view() == fields[i as int]);
            if field.serializer.is_some() {
                push_text(&mut lines, "        #[serde_as]");
            }
            push_text(&mut lines, "        #[derive(Deserialize)]");
            push_text(&mut lines, "        #[serde(transparent)]");
            push_line(&mut lines, cat3("        struct Field", decimal_string(i).as_str(), " {"));
            push_lines(&mut lines, field.def_lines(12, true, false, false));
            push_text(&mut lines, "        }");
            push_empty(&mut lines);
            i = i + 1;
        }
        push_text(&mut lines, "        let temp = serde_json::Value::deserialize(deserializer)?;");
        push_empty(&mut lines);
        push_text(
            &mut lines,
            "        if let Ok(mut elements) = Vec::<serde_json::Value>::deserialize(&temp) {",
        );
        let ghost l4 = lines.deep_view();
        let mut k: usize = 0;
        while k < n
            invariant
                k <= n,
                lines.deep_view() == pop_rows(l4, n as nat, k as nat),
            decreases n - k,
        {
            k = k + 1;
            let index = decimal_string(n - k);
            let mut line = cat3("            let field", index.as_str(), " = serde_json::from_value::<Field");
            line.append(index.as_str());
            line.append(">(");
            push_line(&mut lines, line);
            push_text(&mut lines, "                elements");
            push_text(&mut lines, "                    .pop()");
            push_text(
                &mut lines,
                "                    .ok_or_else(|| serde::de::Error::custom(\"invalid sequence length\"))?,",
            );
            push_text(&mut lines, "            )");
            push_text(
                &mut lines,
                "            .map_err(|err| serde::de::Error::custom(format!(\"failed to parse element: {}\", err)))?;",
            );
        }
        push_empty(&mut lines);
        push_text(&mut lines, "            if !elements.is_empty() {");
        push_text(
            &mut lines,
            "                return Err(serde::de::Error::custom(\"invalid sequence length\"));",
        );
        push_text(&mut lines, "            }");
        push_empty(&mut lines);
        push_text(&mut lines, "            Ok(Self {");
        let ghost l6 = lines.deep_view();
        let mut a: usize = 0;
        while a < n
            invariant
                a <= n,
                n == self.fields.len(),
                fields == self.deep_view().fields,
                lines.deep_view() == assign_rows(l6, fields, a as nat),
            decreases n - a,
        {
            let field = &self.fields[a];
            assert(field.deep_view() == fields[a as int]);
            let mut line = cat3("                ", field.name.as_str(), ": field");
            line.append(decimal_string(a).as_str());
            line.append(".");
            line.append(field.name.as_str());
            line.append(",");
            push_line(&mut lines, line);
            a = a + 1;
        }
        push_text(&mut lines, "            })");
        push_text(&mut lines, "        } else if let Ok(object) = AsObject::deserialize(&temp) {");
        push_text(&mut lines, "            Ok(Self {");
        let ghost l8 = lines.deep_view();
        let mut b: usize = 0;
        while b < n
            invariant
                b <= n,
                n == self.fields.len(),
                fields == self.deep_view().fields,
                lines.deep_view() == object_rows(l8, fields, b as nat),
            decreases n - b,
        {
            let field = &self.fields[b];
            assert(field.deep_view() == fields[b as int]);
            let mut line = cat3("                ", field.name.as_str(), ": object.");
            line.append(field.name.as_str());
            line.append(",");
            push_line(&mut lines, line);
            b = b + 1;
        }
        push_text(&mut lines, "            })");
        push_text(&mut lines, "        } else {");
        push_text(
            &mut lines,
            "            Err(serde::de::Error::custom(\"invalid sequence length\"))",
        );
        push_text(&mut lines, "        }");
        push_text(&mut lines, "    }");
        push_text(&mut lines, "}");
        lines
    }

    fn render_impl_tagged_deserialize_stdout(&self, name: &str) -> (r: Result<
        Vec<String>,
        CodegenError,
    >)
        ensures
            lines_view(r) == tagged_deserialize_lines(self.deep_view(), name@),
    {
        let n = self.fields.len();
        let ghost fields = self.deep_view().fields;
        let mut lines: Vec<String> = Vec::new();
        push_line(&mut lines, cat3("impl<'de> Deserialize<'de> for ", name, " {"));
        push_text(
            &mut lines,
            "    fn deserialize<D: Deserializer<'de>>(deserializer: D) -> Result<Self, D::Error> {",
        );
        assert(lines.deep_view() =~= seq![
            "impl<'de> Deserialize<'de> for "@ + name@ + " {"@,
            deserialize_header(),
        ]);
        if self.uses_serde_as() {
            push_text(&mut lines, "        #[serde_as]");
        }
        push_text(&mut lines, "        #[derive(Deserialize)]");
        push_text(
            &mut lines,
            "        #[cfg_attr(feature = \"no_unknown_fields\", serde(deny_unknown_fields))]",
        );
        push_text(&mut lines, "        struct Tagged {");
        let ghost l2 = lines.deep_view();
        let mut i: usize = 0;
        while i < n
            invariant
                i <= n,
                n == self.fields.len(),
                fields == self.deep_view().fields,
                l2 == tagged_deserialize_opening(self.deep_view(), name@),
                relaxed_rows(l2, fields, i as nat) == Ok::<Seq<Seq<char>>, ErrorView>(
                    lines.deep_view(),
                ),
            decreases n - i,
        {
            let field = &self.fields[i];
            assert(field.deep_view() == fields[i as int]);
            if field.fixed.is_some() {
                match field.relaxed() {
                    Ok(relaxed) => {
                        push_lines(&mut lines, relaxed.def_lines(12, true, false, true));
                    },
                    Err(e) => {
                        proof {
                            assert(relaxed_field(fields[i as int]) == Err::<FieldView, ErrorView>(
                                e.deep_view(),
                            ));
                            assert(relaxed_rows(l2, fields, (i + 1) as nat) == Err::<
                                Seq<Seq<char>>,
                                ErrorView,
                            >(e.deep_view()));
                            lemma_relaxed_rows_error(l2, fields, (i + 1) as nat, n as nat);
                        }
                        return Err(e);
                    },
                }
            } else {
                push_lines(&mut lines, field.def_lines(12, true, false, true));
            }
            i = i + 1;
        }
        push_text(&mut lines, "        }");
        push_empty(&mut lines);
        push_text(&mut lines, "        let tagged = Tagged::deserialize(deserializer)?;");
        push_empty(&mut lines);
        let ghost l4 = lines.deep_view();
        let mut c: usize = 0;
        while c < n
            invariant
                c <= n,
                n == self.fields.len(),
                fields == self.deep_view().fields,
                lines.deep_view() == fixed_check_rows(l4, fields, c as nat),
            decreases n - c,
        {
            let field = &self.fields[c];
            assert(field.deep_view() == fields[c as int]);
            match &field.fixed {
                Some(fixed) => {
                    push_line(
                        &mut lines,
                        cat3(
                            "        if let Some(tag_field) = &tagged.",
                            escape_name(fixed.name.as_str()),
                            " {",
                        ),
                    );
                    push_line(
                        &mut lines,
                        cat3("            if tag_field != ", fixed.value.as_str(), " {"),
                    );
                    push_line(
                        &mut lines,
                        cat3(
                            "                return Err(serde::de::Error::custom(\"invalid `",
                            fixed.name.as_str(),
                            "` value\"));",
                        ),
                    );
                    push_text(&mut lines, "            }");
                    push_text(&mut lines, "        }");
                    push_empty(&mut lines);
                },
                None => {},
            }
            c = c + 1;
        }
        push_text(&mut lines, "        Ok(Self {");
        let ghost l6 = lines.deep_view();
        let mut a: usize = 0;
        while a < n
            invariant
                a <= n,
                n == self.fields.len(),
                fields == self.deep_view().fields,
                lines.deep_view() == tagged_assign_rows(l6, fields, a as nat),
            decreases n - a,
        {
            let field = &self.fields[a];
            assert(field.deep_view() == fields[a as int]);
            if field.fixed.is_none() {
                let shown = escape_name(field.name.as_str());
                if field.arc_wrap {
                    let mut line = cat3("            ", shown, ": Arc::new(tagged.");
                    line.append(shown);
                    line.append("),");
                    push_line(&mut lines, line);
                } else {
                    let mut line = cat3("            ", shown, ": tagged.");
                    line.append(shown);
                    line.append(",");
                    push_line(&mut lines, line);
                }
            }
            a = a + 1;
        }
        push_text(&mut lines, "        })");
        push_text(&mut lines, "    }");
        push_text(&mut lines, "}");
        Ok(lines)
    }
}

/// Once a field has no declaration, no longer list of fields has one.
proof fn lemma_relaxed_rows_error(acc: Seq<Seq<char>>, fields: Seq<FieldView>, k: nat, n: nat)
    requires
        k <= n,
        relaxed_rows(acc, fields, k) is Err,
    ensures
        relaxed_rows(acc, fields, n) == relaxed_rows(acc, fields, k),
    decreases n - k,
{
    if k < n {
        lemma_relaxed_rows_error(acc, fields, k, (n - 1) as nat);
    }
}

impl RustUnit {
    /// The codec logic of this unit type under the name `name`.
    pub fn render_serde_stdout(&self, name: &str) -> (lines: Vec<String>)
        ensures
            lines.deep_view() == unit_serde_lines(name@),
    {
        let mut lines = self.render_impl_serialize_stdout(name);
        push_empty(&mut lines);
        push_lines(&mut lines, self.render_impl_deserialize_stdout(name));
        lines
    }

    fn render_impl_serialize_stdout(&self, name: &str) -> (lines: Vec<String>)
        ensures
            lines.deep_view() == unit_serialize_lines(name@),
    {
        let mut lines: Vec<String> = Vec::new();
        push_line(&mut lines, cat3("impl Serialize for ", name, " {"));
        push_text(
            &mut lines,
            "    fn serialize<S: Serializer>(&self, serializer: S) -> Result<S::Ok, S::Error> {",
        );
        push_text(&mut lines, "        use serde::ser::SerializeSeq;");
        push_empty(&mut lines);
        push_text(&mut lines, "        let seq = serializer.serialize_seq(Some(0))?;");
        push_text(&mut lines, "        seq.end()");
        push_text(&mut lines, "    }");
        push_text(&mut lines, "}");
        assert(lines.deep_view() =~= unit_serialize_lines(name@));
        lines
    }

    fn render_impl_deserialize_stdout(&self, name: &str) -> (lines: Vec<String>)
        ensures
            lines.deep_view() == unit_deserialize_lines(name@),
    {
        let mut lines: Vec<String> = Vec::new();
        push_line(&mut lines, cat3("impl<'de> Deserialize<'de> for ", name, " {"));
        push_text(
            &mut lines,
            "    fn deserialize<D: Deserializer<'de>>(deserializer: D) -> Result<Self, D::Error> {",
        );
        push_text(&mut lines, "        let elements = Vec::<()>::deserialize(deserializer)?;");
        push_text(&mut lines, "        if !elements.is_empty() {");
        push_text(
            &mut lines,
            "            return Err(serde::de::Error::custom(\"invalid sequence length\"));",
        );
        push_text(&mut lines, "        }");
        push_text(&mut lines, "        Ok(Self)");
        push_text(&mut lines, "    }");
        push_text(&mut lines, "}");
        assert(lines.deep_view() =~= unit_deserialize_lines(name@));
        lines
    }
}

impl RustType {
    /// The codec logic of this type. Only a struct or a unit type has any; for
    /// another kind the call fails.
    pub fn render_serde_stdout(&self) -> (r: Result<Vec<String>, CodegenError>)
        ensures
            lines_view(r) == type_serde_lines(self.deep_view()),
    {
        match &self.content {
            RustTypeKind::Struct(content) => content.render_serde_stdout(self.name.as_str()),
            RustTypeKind::Unit(content) => Ok(content.render_serde_stdout(self.name.as_str())),
            _ => Err(CodegenError::SerdeBlockUnsupported),
        }
    }
}

/// The statements that take the elements: there are six lines for each, the
/// lines in front of them stay, and the statement at place `j` reads the
/// element for field `n - 1 - j`.
pub proof fn lemma_pop_rows(acc: Seq<Seq<char>>, n: nat, k: nat)
    requires
        k <= n,
    ensures
        pop_rows(acc, n, k).len() == acc.len() + 6 * k,
        forall|i: int| 0 <= i < acc.len() ==> #[trigger] pop_rows(acc, n, k)[i] == acc[i],
        forall|j: int|
            0 <= j < k ==> #[trigger] pop_rows(acc, n, k)[acc.len() + 6 * j] == take_line(
                (n - 1 - j) as nat,
            ),
    decreases k,
{
    if k > 0 {
        lemma_pop_rows(acc, n, (k - 1) as nat);
        let before = pop_rows(acc, n, (k - 1) as nat);
        let after = pop_rows(acc, n, k);
        assert forall|i: int| 0 <= i < before.len() implies after[i] == before[i] by {}
        assert forall|j: int| 0 <= j < k implies #[trigger] after[acc.len() + 6 * j] == take_line(
            (n - 1 - j) as nat,
        ) by {
            if j < k - 1 {
                assert(after[acc.len() + 6 * j] == before[acc.len() + 6 * j]);
            } else {
                assert(after[before.len() as int] == take_line((n - k) as nat));
            }
        }
    }
}

/// The statements that give the fields their values: there is one line for
/// each field, the lines in front of them stay, and the statement at place
/// `i` gives field `i` what was read for field `i`.
pub proof fn lemma_assign_rows(acc: Seq<Seq<char>>, fields: Seq<FieldView>, n: nat)
    ensures
        assign_rows(acc, fields, n).len() == acc.len() + n,
        forall|i: int| 0 <= i < acc.len() ==> #[trigger] assign_rows(acc, fields, n)[i] == acc[i],
        forall|i: int|
            0 <= i < n ==> #[trigger] assign_rows(acc, fields, n)[acc.len() + i] == assign_line(
                fields[i],
                i as nat,
            ),
    decreases n,
{
    if n > 0 {
        lemma_assign_rows(acc, fields, (n - 1) as nat);
    }
}

/// The statements that read an object keep the lines in front of them.
pub proof fn lemma_object_rows(acc: Seq<Seq<char>>, fields: Seq<FieldView>, n: nat)
    ensures
        object_rows(acc, fields, n).len() == acc.len() + n,
        forall|i: int| 0 <= i < acc.len() ==> #[trigger] object_rows(acc, fields, n)[i] == acc[i],
    decreases n,
{
    if n > 0 {
        lemma_object_rows(acc, fields, (n - 1) as nat);
    }
}

/// The order of the emitted positional decoder: behind its opening, the
/// elements are taken from the tail, last field first, one statement of six
/// lines for each field; then, behind the check for leftover elements, each
/// field is given the value that was read for it, in declaration order.
pub proof fn lemma_array_decoder_order(s: StructView, name: Seq<char>)
    ensures
        forall|j: int|
            0 <= j < s.fields.len() ==> #[trigger] array_deserialize_lines(
                s,
                name,
            )[array_deserialize_opening(s, name).len() + 6 * j] == take_line(
                (s.fields.len() - 1 - j) as nat,
            ),
        forall|i: int|
            0 <= i < s.fields.len() ==> #[trigger] array_deserialize_lines(
                s,
                name,
            )[array_deserialize_opening(s, name).len() + 6 * s.fields.len() + 6 + i] == assign_line(
                s.fields[i],
                i as nat,
            ),
{
    let n = s.fields.len();
    let l4 = array_deserialize_opening(s, name);
    let l5 = pop_rows(l4, n, n);
    let l6 = leftover_check(l5);
    let l7 = assign_rows(l6, s.fields, n);
    let l8 = l7.push("            })"@).push(
        "        } else if let Ok(object) = AsObject::deserialize(&temp) {"@,
    ).push("            Ok(Self {"@);
    let l9 = object_rows(l8, s.fields, n);
    let text = array_deserialize_lines(s, name);
    lemma_pop_rows(l4, n, n);
    lemma_assign_rows(l6, s.fields, n);
    lemma_object_rows(l8, s.fields, n);
    assert(l6.len() == l5.len() + 6);
    assert forall|i: int| 0 <= i < l7.len() implies text[i] == l7[i] by {
        assert(l8[i] == l7[i]);
        assert(l9[i] == l8[i]);
    }
    assert forall|j: int| 0 <= j < n implies #[trigger] text[l4.len() + 6 * j] == take_line(
        (n - 1 - j) as nat,
    ) by {
        let at = l4.len() + 6 * j;
        assert(l5[at] == take_line((n - 1 - j) as nat));
        assert(l6[at] == l5[at]);
        assert(l7[at] == l6[at]);
        assert(text[at] == l7[at]);
    }
    assert forall|i: int| 0 <= i < n implies #[trigger] text[l4.len() + 6 * n + 6 + i]
        == assign_line(s.fields[i], i as nat) by {
        let at = l6.len() + i;
        assert(l7[at] == assign_line(s.fields[i], i as nat));
        assert(text[at] == l7[at]);
    }
}

/// Whether, at line `p` of `rows`, the shadow struct numbered `index` opens
/// and declares the field `f`, and nothing else.
pub open spec fn wrapper_at(rows: Seq<Seq<char>>, p: int, f: FieldView, index: nat) -> bool {
    let defs = field_def_lines(f, 12, true, false, false);
    &&& 0 <= p
    &&& p + 1 + defs.len() < rows.len()
    &&& rows[p] == wrapper_opening(index)
    &&& rows.subrange(p + 1, p + 1 + defs.len()) == defs
    &&& rows[p + 1 + defs.len()] == "        }"@
}

/// The shadow structs keep the lines in front of them.
pub proof fn lemma_de_shadow_rows_keep(acc: Seq<Seq<char>>, fields: Seq<FieldView>, n: nat)
    ensures
        acc.len() <= de_shadow_rows(acc, fields, n).len(),
        forall|i: int|
            0 <= i < acc.len() ==> #[trigger] de_shadow_rows(acc, fields, n)[i] == acc[i],
    decreases n,
{
    if n > 0 {
        lemma_de_shadow_rows_keep(acc, fields, (n - 1) as nat);
    }
}

/// The shadow struct numbered `i` declares field `i`.
pub proof fn lemma_wrapper_declares_its_field(
    acc: Seq<Seq<char>>,
    fields: Seq<FieldView>,
    n: nat,
    i: int,
)
    requires
        0 <= i < n,
    ensures
        exists|p: int| #[trigger]
            wrapper_at(de_shadow_rows(acc, fields, n), p, fields[i], i as nat),
    decreases n,
{
    let before = de_shadow_rows(acc, fields, (n - 1) as nat);
    let after = de_shadow_rows(acc, fields, n);
    let f = fields[n - 1];
    let defs = field_def_lines(f, 12, true, false, false);
    let l1 = if f.serializer is Some {
        before.push("        #[serde_as]"@)
    } else {
        before
    };
    let l2 = l1.push("        #[derive(Deserialize)]"@).push("        #[serde(transparent)]"@).push(
        wrapper_opening((n - 1) as nat),
    );
    let l3 = l2 + defs;
    assert(after == l3.push("        }"@).push(Seq::empty()));
    if i < n - 1 {
        lemma_wrapper_declares_its_field(acc, fields, (n - 1) as nat, i);
        let p = choose|p: int| #[trigger] wrapper_at(before, p, fields[i], i as nat);
        let kept = field_def_lines(fields[i], 12, true, false, false);
        assert forall|j: int| 0 <= j < before.len() implies after[j] == before[j] by {
            assert(l1[j] == before[j]);
            assert(l2[j] == l1[j]);
            assert(l3[j] == l2[j]);
        }
        assert(after.subrange(p + 1, p + 1 + kept.len()) =~= before.subrange(
            p + 1,
            p + 1 + kept.len(),
        ));
        assert(wrapper_at(after, p, fields[i], i as nat));
    } else {
        let p = l1.len() as int + 2;
        assert(l2[p] == wrapper_opening((n - 1) as nat));
        assert(l3[p] == l2[p]);
        assert(after[p] == l3[p]);
        assert(after.subrange(p + 1, p + 1 + defs.len()) =~= defs);
        assert(after[p + 1 + defs.len()] == "        }"@);
        assert(wrapper_at(after, p, fields[i], i as nat));
    }
}

} // verus!
