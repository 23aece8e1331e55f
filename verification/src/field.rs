//! How one field is written in an emitted struct.

use vstd::prelude::*;
use vstd::string::StringExecFns;
use crate::error::{CodegenError, ErrorView};
use crate::ir::{FieldView, RustField, SerializerOverride, SerializerView};
use crate::naming::{escape_name, escaped};
use crate::text::{
    cat3, chars_of, push_line, spaces, spaces_string, str_eq, str_starts_with, string_of,
};

verus! {

/// What stands between the first four characters of `s` and its last one: the
/// element type, where `s` is written as `Vec<..>`.
pub open spec fn vec_item(s: Seq<char>) -> Seq<char> {
    if s.len() >= 5 {
        s.subrange(4, s.len() - 1)
    } else {
        Seq::empty()
    }
}

/// The adapter as it is named in a borrowed struct: a `Vec<..>` adapter
/// becomes a slice adapter.
pub open spec fn adapter_text(adapter: Seq<char>, is_ref: bool) -> Seq<char> {
    if is_ref && "Vec<"@.is_prefix_of(adapter) {
        "["@ + vec_item(adapter) + "]"@
    } else {
        adapter
    }
}

/// The type of a field as it is written in a struct: borrowed in a borrowed
/// struct, behind `Arc` where the field is shared, plain otherwise.
pub open spec fn field_type_text(f: FieldView, is_ref: bool, no_arc_wrapping: bool) -> Seq<char> {
    if is_ref {
        if f.type_text == "String"@ {
            "&'a str"@
        } else if "Vec<"@.is_prefix_of(f.type_text) {
            "&'a ["@ + vec_item(f.type_text) + "]"@
        } else {
            "&'a "@ + f.type_text
        }
    } else if f.arc_wrap && !no_arc_wrapping {
        "Arc<"@ + f.type_text + ">"@
    } else {
        f.type_text
    }
}

/// The attribute lines of a field, behind `pad`.
pub open spec fn field_attr_lines(f: FieldView, pad: Seq<char>, is_ref: bool) -> Seq<Seq<char>> {
    let l0 = Seq::<Seq<char>>::empty();
    let l1 = if f.optional {
        l0.push(pad + "#[serde(skip_serializing_if = \"Option::is_none\")]"@)
    } else {
        l0
    };
    let l2 = match f.serde_rename {
        Some(rename) => l1.push(pad + "#[serde(rename = \""@ + rename + "\")]"@),
        None => l1,
    };
    let l3 = if f.serde_flatten {
        l2.push(pad + "#[serde(flatten)]"@)
    } else {
        l2
    };
    match f.serializer {
        Some(SerializerView::Serde(module)) => l3.push(
            pad + "#[serde(with = \""@ + module + "\")]"@,
        ),
        Some(SerializerView::SerdeAs(adapter)) => l3.push(
            pad + "#[serde_as(as = \""@ + adapter_text(adapter, is_ref) + "\")]"@,
        ),
        None => l3,
    }
}

/// The lines that declare a field: its attributes, where `serde_attrs` asks
/// for them, then the field itself.
pub open spec fn field_def_lines(
    f: FieldView,
    indent: nat,
    serde_attrs: bool,
    is_ref: bool,
    no_arc_wrapping: bool,
) -> Seq<Seq<char>> {
    let pad = spaces(indent);
    let attrs = if serde_attrs {
        field_attr_lines(f, pad, is_ref)
    } else {
        Seq::empty()
    };
    attrs.push(
        pad + "pub "@ + escaped(f.name) + ": "@ + field_type_text(f, is_ref, no_arc_wrapping)
            + ","@,
    )
}

/// The optional form of a codec: a `serde_as` adapter is wrapped in `Option`;
/// a `serde(with)` module has no optional form.
pub open spec fn optional_serializer(s: SerializerView) -> Result<SerializerView, ErrorView> {
    match s {
        SerializerView::Serde(_) => Err(ErrorView::OptionalSerdeWith),
        SerializerView::SerdeAs(adapter) => Ok(
            SerializerView::SerdeAs("Option<"@ + adapter + ">"@),
        ),
    }
}

fn vec_item_of(s: &str) -> (r: String)
    ensures
        r@ == vec_item(s@),
{
    let x = chars_of(s);
    let mut out: Vec<char> = Vec::new();
    if x.len() >= 5 {
        let mut i: usize = 4;
        while i < x.len() - 1
            invariant
                4 <= i <= x.len() - 1,
                x@ == s@,
                out@ == x@.subrange(4, i as int),
            decreases x.len() - i,
        {
            out.push(x[i]);
            assert(x@.subrange(4, i as int).push(x@[i as int]) =~= x@.subrange(4, i + 1));
            i = i + 1;
        }
    }
    string_of(&out)
}

fn adapter_text_of(adapter: &str, is_ref: bool) -> (r: String)
    ensures
        r@ == adapter_text(adapter@, is_ref),
{
    if is_ref && str_starts_with(adapter, "Vec<") {
        let item = vec_item_of(adapter);
        cat3("[", item.as_str(), "]")
    } else {
        String::from_str(adapter)
    }
}

impl SerializerOverride {
    /// The optional form of this codec.
    pub fn to_optional(&self) -> (r: Result<SerializerOverride, CodegenError>)
        ensures
            crate::error::result_view(r) == optional_serializer(self.deep_view()),
    {
        match self {
            SerializerOverride::Serde(_) => Err(CodegenError::OptionalSerdeWith),
            SerializerOverride::SerdeAs(adapter) => Ok(
                SerializerOverride::SerdeAs(cat3("Option<", adapter.as_str(), ">")),
            ),
        }
    }

    /// A copy of this codec.
    pub fn duplicate(&self) -> (r: SerializerOverride)
        ensures
            r.deep_view() == self.deep_view(),
    {
        match self {
            SerializerOverride::Serde(module) => SerializerOverride::Serde(module.clone()),
            SerializerOverride::SerdeAs(adapter) => SerializerOverride::SerdeAs(adapter.clone()),
        }
    }
}

impl RustField {
    fn type_text_of(&self, is_ref: bool, no_arc_wrapping: bool) -> (r: String)
        ensures
            r@ == field_type_text(self.deep_view(), is_ref, no_arc_wrapping),
    {
        let ty = self.type_text.as_str();
        if is_ref {
            if str_eq(ty, "String") {
                String::from_str("&'a str")
            } else if str_starts_with(ty, "Vec<") {
                let item = vec_item_of(ty);
                cat3("&'a [", item.as_str(), "]")
            } else {
                crate::text::cat("&'a ", ty)
            }
        } else if self.arc_wrap && !no_arc_wrapping {
            cat3("Arc<", ty, ">")
        } else {
            String::from_str(ty)
        }
    }

    fn attr_lines(&self, pad: &str, is_ref: bool) -> (lines: Vec<String>)
        ensures
            lines.deep_view() == field_attr_lines(self.deep_view(), pad@, is_ref),
    {
        let mut lines: Vec<String> = Vec::new();
        assert(lines.deep_view() =~= Seq::<Seq<char>>::empty());
        if self.optional {
            push_line(
                &mut lines,
                crate::text::cat(pad, "#[serde(skip_serializing_if = \"Option::is_none\")]"),
            );
        }
        match &self.serde_rename {
            Some(rename) => {
                let mut line = cat3(pad, "#[serde(rename = \"", rename.as_str());
                line.append("\")]");
                push_line(&mut lines, line);
            },
            None => {},
        }
        if self.serde_flatten {
            push_line(&mut lines, crate::text::cat(pad, "#[serde(flatten)]"));
        }
        match &self.serializer {
            Some(SerializerOverride::Serde(module)) => {
                let mut line = cat3(pad, "#[serde(with = \"", module.as_str());
                line.append("\")]");
                push_line(&mut lines, line);
            },
            Some(SerializerOverride::SerdeAs(adapter)) => {
                let shown = adapter_text_of(adapter.as_str(), is_ref);
                let mut line = cat3(pad, "#[serde_as(as = \"", shown.as_str());
                line.append("\")]");
                push_line(&mut lines, line);
            },
            None => {},
        }
        lines
    }

    /// The lines that declare this field in a struct, indented by
    /// `leading_spaces`. With `serde_attrs` the field's attributes come first;
    /// with `is_ref` the field borrows its value; `no_arc_wrapping` leaves a
    /// shared field unwrapped.
    pub fn def_lines(
        &self,
        leading_spaces: usize,
        serde_attrs: bool,
        is_ref: bool,
        no_arc_wrapping: bool,
    ) -> (lines: Vec<String>)
        ensures
            lines.deep_view() == field_def_lines(
                self.deep_view(),
                leading_spaces as nat,
                serde_attrs,
                is_ref,
                no_arc_wrapping,
            ),
    {
        let pad = spaces_string(leading_spaces);
        let mut lines: Vec<String> = if serde_attrs {
            self.attr_lines(pad.as_str(), is_ref)
        } else {
            Vec::new()
        };
        assert(!serde_attrs ==> lines.deep_view() =~= Seq::<Seq<char>>::empty());
        let shown = self.type_text_of(is_ref, no_arc_wrapping);
        let mut line = cat3(pad.as_str(), "pub ", escape_name(self.name.as_str()));
        line.append(": ");
        line.append(shown.as_str());
        line.append(",");
        push_line(&mut lines, line);
        lines
    }
}

} // verus!
