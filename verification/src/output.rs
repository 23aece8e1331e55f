//! The whole of what a run writes, as lines of text: a header that names the
//! tool and lists what was left out, the imports that the emitted code needs,
//! every type where it is defined and, at the end, the codec logic of the
//! types that need their own.

use vstd::prelude::*;
use vstd::string::StringExecFns;
use crate::codec::type_serde_lines;
use crate::error::{result_view, CodegenError, ErrorView};
use crate::ir::{kind_needs_custom_serde, RustType, TypeResolutionResult, TypeView};
use crate::options::SpecVersion;
use crate::render::type_lines;
use crate::text::{cat, cat3, push_empty, push_line, push_lines, push_text};

verus! {

/// `acc` followed by one list entry for each of the first `n` names.
pub open spec fn name_rows(acc: Seq<Seq<char>>, names: Seq<Seq<char>>, n: nat) -> Seq<Seq<char>>
    decreases n,
{
    if n == 0 {
        acc
    } else {
        name_rows(acc, names, (n - 1) as nat).push("// - `"@ + names[n - 1] + "`"@)
    }
}

/// `acc` followed by a titled list of names and an empty line, or `acc` alone
/// where there is no name to list.
pub open spec fn name_list(acc: Seq<Seq<char>>, title: Seq<char>, names: Seq<Seq<char>>) -> Seq<
    Seq<char>,
> {
    if names.len() == 0 {
        acc
    } else {
        name_rows(acc.push(title), names, names.len()).push(Seq::empty())
    }
}

/// The line that names the revision of the tool.
pub open spec fn revision_line(tool: Seq<char>, revision: Option<Seq<char>>) -> Seq<char> {
    match revision {
        Some(hash) => "//     "@ + tool + "#"@ + hash,
        None => "    <Unable to determine Git commit hash>"@,
    }
}

/// The header: where the tool is found, the revision it was built from where
/// that is known, and the types that were asked to be ignored.
pub open spec fn header_lines(tool: Seq<char>, revision: Option<Seq<char>>, ignored: Seq<Seq<char>>) -> Seq<
    Seq<char>,
> {
    let l0 = seq![
        "// AUTO-GENERATED CODE. DO NOT EDIT"@,
        "// To change the code generated, modify the codegen tool instead:"@,
        "//     "@ + tool,
        Seq::empty(),
        "// Code generated with version:"@,
        revision_line(tool, revision),
        Seq::empty(),
    ];
    name_list(
        l0,
        "// These types are ignored from code generation. Implement them manually:"@,
        ignored,
    )
}

/// `acc` followed by the imports of the emitted code, which differ between
/// the first version and the later ones.
pub open spec fn import_lines(acc: Seq<Seq<char>>, version: SpecVersion) -> Seq<Seq<char>> {
    let l0 = acc.push("use serde::{Deserialize, Deserializer, Serialize, Serializer};"@).push(
        "use serde_with::serde_as;"@,
    );
    let l1 = if version == SpecVersion::V0_1_0 {
        l0.push("use starknet_core::{"@).push(
            "    serde::{byte_array::base64, unsigned_field_element::UfeHex},"@,
        ).push("    types::FieldElement,"@).push("};"@)
    } else {
        l0.push(Seq::empty()).push("use crate::{"@).push(
            "    serde::{byte_array::base64, unsigned_field_element::UfeHex},"@,
        ).push("    types::FieldElement,"@).push("    stdlib::sync::Arc,"@).push(
            "    stdlib::Error,"@,
        ).push("};"@)
    };
    let l2 = l1.push(Seq::empty());
    let l3 = if version == SpecVersion::V0_1_0 {
        l2.push("pub use starknet_core::types::L1Address as EthAddress;"@).push(Seq::empty())
    } else {
        l2
    };
    l3.push("use super::{serde_impls::NumAsHex, *};"@).push(Seq::empty())
}

/// `acc` followed by the definitions of the first `n` types, each closed by
/// an empty line.
pub open spec fn definition_rows(acc: Seq<Seq<char>>, types: Seq<TypeView>, n: nat) -> Seq<
    Seq<char>,
>
    decreases n,
{
    if n == 0 {
        acc
    } else {
        (definition_rows(acc, types, (n - 1) as nat) + type_lines(types[n - 1])).push(
            Seq::empty(),
        )
    }
}

/// `acc` followed by the codec logic of those types, from position `i` on,
/// that need their own, with an empty line between one block and the next.
/// `blocks` says whether a block was written before.
pub open spec fn codec_rows(acc: Seq<Seq<char>>, types: Seq<TypeView>, i: nat, blocks: bool) -> Result<
    (Seq<Seq<char>>, bool),
    ErrorView,
>
    decreases types.len() - i,
{
    if i >= types.len() {
        Ok((acc, blocks))
    } else if kind_needs_custom_serde(types[i as int].content) {
        match type_serde_lines(types[i as int]) {
            Ok(lines) => {
                let separated = if blocks {
                    acc.push(Seq::empty())
                } else {
                    acc
                };
                codec_rows(separated + lines, types, i + 1, true)
            },
            Err(e) => Err(e),
        }
    } else {
        codec_rows(acc, types, i + 1, blocks)
    }
}

/// Everything that a run writes for the given resolution.
pub open spec fn document_lines(
    version: SpecVersion,
    tool: Seq<char>,
    revision: Option<Seq<char>>,
    ignored: Seq<Seq<char>>,
    models: Seq<TypeView>,
    requests: Seq<TypeView>,
    missing: Seq<Seq<char>>,
) -> Result<Seq<Seq<char>>, ErrorView> {
    let l0 = header_lines(tool, revision, ignored);
    let l1 = name_list(
        l0,
        "// Code generation requested but not implemented for these types:"@,
        missing,
    );
    let l2 = import_lines(l1, version);
    let l3 = definition_rows(l2, models, models.len());
    let l4 = definition_rows(l3, requests, requests.len());
    match codec_rows(l4, models, 0, false) {
        Ok((l5, blocks)) => match codec_rows(l5, requests, 0, blocks) {
            Ok((l6, _)) => Ok(l6),
            Err(e) => Err(e),
        },
        Err(e) => Err(e),
    }
}

fn push_name_list(lines: &mut Vec<String>, title: &str, names: &Vec<String>)
    ensures
        final(lines).deep_view() == name_list(old(lines).deep_view(), title@, names.deep_view()),
{
    if names.len() > 0 {
        push_text(lines, title);
        let ghost head = lines.deep_view();
        let mut i: usize = 0;
        while i < names.len()
            invariant
                i <= names.len(),
                lines.deep_view() == name_rows(head, names.deep_view(), i as nat),
            decreases names.len() - i,
        {
            assert(names[i as int]@ == names.deep_view()[i as int]);
            push_line(lines, cat3("// - `", names[i].as_str(), "`"));
            i = i + 1;
        }
        push_empty(lines);
    }
}

/// The header of the output.
pub fn render_header(tool: &str, revision: Option<&str>, ignore_types: &Vec<String>) -> (lines:
    Vec<String>)
    ensures
        lines.deep_view() == header_lines(
            tool@,
            match revision {
                Some(hash) => Some(hash@),
                None => None,
            },
            ignore_types.deep_view(),
        ),
{
    let mut lines: Vec<String> = Vec::new();
    push_text(&mut lines, "// AUTO-GENERATED CODE. DO NOT EDIT");
    push_text(&mut lines, "// To change the code generated, modify the codegen tool instead:");
    push_line(&mut lines, cat("//     ", tool));
    push_empty(&mut lines);
    push_text(&mut lines, "// Code generated with version:");
    let version_line = match revision {
        Some(hash) => {
            let mut line = cat3("//     ", tool, "#");
            line.append(hash);
            line
        },
        None => String::from_str("    <Unable to determine Git commit hash>"),
    };
    let ghost shown = match revision {
        Some(hash) => Some(hash@),
        None => None,
    };
    assert(version_line@ == revision_line(tool@, shown));
    push_line(&mut lines, version_line);
    push_empty(&mut lines);
    assert(lines.deep_view() =~= seq![
        "// AUTO-GENERATED CODE. DO NOT EDIT"@,
        "// To change the code generated, modify the codegen tool instead:"@,
        "//     "@ + tool@,
        Seq::empty(),
        "// Code generated with version:"@,
        version_line@,
        Seq::empty(),
    ]);
    push_name_list(
        &mut lines,
        "// These types are ignored from code generation. Implement them manually:",
        ignore_types,
    );
    lines
}

fn push_imports(lines: &mut Vec<String>, version: SpecVersion)
    ensures
        final(lines).deep_view() == import_lines(old(lines).deep_view(), version),
{
    push_text(lines, "use serde::{Deserialize, Deserializer, Serialize, Serializer};");
    push_text(lines, "use serde_with::serde_as;");
    let first = match version {
        SpecVersion::V0_1_0 => true,
        _ => false,
    };
    if first {
        push_text(lines, "use starknet_core::{");
        push_text(lines, "    serde::{byte_array::base64, unsigned_field_element::UfeHex},");
        push_text(lines, "    types::FieldElement,");
        push_text(lines, "};");
    } else {
        push_empty(lines);
        push_text(lines, "use crate::{");
        push_text(lines, "    serde::{byte_array::base64, unsigned_field_element::UfeHex},");
        push_text(lines, "    types::FieldElement,");
        push_text(lines, "    stdlib::sync::Arc,");
        push_text(lines, "    stdlib::Error,");
        push_text(lines, "};");
    }
    push_empty(lines);
    if first {
        push_text(lines, "pub use starknet_core::types::L1Address as EthAddress;");
        push_empty(lines);
    }
    push_text(lines, "use super::{serde_impls::NumAsHex, *};");
    push_empty(lines);
}

fn push_definitions(lines: &mut Vec<String>, types: &Vec<RustType>)
    ensures
        final(lines).deep_view() == definition_rows(
            old(lines).deep_view(),
            types.deep_view(),
            types.len() as nat,
        ),
{
    let ghost head = lines.deep_view();
    let mut i: usize = 0;
    while i < types.len()
        invariant
            i <= types.len(),
            lines.deep_view() == definition_rows(head, types.deep_view(), i as nat),
        decreases types.len() - i,
    {
        assert(types[i as int].deep_view() == types.deep_view()[i as int]);
        push_lines(lines, types[i].render_stdout());
        push_empty(lines);
        i = i + 1;
    }
}

fn push_codecs(lines: Vec<String>, types: &Vec<RustType>, blocks: bool) -> (r: Result<
    (Vec<String>, bool),
    CodegenError,
>)
    ensures
        match r {
            Ok((out, any)) => codec_rows(lines.deep_view(), types.deep_view(), 0, blocks) == Ok::<
                (Seq<Seq<char>>, bool),
                ErrorView,
            >((out.deep_view(), any)),
            Err(e) => codec_rows(lines.deep_view(), types.deep_view(), 0, blocks) == Err::<
                (Seq<Seq<char>>, bool),
                ErrorView,
            >(e.deep_view()),
        },
{
    let ghost head = lines.deep_view();
    let ghost all = types.deep_view();
    let mut out = lines;
    let mut any = blocks;
    let mut i: usize = 0;
    while i < types.len()
        invariant
            i <= types.len(),
            all == types.deep_view(),
            head == lines.deep_view(),
            codec_rows(head, all, 0, blocks) == codec_rows(out.deep_view(), all, i as nat, any),
        decreases types.len() - i,
    {
        let item = &types[i];
        assert(item.deep_view() == all[i as int]);
        if item.need_custom_serde() {
            let block = match item.render_serde_stdout() {
                Ok(block) => block,
                Err(e) => {
                    return Err(e);
                },
            };
            if any {
                push_empty(&mut out);
            }
            push_lines(&mut out, block);
            any = true;
        }
        i = i + 1;
    }
    Ok((out, any))
}

/// Everything that a run writes: the header, the list of what is not
/// implemented, the imports, every type where it is defined, then the codec
/// logic of the types that need their own. The call fails where a type that
/// asks for codec logic of its own cannot have any.
pub fn render_document(
    version: SpecVersion,
    tool: &str,
    revision: Option<&str>,
    ignore_types: &Vec<String>,
    result: &TypeResolutionResult,
) -> (r: Result<Vec<String>, CodegenError>)
    ensures
        result_view(r) == document_lines(
            version,
            tool@,
            match revision {
                Some(hash) => Some(hash@),
                None => None,
            },
            ignore_types.deep_view(),
            result.deep_view().model_types,
            result.deep_view().request_response_types,
            result.deep_view().not_implemented,
        ),
{
    let mut lines = render_header(tool, revision, ignore_types);
    push_name_list(
        &mut lines,
        "// Code generation requested but not implemented for these types:",
        &result.not_implemented,
    );
    push_imports(&mut lines, version);
    push_definitions(&mut lines, &result.model_types);
    push_definitions(&mut lines, &result.request_response_types);
    let (lines, blocks) = match push_codecs(lines, &result.model_types, false) {
        Ok(pair) => pair,
        Err(e) => {
            return Err(e);
        },
    };
    match push_codecs(lines, &result.request_response_types, blocks) {
        Ok((lines, _)) => Ok(lines),
        Err(e) => Err(e),
    }
}

} // verus!
