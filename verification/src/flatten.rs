//! Which named schemas exist only to be merged into the types that name them.
//!
//! A schema is flatten-only when some `allOf` composition names it as a
//! fragment that the policy merges, and nothing names it in any other place:
//! no property, no array item, no `oneOf` variant, no fragment that the policy
//! keeps as a nested value. Two names are never flatten-only, because methods,
//! which this scan does not read, use them as types.

use vstd::prelude::*;
use crate::options::{contains_name, should_flatten, FlattenOption, FlattenView};
use crate::schema::{
    schema_at, schema_count, schema_entries, Primitive, Property, Schema, Specification,
};
use crate::text::str_eq;

verus! {

/// The names met so far: those named as merged fragments, and those named
/// anywhere else.
pub struct Marks {
    pub flatten: Set<Seq<char>>,
    pub other: Set<Seq<char>>,
}

/// No names.
pub open spec fn no_marks() -> Marks {
    Marks { flatten: Set::empty(), other: Set::empty() }
}

/// The marks after a schema that stands as a `oneOf` variant, a property or an
/// array item: a reference is named outside a merge; anything else is visited.
pub open spec fn visited_nested(s: Schema, option: FlattenView, acc: Marks) -> Marks
    decreases s, 1nat,
{
    match s {
        Schema::Ref(r) => Marks { flatten: acc.flatten, other: acc.other.insert(r.name@) },
        _ => visited(s, option, acc),
    }
}

/// The marks after a schema that stands as an `allOf` fragment: a reference is
/// named as a merged fragment where the policy merges it, and outside a merge
/// where it does not; anything else is visited.
pub open spec fn visited_fragment(s: Schema, option: FlattenView, acc: Marks) -> Marks
    decreases s, 1nat,
{
    match s {
        Schema::Ref(r) => if should_flatten(option, r.name@) {
            Marks { flatten: acc.flatten.insert(r.name@), other: acc.other }
        } else {
            Marks { flatten: acc.flatten, other: acc.other.insert(r.name@) }
        },
        _ => visited(s, option, acc),
    }
}

/// The marks after the first `n` of the variants of a `oneOf`.
pub open spec fn visited_variants(items: Seq<Schema>, n: nat, option: FlattenView, acc: Marks) -> Marks
    decreases items, n,
{
    if n == 0 || n > items.len() {
        acc
    } else {
        visited_nested(items[n - 1], option, visited_variants(items, (n - 1) as nat, option, acc))
    }
}

/// The marks after the first `n` of the fragments of an `allOf`.
pub open spec fn visited_fragments(items: Seq<Schema>, n: nat, option: FlattenView, acc: Marks) -> Marks
    decreases items, n,
{
    if n == 0 || n > items.len() {
        acc
    } else {
        visited_fragment(
            items[n - 1],
            option,
            visited_fragments(items, (n - 1) as nat, option, acc),
        )
    }
}

/// The marks after the first `n` of the properties of an object.
pub open spec fn visited_properties(
    items: Seq<Property>,
    n: nat,
    option: FlattenView,
    acc: Marks,
) -> Marks
    decreases items, n,
{
    if n == 0 || n > items.len() {
        acc
    } else {
        visited_nested(
            items[n - 1].schema,
            option,
            visited_properties(items, (n - 1) as nat, option, acc),
        )
    }
}

/// The marks after everything below a schema. The schema itself is not named
/// by being visited.
pub open spec fn visited(s: Schema, option: FlattenView, acc: Marks) -> Marks
    decreases s, 0nat,
{
    match s {
        Schema::OneOf(o) => visited_variants(o.one_of@, o.one_of@.len(), option, acc),
        Schema::AllOf(a) => visited_fragments(a.all_of@, a.all_of@.len(), option, acc),
        Schema::Primitive(Primitive::Object(o)) => visited_properties(
            o.properties@,
            o.properties@.len(),
            option,
            acc,
        ),
        Schema::Primitive(Primitive::Array(a)) => visited_nested(*a.items, option, acc),
        _ => acc,
    }
}

/// The marks after the first `n` named schemas of a document.
pub open spec fn visited_document(
    entries: Seq<(Seq<char>, Schema)>,
    n: nat,
    option: FlattenView,
) -> Marks
    decreases n,
{
    if n == 0 {
        no_marks()
    } else {
        visited(entries[n - 1].1, option, visited_document(entries, (n - 1) as nat, option))
    }
}

/// The names that are never flatten-only.
pub open spec fn never_flatten_only(name: Seq<char>) -> bool {
    name == "FUNCTION_CALL"@ || name == "PENDING_STATE_UPDATE"@
}

/// The flatten-only names of a document.
pub open spec fn flatten_only(entries: Seq<(Seq<char>, Schema)>, option: FlattenView) -> Set<
    Seq<char>,
> {
    let marks = visited_document(entries, entries.len(), option);
    Set::new(
        |name: Seq<char>|
            marks.flatten.contains(name) && !marks.other.contains(name) && !never_flatten_only(
                name,
            ),
    )
}

/// The names that a list holds.
pub open spec fn name_set(names: Seq<Seq<char>>) -> Set<Seq<char>> {
    Set::new(|name: Seq<char>| names.contains(name))
}

/// The marks that two lists of names stand for.
pub open spec fn marks_of(flatten: Seq<Seq<char>>, other: Seq<Seq<char>>) -> Marks {
    Marks { flatten: name_set(flatten), other: name_set(other) }
}

/// Adds `name` to a list of names that holds no name twice, unless it is there.
pub fn insert_name(names: &mut Vec<String>, name: &str)
    requires
        old(names).deep_view().no_duplicates(),
    ensures
        final(names).deep_view().no_duplicates(),
        name_set(final(names).deep_view()) == name_set(old(names).deep_view()).insert(name@),
{
    if !contains_name(names, name) {
        let ghost before = names.deep_view();
        names.push(name.to_owned());
        assert(names.deep_view() =~= before.push(name@));
        assert forall|n: Seq<char>| #[trigger]
            name_set(names.deep_view()).contains(n) == name_set(before).insert(name@).contains(
                n,
            ) by {
            if before.contains(n) {
                let i = choose|i: int| 0 <= i < before.len() && before[i] == n;
                assert(names.deep_view()[i] == n);
            }
            if n == name@ {
                assert(names.deep_view()[before.len() as int] == n);
            }
        }
        assert(name_set(names.deep_view()) =~= name_set(before).insert(name@));
    } else {
        assert(name_set(names.deep_view()) =~= name_set(names.deep_view()).insert(name@));
    }
}

fn visit_nested(
    schema: &Schema,
    flatten_option: &FlattenOption,
    flatten_fields: &mut Vec<String>,
    non_flatten_fields: &mut Vec<String>,
)
    requires
        old(flatten_fields).deep_view().no_duplicates(),
        old(non_flatten_fields).deep_view().no_duplicates(),
    ensures
        final(flatten_fields).deep_view().no_duplicates(),
        final(non_flatten_fields).deep_view().no_duplicates(),
        marks_of(final(flatten_fields).deep_view(), final(non_flatten_fields).deep_view())
            == visited_nested(
            *schema,
            flatten_option.deep_view(),
            marks_of(old(flatten_fields).deep_view(), old(non_flatten_fields).deep_view()),
        ),
    decreases schema, 1nat,
{
    match schema {
        Schema::Ref(reference) => {
            insert_name(non_flatten_fields, reference.name.as_str());
        },
        _ => {
            visit_schema_for_flatten_only(
                schema,
                flatten_option,
                flatten_fields,
                non_flatten_fields,
            );
        },
    }
}

fn visit_fragment(
    schema: &Schema,
    flatten_option: &FlattenOption,
    flatten_fields: &mut Vec<String>,
    non_flatten_fields: &mut Vec<String>,
)
    requires
        old(flatten_fields).deep_view().no_duplicates(),
        old(non_flatten_fields).deep_view().no_duplicates(),
    ensures
        final(flatten_fields).deep_view().no_duplicates(),
        final(non_flatten_fields).deep_view().no_duplicates(),
        marks_of(final(flatten_fields).deep_view(), final(non_flatten_fields).deep_view())
            == visited_fragment(
            *schema,
            flatten_option.deep_view(),
            marks_of(old(flatten_fields).deep_view(), old(non_flatten_fields).deep_view()),
        ),
    decreases schema, 1nat,
{
    match schema {
        Schema::Ref(reference) => {
            if flatten_option.should_flatten(reference.name.as_str()) {
                insert_name(flatten_fields, reference.name.as_str());
            } else {
                insert_name(non_flatten_fields, reference.name.as_str());
            }
        },
        _ => {
            visit_schema_for_flatten_only(
                schema,
                flatten_option,
                flatten_fields,
                non_flatten_fields,
            );
        },
    }
}

/// Records the names that stand below `schema`: in `flatten_fields` those
/// named as fragments that the policy merges, in `non_flatten_fields` those
/// named anywhere else. Neither list comes to hold a name twice.
pub fn visit_schema_for_flatten_only(
    schema: &Schema,
    flatten_option: &FlattenOption,
    flatten_fields: &mut Vec<String>,
    non_flatten_fields: &mut Vec<String>,
)
    requires
        old(flatten_fields).deep_view().no_duplicates(),
        old(non_flatten_fields).deep_view().no_duplicates(),
    ensures
        final(flatten_fields).deep_view().no_duplicates(),
        final(non_flatten_fields).deep_view().no_duplicates(),
        marks_of(final(flatten_fields).deep_view(), final(non_flatten_fields).deep_view())
            == visited(
            *schema,
            flatten_option.deep_view(),
            marks_of(old(flatten_fields).deep_view(), old(non_flatten_fields).deep_view()),
        ),
    decreases schema, 0nat,
{
    let ghost start = marks_of(flatten_fields.deep_view(), non_flatten_fields.deep_view());
    let ghost option = flatten_option.deep_view();
    match schema {
        Schema::OneOf(one_of) => {
            let mut i: usize = 0;
            while i < one_of.one_of.len()
                invariant
                    i <= one_of.one_of.len(),
                    *schema == Schema::OneOf(*one_of),
                    option == flatten_option.deep_view(),
                    flatten_fields.deep_view().no_duplicates(),
                    non_flatten_fields.deep_view().no_duplicates(),
                    marks_of(flatten_fields.deep_view(), non_flatten_fields.deep_view())
                        == visited_variants(one_of.one_of@, i as nat, option, start),
                decreases one_of.one_of.len() - i,
            {
                assert(schema->OneOf_0 == *one_of);
                assert(decreases_to!(one_of.one_of => one_of.one_of[i as int]));
                visit_nested(
                    &one_of.one_of[i],
                    flatten_option,
                    flatten_fields,
                    non_flatten_fields,
                );
                i = i + 1;
            }
        },
        Schema::AllOf(all_of) => {
            let mut i: usize = 0;
            while i < all_of.all_of.len()
                invariant
                    i <= all_of.all_of.len(),
                    *schema == Schema::AllOf(*all_of),
                    option == flatten_option.deep_view(),
                    flatten_fields.deep_view().no_duplicates(),
                    non_flatten_fields.deep_view().no_duplicates(),
                    marks_of(flatten_fields.deep_view(), non_flatten_fields.deep_view())
                        == visited_fragments(all_of.all_of@, i as nat, option, start),
                decreases all_of.all_of.len() - i,
            {
                assert(schema->AllOf_0 == *all_of);
                assert(decreases_to!(all_of.all_of => all_of.all_of[i as int]));
                visit_fragment(
                    &all_of.all_of[i],
                    flatten_option,
                    flatten_fields,
                    non_flatten_fields,
                );
                i = i + 1;
            }
        },
        Schema::Primitive(Primitive::Object(object)) => {
            let mut i: usize = 0;
            while i < object.properties.len()
                invariant
                    i <= object.properties.len(),
                    *schema == Schema::Primitive(Primitive::Object(*object)),
                    option == flatten_option.deep_view(),
                    flatten_fields.deep_view().no_duplicates(),
                    non_flatten_fields.deep_view().no_duplicates(),
                    marks_of(flatten_fields.deep_view(), non_flatten_fields.deep_view())
                        == visited_properties(object.properties@, i as nat, option, start),
                decreases object.properties.len() - i,
            {
                assert(schema->Primitive_0->Object_0 == *object);
                assert(decreases_to!(object.properties => object.properties[i as int]));
                visit_nested(
                    &object.properties[i].schema,
                    flatten_option,
                    flatten_fields,
                    non_flatten_fields,
                );
                i = i + 1;
            }
        },
        Schema::Primitive(Primitive::Array(array)) => {
            visit_nested(&array.items, flatten_option, flatten_fields, non_flatten_fields);
        },
        _ => {},
    }
}

/// The flatten-only names of a document, each once.
pub fn get_flatten_only_schemas(specs: &Specification, flatten_option: &FlattenOption) -> (r: Vec<
    String,
>)
    ensures
        r.deep_view().no_duplicates(),
        name_set(r.deep_view()) == flatten_only(
            schema_entries(specs.components.schemas),
            flatten_option.deep_view(),
        ),
{
    let ghost entries = schema_entries(specs.components.schemas);
    let ghost option = flatten_option.deep_view();
    let mut flatten_fields: Vec<String> = Vec::new();
    let mut non_flatten_fields: Vec<String> = Vec::new();
    let count = schema_count(&specs.components.schemas);
    let mut i: usize = 0;
    assert(name_set(flatten_fields.deep_view()) =~= Set::<Seq<char>>::empty());
    assert(name_set(non_flatten_fields.deep_view()) =~= Set::<Seq<char>>::empty());
    while i < count
        invariant
            i <= count,
            count == entries.len(),
            entries == schema_entries(specs.components.schemas),
            option == flatten_option.deep_view(),
            flatten_fields.deep_view().no_duplicates(),
            non_flatten_fields.deep_view().no_duplicates(),
            marks_of(flatten_fields.deep_view(), non_flatten_fields.deep_view())
                == visited_document(entries, i as nat, option),
        decreases count - i,
    {
        match schema_at(&specs.components.schemas, i) {
            Some((_, schema)) => {
                visit_schema_for_flatten_only(
                    schema,
                    flatten_option,
                    &mut flatten_fields,
                    &mut non_flatten_fields,
                );
            },
            None => {},
        }
        i = i + 1;
    }
    let ghost marks = visited_document(entries, entries.len(), option);
    let mut out: Vec<String> = Vec::new();
    let mut j: usize = 0;
    while j < flatten_fields.len()
        invariant
            j <= flatten_fields.len(),
            flatten_fields.deep_view().no_duplicates(),
            marks == marks_of(flatten_fields.deep_view(), non_flatten_fields.deep_view()),
            out.deep_view().no_duplicates(),
            forall|n: Seq<char>| #[trigger]
                out.deep_view().contains(n) <==> (exists|k: int|
                    0 <= k < j && flatten_fields.deep_view()[k] == n) && !marks.other.contains(n)
                    && !never_flatten_only(n),
        decreases flatten_fields.len() - j,
    {
        let name = flatten_fields[j].as_str();
        let ghost before = out.deep_view();
        assert(name@ == flatten_fields.deep_view()[j as int]);
        let excluded = contains_name(&non_flatten_fields, name) || str_eq(name, "FUNCTION_CALL")
            || str_eq(name, "PENDING_STATE_UPDATE");
        if !excluded {
            out.push(name.to_owned());
            assert(out.deep_view() =~= before.push(name@));
            assert(!before.contains(name@));
            assert forall|n: Seq<char>| #[trigger]
                out.deep_view().contains(n) <==> (exists|k: int|
                    0 <= k < j + 1 && flatten_fields.deep_view()[k] == n) && !marks.other.contains(
                    n,
                ) && !never_flatten_only(n) by {
                if before.contains(n) {
                    let i = choose|i: int| 0 <= i < before.len() && before[i] == n;
                    assert(out.deep_view()[i] == n);
                }
                if n == name@ {
                    assert(out.deep_view()[before.len() as int] == n);
                    assert(flatten_fields.deep_view()[j as int] == n);
                }
            }
        } else {
            assert forall|n: Seq<char>| #[trigger]
                out.deep_view().contains(n) <==> (exists|k: int|
                    0 <= k < j + 1 && flatten_fields.deep_view()[k] == n) && !marks.other.contains(
                    n,
                ) && !never_flatten_only(n) by {
                if n == name@ {
                    assert(non_flatten_fields.deep_view().contains(n) == marks.other.contains(n));
                }
            }
        }
        j = j + 1;
    }
    assert(name_set(out.deep_view()) =~= flatten_only(entries, option)) by {
        assert forall|n: Seq<char>|
            name_set(out.deep_view()).contains(n) == flatten_only(entries, option).contains(
                n,
            ) by {
            if marks.flatten.contains(n) {
                let k = choose|k: int|
                    0 <= k < flatten_fields.deep_view().len() && flatten_fields.deep_view()[k]
                        == n;
                assert(0 <= k < j && flatten_fields.deep_view()[k] == n);
            }
        }
    }
    out
}

/// Whether every name of `a` is a name of `b`, in both lists.
pub open spec fn marks_within(a: Marks, b: Marks) -> bool {
    a.flatten.subset_of(b.flatten) && a.other.subset_of(b.other)
}

/// Visiting only adds names.
pub proof fn lemma_nested_grows(s: Schema, option: FlattenView, acc: Marks)
    ensures
        marks_within(acc, visited_nested(s, option, acc)),
    decreases s, 1nat,
{
    match s {
        Schema::Ref(_) => {},
        _ => {
            lemma_visited_grows(s, option, acc);
        },
    }
}

/// Visiting only adds names.
pub proof fn lemma_fragment_grows(s: Schema, option: FlattenView, acc: Marks)
    ensures
        marks_within(acc, visited_fragment(s, option, acc)),
    decreases s, 1nat,
{
    match s {
        Schema::Ref(_) => {},
        _ => {
            lemma_visited_grows(s, option, acc);
        },
    }
}

/// Visiting only adds names.
pub proof fn lemma_variants_grow(items: Seq<Schema>, n: nat, option: FlattenView, acc: Marks)
    ensures
        marks_within(acc, visited_variants(items, n, option, acc)),
    decreases items, n,
{
    if !(n == 0 || n > items.len()) {
        lemma_variants_grow(items, (n - 1) as nat, option, acc);
        lemma_nested_grows(
            items[n - 1],
            option,
            visited_variants(items, (n - 1) as nat, option, acc),
        );
    }
}

/// Visiting only adds names.
pub proof fn lemma_fragments_grow(items: Seq<Schema>, n: nat, option: FlattenView, acc: Marks)
    ensures
        marks_within(acc, visited_fragments(items, n, option, acc)),
    decreases items, n,
{
    if !(n == 0 || n > items.len()) {
        lemma_fragments_grow(items, (n - 1) as nat, option, acc);
        lemma_fragment_grows(
            items[n - 1],
            option,
            visited_fragments(items, (n - 1) as nat, option, acc),
        );
    }
}

/// Visiting only adds names.
pub proof fn lemma_properties_grow(items: Seq<Property>, n: nat, option: FlattenView, acc: Marks)
    ensures
        marks_within(acc, visited_properties(items, n, option, acc)),
    decreases items, n,
{
    if !(n == 0 || n > items.len()) {
        lemma_properties_grow(items, (n - 1) as nat, option, acc);
        lemma_nested_grows(
            items[n - 1].schema,
            option,
            visited_properties(items, (n - 1) as nat, option, acc),
        );
    }
}

/// Visiting only adds names.
pub proof fn lemma_visited_grows(s: Schema, option: FlattenView, acc: Marks)
    ensures
        marks_within(acc, visited(s, option, acc)),
    decreases s, 0nat,
{
    match s {
        Schema::OneOf(o) => {
            lemma_variants_grow(o.one_of@, o.one_of@.len(), option, acc);
        },
        Schema::AllOf(a) => {
            lemma_fragments_grow(a.all_of@, a.all_of@.len(), option, acc);
        },
        Schema::Primitive(Primitive::Object(o)) => {
            lemma_properties_grow(o.properties@, o.properties@.len(), option, acc);
        },
        Schema::Primitive(Primitive::Array(a)) => {
            lemma_nested_grows(*a.items, option, acc);
        },
        _ => {},
    }
}

/// The marks of a longer prefix of the document hold those of a shorter one.
pub proof fn lemma_document_grows(
    entries: Seq<(Seq<char>, Schema)>,
    k: nat,
    n: nat,
    option: FlattenView,
)
    requires
        k <= n,
    ensures
        marks_within(visited_document(entries, k, option), visited_document(entries, n, option)),
    decreases n - k,
{
    if k < n {
        lemma_document_grows(entries, k, (n - 1) as nat, option);
        lemma_visited_grows(
            entries[n - 1].1,
            option,
            visited_document(entries, (n - 1) as nat, option),
        );
    }
}

/// A name that a property refers to is named outside a merge.
pub proof fn lemma_property_marks_other(
    items: Seq<Property>,
    j: int,
    n: nat,
    option: FlattenView,
    acc: Marks,
    name: Seq<char>,
)
    requires
        0 <= j < n <= items.len(),
        items[j].schema matches Schema::Ref(r) && r.name@ == name,
    ensures
        visited_properties(items, n, option, acc).other.contains(name),
    decreases n,
{
    let before = visited_properties(items, (n - 1) as nat, option, acc);
    if n - 1 > j {
        lemma_property_marks_other(items, j, (n - 1) as nat, option, acc, name);
        lemma_nested_grows(items[n - 1].schema, option, before);
        assert(before.other.subset_of(visited_nested(items[n - 1].schema, option, before).other));
    } else {
        assert(visited_properties(items, n, option, acc) == visited_nested(
            items[j].schema,
            option,
            before,
        ));
    }
}

/// A fragment that the policy merges is named as a merged fragment.
pub proof fn lemma_fragment_marks_flatten(
    items: Seq<Schema>,
    j: int,
    n: nat,
    option: FlattenView,
    acc: Marks,
    name: Seq<char>,
)
    requires
        0 <= j < n <= items.len(),
        items[j] matches Schema::Ref(r) && r.name@ == name,
        should_flatten(option, name),
    ensures
        visited_fragments(items, n, option, acc).flatten.contains(name),
    decreases n,
{
    let before = visited_fragments(items, (n - 1) as nat, option, acc);
    if n - 1 > j {
        lemma_fragment_marks_flatten(items, j, (n - 1) as nat, option, acc, name);
        lemma_fragment_grows(items[n - 1], option, before);
        assert(before.flatten.subset_of(visited_fragment(items[n - 1], option, before).flatten));
    } else {
        assert(visited_fragments(items, n, option, acc) == visited_fragment(
            items[j],
            option,
            before,
        ));
    }
}

/// A schema that a property of some object refers to is not flatten-only,
/// whatever else refers to it: it still gets a type of its own.
pub proof fn lemma_property_reference_keeps_type(
    entries: Seq<(Seq<char>, Schema)>,
    option: FlattenView,
    i: int,
    j: int,
    name: Seq<char>,
)
    requires
        0 <= i < entries.len(),
        entries[i].1 matches Schema::Primitive(Primitive::Object(o)) && 0 <= j
            < o.properties@.len() && (o.properties@[j].schema matches Schema::Ref(r) && r.name@
            == name),
    ensures
        !flatten_only(entries, option).contains(name),
{
    let before = visited_document(entries, i as nat, option);
    let o = entries[i].1->Primitive_0->Object_0;
    lemma_property_marks_other(o.properties@, j, o.properties@.len(), option, before, name);
    assert(visited_document(entries, (i + 1) as nat, option).other.contains(name));
    lemma_document_grows(entries, (i + 1) as nat, entries.len(), option);
}

/// A schema that is named as a fragment that the policy merges, and that
/// nothing names in another place, is flatten-only, unless it is one of the
/// names that are never so.
pub proof fn lemma_merged_fragment_is_flatten_only(
    entries: Seq<(Seq<char>, Schema)>,
    option: FlattenView,
    i: int,
    j: int,
    name: Seq<char>,
)
    requires
        0 <= i < entries.len(),
        entries[i].1 matches Schema::AllOf(a) && 0 <= j < a.all_of@.len() && (
        a.all_of@[j] matches Schema::Ref(r) && r.name@ == name),
        should_flatten(option, name),
        !never_flatten_only(name),
        !visited_document(entries, entries.len(), option).other.contains(name),
    ensures
        flatten_only(entries, option).contains(name),
{
    let before = visited_document(entries, i as nat, option);
    let a = entries[i].1->AllOf_0;
    lemma_fragment_marks_flatten(a.all_of@, j, a.all_of@.len(), option, before, name);
    assert(visited_document(entries, (i + 1) as nat, option).flatten.contains(name));
    lemma_document_grows(entries, (i + 1) as nat, entries.len(), option);
}

} // verus!
