//! The document that types are generated from: named schemas, named error
//! definitions and the list of methods.
//!
//! The two maps of a document keep the order in which their entries were
//! added. They are `IndexMap`s; what one holds is named by `schema_entries`
//! and `error_entries`, a list of pairs of a key and a value, and the wrappers
//! at the end of this file say what each method of the map does to that list.

use vstd::prelude::*;
use indexmap::IndexMap;

verus! {

/// `indexmap::IndexMap`: a map that keeps its entries in the order in which
/// their keys were first inserted. Nothing of its inside is known here.
#[verifier::external_type_specification]
#[verifier::external_body]
#[verifier::reject_recursive_types(K)]
#[verifier::reject_recursive_types(V)]
#[verifier::reject_recursive_types(S)]
pub struct ExIndexMap<K, V, S>(indexmap::IndexMap<K, V, S>);

/// The annotations that any schema may carry.
#[derive(Debug)]
pub struct Meta {
    pub title: Option<String>,
    pub description: Option<String>,
    pub summary: Option<String>,
}

/// A pointer to the schema that the document defines under `name`.
#[derive(Debug)]
pub struct Reference {
    pub meta: Meta,
    pub name: String,
}

/// A value that has exactly one of several shapes.
#[derive(Debug)]
pub struct OneOf {
    pub meta: Meta,
    pub one_of: Vec<Schema>,
}

/// A value that has all of several shapes at once.
#[derive(Debug)]
pub struct AllOf {
    pub meta: Meta,
    pub all_of: Vec<Schema>,
}

/// One property of an object schema.
#[derive(Debug)]
pub struct Property {
    pub name: String,
    pub schema: Schema,
}

/// An object: its properties in declaration order and, where the schema lists
/// them, the names of the properties that must be there.
#[derive(Debug)]
pub struct ObjectPrimitive {
    pub meta: Meta,
    pub properties: Vec<Property>,
    pub required: Option<Vec<String>>,
}

/// An array of items of one schema.
#[derive(Debug)]
pub struct ArrayPrimitive {
    pub meta: Meta,
    pub items: Box<Schema>,
}

/// A string, with the list of values it may take where the schema gives one.
#[derive(Debug)]
pub struct StringPrimitive {
    pub meta: Meta,
    pub enum_values: Option<Vec<String>>,
}

/// The schemas that are no reference and no composition.
#[derive(Debug)]
pub enum Primitive {
    Array(ArrayPrimitive),
    Boolean(Meta),
    Integer(Meta),
    Object(ObjectPrimitive),
    String(StringPrimitive),
}

/// A schema node.
#[derive(Debug)]
pub enum Schema {
    Ref(Reference),
    OneOf(OneOf),
    AllOf(AllOf),
    Primitive(Primitive),
}

/// A literal error definition.
#[derive(Debug)]
pub struct ErrorDefinition {
    pub code: i64,
    pub message: String,
}

/// An error definition: literal, or a pointer to another definition.
#[derive(Debug)]
pub enum ErrorType {
    Error(ErrorDefinition),
    Reference(Reference),
}

/// One parameter of a method.
#[derive(Debug)]
pub struct Param {
    pub name: String,
    pub description: Option<String>,
    pub schema: Schema,
    pub required: bool,
}

/// A method: its name, its parameters in declaration order, its result.
#[derive(Debug)]
pub struct Method {
    pub name: String,
    pub params: Vec<Param>,
    pub result: Option<Schema>,
}

/// The named parts of a document.
pub struct Components {
    pub schemas: IndexMap<String, Schema>,
    pub errors: IndexMap<String, ErrorType>,
}

/// A document.
pub struct Specification {
    pub components: Components,
    pub methods: Vec<Method>,
}

/// The entries of a schema map, in the order of the map.
pub uninterp spec fn schema_entries(m: IndexMap<String, Schema>) -> Seq<(Seq<char>, Schema)>;

/// The entries of an error map, in the order of the map.
pub uninterp spec fn error_entries(m: IndexMap<String, ErrorType>) -> Seq<(Seq<char>, ErrorType)>;

/// The position of the first of the first `n` entries that has the key `key`,
/// or `n` where there is none.
pub open spec fn key_index<V>(entries: Seq<(Seq<char>, V)>, key: Seq<char>, n: nat) -> nat
    decreases n,
{
    if n == 0 {
        0
    } else {
        let before = key_index(entries, key, (n - 1) as nat);
        if before < n - 1 {
            before
        } else if entries[n - 1].0 == key {
            (n - 1) as nat
        } else {
            n
        }
    }
}

/// The value that a list of entries holds under `key`, if any.
pub open spec fn lookup<V>(entries: Seq<(Seq<char>, V)>, key: Seq<char>) -> Option<V> {
    let i = key_index(entries, key, entries.len());
    if i < entries.len() {
        Some(entries[i as int].1)
    } else {
        None
    }
}

/// The annotations of a schema.
pub open spec fn schema_meta(s: Schema) -> Meta {
    match s {
        Schema::Ref(r) => r.meta,
        Schema::OneOf(o) => o.meta,
        Schema::AllOf(a) => a.meta,
        Schema::Primitive(Primitive::Array(a)) => a.meta,
        Schema::Primitive(Primitive::Boolean(m)) => m,
        Schema::Primitive(Primitive::Integer(m)) => m,
        Schema::Primitive(Primitive::Object(o)) => o.meta,
        Schema::Primitive(Primitive::String(s)) => s.meta,
    }
}

/// `key_index` finds an entry with the key, and no earlier entry has it.
pub proof fn lemma_key_index<V>(entries: Seq<(Seq<char>, V)>, key: Seq<char>, n: nat)
    requires
        n <= entries.len(),
    ensures
        key_index(entries, key, n) <= n,
        key_index(entries, key, n) < n ==> entries[key_index(entries, key, n) as int].0 == key,
        forall|j: int| 0 <= j < key_index(entries, key, n) ==> (#[trigger] entries[j]).0 != key,
    decreases n,
{
    if n > 0 {
        lemma_key_index(entries, key, (n - 1) as nat);
    }
}

impl Schema {
    /// The annotations of this schema.
    pub fn meta(&self) -> (r: &Meta)
        ensures
            *r == schema_meta(*self),
    {
        match self {
            Schema::Ref(r) => &r.meta,
            Schema::OneOf(o) => &o.meta,
            Schema::AllOf(a) => &a.meta,
            Schema::Primitive(Primitive::Array(a)) => &a.meta,
            Schema::Primitive(Primitive::Boolean(m)) => m,
            Schema::Primitive(Primitive::Integer(m)) => m,
            Schema::Primitive(Primitive::Object(o)) => &o.meta,
            Schema::Primitive(Primitive::String(s)) => &s.meta,
        }
    }

    /// The title of this schema.
    pub fn title(&self) -> (r: &Option<String>)
        ensures
            *r == schema_meta(*self).title,
    {
        &self.meta().title
    }

    /// The description of this schema.
    pub fn description(&self) -> (r: &Option<String>)
        ensures
            *r == schema_meta(*self).description,
    {
        &self.meta().description
    }

    /// The summary of this schema.
    pub fn summary(&self) -> (r: &Option<String>)
        ensures
            *r == schema_meta(*self).summary,
    {
        &self.meta().summary
    }
}

impl Meta {
    /// Annotations that say nothing.
    pub fn none() -> (r: Meta)
        ensures
            r.title is None,
            r.description is None,
            r.summary is None,
    {
        Meta { title: None, description: None, summary: None }
    }
}

/// `IndexMap::len`: the number of entries.
#[verifier::external_body]
pub(crate) fn schema_count(m: &IndexMap<String, Schema>) -> (n: usize)
    ensures
        n == schema_entries(*m).len(),
{
    m.len()
}

/// `IndexMap::get_index`: the entry at a position of the map's order, for
/// every position below the number of entries.
#[verifier::external_body]
pub(crate) fn schema_at(m: &IndexMap<String, Schema>, index: usize) -> (r: Option<
    (&String, &Schema),
>)
    ensures
        match r {
            Some((k, v)) => index < schema_entries(*m).len() && k@ == schema_entries(
                *m,
            )[index as int].0 && *v == schema_entries(*m)[index as int].1,
            None => index >= schema_entries(*m).len(),
        },
{
    m.get_index(index)
}

/// `IndexMap::get`: the value stored under the key, if the key is present. A
/// map holds a key once, so that this is the value of the first entry with it.
#[verifier::external_body]
pub(crate) fn schema_get<'a>(m: &'a IndexMap<String, Schema>, key: &str) -> (r: Option<
    &'a Schema,
>)
    ensures
        match r {
            Some(v) => lookup(schema_entries(*m), key@) == Some(*v),
            None => lookup(schema_entries(*m), key@) is None,
        },
{
    m.get(key)
}

/// `IndexMap::len`: the number of entries.
#[verifier::external_body]
pub(crate) fn error_count(m: &IndexMap<String, ErrorType>) -> (n: usize)
    ensures
        n == error_entries(*m).len(),
{
    m.len()
}

/// `IndexMap::get_index`: the entry at a position of the map's order, for
/// every position below the number of entries.
#[verifier::external_body]
pub(crate) fn error_at(m: &IndexMap<String, ErrorType>, index: usize) -> (r: Option<
    (&String, &ErrorType),
>)
    ensures
        match r {
            Some((k, v)) => index < error_entries(*m).len() && k@ == error_entries(
                *m,
            )[index as int].0 && *v == error_entries(*m)[index as int].1,
            None => index >= error_entries(*m).len(),
        },
{
    m.get_index(index)
}

/// `IndexMap::contains_key`: whether an entry has the key.
#[verifier::external_body]
pub(crate) fn error_contains(m: &IndexMap<String, ErrorType>, key: &str) -> (r: bool)
    ensures
        r == lookup(error_entries(*m), key@) is Some,
{
    m.contains_key(key)
}

/// `IndexMap::insert`: where no entry has the key, the pair becomes the last
/// entry and nothing is returned; where one has it, that entry keeps its place
/// and its key, takes the new value, and the old value is returned.
#[verifier::external_body]
pub(crate) fn error_insert(m: &mut IndexMap<String, ErrorType>, key: String, value: ErrorType) -> (r:
    Option<ErrorType>)
    ensures
        match r {
            None => lookup(error_entries(*old(m)), key@) is None && error_entries(*final(m))
                == error_entries(*old(m)).push((key@, value)),
            Some(previous) => {
                let i = key_index(error_entries(*old(m)), key@, error_entries(*old(m)).len());
                &&& lookup(error_entries(*old(m)), key@) == Some(previous)
                &&& error_entries(*final(m)) == error_entries(*old(m)).update(
                    i as int,
                    (key@, value),
                )
            },
        },
{
    m.insert(key, value)
}

} // verus!
