//! Merging a second document into a first one. The methods of the second are
//! added behind those of the first. Its error definitions are added under the
//! names that the first does not define; where both define a name, the
//! definition of the first stays.

use vstd::prelude::*;
use crate::schema::{
    error_at, error_contains, error_count, error_entries, error_insert, key_index, lemma_key_index,
    lookup, ErrorDefinition, ErrorType, Meta, Reference, Specification,
};

use crate::text::copy_text;

verus! {

/// The entries of `core` followed by those entries of `extra`, from position
/// `i` on, whose name is not defined by then.
pub open spec fn merged_errors(
    core: Seq<(Seq<char>, ErrorType)>,
    extra: Seq<(Seq<char>, ErrorType)>,
    i: nat,
) -> Seq<(Seq<char>, ErrorType)>
    decreases extra.len() - i,
{
    if i >= extra.len() {
        core
    } else if lookup(core, extra[i as int].0) is Some {
        merged_errors(core, extra, i + 1)
    } else {
        merged_errors(core.push(extra[i as int]), extra, i + 1)
    }
}

impl Meta {
    /// A copy of these annotations.
    pub fn duplicate(&self) -> (r: Meta)
        ensures
            r == *self,
    {
        Meta {
            title: copy_text(&self.title),
            description: copy_text(&self.description),
            summary: copy_text(&self.summary),
        }
    }
}

impl ErrorType {
    /// A copy of this error definition.
    pub fn duplicate(&self) -> (r: ErrorType)
        ensures
            r == *self,
    {
        match self {
            ErrorType::Error(definition) => ErrorType::Error(
                ErrorDefinition { code: definition.code, message: definition.message.clone() },
            ),
            ErrorType::Reference(reference) => ErrorType::Reference(
                Reference { meta: reference.meta.duplicate(), name: reference.name.clone() },
            ),
        }
    }
}

/// Merges `extra` into `core`: its methods go behind those of `core`, and its
/// error definitions are added under the names that `core` does not define.
/// The schemas of `core` stay as they are; those of `extra` are dropped.
pub fn merge_specifications(core: &mut Specification, extra: Specification)
    ensures
        final(core).methods@ == old(core).methods@ + extra.methods@,
        final(core).components.schemas == old(core).components.schemas,
        error_entries(final(core).components.errors) == merged_errors(
            error_entries(old(core).components.errors),
            error_entries(extra.components.errors),
            0,
        ),
{
    let ghost added = error_entries(extra.components.errors);
    let ghost added_methods = extra.methods@;
    let ghost start = error_entries(core.components.errors);
    let mut rest = extra;
    core.methods.append(&mut rest.methods);
    let count = error_count(&rest.components.errors);
    let mut i: usize = 0;
    while i < count
        invariant
            i <= count,
            count == added.len(),
            added == error_entries(rest.components.errors),
            core.methods@ == old(core).methods@ + added_methods,
            core.components.schemas == old(core).components.schemas,
            merged_errors(start, added, 0) == merged_errors(
                error_entries(core.components.errors),
                added,
                i as nat,
            ),
        decreases count - i,
    {
        match error_at(&rest.components.errors, i) {
            Some((name, definition)) => {
                if !error_contains(&core.components.errors, name.as_str()) {
                    let previous = error_insert(
                        &mut core.components.errors,
                        name.clone(),
                        definition.duplicate(),
                    );
                    assert(previous is None);
                }
            },
            None => {},
        }
        i = i + 1;
    }
}

/// Adding an entry behind a list changes no position found among the
/// entries that were there.
pub proof fn lemma_key_index_push<V>(
    entries: Seq<(Seq<char>, V)>,
    entry: (Seq<char>, V),
    key: Seq<char>,
    n: nat,
)
    requires
        n <= entries.len(),
    ensures
        key_index(entries.push(entry), key, n) == key_index(entries, key, n),
    decreases n,
{
    if n > 0 {
        lemma_key_index_push(entries, entry, key, (n - 1) as nat);
        assert(entries.push(entry)[n - 1] == entries[n - 1]);
    }
}

/// A name that a list defines keeps its definition when an entry is added
/// behind the list.
pub proof fn lemma_lookup_push<V>(
    entries: Seq<(Seq<char>, V)>,
    entry: (Seq<char>, V),
    key: Seq<char>,
)
    requires
        lookup(entries, key) is Some,
    ensures
        lookup(entries.push(entry), key) == lookup(entries, key),
{
    let n = entries.len();
    lemma_key_index_push(entries, entry, key, n);
    lemma_key_index(entries, key, n);
    let i = key_index(entries, key, n);
    assert(i < n);
    assert(key_index(entries.push(entry), key, n + 1) == i);
    assert(entries.push(entry)[i as int] == entries[i as int]);
}

/// First wins: a name that the first document defines keeps the definition
/// of the first document in the merged one, whatever the second document
/// says of that name.
pub proof fn lemma_merge_first_wins(
    core: Seq<(Seq<char>, ErrorType)>,
    extra: Seq<(Seq<char>, ErrorType)>,
    i: nat,
    name: Seq<char>,
)
    requires
        lookup(core, name) is Some,
    ensures
        lookup(merged_errors(core, extra, i), name) == lookup(core, name),
    decreases extra.len() - i,
{
    if i < extra.len() {
        if lookup(core, extra[i as int].0) is Some {
            lemma_merge_first_wins(core, extra, i + 1, name);
        } else {
            lemma_lookup_push(core, extra[i as int], name);
            lemma_merge_first_wins(core.push(extra[i as int]), extra, i + 1, name);
        }
    }
}

} // verus!
