//! Name and documentation transforms.
//!
//! Type names are written in capitalized-word form, with a fixed table of
//! renames; method names are split into lower-case words; documentation is
//! put in sentence case and wrapped to the line width.

use vstd::prelude::*;
use vstd::string::StringExecFns;
use crate::pattern::{all_upper_pattern, nouns_restored, pattern_matches, DocPatterns};
use crate::text::{
    ascii_lower, ascii_lowercase, ascii_upper, byte_len, cat, chars_of, contains_char,
    ends_with_char, lower_all, push_line, replace_all, replace_all_in, spaces, spaces_string,
    split_on, split_on_char, str_eq, string_of,
};

verus! {

/// The width that documentation lines are wrapped to, in bytes.
pub const MAX_LINE_LENGTH: usize = 100;

/// Whether `c` is an ASCII upper-case letter.
pub open spec fn is_upper(c: char) -> bool {
    'A' <= c && c <= 'Z'
}

/// The capitalized-word form of the first `n` characters of `s`. Underscores
/// are dropped. A word begins at the start of the name, behind an underscore,
/// and at a capital that follows a character that is no capital. The first
/// character of the name is put in upper case; so is the first character of
/// a word behind an underscore, unless a capital was written just before it.
/// A character that follows a capital is put in lower case. Every other
/// character is written as it is.
pub open spec fn pascal_prefix(s: Seq<char>, n: nat) -> Seq<char>
    decreases n,
{
    if n == 0 {
        Seq::empty()
    } else {
        let before = pascal_prefix(s, (n - 1) as nat);
        let c = s[n - 1];
        if c == '_' {
            before
        } else if before.len() == 0 {
            before.push(ascii_upper(c))
        } else if is_upper(before.last()) {
            before.push(ascii_lower(c))
        } else if s[n - 2] == '_' {
            before.push(ascii_upper(c))
        } else if is_upper(s[n - 2]) {
            before.push(ascii_lower(c))
        } else {
            before.push(c)
        }
    }
}

/// The capitalized-word form of `s`.
pub open spec fn pascal_case(s: Seq<char>) -> Seq<char> {
    pascal_prefix(s, s.len())
}

/// The separated lower-case form of the first `n` characters of `s`: every
/// character that its ASCII upper-case form leaves unchanged is written as an
/// underscore followed by its lower-case form.
pub open spec fn snake_prefix(s: Seq<char>, n: nat) -> Seq<char>
    decreases n,
{
    if n == 0 {
        Seq::empty()
    } else {
        let before = snake_prefix(s, (n - 1) as nat);
        let c = s[n - 1];
        if ascii_upper(c) == c {
            before.push('_').push(ascii_lower(c))
        } else {
            before.push(c)
        }
    }
}

/// The separated lower-case form of `s`.
pub open spec fn snake_case(s: Seq<char>) -> Seq<char> {
    snake_prefix(s, s.len())
}

/// Whether position `i` of `s` begins a sentence: it is the first position, or
/// it follows a period and one space.
pub open spec fn starts_sentence(s: Seq<char>, i: int) -> bool {
    i == 0 || (i >= 2 && s[i - 2] == '.' && s[i - 1] == ' ')
}

/// `s` in sentence case: upper case at the start of each sentence, lower case
/// everywhere else.
pub open spec fn sentence_case(s: Seq<char>) -> Seq<char> {
    Seq::new(
        s.len(),
        |i: int|
            if starts_sentence(s, i) {
                ascii_upper(s[i])
            } else {
                ascii_lower(s[i])
            },
    )
}

/// The identifier under which a field name is written: `type` is a keyword and
/// gets its raw form.
pub open spec fn escaped(name: Seq<char>) -> Seq<char> {
    if name == "type"@ {
        "r#type"@
    } else {
        name
    }
}

/// The fixed table of renames that follows the capitalized-word transform.
pub open spec fn renamed(name: Seq<char>) -> Seq<char> {
    if name == "CommonTransactionProperties"@ {
        "TransactionMeta"@
    } else if name == "CommonReceiptProperties"@ {
        "TransactionReceiptMeta"@
    } else if name == "InvokeTransactionReceiptProperties"@ {
        "InvokeTransactionReceiptData"@
    } else if name == "PendingCommonReceiptProperties"@ {
        "PendingTransactionReceiptMeta"@
    } else if name == "SierraContractClass"@ {
        "FlattenedSierraClass"@
    } else if name == "LegacyContractClass"@ {
        "CompressedLegacyContractClass"@
    } else if name == "DeprecatedContractClass"@ {
        "CompressedLegacyContractClass"@
    } else if name == "ContractAbiEntry"@ {
        "LegacyContractAbiEntry"@
    } else if name == "FunctionAbiEntry"@ {
        "LegacyFunctionAbiEntry"@
    } else if name == "EventAbiEntry"@ {
        "LegacyEventAbiEntry"@
    } else if name == "StructAbiEntry"@ {
        "LegacyStructAbiEntry"@
    } else if name == "FunctionAbiType"@ {
        "LegacyFunctionAbiType"@
    } else if name == "EventAbiType"@ {
        "LegacyEventAbiType"@
    } else if name == "StructAbiType"@ {
        "LegacyStructAbiType"@
    } else if name == "StructMember"@ {
        "LegacyStructMember"@
    } else if name == "TypedParameter"@ {
        "LegacyTypedParameter"@
    } else if name == "DeprecatedEntryPointsByType"@ {
        "LegacyEntryPointsByType"@
    } else if name == "DeprecatedCairoEntryPoint"@ {
        "LegacyContractEntryPoint"@
    } else {
        name
    }
}

/// Whether `name` is one of the names that the table of renames gives.
pub open spec fn is_relabel(name: Seq<char>) -> bool {
    ||| name == "TransactionMeta"@
    ||| name == "TransactionReceiptMeta"@
    ||| name == "InvokeTransactionReceiptData"@
    ||| name == "PendingTransactionReceiptMeta"@
    ||| name == "FlattenedSierraClass"@
    ||| name == "CompressedLegacyContractClass"@
    ||| name == "LegacyContractAbiEntry"@
    ||| name == "LegacyFunctionAbiEntry"@
    ||| name == "LegacyEventAbiEntry"@
    ||| name == "LegacyStructAbiEntry"@
    ||| name == "LegacyFunctionAbiType"@
    ||| name == "LegacyEventAbiType"@
    ||| name == "LegacyStructAbiType"@
    ||| name == "LegacyStructMember"@
    ||| name == "LegacyTypedParameter"@
    ||| name == "LegacyEntryPointsByType"@
    ||| name == "LegacyContractEntryPoint"@
}

/// `s` with the abbreviation `Txn` written out.
pub open spec fn expanded(s: Seq<char>) -> Seq<char> {
    replace_all(s, "Txn"@, "Transaction"@)
}

/// The name under which a schema is emitted. A name that the table of renames
/// gives is final. Any other name is put in capitalized-word form, its
/// abbreviation is written out, and the table of renames is applied.
pub open spec fn starknet_rs_name(name: Seq<char>) -> Seq<char> {
    if is_relabel(name) {
        name
    } else {
        renamed(expanded(pascal_case(name)))
    }
}

/// The name of a field, given whether the name is made of upper-case letters
/// only: such a name, and one that already holds an underscore, is put in
/// lower case as it is; any other name is split into lower-case words.
pub open spec fn field_name_from(name: Seq<char>, all_upper: bool) -> Seq<char> {
    if all_upper || name.contains('_') {
        lower_all(name)
    } else {
        snake_case(name)
    }
}

/// The name under which a property is emitted as a field.
pub open spec fn rust_field_name(name: Seq<char>) -> Seq<char> {
    field_name_from(name, pattern_matches(all_upper_pattern(), name))
}

/// `text` with a period at its end, where `force_period` asks for one and
/// there is none.
pub open spec fn with_period(text: Seq<char>, force_period: bool) -> Seq<char> {
    if force_period && !(text.len() > 0 && text.last() == '.') {
        text.push('.')
    } else {
        text
    }
}

/// Documentation as it is emitted: in sentence case, with the proper nouns of
/// the domain restored, and closed by a period where one is asked for.
pub open spec fn starknet_rs_doc(doc: Seq<char>, force_period: bool) -> Seq<char> {
    with_period(nouns_restored(sentence_case(doc)), force_period)
}

/// The state of line wrapping after the first `n` words: the lines that are
/// full, and the line being filled.
pub open spec fn wrap_state(words: Seq<Seq<char>>, n: nat, prefix_length: nat) -> (
    Seq<Seq<char>>,
    Seq<char>,
)
    decreases n,
{
    if n == 0 {
        (Seq::empty(), Seq::empty())
    } else {
        let (lines, current) = wrap_state(words, (n - 1) as nat, prefix_length);
        let word = words[n - 1];
        let addition = if current.len() > 0 {
            seq![' '] + word
        } else {
            word
        };
        if prefix_length + byte_len(current) + byte_len(addition) <= MAX_LINE_LENGTH {
            (lines, current + addition)
        } else {
            (lines.push(current), word)
        }
    }
}

/// `doc` broken at spaces into lines that, behind a prefix of `prefix_length`
/// bytes, stay within the line width wherever a single word allows it.
pub open spec fn wrapped(doc: Seq<char>, prefix_length: nat) -> Seq<Seq<char>> {
    let words = split_on(doc, ' ');
    let (lines, current) = wrap_state(words, words.len(), prefix_length);
    lines.push(current)
}

/// The first `n` lines of `lines`, each behind `prefix`.
pub open spec fn prefixed(lines: Seq<Seq<char>>, n: nat, prefix: Seq<char>) -> Seq<Seq<char>>
    decreases n,
{
    if n == 0 {
        Seq::empty()
    } else {
        prefixed(lines, (n - 1) as nat, prefix).push(prefix + lines[n - 1])
    }
}

/// The documentation comment for `doc`, indented by `indent` spaces.
pub open spec fn doc_comment(doc: Seq<char>, indent: nat) -> Seq<Seq<char>> {
    let prefix = spaces(indent) + "/// "@;
    let lines = wrapped(doc, byte_len(prefix));
    prefixed(lines, lines.len(), prefix)
}

fn is_upper_char(c: char) -> (r: bool)
    ensures
        r == is_upper(c),
{
    let code: u32 = c as u32;
    code >= 65 && code <= 90
}

/// Writes a name in capitalized-word form.
pub fn to_pascal_case(name: &str) -> (r: String)
    ensures
        r@ == pascal_case(name@),
{
    let x = chars_of(name);
    let mut out: Vec<char> = Vec::new();
    let mut i: usize = 0;
    while i < x.len()
        invariant
            i <= x.len(),
            x@ == name@,
            out@.len() <= i,
            out@ == pascal_prefix(name@, i as nat),
        decreases x.len() - i,
    {
        let c = x[i];
        if c != '_' {
            if out.len() == 0 {
                out.push(c.to_ascii_uppercase());
            } else if is_upper_char(out[out.len() - 1]) {
                out.push(c.to_ascii_lowercase());
            } else if x[i - 1] == '_' {
                out.push(c.to_ascii_uppercase());
            } else if is_upper_char(x[i - 1]) {
                out.push(c.to_ascii_lowercase());
            } else {
                out.push(c);
            }
        }
        i = i + 1;
    }
    string_of(&out)
}

/// Splits a name into lower-case words: an underscore goes before every
/// character that is not an ASCII lower-case letter.
pub fn camel_to_snake_case(name: &str) -> (r: String)
    ensures
        r@ == snake_case(name@),
{
    let x = chars_of(name);
    let mut out: Vec<char> = Vec::new();
    let mut i: usize = 0;
    while i < x.len()
        invariant
            i <= x.len(),
            x@ == name@,
            out@ == snake_prefix(name@, i as nat),
        decreases x.len() - i,
    {
        let c = x[i];
        if c.to_ascii_uppercase() == c {
            out.push('_');
            out.push(c.to_ascii_lowercase());
        } else {
            out.push(c);
        }
        i = i + 1;
    }
    string_of(&out)
}

/// Puts a text in sentence case.
pub fn to_sentence_case(name: &str) -> (r: String)
    ensures
        r@ == sentence_case(name@),
{
    let x = chars_of(name);
    let mut out: Vec<char> = Vec::new();
    let mut i: usize = 0;
    while i < x.len()
        invariant
            i <= x.len(),
            x@ == name@,
            out@.len() == i,
            forall|j: int| 0 <= j < i ==> out@[j] == sentence_case(name@)[j],
        decreases x.len() - i,
    {
        let c = x[i];
        if i == 0 || (i >= 2 && x[i - 2] == '.' && x[i - 1] == ' ') {
            out.push(c.to_ascii_uppercase());
        } else {
            out.push(c.to_ascii_lowercase());
        }
        i = i + 1;
    }
    assert(out@ =~= sentence_case(name@));
    string_of(&out)
}

/// The identifier under which a field name is written.
pub fn escape_name<'a>(name: &'a str) -> (r: &'a str)
    ensures
        r@ == escaped(name@),
{
    if str_eq(name, "type") {
        "r#type"
    } else {
        name
    }
}

fn rename(name: String) -> (r: String)
    ensures
        r@ == renamed(name@),
{
    let n = name.as_str();
    if str_eq(n, "CommonTransactionProperties") {
        String::from_str("TransactionMeta")
    } else if str_eq(n, "CommonReceiptProperties") {
        String::from_str("TransactionReceiptMeta")
    } else if str_eq(n, "InvokeTransactionReceiptProperties") {
        String::from_str("InvokeTransactionReceiptData")
    } else if str_eq(n, "PendingCommonReceiptProperties") {
        String::from_str("PendingTransactionReceiptMeta")
    } else if str_eq(n, "SierraContractClass") {
        String::from_str("FlattenedSierraClass")
    } else if str_eq(n, "LegacyContractClass") {
        String::from_str("CompressedLegacyContractClass")
    } else if str_eq(n, "DeprecatedContractClass") {
        String::from_str("CompressedLegacyContractClass")
    } else if str_eq(n, "ContractAbiEntry") {
        String::from_str("LegacyContractAbiEntry")
    } else if str_eq(n, "FunctionAbiEntry") {
        String::from_str("LegacyFunctionAbiEntry")
    } else if str_eq(n, "EventAbiEntry") {
        String::from_str("LegacyEventAbiEntry")
    } else if str_eq(n, "StructAbiEntry") {
        String::from_str("LegacyStructAbiEntry")
    } else if str_eq(n, "FunctionAbiType") {
        String::from_str("LegacyFunctionAbiType")
    } else if str_eq(n, "EventAbiType") {
        String::from_str("LegacyEventAbiType")
    } else if str_eq(n, "StructAbiType") {
        String::from_str("LegacyStructAbiType")
    } else if str_eq(n, "StructMember") {
        String::from_str("LegacyStructMember")
    } else if str_eq(n, "TypedParameter") {
        String::from_str("LegacyTypedParameter")
    } else if str_eq(n, "DeprecatedEntryPointsByType") {
        String::from_str("LegacyEntryPointsByType")
    } else if str_eq(n, "DeprecatedCairoEntryPoint") {
        String::from_str("LegacyContractEntryPoint")
    } else {
        name
    }
}

fn is_relabel_name(name: &str) -> (r: bool)
    ensures
        r == is_relabel(name@),
{
    str_eq(name, "TransactionMeta") || str_eq(name, "TransactionReceiptMeta") || str_eq(
        name,
        "InvokeTransactionReceiptData",
    ) || str_eq(name, "PendingTransactionReceiptMeta") || str_eq(name, "FlattenedSierraClass")
        || str_eq(name, "CompressedLegacyContractClass") || str_eq(name, "LegacyContractAbiEntry")
        || str_eq(name, "LegacyFunctionAbiEntry") || str_eq(name, "LegacyEventAbiEntry")
        || str_eq(name, "LegacyStructAbiEntry") || str_eq(name, "LegacyFunctionAbiType")
        || str_eq(name, "LegacyEventAbiType") || str_eq(name, "LegacyStructAbiType") || str_eq(
        name,
        "LegacyStructMember",
    ) || str_eq(name, "LegacyTypedParameter") || str_eq(name, "LegacyEntryPointsByType")
        || str_eq(name, "LegacyContractEntryPoint")
}

/// The name under which a schema is emitted. Naming a name again changes
/// nothing.
pub fn to_starknet_rs_name(name: &str) -> (r: String)
    ensures
        r@ == starknet_rs_name(name@),
        starknet_rs_name(r@) == r@,
{
    proof {
        lemma_name_idempotent(name@);
    }
    if is_relabel_name(name) {
        return String::from_str(name);
    }
    let pascal = to_pascal_case(name);
    let written_out = replace_all_in(pascal.as_str(), "Txn", "Transaction");
    rename(written_out)
}

/// The name of a field, given whether the name is made of upper-case letters
/// only.
pub fn rust_field_name_from(name: &str, all_upper: bool) -> (r: String)
    ensures
        r@ == field_name_from(name@, all_upper),
{
    if all_upper || contains_char(name, '_') {
        ascii_lowercase(name)
    } else {
        camel_to_snake_case(name)
    }
}

/// The name under which a property is emitted as a field.
pub fn to_rust_field_name(name: &str, patterns: &DocPatterns) -> (r: String)
    ensures
        r@ == rust_field_name(name@),
{
    rust_field_name_from(name, patterns.is_all_upper(name))
}

/// Closes `text` with a period where `force_period` asks for one and there is
/// none.
pub fn close_with_period(text: String, force_period: bool) -> (r: String)
    ensures
        r@ == with_period(text@, force_period),
{
    let mut text = text;
    if force_period && !ends_with_char(text.as_str(), '.') {
        text.push('.');
    }
    text
}

/// Documentation as it is emitted.
pub fn to_starknet_rs_doc(doc: &str, force_period: bool, patterns: &DocPatterns) -> (r: String)
    ensures
        r@ == starknet_rs_doc(doc@, force_period),
{
    let sentence = to_sentence_case(doc);
    let restored = patterns.restore_nouns(sentence.as_str());
    close_with_period(restored, force_period)
}

/// Breaks `doc` at spaces into lines that fit the line width behind a prefix
/// of `prefix_length` bytes.
pub fn wrap_lines(doc: &str, prefix_length: usize) -> (r: Vec<String>)
    ensures
        r.deep_view() == wrapped(doc@, prefix_length as nat),
{
    let words = split_on_char(doc, ' ');
    let mut lines: Vec<String> = Vec::new();
    let mut current = String::new();
    let mut i: usize = 0;
    assert(lines.deep_view() =~= Seq::<Seq<char>>::empty());
    while i < words.len()
        invariant
            i <= words.len(),
            words.deep_view() == split_on(doc@, ' '),
            lines.deep_view() == wrap_state(words.deep_view(), i as nat, prefix_length as nat).0,
            current@ == wrap_state(words.deep_view(), i as nat, prefix_length as nat).1,
        decreases words.len() - i,
    {
        let word = words[i].as_str();
        assert(word@ == words.deep_view()[i as int]);
        let addition = if current.as_str().is_empty() {
            String::from_str(word)
        } else {
            cat(" ", word)
        };
        proof {
            reveal_strlit(" ");
            assert(" "@ =~= seq![' ']);
        }
        let total: u128 = (prefix_length as u128) + (current.as_str().len() as u128) + (
        addition.as_str().len() as u128);
        if total <= 100 {
            current.append(addition.as_str());
        } else {
            push_line(&mut lines, current);
            current = String::from_str(word);
        }
        i = i + 1;
    }
    push_line(&mut lines, current);
    lines
}

/// The documentation comment for `doc`, indented by `indent` spaces.
pub fn doc_lines(doc: &str, indent: usize) -> (r: Vec<String>)
    ensures
        r.deep_view() == doc_comment(doc@, indent as nat),
{
    let mut prefix = spaces_string(indent);
    prefix.append("/// ");
    let lines = wrap_lines(doc, prefix.as_str().len());
    let mut out: Vec<String> = Vec::new();
    let mut i: usize = 0;
    assert(out.deep_view() =~= Seq::<Seq<char>>::empty());
    while i < lines.len()
        invariant
            i <= lines.len(),
            out.deep_view() == prefixed(lines.deep_view(), i as nat, prefix@),
        decreases lines.len() - i,
    {
        assert(lines[i as int]@ == lines.deep_view()[i as int]);
        push_line(&mut out, cat(prefix.as_str(), lines[i].as_str()));
        i = i + 1;
    }
    assert(lines.deep_view().len() == lines.len());
    out
}

/// Whether `t` has no underscore and no capital directly behind a capital.
pub open spec fn well_spaced(t: Seq<char>) -> bool {
    &&& forall|i: int| 0 <= i < t.len() ==> #[trigger] t[i] != '_'
    &&& forall|i: int| 1 <= i < t.len() && is_upper(t[i - 1]) ==> !is_upper(#[trigger] t[i])
}

/// Whether `t` is in capitalized-word form: it has no underscore, does not
/// begin with an ASCII lower-case letter, and has no capital directly behind
/// a capital.
pub open spec fn capitalized(t: Seq<char>) -> bool {
    &&& well_spaced(t)
    &&& t.len() > 0 ==> ascii_upper(t[0]) == t[0]
}

/// Case conversion gives no capital where it lowers and no lower-case letter
/// where it raises, and never an underscore for another character.
pub proof fn lemma_case(c: char)
    ensures
        !is_upper(ascii_lower(c)),
        ascii_upper(ascii_upper(c)) == ascii_upper(c),
        c != '_' ==> ascii_lower(c) != '_' && ascii_upper(c) != '_',
        !is_upper(c) ==> ascii_lower(c) == c,
{
    vstd::utf8::char_u32_cast(c, c as u32);
}

/// What the transform writes is in capitalized-word form.
pub proof fn lemma_pascal_capitalized(s: Seq<char>, n: nat)
    ensures
        capitalized(pascal_prefix(s, n)),
    decreases n,
{
    if n > 0 {
        let before = pascal_prefix(s, (n - 1) as nat);
        let after = pascal_prefix(s, n);
        let c = s[n - 1];
        lemma_pascal_capitalized(s, (n - 1) as nat);
        lemma_case(c);
        if c != '_' {
            assert(after.len() == before.len() + 1);
            assert forall|i: int| 0 <= i < after.len() implies #[trigger] after[i] != '_' by {
                if i < before.len() {
                    assert(after[i] == before[i]);
                }
            }
            assert forall|i: int| 1 <= i < after.len() && is_upper(after[i - 1]) implies !is_upper(
                #[trigger] after[i],
            ) by {
                if i < before.len() {
                    assert(after[i] == before[i]);
                    assert(after[i - 1] == before[i - 1]);
                } else {
                    assert(after[i - 1] == before.last());
                }
            }
            if before.len() > 0 {
                assert(after[0] == before[0]);
            }
        }
    }
}

/// The transform leaves a name in capitalized-word form as it is.
pub proof fn lemma_pascal_keeps_capitalized(t: Seq<char>, n: nat)
    requires
        capitalized(t),
        n <= t.len(),
    ensures
        pascal_prefix(t, n) == t.take(n as int),
    decreases n,
{
    if n > 0 {
        lemma_pascal_keeps_capitalized(t, (n - 1) as nat);
        let before = t.take(n - 1);
        let c = t[n - 1];
        lemma_case(c);
        assert(c != '_');
        if n > 1 {
            assert(before.last() == t[n - 2]);
            assert(t[n - 2] != '_');
        }
        assert(before.push(c) =~= t.take(n as int));
    } else {
        assert(t.take(0) =~= Seq::<char>::empty());
    }
}

/// Putting a name in capitalized-word form twice is putting it there once.
pub proof fn lemma_pascal_idempotent(s: Seq<char>)
    ensures
        pascal_case(pascal_case(s)) == pascal_case(s),
{
    let t = pascal_case(s);
    lemma_pascal_capitalized(s, s.len());
    lemma_pascal_keeps_capitalized(t, t.len());
    assert(t.take(t.len() as int) =~= t);
}

/// The characters of the word that the abbreviation is written out to: one
/// capital in front, lower-case letters behind it.
pub proof fn lemma_written_out_word()
    ensures
        "Txn"@.len() == 3,
        "Txn"@[0] == 'T',
        "Txn"@[1] == 'x',
        "Txn"@[2] == 'n',
        "Transaction"@.len() == 11,
        "Transaction"@[0] == 'T',
        "Transaction"@[1] == 'r',
        forall|k: int|
            1 <= k < 11 ==> !is_upper(#[trigger] "Transaction"@[k]) && "Transaction"@[k] != '_',
{
    reveal_strlit("Txn");
    reveal_strlit("Transaction");
    let w = "Transaction"@;
    assert(w[1] == 'r' && w[2] == 'a' && w[3] == 'n' && w[4] == 's' && w[5] == 'a');
    assert(w[6] == 'c' && w[7] == 't' && w[8] == 'i' && w[9] == 'o' && w[10] == 'n');
    assert forall|k: int| 1 <= k < 11 implies !is_upper(#[trigger] w[k]) && w[k] != '_' by {
        if k == 1 {
        } else if k == 2 {
        } else if k == 3 {
        } else if k == 4 {
        } else if k == 5 {
        } else if k == 6 {
        } else if k == 7 {
        } else if k == 8 {
        } else if k == 9 {
        } else {
            assert(k == 10);
        }
    }
}

/// Writing out the abbreviation keeps the first character of a text, and
/// gives an empty text only for an empty one.
pub proof fn lemma_expanded_first(s: Seq<char>)
    ensures
        s.len() == 0 ==> expanded(s).len() == 0,
        s.len() > 0 ==> expanded(s).len() > 0 && expanded(s)[0] == s[0],
{
    lemma_written_out_word();
    if s.len() > 0 && "Txn"@.is_prefix_of(s) {
        assert(s.subrange(0, 3)[0] == "Txn"@[0]);
    }
}

/// Writing out the abbreviation brings in no underscore and puts no capital
/// behind a capital.
pub proof fn lemma_expanded_well_spaced(s: Seq<char>)
    requires
        well_spaced(s),
    ensures
        well_spaced(expanded(s)),
    decreases s.len(),
{
    lemma_written_out_word();
    let w = "Transaction"@;
    let r = expanded(s);
    if s.len() > 0 {
        if "Txn"@.is_prefix_of(s) {
            let rest = s.skip(3);
            let tail = expanded(rest);
            assert forall|i: int| 0 <= i < rest.len() implies #[trigger] rest[i] != '_' by {
                assert(rest[i] == s[i + 3]);
            }
            assert forall|i: int| 1 <= i < rest.len() && is_upper(rest[i - 1]) implies !is_upper(
                #[trigger] rest[i],
            ) by {
                assert(rest[i] == s[i + 3]);
                assert(rest[i - 1] == s[i + 3 - 1]);
            }
            lemma_expanded_well_spaced(rest);
            assert(r == w + tail);
            assert forall|i: int| 0 <= i < r.len() implies #[trigger] r[i] != '_' by {
                if i < 11 {
                    assert(r[i] == w[i]);
                    if i == 0 {
                    } else {
                        assert(!is_upper(w[i]) && w[i] != '_');
                    }
                } else {
                    assert(r[i] == tail[i - 11]);
                }
            }
            assert forall|i: int| 1 <= i < r.len() && is_upper(r[i - 1]) implies !is_upper(
                #[trigger] r[i],
            ) by {
                if i < 11 {
                    assert(r[i] == w[i]);
                    assert(!is_upper(w[i]) && w[i] != '_');
                } else if i == 11 {
                    assert(r[10] == w[10]);
                    assert(!is_upper(w[10]) && w[10] != '_');
                } else {
                    assert(r[i] == tail[i - 11]);
                    assert(r[i - 1] == tail[i - 11 - 1]);
                }
            }
        } else {
            let rest = s.skip(1);
            let tail = expanded(rest);
            assert forall|i: int| 0 <= i < rest.len() implies #[trigger] rest[i] != '_' by {
                assert(rest[i] == s[i + 1]);
            }
            assert forall|i: int| 1 <= i < rest.len() && is_upper(rest[i - 1]) implies !is_upper(
                #[trigger] rest[i],
            ) by {
                assert(rest[i] == s[i + 1]);
                assert(rest[i - 1] == s[i + 1 - 1]);
            }
            lemma_expanded_well_spaced(rest);
            lemma_expanded_first(rest);
            assert(r == seq![s[0]] + tail);
            assert forall|i: int| 0 <= i < r.len() implies #[trigger] r[i] != '_' by {
                if i == 0 {
                    assert(r[0] == s[0]);
                } else {
                    assert(r[i] == tail[i - 1]);
                }
            }
            assert forall|i: int| 1 <= i < r.len() && is_upper(r[i - 1]) implies !is_upper(
                #[trigger] r[i],
            ) by {
                if i == 1 {
                    assert(r[0] == s[0]);
                    assert(r[1] == tail[0]);
                    assert(tail[0] == rest[0]);
                    assert(rest[0] == s[1]);
                } else {
                    assert(r[i] == tail[i - 1]);
                    assert(r[i - 1] == tail[i - 1 - 1]);
                }
            }
        }
    }
}

/// Whether the abbreviation stands nowhere in `t`.
pub open spec fn no_abbreviation(t: Seq<char>) -> bool {
    forall|k: int| 0 <= k <= t.len() ==> !"Txn"@.is_prefix_of(#[trigger] t.skip(k))
}

/// Once the abbreviation is written out, it stands nowhere in the text.
pub proof fn lemma_expanded_has_no_abbreviation(s: Seq<char>)
    ensures
        no_abbreviation(expanded(s)),
    decreases s.len(),
{
    lemma_written_out_word();
    let w = "Transaction"@;
    let r = expanded(s);
    if s.len() == 0 {
        assert forall|k: int| 0 <= k <= r.len() implies !"Txn"@.is_prefix_of(
            #[trigger] r.skip(k),
        ) by {}
    } else if "Txn"@.is_prefix_of(s) {
        let tail = expanded(s.skip(3));
        lemma_expanded_has_no_abbreviation(s.skip(3));
        assert(r == w + tail);
        assert forall|k: int| 0 <= k <= r.len() implies !"Txn"@.is_prefix_of(
            #[trigger] r.skip(k),
        ) by {
            let here = r.skip(k);
            if k >= 11 {
                assert(here =~= tail.skip(k - 11));
            } else if "Txn"@.is_prefix_of(here) {
                assert(here.subrange(0, 3)[0] == "Txn"@[0]);
                assert(here.subrange(0, 3)[1] == "Txn"@[1]);
                assert(here[0] == r[k]);
                assert(r[k] == w[k]);
                if k == 0 {
                    assert(here[1] == r[1]);
                    assert(r[1] == w[1]);
                } else {
                    assert(!is_upper(w[k]));
                }
            }
        }
    } else {
        let rest = s.skip(1);
        let tail = expanded(rest);
        lemma_expanded_has_no_abbreviation(rest);
        lemma_expanded_first(rest);
        assert(r == seq![s[0]] + tail);
        assert forall|k: int| 0 <= k <= r.len() implies !"Txn"@.is_prefix_of(
            #[trigger] r.skip(k),
        ) by {
            let here = r.skip(k);
            if k >= 1 {
                assert(here =~= tail.skip(k - 1));
            } else if "Txn"@.is_prefix_of(here) {
                assert(here =~= r);
                assert(r.subrange(0, 3)[0] == "Txn"@[0]);
                assert(r.subrange(0, 3)[1] == "Txn"@[1]);
                assert(r.subrange(0, 3)[2] == "Txn"@[2]);
                assert(r[0] == s[0]);
                assert(r[1] == tail[0]);
                assert(r[2] == tail[1]);
                assert(tail[0] == rest[0]);
                assert(rest[0] == s[1]);
                assert(!"Txn"@.is_prefix_of(rest)) by {
                    if "Txn"@.is_prefix_of(rest) {
                        assert(rest.subrange(0, 3)[0] == "Txn"@[0]);
                    }
                }
                let further = rest.skip(1);
                assert(tail == seq![rest[0]] + expanded(further));
                assert(tail[1] == expanded(further)[0]);
                lemma_expanded_first(further);
                assert(further.len() > 0);
                assert(expanded(further)[0] == further[0]);
                assert(further[0] == s[2]);
                assert("Txn"@ =~= s.subrange(0, 3));
            }
        }
    }
}

/// Where the abbreviation does not stand, nothing is written out.
pub proof fn lemma_nothing_to_expand(t: Seq<char>, from: nat)
    requires
        no_abbreviation(t),
        from <= t.len(),
    ensures
        expanded(t.skip(from as int)) == t.skip(from as int),
    decreases t.len() - from,
{
    let rest = t.skip(from as int);
    if rest.len() > 0 {
        assert(!"Txn"@.is_prefix_of(t.skip(from as int)));
        lemma_written_out_word();
        assert(rest.skip(1) =~= t.skip(from as int + 1));
        lemma_nothing_to_expand(t, from + 1);
        assert(seq![rest[0]] + rest.skip(1) =~= rest);
    }
}

/// Writing out the abbreviation twice is writing it out once.
pub proof fn lemma_expanded_idempotent(s: Seq<char>)
    ensures
        expanded(expanded(s)) == expanded(s),
{
    let r = expanded(s);
    lemma_expanded_has_no_abbreviation(s);
    lemma_nothing_to_expand(r, 0);
    assert(r.skip(0) =~= r);
}

/// Naming is idempotent: the name of a name is that name.
pub proof fn lemma_name_idempotent(name: Seq<char>)
    ensures
        starknet_rs_name(starknet_rs_name(name)) == starknet_rs_name(name),
{
    if !is_relabel(name) {
        let p = pascal_case(name);
        let r = expanded(p);
        let t = renamed(r);
        if t == r {
            if !is_relabel(r) {
                lemma_pascal_capitalized(name, name.len());
                lemma_expanded_well_spaced(p);
                lemma_expanded_first(p);
                assert(capitalized(r));
                lemma_pascal_keeps_capitalized(r, r.len());
                assert(r.take(r.len() as int) =~= r);
                lemma_expanded_idempotent(p);
            }
        } else {
            assert(is_relabel(t));
        }
    }
}

/// A name made of ASCII upper-case letters only becomes one lower-case token:
/// its letters in lower case, with no separator between them.
pub proof fn lemma_acronym_is_one_token(name: Seq<char>)
    requires
        forall|i: int| 0 <= i < name.len() ==> 'A' <= #[trigger] name[i] <= 'Z',
    ensures
        field_name_from(name, true) == lower_all(name),
        field_name_from(name, true).len() == name.len(),
        !field_name_from(name, true).contains('_'),
{
    assert forall|i: int| 0 <= i < name.len() implies lower_all(name)[i] != '_' by {
        assert('A' <= name[i] <= 'Z');
    }
}

} // verus!
