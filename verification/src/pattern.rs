//! The patterns that the name and documentation transforms search for, behind
//! the regular-expression engine of the `regex` crate.
//!
//! What the engine accepts and finds is not modelled here. It is named: the
//! contracts speak of `pattern_compiles`, `pattern_matches` and
//! `pattern_replaced`, and the three wrappers below are believed to return
//! what these names stand for. The names speak of expressions compiled with
//! the engine's default settings, which is what `compiled_plainly` says of an
//! expression.

use vstd::prelude::*;
use regex::Regex;
use crate::error::CodegenError;

verus! {

/// `regex::Regex`: a compiled expression. Nothing of its inside is known here.
#[verifier::external_type_specification]
#[verifier::external_body]
pub struct ExRegex(regex::Regex);

/// `regex::Error`: why an expression did not compile. Nothing of its inside
/// is known here.
#[verifier::external_type_specification]
#[verifier::external_body]
pub struct ExRegexError(regex::Error);

/// The pattern text that a compiled expression was made from: what
/// `Regex::as_str` returns for it.
pub uninterp spec fn pattern_of(re: Regex) -> Seq<char>;

/// Whether the engine, with its default settings, accepts `pattern` as an
/// expression.
pub uninterp spec fn pattern_compiles(pattern: Seq<char>) -> bool;

/// Whether an expression was compiled with the engine's default settings, so
/// that its pattern text alone says what it matches.
pub uninterp spec fn compiled_plainly(re: Regex) -> bool;

/// Whether the expression written as `pattern` has a match somewhere in `text`.
pub uninterp spec fn pattern_matches(pattern: Seq<char>, text: Seq<char>) -> bool;

/// `text` with every non-overlapping match of the expression written as
/// `pattern` replaced by the expansion of `replacement`.
pub uninterp spec fn pattern_replaced(
    pattern: Seq<char>,
    text: Seq<char>,
    replacement: Seq<char>,
) -> Seq<char>;

/// `Regex::new`: compiles `pattern` with the engine's default settings.
/// Whether the call succeeds depends on the pattern alone; where it succeeds,
/// the expression is that of `pattern`.
#[verifier::external_body]
fn compile(pattern: &str) -> (r: Result<Regex, regex::Error>)
    ensures
        r is Ok <==> pattern_compiles(pattern@),
        r matches Ok(re) ==> pattern_of(re) == pattern@ && compiled_plainly(re),
{
    Regex::new(pattern)
}

/// `Regex::is_match`: whether the expression has a match anywhere in `text`.
/// For an expression compiled with the default settings the answer depends on
/// the pattern text and on `text` alone.
#[verifier::external_body]
fn is_match(re: &Regex, text: &str) -> (r: bool)
    requires
        compiled_plainly(*re),
    ensures
        r == pattern_matches(pattern_of(*re), text@),
{
    re.is_match(text)
}

/// `Regex::replace_all`: replaces all non-overlapping matches in `text` by
/// `replacement`. For an expression compiled with the default settings the
/// result depends on the pattern text, on `text` and on `replacement` alone.
#[verifier::external_body]
fn replace_all(re: &Regex, text: &str, replacement: &str) -> (r: String)
    requires
        compiled_plainly(*re),
    ensures
        r@ == pattern_replaced(pattern_of(*re), text@, replacement@),
{
    re.replace_all(text, replacement).into_owned()
}

/// A name made of ASCII upper-case letters only.
pub open spec fn all_upper_pattern() -> Seq<char> {
    "^[A-Z]+$"@
}

/// The word `ethereum`, in any case.
pub open spec fn ethereum_pattern() -> Seq<char> {
    "(?i)\\bethereum\\b"@
}

/// The word `starknet`, in any case.
pub open spec fn starknet_pattern() -> Seq<char> {
    "(?i)\\bstarknet\\b"@
}

/// The host name `starknet.io`, in any case.
pub open spec fn starknet_io_pattern() -> Seq<char> {
    "(?i)\\bstarknet\\.io\\b"@
}

/// The word `l1`.
pub open spec fn l1_pattern() -> Seq<char> {
    "\\bl1\\b"@
}

/// The word `l2`.
pub open spec fn l2_pattern() -> Seq<char> {
    "\\bl2\\b"@
}

/// The word `unix`.
pub open spec fn unix_pattern() -> Seq<char> {
    "\\bunix\\b"@
}

/// Whether the engine accepts every pattern of the transforms.
pub open spec fn patterns_compile() -> bool {
    &&& pattern_compiles(all_upper_pattern())
    &&& pattern_compiles(ethereum_pattern())
    &&& pattern_compiles(starknet_pattern())
    &&& pattern_compiles(starknet_io_pattern())
    &&& pattern_compiles(l1_pattern())
    &&& pattern_compiles(l2_pattern())
    &&& pattern_compiles(unix_pattern())
}

/// `text` with the proper nouns and abbreviations of the domain restored to
/// their canonical spelling, one pattern after the other.
pub open spec fn nouns_restored(text: Seq<char>) -> Seq<char> {
    let t1 = pattern_replaced(ethereum_pattern(), text, "Ethereum"@);
    let t2 = pattern_replaced(starknet_pattern(), t1, "Starknet"@);
    let t3 = pattern_replaced(starknet_io_pattern(), t2, "starknet.io"@);
    let t4 = pattern_replaced(l1_pattern(), t3, "L1"@);
    let t5 = pattern_replaced(l2_pattern(), t4, "L2"@);
    pattern_replaced(unix_pattern(), t5, "Unix"@)
}

/// The compiled patterns of the name and documentation transforms.
pub struct DocPatterns {
    all_upper: Regex,
    ethereum: Regex,
    starknet: Regex,
    starknet_io: Regex,
    l1: Regex,
    l2: Regex,
    unix: Regex,
}

impl DocPatterns {
    #[verifier::type_invariant]
    spec fn well_formed(self) -> bool {
        &&& pattern_of(self.all_upper) == all_upper_pattern()
        &&& pattern_of(self.ethereum) == ethereum_pattern()
        &&& pattern_of(self.starknet) == starknet_pattern()
        &&& pattern_of(self.starknet_io) == starknet_io_pattern()
        &&& pattern_of(self.l1) == l1_pattern()
        &&& pattern_of(self.l2) == l2_pattern()
        &&& pattern_of(self.unix) == unix_pattern()
        &&& compiled_plainly(self.all_upper)
        &&& compiled_plainly(self.ethereum)
        &&& compiled_plainly(self.starknet)
        &&& compiled_plainly(self.starknet_io)
        &&& compiled_plainly(self.l1)
        &&& compiled_plainly(self.l2)
        &&& compiled_plainly(self.unix)
    }

    /// Compiles the patterns. The call succeeds exactly where the engine
    /// accepts every one of them, and fails with `InvalidPattern` where it
    /// rejects one.
    pub fn compile() -> (r: Result<DocPatterns, CodegenError>)
        ensures
            r is Ok <==> patterns_compile(),
            r matches Err(e) ==> e is InvalidPattern,
    {
        let all_upper = match compile("^[A-Z]+$") {
            Ok(re) => re,
            Err(_) => {
                return Err(CodegenError::InvalidPattern);
            },
        };
        let ethereum = match compile("(?i)\\bethereum\\b") {
            Ok(re) => re,
            Err(_) => {
                return Err(CodegenError::InvalidPattern);
            },
        };
        let starknet = match compile("(?i)\\bstarknet\\b") {
            Ok(re) => re,
            Err(_) => {
                return Err(CodegenError::InvalidPattern);
            },
        };
        let starknet_io = match compile("(?i)\\bstarknet\\.io\\b") {
            Ok(re) => re,
            Err(_) => {
                return Err(CodegenError::InvalidPattern);
            },
        };
        let l1 = match compile("\\bl1\\b") {
            Ok(re) => re,
            Err(_) => {
                return Err(CodegenError::InvalidPattern);
            },
        };
        let l2 = match compile("\\bl2\\b") {
            Ok(re) => re,
            Err(_) => {
                return Err(CodegenError::InvalidPattern);
            },
        };
        let unix = match compile("\\bunix\\b") {
            Ok(re) => re,
            Err(_) => {
                return Err(CodegenError::InvalidPattern);
            },
        };
        Ok(DocPatterns { all_upper, ethereum, starknet, starknet_io, l1, l2, unix })
    }

    /// Whether `name` is made of ASCII upper-case letters only, as the
    /// pattern engine sees it.
    pub fn is_all_upper(&self, name: &str) -> (r: bool)
        ensures
            r == pattern_matches(all_upper_pattern(), name@),
    {
        proof {
            use_type_invariant(self);
        }
        is_match(&self.all_upper, name)
    }

    /// `text` with the proper nouns and abbreviations of the domain restored
    /// to their canonical spelling.
    pub fn restore_nouns(&self, text: &str) -> (r: String)
        ensures
            r@ == nouns_restored(text@),
    {
        proof {
            use_type_invariant(self);
        }
        let t1 = replace_all(&self.ethereum, text, "Ethereum");
        let t2 = replace_all(&self.starknet, t1.as_str(), "Starknet");
        let t3 = replace_all(&self.starknet_io, t2.as_str(), "starknet.io");
        let t4 = replace_all(&self.l1, t3.as_str(), "L1");
        let t5 = replace_all(&self.l2, t4.as_str(), "L2");
        replace_all(&self.unix, t5.as_str(), "Unix")
    }
}

} // verus!
