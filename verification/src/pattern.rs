//! Compiled regular expressions, as the `regex` crate builds and runs them.
//!
//! What a pattern means is the `regex` crate's business; this module names
//! its answers. A compiled pattern remembers the source it was compiled
//! from, so every match result is tied to that source and the haystack.

use vstd::prelude::*;

verus! {

/// `regex::bytes::Regex`, carried through opaquely.
#[verifier::external_type_specification]
#[verifier::external_body]
pub struct ExBytesRegex(regex::bytes::Regex);

/// `regex::Regex`, carried through opaquely.
#[verifier::external_type_specification]
#[verifier::external_body]
pub struct ExStrRegex(regex::Regex);

/// `regex::Error`, carried through opaquely.
#[verifier::external_type_specification]
#[verifier::external_body]
pub struct ExRegexError(regex::Error);

/// Whether `regex::bytes::Regex::new` accepts `pattern` (it is valid and
/// its compiled form stays under the default size limit).
pub uninterp spec fn bytes_regex_valid(pattern: Seq<char>) -> bool;

/// Whether the bytes regex compiled from `pattern` matches anywhere in
/// `hay` (`regex::bytes::Regex::is_match`).
pub uninterp spec fn bytes_regex_matches(pattern: Seq<char>, hay: Seq<u8>) -> bool;

/// Whether `regex::Regex::new` accepts `pattern`.
pub uninterp spec fn str_regex_valid(pattern: Seq<char>) -> bool;

/// Whether the string regex compiled from `pattern` matches anywhere in
/// `hay` (`regex::Regex::is_match`).
pub uninterp spec fn str_regex_matches(pattern: Seq<char>, hay: Seq<char>) -> bool;

/// A bytes regex together with the source it was compiled from.
pub struct BytesPattern {
    source: String,
    re: regex::bytes::Regex,
}

impl View for BytesPattern {
    type V = Seq<char>;

    /// The source the pattern was compiled from.
    closed spec fn view(&self) -> Seq<char> {
        self.source@
    }
}

/// A string regex together with the source it was compiled from.
pub struct StrPattern {
    source: String,
    re: regex::Regex,
}

impl View for StrPattern {
    type V = Seq<char>;

    /// The source the pattern was compiled from.
    closed spec fn view(&self) -> Seq<char> {
        self.source@
    }
}

/// `regex::bytes::Regex::new`: compiles `pattern`; it fails exactly on the
/// patterns the crate rejects (invalid syntax, or a compiled form over the
/// default size limit).
#[verifier::external_body]
pub(crate) fn compile_bytes(pattern: &str) -> (r: Result<BytesPattern, regex::Error>)
    ensures
        r is Ok <==> bytes_regex_valid(pattern@),
        r matches Ok(c) ==> c@ == pattern@,
{
    match regex::bytes::Regex::new(pattern) {
        Ok(re) => Ok(BytesPattern { source: pattern.to_string(), re }),
        Err(e) => Err(e),
    }
}

/// `regex::Regex::new`: compiles `pattern`; it fails exactly on the
/// patterns the crate rejects.
#[verifier::external_body]
pub(crate) fn compile_str(pattern: &str) -> (r: Result<StrPattern, regex::Error>)
    ensures
        r is Ok <==> str_regex_valid(pattern@),
        r matches Ok(c) ==> c@ == pattern@,
{
    match regex::Regex::new(pattern) {
        Ok(re) => Ok(StrPattern { source: pattern.to_string(), re }),
        Err(e) => Err(e),
    }
}

/// The `Display` text of a `regex::Error`: the crate's own description of
/// what is wrong with the pattern. Nothing is stated of the text.
#[verifier::external_body]
pub(crate) fn regex_error_text(e: &regex::Error) -> String {
    e.to_string()
}

impl BytesPattern {
    /// The source this pattern was compiled from.
    pub fn source(&self) -> (r: &str)
        ensures
            r@ == self@,
    {
        self.source.as_str()
    }

    /// `regex::bytes::Regex::is_match`: whether the pattern matches anywhere
    /// in `hay`.
    #[verifier::external_body]
    pub(crate) fn is_match(&self, hay: &[u8]) -> (r: bool)
        ensures
            r == bytes_regex_matches(self@, hay@),
    {
        self.re.is_match(hay)
    }
}

impl StrPattern {
    /// The source this pattern was compiled from.
    pub fn source(&self) -> (r: &str)
        ensures
            r@ == self@,
    {
        self.source.as_str()
    }

    /// `regex::Regex::is_match`: whether the pattern matches anywhere in
    /// `hay`.
    #[verifier::external_body]
    pub(crate) fn is_match(&self, hay: &str) -> (r: bool)
        ensures
            r == str_regex_matches(self@, hay@),
    {
        self.re.is_match(hay)
    }
}

} // verus!
