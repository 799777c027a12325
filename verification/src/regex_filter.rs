//! Raw-byte regex filter. Matches against the raw bytes of `Packet::Raw`
//! and against `method SP path body` for `Packet::Http`.

use vstd::prelude::*;
use vstd::utf8::encode_utf8;
use crate::filter::Filter;
use crate::filter_error::{BuildError, FilterError};
use crate::packet::Packet;
use crate::pattern::{
    BytesPattern,
    bytes_regex_matches,
    bytes_regex_valid,
    compile_bytes,
    regex_error_text,
};
use crate::text::{concat_str, extend_bytes, extend_str};
use crate::verdict::{Verdict, VerdictView};

verus! {

/// The bytes a regex filter searches: the raw bytes of a raw packet, or
/// `method`, a space, `path` and the body of an HTTP request, back to back.
pub open spec fn regex_subject(p: Packet) -> Seq<u8> {
    match p {
        Packet::Raw { bytes, .. } => bytes@,
        Packet::Http { req, .. } => encode_utf8(req.method@) + seq![32u8] + encode_utf8(req.path@)
            + req.body@,
    }
}

/// The block reason of a regex filter with source `pattern`.
pub open spec fn regex_reason(pattern: Seq<char>) -> Seq<char> {
    "regex matched: "@ + pattern
}

/// The verdict of a regex filter with source `pattern`, given whether the
/// pattern matched.
pub open spec fn regex_verdict_spec(pattern: Seq<char>, matched: bool) -> VerdictView {
    if matched {
        VerdictView::Block(regex_reason(pattern))
    } else {
        VerdictView::Pass
    }
}

/// The verdict of a regex filter with source `pattern` once the match has
/// been run: `Block` naming the pattern when it matched, `Pass` otherwise.
pub fn regex_verdict(pattern: &str, matched: bool) -> (r: Verdict)
    ensures
        r@ == regex_verdict_spec(pattern@, matched),
{
    if matched {
        proof {
            reveal_strlit("regex matched: ");
        }
        Verdict::Block { reason: concat_str("regex matched: ", pattern) }
    } else {
        Verdict::Pass
    }
}

/// A compiled regex matcher. Cheap to share via `Arc<dyn Filter>`.
pub struct RegexFilter {
    re: BytesPattern,
}

impl RegexFilter {
    /// The source of the filter's pattern.
    pub closed spec fn pattern(&self) -> Seq<char> {
        self.re@
    }

    /// Compile `pattern` into a `RegexFilter`. Fails with
    /// [`FilterError::BadRegex`] exactly when the pattern does not compile.
    pub fn new(pattern: &str) -> (r: Result<Self, FilterError>)
        ensures
            r is Ok <==> bytes_regex_valid(pattern@),
            r matches Ok(f) ==> f.pattern() == pattern@,
            r matches Err(e) ==> e is BadRegex,
    {
        match compile_bytes(pattern) {
            Ok(re) => Ok(RegexFilter { re }),
            Err(e) => Err(FilterError::BadRegex(regex_error_text(&e))),
        }
    }

    /// The source of the filter's pattern.
    pub fn pattern_source(&self) -> (r: &str)
        ensures
            r@ == self.pattern(),
    {
        self.re.source()
    }
}

impl Filter for RegexFilter {
    open spec fn described(&self) -> bool {
        true
    }

    open spec fn spec_kind(&self) -> Seq<char> {
        "regex"@
    }

    open spec fn spec_accepts<'a>(&self, p: Packet<'a>) -> bool {
        true
    }

    open spec fn inspect_allows<'a>(&self, p: Packet<'a>, v: VerdictView) -> bool {
        v == regex_verdict_spec(
            self.pattern(),
            bytes_regex_matches(self.pattern(), regex_subject(p)),
        )
    }

    fn kind(&self) -> (r: &'static str) {
        "regex"
    }

    fn accepts(&self, p: &Packet) -> (r: bool) {
        true
    }

    fn inspect(&self, p: &Packet) -> (r: Verdict) {
        let matched = match p {
            Packet::Raw { bytes, .. } => self.re.is_match(bytes),
            Packet::Http { req, .. } => {
                let mut buf: Vec<u8> = Vec::new();
                extend_str(&mut buf, req.method.as_str());
                buf.push(32u8);
                extend_str(&mut buf, req.path.as_str());
                extend_bytes(&mut buf, req.body.as_slice());
                proof {
                    assert(buf@ =~= regex_subject(*p));
                }
                self.re.is_match(buf.as_slice())
            },
        };
        regex_verdict(self.re.source(), matched)
    }
}

/// JSON-schema config for [`RegexFilter`].
#[derive(Debug, Clone)]
pub struct RegexConfig {
    /// Regular expression. Uses the `regex` crate's bytes engine; PCRE
    /// constructs like backreferences are not supported.
    pub pattern: String,
}

/// Registry handle for [`RegexFilter`].
pub struct RegexKind;

impl RegexKind {
    /// Stable identifier persisted in configs; equal to the filter's kind.
    pub const NAME: &'static str = "regex";

    /// Construct the runnable filter from a config. Fails with
    /// `BuildError::Invalid` naming this kind, and carrying the message of
    /// the `BadRegex` error, exactly when the pattern does not compile.
    ///
    /// The caller shares the filter as an `Arc<dyn Filter>`.
    pub fn build(cfg: RegexConfig) -> (r: Result<RegexFilter, BuildError>)
        ensures
            r is Ok <==> bytes_regex_valid(cfg.pattern@),
            r matches Ok(f) ==> f.pattern() == cfg.pattern@,
            r matches Err(e) ==> e matches BuildError::Invalid { kind, message } && kind@
                == "regex"@ && message@.subrange(0, 15) == "invalid regex: "@,
    {
        match RegexFilter::new(cfg.pattern.as_str()) {
            Ok(f) => Ok(f),
            Err(e) => {
                let message = e.message();
                proof {
                    reveal_strlit("invalid regex: ");
                    assert(message@.subrange(0, 15) =~= "invalid regex: "@);
                }
                Err(BuildError::Invalid { kind: "regex", message })
            },
        }
    }
}

} // verus!
