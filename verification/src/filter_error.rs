//! Errors raised while building filters from their configs.

use vstd::prelude::*;
use crate::text::concat_str;

verus! {

/// `serde_json::Error`, carried through opaquely.
#[verifier::external_type_specification]
#[verifier::external_body]
pub struct ExJsonError(serde_json::Error);

/// The `Display` text of a `std::io::Error`, as the operating system and std
/// describe it. Nothing is stated of the text.
#[verifier::external_body]
pub(crate) fn io_error_text(e: &std::io::Error) -> String {
    e.to_string()
}

/// The `Display` text of a `serde_json::Error`: serde's description of the
/// failure with its line and column. Nothing is stated of the text.
#[verifier::external_body]
pub(crate) fn json_error_text(e: &serde_json::Error) -> String {
    e.to_string()
}

/// Errors raised while *building* a filter from its config. Runtime
/// inspection errors do not flow through this type: they degrade to
/// fail-open verdicts inside the filter itself.
#[derive(Debug)]
pub enum FilterError {
    /// A regex pattern was syntactically invalid.
    BadRegex(String),
    /// A status-code, method, or other config value was out of range.
    BadConfig(String),
    /// Failed to locate `uv` on `PATH` at build time.
    UvNotFound,
    /// `uv` exited non-zero while installing requirements.
    UvInstallFailed(String),
    /// I/O error during venv creation or script staging.
    Io(std::io::Error),
    /// Saved Python script failed `python -m py_compile` validation.
    PythonSyntaxError(String),
}

impl FilterError {
    /// The message of the error, for the variants whose text the crate
    /// determines (`Io` carries the operating system's own text).
    pub open spec fn spec_message(&self) -> Option<Seq<char>> {
        match self {
            FilterError::BadRegex(s) => Some("invalid regex: "@ + s@),
            FilterError::BadConfig(s) => Some("bad config: "@ + s@),
            FilterError::UvNotFound => Some(
                "uv not found on PATH (required for python_sidecar filters)"@,
            ),
            FilterError::UvInstallFailed(s) => Some("uv install failed: "@ + s@),
            FilterError::Io(_) => None,
            FilterError::PythonSyntaxError(s) => Some("python syntax error: "@ + s@),
        }
    }

    /// The human-readable message of the error (what `Display` shows). It is
    /// never empty.
    pub fn message(&self) -> (r: String)
        ensures
            r@.len() > 0,
            self.spec_message() matches Some(m) ==> r@ == m,
    {
        proof {
            reveal_strlit("invalid regex: ");
            reveal_strlit("bad config: ");
            reveal_strlit("uv not found on PATH (required for python_sidecar filters)");
            reveal_strlit("uv install failed: ");
            reveal_strlit("io: ");
            reveal_strlit("python syntax error: ");
        }
        match self {
            FilterError::BadRegex(s) => concat_str("invalid regex: ", s.as_str()),
            FilterError::BadConfig(s) => concat_str("bad config: ", s.as_str()),
            FilterError::UvNotFound => crate::text::string_of(
                "uv not found on PATH (required for python_sidecar filters)",
            ),
            FilterError::UvInstallFailed(s) => concat_str("uv install failed: ", s.as_str()),
            FilterError::Io(e) => concat_str("io: ", io_error_text(e).as_str()),
            FilterError::PythonSyntaxError(s) => concat_str("python syntax error: ", s.as_str()),
        }
    }
}

/// Errors a filter kind can produce while building from its config blob.
#[derive(Debug)]
pub enum BuildError {
    /// The config could not be deserialized into the kind's config type.
    BadConfig {
        /// The filter kind name that rejected the config.
        kind: &'static str,
        /// Underlying serde error.
        source: serde_json::Error,
    },
    /// Domain-specific build failure (e.g. regex pattern won't compile).
    Invalid {
        /// The filter kind name.
        kind: &'static str,
        /// Human-readable message suitable for the UI.
        message: String,
    },
}

impl BuildError {
    /// The message of the error, for the variant whose text the crate
    /// determines (`BadConfig` ends with serde's own text).
    pub open spec fn spec_message(&self) -> Option<Seq<char>> {
        match self {
            BuildError::BadConfig { .. } => None,
            BuildError::Invalid { kind, message } => Some(
                "filter kind "@ + kind@ + " rejected config: "@ + message@,
            ),
        }
    }

    /// The human-readable message of the error (what `Display` shows); it
    /// always names the kind.
    pub fn message(&self) -> (r: String)
        ensures
            self.spec_message() matches Some(m) ==> r@ == m,
            self matches BuildError::BadConfig { kind, .. } ==> r@.subrange(
                0,
                ("invalid config for filter kind "@.len() + kind@.len()) as int,
            ) == "invalid config for filter kind "@ + kind@,
    {
        match self {
            BuildError::BadConfig { kind, source } => {
                let mut s = concat_str("invalid config for filter kind ", kind);
                let head = s.clone();
                s.append(": ");
                s.append(json_error_text(source).as_str());
                proof {
                    assert(s@.subrange(0, head@.len() as int) =~= head@);
                }
                s
            },
            BuildError::Invalid { kind, message } => {
                let mut s = concat_str("filter kind ", kind);
                s.append(" rejected config: ");
                s.append(message.as_str());
                s
            },
        }
    }
}

/// The error for a config naming a kind nobody registered: the kind name is
/// not one of the registered (static) names, so the error carries the
/// sentinel kind `"unknown"` and names the requested kind in its message.
pub fn unknown_kind_error(kind: &str) -> (r: BuildError)
    ensures
        r matches BuildError::Invalid { kind: k, message } && k@ == "unknown"@ && message@
            == "no filter kind registered with name "@ + kind@,
{
    BuildError::Invalid {
        kind: "unknown",
        message: concat_str("no filter kind registered with name ", kind),
    }
}

} // verus!
