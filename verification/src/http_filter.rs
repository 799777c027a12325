//! HTTP-aware filter: method, path regex, header regex, body regex.
//!
//! All non-empty / non-`None` fields are AND-ed. An empty config matches
//! nothing (passes everything), a useful no-op for testing.

use vstd::prelude::*;
use crate::filter::Filter;
use crate::filter_error::{BuildError, FilterError};
use crate::packet::{Packet, RequestView};
use crate::pattern::{
    BytesPattern,
    StrPattern,
    bytes_regex_matches,
    bytes_regex_valid,
    compile_bytes,
    compile_str,
    regex_error_text,
    str_regex_matches,
    str_regex_valid,
};
use crate::text::{str_eq_ascii_ci, str_eq_ignore_ascii_case, string_of};
use crate::verdict::{Verdict, VerdictView};

verus! {

/// One header-name + value-regex pair.
#[derive(Debug, Clone)]
pub struct HeaderMatch {
    /// Header name (case-insensitive comparison).
    pub name: String,
    /// Regex matched against the header value.
    pub value_regex: String,
}

/// Configuration for [`HttpFilter`]. All non-empty / non-`None` fields are
/// AND-ed; an empty config matches nothing (passes everything).
#[derive(Debug, Clone)]
pub struct HttpConfig {
    /// If non-empty, the request method must be in this list (case-insensitive).
    pub methods: Vec<String>,
    /// If `Some`, the request path must match this regex.
    pub path_regex: Option<String>,
    /// Each entry must match (name is case-insensitive, value regex).
    pub headers: Vec<HeaderMatch>,
    /// If `Some`, the request body must match this regex (bytes engine).
    pub body_regex: Option<String>,
}

/// The conditions of an HTTP filter: the methods it lists, the path
/// pattern, the `(name, value pattern)` header conditions and the body
/// pattern.
pub struct HttpRule {
    pub methods: Seq<Seq<char>>,
    pub path: Option<Seq<char>>,
    pub headers: Seq<(Seq<char>, Seq<char>)>,
    pub body: Option<Seq<char>>,
}

/// The views of an optional string.
pub open spec fn opt_view(o: Option<String>) -> Option<Seq<char>> {
    match o {
        Some(s) => Some(s@),
        None => None,
    }
}

impl View for HttpConfig {
    type V = HttpRule;

    open spec fn view(&self) -> HttpRule {
        HttpRule {
            methods: self.methods@.map_values(|m: String| m@),
            path: opt_view(self.path_regex),
            headers: self.headers@.map_values(|h: HeaderMatch| (h.name@, h.value_regex@)),
            body: opt_view(self.body_regex),
        }
    }
}

impl Default for HttpConfig {
    fn default() -> (r: Self)
        ensures
            r@.methods.len() == 0,
            r@.path is None,
            r@.headers.len() == 0,
            r@.body is None,
    {
        HttpConfig { methods: Vec::new(), path_regex: None, headers: Vec::new(), body_regex: None }
    }
}

/// Whether a rule has any condition at all.
pub open spec fn rule_has_conditions(rule: HttpRule) -> bool {
    rule.methods.len() > 0 || rule.path is Some || rule.headers.len() > 0 || rule.body is Some
}

/// Whether every pattern of a rule compiles.
pub open spec fn rule_compiles(rule: HttpRule) -> bool {
    &&& (rule.path matches Some(pat) ==> str_regex_valid(pat))
    &&& (rule.body matches Some(pat) ==> bytes_regex_valid(pat))
    &&& forall|j: int| 0 <= j < rule.headers.len() ==> str_regex_valid(#[trigger] rule.headers[j].1)
}

/// Whether `method` is in `methods`, up to ASCII case.
pub open spec fn method_listed(methods: Seq<Seq<char>>, method: Seq<char>) -> bool {
    exists|i: int| 0 <= i < methods.len() && str_eq_ignore_ascii_case(#[trigger] methods[i], method)
}

/// Whether some header named `name` (up to ASCII case) has a value that
/// `pat` matches.
pub open spec fn header_hit(headers: Seq<(Seq<char>, Seq<char>)>, name: Seq<char>, pat: Seq<
    char,
>) -> bool {
    exists|k: int|
        0 <= k < headers.len() && str_eq_ignore_ascii_case(#[trigger] headers[k].0, name)
            && str_regex_matches(pat, headers[k].1)
}

/// Whether a rule fires on a request: it has at least one condition and
/// every condition holds.
pub open spec fn http_rule_hit(rule: HttpRule, req: RequestView) -> bool {
    &&& rule_has_conditions(rule)
    &&& (rule.methods.len() > 0 ==> method_listed(rule.methods, req.method))
    &&& (rule.path matches Some(pat) ==> str_regex_matches(pat, req.path))
    &&& forall|j: int|
        0 <= j < rule.headers.len() ==> header_hit(
            req.headers,
            #[trigger] rule.headers[j].0,
            rule.headers[j].1,
        )
    &&& (rule.body matches Some(pat) ==> bytes_regex_matches(pat, req.body))
}

/// The verdict of an HTTP filter with rule `rule` on packet `p`.
pub open spec fn http_verdict_spec(rule: HttpRule, p: Packet) -> VerdictView {
    match p {
        Packet::Raw { .. } => VerdictView::Pass,
        Packet::Http { req, .. } => if http_rule_hit(rule, req@) {
            VerdictView::Block("http filter matched"@)
        } else {
            VerdictView::Pass
        },
    }
}

/// An HTTP filter without conditions matches nothing: it passes every
/// packet, raw or HTTP.
pub proof fn law_empty_http_rule_passes(rule: HttpRule, p: Packet)
    requires
        !rule_has_conditions(rule),
    ensures
        http_verdict_spec(rule, p) == VerdictView::Pass,
{
}

/// A request the rule fires on is blocked, and one it does not fire on
/// passes: every configured condition must hold at once.
pub proof fn law_http_rule_is_a_conjunction(rule: HttpRule, p: Packet, req: RequestView)
    requires
        p matches Packet::Http { req: r, .. } && r@ == req,
    ensures
        http_verdict_spec(rule, p) is Block <==> {
            &&& rule_has_conditions(rule)
            &&& (rule.methods.len() > 0 ==> method_listed(rule.methods, req.method))
            &&& (rule.path matches Some(pat) ==> str_regex_matches(pat, req.path))
            &&& (forall|j: int|
                0 <= j < rule.headers.len() ==> header_hit(
                    req.headers,
                    #[trigger] rule.headers[j].0,
                    rule.headers[j].1,
                ))
            &&& (rule.body matches Some(pat) ==> bytes_regex_matches(pat, req.body))
        },
{
}

/// The method condition accepts a request whose method equals any listed
/// method, at any position of the list, up to ASCII case: a rule made only of
/// a method list blocks such a request.
pub proof fn law_any_listed_method_matches(rule: HttpRule, p: Packet, i: int)
    requires
        p matches Packet::Http { req, .. } && 0 <= i < rule.methods.len()
            && str_eq_ignore_ascii_case(rule.methods[i], req@.method),
        rule.path is None,
        rule.headers.len() == 0,
        rule.body is None,
    ensures
        http_verdict_spec(rule, p) == VerdictView::Block("http filter matched"@),
{
    let req = p->req;
    assert(str_eq_ignore_ascii_case(rule.methods[i], req@.method));
}

/// A request whose method equals none of the methods of a non-empty method
/// list (up to ASCII case) passes, whatever the other conditions.
pub proof fn law_unlisted_method_passes(rule: HttpRule, p: Packet)
    requires
        p matches Packet::Http { req, .. } && forall|i: int|
            0 <= i < rule.methods.len() ==> !str_eq_ignore_ascii_case(#[trigger] rule.methods[i], req@.method),
        rule.methods.len() > 0,
    ensures
        http_verdict_spec(rule, p) == VerdictView::Pass,
{
}

/// Compiled HTTP filter.
pub struct HttpFilter {
    methods: Vec<String>,
    path_re: Option<StrPattern>,
    header_matchers: Vec<(String, StrPattern)>,
    body_re: Option<BytesPattern>,
    /// Whether at least one condition is configured.
    has_conditions: bool,
}

impl HttpFilter {
    /// The rule the filter was compiled from.
    pub closed spec fn rule(&self) -> HttpRule {
        HttpRule {
            methods: self.methods@.map_values(|m: String| m@),
            path: match self.path_re {
                Some(p) => Some(p@),
                None => None,
            },
            headers: self.header_matchers@.map_values(|h: (String, StrPattern)| (h.0@, h.1@)),
            body: match self.body_re {
                Some(p) => Some(p@),
                None => None,
            },
        }
    }

    #[verifier::type_invariant]
    spec fn conditions_recorded(self) -> bool {
        self.has_conditions == rule_has_conditions(self.rule())
    }

    /// Compile a config into a runnable filter. Fails with
    /// [`FilterError::BadRegex`] exactly when one of its patterns does not
    /// compile; the path pattern is tried first, then the body pattern, then
    /// the header patterns in order.
    pub fn new(cfg: HttpConfig) -> (r: Result<Self, FilterError>)
        ensures
            r is Ok <==> rule_compiles(cfg@),
            r matches Ok(f) ==> f.rule() == cfg@,
            r matches Err(e) ==> e is BadRegex,
    {
        let ghost rule = cfg@;
        let path_re = match &cfg.path_regex {
            Some(s) => match compile_str(s.as_str()) {
                Ok(p) => Some(p),
                Err(e) => {
                    return Err(FilterError::BadRegex(regex_error_text(&e)));
                },
            },
            None => None,
        };
        let body_re = match &cfg.body_regex {
            Some(s) => match compile_bytes(s.as_str()) {
                Ok(p) => Some(p),
                Err(e) => {
                    return Err(FilterError::BadRegex(regex_error_text(&e)));
                },
            },
            None => None,
        };
        let mut header_matchers: Vec<(String, StrPattern)> = Vec::new();
        let mut j: usize = 0;
        while j < cfg.headers.len()
            invariant
                rule == cfg@,
                j <= cfg.headers@.len(),
                rule.path matches Some(pat) ==> str_regex_valid(pat),
                rule.body matches Some(pat) ==> bytes_regex_valid(pat),
                header_matchers@.len() == j,
                forall|i: int|
                    0 <= i < j ==> str_regex_valid(#[trigger] rule.headers[i].1)
                        && header_matchers@[i].0@ == rule.headers[i].0
                        && header_matchers@[i].1@ == rule.headers[i].1,
            decreases cfg.headers.len() - j,
        {
            let h = &cfg.headers[j];
            match compile_str(h.value_regex.as_str()) {
                Ok(p) => {
                    header_matchers.push((string_of(h.name.as_str()), p));
                },
                Err(e) => {
                    assert(rule.headers[j as int].1 == h.value_regex@);
                    return Err(FilterError::BadRegex(regex_error_text(&e)));
                },
            }
            j += 1;
        }
        let has_conditions = cfg.methods.len() > 0 || path_re.is_some()
            || header_matchers.len() > 0 || body_re.is_some();
        let f = HttpFilter {
            methods: cfg.methods,
            path_re,
            header_matchers,
            body_re,
            has_conditions,
        };
        proof {
            assert forall|i: int| 0 <= i < rule.headers.len() implies f.rule().headers[i]
                == rule.headers[i] by {
                assert(str_regex_valid(rule.headers[i].1));
            }
            assert(f.rule().headers =~= rule.headers);
            assert(f.rule().methods =~= rule.methods);
        }
        Ok(f)
    }

    /// Whether `method` is one of the listed methods, up to ASCII case.
    fn method_listed_exec(&self, method: &str) -> (r: bool)
        ensures
            r == method_listed(self.rule().methods, method@),
            r <==> exists|i: int|
                0 <= i < self.methods@.len() && str_eq_ignore_ascii_case(
                    #[trigger] self.methods@[i]@,
                    method@,
                ),
    {
        let ghost ms = self.rule().methods;
        let mut i: usize = 0;
        while i < self.methods.len()
            invariant
                i <= self.methods@.len(),
                ms == self.rule().methods,
                ms.len() == self.methods@.len(),
                forall|k: int| 0 <= k < i ==> !str_eq_ignore_ascii_case(#[trigger] ms[k], method@),
                forall|k: int| 0 <= k < i ==> !str_eq_ignore_ascii_case(#[trigger] self.methods@[k]@, method@),
            decreases self.methods.len() - i,
        {
            assert(ms[i as int] == self.methods@[i as int]@);
            if str_eq_ascii_ci(self.methods[i].as_str(), method) {
                assert(str_eq_ignore_ascii_case(ms[i as int], method@));
                assert(str_eq_ignore_ascii_case(self.methods@[i as int]@, method@));
                return true;
            }
            i += 1;
        }
        false
    }

    /// Whether header condition `j` holds on `headers`.
    fn header_condition_holds(&self, j: usize, headers: &Vec<(String, String)>) -> (r: bool)
        requires
            j < self.rule().headers.len(),
        ensures
            r == header_hit(
                crate::packet::pairs_view(headers@),
                self.rule().headers[j as int].0,
                self.rule().headers[j as int].1,
            ),
    {
        let ghost hs = crate::packet::pairs_view(headers@);
        let name = self.header_matchers[j].0.as_str();
        let re = &self.header_matchers[j].1;
        let mut k: usize = 0;
        while k < headers.len()
            invariant
                k <= headers@.len(),
                hs == crate::packet::pairs_view(headers@),
                hs.len() == headers@.len(),
                name@ == self.rule().headers[j as int].0,
                re@ == self.rule().headers[j as int].1,
                forall|m: int|
                    0 <= m < k ==> !(str_eq_ignore_ascii_case(#[trigger] hs[m].0, name@)
                        && str_regex_matches(re@, hs[m].1)),
            decreases headers.len() - k,
        {
            if str_eq_ascii_ci(headers[k].0.as_str(), name) && re.is_match(headers[k].1.as_str()) {
                assert(str_eq_ignore_ascii_case(hs[k as int].0, name@));
                return true;
            }
            k += 1;
        }
        false
    }
}

impl Filter for HttpFilter {
    open spec fn described(&self) -> bool {
        true
    }

    open spec fn spec_kind(&self) -> Seq<char> {
        "http"@
    }

    open spec fn spec_accepts<'a>(&self, p: Packet<'a>) -> bool {
        p is Http
    }

    open spec fn inspect_allows<'a>(&self, p: Packet<'a>, v: VerdictView) -> bool {
        v == http_verdict_spec(self.rule(), p)
    }

    fn kind(&self) -> (r: &'static str) {
        "http"
    }

    fn accepts(&self, p: &Packet) -> (r: bool) {
        match p {
            Packet::Http { .. } => true,
            Packet::Raw { .. } => false,
        }
    }

    fn inspect(&self, p: &Packet) -> (r: Verdict) {
        proof {
            use_type_invariant(self);
        }
        let req = match p {
            Packet::Http { req, .. } => *req,
            Packet::Raw { .. } => {
                return Verdict::Pass;
            },
        };
        let ghost rule = self.rule();
        if !self.has_conditions {
            return Verdict::Pass;
        }
        if self.methods.len() > 0 && !self.method_listed_exec(req.method.as_str()) {
            return Verdict::Pass;
        }
        match &self.path_re {
            Some(re) => {
                if !re.is_match(req.path.as_str()) {
                    return Verdict::Pass;
                }
            },
            None => {},
        }
        let mut j: usize = 0;
        while j < self.header_matchers.len()
            invariant
                j <= self.header_matchers@.len(),
                rule == self.rule(),
                rule.headers.len() == self.header_matchers@.len(),
                match *p {
                    Packet::Http { req: q, .. } => q == req,
                    Packet::Raw { .. } => false,
                },
                forall|i: int|
                    0 <= i < j ==> header_hit(
                        req@.headers,
                        #[trigger] rule.headers[i].0,
                        rule.headers[i].1,
                    ),
            decreases self.header_matchers.len() - j,
        {
            if !self.header_condition_holds(j, &req.headers) {
                assert(!header_hit(req@.headers, rule.headers[j as int].0, rule.headers[j as int].1));
                return Verdict::Pass;
            }
            j += 1;
        }
        match &self.body_re {
            Some(re) => {
                if !re.is_match(req.body.as_slice()) {
                    return Verdict::Pass;
                }
            },
            None => {},
        }
        proof {
            reveal_strlit("http filter matched");
        }
        Verdict::Block { reason: string_of("http filter matched") }
    }
}

/// Registry handle for [`HttpFilter`].
pub struct HttpKind;

impl HttpKind {
    /// Stable identifier persisted in configs; equal to the filter's kind.
    pub const NAME: &'static str = "http";

    /// Construct the runnable filter from a config. Fails with
    /// `BuildError::Invalid` naming this kind exactly when one of its
    /// patterns does not compile.
    ///
    /// The caller shares the filter as an `Arc<dyn Filter>`.
    pub fn build(cfg: HttpConfig) -> (r: Result<HttpFilter, BuildError>)
        ensures
            r is Ok <==> rule_compiles(cfg@),
            r matches Ok(f) ==> f.rule() == cfg@,
            r matches Err(e) ==> e matches BuildError::Invalid { kind, message } && kind@
                == "http"@ && message@.subrange(0, 15) == "invalid regex: "@,
    {
        match HttpFilter::new(cfg) {
            Ok(f) => Ok(f),
            Err(e) => {
                let message = e.message();
                proof {
                    reveal_strlit("invalid regex: ");
                    assert(message@.subrange(0, 15) =~= "invalid regex: "@);
                }
                Err(BuildError::Invalid { kind: "http", message })
            },
        }
    }
}

} // verus!
