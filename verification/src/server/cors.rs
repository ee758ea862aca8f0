//! Cross-origin resource sharing settings: off by default, and the check of
//! a request's origin against the allowed ones (exact names, `*` for all, or
//! patterns where `*` stands for any text).

use regex::Regex;
use vstd::prelude::*;

use crate::common::text::{str_contains_char, str_eq, texts};

verus! {

/// An HTTP request method.
#[derive(Debug, Clone, PartialEq, Eq)]
pub enum HttpMethod {
    Get,
    Post,
    Put,
    Delete,
    Head,
    Options,
    Connect,
    Patch,
    Trace,
    /// Any other method, by its name.
    Other(String),
}

#[verifier::external_type_specification]
#[verifier::external_body]
pub struct ExRegex(Regex);

/// Whether `regex` accepts `pattern` (its syntax and size limits).
pub uninterp spec fn regex_compiles(pattern: Seq<char>) -> bool;

/// Whether the regular expression `pattern` matches somewhere in `text`.
pub uninterp spec fn regex_is_match(pattern: Seq<char>, text: Seq<char>) -> bool;

/// A compiled regular expression, kept with the text it was compiled from.
pub struct CompiledPattern {
    source: String,
    regex: Regex,
}

impl CompiledPattern {
    /// The text the expression was compiled from.
    pub closed spec fn source(&self) -> Seq<char> {
        self.source@
    }
}

/// `regex::Regex::new`: compiles `pattern`; fails exactly when the pattern is
/// not accepted, which `regex_compiles` names. The pattern text is kept with
/// the compiled expression, so that `pattern_matches` can speak of it.
#[verifier::external_body]
fn compile_pattern(pattern: String) -> (r: Option<CompiledPattern>)
    ensures
        r is Some <==> regex_compiles(pattern@),
        r matches Some(p) ==> p.source() == pattern@,
{
    match Regex::new(&pattern) {
        Ok(regex) => Some(CompiledPattern { source: pattern, regex }),
        Err(_) => None,
    }
}

/// `regex::Regex::is_match`: whether the expression matches somewhere in
/// `text`; a function of the expression's text and `text`, named
/// `regex_is_match`.
#[verifier::external_body]
fn pattern_matches(p: &CompiledPattern, text: &str) -> (r: bool)
    ensures
        r == regex_is_match(p.source(), text@),
{
    p.regex.is_match(text)
}

/// The regular expression for an allowed origin holding `*`: dots are taken
/// literally, each `*` stands for any text, and the whole origin must match.
pub open spec fn origin_pattern(allowed: Seq<char>) -> Seq<char> {
    "^"@ + escape_origin(allowed) + "$"@
}

/// `.` written as `\.`, `*` as `.*`, other characters as they are.
pub open spec fn escape_origin(s: Seq<char>) -> Seq<char>
    decreases s.len(),
{
    if s.len() == 0 {
        seq![]
    } else {
        let rest = escape_origin(s.drop_last());
        let c = s.last();
        if c == '.' {
            rest + seq!['\\', '.']
        } else if c == '*' {
            rest + seq!['.', '*']
        } else {
            rest.push(c)
        }
    }
}

/// Some allowed origin holds `*` and its pattern compiles and matches `origin`.
pub open spec fn pattern_allows(allowed: Seq<String>, origin: Seq<char>) -> bool {
    exists|i: int|
        0 <= i < allowed.len() && (#[trigger] allowed[i])@.contains('*') && regex_compiles(origin_pattern(allowed[i]@))
            && regex_is_match(origin_pattern(allowed[i]@), origin)
}

/// Requests from `origin` are allowed under the allowed-origin list.
pub open spec fn origin_allowed(allowed: Seq<String>, origin: Seq<char>) -> bool {
    lists(allowed, "*"@) || lists(allowed, origin) || pattern_allows(allowed, origin)
}

/// Listing `*` allows every origin, and a listed origin is always allowed.
pub proof fn lemma_wildcard_and_listed_origins_allowed(allowed: Seq<String>, origin: Seq<char>)
    ensures
        lists(allowed, "*"@) ==> origin_allowed(allowed, origin),
        lists(allowed, origin) ==> origin_allowed(allowed, origin),
{
}

/// Every allowed entry holding `*` counts on its own: when its pattern
/// compiles and matches `origin`, the origin is allowed, whatever the other
/// entries are and wherever this one stands.
pub proof fn lemma_any_matching_pattern_allows(allowed: Seq<String>, origin: Seq<char>, i: int)
    requires
        0 <= i < allowed.len(),
        allowed[i]@.contains('*'),
        regex_compiles(origin_pattern(allowed[i]@)),
        regex_is_match(origin_pattern(allowed[i]@), origin),
    ensures
        origin_allowed(allowed, origin),
{
    assert(pattern_allows(allowed, origin));
}

/// Allowing more origins never refuses one that was allowed: an origin
/// allowed under `allowed` stays allowed with further entries before or
/// after it.
pub proof fn lemma_more_entries_keep_origin_allowed(allowed: Seq<String>, extra: Seq<String>, origin: Seq<char>)
    requires
        origin_allowed(allowed, origin),
    ensures
        origin_allowed(allowed + extra, origin),
        origin_allowed(extra + allowed, origin),
{
    let after = allowed + extra;
    let before = extra + allowed;
    let n = extra.len() as int;
    if lists(allowed, "*"@) {
        let i = choose|i: int| 0 <= i < allowed.len() && (#[trigger] allowed[i])@ == "*"@;
        assert(after[i] == allowed[i]);
        assert(before[i + n] == allowed[i]);
        assert(lists(after, "*"@));
        assert(lists(before, "*"@));
    } else if lists(allowed, origin) {
        let i = choose|i: int| 0 <= i < allowed.len() && (#[trigger] allowed[i])@ == origin;
        assert(after[i] == allowed[i]);
        assert(before[i + n] == allowed[i]);
        assert(lists(after, origin));
        assert(lists(before, origin));
    } else {
        let i = choose|i: int|
            0 <= i < allowed.len() && (#[trigger] allowed[i])@.contains('*') && regex_compiles(
                origin_pattern(allowed[i]@),
            ) && regex_is_match(origin_pattern(allowed[i]@), origin);
        assert(after[i] == allowed[i]);
        assert(before[i + n] == allowed[i]);
        lemma_any_matching_pattern_allows(after, origin, i);
        lemma_any_matching_pattern_allows(before, origin, i + n);
    }
}

/// `t` is one of the listed texts.
pub open spec fn lists(v: Seq<String>, t: Seq<char>) -> bool {
    exists|i: int| 0 <= i < v.len() && (#[trigger] v[i])@ == t
}

/// CORS settings.
#[derive(Debug, Clone)]
pub struct CorsConfig {
    /// Whether CORS is on.
    pub enabled: bool,
    /// Allowed origins (`*` allows all; a `*` inside stands for any text).
    pub allowed_origins: Vec<String>,
    /// Allowed methods.
    pub allowed_methods: Vec<HttpMethod>,
    /// Allowed request headers.
    pub allowed_headers: Vec<String>,
    /// Response headers exposed to the page.
    pub exposed_headers: Vec<String>,
    /// Whether credentials may be sent.
    pub allow_credentials: bool,
    /// How long (seconds) a preflight answer may be cached.
    pub max_age: Option<u64>,
}

/// The default methods: GET, POST, PUT, DELETE, OPTIONS, HEAD, PATCH.
pub open spec fn default_methods() -> Seq<HttpMethod> {
    seq![
        HttpMethod::Get,
        HttpMethod::Post,
        HttpMethod::Put,
        HttpMethod::Delete,
        HttpMethod::Options,
        HttpMethod::Head,
        HttpMethod::Patch,
    ]
}

impl Default for CorsConfig {
    /// Off; every origin, the common methods, the `Content-Type`,
    /// `Authorization` and `X-Requested-With` headers, nothing exposed, no
    /// credentials, preflight answers cached for a day.
    fn default() -> (r: Self)
        ensures
            !r.enabled,
            texts(r.allowed_origins@) == seq!["*"@],
            r.allowed_methods@ == default_methods(),
            texts(r.allowed_headers@) == seq!["Content-Type"@, "Authorization"@, "X-Requested-With"@],
            r.exposed_headers@.len() == 0,
            !r.allow_credentials,
            r.max_age == Some(86400u64),
    {
        let origins: Vec<String> = vec![String::from_str("*")];
        let methods: Vec<HttpMethod> = vec![
            HttpMethod::Get,
            HttpMethod::Post,
            HttpMethod::Put,
            HttpMethod::Delete,
            HttpMethod::Options,
            HttpMethod::Head,
            HttpMethod::Patch,
        ];
        let headers: Vec<String> = vec![
            String::from_str("Content-Type"),
            String::from_str("Authorization"),
            String::from_str("X-Requested-With"),
        ];
        assert(texts(origins@) =~= seq!["*"@]);
        assert(methods@ =~= default_methods());
        assert(texts(headers@) =~= seq!["Content-Type"@, "Authorization"@, "X-Requested-With"@]);
        CorsConfig {
            enabled: false,
            allowed_origins: origins,
            allowed_methods: methods,
            allowed_headers: headers,
            exposed_headers: Vec::new(),
            allow_credentials: false,
            max_age: Some(86400),
        }
    }
}

/// Whether `t` is one of the listed texts.
fn listed(v: &Vec<String>, t: &str) -> (r: bool)
    ensures
        r == lists(v@, t@),
{
    let mut i: usize = 0;
    while i < v.len()
        invariant
            i <= v.len(),
            forall|j: int| 0 <= j < i ==> (#[trigger] v@[j])@ != t@,
        decreases v.len() - i,
    {
        if str_eq(v[i].as_str(), t) {
            return true;
        }
        i = i + 1;
    }
    false
}

/// The pattern text for an allowed origin holding `*`.
fn origin_pattern_of(allowed: &str) -> (r: String)
    ensures
        r@ == origin_pattern(allowed@),
{
    let n = allowed.unicode_len();
    let mut out = String::from_str("^");
    let mut i: usize = 0;
    while i < n
        invariant
            i <= n,
            n == allowed@.len(),
            out@ == "^"@ + escape_origin(allowed@.subrange(0, i as int)),
        decreases n - i,
    {
        let c = allowed.get_char(i);
        proof {
            assert(allowed@.subrange(0, i + 1).drop_last() =~= allowed@.subrange(0, i as int));
        }
        if c == '.' {
            crate::common::text::string_push(&mut out, '\\');
            crate::common::text::string_push(&mut out, '.');
            assert(out@ =~= "^"@ + escape_origin(allowed@.subrange(0, i + 1)));
        } else if c == '*' {
            crate::common::text::string_push(&mut out, '.');
            crate::common::text::string_push(&mut out, '*');
            assert(out@ =~= "^"@ + escape_origin(allowed@.subrange(0, i + 1)));
        } else {
            crate::common::text::string_push(&mut out, c);
            assert(out@ =~= "^"@ + escape_origin(allowed@.subrange(0, i + 1)));
        }
        i = i + 1;
    }
    assert(allowed@.subrange(0, n as int) =~= allowed@);
    crate::common::text::push_str(&mut out, "$");
    out
}

impl CorsConfig {
    /// The default settings (CORS off).
    pub fn new() -> (r: Self)
        ensures
            !r.enabled,
            texts(r.allowed_origins@) == seq!["*"@],
            r.allowed_methods@ == default_methods(),
            texts(r.allowed_headers@) == seq!["Content-Type"@, "Authorization"@, "X-Requested-With"@],
            r.exposed_headers@.len() == 0,
            !r.allow_credentials,
            r.max_age == Some(86400u64),
    {
        Self::default()
    }

    /// Turns CORS on.
    pub fn enable(self) -> (r: Self)
        ensures
            r == (CorsConfig { enabled: true, ..self }),
    {
        let mut s = self;
        s.enabled = true;
        s
    }

    /// Turns CORS off.
    pub fn disable(self) -> (r: Self)
        ensures
            r == (CorsConfig { enabled: false, ..self }),
    {
        let mut s = self;
        s.enabled = false;
        s
    }

    /// Replaces the allowed origins.
    pub fn allowed_origins(self, origins: Vec<String>) -> (r: Self)
        ensures
            r == (CorsConfig { allowed_origins: origins, ..self }),
    {
        let mut s = self;
        s.allowed_origins = origins;
        s
    }

    /// Replaces the allowed methods.
    pub fn allowed_methods(self, methods: Vec<HttpMethod>) -> (r: Self)
        ensures
            r == (CorsConfig { allowed_methods: methods, ..self }),
    {
        let mut s = self;
        s.allowed_methods = methods;
        s
    }

    /// Replaces the allowed request headers.
    pub fn allowed_headers(self, headers: Vec<String>) -> (r: Self)
        ensures
            r == (CorsConfig { allowed_headers: headers, ..self }),
    {
        let mut s = self;
        s.allowed_headers = headers;
        s
    }

    /// Replaces the exposed response headers.
    pub fn exposed_headers(self, headers: Vec<String>) -> (r: Self)
        ensures
            r == (CorsConfig { exposed_headers: headers, ..self }),
    {
        let mut s = self;
        s.exposed_headers = headers;
        s
    }

    /// Sets whether credentials may be sent.
    pub fn allow_credentials(self, allow: bool) -> (r: Self)
        ensures
            r == (CorsConfig { allow_credentials: allow, ..self }),
    {
        let mut s = self;
        s.allow_credentials = allow;
        s
    }

    /// Sets how long a preflight answer may be cached.
    pub fn max_age(self, age: u64) -> (r: Self)
        ensures
            r == (CorsConfig { max_age: Some(age), ..self }),
    {
        let mut s = self;
        s.max_age = Some(age);
        s
    }

    /// Whether requests from `origin` are allowed: when `*` is listed, when
    /// the origin itself is listed, or when a listed pattern holding `*`
    /// matches the whole origin (dots literal, `*` any text).
    pub fn is_origin_allowed(&self, origin: &str) -> (r: bool)
        ensures
            r == origin_allowed(self.allowed_origins@, origin@),
    {
        if listed(&self.allowed_origins, "*") {
            return true;
        }
        if listed(&self.allowed_origins, origin) {
            return true;
        }
        let mut i: usize = 0;
        while i < self.allowed_origins.len()
            invariant
                i <= self.allowed_origins.len(),
                forall|j: int|
                    0 <= j < i ==> !((#[trigger] self.allowed_origins@[j])@.contains('*') && regex_compiles(
                        origin_pattern(self.allowed_origins@[j]@),
                    ) && regex_is_match(origin_pattern(self.allowed_origins@[j]@), origin@)),
            decreases self.allowed_origins.len() - i,
        {
            let allowed = self.allowed_origins[i].as_str();
            if str_contains_char(allowed, '*') {
                let pattern = origin_pattern_of(allowed);
                match compile_pattern(pattern) {
                    Some(p) => {
                        if pattern_matches(&p, origin) {
                            return true;
                        }
                    },
                    None => {},
                }
            }
            i = i + 1;
        }
        false
    }
}

} // verus!
