//! API-key authentication for the HTTP transport.
//!
//! Keys are compared by their SHA-256 digests with a comparison whose running
//! time does not depend on where the digests differ.
use vstd::prelude::*;
use sha2::Digest;
use crate::json::{Json, JsonV, fields_view, member, object};
use crate::text::{
    chars_of, contains_seq, eq_ignore_ascii_case, eq_ignore_case, ends_with, find_from, find_from_exec, lower, lower_vec, owned, string_of, string_of_range, strip_trailing, strip_trailing_str,
    trim, trim_str};
use crate::textmap::TextMap;

verus! {

broadcast use vstd::string::group_string_axioms;

/// JSON-RPC error code for an unauthorized request.
pub const UNAUTHORIZED_CODE: i64 = -32001;

/// HTTP status for an unauthorized request.
pub const UNAUTHORIZED_STATUS: u16 = 401;

/// The `WWW-Authenticate` value sent with a 401.
pub const WWW_AUTHENTICATE: &'static str = "Bearer realm=\"mcp\", charset=\"UTF-8\"";

/// Authentication options: an expected API key, or none.
pub struct AuthOptions {
    pub api_key: Option<String>,
}

impl AuthOptions {
    /// Requires requests to carry `api_key` in `X-API-Key`.
    pub fn with_api_key(api_key: &str) -> (r: Self)
        ensures
            r.api_key matches Some(k) && k@ == api_key@,
    {
        AuthOptions { api_key: Some(owned(api_key)) }
    }

    /// No authentication.
    pub fn none() -> (r: Self)
        ensures
            r.api_key is None,
    {
        AuthOptions { api_key: None }
    }

    pub fn clone_options(&self) -> (r: Self)
        ensures
            r.api_key == self.api_key,
    {
        AuthOptions { api_key: self.api_key.clone() }
    }
}

impl Default for AuthOptions {
    fn default() -> (r: Self)
        ensures
            r.api_key is None,
    {
        AuthOptions::none()
    }
}

/// Is any authentication configured?
pub fn is_auth_enabled(options: &AuthOptions) -> (r: bool)
    ensures
        r == (options.api_key is Some),
{
    options.api_key.is_some()
}

// ─── Digests ────────────────────────────────────────────────────────────────

/// The SHA-256 digest of the UTF-8 encoding of a text.
pub uninterp spec fn sha256_digest(text: Seq<char>) -> Seq<u8>;

/// SHA-256 of the UTF-8 bytes of `value` (`sha2::Sha256::digest`).
///
/// Trusted: the result is the digest that `sha2` computes, named
/// `sha256_digest` of the text, and has 32 bytes.
#[verifier::external_body]
pub fn sha256_bytes(value: &str) -> (r: [u8; 32])
    ensures
        r@ == sha256_digest(value@),
        r@.len() == 32,
{
    let out = sha2::Sha256::digest(value.as_bytes());
    let mut arr = [0u8; 32];
    arr.copy_from_slice(&out);
    arr
}

/// Equality of two byte strings, looking at every byte of equal-length inputs.
pub fn constant_time_eq(a: &[u8], b: &[u8]) -> (r: bool)
    ensures
        r == (a@ == b@),
{
    if a.len() != b.len() {
        return false;
    }
    let mut acc: u8 = 0;
    let mut i: usize = 0;
    while i < a.len()
        invariant
            i <= a@.len(),
            a@.len() == b@.len(),
            (acc == 0) == (forall|j: int| 0 <= j < i ==> a@[j] == b@[j]),
        decreases a.len() - i,
    {
        let x = a[i];
        let y = b[i];
        assert(((acc | (x ^ y)) == 0) == (acc == 0 && x == y)) by (bit_vector);
        acc = acc | (x ^ y);
        i = i + 1;
    }
    if acc == 0 {
        assert(a@ =~= b@);
    }
    acc == 0
}

/// Does `provided` match `expected`? Missing or empty keys never match;
/// otherwise the SHA-256 digests of the two keys are compared.
pub open spec fn api_key_matches(expected: Seq<char>, provided: Option<Seq<char>>) -> bool {
    match provided {
        None => false,
        Some(p) => p.len() > 0 && sha256_digest(expected) == sha256_digest(p),
    }
}

/// The text of an optional string slice.
pub open spec fn opt_view(o: Option<&str>) -> Option<Seq<char>> {
    match o {
        Some(s) => Some(s@),
        None => None,
    }
}

/// Compares an API key with the expected one by their digests.
pub fn verify_api_key(expected: &str, provided: Option<&str>) -> (r: bool)
    ensures
        r == api_key_matches(expected@, opt_view(provided)),
{
    match provided {
        None => false,
        Some(p) => {
            if p.is_empty() {
                return false;
            }
            let de = sha256_bytes(expected);
            let dp = sha256_bytes(p);
            constant_time_eq(&de, &dp)
        },
    }
}

/// A non-empty key is always accepted as itself.
pub proof fn lemma_key_accepts_itself(key: Seq<char>)
    requires
        key.len() > 0,
    ensures
        api_key_matches(key, Some(key)),
{
}

// ─── Headers ────────────────────────────────────────────────────────────────

/// Position of the first entry whose name equals `name` ignoring ASCII case, or `-1`.
pub open spec fn first_named<V>(s: Seq<(Seq<char>, V)>, name: Seq<char>) -> int
    decreases s.len(),
{
    if s.len() == 0 {
        -1
    } else if eq_ignore_case(s[0].0, name) {
        0
    } else {
        let r = first_named(s.drop_first(), name);
        if r < 0 {
            -1
        } else {
            r + 1
        }
    }
}

pub proof fn lemma_first_named<V>(s: Seq<(Seq<char>, V)>, name: Seq<char>)
    ensures
        -1 <= first_named(s, name) < s.len(),
        first_named(s, name) >= 0 ==> eq_ignore_case(s[first_named(s, name)].0, name),
        forall|j: int|
            0 <= j < s.len() && (first_named(s, name) == -1 || j < first_named(s, name))
                ==> !eq_ignore_case(#[trigger] s[j].0, name),
    decreases s.len(),
{
    if s.len() > 0 && !eq_ignore_case(s[0].0, name) {
        let t = s.drop_first();
        lemma_first_named(t, name);
        assert forall|j: int|
            0 <= j < s.len() && (first_named(s, name) == -1 || j < first_named(s, name))
                implies !eq_ignore_case(#[trigger] s[j].0, name) by {
            if j > 0 {
                assert(s[j] == t[j - 1]);
            }
        }
    }
}

proof fn lemma_lower_idempotent(s: Seq<char>)
    ensures
        lower(lower(s)) == lower(s),
{
    assert(lower(lower(s)) =~= lower(s));
}

/// Text before the first `,` (all of it when there is none).
pub open spec fn before_comma(v: Seq<char>) -> Seq<char> {
    match find_from(v, seq![','], 0) {
        Some(i) => v.subrange(0, i),
        None => v,
    }
}

/// The first comma-separated part of a header value, trimmed; `None` if empty.
pub open spec fn first_header_part(v: Seq<char>) -> Option<Seq<char>> {
    if trim(before_comma(v)).len() == 0 {
        None
    } else {
        Some(trim(before_comma(v)))
    }
}

/// The value of header `name` (first matching entry, ASCII case ignored).
pub open spec fn header_lookup(headers: Seq<(Seq<char>, String)>, name: Seq<char>) -> Option<Seq<char>> {
    let i = first_named(headers, name);
    if i < 0 {
        None
    } else {
        first_header_part(headers[i].1@)
    }
}

proof fn lemma_first_named_ignores_case<V>(s: Seq<(Seq<char>, V)>, a: Seq<char>, b: Seq<char>)
    requires
        eq_ignore_case(a, b),
    ensures
        first_named(s, a) == first_named(s, b),
    decreases s.len(),
{
    if s.len() > 0 {
        lemma_first_named_ignores_case(s.drop_first(), a, b);
    }
}

/// Header names are matched ignoring ASCII case: names that differ only in
/// case read the same value, which is the trimmed first comma-separated part
/// of the first matching entry, never empty and without a comma.
pub proof fn lemma_header_lookup_ignores_case(headers: Seq<(Seq<char>, String)>, a: Seq<char>, b: Seq<char>)
    requires
        eq_ignore_case(a, b),
    ensures
        header_lookup(headers, a) == header_lookup(headers, b),
        header_lookup(headers, a) matches Some(v) ==> v.len() > 0 && v == trim(v) && !contains_seq(v, seq![',']),
{
    lemma_first_named_ignores_case(headers, a, b);
    if header_lookup(headers, a) is Some {
        let i = first_named(headers, a);
        let raw = headers[i].1@;
        let part = before_comma(raw);
        let v = trim(part);
        crate::text::lemma_find_from_complete(raw, seq![','], 0);
        assert(!contains_seq(part, seq![','])) by {
            if contains_seq(part, seq![',']) {
                let k = choose|k: int| crate::text::occurs_at(part, seq![','], k);
                assert(part.subrange(k, k + 1)[0] == part[k]);
                assert(part[k] == ',');
                assert(raw[k] == ',');
                assert(raw.subrange(k, k + 1) =~= seq![',']);
                assert(crate::text::occurs_at(raw, seq![','], k));
            }
        }
        crate::text::lemma_trim_is_infix(part);
        assert(!contains_seq(v, seq![','])) by {
            if contains_seq(v, seq![',']) {
                let k = choose|k: int| crate::text::occurs_at(v, seq![','], k);
                let off = part.len() - crate::text::trim_start(part).len();
                assert(v.subrange(k, k + 1)[0] == v[k]);
                assert(part[off + k] == v[k]);
                assert(part.subrange(off + k, off + k + 1) =~= seq![',']);
                assert(crate::text::occurs_at(part, seq![','], off + k));
            }
        }
        crate::text::lemma_trim_trimmed(part);
    }
}

/// The text of an optional string.
pub open spec fn opt_text(o: Option<String>) -> Option<Seq<char>> {
    match o {
        Some(s) => Some(s@),
        None => None,
    }
}

/// Reads header `name` from a single-valued header map: the first entry whose
/// name matches ignoring ASCII case, up to its first comma, trimmed.
pub fn read_header_map(headers: &TextMap<String>, name: &str) -> (r: Option<String>)
    ensures
        opt_text(r) == header_lookup(headers@, name@),
{
    let wanted = string_of(&lower_vec(&chars_of(name)));
    proof {
        lemma_lower_idempotent(name@);
        lemma_first_named(headers@, name@);
    }
    let mut i: usize = 0;
    while i < headers.len()
        invariant
            i <= headers@.len(),
            wanted@ == lower(name@),
            lower(lower(name@)) == lower(name@),
            forall|j: int| 0 <= j < i ==> !eq_ignore_case(#[trigger] headers@[j].0, name@),
            -1 <= first_named(headers@, name@) < headers@.len(),
            first_named(headers@, name@) >= 0 ==> eq_ignore_case(
                headers@[first_named(headers@, name@)].0,
                name@,
            ),
            forall|j: int|
                0 <= j < headers@.len() && (first_named(headers@, name@) == -1 || j < first_named(
                    headers@,
                    name@,
                )) ==> !eq_ignore_case(#[trigger] headers@[j].0, name@),
        decreases headers@.len() - i,
    {
        let k = headers.key_at(i);
        if eq_ignore_ascii_case(k.as_str(), wanted.as_str()) {
            assert(first_named(headers@, name@) == i);
            let v = headers.value_at(i);
            return first_part(v.as_str());
        }
        i = i + 1;
    }
    None
}

/// The first comma-separated part of `v`, trimmed; `None` when it is empty.
fn first_part(v: &str) -> (r: Option<String>)
    ensures
        opt_text(r) == first_header_part(v@),
{
    let c = chars_of(v);
    let comma = vec![','];
    assert(comma@ == seq![',']);
    let head = match find_from_exec(&c, &comma, 0) {
        Some(i) => {
            proof {
                crate::text::lemma_find_from_complete(c@, seq![','], 0);
            }
            string_of_range(&c, 0, i)
        },
        None => string_of(&c),
    };
    let t = trim_str(head.as_str());
    if t.as_str().is_empty() {
        None
    } else {
        Some(t)
    }
}

/// The first value of header `name` in a multi-valued header map, trimmed;
/// `None` when the header is absent, has no values, or its first value is blank.
pub open spec fn header_multi_lookup(headers: Seq<(Seq<char>, Vec<String>)>, name: Seq<char>) -> Option<
    Seq<char>,
> {
    let i = first_named(headers, name);
    if i < 0 || headers[i].1@.len() == 0 {
        None
    } else if trim(headers[i].1@[0]@).len() == 0 {
        None
    } else {
        Some(trim(headers[i].1@[0]@))
    }
}

/// Reads the first value of header `name` from a multi-valued header map.
pub fn read_header_multi(headers: &TextMap<Vec<String>>, name: &str) -> (r: Option<String>)
    ensures
        opt_text(r) == header_multi_lookup(headers@, name@),
{
    let wanted = string_of(&lower_vec(&chars_of(name)));
    proof {
        lemma_lower_idempotent(name@);
        lemma_first_named(headers@, name@);
    }
    let mut i: usize = 0;
    while i < headers.len()
        invariant
            i <= headers@.len(),
            wanted@ == lower(name@),
            lower(lower(name@)) == lower(name@),
            forall|j: int| 0 <= j < i ==> !eq_ignore_case(#[trigger] headers@[j].0, name@),
            -1 <= first_named(headers@, name@) < headers@.len(),
            first_named(headers@, name@) >= 0 ==> eq_ignore_case(
                headers@[first_named(headers@, name@)].0,
                name@,
            ),
            forall|j: int|
                0 <= j < headers@.len() && (first_named(headers@, name@) == -1 || j < first_named(
                    headers@,
                    name@,
                )) ==> !eq_ignore_case(#[trigger] headers@[j].0, name@),
        decreases headers@.len() - i,
    {
        let k = headers.key_at(i);
        if eq_ignore_ascii_case(k.as_str(), wanted.as_str()) {
            assert(first_named(headers@, name@) == i);
            let values = headers.value_at(i);
            if values.len() == 0 {
                return None;
            }
            let t = trim_str(values[0].as_str());
            if t.as_str().is_empty() {
                return None;
            }
            return Some(t);
        }
        i = i + 1;
    }
    None
}

// ─── Decisions ──────────────────────────────────────────────────────────────

/// Is a request carrying `x_api_key` authorized under `options`?
pub open spec fn authorized(api_key: Option<Seq<char>>, x_api_key: Option<Seq<char>>) -> bool {
    match api_key {
        None => true,
        Some(expected) => api_key_matches(expected, x_api_key),
    }
}

pub fn is_authorized_api_key(options: &AuthOptions, x_api_key: Option<&str>) -> (r: bool)
    ensures
        r == authorized(opt_text(options.api_key), opt_view(x_api_key)),
{
    match &options.api_key {
        None => true,
        Some(expected) => verify_api_key(expected.as_str(), x_api_key),
    }
}

/// A request path without its query string.
pub open spec fn path_without_query(path: Seq<char>) -> Seq<char> {
    match find_from(path, seq!['?'], 0) {
        Some(i) => path.subrange(0, i),
        None => path,
    }
}

/// Paths that are always open: the health endpoint (the query string, if
/// any, left aside).
pub open spec fn bypass_path(path: Seq<char>) -> bool {
    let p = strip_trailing(path_without_query(path), '/');
    "/health"@.is_suffix_of(p) || eq_ignore_case(p, "/health"@)
}

pub fn is_auth_bypass_path(path: &str) -> (r: bool)
    ensures
        r == bypass_path(path@),
{
    let v = chars_of(path);
    let q = vec!['?'];
    assert(q@ == seq!['?']);
    let without = match find_from_exec(&v, &q, 0) {
        Some(i) => {
            proof {
                crate::text::lemma_find_from_complete(v@, seq!['?'], 0);
            }
            string_of_range(&v, 0, i)
        },
        None => string_of(&v),
    };
    assert(without@ == path_without_query(path@));
    let p = strip_trailing_str(without.as_str(), '/');
    ends_with(p.as_str(), "/health") || eq_ignore_ascii_case(p.as_str(), "/health")
}

/// CORS preflight requests (`OPTIONS`, any case) are always open.
pub fn is_cors_preflight(method: &str) -> (r: bool)
    ensures
        r == eq_ignore_case(method@, "OPTIONS"@),
{
    eq_ignore_ascii_case(method, "OPTIONS")
}

/// Outcome of authorizing a request.
#[derive(Debug, Clone, Copy, PartialEq, Eq, Structural)]
pub enum AuthDecision {
    Allow,
    Deny,
}

impl AuthDecision {
    pub fn is_allow(self) -> (r: bool)
        ensures
            r == (self == AuthDecision::Allow),
    {
        match self {
            AuthDecision::Allow => true,
            AuthDecision::Deny => false,
        }
    }

    pub fn is_deny(self) -> (r: bool)
        ensures
            r == (self == AuthDecision::Deny),
    {
        match self {
            AuthDecision::Allow => false,
            AuthDecision::Deny => true,
        }
    }
}

/// The decision for a request: preflight and health are open, everything else
/// needs a matching key when one is configured.
pub open spec fn authorize_decision(
    api_key: Option<Seq<char>>,
    method: Seq<char>,
    path: Seq<char>,
    x_api_key: Option<Seq<char>>,
) -> AuthDecision {
    if eq_ignore_case(method, "OPTIONS"@) || bypass_path(path) || authorized(api_key, x_api_key) {
        AuthDecision::Allow
    } else {
        AuthDecision::Deny
    }
}

pub fn authorize_request(options: &AuthOptions, method: &str, path: &str, x_api_key: Option<&str>) -> (r: AuthDecision)
    ensures
        r == authorize_decision(opt_text(options.api_key), method@, path@, opt_view(x_api_key)),
{
    if is_cors_preflight(method) || is_auth_bypass_path(path) {
        return AuthDecision::Allow;
    }
    if is_authorized_api_key(options, x_api_key) {
        AuthDecision::Allow
    } else {
        AuthDecision::Deny
    }
}

/// Without a configured key every request is allowed.
pub proof fn lemma_no_key_allows_all(method: Seq<char>, path: Seq<char>, x_api_key: Option<Seq<char>>)
    ensures
        authorize_decision(None, method, path, x_api_key) == AuthDecision::Allow,
{
}

/// The health endpoint is open whatever key is configured or sent.
pub proof fn lemma_health_always_open(
    api_key: Option<Seq<char>>,
    method: Seq<char>,
    path: Seq<char>,
    x_api_key: Option<Seq<char>>,
)
    requires
        bypass_path(path),
    ensures
        authorize_decision(api_key, method, path, x_api_key) == AuthDecision::Allow,
{
}

/// With a key configured, a request that is neither a preflight nor for the
/// health endpoint and carries no key is denied.
pub proof fn lemma_missing_key_denied(expected: Seq<char>, method: Seq<char>, path: Seq<char>)
    requires
        !eq_ignore_case(method, "OPTIONS"@),
        !bypass_path(path),
    ensures
        authorize_decision(Some(expected), method, path, None) == AuthDecision::Deny,
{
}

// ─── Responses ──────────────────────────────────────────────────────────────

/// The model of `{"jsonrpc":"2.0","id":null,"error":{"code":-32001,"message":"Unauthorized"}}`.
pub open spec fn unauthorized_body_v() -> JsonV {
    JsonV::Object(
        seq![
            ("jsonrpc"@, JsonV::Str("2.0"@)),
            ("id"@, JsonV::Null),
            (
                "error"@,
                JsonV::Object(
                    seq![("code"@, JsonV::Int(-32001)), ("message"@, JsonV::Str("Unauthorized"@))],
                ),
            ),
        ],
    )
}

/// The JSON-RPC error body of a 401.
pub fn unauthorized_body() -> (r: Json)
    ensures
        r@ == unauthorized_body_v(),
{
    let code = member("code", Json::Int(UNAUTHORIZED_CODE as i128));
    let msg = member("message", Json::str_of("Unauthorized"));
    let ghost inner = seq![code, msg];
    let err = object(vec![code, msg]);
    assert(fields_view(inner) =~= seq![("code"@, JsonV::Int(-32001)), ("message"@, JsonV::Str("Unauthorized"@))]);
    let m1 = member("jsonrpc", Json::str_of("2.0"));
    let m2 = member("id", Json::Null);
    let m3 = member("error", err);
    let ghost outer = seq![m1, m2, m3];
    let r = object(vec![m1, m2, m3]);
    assert(fields_view(outer) =~= unauthorized_body_v()->Object_0);
    r
}

/// Headers of a 401: `WWW-Authenticate` and `Content-Type: application/json`.
pub fn unauthorized_headers() -> (r: Vec<(String, String)>)
    ensures
        r@.len() == 2,
        r@[0].0@ == "WWW-Authenticate"@ && r@[0].1@ == WWW_AUTHENTICATE@,
        r@[1].0@ == "Content-Type"@ && r@[1].1@ == "application/json"@,
{
    vec![
        (owned("WWW-Authenticate"), owned(WWW_AUTHENTICATE)),
        (owned("Content-Type"), owned("application/json")),
    ]
}

} // verus!
