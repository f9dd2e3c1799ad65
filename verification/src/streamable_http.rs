//! The streamable HTTP transport: routes, authentication, sessions, and the
//! handling of one HTTP request.
use vstd::prelude::*;
use crate::app::{AppStateMeta, server_info_v};
use crate::http_auth::{
    AuthDecision, AuthOptions, authorized, header_lookup,
    is_authorized_api_key, opt_text,
    read_header_map, unauthorized_body, unauthorized_body_v, unauthorized_headers,
    UNAUTHORIZED_STATUS, WWW_AUTHENTICATE};
use crate::json::{Json, JsonV, fields_view, jget, jget_opt, json_text_reading, member, object, parse_json_text};
use crate::jsonrpc::{
    JsonRpcMessage, MessageV, ParseOutcome, ParseResult, message_json, message_text, message_to_json, stringify,
    method_not_found, opt_json, parse_outcome, parsed_view, read_message, success, text_of};
use crate::methods::{negotiate_protocol_version, negotiated_version};
use crate::render::{render, to_json_text};
use crate::session_guard::{
    SessionGuardResult, SessionStore, fresh_session, guard_session_id, has_session, pending_taken,
    method_allocates_session, new_session_id, read_session_id_header, session_header,
    session_not_found_body, session_not_found_headers, session_not_found_v, session_waits,
    uuid_v4_text, MCP_SESSION_ID_HEADER};
use crate::text::{
    concat, concat3, contains, contains_seq, decimal_int, eq_ignore_ascii_case, eq_ignore_case,
    find_from, find_from_exec, i128_decimal, lemma_find_from_complete, lower, lower_vec, chars_of,
    owned, push_str, str_eq, string_of, string_of_range, strip_trailing,
    strip_trailing_str, trim, trim_str, upper, upper_vec};
use crate::textmap::{TextMap, lookup};

verus! {

broadcast use vstd::string::group_string_axioms;

/// Default base path of the MCP endpoints.
pub const DEFAULT_BASE_PATH: &'static str = "/mcp";

/// Default port.
pub const DEFAULT_PORT: u16 = 3000;

/// Default host name.
pub const DEFAULT_HOSTNAME: &'static str = "localhost";

// ─── Configuration ──────────────────────────────────────────────────────────

/// Transport configuration.
pub struct HttpConfig {
    pub port: u16,
    pub hostname: String,
    pub base_path: String,
    pub cors_origin: Option<String>,
    pub auth: AuthOptions,
}

/// `p` with trailing `/` removed while more than one character remains.
pub open spec fn drop_trailing_slashes(p: Seq<char>) -> Seq<char>
    decreases p.len(),
{
    if p.len() > 1 && p.last() == '/' {
        drop_trailing_slashes(p.drop_last())
    } else {
        p
    }
}

/// A base path: trimmed, starting with `/`, without trailing `/` (but `/`
/// itself); an empty path becomes `/mcp`.
pub open spec fn normalized_base(path: Seq<char>) -> Seq<char> {
    let t = trim(path);
    if t.len() == 0 {
        "/mcp"@
    } else if t[0] == '/' {
        drop_trailing_slashes(t)
    } else {
        drop_trailing_slashes(seq!['/'] + t)
    }
}

proof fn lemma_drop_trailing_slashes(p: Seq<char>)
    requires
        p.len() > 0,
        p[0] == '/',
    ensures
        drop_trailing_slashes(p).len() > 0,
        drop_trailing_slashes(p).len() <= p.len(),
        drop_trailing_slashes(p) == p.subrange(0, drop_trailing_slashes(p).len() as int),
        drop_trailing_slashes(p).len() == 1 || drop_trailing_slashes(p).last() != '/',
    decreases p.len(),
{
    if p.len() > 1 && p.last() == '/' {
        lemma_drop_trailing_slashes(p.drop_last());
        let q = drop_trailing_slashes(p.drop_last());
        assert(q =~= p.subrange(0, q.len() as int));
    } else {
        assert(p =~= p.subrange(0, p.len() as int));
    }
}

proof fn lemma_trim_of_spaceless(s: Seq<char>)
    requires
        forall|i: int| 0 <= i < s.len() ==> !crate::text::is_ws(#[trigger] s[i]),
    ensures
        trim(s) == s,
{
    assert(crate::text::trim_start(s) == s);
    assert(crate::text::trim_end(s) == s);
}

/// A normalized base path starts with `/`, ends without `/` (unless it is
/// `/`), is `/mcp` for an empty path, and normalizing it again keeps it.
pub proof fn lemma_normalized_base(path: Seq<char>)
    requires
        forall|i: int| 0 <= i < path.len() ==> !crate::text::is_ws(#[trigger] path[i]),
    ensures
        normalized_base(path).len() > 0,
        normalized_base(path)[0] == '/',
        normalized_base(path) == "/"@ || normalized_base(path).last() != '/',
        path.len() == 0 ==> normalized_base(path) == "/mcp"@,
        normalized_base(normalized_base(path)) == normalized_base(path),
{
    reveal_strlit("/mcp");
    reveal_strlit("/");
    lemma_trim_of_spaceless(path);
    let r = normalized_base(path);
    if path.len() == 0 {
        assert(r == "/mcp"@);
        assert(forall|i: int| 0 <= i < r.len() ==> !crate::text::is_ws(#[trigger] r[i]));
    } else {
        let p = if path[0] == '/' {
            path
        } else {
            seq!['/'] + path
        };
        assert(forall|i: int| 0 <= i < p.len() ==> !crate::text::is_ws(#[trigger] p[i])) by {
            assert forall|i: int| 0 <= i < p.len() implies !crate::text::is_ws(#[trigger] p[i]) by {
                if path[0] != '/' && i > 0 {
                    assert(p[i] == path[i - 1]);
                }
            }
        }
        assert(r == drop_trailing_slashes(p));
        lemma_drop_trailing_slashes(p);
        assert(forall|i: int| 0 <= i < r.len() ==> !crate::text::is_ws(#[trigger] r[i])) by {
            assert forall|i: int| 0 <= i < r.len() implies !crate::text::is_ws(#[trigger] r[i]) by {
                assert(r[i] == p[i]);
            }
        }
        if r.len() == 1 {
            assert(r =~= "/"@);
        }
    }
    lemma_trim_of_spaceless(r);
    assert(r[0] == '/');
    lemma_drop_trailing_slashes(r);
}

pub fn normalize_base_path(path: &str) -> (r: String)
    ensures
        r@ == normalized_base(path@),
{
    let t = trim_str(path);
    let tv = chars_of(t.as_str());
    if tv.len() == 0 {
        return owned(DEFAULT_BASE_PATH);
    }
    let mut v: Vec<char> = Vec::new();
    if tv[0] != '/' {
        v.push('/');
    }
    let mut k: usize = 0;
    let ghost head = v@;
    while k < tv.len()
        invariant
            k <= tv.len(),
            v@ == head + tv@.take(k as int),
        decreases tv.len() - k,
    {
        v.push(tv[k]);
        k = k + 1;
        assert(head + tv@.take(k as int) =~= (head + tv@.take(k - 1)).push(tv@[k - 1]));
    }
    assert(tv@.take(tv.len() as int) =~= tv@);
    proof {
        if tv@[0] == '/' {
            assert(v@ =~= tv@);
        } else {
            assert(v@ =~= seq!['/'] + tv@);
        }
    }
    let ghost p = v@;
    let mut n: usize = v.len();
    assert(v@.subrange(0, n as int) =~= p);
    while n > 1 && v[n - 1] == '/'
        invariant
            n <= v.len(),
            v@ == p,
            drop_trailing_slashes(p) == drop_trailing_slashes(v@.subrange(0, n as int)),
        decreases n,
    {
        assert(v@.subrange(0, n as int).drop_last() =~= v@.subrange(0, n - 1));
        n = n - 1;
    }
    string_of_range(&v, 0, n)
}

impl HttpConfig {
    /// Port 3000, host `localhost`, base path `/mcp`, no CORS, no authentication.
    pub fn new() -> (r: Self)
        ensures
            r.port == 3000,
            r.hostname@ == "localhost"@,
            r.base_path@ == "/mcp"@,
            r.cors_origin is None,
            r.auth.api_key is None,
    {
        HttpConfig {
            port: DEFAULT_PORT,
            hostname: owned(DEFAULT_HOSTNAME),
            base_path: owned(DEFAULT_BASE_PATH),
            cors_origin: None,
            auth: AuthOptions::none(),
        }
    }

    pub fn with_port(self, port: u16) -> (r: Self)
        ensures
            r.port == port,
            r.hostname == self.hostname && r.base_path == self.base_path,
            r.cors_origin == self.cors_origin && r.auth == self.auth,
    {
        HttpConfig { port, ..self }
    }

    pub fn with_hostname(self, hostname: &str) -> (r: Self)
        ensures
            r.hostname@ == hostname@,
            r.port == self.port && r.base_path == self.base_path,
            r.cors_origin == self.cors_origin && r.auth == self.auth,
    {
        HttpConfig { hostname: owned(hostname), ..self }
    }

    /// Sets the base path, normalized.
    pub fn with_base_path(self, base_path: &str) -> (r: Self)
        ensures
            r.base_path@ == normalized_base(base_path@),
            r.port == self.port && r.hostname == self.hostname,
            r.cors_origin == self.cors_origin && r.auth == self.auth,
    {
        HttpConfig { base_path: normalize_base_path(base_path), ..self }
    }

    pub fn with_cors(self, origin: &str) -> (r: Self)
        ensures
            r.cors_origin matches Some(o) && o@ == origin@,
            r.port == self.port && r.hostname == self.hostname,
            r.base_path == self.base_path && r.auth == self.auth,
    {
        HttpConfig { cors_origin: Some(owned(origin)), ..self }
    }

    pub fn with_api_key(self, api_key: &str) -> (r: Self)
        ensures
            r.auth.api_key matches Some(k) && k@ == api_key@,
            r.port == self.port && r.hostname == self.hostname,
            r.base_path == self.base_path && r.cors_origin == self.cors_origin,
    {
        HttpConfig { auth: AuthOptions::with_api_key(api_key), ..self }
    }

    pub fn with_auth(self, auth: AuthOptions) -> (r: Self)
        ensures
            r.auth == auth,
            r.port == self.port && r.hostname == self.hostname,
            r.base_path == self.base_path && r.cors_origin == self.cors_origin,
    {
        HttpConfig { auth, ..self }
    }

    /// `{basePath}/health`.
    pub fn health_path(&self) -> (r: String)
        ensures
            r@ == strip_trailing(self.base_path@, '/') + "/health"@,
    {
        let b = strip_trailing_str(self.base_path.as_str(), '/');
        concat(b.as_str(), "/health")
    }

    /// `{basePath}` without trailing `/`.
    pub fn jsonrpc_path(&self) -> (r: String)
        ensures
            r@ == strip_trailing(self.base_path@, '/'),
    {
        strip_trailing_str(self.base_path.as_str(), '/')
    }
}

impl Default for HttpConfig {
    fn default() -> (r: Self)
        ensures
            r.port == 3000,
            r.hostname@ == "localhost"@,
            r.base_path@ == "/mcp"@,
            r.cors_origin is None,
            r.auth.api_key is None,
    {
        HttpConfig::new()
    }
}

// ─── Health ─────────────────────────────────────────────────────────────────

/// The health answer.
pub struct HealthPayload {
    pub status: String,
    pub server: String,
    pub version: String,
}

/// The model of `{"status":"ok","server":…,"version":…}`.
pub open spec fn health_v(server: Seq<char>, version: Seq<char>) -> JsonV {
    JsonV::Object(
        seq![
            ("status"@, JsonV::Str("ok"@)),
            ("server"@, JsonV::Str(server)),
            ("version"@, JsonV::Str(version)),
        ],
    )
}

impl HealthPayload {
    pub fn ok(server: &str, version: &str) -> (r: Self)
        ensures
            r.status@ == "ok"@,
            r.server@ == server@,
            r.version@ == version@,
    {
        HealthPayload { status: owned("ok"), server: owned(server), version: owned(version) }
    }

    pub fn to_json(&self) -> (r: Json)
        ensures
            r@ == JsonV::Object(
                seq![
                    ("status"@, JsonV::Str(self.status@)),
                    ("server"@, JsonV::Str(self.server@)),
                    ("version"@, JsonV::Str(self.version@)),
                ],
            ),
    {
        let mut v: Vec<(String, Json)> = Vec::new();
        v.push(member("status", Json::str_of(self.status.as_str())));
        v.push(member("server", Json::str_of(self.server.as_str())));
        v.push(member("version", Json::str_of(self.version.as_str())));
        assert(fields_view(v@) =~= seq![
            ("status"@, JsonV::Str(self.status@)),
            ("server"@, JsonV::Str(self.server@)),
            ("version"@, JsonV::Str(self.version@)),
        ]);
        object(v)
    }
}

// ─── Routes ─────────────────────────────────────────────────────────────────

/// What a request is for.
#[derive(Debug, Clone, Copy, PartialEq, Eq, Structural)]
pub enum RouteClass {
    Health,
    JsonRpc,
    /// CORS preflight on the MCP or health path.
    Options,
    MethodNotAllowed,
    NotFound,
}

/// The path without query string, with a leading `/`.
pub open spec fn normalized_request_path(path: Seq<char>) -> Seq<char> {
    let p = match find_from(path, seq!['?'], 0) {
        Some(i) => path.subrange(0, i),
        None => path,
    };
    if p.len() == 0 {
        "/"@
    } else if p[0] == '/' {
        p
    } else {
        seq!['/'] + p
    }
}

pub fn normalize_request_path(path: &str) -> (r: String)
    ensures
        r@ == normalized_request_path(path@),
{
    let v = chars_of(path);
    let q = vec!['?'];
    assert(q@ == seq!['?']);
    let p = match find_from_exec(&v, &q, 0) {
        Some(i) => {
            proof {
                lemma_find_from_complete(v@, seq!['?'], 0);
            }
            string_of_range(&v, 0, i)
        },
        None => string_of(&v),
    };
    let pv = chars_of(p.as_str());
    if pv.len() == 0 {
        return owned("/");
    }
    if pv[0] == '/' {
        p
    } else {
        let mut s = owned("/");
        push_str(&mut s, p.as_str());
        assert(s@ =~= seq!['/'] + p@) by {
            reveal_strlit("/");
        }
        s
    }
}

/// The route of a request.
pub open spec fn route_of(method: Seq<char>, path: Seq<char>, base_path: Seq<char>) -> RouteClass {
    let m = upper(method);
    let p = normalized_request_path(path);
    let base = strip_trailing(base_path, '/');
    let health = base + "/health"@;
    if p == health || p == health + "/"@ {
        if m == "GET"@ || m == "HEAD"@ {
            RouteClass::Health
        } else if m == "OPTIONS"@ {
            RouteClass::Options
        } else {
            RouteClass::MethodNotAllowed
        }
    } else if p == base || p == base + "/"@ {
        if m == "POST"@ {
            RouteClass::JsonRpc
        } else if m == "OPTIONS"@ {
            RouteClass::Options
        } else {
            RouteClass::MethodNotAllowed
        }
    } else {
        RouteClass::NotFound
    }
}

proof fn lemma_strip_trailing_prefix(s: Seq<char>, c: char)
    ensures
        strip_trailing(s, c).len() <= s.len(),
        strip_trailing(s, c) == s.subrange(0, strip_trailing(s, c).len() as int),
    decreases s.len(),
{
    if s.len() > 0 && s.last() == c {
        lemma_strip_trailing_prefix(s.drop_last(), c);
        let q = strip_trailing(s.drop_last(), c);
        assert(q =~= s.subrange(0, q.len() as int));
    } else {
        assert(s =~= s.subrange(0, s.len() as int));
    }
}

/// A path without `?` and starting with `/` is its own normalized form.
proof fn lemma_plain_path_normalized(p: Seq<char>)
    requires
        p.len() > 0,
        p[0] == '/',
        forall|i: int| 0 <= i < p.len() ==> #[trigger] p[i] != '?',
    ensures
        normalized_request_path(p) == p,
{
    lemma_find_from_complete(p, seq!['?'], 0);
    assert forall|i: int| 0 <= i implies !crate::text::occurs_at(p, seq!['?'], i) by {
        if crate::text::occurs_at(p, seq!['?'], i) {
            assert(p.subrange(i, i + 1)[0] == p[i]);
        }
    }
}

/// The canonical routes: for any base path that starts with `/` and holds
/// no `?`, `GET` or `HEAD` of `{base}/health` (any letter case) is the health
/// check, `POST` to `{base}` is JSON-RPC, `OPTIONS` of either is a preflight,
/// and `GET` of `{base}` is not allowed.
pub proof fn lemma_canonical_routes(base: Seq<char>, m: Seq<char>)
    requires
        base.len() > 0,
        base[0] == '/',
        forall|i: int| 0 <= i < base.len() ==> #[trigger] base[i] != '?',
    ensures
        ({
            let j = strip_trailing(base, '/');
            let h = j + "/health"@;
            &&& (upper(m) == "GET"@ || upper(m) == "HEAD"@) ==> route_of(m, h, base) == RouteClass::Health
            &&& upper(m) == "OPTIONS"@ ==> route_of(m, h, base) == RouteClass::Options
            &&& upper(m) == "OPTIONS"@ ==> route_of(m, j, base) == RouteClass::Options
            &&& upper(m) == "POST"@ ==> route_of(m, j, base) == RouteClass::JsonRpc
            &&& upper(m) == "GET"@ ==> route_of(m, j, base) == RouteClass::MethodNotAllowed
        }),
{
    reveal_strlit("/health");
    reveal_strlit("/");
    reveal_strlit("GET");
    reveal_strlit("HEAD");
    reveal_strlit("POST");
    reveal_strlit("OPTIONS");
    assert("OPTIONS"@.len() == 7 && "GET"@.len() == 3 && "HEAD"@.len() == 4 && "POST"@.len() == 4);
    assert("POST"@[0] != "HEAD"@[0]);
    let j = strip_trailing(base, '/');
    let h = j + "/health"@;
    lemma_strip_trailing_prefix(base, '/');
    assert forall|i: int| 0 <= i < h.len() implies #[trigger] h[i] != '?' by {
        if i < j.len() {
            assert(h[i] == base[i]);
        }
    }
    if j.len() > 0 {
        assert(h[0] == base[0]);
    }
    lemma_plain_path_normalized(h);
    if j.len() > 0 {
        assert(j[0] == base[0]);
        assert forall|i: int| 0 <= i < j.len() implies #[trigger] j[i] != '?' by {
            assert(j[i] == base[i]);
        }
        lemma_plain_path_normalized(j);
        assert(j != h + "/"@ && j != h) by {
            assert(j.len() < h.len());
        }
    } else {
        assert(normalized_request_path(j) == "/"@);
        assert(j + "/"@ =~= "/"@);
        assert("/"@ != h && "/"@ != h + "/"@) by {
            assert(h.len() == 7);
        }
    }
}

pub fn classify_route(method: &str, path: &str, config: &HttpConfig) -> (r: RouteClass)
    ensures
        r == route_of(method@, path@, config.base_path@),
{
    let m = string_of(&upper_vec(&chars_of(method)));
    let p = normalize_request_path(path);
    let base = config.jsonrpc_path();
    let health = config.health_path();
    let health_slash = concat(health.as_str(), "/");
    let base_slash = concat(base.as_str(), "/");
    if str_eq(p.as_str(), health.as_str()) || str_eq(p.as_str(), health_slash.as_str()) {
        if str_eq(m.as_str(), "GET") || str_eq(m.as_str(), "HEAD") {
            RouteClass::Health
        } else if str_eq(m.as_str(), "OPTIONS") {
            RouteClass::Options
        } else {
            RouteClass::MethodNotAllowed
        }
    } else if str_eq(p.as_str(), base.as_str()) || str_eq(p.as_str(), base_slash.as_str()) {
        if str_eq(m.as_str(), "POST") {
            RouteClass::JsonRpc
        } else if str_eq(m.as_str(), "OPTIONS") {
            RouteClass::Options
        } else {
            RouteClass::MethodNotAllowed
        }
    } else {
        RouteClass::NotFound
    }
}

/// Does the `Accept` header ask for an event stream?
pub open spec fn wants_event_stream(accept: Option<Seq<char>>) -> bool {
    match accept {
        Some(a) => contains_seq(lower(a), "text/event-stream"@),
        None => false,
    }
}

pub fn accepts_sse(accept: Option<&str>) -> (r: bool)
    ensures
        r == wants_event_stream(crate::http_auth::opt_view(accept)),
{
    match accept {
        Some(a) => {
            let l = string_of(&lower_vec(&chars_of(a)));
            contains(l.as_str(), "text/event-stream")
        },
        None => false,
    }
}

// ─── Server-sent events ─────────────────────────────────────────────────────

/// One `message` event: `event: message\ndata: {data}\n\n`.
pub open spec fn sse_event(data: Seq<char>) -> Seq<char> {
    "event: message\ndata: "@ + data + "\n\n"@
}

pub fn format_sse_message_event(data: &str) -> (r: String)
    ensures
        r@ == sse_event(data@),
{
    concat3("event: message\ndata: ", data, "\n\n")
}

/// One `message` event carrying a JSON-RPC message.
pub fn format_sse_jsonrpc(message: &JsonRpcMessage) -> (r: String)
    ensures
        r@ == sse_event(message_text(message@)),
{
    let t = stringify(message);
    format_sse_message_event(t.as_str())
}

/// One `message` event carrying a JSON value.
pub fn format_sse_value(value: &Json) -> (r: String)
    ensures
        r@ == sse_event(render(value@)),
{
    let t = to_json_text(value);
    format_sse_message_event(t.as_str())
}

// ─── CORS ───────────────────────────────────────────────────────────────────

/// The headers of a CORS answer, as texts.
pub open spec fn cors_texts(origin: Seq<char>) -> Seq<(Seq<char>, Seq<char>)> {
    seq![
        ("Access-Control-Allow-Origin"@, origin),
        ("Access-Control-Allow-Headers"@, "Content-Type, Accept, Mcp-Session-Id, X-API-Key"@),
        ("Access-Control-Expose-Headers"@, "Mcp-Session-Id"@),
    ]
}

/// Header pairs as texts.
pub open spec fn header_texts(h: Seq<(String, String)>) -> Seq<(Seq<char>, Seq<char>)> {
    h.map_values(|p: (String, String)| (p.0@, p.1@))
}

pub fn cors_response_headers(origin: &str) -> (r: Vec<(String, String)>)
    ensures
        header_texts(r@) == cors_texts(origin@),
{
    let r = vec![
        (owned("Access-Control-Allow-Origin"), owned(origin)),
        (owned("Access-Control-Allow-Headers"), owned("Content-Type, Accept, Mcp-Session-Id, X-API-Key")),
        (owned("Access-Control-Expose-Headers"), owned("Mcp-Session-Id")),
    ];
    assert(header_texts(r@) =~= cors_texts(origin@));
    r
}

// ─── Responses ──────────────────────────────────────────────────────────────

/// An HTTP response of the transport.
pub struct TransportResponse {
    pub status: u16,
    pub headers: Vec<(String, String)>,
    pub body: Option<Json>,
    /// The raw text of the body, for an event stream or an empty body.
    pub raw_body: Option<String>,
}

/// Is there a header named `name` (ASCII case ignored)?
pub open spec fn has_header(h: Seq<(Seq<char>, Seq<char>)>, name: Seq<char>) -> bool {
    exists|i: int| 0 <= i < h.len() && eq_ignore_case(#[trigger] h[i].0, name)
}

fn has_header_exec(h: &Vec<(String, String)>, name: &str) -> (r: bool)
    ensures
        r == has_header(header_texts(h@), name@),
{
    let mut i: usize = 0;
    while i < h.len()
        invariant
            i <= h.len(),
            forall|j: int| 0 <= j < i ==> !eq_ignore_case(#[trigger] h@[j].0@, name@),
        decreases h.len() - i,
    {
        if eq_ignore_ascii_case(h[i].0.as_str(), name) {
            assert(header_texts(h@)[i as int].0 == h@[i as int].0@);
            return true;
        }
        i = i + 1;
    }
    assert forall|j: int| 0 <= j < header_texts(h@).len() implies !eq_ignore_case(
        #[trigger] header_texts(h@)[j].0,
        name@,
    ) by {
        assert(header_texts(h@)[j].0 == h@[j].0@);
    }
    false
}

/// `h` with `(name, value)` appended unless a header `name` is there already.
pub open spec fn with_default_header(h: Seq<(Seq<char>, Seq<char>)>, name: Seq<char>, value: Seq<char>) -> Seq<
    (Seq<char>, Seq<char>),
> {
    if has_header(h, "content-type"@) {
        h
    } else {
        h.push((name, value))
    }
}

impl TransportResponse {
    /// A JSON response; `Content-Type: application/json` is added unless present.
    pub fn json(status: u16, body: Json, headers: Vec<(String, String)>) -> (r: Self)
        ensures
            r.status == status,
            r.body == Some(body),
            r.raw_body is None,
            header_texts(r.headers@) == with_default_header(
                header_texts(headers@),
                "Content-Type"@,
                "application/json"@,
            ),
    {
        let mut headers = headers;
        let ghost before = header_texts(headers@);
        if !has_header_exec(&headers, "content-type") {
            headers.push((owned("Content-Type"), owned("application/json")));
            assert(header_texts(headers@) =~= before.push(("Content-Type"@, "application/json"@)));
        }
        TransportResponse { status, headers, body: Some(body), raw_body: None }
    }

    /// A response with an empty body.
    pub fn empty(status: u16, headers: Vec<(String, String)>) -> (r: Self)
        ensures
            r.status == status,
            r.body is None,
            r.raw_body matches Some(t) && t@.len() == 0,
            opt_text(r.raw_body) == Some(Seq::<char>::empty()),
            r.headers == headers,
    {
        let r = TransportResponse { status, headers, body: None, raw_body: Some(String::new()) };
        assert(opt_text(r.raw_body) =~= Some(Seq::<char>::empty()));
        r
    }

    /// An event-stream response: `Content-Type: text/event-stream` unless
    /// present, then `Cache-Control: no-cache` and `Connection: keep-alive`.
    pub fn sse(status: u16, stream: String, headers: Vec<(String, String)>) -> (r: Self)
        ensures
            r.status == status,
            r.body is None,
            r.raw_body == Some(stream),
            header_texts(r.headers@) == with_default_header(
                header_texts(headers@),
                "Content-Type"@,
                "text/event-stream"@,
            ).push(("Cache-Control"@, "no-cache"@)).push(("Connection"@, "keep-alive"@)),
    {
        let mut headers = headers;
        let ghost before = header_texts(headers@);
        if !has_header_exec(&headers, "content-type") {
            headers.push((owned("Content-Type"), owned("text/event-stream")));
            assert(header_texts(headers@) =~= before.push(("Content-Type"@, "text/event-stream"@)));
        }
        let ghost mid = header_texts(headers@);
        headers.push((owned("Cache-Control"), owned("no-cache")));
        headers.push((owned("Connection"), owned("keep-alive")));
        assert(header_texts(headers@) =~= mid.push(("Cache-Control"@, "no-cache"@)).push(
            ("Connection"@, "keep-alive"@),
        ));
        TransportResponse { status, headers, body: None, raw_body: Some(stream) }
    }

    /// The value of the first header named `name` (ASCII case ignored).
    pub fn header(&self, name: &str) -> (r: Option<&str>)
        ensures
            match r {
                Some(v) => exists|i: int|
                    0 <= i < self.headers@.len() && eq_ignore_case(self.headers@[i].0@, name@)
                        && self.headers@[i].1@ == v@ && forall|j: int|
                        0 <= j < i ==> !eq_ignore_case(#[trigger] self.headers@[j].0@, name@),
                None => forall|j: int|
                    0 <= j < self.headers@.len() ==> !eq_ignore_case(
                        #[trigger] self.headers@[j].0@,
                        name@,
                    ),
            },
    {
        let mut i: usize = 0;
        while i < self.headers.len()
            invariant
                i <= self.headers@.len(),
                forall|j: int| 0 <= j < i ==> !eq_ignore_case(#[trigger] self.headers@[j].0@, name@),
            decreases self.headers.len() - i,
        {
            if eq_ignore_ascii_case(self.headers[i].0.as_str(), name) {
                return Some(self.headers[i].1.as_str());
            }
            i = i + 1;
        }
        None
    }
}

// ─── Answers from the client to server requests ─────────────────────────────

/// An object with `jsonrpc` and `id`, no `method`, and a `result` or `error`.
pub open spec fn response_shaped(v: JsonV) -> bool {
    &&& v is Object
    &&& jget(v, "jsonrpc"@) is Some
    &&& jget(v, "id"@) is Some
    &&& jget(v, "method"@) is None
    &&& (jget(v, "result"@) is Some || jget(v, "error"@) is Some)
}

pub fn is_jsonrpc_response_value(msg: &Json) -> (r: bool)
    ensures
        r == response_shaped(msg@),
{
    msg.is_object() && msg.get("jsonrpc").is_some() && msg.get("id").is_some() && msg.get(
        "method",
    ).is_none() && (msg.get("result").is_some() || msg.get("error").is_some())
}

/// The id of a message as text: a string as it is, a number in decimal.
pub open spec fn id_key(v: JsonV) -> Option<Seq<char>> {
    match jget(v, "id"@) {
        Some(JsonV::Str(s)) => Some(s),
        Some(JsonV::Int(n)) => Some(decimal_int(n)),
        Some(JsonV::Float(t)) => Some(t),
        _ => None,
    }
}

pub fn response_id_key(msg: &Json) -> (r: Option<String>)
    ensures
        opt_text(r) == id_key(msg@),
{
    match msg.get("id") {
        Some(Json::Str(s)) => Some(s.clone()),
        Some(Json::Int(n)) => Some(i128_decimal(*n)),
        Some(Json::Float(t)) => Some(t.clone()),
        _ => None,
    }
}

// ─── Dispatch ───────────────────────────────────────────────────────────────

/// The outcome of dispatching a message.
pub enum DispatchResult {
    /// A JSON-RPC response to send.
    Response(JsonRpcMessage),
    /// Nothing to answer (notifications and responses).
    NoResponse,
}

/// The model of an `initialize` result.
pub open spec fn init_result_v(
    protocol_version: Seq<char>,
    name: Seq<char>,
    version: Seq<char>,
    capabilities: JsonV,
    instructions: Option<Seq<char>>,
) -> JsonV {
    JsonV::Object(
        seq![
            ("protocolVersion"@, JsonV::Str(protocol_version)),
            ("capabilities"@, capabilities),
            ("serverInfo"@, server_info_v(name, version)),
        ] + match instructions {
            Some(i) => seq![("instructions"@, JsonV::Str(i))],
            None => Seq::empty(),
        },
    )
}

/// The `initialize` result body.
pub fn initialize_result(
    protocol_version: &str,
    server_name: &str,
    server_version: &str,
    capabilities: Json,
    instructions: Option<String>,
) -> (r: Json)
    ensures
        r@ == init_result_v(protocol_version@, server_name@, server_version@, capabilities@, opt_text(instructions)),
{
    let mut info: Vec<(String, Json)> = Vec::new();
    info.push(member("name", Json::str_of(server_name)));
    info.push(member("version", Json::str_of(server_version)));
    assert(fields_view(info@) =~= server_info_v(server_name@, server_version@)->Object_0);
    let info_obj = object(info);
    let ghost caps = capabilities@;
    let mut v: Vec<(String, Json)> = Vec::new();
    v.push(member("protocolVersion", Json::str_of(protocol_version)));
    v.push(member("capabilities", capabilities));
    v.push(member("serverInfo", info_obj));
    let ghost instr = opt_text(instructions);
    if let Some(i) = instructions {
        v.push(member("instructions", Json::str_of(i.as_str())));
    }
    assert(fields_view(v@) =~= init_result_v(protocol_version@, server_name@, server_version@, caps, instr)->Object_0);
    object(v)
}

/// The response to a message, given the app's identity and capabilities.
pub open spec fn dispatch_v(
    name: Seq<char>,
    version: Seq<char>,
    capabilities: JsonV,
    instructions: Option<Seq<char>>,
    m: MessageV,
) -> Option<MessageV> {
    match m {
        MessageV::Request { jsonrpc, id, method, params } => if method == "initialize"@ {
            Some(
                MessageV::Success {
                    jsonrpc: "2.0"@,
                    id,
                    result: init_result_v(
                        negotiated_version(text_of(jget_opt(params, "protocolVersion"@))),
                        name,
                        version,
                        if capabilities is Null {
                            JsonV::Object(Seq::empty())
                        } else {
                            capabilities
                        },
                        instructions,
                    ),
                },
            )
        } else if method == "ping"@ {
            Some(MessageV::Success { jsonrpc: "2.0"@, id, result: JsonV::Object(Seq::empty()) })
        } else {
            Some(
                MessageV::Error {
                    jsonrpc: "2.0"@,
                    id: Some(id),
                    code: -32601,
                    message: "Method not found: "@ + method,
                    data: None,
                },
            )
        },
        _ => None,
    }
}

pub open spec fn dispatch_view(d: DispatchResult) -> Option<MessageV> {
    match d {
        DispatchResult::Response(m) => Some(m@),
        DispatchResult::NoResponse => None,
    }
}

/// Answers `initialize` and `ping`; other requests get "method not found";
/// notifications and responses get nothing.
pub fn dispatch_message(state: &AppStateMeta, message: &JsonRpcMessage) -> (r: DispatchResult)
    ensures
        dispatch_view(r) == dispatch_v(
            state.name@,
            state.version@,
            state.capabilities@,
            opt_text(state.instructions),
            message@,
        ),
{
    match message {
        JsonRpcMessage::Request(req) => {
            let id = req.id.clone_id();
            if str_eq(req.method.as_str(), "initialize") {
                let client_version: Option<&str> = match &req.params {
                    Some(p) => match p.get("protocolVersion") {
                        Some(Json::Str(s)) => Some(s.as_str()),
                        _ => None,
                    },
                    None => None,
                };
                let negotiated = negotiate_protocol_version(client_version);
                let caps = if state.capabilities.is_null() {
                    Json::empty_object()
                } else {
                    state.capabilities.deep_clone()
                };
                let instructions = crate::protocol::clone_opt_string(&state.instructions);
                let result = initialize_result(
                    negotiated,
                    state.name.as_str(),
                    state.version.as_str(),
                    caps,
                    instructions,
                );
                DispatchResult::Response(JsonRpcMessage::Success(success(id, result)))
            } else if str_eq(req.method.as_str(), "ping") {
                DispatchResult::Response(JsonRpcMessage::Success(success(id, Json::empty_object())))
            } else {
                DispatchResult::Response(JsonRpcMessage::Error(method_not_found(id, req.method.as_str())))
            }
        },
        _ => DispatchResult::NoResponse,
    }
}

/// The `protocolVersion` member of a successful reply's result.
pub open spec fn answered_version(reply: Option<MessageV>) -> Option<JsonV> {
    match reply {
        Some(MessageV::Success { result, .. }) => jget(result, "protocolVersion"@),
        _ => None,
    }
}

/// An `initialize` request is answered with the version the client asked for
/// in `params.protocolVersion` when that is `2024-11-05` or `2025-03-26`; a
/// missing, non-string or other version is answered with `2025-03-26`.
pub proof fn lemma_initialize_negotiates_version(
    name: Seq<char>,
    version: Seq<char>,
    capabilities: JsonV,
    instructions: Option<Seq<char>>,
    jsonrpc: Seq<char>,
    id: crate::jsonrpc::RequestIdV,
    params: Option<JsonV>,
)
    ensures
        ({
            let asked = jget_opt(params, "protocolVersion"@);
            let reply = dispatch_v(
                name,
                version,
                capabilities,
                instructions,
                MessageV::Request { jsonrpc, id, method: "initialize"@, params },
            );
            &&& asked == Some(JsonV::Str("2024-11-05"@)) ==> answered_version(reply) == Some(
                JsonV::Str("2024-11-05"@),
            )
            &&& asked == Some(JsonV::Str("2025-03-26"@)) ==> answered_version(reply) == Some(
                JsonV::Str("2025-03-26"@),
            )
            &&& asked != Some(JsonV::Str("2024-11-05"@)) && asked != Some(JsonV::Str("2025-03-26"@))
                ==> answered_version(reply) == Some(JsonV::Str("2025-03-26"@))
        }),
{
    let reply = dispatch_v(
        name,
        version,
        capabilities,
        instructions,
        MessageV::Request { jsonrpc, id, method: "initialize"@, params },
    );
    let result = reply->Some_0->result;
    assert(result->Object_0[0].0 == "protocolVersion"@);
    assert(crate::json::member_pos(result->Object_0, "protocolVersion"@) == 0);
}

// ─── Handling a request ─────────────────────────────────────────────────────

/// One inbound HTTP request; `body` is the request body's text, if any.
pub struct IngressRequest<'a> {
    pub method: &'a str,
    pub path: &'a str,
    pub headers: &'a TextMap<String>,
    pub body: Option<&'a str>,
    pub now_ms: u64,
}

/// The text of a request body, empty when there is none.
pub open spec fn body_text(body: Option<&str>) -> Seq<char> {
    match body {
        Some(b) => b@,
        None => Seq::empty(),
    }
}

/// The model of `{"error":"Not found"}`.
pub open spec fn not_found_v() -> JsonV {
    JsonV::Object(seq![("error"@, JsonV::Str("Not found"@))])
}

/// The message of a 400 answer: the parse error, prefixed with `Parse error: `
/// unless it already mentions a parse error.
pub open spec fn parse_error_message(e: Seq<char>) -> Seq<char> {
    if contains_seq(lower(e), "parse error"@) {
        e
    } else {
        "Parse error: "@ + e
    }
}

/// The model of the body of a 400 answer.
pub open spec fn parse_error_body_v(e: Seq<char>) -> JsonV {
    message_json(
        MessageV::Error { jsonrpc: "2.0"@, id: None, code: -32700, message: parse_error_message(e), data: None },
    )
}

/// Did the request answer a pending server request of its session?
pub open spec fn acknowledges(
    store: Seq<(Seq<char>, crate::session_guard::Session)>,
    session_id: Option<Seq<char>>,
    parsed: Result<JsonV, Seq<char>>,
) -> bool {
    match (parsed, session_id) {
        (Ok(v), Some(sid)) => response_shaped(v) && match id_key(v) {
            Some(rid) => session_waits(store, sid, rid),
            None => false,
        },
        _ => false,
    }
}

/// Does the request name a session the store does not hold?
pub open spec fn unknown_session(
    store: Seq<(Seq<char>, crate::session_guard::Session)>,
    session_id: Option<Seq<char>>,
) -> bool {
    match session_id {
        Some(sid) => sid.len() > 0 && !has_session(store, sid),
        None => false,
    }
}

/// Is the parsed message an `initialize` request?
pub open spec fn is_initialize(m: MessageV) -> bool {
    m matches MessageV::Request { method, .. } && method == "initialize"@
}

/// What a request is answered with.
pub enum Answer {
    /// CORS preflight: 204 with the CORS headers.
    Preflight,
    /// Unknown path: 404 `{"error":"Not found"}`.
    NotFound,
    /// Wrong method for the path: 405, empty.
    NotAllowed,
    /// The health payload: 200.
    Health,
    /// Missing or wrong API key: 401 with the unauthorized body.
    Unauthorized,
    /// A client's answer to a pending server request: 202, empty.
    Acknowledged { session: Seq<char>, request: Seq<char> },
    /// A session id the store does not hold: 404 `{"error":"Session not found"}`.
    UnknownSession,
    /// A body that is not a JSON-RPC message: 400 with a parse error.
    ParseFailed(Seq<char>),
    /// The reply, if any, as one `message` event: 200.
    Stream(Option<MessageV>),
    /// A message that needs no reply: 204, empty.
    NoContent,
    /// The reply as JSON: 200.
    Reply(MessageV),
}

/// The API-key decision for a JSON-RPC request: a matching key is needed
/// when one is configured.
pub open spec fn rpc_decision(api_key: Option<Seq<char>>, x_api_key: Option<Seq<char>>) -> AuthDecision {
    if authorized(api_key, x_api_key) {
        AuthDecision::Allow
    } else {
        AuthDecision::Deny
    }
}

/// The reply of the app to a parsed message.
pub open spec fn reply_of(state: AppStateMeta, m: MessageV) -> Option<MessageV> {
    dispatch_v(state.name@, state.version@, state.capabilities@, opt_text(state.instructions), m)
}

/// How a request is answered, given the sessions `before` it.
pub open spec fn answer_of(
    config: HttpConfig,
    state: AppStateMeta,
    method: Seq<char>,
    path: Seq<char>,
    headers: Seq<(Seq<char>, String)>,
    body: Result<JsonV, Seq<char>>,
    before: Seq<(Seq<char>, crate::session_guard::Session)>,
) -> Answer {
    let sid = session_header(headers);
    match route_of(method, path, config.base_path@) {
        RouteClass::Options => Answer::Preflight,
        RouteClass::NotFound => Answer::NotFound,
        RouteClass::MethodNotAllowed => Answer::NotAllowed,
        RouteClass::Health => Answer::Health,
        RouteClass::JsonRpc => if rpc_decision(opt_text(config.auth.api_key), header_lookup(headers, "x-api-key"@))
            == AuthDecision::Deny {
            Answer::Unauthorized
        } else if acknowledges(before, sid, body) {
            Answer::Acknowledged { session: sid->Some_0, request: id_key(body->Ok_0)->Some_0 }
        } else if unknown_session(before, sid) {
            Answer::UnknownSession
        } else {
            match parse_outcome(body) {
                ParseOutcome::Failure(e) => Answer::ParseFailed(e),
                ParseOutcome::Message(m) => if wants_event_stream(header_lookup(headers, "accept"@)) {
                    Answer::Stream(reply_of(state, m))
                } else {
                    match reply_of(state, m) {
                        Some(reply) => Answer::Reply(reply),
                        None => Answer::NoContent,
                    }
                },
            }
        },
    }
}

/// Does answering create a session: an `initialize` that gets through?
pub open spec fn creates_session(answer: Answer, body: Result<JsonV, Seq<char>>) -> bool {
    &&& (answer is Stream || answer is NoContent || answer is Reply)
    &&& parse_outcome(body) matches ParseOutcome::Message(m) && is_initialize(m)
}

pub open spec fn status_of(answer: Answer) -> u16 {
    match answer {
        Answer::Preflight => 204,
        Answer::NotFound => 404,
        Answer::NotAllowed => 405,
        Answer::Health => 200,
        Answer::Unauthorized => 401,
        Answer::Acknowledged { .. } => 202,
        Answer::UnknownSession => 404,
        Answer::ParseFailed(_) => 400,
        Answer::Stream(_) => 200,
        Answer::NoContent => 204,
        Answer::Reply(_) => 200,
    }
}

/// The JSON body of an answer; `None` for an empty or event-stream answer.
pub open spec fn body_of(answer: Answer, state: AppStateMeta) -> Option<JsonV> {
    match answer {
        Answer::NotFound => Some(not_found_v()),
        Answer::Health => Some(health_v(state.name@, state.version@)),
        Answer::Unauthorized => Some(unauthorized_body_v()),
        Answer::UnknownSession => Some(session_not_found_v()),
        Answer::ParseFailed(e) => Some(parse_error_body_v(e)),
        Answer::Reply(m) => Some(message_json(m)),
        _ => None,
    }
}

/// The raw text body of an answer: empty for an empty answer, the event
/// stream for a stream, `None` for a JSON answer.
pub open spec fn raw_of(answer: Answer) -> Option<Seq<char>> {
    match answer {
        Answer::Preflight | Answer::NotAllowed | Answer::Acknowledged { .. } | Answer::NoContent => Some(
            Seq::empty(),
        ),
        Answer::Stream(reply) => Some(
            match reply {
                Some(m) => sse_event(message_text(m)),
                None => Seq::empty(),
            },
        ),
        _ => None,
    }
}

/// `Content-Type: application/json`.
pub open spec fn json_type_header() -> Seq<(Seq<char>, Seq<char>)> {
    seq![("Content-Type"@, "application/json"@)]
}

/// The headers of an answer, before the CORS headers; `new_id` is the id of
/// a session created for a client that sent none.
pub open spec fn headers_of(answer: Answer, config: HttpConfig, new_id: Option<Seq<char>>) -> Seq<
    (Seq<char>, Seq<char>),
> {
    let session = match new_id {
        Some(id) => seq![("Mcp-Session-Id"@, id)],
        None => Seq::empty(),
    };
    match answer {
        Answer::Preflight => match config.cors_origin {
            Some(o) => cors_texts(o@),
            None => Seq::empty(),
        },
        Answer::NotFound | Answer::Health | Answer::UnknownSession | Answer::ParseFailed(_) => json_type_header(),
        Answer::Unauthorized => seq![("WWW-Authenticate"@, WWW_AUTHENTICATE@), ("Content-Type"@, "application/json"@)],
        Answer::Stream(_) => session + seq![
            ("Content-Type"@, "text/event-stream"@),
            ("Cache-Control"@, "no-cache"@),
            ("Connection"@, "keep-alive"@),
        ],
        Answer::NoContent => session,
        Answer::Reply(_) => session + json_type_header(),
        _ => Seq::empty(),
    }
}

/// The CORS headers every answer but the preflight ends with, when CORS is configured.
pub open spec fn cors_extra(answer: Answer, config: HttpConfig) -> Seq<(Seq<char>, Seq<char>)> {
    match config.cors_origin {
        Some(o) => if answer is Preflight {
            Seq::empty()
        } else {
            cors_texts(o@)
        },
        None => Seq::empty(),
    }
}

/// Session `sid` of `after` is that of `before` with request `rid` answered,
/// and every other session is kept.
pub open spec fn acknowledged_in(
    before: Seq<(Seq<char>, crate::session_guard::Session)>,
    after: Seq<(Seq<char>, crate::session_guard::Session)>,
    sid: Seq<char>,
    rid: Seq<char>,
) -> bool {
    &&& lookup(before, sid) matches Some(s) && lookup(after, sid) matches Some(t) && t.created_at_ms
        == s.created_at_ms && pending_taken(s.pending, t.pending, rid)
    &&& forall|k: Seq<char>| k != sid ==> #[trigger] lookup(after, k) == lookup(before, k)
    &&& after.len() == before.len()
}

/// `after` is `before` with a fresh session `id` created at `t`, and every
/// other session kept.
pub open spec fn created_in(
    before: Seq<(Seq<char>, crate::session_guard::Session)>,
    after: Seq<(Seq<char>, crate::session_guard::Session)>,
    id: Seq<char>,
    t: u64,
) -> bool {
    &&& uuid_v4_text(id)
    &&& fresh_session(after, id, t)
    &&& forall|k: Seq<char>| k != id ==> #[trigger] lookup(after, k) == lookup(before, k)
    &&& after.len() == before.len() + if has_session(before, id) {
        0int
    } else {
        1int
    }
}

/// What answering a request does, with `extra` headers after the answer's
/// own: the answer `r`, and the session store going from `before` to `after`.
pub open spec fn served_with(
    config: HttpConfig,
    state: AppStateMeta,
    method: Seq<char>,
    path: Seq<char>,
    headers: Seq<(Seq<char>, String)>,
    body: Result<JsonV, Seq<char>>,
    now_ms: u64,
    before: Seq<(Seq<char>, crate::session_guard::Session)>,
    after: Seq<(Seq<char>, crate::session_guard::Session)>,
    r: TransportResponse,
    extra: Seq<(Seq<char>, Seq<char>)>,
) -> bool {
    let answer = answer_of(config, state, method, path, headers, body, before);
    let creates = creates_session(answer, body);
    &&& r.status == status_of(answer)
    &&& opt_json(r.body) == body_of(answer, state)
    &&& opt_text(r.raw_body) == raw_of(answer)
    &&& !creates ==> header_texts(r.headers@) == headers_of(answer, config, None) + extra
    &&& creates ==> exists|id: Seq<char>|
        {
            &&& created_in(before, after, id, now_ms)
            &&& header_texts(r.headers@) == headers_of(
                answer,
                config,
                if session_header(headers) is None {
                    Some(id)
                } else {
                    None
                },
            ) + extra
        }
    &&& answer matches Answer::Acknowledged { session, request } ==> acknowledged_in(before, after, session, request)
    &&& !creates && !(answer is Acknowledged) ==> after == before
}

/// What answering a request with the given method, path, headers, body (as
/// JSON, or the text of a syntax error) and arrival time does: the answer
/// `r`, ending with the CORS headers, and the session store going from
/// `before` to `after`.
pub open spec fn served(
    config: HttpConfig,
    state: AppStateMeta,
    method: Seq<char>,
    path: Seq<char>,
    headers: Seq<(Seq<char>, String)>,
    body: Result<JsonV, Seq<char>>,
    now_ms: u64,
    before: Seq<(Seq<char>, crate::session_guard::Session)>,
    after: Seq<(Seq<char>, crate::session_guard::Session)>,
    r: TransportResponse,
) -> bool {
    served_with(
        config,
        state,
        method,
        path,
        headers,
        body,
        now_ms,
        before,
        after,
        r,
        cors_extra(answer_of(config, state, method, path, headers, body, before), config),
    )
}

/// Handles one HTTP request against the configuration, the session store and
/// the app state: the body's text (empty when there is none) is read as JSON
/// with `serde_json`, then answered by [`answer_request`].
pub fn handle_request(
    config: &HttpConfig,
    store: &mut SessionStore,
    state: &AppStateMeta,
    req: &IngressRequest,
) -> (r: TransportResponse)
    requires
        old(store).wf(),
    ensures
        final(store).wf(),
        served(
            *config,
            *state,
            req.method@,
            req.path@,
            req.headers@,
            json_text_reading(body_text(req.body)),
            req.now_ms,
            old(store)@,
            final(store)@,
            r,
        ),
{
    let text: &str = match req.body {
        Some(b) => b,
        None => "",
    };
    proof {
        reveal_strlit("");
        assert(text@ == body_text(req.body));
    }
    let parsed = parse_json_text(text);
    answer_request(config, store, state, req.method, req.path, req.headers, &parsed, req.now_ms)
}

/// The response with `extra` headers after its own.
fn with_extra_headers(r: TransportResponse, extra: Vec<(String, String)>) -> (out: TransportResponse)
    ensures
        out.status == r.status,
        out.body == r.body,
        out.raw_body == r.raw_body,
        header_texts(out.headers@) == header_texts(r.headers@) + header_texts(extra@),
{
    let ghost r0 = r;
    let mut r = r;
    let ghost start = header_texts(r.headers@);
    let mut i: usize = 0;
    while i < extra.len()
        invariant
            i <= extra@.len(),
            r.status == r0.status && r.body == r0.body && r.raw_body == r0.raw_body,
            header_texts(r.headers@) == start + header_texts(extra@).take(i as int),
        decreases extra@.len() - i,
    {
        let ghost before = header_texts(r.headers@);
        let pair = (extra[i].0.clone(), extra[i].1.clone());
        r.headers.push(pair);
        i = i + 1;
        assert(header_texts(r.headers@) =~= before.push(header_texts(extra@)[i - 1]));
        assert(header_texts(extra@).take(i as int) =~= header_texts(extra@).take(i - 1).push(
            header_texts(extra@)[i - 1],
        ));
    }
    assert(header_texts(extra@).take(extra@.len() as int) =~= header_texts(extra@));
    r
}

/// Answers one HTTP request whose body was read as JSON (`parsed`: the
/// value, or the text of the syntax error).
///
/// CORS preflight is answered 204, unknown paths 404, wrong methods 405, and
/// the health endpoint 200 without authentication. A JSON-RPC POST must pass
/// the API-key check (401); a client's answer to a pending server request of
/// its session is acknowledged 202; a request naming an unknown session gets
/// 404; a body that is not a JSON-RPC message gets 400. `initialize` creates a
/// session, whose id is returned in `Mcp-Session-Id` when the client sent none.
/// With CORS configured, every answer but the preflight ends with the CORS headers.
pub fn answer_request(
    config: &HttpConfig,
    store: &mut SessionStore,
    state: &AppStateMeta,
    method: &str,
    path: &str,
    headers: &TextMap<String>,
    parsed: &Result<Json, String>,
    now_ms: u64,
) -> (r: TransportResponse)
    requires
        old(store).wf(),
    ensures
        final(store).wf(),
        served(*config, *state, method@, path@, headers@, parsed_view(parsed), now_ms, old(store)@, final(store)@, r),
{
    let ghost answer = answer_of(*config, *state, method@, path@, headers@, parsed_view(parsed), old(store)@);
    let core = answer_core(config, store, state, method, path, headers, parsed, now_ms);
    let route = classify_route(method, path, config);
    let extra: Vec<(String, String)> = match (&config.cors_origin, route) {
        (_, RouteClass::Options) => Vec::new(),
        (Some(o), _) => cors_response_headers(o.as_str()),
        (None, _) => Vec::new(),
    };
    assert(header_texts(extra@) == cors_extra(answer, *config)) by {
        if extra@.len() == 0 {
            assert(header_texts(extra@) =~= Seq::<(Seq<char>, Seq<char>)>::empty());
        }
    }
    let r = with_extra_headers(core, extra);
    proof {
        let body = parsed_view(parsed);
        let e = cors_extra(answer, *config);
        if creates_session(answer, body) {
            let id = choose|id: Seq<char>|
                {
                    &&& created_in(old(store)@, final(store)@, id, now_ms)
                    &&& header_texts(core.headers@) == headers_of(
                        answer,
                        *config,
                        if session_header(headers@) is None {
                            Some(id)
                        } else {
                            None
                        },
                    ) + Seq::<(Seq<char>, Seq<char>)>::empty()
                };
            let h = headers_of(
                answer,
                *config,
                if session_header(headers@) is None {
                    Some(id)
                } else {
                    None
                },
            );
            assert(h + Seq::<(Seq<char>, Seq<char>)>::empty() =~= h);
            assert(header_texts(r.headers@) == h + e);
        } else {
            let h = headers_of(answer, *config, None);
            assert(h + Seq::<(Seq<char>, Seq<char>)>::empty() =~= h);
        }
    }
    r
}

/// The answer of [`answer_request`] before the CORS headers.
#[verifier::rlimit(60)]
fn answer_core(
    config: &HttpConfig,
    store: &mut SessionStore,
    state: &AppStateMeta,
    method: &str,
    path: &str,
    headers: &TextMap<String>,
    parsed: &Result<Json, String>,
    now_ms: u64,
) -> (r: TransportResponse)
    requires
        old(store).wf(),
    ensures
        final(store).wf(),
        served_with(
            *config,
            *state,
            method@,
            path@,
            headers@,
            parsed_view(parsed),
            now_ms,
            old(store)@,
            final(store)@,
            r,
            Seq::empty(),
        ),
{
    let ghost answer = answer_of(*config, *state, method@, path@, headers@, parsed_view(parsed), old(store)@);
    assert(headers_of(answer, *config, None) + Seq::<(Seq<char>, Seq<char>)>::empty() =~= headers_of(
        answer,
        *config,
        None,
    ));
    let route = classify_route(method, path, config);
    match route {
RouteClass::Options => {
    let headers = match &config.cors_origin {
        Some(origin) => cors_response_headers(origin.as_str()),
        None => {
            let h: Vec<(String, String)> = Vec::new();
            assert(header_texts(h@) =~= Seq::<(Seq<char>, Seq<char>)>::empty());
            h
        },
    };
    return TransportResponse::empty(204, headers);
},
RouteClass::NotFound => {
    let mut v: Vec<(String, Json)> = Vec::new();
    v.push(member("error", Json::str_of("Not found")));
    assert(fields_view(v@) =~= not_found_v()->Object_0);
    let r = TransportResponse::json(404, object(v), Vec::new());
    assert(answer == Answer::NotFound);
    assert(header_texts(r.headers@) =~= headers_of(answer, *config, None));
    return r;
},
RouteClass::MethodNotAllowed => {
    let r = TransportResponse::empty(405, Vec::new());
    assert(answer == Answer::NotAllowed);
    assert(header_texts(r.headers@) =~= headers_of(answer, *config, None));
    return r;
},
RouteClass::Health => {
    let payload = HealthPayload::ok(state.name.as_str(), state.version.as_str());
    let r = TransportResponse::json(200, payload.to_json(), Vec::new());
    assert(answer == Answer::Health);
    assert(opt_json(r.body) == body_of(answer, *state));
    assert(header_texts(r.headers@) == headers_of(answer, *config, None));
    return r;
},
RouteClass::JsonRpc => {},
    }
    let x_api_key = read_header_map(headers, "x-api-key");
    let key_ref: Option<&str> = match &x_api_key {
Some(k) => Some(k.as_str()),
None => None,
    };
    if !is_authorized_api_key(&config.auth, key_ref) {
let h = unauthorized_headers();
assert(header_texts(h@) =~= seq![
    ("WWW-Authenticate"@, WWW_AUTHENTICATE@),
    ("Content-Type"@, "application/json"@),
]);
let r = TransportResponse::json(UNAUTHORIZED_STATUS, unauthorized_body(), h);
proof {
    reveal_strlit("content-type");
    reveal_strlit("WWW-Authenticate");
    reveal_strlit("Content-Type");
    assert(has_header(header_texts(h@), "content-type"@)) by {
        assert(header_texts(h@)[1].0 == "Content-Type"@);
        assert(eq_ignore_case("Content-Type"@, "content-type"@)) by {
            assert(crate::text::lower("Content-Type"@) =~= crate::text::lower("content-type"@));
        }
    }
}
return r;
    }
    let session_id = read_session_id_header(headers);
    let accept = read_header_map(headers, "accept");
    let accept_ref: Option<&str> = match &accept {
Some(a) => Some(a.as_str()),
None => None,
    };
    let wants_sse = accepts_sse(accept_ref);
    if let Ok(value) = parsed {
if is_jsonrpc_response_value(value) {
    if let Some(sid) = &session_id {
        if let Some(rid) = response_id_key(value) {
            if take_if_pending(store, sid.as_str(), rid.as_str()) {
                let r = TransportResponse::empty(202, Vec::new());
                assert(answer matches Answer::Acknowledged { .. });
                assert(header_texts(r.headers@) =~= headers_of(answer, *config, None));
                return r;
            }
        }
    }
}
    }
    let sid_ref: Option<&str> = match &session_id {
Some(s) => Some(s.as_str()),
None => None,
    };
    match guard_session_id(store, sid_ref) {
SessionGuardResult::NotFound { .. } => {
    let h = session_not_found_headers();
    proof {
        reveal_strlit("content-type");
        reveal_strlit("Content-Type");
        assert(has_header(header_texts(h@), "content-type"@)) by {
            assert(header_texts(h@)[0].0 == "Content-Type"@);
            assert(crate::text::lower("Content-Type"@) =~= crate::text::lower("content-type"@));
        }
    }
    let r = TransportResponse::json(404, session_not_found_body(), h);
    assert(answer == Answer::UnknownSession);
    assert(header_texts(r.headers@) =~= headers_of(answer, *config, None));
    return r;
},
_ => {},
    }
    let message = match read_message(parsed) {
ParseResult::Message(m) => m,
ParseResult::Failure(err) => {
    let lowered = string_of(&lower_vec(&chars_of(err.as_str())));
    let text = if contains(lowered.as_str(), "parse error") {
        err
    } else {
        concat("Parse error: ", err.as_str())
    };
    let rpc_err = crate::jsonrpc::parse_error(None, text.as_str());
    let body = message_to_json(&JsonRpcMessage::Error(rpc_err));
    let r = TransportResponse::json(400, body, Vec::new());
    assert(answer matches Answer::ParseFailed(_));
    assert(header_texts(r.headers@) =~= headers_of(answer, *config, None));
    return r;
},
    };
    let is_init = match &message {
JsonRpcMessage::Request(r) => method_allocates_session(r.method.as_str()),
_ => false,
    };
    let mut response_headers: Vec<(String, String)> = Vec::new();
    let ghost made: Seq<char> = Seq::empty();
    let ghost named: Option<Seq<char>> = None;
    assert(header_texts(response_headers@) =~= Seq::<(Seq<char>, Seq<char>)>::empty());
    if is_init {
let new_id = new_session_id();
store.create_with_id(new_id.as_str(), now_ms);
proof {
    made = new_id@;
}
if session_id.is_none() {
    proof {
        named = Some(new_id@);
    }
    response_headers.push((owned(MCP_SESSION_ID_HEADER), new_id));
    assert(header_texts(response_headers@) =~= seq![("Mcp-Session-Id"@, made)]);
}
    }
    assert(header_texts(response_headers@) == match named {
        Some(id) => seq![("Mcp-Session-Id"@, id)],
        None => Seq::<(Seq<char>, Seq<char>)>::empty(),
    });
    assert(is_init ==> created_in(old(store)@, store@, made, now_ms));
    assert(named == if is_init && session_header(headers@) is None {
        Some(made)
    } else {
        None
    });
    proof {
        reveal_strlit("content-type");
        reveal_strlit("Mcp-Session-Id");
        assert(!has_header(header_texts(response_headers@), "content-type"@)) by {
            if named is Some {
                assert(header_texts(response_headers@)[0].0 == "Mcp-Session-Id"@);
                assert(crate::text::lower("Mcp-Session-Id"@).len() != crate::text::lower("content-type"@).len());
            }
        }
    }
    let dispatch = dispatch_message(state, &message);
    if wants_sse {
let mut stream = String::new();
match &dispatch {
    DispatchResult::Response(msg) => {
        push_str(&mut stream, format_sse_jsonrpc(msg).as_str());
    },
    DispatchResult::NoResponse => {},
}
let r = TransportResponse::sse(200, stream, response_headers);
assert(answer matches Answer::Stream(_));
proof {
    let h = headers_of(answer, *config, named);
    assert(header_texts(r.headers@) =~= h);
    assert(h + Seq::<(Seq<char>, Seq<char>)>::empty() =~= h);
    if is_init {
        assert(created_in(old(store)@, store@, made, now_ms) && header_texts(r.headers@) == headers_of(
            answer,
            *config,
            if session_header(headers@) is None {
                Some(made)
            } else {
                None
            },
        ) + Seq::<(Seq<char>, Seq<char>)>::empty());
    }
}
return r;
    }
    let r = match dispatch {
DispatchResult::NoResponse => TransportResponse::empty(204, response_headers),
DispatchResult::Response(msg) => {
    let body = message_to_json(&msg);
    TransportResponse::json(200, body, response_headers)
},
    };
    assert(answer is NoContent || answer is Reply);
    proof {
        let h = headers_of(answer, *config, named);
        assert(header_texts(r.headers@) =~= h);
        assert(h + Seq::<(Seq<char>, Seq<char>)>::empty() =~= h);
        if is_init {
            assert(created_in(old(store)@, store@, made, now_ms) && header_texts(r.headers@) == headers_of(
                answer,
                *config,
                if session_header(headers@) is None {
                    Some(made)
                } else {
                    None
                },
            ) + Seq::<(Seq<char>, Seq<char>)>::empty());
        }
    }
    r
}

/// Takes `request_id` of session `session_id` when it is pending.
fn take_if_pending(store: &mut SessionStore, session_id: &str, request_id: &str) -> (r: bool)
    requires
        old(store).wf(),
    ensures
        final(store).wf(),
        r == session_waits(old(store)@, session_id@, request_id@),
        r ==> acknowledged_in(old(store)@, final(store)@, session_id@, request_id@),
        !r ==> final(store)@ == old(store)@,
{
    let waiting = match store.get(session_id) {
        Some(s) => s.pending.is_pending(request_id),
        None => false,
    };
    if waiting {
        crate::session_guard::take_pending_on_session(store, session_id, request_id)
    } else {
        false
    }
}

// ─── Laws of the transport ──────────────────────────────────────────────────

/// The health endpoint is always open: whatever the authentication and the
/// headers, it answers 200 with the health payload as JSON and leaves the
/// sessions alone.
pub proof fn lemma_transport_health_open(
    config: HttpConfig,
    state: AppStateMeta,
    method: Seq<char>,
    path: Seq<char>,
    headers: Seq<(Seq<char>, String)>,
    body: Result<JsonV, Seq<char>>,
    now_ms: u64,
    before: Seq<(Seq<char>, crate::session_guard::Session)>,
    after: Seq<(Seq<char>, crate::session_guard::Session)>,
    r: TransportResponse,
)
    requires
        served(config, state, method, path, headers, body, now_ms, before, after, r),
        route_of(method, path, config.base_path@) == RouteClass::Health,
    ensures
        r.status == 200,
        opt_json(r.body) == Some(health_v(state.name@, state.version@)),
        header_texts(r.headers@)[0] == ("Content-Type"@, "application/json"@),
        after == before,
{
}

/// Authentication is opt-in: without an API key no request is answered 401.
pub proof fn lemma_transport_no_key_no_401(
    config: HttpConfig,
    state: AppStateMeta,
    method: Seq<char>,
    path: Seq<char>,
    headers: Seq<(Seq<char>, String)>,
    body: Result<JsonV, Seq<char>>,
    now_ms: u64,
    before: Seq<(Seq<char>, crate::session_guard::Session)>,
    after: Seq<(Seq<char>, crate::session_guard::Session)>,
    r: TransportResponse,
)
    requires
        served(config, state, method, path, headers, body, now_ms, before, after, r),
        config.auth.api_key is None,
    ensures
        r.status != 401,
{
}

/// With an API key configured, a JSON-RPC POST without `X-API-Key` is
/// answered 401 with the unauthorized body, and the sessions stay as they were.
pub proof fn lemma_transport_missing_key_401(
    config: HttpConfig,
    state: AppStateMeta,
    method: Seq<char>,
    path: Seq<char>,
    headers: Seq<(Seq<char>, String)>,
    body: Result<JsonV, Seq<char>>,
    now_ms: u64,
    before: Seq<(Seq<char>, crate::session_guard::Session)>,
    after: Seq<(Seq<char>, crate::session_guard::Session)>,
    r: TransportResponse,
)
    requires
        served(config, state, method, path, headers, body, now_ms, before, after, r),
        config.auth.api_key is Some,
        route_of(method, path, config.base_path@) == RouteClass::JsonRpc,
        header_lookup(headers, "x-api-key"@) is None,
    ensures
        r.status == 401,
        opt_json(r.body) == Some(unauthorized_body_v()),
        after == before,
{
    lemma_json_rpc_route_is_no_preflight(method, path, config.base_path@);
}

/// The JSON-RPC route is taken by `POST` only, never by a preflight.
proof fn lemma_json_rpc_route_is_no_preflight(method: Seq<char>, path: Seq<char>, base_path: Seq<char>)
    requires
        route_of(method, path, base_path) == RouteClass::JsonRpc,
    ensures
        !eq_ignore_case(method, "OPTIONS"@),
{
    reveal_strlit("POST");
    reveal_strlit("OPTIONS");
    assert(upper(method) == "POST"@);
    assert(upper(method).len() == method.len());
    assert(crate::text::lower(method).len() == method.len());
    assert(crate::text::lower("OPTIONS"@).len() == 7);
}

/// An `initialize` that is served without a session id creates a session and
/// names it in the first response header; requests naming it find it.
pub proof fn lemma_transport_initialize_creates_session(
    config: HttpConfig,
    state: AppStateMeta,
    method: Seq<char>,
    path: Seq<char>,
    headers: Seq<(Seq<char>, String)>,
    body: Result<JsonV, Seq<char>>,
    now_ms: u64,
    before: Seq<(Seq<char>, crate::session_guard::Session)>,
    after: Seq<(Seq<char>, crate::session_guard::Session)>,
    r: TransportResponse,
)
    requires
        served(config, state, method, path, headers, body, now_ms, before, after, r),
        route_of(method, path, config.base_path@) == RouteClass::JsonRpc,
        rpc_decision(opt_text(config.auth.api_key), header_lookup(headers, "x-api-key"@)) == AuthDecision::Allow,
        session_header(headers) is None,
        parse_outcome(body) matches ParseOutcome::Message(m) && is_initialize(m),
    ensures
        r.status == 200,
        header_texts(r.headers@).len() > 0,
        header_texts(r.headers@)[0].0 == "Mcp-Session-Id"@,
        uuid_v4_text(header_texts(r.headers@)[0].1),
        has_session(after, header_texts(r.headers@)[0].1),
        after.len() == before.len() + if has_session(before, header_texts(r.headers@)[0].1) {
            0int
        } else {
            1int
        },
{
    let answer = answer_of(config, state, method, path, headers, body, before);
    assert(creates_session(answer, body));
    let e = cors_extra(answer, config);
    let id = choose|id: Seq<char>|
        {
            &&& created_in(before, after, id, now_ms)
            &&& header_texts(r.headers@) == headers_of(
                answer,
                config,
                if session_header(headers) is None {
                    Some(id)
                } else {
                    None
                },
            ) + e
        };
    assert(header_texts(r.headers@)[0] == ("Mcp-Session-Id"@, id));
}


/// A client's answer to a pending server request is acknowledged once: the
/// same answer sent again is not acknowledged.
pub proof fn lemma_transport_ack_once(
    config: HttpConfig,
    state: AppStateMeta,
    method: Seq<char>,
    path: Seq<char>,
    headers: Seq<(Seq<char>, String)>,
    body: Result<JsonV, Seq<char>>,
    t1: u64,
    t2: u64,
    before: Seq<(Seq<char>, crate::session_guard::Session)>,
    middle: Seq<(Seq<char>, crate::session_guard::Session)>,
    after: Seq<(Seq<char>, crate::session_guard::Session)>,
    r1: TransportResponse,
    r2: TransportResponse,
)
    requires
        served(config, state, method, path, headers, body, t1, before, middle, r1),
        served(config, state, method, path, headers, body, t2, middle, after, r2),
        r1.status == 202,
    ensures
        r2.status != 202,
{
}

} // verus!
