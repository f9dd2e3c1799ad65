//! Golden transport fixtures: a request, the authentication to run it
//! under, and a loose description of the expected answer.
//!
//! Expected values match loosely: an object `{"pattern": …}` matches a text
//! the pattern accepts, `{"contains": …}` a text containing it (ASCII case
//! ignored), another object matches an object whose members match its
//! members; anything else must be equal.
use vstd::prelude::*;
use crate::app::AppStateMeta;
use crate::http_auth::{first_named, lemma_first_named, opt_text};
use crate::json::{Json, JsonV, fields_view, jget, json_text_reading};
use crate::readers::text_at;
use crate::render::{lemma_member_order, member_order, member_order_of, render, to_json_text};
use crate::session_guard::{SessionStore, UUID_V4_PATTERN, looks_like_session_id, session_id_shape};
use crate::streamable_http::{
    HttpConfig, IngressRequest, TransportResponse, handle_request, header_texts, served};
use crate::text::{
    chars_of, concat, concat3, contains, contains_seq, decimal, lower, lower_vec, str_eq, string_of, string_of_range,
    u64_decimal};
use crate::textmap::TextMap;

verus! {

broadcast use vstd::string::group_string_axioms;

/// The API key a fixture runs with.
pub struct FixtureAuth {
    pub api_key: Option<String>,
}

/// The request of a fixture; the body is JSON, a string body standing for its text.
pub struct FixtureRequest {
    pub method: String,
    pub path: String,
    pub headers: TextMap<String>,
    pub body: Option<Json>,
}

/// What a fixture expects back: a status, header values and a body.
pub struct FixtureResponseExpect {
    pub status: u16,
    pub headers: TextMap<Json>,
    pub body: Option<Json>,
}

/// A request, its authentication and the expected answer.
pub struct TransportFixture {
    pub request: FixtureRequest,
    pub auth: Option<FixtureAuth>,
    pub response: FixtureResponseExpect,
}

// ─── Running ────────────────────────────────────────────────────────────────

/// The API key of a fixture's authentication.
pub open spec fn fixture_key(auth: Option<FixtureAuth>) -> Option<Seq<char>> {
    match auth {
        Some(a) => opt_text(a.api_key),
        None => None,
    }
}

/// The configuration a fixture runs under: the default one, with the
/// fixture's API key when it has one.
pub fn fixture_config(auth: &Option<FixtureAuth>) -> (r: HttpConfig)
    ensures
        r.port == 3000,
        r.hostname@ == "localhost"@,
        r.base_path@ == "/mcp"@,
        r.cors_origin is None,
        opt_text(r.auth.api_key) == fixture_key(*auth),
{
    let config = HttpConfig::new();
    match auth {
        Some(a) => match &a.api_key {
            Some(k) => config.with_api_key(k.as_str()),
            None => config,
        },
        None => config,
    }
}

/// The text of a fixture's request body: a string body is its own text,
/// another value its JSON text.
pub open spec fn fixture_body_text(body: Option<JsonV>) -> Option<Seq<char>> {
    match body {
        Some(JsonV::Str(t)) => Some(t),
        Some(v) => Some(render(v)),
        None => None,
    }
}

/// The text a fixture's request body is sent as (see [`fixture_body_text`]).
pub fn fixture_request_text(body: &Option<Json>) -> (r: Option<String>)
    ensures
        opt_text(r) == fixture_body_text(crate::jsonrpc::opt_json(*body)),
{
    match body {
        Some(b) => Some(shown_text(b)),
        None => None,
    }
}

/// Runs a fixture's request through [`handle_request`] under the fixture's
/// configuration, the body sent as text.
pub fn run_fixture(state: &AppStateMeta, store: &mut SessionStore, fixture: &TransportFixture, now_ms: u64) -> (r:
    TransportResponse)
    requires
        old(store).wf(),
    ensures
        final(store).wf(),
        exists|config: HttpConfig|
            {
                &&& config.base_path@ == "/mcp"@
                &&& config.cors_origin is None
                &&& opt_text(config.auth.api_key) == fixture_key(fixture.auth)
                &&& served(
                    config,
                    *state,
                    fixture.request.method@,
                    fixture.request.path@,
                    fixture.request.headers@,
                    json_text_reading(
                        match fixture_body_text(crate::jsonrpc::opt_json(fixture.request.body)) {
                            Some(t) => t,
                            None => Seq::empty(),
                        },
                    ),
                    now_ms,
                    old(store)@,
                    final(store)@,
                    r,
                )
            },
{
    let config = fixture_config(&fixture.auth);
    let text = fixture_request_text(&fixture.request.body);
    let body: Option<&str> = match &text {
        Some(t) => Some(t.as_str()),
        None => None,
    };
    let req = IngressRequest {
        method: fixture.request.method.as_str(),
        path: fixture.request.path.as_str(),
        headers: &fixture.request.headers,
        body,
        now_ms,
    };
    handle_request(&config, store, state, &req)
}

// ─── Patterns ───────────────────────────────────────────────────────────────

/// A pattern without a leading `^` and a trailing `$`.
pub open spec fn strip_anchors(p: Seq<char>) -> Seq<char> {
    let a = if p.len() > 0 && p[0] == '^' {
        p.drop_first()
    } else {
        p
    };
    if a.len() > 0 && a.last() == '$' {
        a.drop_last()
    } else {
        a
    }
}

/// Does a pattern use `[`, `(`, `*` or `+`?
pub open spec fn has_meta(p: Seq<char>) -> bool {
    contains_seq(p, seq!['[']) || contains_seq(p, seq!['(']) || contains_seq(p, seq!['*']) || contains_seq(
        p,
        seq!['+'],
    )
}

/// Does `value` match `pattern`? The session-id pattern accepts session ids;
/// a pattern without `[`, `(`, `*` or `+` accepts exactly its text (anchors
/// removed); any other pattern accepts every non-empty value.
pub open spec fn pattern_accepts(pattern: Seq<char>, value: Seq<char>) -> bool {
    if pattern == UUID_V4_PATTERN@ {
        session_id_shape(value)
    } else if !has_meta(strip_anchors(pattern)) {
        value == strip_anchors(pattern)
    } else {
        value.len() > 0
    }
}

fn regex_is_match(pattern: &str, value: &str) -> (r: bool)
    ensures
        r == pattern_accepts(pattern@, value@),
{
    if str_eq(pattern, UUID_V4_PATTERN) {
        return looks_like_session_id(value);
    }
    let v = chars_of(pattern);
    let mut a: usize = 0;
    let mut b: usize = v.len();
    if b > 0 && v[0] == '^' {
        a = 1;
    }
    if b > a && v[b - 1] == '$' {
        b = b - 1;
    }
    let p = string_of_range(&v, a, b);
    proof {
        let s1 = if v@.len() > 0 && v@[0] == '^' {
            v@.drop_first()
        } else {
            v@
        };
        assert(s1 =~= v@.subrange(a as int, v@.len() as int));
        if s1.len() > 0 && s1.last() == '$' {
            assert(s1.drop_last() =~= v@.subrange(a as int, b as int));
        } else {
            assert(s1 =~= v@.subrange(a as int, b as int));
        }
        assert(p@ == strip_anchors(pattern@));
        reveal_strlit("[");
        reveal_strlit("(");
        reveal_strlit("*");
        reveal_strlit("+");
        assert("["@ =~= seq!['[']);
        assert("("@ =~= seq!['(']);
        assert("*"@ =~= seq!['*']);
        assert("+"@ =~= seq!['+']);
    }
    let meta = contains(p.as_str(), "[") || contains(p.as_str(), "(") || contains(p.as_str(), "*") || contains(
        p.as_str(),
        "+",
    );
    if !meta {
        str_eq(value, p.as_str())
    } else {
        !value.is_empty()
    }
}

// ─── Equality and loose matching ────────────────────────────────────────────

/// Equality of JSON values as maps: arrays element by element; objects with
/// the same number of members, each member of the first equal to the member
/// of that name in the second.
pub open spec fn json_eq(a: JsonV, b: JsonV) -> bool
    decreases a, 0int,
{
    match a {
        JsonV::Array(x) => b is Array && b->Array_0.len() == x.len() && elems_eq(x, b->Array_0),
        JsonV::Object(f) => b is Object && b->Object_0.len() == f.len() && members_eq(f, b),
        _ => a == b,
    }
}

pub open spec fn elems_eq(x: Seq<JsonV>, y: Seq<JsonV>) -> bool
    decreases x, 1int,
{
    if x.len() == 0 || y.len() == 0 {
        x.len() == y.len()
    } else {
        elems_eq(x.drop_last(), y.drop_last()) && json_eq(x.last(), y.last())
    }
}

pub open spec fn members_eq(f: Seq<(Seq<char>, JsonV)>, b: JsonV) -> bool
    decreases f, 1int,
{
    if f.len() == 0 {
        true
    } else {
        members_eq(f.drop_last(), b) && match jget(b, f.last().0) {
            Some(w) => json_eq(f.last().1, w),
            None => false,
        }
    }
}

/// The text a value is matched as: a string's own text, another value's JSON text.
pub open spec fn shown(v: JsonV) -> Seq<char> {
    match v {
        JsonV::Str(s) => s,
        _ => render(v),
    }
}

/// The member `k` of a value, `null` when missing.
pub open spec fn child(v: JsonV, k: Seq<char>) -> JsonV {
    match jget(v, k) {
        Some(x) => x,
        None => JsonV::Null,
    }
}

/// Does `actual` match the loose expectation `expected`?
pub open spec fn value_matches(actual: JsonV, expected: JsonV) -> bool
    decreases expected, 0int, 0int,
{
    match expected {
        JsonV::Object(f) => if text_at(expected, "pattern"@) is Some {
            pattern_accepts(text_at(expected, "pattern"@)->Some_0, shown(actual))
        } else if text_at(expected, "contains"@) is Some {
            contains_seq(lower(shown(actual)), lower(text_at(expected, "contains"@)->Some_0))
        } else if actual is Object {
            members_match(actual, f, member_order(f))
        } else {
            json_eq(actual, expected)
        },
        _ => json_eq(actual, expected),
    }
}

/// Do the members of `actual` named by the members of `f` at `idx` match them?
pub open spec fn members_match(actual: JsonV, f: Seq<(Seq<char>, JsonV)>, idx: Seq<int>) -> bool
    decreases f, 1int, idx.len(),
{
    if idx.len() == 0 {
        true
    } else {
        let j = idx.last();
        members_match(actual, f, idx.drop_last()) && (0 <= j < f.len() ==> value_matches(
            child(actual, f[j].0),
            f[j].1,
        ))
    }
}

/// The `Debug` text of a string, as `format!("{:?}", s)` writes it: the
/// string in double quotes, quotes, backslashes and unprintable characters
/// escaped.
pub uninterp spec fn debug_quoted(s: Seq<char>) -> Seq<char>;

/// The `Debug` text of a string (std's `format!("{:?}", s)`); the contract
/// names the result and says nothing more of it.
#[verifier::external_body]
fn debug_text(s: &str) -> (r: String)
    ensures
        r@ == debug_quoted(s@),
{
    format!("{:?}", s)
}

/// The error for two values that differ: both as JSON text.
pub open spec fn equal_error(actual: JsonV, expected: JsonV, label: Seq<char>) -> Option<Seq<char>> {
    if json_eq(actual, expected) {
        None
    } else {
        Some(label + ": actual "@ + render(actual) + " expected "@ + render(expected))
    }
}

/// What [`match_value`] reports: nothing when `actual` matches `expected`,
/// else the first place below `label` that does not match (members taken
/// in the order of their keys), and why.
pub open spec fn match_error(actual: JsonV, expected: JsonV, label: Seq<char>) -> Option<Seq<char>>
    decreases expected, 0int, 0int,
{
    match expected {
        JsonV::Object(f) => if text_at(expected, "pattern"@) is Some {
            let pat = text_at(expected, "pattern"@)->Some_0;
            if pattern_accepts(pat, shown(actual)) {
                None
            } else {
                Some(label + ": "@ + debug_quoted(shown(actual)) + " !~ "@ + pat)
            }
        } else if text_at(expected, "contains"@) is Some {
            let c = text_at(expected, "contains"@)->Some_0;
            if contains_seq(lower(shown(actual)), lower(c)) {
                None
            } else {
                Some(label + ": "@ + debug_quoted(shown(actual)) + " missing "@ + debug_quoted(c))
            }
        } else if actual is Object {
            members_error(actual, f, member_order(f), label)
        } else {
            equal_error(actual, expected, label)
        },
        _ => equal_error(actual, expected, label),
    }
}

/// The first error among the members of `f` at `idx`, each below `label.key`.
pub open spec fn members_error(actual: JsonV, f: Seq<(Seq<char>, JsonV)>, idx: Seq<int>, label: Seq<char>) -> Option<
    Seq<char>,
>
    decreases f, 1int, idx.len(),
{
    if idx.len() == 0 {
        None
    } else {
        match members_error(actual, f, idx.drop_last(), label) {
            Some(e) => Some(e),
            None => {
                let j = idx.last();
                if 0 <= j < f.len() {
                    match_error(child(actual, f[j].0), f[j].1, label + "."@ + f[j].0)
                } else {
                    None
                }
            },
        }
    }
}

/// A value matches exactly when there is no error to report.
pub proof fn lemma_match_error(actual: JsonV, expected: JsonV, label: Seq<char>)
    ensures
        match_error(actual, expected, label) is None <==> value_matches(actual, expected),
    decreases expected, 0int, 0int,
{
    if let JsonV::Object(f) = expected {
        if text_at(expected, "pattern"@) is None && text_at(expected, "contains"@) is None && actual is Object {
            lemma_members_error(actual, f, member_order(f), label);
        }
    }
}

proof fn lemma_members_error(actual: JsonV, f: Seq<(Seq<char>, JsonV)>, idx: Seq<int>, label: Seq<char>)
    ensures
        members_error(actual, f, idx, label) is None <==> members_match(actual, f, idx),
    decreases f, 1int, idx.len(),
{
    if idx.len() > 0 {
        lemma_members_error(actual, f, idx.drop_last(), label);
        let j = idx.last();
        if 0 <= j < f.len() {
            lemma_match_error(child(actual, f[j].0), f[j].1, label + "."@ + f[j].0);
        }
    }
}

/// Are two values equal as maps (see [`json_eq`])?
pub fn json_equal(a: &Json, b: &Json) -> (r: bool)
    ensures
        r == json_eq(a@, b@),
    decreases a@,
{
    proof {
        reveal_with_fuel(<Json as View>::view, 2);
    }
    match (a, b) {
        (Json::Array(x), Json::Array(y)) => {
            if x.len() != y.len() {
                return false;
            }
            let ghost xs = a@->Array_0;
            let ghost ys = b@->Array_0;
            let mut all = true;
            let mut i: usize = 0;
            while i < x.len()
                invariant
                    i <= x.len(),
                    x.len() == y.len(),
                    a@ is Array && xs == a@->Array_0,
                    b@ is Array && ys == b@->Array_0,
                    xs.len() == x.len() && ys.len() == y.len(),
                    forall|k: int| 0 <= k < x.len() ==> #[trigger] xs[k] == x@[k]@,
                    forall|k: int| 0 <= k < y.len() ==> #[trigger] ys[k] == y@[k]@,
                    all == elems_eq(xs.take(i as int), ys.take(i as int)),
                decreases x.len() - i,
            {
                proof {
                    assert(decreases_to!(a@ => xs));
                    assert(decreases_to!(xs => xs[i as int]));
                }
                let e = json_equal(&x[i], &y[i]);
                proof {
                    assert(xs.take(i + 1).drop_last() =~= xs.take(i as int));
                    assert(ys.take(i + 1).drop_last() =~= ys.take(i as int));
                    assert(xs.take(i + 1).last() == xs[i as int]);
                    assert(ys.take(i + 1).last() == ys[i as int]);
                }
                all = all && e;
                i = i + 1;
            }
            assert(xs.take(x.len() as int) =~= xs);
            assert(ys.take(y.len() as int) =~= ys);
            all
        },
        (Json::Object(f), Json::Object(g)) => {
            if f.len() != g.len() {
                return false;
            }
            let ghost fs = a@->Object_0;
            let mut all = true;
            let mut i: usize = 0;
            while i < f.len()
                invariant
                    i <= f.len(),
                    a@ is Object && fs == a@->Object_0,
                    fs.len() == f.len(),
                    forall|k: int| 0 <= k < f.len() ==> #[trigger] fs[k] == (f@[k].0@, f@[k].1@),
                    all == members_eq(fs.take(i as int), b@),
                decreases f.len() - i,
            {
                proof {
                    assert(decreases_to!(a@ => fs));
                    assert(decreases_to!(fs => fs[i as int]));
                    assert(decreases_to!(fs[i as int] => fs[i as int].1));
                }
                let e = match b.get(f[i].0.as_str()) {
                    Some(w) => json_equal(&f[i].1, w),
                    None => false,
                };
                proof {
                    assert(fs.take(i + 1).drop_last() =~= fs.take(i as int));
                    assert(fs.take(i + 1).last() == fs[i as int]);
                }
                all = all && e;
                i = i + 1;
            }
            assert(fs.take(f.len() as int) =~= fs);
            all
        },
        (Json::Null, Json::Null) => true,
        (Json::Bool(x), Json::Bool(y)) => *x == *y,
        (Json::Int(x), Json::Int(y)) => *x == *y,
        (Json::Float(x), Json::Float(y)) => str_eq(x.as_str(), y.as_str()),
        (Json::Str(x), Json::Str(y)) => str_eq(x.as_str(), y.as_str()),
        _ => false,
    }
}

fn shown_text(v: &Json) -> (r: String)
    ensures
        r@ == shown(v@),
{
    match v {
        Json::Str(s) => s.clone(),
        _ => to_json_text(v),
    }
}

proof fn lemma_members_error_prefix(
    actual: JsonV,
    f: Seq<(Seq<char>, JsonV)>,
    idx: Seq<int>,
    k: int,
    label: Seq<char>,
)
    requires
        0 <= k <= idx.len(),
        members_error(actual, f, idx.take(k), label) is Some,
    ensures
        members_error(actual, f, idx, label) == members_error(actual, f, idx.take(k), label),
    decreases idx.len() - k,
{
    if k < idx.len() {
        assert(idx.take(k + 1).drop_last() =~= idx.take(k));
        lemma_members_error_prefix(actual, f, idx, k + 1, label);
    } else {
        assert(idx.take(k) =~= idx);
    }
}

/// Matches `actual` against the loose expectation `expected`; the error
/// names the first place, below `label`, that does not match.
pub fn match_value(actual: &Json, expected: &Json, label: &str) -> (r: Result<(), String>)
    ensures
        match match_error(actual@, expected@, label@) {
            None => r is Ok,
            Some(e) => r is Err && r->Err_0@ == e,
        },
        r is Ok <==> value_matches(actual@, expected@),
    decreases expected@,
{
    proof {
        reveal_with_fuel(<Json as View>::view, 2);
        lemma_match_error(actual@, expected@, label@);
    }
    if let Json::Object(f) = expected {
        if let Some(Json::Str(pat)) = expected.get("pattern") {
            let s = shown_text(actual);
            if !regex_is_match(pat.as_str(), s.as_str()) {
                let q = debug_text(s.as_str());
                let head = concat3(label, ": ", q.as_str());
                return Err(concat3(head.as_str(), " !~ ", pat.as_str()));
            }
            return Ok(());
        }
        if let Some(Json::Str(c)) = expected.get("contains") {
            let s = shown_text(actual);
            let ls = string_of(&lower_vec(&chars_of(s.as_str())));
            let lc = string_of(&lower_vec(&chars_of(c.as_str())));
            if !contains(ls.as_str(), lc.as_str()) {
                let qs = debug_text(s.as_str());
                let qc = debug_text(c.as_str());
                let head = concat3(label, ": ", qs.as_str());
                return Err(concat3(head.as_str(), " missing ", qc.as_str()));
            }
            return Ok(());
        }
        if actual.is_object() {
            let ghost fs = expected@->Object_0;
            assert(fs =~= fields_view(f@));
            let order = member_order_of(f);
            let ghost ord = member_order(fs);
            proof {
                lemma_member_order(fs);
            }
            assert(match_error(actual@, expected@, label@) == members_error(actual@, fs, ord, label@));
            assert(value_matches(actual@, expected@) == members_match(actual@, fs, ord));
            let mut i: usize = 0;
            assert(ord.take(0) =~= Seq::<int>::empty());
            while i < order.len()
                invariant
                    match_error(actual@, expected@, label@) == members_error(actual@, fs, ord, label@),
                    match_error(actual@, expected@, label@) is None <==> value_matches(actual@, expected@),
                    i <= order.len(),
                    order.len() == f.len(),
                    ord.len() == f.len(),
                    expected@ is Object && fs == expected@->Object_0,
                    fs == fields_view(f@),
                    ord == member_order(fs),
                    forall|q: int| 0 <= q < f.len() ==> #[trigger] order@[q] as int == ord[q],
                    forall|q: int| 0 <= q < f.len() ==> #[trigger] order@[q] < f.len(),
                    members_error(actual@, fs, ord.take(i as int), label@) is None,
                decreases order.len() - i,
            {
                let m = order[i];
                assert(order@[i as int] as int == ord[i as int]);
                proof {
                    assert(decreases_to!(expected@ => fs));
                    assert(decreases_to!(fs => fs[m as int]));
                    assert(decreases_to!(fs[m as int] => fs[m as int].1));
                }
                let sub = concat3(label, ".", f[m].0.as_str());
                let ghost cv = child(actual@, fs[m as int].0);
                assert(fs[m as int] == (f@[m as int].0@, f@[m as int].1@));
                let outcome = match actual.get(f[m].0.as_str()) {
                    Some(x) => {
                        assert(x@ == cv);
                        match_value(x, &f[m].1, sub.as_str())
                    },
                    None => {
                        assert(Json::Null@ == cv);
                        match_value(&Json::Null, &f[m].1, sub.as_str())
                    },
                };
                proof {
                    let t = ord.take(i + 1);
                    assert(t.drop_last() =~= ord.take(i as int));
                    assert(t.last() == m as int);
                    assert(members_error(actual@, fs, t, label@) == match_error(cv, fs[m as int].1, sub@));
                }
                if let Err(e) = outcome {
                    proof {
                        assert(members_error(actual@, fs, ord.take(i + 1), label@) == Some(e@));
                        lemma_members_error_prefix(actual@, fs, ord, i + 1, label@);
                    }
                    return Err(e);
                }
                i = i + 1;
            }
            assert(ord.take(f.len() as int) =~= ord);
            return Ok(());
        }
    }
    if !json_equal(actual, expected) {
        let a = to_json_text(actual);
        let e = to_json_text(expected);
        let head = concat3(label, ": actual ", a.as_str());
        return Err(concat3(head.as_str(), " expected ", e.as_str()));
    }
    Ok(())
}

// ─── Matching a response ────────────────────────────────────────────────────

/// The value of the first header named `name` (ASCII case ignored), empty when none.
pub open spec fn header_or_empty(h: Seq<(Seq<char>, Seq<char>)>, name: Seq<char>) -> Seq<char> {
    if first_named(h, name) >= 0 {
        h[first_named(h, name)].1
    } else {
        Seq::empty()
    }
}

fn response_header(actual: &TransportResponse, name: &str) -> (r: String)
    ensures
        r@ == header_or_empty(header_texts(actual.headers@), name@),
{
    let ghost h = header_texts(actual.headers@);
    proof {
        lemma_first_named(h, name@);
        assert forall|j: int| 0 <= j < h.len() implies #[trigger] h[j] == (actual.headers@[j].0@, actual.headers@[j].1@) by {}
    }
    match actual.header(name) {
        Some(v) => {
            proof {
                let i = choose|i: int|
                    0 <= i < actual.headers@.len() && crate::text::eq_ignore_case(actual.headers@[i].0@, name@)
                        && actual.headers@[i].1@ == v@ && forall|j: int|
                        0 <= j < i ==> !crate::text::eq_ignore_case(#[trigger] actual.headers@[j].0@, name@);
                let k = first_named(h, name@);
                assert(h[i] == (actual.headers@[i].0@, actual.headers@[i].1@));
                assert(h[i].0 == actual.headers@[i].0@);
                assert(crate::text::eq_ignore_case(h[i].0, name@));
                if k == -1 || k > i {
                    assert(!crate::text::eq_ignore_case(h[i].0, name@));
                }
                if 0 <= k < i {
                    assert(h[k] == (actual.headers@[k].0@, actual.headers@[k].1@));
                    assert(!crate::text::eq_ignore_case(actual.headers@[k].0@, name@));
                }
                assert(k == i);
            }
            crate::text::owned(v)
        },
        None => {
            proof {
                if first_named(h, name@) >= 0 {
                    let k = first_named(h, name@);
                    assert(h[k] == (actual.headers@[k].0@, actual.headers@[k].1@));
                }
            }
            String::new()
        },
    }
}

/// Does one expected header value hold of the answer's headers?
pub open spec fn header_matches(h: Seq<(Seq<char>, Seq<char>)>, name: Seq<char>, expected: JsonV) -> bool {
    match expected {
        JsonV::Str(s) => crate::text::eq_ignore_case(header_or_empty(h, name), s),
        JsonV::Object(_) => match text_at(expected, "pattern"@) {
            Some(p) => pattern_accepts(p, header_or_empty(h, name)),
            None => true,
        },
        _ => true,
    }
}

/// The error for one expected header, when it does not hold.
pub open spec fn header_error(h: Seq<(Seq<char>, Seq<char>)>, name: Seq<char>, expected: JsonV) -> Option<Seq<char>> {
    let v = header_or_empty(h, name);
    match expected {
        JsonV::Str(s) => if crate::text::eq_ignore_case(v, s) {
            None
        } else {
            Some("header "@ + name + ": actual "@ + debug_quoted(v) + " expected "@ + debug_quoted(s))
        },
        JsonV::Object(_) => match text_at(expected, "pattern"@) {
            Some(p) => if pattern_accepts(p, v) {
                None
            } else {
                Some("header "@ + name + ": "@ + debug_quoted(v) + " does not match pattern "@ + p)
            },
            None => None,
        },
        _ => None,
    }
}

/// The first error among the first `n` expected headers, in key order.
pub open spec fn headers_error(h: Seq<(Seq<char>, Seq<char>)>, hs: Seq<(Seq<char>, Json)>, n: nat) -> Option<Seq<char>>
    decreases n,
{
    if n == 0 {
        None
    } else {
        match headers_error(h, hs, (n - 1) as nat) {
            Some(e) => Some(e),
            None => header_error(h, hs[n - 1].0, hs[n - 1].1@),
        }
    }
}

/// What [`assert_fixture_match`] reports: nothing when the answer matches,
/// else the status when it differs, else the first expected header that does
/// not hold, else the body's error.
pub open spec fn fixture_error(actual: TransportResponse, expect: FixtureResponseExpect) -> Option<Seq<char>> {
    if actual.status != expect.status {
        Some("status: actual "@ + decimal(actual.status as nat) + " expected "@ + decimal(expect.status as nat))
    } else {
        match headers_error(header_texts(actual.headers@), expect.headers@, expect.headers@.len()) {
            Some(e) => Some(e),
            None => match expect.body {
                Some(b) => match_error(
                    match actual.body {
                        Some(x) => x@,
                        None => JsonV::Null,
                    },
                    b@,
                    "body"@,
                ),
                None => None,
            },
        }
    }
}

proof fn lemma_headers_error(h: Seq<(Seq<char>, Seq<char>)>, hs: Seq<(Seq<char>, Json)>, n: nat)
    requires
        n <= hs.len(),
    ensures
        headers_error(h, hs, n) is None <==> forall|i: int|
            0 <= i < n ==> header_matches(h, #[trigger] hs[i].0, hs[i].1@),
    decreases n,
{
    if n > 0 {
        lemma_headers_error(h, hs, (n - 1) as nat);
    }
}

proof fn lemma_headers_error_prefix(h: Seq<(Seq<char>, Seq<char>)>, hs: Seq<(Seq<char>, Json)>, k: nat, n: nat)
    requires
        k <= n,
        headers_error(h, hs, k) is Some,
    ensures
        headers_error(h, hs, n) == headers_error(h, hs, k),
    decreases n - k,
{
    if k < n {
        lemma_headers_error_prefix(h, hs, k, (n - 1) as nat);
    }
}

/// Does the answer match the expectation: the same status, every expected
/// header, and the expected body when there is one (a missing body read as `null`)?
pub open spec fn response_matches(actual: TransportResponse, expect: FixtureResponseExpect) -> bool {
    &&& actual.status == expect.status
    &&& forall|i: int|
        0 <= i < expect.headers@.len() ==> header_matches(
            header_texts(actual.headers@),
            #[trigger] expect.headers@[i].0,
            expect.headers@[i].1@,
        )
    &&& match expect.body {
        Some(b) => value_matches(
            match actual.body {
                Some(x) => x@,
                None => JsonV::Null,
            },
            b@,
        ),
        None => true,
    }
}

/// An answer matches exactly when there is no error to report.
pub proof fn lemma_fixture_error(actual: TransportResponse, expect: FixtureResponseExpect)
    ensures
        fixture_error(actual, expect) is None <==> response_matches(actual, expect),
{
    let h = header_texts(actual.headers@);
    lemma_headers_error(h, expect.headers@, expect.headers@.len());
    if let Some(b) = expect.body {
        lemma_match_error(
            match actual.body {
                Some(x) => x@,
                None => JsonV::Null,
            },
            b@,
            "body"@,
        );
    }
}

/// Checks an answer against a fixture's expectation; the error says what differs.
pub fn assert_fixture_match(actual: &TransportResponse, expect: &FixtureResponseExpect) -> (r: Result<(), String>)
    requires
        expect.headers.wf(),
    ensures
        match fixture_error(*actual, *expect) {
            None => r is Ok,
            Some(e) => r is Err && r->Err_0@ == e,
        },
        r is Ok <==> response_matches(*actual, *expect),
{
    proof {
        lemma_fixture_error(*actual, *expect);
    }
    if actual.status != expect.status {
        let a = u64_decimal(actual.status as u64);
        let e = u64_decimal(expect.status as u64);
        let head = concat3("status: actual ", a.as_str(), " expected ");
        return Err(concat(head.as_str(), e.as_str()));
    }
    let ghost h = header_texts(actual.headers@);
    let mut i: usize = 0;
    while i < expect.headers.len()
        invariant
            expect.headers.wf(),
            i <= expect.headers@.len(),
            actual.status == expect.status,
            h == header_texts(actual.headers@),
            headers_error(h, expect.headers@, i as nat) is None,
            fixture_error(*actual, *expect) is None <==> response_matches(*actual, *expect),
        decreases expect.headers@.len() - i,
    {
        let name = expect.headers.key_at(i);
        let expected = expect.headers.value_at(i);
        let actual_val = response_header(actual, name.as_str());
        let failure: Option<String> = match expected {
            Json::Str(s) => if crate::text::eq_ignore_ascii_case(actual_val.as_str(), s.as_str()) {
                None
            } else {
                let qa = debug_text(actual_val.as_str());
                let qs = debug_text(s.as_str());
                let head = concat3("header ", name.as_str(), ": actual ");
                let mid = concat3(head.as_str(), qa.as_str(), " expected ");
                Some(concat(mid.as_str(), qs.as_str()))
            },
            Json::Object(_) => match expected.get("pattern") {
                Some(Json::Str(p)) => if regex_is_match(p.as_str(), actual_val.as_str()) {
                    None
                } else {
                    let qa = debug_text(actual_val.as_str());
                    let head = concat3("header ", name.as_str(), ": ");
                    let mid = concat3(head.as_str(), qa.as_str(), " does not match pattern ");
                    Some(concat(mid.as_str(), p.as_str()))
                },
                _ => None,
            },
            _ => None,
        };
        proof {
            assert(expect.headers@[i as int].0 == name@);
            assert(expect.headers@[i as int].1 == *expected);
            if failure is Some {
                assert(header_error(h, name@, expected@) == Some(failure->Some_0@));
            } else {
                assert(header_error(h, name@, expected@) is None);
            }
        }
        if let Some(m) = failure {
            proof {
                lemma_headers_error_prefix(h, expect.headers@, (i + 1) as nat, expect.headers@.len());
            }
            return Err(m);
        }
        i = i + 1;
    }
    match &expect.body {
        Some(b) => {
            let null = Json::Null;
            let actual_body = match &actual.body {
                Some(x) => x,
                None => &null,
            };
            match_value(actual_body, b, "body")
        },
        None => Ok(()),
    }
}

} // verus!
