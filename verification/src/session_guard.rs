//! Sessions of the streamable HTTP transport (`Mcp-Session-Id`).
use vstd::prelude::*;
use crate::json::{Json, JsonV, fields_view, member, object};
use crate::stdio::{PendingRequests, server_id, DEFAULT_REQUEST_TIMEOUT_MS};
use crate::text::{chars_of, eq_ignore_ascii_case, eq_ignore_case, is_hex_digit, owned, str_eq, trim, trim_str};
use crate::textmap::{TextMap, lookup};
use crate::http_auth::{first_named, opt_text, opt_view};

verus! {

broadcast use vstd::string::group_string_axioms;

/// Request and response header carrying the session id.
pub const MCP_SESSION_ID_HEADER: &'static str = "Mcp-Session-Id";

/// The same header name in lower case.
pub const MCP_SESSION_ID_HEADER_LOWER: &'static str = "mcp-session-id";

/// HTTP status for an unknown session id.
pub const SESSION_NOT_FOUND_STATUS: u16 = 404;

/// `Content-Type` of the session-not-found body.
pub const SESSION_NOT_FOUND_CONTENT_TYPE: &'static str = "application/json";

/// Default timeout for server-to-client requests, in milliseconds.
pub const DEFAULT_PENDING_TIMEOUT_MS: u64 = DEFAULT_REQUEST_TIMEOUT_MS;

/// The pattern that session ids follow.
pub const UUID_V4_PATTERN: &'static str = "^[0-9a-f]{8}-[0-9a-f]{4}-[0-9a-f]{4}-[0-9a-f]{4}-[0-9a-f]{12}$";

/// The model of `{"error":"Session not found"}`.
pub open spec fn session_not_found_v() -> JsonV {
    JsonV::Object(seq![("error"@, JsonV::Str("Session not found"@))])
}

pub fn session_not_found_body() -> (r: Json)
    ensures
        r@ == session_not_found_v(),
{
    let mut v: Vec<(String, Json)> = Vec::new();
    v.push(member("error", Json::str_of("Session not found")));
    assert(fields_view(v@) =~= session_not_found_v()->Object_0);
    object(v)
}

// ─── Session ids ────────────────────────────────────────────────────────────

/// Is `i` one of the positions of the dashes in an 8-4-4-4-12 id?
pub open spec fn dash_position(i: int) -> bool {
    i == 8 || i == 13 || i == 18 || i == 23
}

/// 36 characters: hexadecimal digits in groups of 8-4-4-4-12 separated by dashes.
pub open spec fn session_id_shape(id: Seq<char>) -> bool {
    id.len() == 36 && forall|i: int|
        0 <= i < 36 ==> if dash_position(i) {
            id[i] == '-'
        } else {
            is_hex_digit(#[trigger] id[i])
        }
}

/// A lower-case hyphenated version-4 UUID.
pub open spec fn uuid_v4_text(id: Seq<char>) -> bool {
    &&& id.len() == 36
    &&& forall|i: int|
        0 <= i < 36 ==> if dash_position(i) {
            id[i] == '-'
        } else {
            ('0' <= #[trigger] id[i] && id[i] <= '9') || ('a' <= id[i] && id[i] <= 'f')
        }
    &&& id[14] == '4'
}

/// A fresh random session id (`uuid::Uuid::new_v4().to_string()`).
///
/// Trusted: `uuid` formats a version-4 UUID as 32 lower-case hexadecimal
/// digits in 8-4-4-4-12 groups separated by dashes, with the version digit `4`
/// first in the third group. Which id comes out is random and not stated.
#[verifier::external_body]
pub fn new_session_id() -> (r: String)
    ensures
        uuid_v4_text(r@),
{
    uuid::Uuid::new_v4().to_string()
}

/// Does `id` have the shape of a session id?
pub fn looks_like_session_id(id: &str) -> (r: bool)
    ensures
        r == session_id_shape(id@),
{
    let v = chars_of(id);
    if v.len() != 36 {
        return false;
    }
    let mut i: usize = 0;
    while i < 36
        invariant
            i <= 36,
            v@ == id@,
            v@.len() == 36,
            forall|j: int|
                0 <= j < i ==> if dash_position(j) {
                    v@[j] == '-'
                } else {
                    is_hex_digit(#[trigger] v@[j])
                },
        decreases 36 - i,
    {
        let c = v[i];
        if i == 8 || i == 13 || i == 18 || i == 23 {
            if c != '-' {
                return false;
            }
        } else if !(('0' <= c && c <= '9') || ('a' <= c && c <= 'f') || ('A' <= c && c <= 'F')) {
            assert(!is_hex_digit(v@[i as int]));
            return false;
        }
        i = i + 1;
    }
    true
}

/// Every minted id has the shape of a session id.
pub proof fn lemma_minted_id_shape(id: Seq<char>)
    requires
        uuid_v4_text(id),
    ensures
        session_id_shape(id),
{
    assert forall|i: int| 0 <= i < 36 implies if dash_position(i) {
        id[i] == '-'
    } else {
        is_hex_digit(#[trigger] id[i])
    } by {}
}

/// The `Mcp-Session-Id` header (name matched ignoring ASCII case), trimmed;
/// `None` when absent or blank.
pub open spec fn session_header(headers: Seq<(Seq<char>, String)>) -> Option<Seq<char>> {
    let i = first_named(headers, "Mcp-Session-Id"@);
    if i < 0 || trim(headers[i].1@).len() == 0 {
        None
    } else {
        Some(trim(headers[i].1@))
    }
}

pub fn read_session_id_header(headers: &TextMap<String>) -> (r: Option<String>)
    ensures
        opt_text(r) == session_header(headers@),
{
    proof {
        crate::http_auth::lemma_first_named(headers@, "Mcp-Session-Id"@);
    }
    let mut i: usize = 0;
    while i < headers.len()
        invariant
            i <= headers@.len(),
            forall|j: int| 0 <= j < i ==> !eq_ignore_case(#[trigger] headers@[j].0, "Mcp-Session-Id"@),
            -1 <= first_named(headers@, "Mcp-Session-Id"@) < headers@.len(),
            first_named(headers@, "Mcp-Session-Id"@) >= 0 ==> eq_ignore_case(
                headers@[first_named(headers@, "Mcp-Session-Id"@)].0,
                "Mcp-Session-Id"@,
            ),
            forall|j: int|
                0 <= j < headers@.len() && (first_named(headers@, "Mcp-Session-Id"@) == -1 || j
                    < first_named(headers@, "Mcp-Session-Id"@)) ==> !eq_ignore_case(
                    #[trigger] headers@[j].0,
                    "Mcp-Session-Id"@,
                ),
        decreases headers@.len() - i,
    {
        let k = headers.key_at(i);
        if eq_ignore_ascii_case(k.as_str(), MCP_SESSION_ID_HEADER) {
            assert(first_named(headers@, "Mcp-Session-Id"@) == i);
            let t = trim_str(headers.value_at(i).as_str());
            if t.as_str().is_empty() {
                return None;
            }
            return Some(t);
        }
        i = i + 1;
    }
    None
}

// ─── Sessions ───────────────────────────────────────────────────────────────

/// One session, created on `initialize`.
pub struct Session {
    pub created_at_ms: u64,
    /// Requests sent to the client in this session that wait for an answer.
    pub pending: PendingRequests,
}

impl Session {
    pub fn new(created_at_ms: u64) -> (s: Self)
        ensures
            s.created_at_ms == created_at_ms,
            s.pending.wf(),
            s.pending.next_number() == 1,
            s.pending.count() == 0,
    {
        Session { created_at_ms, pending: PendingRequests::new() }
    }
}

impl Default for Session {
    fn default() -> (s: Self)
        ensures
            s.created_at_ms == 0,
            s.pending.wf(),
            s.pending.next_number() == 0,
            s.pending.count() == 0,
    {
        Session { created_at_ms: 0, pending: PendingRequests::default() }
    }
}

/// The sessions of one transport, by id.
pub struct SessionStore {
    sessions: TextMap<Session>,
}

impl View for SessionStore {
    type V = Seq<(Seq<char>, Session)>;

    /// The sessions in ascending id order.
    closed spec fn view(&self) -> Seq<(Seq<char>, Session)> {
        self.sessions@
    }
}

/// Is there a session `id` in the store model `s`?
pub open spec fn has_session(s: Seq<(Seq<char>, Session)>, id: Seq<char>) -> bool {
    lookup(s, id) is Some
}

/// A missing session, or one whose pending registry is sound.
pub open spec fn pending_ok(o: Option<Session>) -> bool {
    match o {
        Some(x) => x.pending.wf(),
        None => true,
    }
}

/// Session `id` of `s` exists, was created at `t`, and has a fresh registry.
pub open spec fn fresh_session(s: Seq<(Seq<char>, Session)>, id: Seq<char>, t: u64) -> bool {
    match lookup(s, id) {
        Some(x) => x.created_at_ms == t && x.pending.next_number() == 1 && x.pending.count() == 0,
        None => false,
    }
}

/// Session `id` of `s` exists and waits for an answer to `rid`.
pub open spec fn session_waits(s: Seq<(Seq<char>, Session)>, id: Seq<char>, rid: Seq<char>) -> bool {
    match lookup(s, id) {
        Some(x) => x.pending.waits_for(rid),
        None => false,
    }
}

impl SessionStore {
    /// The store is ordered and every session's pending registry is sound.
    pub closed spec fn wf(&self) -> bool {
        &&& self.sessions.wf()
        &&& forall|id: Seq<char>| #[trigger] pending_ok(lookup(self.sessions@, id))
    }

    pub fn new() -> (r: Self)
        ensures
            r.wf(),
            r@ == Seq::<(Seq<char>, Session)>::empty(),
    {
        SessionStore { sessions: TextMap::new() }
    }

    pub fn len(&self) -> (n: usize)
        ensures
            n == self@.len(),
    {
        self.sessions.len()
    }

    pub fn is_empty(&self) -> (b: bool)
        ensures
            b == (self@.len() == 0),
    {
        self.sessions.is_empty()
    }

    /// Stores `session` under `id`, replacing any session with that id.
    pub fn insert(&mut self, id: &str, session: Session)
        requires
            old(self).wf(),
            session.pending.wf(),
        ensures
            final(self).wf(),
            forall|k: Seq<char>| #[trigger]
                lookup(final(self)@, k) == if k == id@ {
                    Some(session)
                } else {
                    lookup(old(self)@, k)
                },
            final(self)@.len() == old(self)@.len() + if has_session(old(self)@, id@) {
                0int
            } else {
                1int
            },
    {
        self.sessions.insert(owned(id), session);
        proof {
            assert forall|k: Seq<char>| #[trigger] pending_ok(lookup(self.sessions@, k)) by {
                if k != id@ {
                    assert(lookup(old(self).sessions@, k) == lookup(self.sessions@, k));
                }
            }
        }
    }

    /// Creates a session with a fresh random id and returns the id.
    pub fn create(&mut self, created_at_ms: u64) -> (id: String)
        requires
            old(self).wf(),
        ensures
            final(self).wf(),
            uuid_v4_text(id@),
            fresh_session(final(self)@, id@, created_at_ms),
            forall|k: Seq<char>| k != id@ ==> #[trigger] lookup(final(self)@, k) == lookup(old(self)@, k),
            final(self)@.len() == old(self)@.len() + if has_session(old(self)@, id@) {
                0int
            } else {
                1int
            },
    {
        let id = new_session_id();
        self.insert(id.as_str(), Session::new(created_at_ms));
        id
    }

    /// Creates a session under the given id and returns the id.
    pub fn create_with_id(&mut self, id: &str, created_at_ms: u64) -> (r: String)
        requires
            old(self).wf(),
        ensures
            final(self).wf(),
            r@ == id@,
            fresh_session(final(self)@, id@, created_at_ms),
            forall|k: Seq<char>| k != id@ ==> #[trigger] lookup(final(self)@, k) == lookup(old(self)@, k),
            final(self)@.len() == old(self)@.len() + if has_session(old(self)@, id@) {
                0int
            } else {
                1int
            },
    {
        self.insert(id, Session::new(created_at_ms));
        owned(id)
    }

    pub fn get(&self, id: &str) -> (r: Option<&Session>)
        ensures
            match r {
                Some(s) => lookup(self@, id@) == Some(*s),
                None => lookup(self@, id@) is None,
            },
    {
        self.sessions.get(id)
    }

    /// The session `id`, for changing it in place.
    pub fn get_mut(&mut self, id: &str) -> (r: Option<&mut Session>)
        requires
            old(self).wf(),
        ensures
            match r {
                Some(s) => {
                    &&& lookup(old(self)@, id@) == Some(*s)
                    &&& s.pending.wf()
                    &&& (final(s).pending.wf() ==> final(self).wf())
                    &&& forall|k: Seq<char>| #[trigger]
                        lookup(final(self)@, k) == if k == id@ {
                            Some(*final(s))
                        } else {
                            lookup(old(self)@, k)
                        }
                    &&& final(self)@.len() == old(self)@.len()
                },
                None => {
                    &&& lookup(old(self)@, id@) is None
                    &&& final(self)@ == old(self)@
                    &&& final(self).wf()
                },
            },
    {
        proof {
            crate::textmap::lemma_key_pos(self.sessions@, id@);
        }
        let ghost before = self.sessions@;
        assert(pending_ok(lookup(self.sessions@, id@)));
        let r = self.sessions.get_mut(id);
        proof {
            if r is Some {
                let p = crate::textmap::key_pos(before, id@);
                crate::textmap::lemma_lookup_update(before, p, *final(r->Some_0));
            }
        }
        r
    }

    pub fn contains(&self, id: &str) -> (b: bool)
        ensures
            b == has_session(self@, id@),
    {
        self.sessions.contains_key(id)
    }

    /// Removes session `id`; `true` when it existed.
    pub fn remove(&mut self, id: &str) -> (existed: bool)
        requires
            old(self).wf(),
        ensures
            final(self).wf(),
            existed == has_session(old(self)@, id@),
            !has_session(final(self)@, id@),
            forall|k: Seq<char>| k != id@ ==> #[trigger] lookup(final(self)@, k) == lookup(old(self)@, k),
            existed ==> final(self)@.len() == old(self)@.len() - 1,
            !existed ==> final(self)@ == old(self)@,
    {
        let r = self.sessions.remove(id);
        proof {
            assert forall|k: Seq<char>| #[trigger] pending_ok(lookup(self.sessions@, k)) by {
                if k != id@ {
                    assert(lookup(old(self).sessions@, k) == lookup(self.sessions@, k));
                }
            }
        }
        r.is_some()
    }

    /// Removes every session.
    pub fn clear(&mut self)
        ensures
            final(self).wf(),
            final(self)@ == Seq::<(Seq<char>, Session)>::empty(),
    {
        self.sessions.clear();
    }
}

// ─── Guarding requests ──────────────────────────────────────────────────────

/// Outcome of checking a request's session id against the store.
#[derive(Debug, Clone, PartialEq, Eq)]
pub enum SessionGuardResult {
    /// No session id was sent.
    Anonymous,
    /// The id names a stored session.
    Known { session_id: String },
    /// The id names no stored session (answered with 404).
    NotFound { session_id: String },
}

/// The outcome for a session id, as a model.
pub enum GuardOutcome {
    Anonymous,
    Known(Seq<char>),
    NotFound(Seq<char>),
}

pub open spec fn guard_outcome(store: Seq<(Seq<char>, Session)>, session_id: Option<Seq<char>>) -> GuardOutcome {
    match session_id {
        None => GuardOutcome::Anonymous,
        Some(id) => if id.len() == 0 {
            GuardOutcome::Anonymous
        } else if has_session(store, id) {
            GuardOutcome::Known(id)
        } else {
            GuardOutcome::NotFound(id)
        },
    }
}

pub open spec fn guard_view(r: SessionGuardResult) -> GuardOutcome {
    match r {
        SessionGuardResult::Anonymous => GuardOutcome::Anonymous,
        SessionGuardResult::Known { session_id } => GuardOutcome::Known(session_id@),
        SessionGuardResult::NotFound { session_id } => GuardOutcome::NotFound(session_id@),
    }
}

/// Classifies an optional session id: none or empty is anonymous, a stored id
/// is known, any other id is not found.
pub fn guard_session_id(store: &SessionStore, session_id: Option<&str>) -> (r: SessionGuardResult)
    ensures
        guard_view(r) == guard_outcome(store@, opt_view(session_id)),
{
    match session_id {
        None => SessionGuardResult::Anonymous,
        Some(id) => {
            if id.is_empty() {
                SessionGuardResult::Anonymous
            } else if store.contains(id) {
                SessionGuardResult::Known { session_id: owned(id) }
            } else {
                SessionGuardResult::NotFound { session_id: owned(id) }
            }
        },
    }
}

/// Should the transport answer 404 Session not found?
pub fn is_unknown_session(store: &SessionStore, session_id: Option<&str>) -> (r: bool)
    ensures
        r == (guard_outcome(store@, opt_view(session_id)) is NotFound),
{
    match guard_session_id(store, session_id) {
        SessionGuardResult::NotFound { .. } => true,
        _ => false,
    }
}

/// A session created with an id is then known; once removed it is not found.
pub proof fn lemma_session_lifecycle(
    before: Seq<(Seq<char>, Session)>,
    created: Seq<(Seq<char>, Session)>,
    removed: Seq<(Seq<char>, Session)>,
    id: Seq<char>,
)
    requires
        id.len() > 0,
        has_session(created, id),
        !has_session(removed, id),
    ensures
        guard_outcome(created, Some(id)) == GuardOutcome::Known(id),
        guard_outcome(removed, Some(id)) == GuardOutcome::NotFound(id),
{
}

/// Only `initialize` allocates a session.
pub fn method_allocates_session(method: &str) -> (r: bool)
    ensures
        r == (method@ == "initialize"@),
{
    str_eq(method, "initialize")
}

/// A new `Mcp-Session-Id` header is sent for an initialize that allocated a
/// session when the client sent none.
pub fn should_emit_new_session_header(is_initialize: bool, client_sent_session_id: bool, allocated_new: bool) -> (r: bool)
    ensures
        r == (is_initialize && allocated_new && !client_sent_session_id),
{
    is_initialize && allocated_new && !client_sent_session_id
}

/// Headers for a newly allocated session: the id and the JSON content type.
pub fn new_session_response_headers(session_id: &str) -> (r: Vec<(String, String)>)
    ensures
        r@.len() == 2,
        r@[0].0@ == "Mcp-Session-Id"@ && r@[0].1@ == session_id@,
        r@[1].0@ == "Content-Type"@ && r@[1].1@ == "application/json"@,
{
    vec![(owned(MCP_SESSION_ID_HEADER), owned(session_id)), (owned("Content-Type"), owned(SESSION_NOT_FOUND_CONTENT_TYPE))]
}

/// Headers of a session-not-found answer.
pub fn session_not_found_headers() -> (r: Vec<(String, String)>)
    ensures
        r@.len() == 1,
        r@[0].0@ == "Content-Type"@ && r@[0].1@ == "application/json"@,
{
    vec![(owned("Content-Type"), owned(SESSION_NOT_FOUND_CONTENT_TYPE))]
}

/// Allocates a request id on session `session_id`; `None` when there is no such session.
pub fn allocate_pending_on_session(store: &mut SessionStore, session_id: &str) -> (r: Option<String>)
    requires
        old(store).wf(),
    ensures
        final(store).wf(),
        match r {
            Some(rid) => has_session(old(store)@, session_id@) && rid@ == server_id(
                lookup(old(store)@, session_id@)->Some_0.pending.next_number() as nat,
            ) && session_waits(final(store)@, session_id@, rid@),
            None => !has_session(old(store)@, session_id@) && final(store)@ == old(store)@,
        },
{
    match store.get_mut(session_id) {
        Some(session) => Some(session.pending.allocate()),
        None => None,
    }
}

/// `after` is `before` with `rid` answered: it no longer waits, every other
/// id waits exactly as before, the counter is kept and the count drops by one
/// when `rid` was waiting.
pub open spec fn pending_taken(before: PendingRequests, after: PendingRequests, rid: Seq<char>) -> bool {
    &&& !after.waits_for(rid)
    &&& forall|o: Seq<char>| o != rid ==> #[trigger] after.waits_for(o) == before.waits_for(o)
    &&& after.next_number() == before.next_number()
    &&& after.count() == before.count() - if before.waits_for(rid) {
        1int
    } else {
        0int
    }
}

/// Answers request `request_id` of session `session_id`; `true` when it was waiting.
pub fn take_pending_on_session(store: &mut SessionStore, session_id: &str, request_id: &str) -> (r: bool)
    requires
        old(store).wf(),
    ensures
        final(store).wf(),
        r == session_waits(old(store)@, session_id@, request_id@),
        !session_waits(final(store)@, session_id@, request_id@),
        match lookup(old(store)@, session_id@) {
            Some(s) => lookup(final(store)@, session_id@) matches Some(t) && t.created_at_ms == s.created_at_ms
                && pending_taken(s.pending, t.pending, request_id@),
            None => final(store)@ == old(store)@,
        },
        forall|k: Seq<char>| k != session_id@ ==> #[trigger] lookup(final(store)@, k) == lookup(old(store)@, k),
        final(store)@.len() == old(store)@.len(),
{
    match store.get_mut(session_id) {
        Some(session) => session.pending.take(request_id),
        None => false,
    }
}

} // verus!
