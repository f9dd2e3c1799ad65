//! Newline-delimited JSON-RPC framing for stdio, and the registry of
//! requests the server has sent to the client.
use vstd::prelude::*;
use crate::text::{
    all_digits, all_digits_from, chars_of, concat, decimal, find_from, find_from_exec,
    lemma_decimal_injective, lemma_find_from_complete, starts_with, string_of_range,
    string_push, strip_trailing, strip_trailing_str, trim, trim_bounds, u64_decimal};
use crate::textmap::{TextMap, lookup};
use crate::json::{Json, JsonV, fields_view, jget, jget_opt, json_text_reading, member, object, parse_json_text};
use crate::jsonrpc::{JsonRpcMessage, JsonRpcRequest, JsonRpcSuccess, message_text, stringify, text_of};
use crate::render::{render, to_json_text};

verus! {

broadcast use vstd::string::group_string_axioms;

/// Prefix of the ids of server-originated requests (`server-1`, `server-2`, …).
pub const SERVER_REQUEST_ID_PREFIX: &'static str = "server-";

/// Default timeout for server-originated requests, in milliseconds.
pub const DEFAULT_REQUEST_TIMEOUT_MS: u64 = 30000;

// ─── Line buffering ─────────────────────────────────────────────────────────

/// The complete lines of `s` from `pos` on, each trimmed, blank ones dropped,
/// and what follows the last newline.
pub open spec fn lines_from(s: Seq<char>, pos: int) -> (Seq<Seq<char>>, Seq<char>)
    decreases s.len() - pos,
{
    if pos < 0 || pos > s.len() {
        (Seq::empty(), Seq::empty())
    } else {
        match find_from(s, seq!['\n'], pos) {
            None => (Seq::empty(), s.subrange(pos, s.len() as int)),
            Some(idx) => {
                proof {
                    lemma_find_from_complete(s, seq!['\n'], pos);
                }
                let line = trim(s.subrange(pos, idx));
                let rest = lines_from(s, idx + 1);
                if line.len() > 0 {
                    (seq![line] + rest.0, rest.1)
                } else {
                    rest
                }
            },
        }
    }
}

/// What the buffer keeps of `s` read from `pos`: the end of `s` after its
/// last newline (all of it from `pos` when there is none), with no newline
/// in it.
pub proof fn lemma_lines_from_remainder(s: Seq<char>, pos: int)
    requires
        0 <= pos <= s.len(),
    ensures
        ({
            let r = lines_from(s, pos).1;
            &&& r.len() <= s.len() - pos
            &&& r == s.subrange(s.len() - r.len(), s.len() as int)
            &&& forall|i: int| 0 <= i < r.len() ==> #[trigger] r[i] != '\n'
            &&& r.len() < s.len() - pos ==> s[s.len() - r.len() - 1] == '\n'
        }),
    decreases s.len() - pos,
{
    lemma_find_from_complete(s, seq!['\n'], pos);
    match find_from(s, seq!['\n'], pos) {
        None => {
            let r = s.subrange(pos, s.len() as int);
            assert forall|i: int| 0 <= i < r.len() implies #[trigger] r[i] != '\n' by {
                if r[i] == '\n' {
                    assert(s.subrange(pos + i, pos + i + 1) =~= seq!['\n']);
                    assert(crate::text::occurs_at(s, seq!['\n'], pos + i));
                }
            }
        },
        Some(idx) => {
            assert(s.subrange(idx, idx + 1)[0] == s[idx]);
            lemma_lines_from_remainder(s, idx + 1);
        },
    }
}

/// After a push, the buffer keeps exactly the text after the last newline
/// of what it held plus the chunk, and no newline.
pub proof fn lemma_line_buffer_remainder(s: Seq<char>)
    ensures
        ({
            let r = lines_from(s, 0).1;
            &&& r == s.subrange(s.len() - r.len(), s.len() as int)
            &&& forall|i: int| 0 <= i < r.len() ==> #[trigger] r[i] != '\n'
            &&& r.len() < s.len() ==> s[s.len() - r.len() - 1] == '\n'
        }),
{
    lemma_lines_from_remainder(s, 0);
}

/// Buffers decoded input and hands out complete lines.
pub struct LineBuffer {
    buf: String,
}

impl LineBuffer {
    /// What has been received after the last newline.
    pub closed spec fn pending(&self) -> Seq<char> {
        self.buf@
    }

    pub fn new() -> (r: Self)
        ensures
            r.pending() == Seq::<char>::empty(),
    {
        LineBuffer { buf: String::new() }
    }

    /// Appends `chunk` and returns the complete non-blank lines, trimmed.
    pub fn push_str(&mut self, chunk: &str) -> (lines: Vec<String>)
        ensures
            lines@.map_values(|l: String| l@) == lines_from(old(self).pending() + chunk@, 0).0,
            final(self).pending() == lines_from(old(self).pending() + chunk@, 0).1,
    {
        let mut all = chars_of(self.buf.as_str());
        let more = chars_of(chunk);
        let mut k: usize = 0;
        let ghost start = all@;
        while k < more.len()
            invariant
                k <= more.len(),
                all@ == start + more@.take(k as int),
            decreases more.len() - k,
        {
            all.push(more[k]);
            k = k + 1;
            assert(start + more@.take(k as int) =~= (start + more@.take(k - 1)).push(more@[k - 1]));
        }
        assert(more@.take(more.len() as int) =~= more@);
        let ghost s = all@;
        assert(s == old(self).pending() + chunk@);
        let nl = vec!['\n'];
        assert(nl@ == seq!['\n']);
        let mut lines: Vec<String> = Vec::new();
        let mut pos: usize = 0;
        loop
            invariant
                pos <= all.len(),
                all@ == s,
                s == old(self).pending() + chunk@,
                nl@ == seq!['\n'],
                lines@.map_values(|l: String| l@) + lines_from(s, pos as int).0 == lines_from(s, 0).0,
                lines_from(s, pos as int).1 == lines_from(s, 0).1,
            decreases all.len() - pos,
        {
            proof {
                lemma_find_from_complete(s, seq!['\n'], pos as int);
            }
            match find_from_exec(&all, &nl, pos) {
                None => {
                    self.buf = string_of_range(&all, pos, all.len());
                    proof {
                        assert(lines@.map_values(|l: String| l@) =~= lines_from(s, 0).0);
                    }
                    return lines;
                },
                Some(idx) => {
                    let line_chars = string_of_range(&all, pos, idx);
                    let v = chars_of(line_chars.as_str());
                    let (a, b) = trim_bounds(&v);
                    let ghost before = lines@.map_values(|l: String| l@);
                    if a < b {
                        lines.push(string_of_range(&v, a, b));
                        proof {
                            assert(lines@.map_values(|l: String| l@) =~= before.push(
                                trim(s.subrange(pos as int, idx as int)),
                            ));
                            assert(before.push(trim(s.subrange(pos as int, idx as int)))
                                + lines_from(s, idx + 1).0 =~= before + (seq![
                                trim(s.subrange(pos as int, idx as int)),
                            ] + lines_from(s, idx + 1).0));
                        }
                    }
                    pos = idx + 1;
                },
            }
        }
    }

    /// Appends raw bytes, decoded as UTF-8 with invalid sequences replaced.
    pub fn push_bytes(&mut self, bytes: &[u8]) -> (lines: Vec<String>)
        ensures
            lines@.map_values(|l: String| l@) == lines_from(
                old(self).pending() + utf8_lossy(bytes@),
                0,
            ).0,
            final(self).pending() == lines_from(old(self).pending() + utf8_lossy(bytes@), 0).1,
            forall|t: Seq<char>|
                #[trigger] vstd::utf8::encode_utf8(t) == bytes@ ==> lines@.map_values(|l: String| l@)
                    == lines_from(old(self).pending() + t, 0).0,
    {
        let text = decode_utf8_lossy(bytes);
        self.push_str(text.as_str())
    }

    /// The incomplete line received so far.
    pub fn remainder(&self) -> (r: &str)
        ensures
            r@ == self.pending(),
    {
        self.buf.as_str()
    }

    pub fn clear(&mut self)
        ensures
            final(self).pending() == Seq::<char>::empty(),
    {
        self.buf = String::new();
    }
}

/// The text that lossy UTF-8 decoding gives for `bytes`.
pub uninterp spec fn utf8_lossy(bytes: Seq<u8>) -> Seq<char>;

/// `String::from_utf8_lossy`: decodes `bytes`, replacing each invalid
/// sequence by U+FFFD.
///
/// Trusted: the result is the decoding std computes, named `utf8_lossy`;
/// bytes that are the UTF-8 encoding of a text decode to that text.
#[verifier::external_body]
fn decode_utf8_lossy(bytes: &[u8]) -> (r: String)
    ensures
        r@ == utf8_lossy(bytes@),
        forall|t: Seq<char>| #[trigger] vstd::utf8::encode_utf8(t) == bytes@ ==> r@ == t,
{
    String::from_utf8_lossy(bytes).into_owned()
}

/// `json` with trailing newlines removed, then one newline appended.
pub fn encode_raw_line(json: &str) -> (r: String)
    ensures
        r@ == strip_trailing(json@, '\n').push('\n'),
{
    let mut s = strip_trailing_str(json, '\n');
    string_push(&mut s, '\n');
    s
}

// ─── Server request ids ─────────────────────────────────────────────────────

/// The id of the `n`th server-originated request: `server-{n}`.
pub open spec fn server_id(n: nat) -> Seq<char> {
    "server-"@ + decimal(n)
}

pub fn next_server_request_id(counter: u64) -> (r: String)
    ensures
        r@ == server_id(counter as nat),
{
    concat(SERVER_REQUEST_ID_PREFIX, u64_decimal(counter).as_str())
}

/// `server-` followed by one or more ASCII digits.
pub open spec fn server_request_id(id: Seq<char>) -> bool {
    "server-"@.is_prefix_of(id) && id.len() > 7 && all_digits(id.subrange(7, id.len() as int))
}

pub fn is_server_request_id(id: &str) -> (r: bool)
    ensures
        r == server_request_id(id@),
{
    proof {
        reveal_strlit("server-");
    }
    if !starts_with(id, SERVER_REQUEST_ID_PREFIX) {
        return false;
    }
    let v = chars_of(id);
    if v.len() <= 7 {
        return false;
    }
    all_digits_from(&v, 7)
}

proof fn lemma_server_id_injective(a: nat, b: nat)
    requires
        server_id(a) == server_id(b),
    ensures
        a == b,
{
    reveal_strlit("server-");
    assert(decimal(a) =~= server_id(a).subrange(7, server_id(a).len() as int));
    assert(decimal(b) =~= server_id(b).subrange(7, server_id(b).len() as int));
    lemma_decimal_injective(a, b);
}

// ─── Encoding lines ─────────────────────────────────────────────────────────

/// A message as one NDJSON line: its JSON text and a newline.
pub fn encode_line(message: &JsonRpcMessage) -> (r: String)
    ensures
        r@ == message_text(message@).push('\n'),
{
    let mut s = stringify(message);
    string_push(&mut s, '\n');
    s
}

pub fn encode_request_line(req: JsonRpcRequest) -> (r: String)
    ensures
        r@ == message_text(JsonRpcMessage::Request(req)@).push('\n'),
{
    encode_line(&JsonRpcMessage::Request(req))
}

pub fn encode_success_line(ok: JsonRpcSuccess) -> (r: String)
    ensures
        r@ == message_text(JsonRpcMessage::Success(ok)@).push('\n'),
{
    encode_line(&JsonRpcMessage::Success(ok))
}

/// Any JSON value as one NDJSON line.
pub fn encode_value_line(value: &Json) -> (r: String)
    ensures
        r@ == render(value@).push('\n'),
{
    let mut s = to_json_text(value);
    string_push(&mut s, '\n');
    s
}

/// The model of a request the server sends to the client.
pub open spec fn server_request_v(id: Seq<char>, method: Seq<char>, params: Option<JsonV>) -> JsonV {
    JsonV::Object(
        seq![("jsonrpc"@, JsonV::Str("2.0"@)), ("id"@, JsonV::Str(id)), ("method"@, JsonV::Str(method))]
            + match params {
            Some(p) => seq![("params"@, p)],
            None => Seq::empty(),
        },
    )
}

/// A request from the server to the client.
pub fn server_request(id: &str, method: &str, params: Option<Json>) -> (r: Json)
    ensures
        r@ == server_request_v(id@, method@, crate::jsonrpc::opt_json(params)),
{
    let mut v: Vec<(String, Json)> = Vec::new();
    v.push(member("jsonrpc", Json::str_of("2.0")));
    v.push(member("id", Json::str_of(id)));
    v.push(member("method", Json::str_of(method)));
    let ghost p = crate::jsonrpc::opt_json(params);
    if let Some(x) = params {
        v.push(member("params", x));
    }
    assert(fields_view(v@) =~= server_request_v(id@, method@, p)->Object_0);
    object(v)
}

// ─── Classifying lines ──────────────────────────────────────────────────────

/// What a line read from the client is.
pub enum StdioLineClass {
    /// An answer to a request the server sent (sampling, elicitation).
    ServerResponse { id: String, result: Option<Json>, error_message: Option<String> },
    /// A request or notification from the client, as its trimmed text.
    ClientMessage(String),
    /// A blank line or one that is not JSON.
    Invalid,
}

/// Model of a line class.
pub enum LineClassV {
    ServerResponse { id: Seq<char>, result: Option<JsonV>, error_message: Option<Seq<char>> },
    ClientMessage(Seq<char>),
    Invalid,
}

pub open spec fn class_view(c: StdioLineClass) -> LineClassV {
    match c {
        StdioLineClass::ServerResponse { id, result, error_message } => LineClassV::ServerResponse {
            id: id@,
            result: crate::jsonrpc::opt_json(result),
            error_message: match error_message {
                Some(m) => Some(m@),
                None => None,
            },
        },
        StdioLineClass::ClientMessage(t) => LineClassV::ClientMessage(t@),
        StdioLineClass::Invalid => LineClassV::Invalid,
    }
}

/// The class of `line`, given `parsed`, the JSON value of the trimmed line
/// (`None` when it is not JSON).
pub open spec fn line_class(line: Seq<char>, parsed: Option<JsonV>) -> LineClassV {
    let t = trim(line);
    if t.len() == 0 {
        LineClassV::Invalid
    } else {
        match parsed {
            None => LineClassV::Invalid,
            Some(v) => {
                let has_error = jget(v, "error"@) is Some;
                match text_of(jget(v, "id"@)) {
                    Some(id) => if server_request_id(id) && (jget(v, "result"@) is Some || has_error) {
                        LineClassV::ServerResponse {
                            id,
                            result: if has_error {
                                None
                            } else {
                                jget(v, "result"@)
                            },
                            error_message: match text_of(jget_opt(jget(v, "error"@), "message"@)) {
                                Some(m) => Some(m),
                                None => if has_error {
                                    Some("Request failed"@)
                                } else {
                                    None
                                },
                            },
                        }
                    } else {
                        LineClassV::ClientMessage(t)
                    },
                    None => LineClassV::ClientMessage(t),
                }
            },
        }
    }
}

/// The value of a JSON reading, `None` for a syntax error.
pub open spec fn reading_value(reading: Result<JsonV, Seq<char>>) -> Option<JsonV> {
    match reading {
        Ok(v) => Some(v),
        Err(_) => None,
    }
}

/// Classifies a line read from the client: the trimmed line is read as JSON
/// with `serde_json`, then classified by [`classify_parsed_line`].
pub fn classify_line(line: &str) -> (r: StdioLineClass)
    ensures
        class_view(r) == line_class(line@, reading_value(json_text_reading(trim(line@)))),
{
    let trimmed = crate::text::trim_str(line);
    let parsed = match parse_json_text(trimmed.as_str()) {
        Ok(v) => Some(v),
        Err(_) => None,
    };
    classify_parsed_line(line, &parsed)
}

/// Classifies a line read from the client, given `parsed`, the JSON value of
/// the trimmed line (`None` when it is not JSON).
pub fn classify_parsed_line(line: &str, parsed: &Option<Json>) -> (r: StdioLineClass)
    ensures
        class_view(r) == line_class(line@, crate::jsonrpc::opt_json(*parsed)),
{
    let trimmed = crate::text::trim_str(line);
    if trimmed.as_str().is_empty() {
        return StdioLineClass::Invalid;
    }
    let v = match parsed {
        None => {
            return StdioLineClass::Invalid;
        },
        Some(v) => v,
    };
    if let Some(Json::Str(id)) = v.get("id") {
        let has_result = v.get("result").is_some();
        let error = v.get("error");
        if is_server_request_id(id.as_str()) && (has_result || error.is_some()) {
            let error_message = match error {
                Some(e) => match e.get("message") {
                    Some(Json::Str(m)) => Some(m.clone()),
                    _ => Some(crate::text::owned("Request failed")),
                },
                None => None,
            };
            let result = if error.is_some() {
                None
            } else {
                match v.get("result") {
                    Some(x) => Some(x.deep_clone()),
                    None => None,
                }
            };
            return StdioLineClass::ServerResponse { id: id.clone(), result, error_message };
        }
    }
    StdioLineClass::ClientMessage(trimmed)
}

// ─── Pending requests ───────────────────────────────────────────────────────

/// Requests sent to the client that still wait for an answer.
pub struct PendingRequests {
    next_id: u64,
    waiting: TextMap<()>,
}

impl PendingRequests {
    /// The number the next allocated id will carry.
    pub closed spec fn next_number(&self) -> u64 {
        self.next_id
    }

    /// Is `id` waiting for an answer?
    pub closed spec fn waits_for(&self, id: Seq<char>) -> bool {
        lookup(self.waiting@, id) is Some
    }

    /// How many requests wait.
    pub closed spec fn count(&self) -> nat {
        self.waiting@.len()
    }

    /// Every waiting id was minted here, below the next number (or the
    /// counter has reached its maximum).
    pub closed spec fn wf(&self) -> bool {
        &&& self.waiting.wf()
        &&& forall|id: Seq<char>|
            #[trigger] lookup(self.waiting@, id) is Some ==> exists|k: nat|
                id == server_id(k) && (k < self.next_id || self.next_id == u64::MAX)
    }

    /// An empty registry whose first id is `server-1`.
    pub fn new() -> (r: Self)
        ensures
            r.wf(),
            r.next_number() == 1,
            r.count() == 0,
            forall|id: Seq<char>| !r.waits_for(id),
    {
        PendingRequests { next_id: 1, waiting: TextMap::new() }
    }

    /// Allocates `server-{n}` for the next number `n` and marks it waiting.
    pub fn allocate(&mut self) -> (id: String)
        requires
            old(self).wf(),
        ensures
            final(self).wf(),
            id@ == server_id(old(self).next_number() as nat),
            final(self).next_number() == if old(self).next_number() == u64::MAX {
                u64::MAX
            } else {
                (old(self).next_number() + 1) as u64
            },
            final(self).waits_for(id@),
            forall|other: Seq<char>|
                other != id@ ==> (final(self).waits_for(other) == old(self).waits_for(other)),
            old(self).next_number() < u64::MAX ==> !old(self).waits_for(id@),
            old(self).next_number() < u64::MAX ==> final(self).count() == old(self).count() + 1,
    {
        let id = next_server_request_id(self.next_id);
        let ghost n = self.next_id;
        proof {
            if n < u64::MAX && lookup(self.waiting@, id@) is Some {
                let k = choose|k: nat| id@ == server_id(k) && (k < n || n == u64::MAX);
                lemma_server_id_injective(k, n as nat);
            }
        }
        self.next_id = self.next_id.saturating_add(1);
        self.waiting.insert(id.clone(), ());
        proof {
            assert forall|w: Seq<char>| #[trigger] lookup(self.waiting@, w) is Some implies exists|
                k: nat,
            | w == server_id(k) && (k < self.next_id || self.next_id == u64::MAX) by {
                if w == id@ {
                    assert(w == server_id(n as nat));
                } else {
                    assert(lookup(old(self).waiting@, w) is Some);
                    let k = choose|k: nat| w == server_id(k) && (k < n || n == u64::MAX);
                    assert(w == server_id(k));
                }
            }
        }
        id
    }

    /// Takes `id` out of the registry; `false` when it was not waiting.
    pub fn take(&mut self, id: &str) -> (found: bool)
        requires
            old(self).wf(),
        ensures
            final(self).wf(),
            found == old(self).waits_for(id@),
            !final(self).waits_for(id@),
            forall|other: Seq<char>|
                other != id@ ==> (final(self).waits_for(other) == old(self).waits_for(other)),
            final(self).next_number() == old(self).next_number(),
            found ==> final(self).count() == old(self).count() - 1,
            !found ==> final(self).count() == old(self).count(),
    {
        let r = self.waiting.remove(id);
        proof {
            assert forall|w: Seq<char>| #[trigger] lookup(self.waiting@, w) is Some implies exists|
                k: nat,
            | w == server_id(k) && (k < self.next_id || self.next_id == u64::MAX) by {
                assert(lookup(old(self).waiting@, w) is Some);
            }
        }
        r.is_some()
    }

    pub fn is_pending(&self, id: &str) -> (r: bool)
        ensures
            r == self.waits_for(id@),
    {
        self.waiting.contains_key(id)
    }

    pub fn len(&self) -> (n: usize)
        ensures
            n == self.count(),
    {
        self.waiting.len()
    }

    pub fn is_empty(&self) -> (r: bool)
        ensures
            r == (self.count() == 0),
    {
        self.waiting.is_empty()
    }

    /// Forgets every waiting request; the counter is kept.
    pub fn clear(&mut self)
        requires
            old(self).wf(),
        ensures
            final(self).wf(),
            final(self).count() == 0,
            forall|id: Seq<char>| !final(self).waits_for(id),
            final(self).next_number() == old(self).next_number(),
    {
        self.waiting.clear();
    }
}

impl Default for PendingRequests {
    /// An empty registry whose counter starts at zero.
    fn default() -> (r: Self)
        ensures
            r.wf(),
            r.next_number() == 0,
            r.count() == 0,
    {
        PendingRequests { next_id: 0, waiting: TextMap::new() }
    }
}

/// Ids handed out one after the other are different, and an answered request
/// is answered only once.
pub proof fn lemma_allocated_ids_distinct(a: nat, b: nat)
    requires
        a != b,
    ensures
        server_id(a) != server_id(b),
{
    if server_id(a) == server_id(b) {
        lemma_server_id_injective(a, b);
    }
}

/// How many of the steps allocated an id.
pub open spec fn allocations(steps: Seq<Option<Seq<char>>>) -> nat
    decreases steps.len(),
{
    if steps.len() == 0 {
        0
    } else {
        allocations(steps.drop_last()) + if steps.last() is Some {
            1nat
        } else {
            0nat
        }
    }
}

/// A run of a registry: `regs[j + 1]` follows `regs[j]` by an allocation of
/// `steps[j]` (as [`PendingRequests::allocate`] states it), or by a step that
/// keeps the counter (`take`, `clear`).
pub open spec fn pending_run(regs: Seq<PendingRequests>, steps: Seq<Option<Seq<char>>>) -> bool {
    &&& regs.len() == steps.len() + 1
    &&& forall|j: int|
        0 <= j < steps.len() ==> match #[trigger] steps[j] {
            Some(id) => id == server_id(regs[j].next_number() as nat) && regs[j + 1].next_number() == if regs[
                j
            ].next_number() == u64::MAX {
                u64::MAX
            } else {
                (regs[j].next_number() + 1) as u64
            },
            None => regs[j + 1].next_number() == regs[j].next_number(),
        }
}

proof fn lemma_pending_run_counter(regs: Seq<PendingRequests>, steps: Seq<Option<Seq<char>>>, j: int)
    requires
        pending_run(regs, steps),
        regs[0].next_number() == 1,
        allocations(steps) + 1 < u64::MAX,
        0 <= j <= steps.len(),
    ensures
        regs[j].next_number() == 1 + allocations(steps.take(j)),
    decreases j,
{
    lemma_allocations_prefix(steps, j);
    if j > 0 {
        lemma_pending_run_counter(regs, steps, j - 1);
        assert(steps.take(j).drop_last() =~= steps.take(j - 1));
    }
}

proof fn lemma_allocations_prefix(steps: Seq<Option<Seq<char>>>, j: int)
    requires
        0 <= j <= steps.len(),
    ensures
        allocations(steps.take(j)) <= allocations(steps),
    decreases steps.len() - j,
{
    if j < steps.len() {
        lemma_allocations_prefix(steps, j + 1);
        assert(steps.take(j + 1).drop_last() =~= steps.take(j));
    } else {
        assert(steps.take(j) =~= steps);
    }
}

proof fn lemma_allocations_grow(steps: Seq<Option<Seq<char>>>, a: int, b: int)
    requires
        0 <= a < b <= steps.len(),
        steps[a] is Some,
    ensures
        allocations(steps.take(a)) < allocations(steps.take(b)),
    decreases b - a,
{
    assert(steps.take(b).drop_last() =~= steps.take(b - 1));
    if b - 1 > a {
        lemma_allocations_grow(steps, a, b - 1);
    }
}

/// A registry that starts at `server-1` hands out `server-1`, `server-2`, …
/// in order, whatever is answered or cleared in between, and never the same
/// id twice.
pub proof fn lemma_pending_run(regs: Seq<PendingRequests>, steps: Seq<Option<Seq<char>>>)
    requires
        pending_run(regs, steps),
        regs[0].next_number() == 1,
        allocations(steps) + 1 < u64::MAX,
    ensures
        forall|j: int|
            0 <= j < steps.len() && #[trigger] steps[j] is Some ==> steps[j]->Some_0 == server_id(
                (allocations(steps.take(j)) + 1) as nat,
            ),
        forall|a: int, b: int|
            0 <= a < b < steps.len() && #[trigger] steps[a] is Some && #[trigger] steps[b] is Some
                ==> steps[a]->Some_0 != steps[b]->Some_0,
{
    assert forall|j: int| 0 <= j < steps.len() && #[trigger] steps[j] is Some implies steps[j]->Some_0
        == server_id((allocations(steps.take(j)) + 1) as nat) by {
        lemma_pending_run_counter(regs, steps, j);
    }
    assert forall|a: int, b: int|
        0 <= a < b < steps.len() && #[trigger] steps[a] is Some && #[trigger] steps[b]
            is Some implies steps[a]->Some_0 != steps[b]->Some_0 by {
        lemma_pending_run_counter(regs, steps, a);
        lemma_pending_run_counter(regs, steps, b);
        lemma_allocations_grow(steps, a, b);
        lemma_allocated_ids_distinct(
            (allocations(steps.take(a)) + 1) as nat,
            (allocations(steps.take(b)) + 1) as nat,
        );
    }
}

} // verus!
