//! JSON-RPC 2.0 messages: types, constructors, guards, and reading a parsed
//! JSON value as a message.
use vstd::prelude::*;
use crate::json::{Json, JsonV, fields_view, jget, json_text_reading, member, member_pos, object, parse_json_text};
use crate::text::{concat, owned, str_eq};
use crate::render::{record_text, record_to_text, record_view, render, to_json_text};

verus! {

broadcast use vstd::string::group_string_axioms;

/// The JSON-RPC version every message carries.
pub const JSONRPC_VERSION: &'static str = "2.0";

pub const PARSE_ERROR: i64 = -32700;
pub const INVALID_REQUEST: i64 = -32600;
pub const METHOD_NOT_FOUND: i64 = -32601;
pub const INVALID_PARAMS: i64 = -32602;
pub const INTERNAL_ERROR: i64 = -32603;

/// A request id: a number or a string.
pub enum RequestId {
    Number(i64),
    String(String),
}

/// Model of a request id.
pub enum RequestIdV {
    Number(int),
    Str(Seq<char>),
}

impl View for RequestId {
    type V = RequestIdV;

    open spec fn view(&self) -> RequestIdV {
        match self {
            RequestId::Number(n) => RequestIdV::Number(*n as int),
            RequestId::String(s) => RequestIdV::Str(s@),
        }
    }
}

impl RequestId {
    pub fn clone_id(&self) -> (r: Self)
        ensures
            r@ == self@,
    {
        match self {
            RequestId::Number(n) => RequestId::Number(*n),
            RequestId::String(s) => RequestId::String(s.clone()),
        }
    }

    /// The id as a JSON value.
    pub fn to_json(&self) -> (r: Json)
        ensures
            r@ == id_json(self@),
    {
        match self {
            RequestId::Number(n) => Json::Int(*n as i128),
            RequestId::String(s) => Json::str_of(s.as_str()),
        }
    }
}

pub open spec fn id_json(id: RequestIdV) -> JsonV {
    match id {
        RequestIdV::Number(n) => JsonV::Int(n),
        RequestIdV::Str(s) => JsonV::Str(s),
    }
}

pub struct JsonRpcRequest {
    pub jsonrpc: String,
    pub id: RequestId,
    pub method: String,
    pub params: Option<Json>,
}

pub struct JsonRpcNotification {
    pub jsonrpc: String,
    pub method: String,
    pub params: Option<Json>,
}

pub struct JsonRpcSuccess {
    pub jsonrpc: String,
    pub id: RequestId,
    pub result: Json,
}

pub struct JsonRpcErrorBody {
    pub code: i64,
    pub message: String,
    pub data: Option<Json>,
}

pub struct JsonRpcError {
    pub jsonrpc: String,
    pub id: Option<RequestId>,
    pub error: JsonRpcErrorBody,
}

/// Any JSON-RPC message.
pub enum JsonRpcMessage {
    Request(JsonRpcRequest),
    Notification(JsonRpcNotification),
    Success(JsonRpcSuccess),
    Error(JsonRpcError),
}

/// The outcome of reading a message.
pub enum ParseResult {
    Message(JsonRpcMessage),
    Failure(String),
}

// ─── Models ─────────────────────────────────────────────────────────────────

/// Model of a message.
pub enum MessageV {
    Request { jsonrpc: Seq<char>, id: RequestIdV, method: Seq<char>, params: Option<JsonV> },
    Notification { jsonrpc: Seq<char>, method: Seq<char>, params: Option<JsonV> },
    Success { jsonrpc: Seq<char>, id: RequestIdV, result: JsonV },
    Error {
        jsonrpc: Seq<char>,
        id: Option<RequestIdV>,
        code: int,
        message: Seq<char>,
        data: Option<JsonV>,
    },
}

pub open spec fn opt_json(o: Option<Json>) -> Option<JsonV> {
    match o {
        Some(j) => Some(j@),
        None => None,
    }
}

pub open spec fn opt_id(o: Option<RequestId>) -> Option<RequestIdV> {
    match o {
        Some(i) => Some(i@),
        None => None,
    }
}

impl View for JsonRpcMessage {
    type V = MessageV;

    open spec fn view(&self) -> MessageV {
        match self {
            JsonRpcMessage::Request(r) => MessageV::Request {
                jsonrpc: r.jsonrpc@,
                id: r.id@,
                method: r.method@,
                params: opt_json(r.params),
            },
            JsonRpcMessage::Notification(n) => MessageV::Notification {
                jsonrpc: n.jsonrpc@,
                method: n.method@,
                params: opt_json(n.params),
            },
            JsonRpcMessage::Success(s) => MessageV::Success {
                jsonrpc: s.jsonrpc@,
                id: s.id@,
                result: s.result@,
            },
            JsonRpcMessage::Error(e) => MessageV::Error {
                jsonrpc: e.jsonrpc@,
                id: opt_id(e.id),
                code: e.error.code as int,
                message: e.error.message@,
                data: opt_json(e.error.data),
            },
        }
    }
}

// ─── Constructors ───────────────────────────────────────────────────────────

pub fn request(id: RequestId, method: &str, params: Option<Json>) -> (r: JsonRpcRequest)
    ensures
        r.jsonrpc@ == "2.0"@,
        r.id == id,
        r.method@ == method@,
        r.params == params,
{
    JsonRpcRequest { jsonrpc: owned(JSONRPC_VERSION), id, method: owned(method), params }
}

pub fn notification(method: &str, params: Option<Json>) -> (r: JsonRpcNotification)
    ensures
        r.jsonrpc@ == "2.0"@,
        r.method@ == method@,
        r.params == params,
{
    JsonRpcNotification { jsonrpc: owned(JSONRPC_VERSION), method: owned(method), params }
}

pub fn success(id: RequestId, result: Json) -> (r: JsonRpcSuccess)
    ensures
        r.jsonrpc@ == "2.0"@,
        r.id == id,
        r.result == result,
{
    JsonRpcSuccess { jsonrpc: owned(JSONRPC_VERSION), id, result }
}

pub fn error_response(id: Option<RequestId>, code: i64, message: &str, data: Option<Json>) -> (r: JsonRpcError)
    ensures
        r.jsonrpc@ == "2.0"@,
        r.id == id,
        r.error.code == code,
        r.error.message@ == message@,
        r.error.data == data,
{
    JsonRpcError {
        jsonrpc: owned(JSONRPC_VERSION),
        id,
        error: JsonRpcErrorBody { code, message: owned(message), data },
    }
}

/// The error answering an unknown method: code -32601, `Method not found: {method}`.
pub fn method_not_found(id: RequestId, method: &str) -> (r: JsonRpcError)
    ensures
        r.jsonrpc@ == "2.0"@,
        r.id == Some(id),
        r.error.code == METHOD_NOT_FOUND,
        r.error.message@ == "Method not found: "@ + method@,
        r.error.data is None,
{
    let msg = concat("Method not found: ", method);
    error_response(Some(id), METHOD_NOT_FOUND, msg.as_str(), None)
}

/// The error answering unparseable input: code -32700 and the given message.
pub fn parse_error(id: Option<RequestId>, message: &str) -> (r: JsonRpcError)
    ensures
        r.jsonrpc@ == "2.0"@,
        r.id == id,
        r.error.code == PARSE_ERROR,
        r.error.message@ == message@,
        r.error.data is None,
{
    error_response(id, PARSE_ERROR, message, None)
}

// ─── Guards ─────────────────────────────────────────────────────────────────

pub fn is_request(msg: &JsonRpcMessage) -> (r: bool)
    ensures
        r == (*msg is Request),
{
    match msg {
        JsonRpcMessage::Request(_) => true,
        _ => false,
    }
}

pub fn is_notification(msg: &JsonRpcMessage) -> (r: bool)
    ensures
        r == (*msg is Notification),
{
    match msg {
        JsonRpcMessage::Notification(_) => true,
        _ => false,
    }
}

/// A success or error response.
pub fn is_response(msg: &JsonRpcMessage) -> (r: bool)
    ensures
        r == (*msg is Success || *msg is Error),
{
    match msg {
        JsonRpcMessage::Success(_) | JsonRpcMessage::Error(_) => true,
        _ => false,
    }
}

pub fn is_success(msg: &JsonRpcMessage) -> (r: bool)
    ensures
        r == (*msg is Success),
{
    match msg {
        JsonRpcMessage::Success(_) => true,
        _ => false,
    }
}

pub fn is_error(msg: &JsonRpcMessage) -> (r: bool)
    ensures
        r == (*msg is Error),
{
    match msg {
        JsonRpcMessage::Error(_) => true,
        _ => false,
    }
}

// ─── Reading a parsed value ─────────────────────────────────────────────────

/// A request id in a JSON value: an integer that fits `i64`, or a string.
pub open spec fn id_of(v: Option<JsonV>) -> Option<RequestIdV> {
    match v {
        Some(JsonV::Int(n)) => if i64::MIN <= n <= i64::MAX {
            Some(RequestIdV::Number(n))
        } else {
            None
        },
        Some(JsonV::Str(s)) => Some(RequestIdV::Str(s)),
        _ => None,
    }
}

/// An optional member: a missing member or `null` is absent.
pub open spec fn optional(v: Option<JsonV>) -> Option<JsonV> {
    match v {
        Some(JsonV::Null) => None,
        Some(x) => Some(x),
        None => None,
    }
}

/// The text of a string member.
pub open spec fn text_of(v: Option<JsonV>) -> Option<Seq<char>> {
    match v {
        Some(JsonV::Str(s)) => Some(s),
        _ => None,
    }
}

/// An integer member that fits `i64`.
pub open spec fn i64_of(v: Option<JsonV>) -> Option<int> {
    match v {
        Some(JsonV::Int(n)) => if i64::MIN <= n <= i64::MAX {
            Some(n)
        } else {
            None
        },
        _ => None,
    }
}

/// Reading an object as a request: string `jsonrpc` and `method`, an id, optional params.
pub open spec fn as_request(v: JsonV) -> Option<MessageV> {
    match (text_of(jget(v, "jsonrpc"@)), id_of(jget(v, "id"@)), text_of(jget(v, "method"@))) {
        (Some(j), Some(id), Some(m)) => Some(
            MessageV::Request { jsonrpc: j, id, method: m, params: optional(jget(v, "params"@)) },
        ),
        _ => None,
    }
}

pub open spec fn as_notification(v: JsonV) -> Option<MessageV> {
    match (text_of(jget(v, "jsonrpc"@)), text_of(jget(v, "method"@))) {
        (Some(j), Some(m)) => Some(
            MessageV::Notification { jsonrpc: j, method: m, params: optional(jget(v, "params"@)) },
        ),
        _ => None,
    }
}

pub open spec fn as_success(v: JsonV) -> Option<MessageV> {
    match (text_of(jget(v, "jsonrpc"@)), id_of(jget(v, "id"@)), jget(v, "result"@)) {
        (Some(j), Some(id), Some(res)) => Some(MessageV::Success { jsonrpc: j, id, result: res }),
        _ => None,
    }
}

/// The id of an error response: absent (missing or `null`) or a valid id.
pub open spec fn error_id_ok(v: Option<JsonV>) -> bool {
    optional(v) is None || id_of(v) is Some
}

pub open spec fn as_error(v: JsonV) -> Option<MessageV> {
    let e = jget(v, "error"@);
    if text_of(jget(v, "jsonrpc"@)) is Some && error_id_ok(jget(v, "id"@)) && e is Some && e->Some_0 is Object
        && i64_of(jget(e->Some_0, "code"@)) is Some && text_of(jget(e->Some_0, "message"@)) is Some {
        Some(
            MessageV::Error {
                jsonrpc: text_of(jget(v, "jsonrpc"@))->Some_0,
                id: if optional(jget(v, "id"@)) is None {
                    None
                } else {
                    id_of(jget(v, "id"@))
                },
                code: i64_of(jget(e->Some_0, "code"@))->Some_0,
                message: text_of(jget(e->Some_0, "message"@))->Some_0,
                data: optional(jget(e->Some_0, "data"@)),
            },
        )
    } else {
        None
    }
}

/// The first of request, notification, success and error that the object reads as.
pub open spec fn as_message(v: JsonV) -> Option<MessageV> {
    if as_request(v) is Some {
        as_request(v)
    } else if as_notification(v) is Some {
        as_notification(v)
    } else if as_success(v) is Some {
        as_success(v)
    } else {
        as_error(v)
    }
}

/// Model of a parse outcome: a message, or an error text.
pub enum ParseOutcome {
    Message(MessageV),
    Failure(Seq<char>),
}

pub open spec fn parse_view(r: ParseResult) -> ParseOutcome {
    match r {
        ParseResult::Message(m) => ParseOutcome::Message(m@),
        ParseResult::Failure(e) => ParseOutcome::Failure(e@),
    }
}

/// What reading `parsed` (a JSON value, or the text of a syntax error) gives.
pub open spec fn parse_outcome(parsed: Result<JsonV, Seq<char>>) -> ParseOutcome {
    match parsed {
        Err(e) => ParseOutcome::Failure("JSON parse error: "@ + e),
        Ok(v) => if !(v is Object) {
            ParseOutcome::Failure("Message must be an object"@)
        } else if text_of(jget(v, "jsonrpc"@)) != Some("2.0"@) {
            ParseOutcome::Failure(
                "Invalid jsonrpc version: "@ + match text_of(jget(v, "jsonrpc"@)) {
                    Some(t) => t,
                    None => "null"@,
                },
            )
        } else {
            match as_message(v) {
                Some(m) => ParseOutcome::Message(m),
                None => ParseOutcome::Failure(
                    "JSON parse error: data did not match any variant of untagged enum JsonRpcMessage"@,
                ),
            }
        },
    }
}

pub open spec fn parsed_view(p: &Result<Json, String>) -> Result<JsonV, Seq<char>> {
    match p {
        Ok(j) => Ok(j@),
        Err(e) => Err(e@),
    }
}

fn text_member(v: &Json, key: &str) -> (r: Option<String>)
    ensures
        match r {
            Some(s) => text_of(jget(v@, key@)) == Some(s@),
            None => text_of(jget(v@, key@)) is None,
        },
{
    match v.get(key) {
        Some(Json::Str(s)) => Some(s.clone()),
        _ => None,
    }
}

fn id_member(v: &Json, key: &str) -> (r: Option<RequestId>)
    ensures
        opt_id(r) == id_of(jget(v@, key@)),
{
    match v.get(key) {
        Some(Json::Int(n)) => if -9223372036854775808i128 <= *n && *n <= 9223372036854775807i128 {
            Some(RequestId::Number(*n as i64))
        } else {
            None
        },
        Some(Json::Str(s)) => Some(RequestId::String(s.clone())),
        _ => None,
    }
}

fn optional_member(v: &Json, key: &str) -> (r: Option<Json>)
    ensures
        opt_json(r) == optional(jget(v@, key@)),
{
    match v.get(key) {
        Some(Json::Null) => None,
        Some(x) => Some(x.deep_clone()),
        None => None,
    }
}

fn i64_member(v: &Json, key: &str) -> (r: Option<i64>)
    ensures
        match r {
            Some(n) => i64_of(jget(v@, key@)) == Some(n as int),
            None => i64_of(jget(v@, key@)) is None,
        },
{
    match v.get(key) {
        Some(Json::Int(n)) => if -9223372036854775808i128 <= *n && *n <= 9223372036854775807i128 {
            Some(*n as i64)
        } else {
            None
        },
        _ => None,
    }
}

/// Parses a JSON-RPC message from text: the text is read as JSON with
/// `serde_json`, then as a message by [`read_message`].
pub fn parse_message(input: &str) -> (r: ParseResult)
    ensures
        parse_view(r) == parse_outcome(json_text_reading(input@)),
{
    let parsed = parse_json_text(input);
    read_message(&parsed)
}

/// Reads a JSON-RPC message from `parsed`, the outcome of reading the input
/// as JSON (a value, or the text of the syntax error).
///
/// The value must be an object with `"jsonrpc": "2.0"`; it is then read as
/// the first of request, notification, success response and error response
/// whose required members it has.
pub fn read_message(parsed: &Result<Json, String>) -> (r: ParseResult)
    ensures
        parse_view(r) == parse_outcome(parsed_view(parsed)),
{
    let v = match parsed {
        Err(e) => {
            return ParseResult::Failure(concat("JSON parse error: ", e.as_str()));
        },
        Ok(v) => v,
    };
    if !v.is_object() {
        return ParseResult::Failure(owned("Message must be an object"));
    }
    let version = text_member(v, "jsonrpc");
    match &version {
        Some(t) => {
            if !str_eq(t.as_str(), JSONRPC_VERSION) {
                return ParseResult::Failure(concat("Invalid jsonrpc version: ", t.as_str()));
            }
        },
        None => {
            return ParseResult::Failure(concat("Invalid jsonrpc version: ", "null"));
        },
    }
    let jsonrpc = match version {
        Some(t) => t,
        None => owned(JSONRPC_VERSION),
    };
    let id = id_member(v, "id");
    let method = text_member(v, "method");
    match (id, method) {
        (Some(id), Some(method)) => {
            return ParseResult::Message(
                JsonRpcMessage::Request(
                    JsonRpcRequest { jsonrpc, id, method, params: optional_member(v, "params") },
                ),
            );
        },
        (_, Some(method)) => {
            return ParseResult::Message(
                JsonRpcMessage::Notification(
                    JsonRpcNotification { jsonrpc, method, params: optional_member(v, "params") },
                ),
            );
        },
        _ => {},
    }
    let id = id_member(v, "id");
    if let Some(id) = id {
        if let Some(result) = v.get("result") {
            return ParseResult::Message(
                JsonRpcMessage::Success(JsonRpcSuccess { jsonrpc, id, result: result.deep_clone() }),
            );
        }
    }
    let raw_id = optional_member(v, "id");
    let err_id = match raw_id {
        None => None,
        Some(_) => match id_member(v, "id") {
            Some(i) => Some(i),
            None => {
                return ParseResult::Failure(
                    owned("JSON parse error: data did not match any variant of untagged enum JsonRpcMessage"),
                );
            },
        },
    };
    if let Some(body) = v.get("error") {
        if body.is_object() {
            if let (Some(code), Some(message)) = (i64_member(body, "code"), text_member(body, "message")) {
                return ParseResult::Message(
                    JsonRpcMessage::Error(
                        JsonRpcError {
                            jsonrpc,
                            id: err_id,
                            error: JsonRpcErrorBody { code, message, data: optional_member(body, "data") },
                        },
                    ),
                );
            }
        }
    }
    ParseResult::Failure(owned("JSON parse error: data did not match any variant of untagged enum JsonRpcMessage"))
}

// ─── Writing a message as a JSON value ──────────────────────────────────────

/// A member for an optional value: present only when there is a value.
pub open spec fn opt_field(k: Seq<char>, v: Option<JsonV>) -> Seq<(Seq<char>, JsonV)> {
    match v {
        Some(x) => seq![(k, x)],
        None => Seq::empty(),
    }
}

/// The JSON value of a message: members in declaration order, absent optional
/// members left out, an absent error id written as `null`.
pub open spec fn message_json(m: MessageV) -> JsonV {
    match m {
        MessageV::Request { jsonrpc, id, method, params } => JsonV::Object(
            seq![("jsonrpc"@, JsonV::Str(jsonrpc)), ("id"@, id_json(id)), ("method"@, JsonV::Str(method))]
                + opt_field("params"@, params),
        ),
        MessageV::Notification { jsonrpc, method, params } => JsonV::Object(
            seq![("jsonrpc"@, JsonV::Str(jsonrpc)), ("method"@, JsonV::Str(method))] + opt_field(
                "params"@,
                params,
            ),
        ),
        MessageV::Success { jsonrpc, id, result } => JsonV::Object(
            seq![("jsonrpc"@, JsonV::Str(jsonrpc)), ("id"@, id_json(id)), ("result"@, result)],
        ),
        MessageV::Error { jsonrpc, id, code, message, data } => JsonV::Object(
            seq![
                ("jsonrpc"@, JsonV::Str(jsonrpc)),
                (
                    "id"@,
                    match id {
                        Some(i) => id_json(i),
                        None => JsonV::Null,
                    },
                ),
                (
                    "error"@,
                    JsonV::Object(
                        seq![("code"@, JsonV::Int(code)), ("message"@, JsonV::Str(message))] + opt_field(
                            "data"@,
                            data,
                        ),
                    ),
                ),
            ],
        ),
    }
}

fn push_opt(v: &mut Vec<(String, Json)>, key: &str, value: &Option<Json>)
    ensures
        fields_view(final(v)@) == fields_view(old(v)@) + opt_field(key@, opt_json(*value)),
{
    let ghost before = v@;
    if let Some(x) = value {
        v.push(member(key, x.deep_clone()));
    }
    assert(fields_view(v@) =~= fields_view(before) + opt_field(key@, opt_json(*value)));
}

/// The JSON value of a message.
pub fn message_to_json(msg: &JsonRpcMessage) -> (r: Json)
    ensures
        r@ == message_json(msg@),
{
    let mut v: Vec<(String, Json)> = Vec::new();
    match msg {
        JsonRpcMessage::Request(q) => {
            v.push(member("jsonrpc", Json::str_of(q.jsonrpc.as_str())));
            v.push(member("id", q.id.to_json()));
            v.push(member("method", Json::str_of(q.method.as_str())));
            push_opt(&mut v, "params", &q.params);
            assert(fields_view(v@) =~= message_json(msg@)->Object_0);
        },
        JsonRpcMessage::Notification(n) => {
            v.push(member("jsonrpc", Json::str_of(n.jsonrpc.as_str())));
            v.push(member("method", Json::str_of(n.method.as_str())));
            push_opt(&mut v, "params", &n.params);
            assert(fields_view(v@) =~= message_json(msg@)->Object_0);
        },
        JsonRpcMessage::Success(s) => {
            v.push(member("jsonrpc", Json::str_of(s.jsonrpc.as_str())));
            v.push(member("id", s.id.to_json()));
            v.push(member("result", s.result.deep_clone()));
            assert(fields_view(v@) =~= message_json(msg@)->Object_0);
        },
        JsonRpcMessage::Error(e) => {
            v.push(member("jsonrpc", Json::str_of(e.jsonrpc.as_str())));
            let id = match &e.id {
                Some(i) => i.to_json(),
                None => Json::Null,
            };
            v.push(member("id", id));
            let mut body: Vec<(String, Json)> = Vec::new();
            body.push(member("code", Json::Int(e.error.code as i128)));
            body.push(member("message", Json::str_of(e.error.message.as_str())));
            push_opt(&mut body, "data", &e.error.data);
            let ghost expected_body = seq![
                ("code"@, JsonV::Int(e.error.code as int)),
                ("message"@, JsonV::Str(e.error.message@)),
            ] + opt_field("data"@, opt_json(e.error.data));
            assert(fields_view(body@) =~= expected_body);
            let b = object(body);
            assert(b@ == JsonV::Object(expected_body));
            v.push(member("error", b));
            assert(fields_view(v@) =~= message_json(msg@)->Object_0);
        },
    }
    object(v)
}

// ─── Writing a message as text ──────────────────────────────────────────────

/// A record member for an optional value: present only when there is a value.
pub open spec fn opt_text_field(k: Seq<char>, v: Option<JsonV>) -> Seq<(Seq<char>, Seq<char>)> {
    match v {
        Some(x) => seq![(k, render(x))],
        None => Seq::empty(),
    }
}

/// The compact JSON text of a message: the message and its error body as
/// records, members in the order their types declare them; ids, params,
/// results and data as JSON values.
pub open spec fn message_text(m: MessageV) -> Seq<char> {
    match m {
        MessageV::Request { jsonrpc, id, method, params } => record_text(
            seq![
                ("jsonrpc"@, render(JsonV::Str(jsonrpc))),
                ("id"@, render(id_json(id))),
                ("method"@, render(JsonV::Str(method))),
            ] + opt_text_field("params"@, params),
        ),
        MessageV::Notification { jsonrpc, method, params } => record_text(
            seq![("jsonrpc"@, render(JsonV::Str(jsonrpc))), ("method"@, render(JsonV::Str(method)))]
                + opt_text_field("params"@, params),
        ),
        MessageV::Success { jsonrpc, id, result } => record_text(
            seq![
                ("jsonrpc"@, render(JsonV::Str(jsonrpc))),
                ("id"@, render(id_json(id))),
                ("result"@, render(result)),
            ],
        ),
        MessageV::Error { jsonrpc, id, code, message, data } => record_text(
            seq![
                ("jsonrpc"@, render(JsonV::Str(jsonrpc))),
                ("id"@, render(error_id_json(id))),
                ("error"@, error_body_text(code, message, data)),
            ],
        ),
    }
}

/// The id of an error response as a JSON value: `null` when there is none.
pub open spec fn error_id_json(id: Option<RequestIdV>) -> JsonV {
    match id {
        Some(i) => id_json(i),
        None => JsonV::Null,
    }
}

/// The text of an error body, a record.
pub open spec fn error_body_text(code: int, message: Seq<char>, data: Option<JsonV>) -> Seq<char> {
    record_text(
        seq![("code"@, render(JsonV::Int(code))), ("message"@, render(JsonV::Str(message)))] + opt_text_field(
            "data"@,
            data,
        ),
    )
}

fn push_text_member<'a>(v: &mut Vec<(&'a str, String)>, key: &'a str, value: &Json)
    ensures
        record_view(final(v)@) == record_view(old(v)@).push((key@, render(value@))),
{
    let ghost before = v@;
    v.push((key, to_json_text(value)));
    assert(record_view(v@) =~= record_view(before).push((key@, render(value@))));
}

fn push_opt_text<'a>(v: &mut Vec<(&'a str, String)>, key: &'a str, value: &Option<Json>)
    ensures
        record_view(final(v)@) == record_view(old(v)@) + opt_text_field(key@, opt_json(*value)),
{
    let ghost before = v@;
    if let Some(x) = value {
        push_text_member(v, key, x);
    }
    assert(record_view(v@) =~= record_view(before) + opt_text_field(key@, opt_json(*value)));
}

fn request_text(q: &JsonRpcRequest) -> (r: String)
    ensures
        r@ == message_text(
            MessageV::Request { jsonrpc: q.jsonrpc@, id: q.id@, method: q.method@, params: opt_json(q.params) },
        ),
        r@ == record_text(seq![
            ("jsonrpc"@, render(JsonV::Str(q.jsonrpc@))),
            ("id"@, render(id_json(q.id@))),
            ("method"@, render(JsonV::Str(q.method@))),
        ] + opt_text_field("params"@, opt_json(q.params))),
{
    let mut v: Vec<(&str, String)> = Vec::new();
    push_text_member(&mut v, "jsonrpc", &Json::str_of(q.jsonrpc.as_str()));
    push_text_member(&mut v, "id", &q.id.to_json());
    push_text_member(&mut v, "method", &Json::str_of(q.method.as_str()));
    push_opt_text(&mut v, "params", &q.params);
    assert(record_view(v@) =~= seq![
        ("jsonrpc"@, render(JsonV::Str(q.jsonrpc@))),
        ("id"@, render(id_json(q.id@))),
        ("method"@, render(JsonV::Str(q.method@))),
    ] + opt_text_field("params"@, opt_json(q.params)));
    record_to_text(&v)
}

fn notification_text(n: &JsonRpcNotification) -> (r: String)
    ensures
        r@ == message_text(MessageV::Notification { jsonrpc: n.jsonrpc@, method: n.method@, params: opt_json(n.params) }),
        r@ == record_text(seq![("jsonrpc"@, render(JsonV::Str(n.jsonrpc@))), ("method"@, render(JsonV::Str(n.method@)))]
            + opt_text_field("params"@, opt_json(n.params))),
{
    let mut v: Vec<(&str, String)> = Vec::new();
    push_text_member(&mut v, "jsonrpc", &Json::str_of(n.jsonrpc.as_str()));
    push_text_member(&mut v, "method", &Json::str_of(n.method.as_str()));
    push_opt_text(&mut v, "params", &n.params);
    assert(record_view(v@) =~= seq![("jsonrpc"@, render(JsonV::Str(n.jsonrpc@))), ("method"@, render(JsonV::Str(n.method@)))]
        + opt_text_field("params"@, opt_json(n.params)));
    record_to_text(&v)
}

fn success_text(ok: &JsonRpcSuccess) -> (r: String)
    ensures
        r@ == message_text(MessageV::Success { jsonrpc: ok.jsonrpc@, id: ok.id@, result: ok.result@ }),
        r@ == record_text(seq![
            ("jsonrpc"@, render(JsonV::Str(ok.jsonrpc@))),
            ("id"@, render(id_json(ok.id@))),
            ("result"@, render(ok.result@)),
        ]),
{
    let mut v: Vec<(&str, String)> = Vec::new();
    push_text_member(&mut v, "jsonrpc", &Json::str_of(ok.jsonrpc.as_str()));
    push_text_member(&mut v, "id", &ok.id.to_json());
    push_text_member(&mut v, "result", &ok.result);
    assert(record_view(v@) =~= seq![
        ("jsonrpc"@, render(JsonV::Str(ok.jsonrpc@))),
        ("id"@, render(id_json(ok.id@))),
        ("result"@, render(ok.result@)),
    ]);
    record_to_text(&v)
}

fn write_error_body(b: &JsonRpcErrorBody) -> (r: String)
    ensures
        r@ == error_body_text(b.code as int, b.message@, opt_json(b.data)),
{
    let mut v: Vec<(&str, String)> = Vec::new();
    push_text_member(&mut v, "code", &Json::Int(b.code as i128));
    push_text_member(&mut v, "message", &Json::str_of(b.message.as_str()));
    push_opt_text(&mut v, "data", &b.data);
    assert(record_view(v@) =~= seq![("code"@, render(JsonV::Int(b.code as int))), ("message"@, render(JsonV::Str(b.message@)))]
        + opt_text_field("data"@, opt_json(b.data)));
    record_to_text(&v)
}

fn error_text(e: &JsonRpcError) -> (r: String)
    ensures
        r@ == message_text(
            MessageV::Error {
                jsonrpc: e.jsonrpc@,
                id: opt_id(e.id),
                code: e.error.code as int,
                message: e.error.message@,
                data: opt_json(e.error.data),
            },
        ),
{
    let mut v: Vec<(&str, String)> = Vec::new();
    push_text_member(&mut v, "jsonrpc", &Json::str_of(e.jsonrpc.as_str()));
    let id = match &e.id {
        Some(i) => i.to_json(),
        None => Json::Null,
    };
    assert(id@ == error_id_json(opt_id(e.id)));
    push_text_member(&mut v, "id", &id);
    let b = write_error_body(&e.error);
    let ghost before = v@;
    v.push(("error", b));
    assert(record_view(v@) =~= record_view(before).push(("error"@, b@)));
    assert(record_view(v@) =~= seq![
        ("jsonrpc"@, render(JsonV::Str(e.jsonrpc@))),
        ("id"@, render(error_id_json(opt_id(e.id)))),
        ("error"@, error_body_text(e.error.code as int, e.error.message@, opt_json(e.error.data))),
    ]);
    record_to_text(&v)
}

/// The compact JSON text of a message, members in the order the message
/// type declares them.
pub fn stringify(msg: &JsonRpcMessage) -> (r: String)
    ensures
        r@ == message_text(msg@),
{
    match msg {
        JsonRpcMessage::Request(q) => request_text(q),
        JsonRpcMessage::Notification(n) => notification_text(n),
        JsonRpcMessage::Success(ok) => success_text(ok),
        JsonRpcMessage::Error(e) => error_text(e),
    }
}

// ─── Reading back what was written ──────────────────────────────────────────

/// A request id that reads back as itself: a number within `i64`, or a string.
pub open spec fn id_in_range(id: RequestIdV) -> bool {
    match id {
        RequestIdV::Number(n) => i64::MIN <= n <= i64::MAX,
        RequestIdV::Str(_) => true,
    }
}

/// A message whose JSON value reads back as the same message: version `2.0`,
/// ids and the error code within `i64`, and no optional member (`params`,
/// `data`) that is present but `null`.
pub open spec fn wire_ready(m: MessageV) -> bool {
    match m {
        MessageV::Request { jsonrpc, id, method, params } => jsonrpc == "2.0"@ && id_in_range(id) && params
            != Some(JsonV::Null),
        MessageV::Notification { jsonrpc, method, params } => jsonrpc == "2.0"@ && params != Some(JsonV::Null),
        MessageV::Success { jsonrpc, id, result } => jsonrpc == "2.0"@ && id_in_range(id),
        MessageV::Error { jsonrpc, id, code, message, data } => jsonrpc == "2.0"@ && (id matches Some(i)
            ==> id_in_range(i)) && i64::MIN <= code <= i64::MAX && data != Some(JsonV::Null),
    }
}

proof fn lemma_keys_distinct()
    ensures
        "jsonrpc"@ != "id"@,
        "jsonrpc"@ != "method"@,
        "jsonrpc"@ != "params"@,
        "jsonrpc"@ != "result"@,
        "jsonrpc"@ != "error"@,
        "id"@ != "method"@,
        "id"@ != "params"@,
        "id"@ != "result"@,
        "id"@ != "error"@,
        "method"@ != "params"@,
        "method"@ != "result"@,
        "method"@ != "error"@,
        "params"@ != "result"@,
        "params"@ != "error"@,
        "result"@ != "error"@,
        "code"@ != "message"@,
        "code"@ != "data"@,
        "message"@ != "data"@,
{
    reveal_strlit("jsonrpc");
    reveal_strlit("id");
    reveal_strlit("method");
    reveal_strlit("params");
    reveal_strlit("result");
    reveal_strlit("error");
    reveal_strlit("code");
    reveal_strlit("message");
    reveal_strlit("data");
    assert("jsonrpc"@.len() != "id"@.len());
    assert("jsonrpc"@.len() != "method"@.len());
    assert("jsonrpc"@[0] != "params"@[0]);
    assert("jsonrpc"@[0] != "result"@[0]);
    assert("jsonrpc"@.len() != "error"@.len());
    assert("id"@.len() != "method"@.len());
    assert("id"@.len() != "params"@.len());
    assert("id"@.len() != "result"@.len());
    assert("id"@.len() != "error"@.len());
    assert("method"@[0] != "params"@[0]);
    assert("method"@[0] != "result"@[0]);
    assert("method"@.len() != "error"@.len());
    assert("params"@[0] != "result"@[0]);
    assert("params"@.len() != "error"@.len());
    assert("result"@.len() != "error"@.len());
    assert("code"@.len() != "message"@.len());
    assert("code"@[0] != "data"@[0]);
    assert("message"@.len() != "data"@.len());
}

/// Reading back the JSON value of a message: a message whose value carries
/// version `2.0`, ids and code within `i64` and no `null` optional member
/// reads back as the same message.
pub proof fn lemma_message_roundtrip(m: MessageV)
    requires
        wire_ready(m),
    ensures
        parse_outcome(Ok(message_json(m))) == ParseOutcome::Message(m),
{
    lemma_keys_distinct();
    reveal_strlit("2.0");
    reveal_with_fuel(crate::json::member_pos, 6);
    let v = message_json(m);
    match m {
        MessageV::Request { jsonrpc, id, method, params } => {
            assert(jget(v, "jsonrpc"@) == Some(JsonV::Str(jsonrpc)));
            assert(jget(v, "id"@) == Some(id_json(id)));
            assert(jget(v, "method"@) == Some(JsonV::Str(method)));
            assert(jget(v, "params"@) == params);
        },
        MessageV::Notification { jsonrpc, method, params } => {
            assert(jget(v, "jsonrpc"@) == Some(JsonV::Str(jsonrpc)));
            assert(jget(v, "id"@) is None);
            assert(jget(v, "method"@) == Some(JsonV::Str(method)));
            assert(jget(v, "params"@) == params);
        },
        MessageV::Success { jsonrpc, id, result } => {
            assert(jget(v, "jsonrpc"@) == Some(JsonV::Str(jsonrpc)));
            assert(jget(v, "id"@) == Some(id_json(id)));
            assert(jget(v, "method"@) is None);
            assert(jget(v, "result"@) == Some(result));
        },
        MessageV::Error { jsonrpc, id, code, message, data } => {
            let e = v->Object_0[2].1;
            assert(jget(v, "jsonrpc"@) == Some(JsonV::Str(jsonrpc)));
            assert(jget(v, "method"@) is None);
            assert(jget(v, "result"@) is None);
            assert(jget(v, "error"@) == Some(e));
            assert(jget(e, "code"@) == Some(JsonV::Int(code)));
            assert(jget(e, "message"@) == Some(JsonV::Str(message)));
            assert(jget(e, "data"@) == data);
        },
    }
}

} // verus!
