//! Notifications the server sends, and their JSON-RPC form.
use vstd::prelude::*;
use crate::json::{Json, JsonV, fields_view, member, object};
use crate::jsonrpc::opt_json;
use crate::protocol::opt_text;
use crate::clients::{opt_text_member, opt_value_member};
use crate::text::owned;

verus! {

broadcast use vstd::string::group_string_axioms;

/// A notification. Numbers (progress and total) are JSON numbers.
pub enum Notification {
    Progress { progress_token: Json, progress: Json, total: Option<Json>, message: Option<String> },
    Log { level: String, logger: Option<String>, data: Json },
    ResourcesListChanged,
    ToolsListChanged,
    PromptsListChanged,
    ResourceUpdated { uri: String },
    Cancelled { request_id: Json, reason: Option<String> },
    RootsListChanged,
}

pub fn progress_notification(progress_token: Json, current: Json, total: Option<Json>, message: Option<String>) -> (r: Notification)
    ensures
        r == (Notification::Progress { progress_token, progress: current, total, message }),
{
    Notification::Progress { progress_token, progress: current, total, message }
}

pub fn tools_list_changed() -> (r: Notification)
    ensures
        r == Notification::ToolsListChanged,
{
    Notification::ToolsListChanged
}

pub fn resources_list_changed() -> (r: Notification)
    ensures
        r == Notification::ResourcesListChanged,
{
    Notification::ResourcesListChanged
}

pub fn prompts_list_changed() -> (r: Notification)
    ensures
        r == Notification::PromptsListChanged,
{
    Notification::PromptsListChanged
}

pub fn roots_list_changed() -> (r: Notification)
    ensures
        r == Notification::RootsListChanged,
{
    Notification::RootsListChanged
}

pub fn resource_updated(uri: &str) -> (r: Notification)
    ensures
        r matches Notification::ResourceUpdated { uri: u } && u@ == uri@,
{
    Notification::ResourceUpdated { uri: owned(uri) }
}

pub fn cancelled(request_id: Json, reason: Option<String>) -> (r: Notification)
    ensures
        r == (Notification::Cancelled { request_id, reason }),
{
    Notification::Cancelled { request_id, reason }
}

pub fn log_notification(level: &str, data: Json, logger: Option<String>) -> (r: Notification)
    ensures
        r matches Notification::Log { level: l, logger: g, data: d } && l@ == level@ && g == logger
            && d == data,
{
    Notification::Log { level: owned(level), logger, data }
}

/// The JSON-RPC form of a notification: a method and optional params.
pub struct JsonRpcNotificationWire {
    pub method: String,
    pub params: Option<Json>,
}

/// The method of a notification.
pub open spec fn wire_method(n: Notification) -> Seq<char> {
    match n {
        Notification::Progress { .. } => "notifications/progress"@,
        Notification::Log { .. } => "notifications/message"@,
        Notification::ResourcesListChanged => "notifications/resources/list_changed"@,
        Notification::ToolsListChanged => "notifications/tools/list_changed"@,
        Notification::PromptsListChanged => "notifications/prompts/list_changed"@,
        Notification::ResourceUpdated { .. } => "notifications/resources/updated"@,
        Notification::Cancelled { .. } => "notifications/cancelled"@,
        Notification::RootsListChanged => "notifications/roots/list_changed"@,
    }
}

/// The params of a notification; list-changed notifications have none.
pub open spec fn wire_params(n: Notification) -> Option<JsonV> {
    match n {
        Notification::Progress { progress_token, progress, total, message } => Some(
            JsonV::Object(
                seq![("progressToken"@, progress_token@), ("progress"@, progress@)] + opt_value_member(
                    "total"@,
                    opt_json(total),
                ) + opt_text_member("message"@, opt_text(message)),
            ),
        ),
        Notification::Log { level, logger, data } => Some(
            JsonV::Object(
                seq![("level"@, JsonV::Str(level@))] + opt_text_member("logger"@, opt_text(logger)) + seq![
                    ("data"@, data@),
                ],
            ),
        ),
        Notification::ResourceUpdated { uri } => Some(JsonV::Object(seq![("uri"@, JsonV::Str(uri@))])),
        Notification::Cancelled { request_id, reason } => Some(
            JsonV::Object(seq![("requestId"@, request_id@)] + opt_text_member("reason"@, opt_text(reason))),
        ),
        _ => None,
    }
}

fn push_text(v: &mut Vec<(String, Json)>, key: &str, value: &Option<String>)
    ensures
        fields_view(final(v)@) == fields_view(old(v)@) + opt_text_member(key@, opt_text(*value)),
{
    let ghost before = v@;
    if let Some(t) = value {
        v.push(member(key, Json::str_of(t.as_str())));
    }
    assert(fields_view(v@) =~= fields_view(before) + opt_text_member(key@, opt_text(*value)));
}

fn push_value(v: &mut Vec<(String, Json)>, key: &str, value: &Option<Json>)
    ensures
        fields_view(final(v)@) == fields_view(old(v)@) + opt_value_member(key@, opt_json(*value)),
{
    let ghost before = v@;
    if let Some(x) = value {
        v.push(member(key, x.deep_clone()));
    }
    assert(fields_view(v@) =~= fields_view(before) + opt_value_member(key@, opt_json(*value)));
}

/// The JSON-RPC method and params of a notification.
pub fn notification_to_jsonrpc(n: &Notification) -> (r: JsonRpcNotificationWire)
    ensures
        r.method@ == wire_method(*n),
        opt_json(r.params) == wire_params(*n),
{
    match n {
        Notification::Progress { progress_token, progress, total, message } => {
            let mut v: Vec<(String, Json)> = Vec::new();
            v.push(member("progressToken", progress_token.deep_clone()));
            v.push(member("progress", progress.deep_clone()));
            assert(fields_view(v@) =~= seq![("progressToken"@, progress_token@), ("progress"@, progress@)]);
            push_value(&mut v, "total", total);
            push_text(&mut v, "message", message);
            assert(fields_view(v@) =~= wire_params(*n)->Some_0->Object_0);
            JsonRpcNotificationWire { method: owned("notifications/progress"), params: Some(object(v)) }
        },
        Notification::Log { level, logger, data } => {
            let mut v: Vec<(String, Json)> = Vec::new();
            v.push(member("level", Json::str_of(level.as_str())));
            assert(fields_view(v@) =~= seq![("level"@, JsonV::Str(level@))]);
            push_text(&mut v, "logger", logger);
            let ghost mid = fields_view(v@);
            v.push(member("data", data.deep_clone()));
            assert(fields_view(v@) =~= mid.push(("data"@, data@)));
            assert(fields_view(v@) =~= wire_params(*n)->Some_0->Object_0);
            JsonRpcNotificationWire { method: owned("notifications/message"), params: Some(object(v)) }
        },
        Notification::ResourcesListChanged => JsonRpcNotificationWire {
            method: owned("notifications/resources/list_changed"),
            params: None,
        },
        Notification::ToolsListChanged => JsonRpcNotificationWire {
            method: owned("notifications/tools/list_changed"),
            params: None,
        },
        Notification::PromptsListChanged => JsonRpcNotificationWire {
            method: owned("notifications/prompts/list_changed"),
            params: None,
        },
        Notification::ResourceUpdated { uri } => {
            let mut v: Vec<(String, Json)> = Vec::new();
            v.push(member("uri", Json::str_of(uri.as_str())));
            assert(fields_view(v@) =~= wire_params(*n)->Some_0->Object_0);
            JsonRpcNotificationWire { method: owned("notifications/resources/updated"), params: Some(object(v)) }
        },
        Notification::Cancelled { request_id, reason } => {
            let mut v: Vec<(String, Json)> = Vec::new();
            v.push(member("requestId", request_id.deep_clone()));
            push_text(&mut v, "reason", reason);
            assert(fields_view(v@) =~= wire_params(*n)->Some_0->Object_0);
            JsonRpcNotificationWire { method: owned("notifications/cancelled"), params: Some(object(v)) }
        },
        Notification::RootsListChanged => JsonRpcNotificationWire {
            method: owned("notifications/roots/list_changed"),
            params: None,
        },
    }
}

// ─── Helpers and emitting ───────────────────────────────────────────────────

pub fn progress(progress_token: Json, current: Json, total: Option<Json>, message: Option<String>) -> (r: Notification)
    ensures
        r == (Notification::Progress { progress_token, progress: current, total, message }),
{
    progress_notification(progress_token, current, total, message)
}

pub fn log(level: &str, data: Json, logger: Option<String>) -> (r: Notification)
    ensures
        r matches Notification::Log { level: l, logger: g, data: d } && l@ == level@ && g == logger
            && d == data,
{
    log_notification(level, data, logger)
}

pub fn resources_list_changed_n() -> (r: Notification)
    ensures
        r == Notification::ResourcesListChanged,
{
    resources_list_changed()
}

pub fn tools_list_changed_n() -> (r: Notification)
    ensures
        r == Notification::ToolsListChanged,
{
    tools_list_changed()
}

pub fn prompts_list_changed_n() -> (r: Notification)
    ensures
        r == Notification::PromptsListChanged,
{
    prompts_list_changed()
}

pub fn resource_updated_n(uri: &str) -> (r: Notification)
    ensures
        r matches Notification::ResourceUpdated { uri: u } && u@ == uri@,
{
    resource_updated(uri)
}

pub fn cancelled_n(request_id: Json, reason: Option<String>) -> (r: Notification)
    ensures
        r == (Notification::Cancelled { request_id, reason }),
{
    cancelled(request_id, reason)
}

pub fn to_jsonrpc(n: &Notification) -> (r: JsonRpcNotificationWire)
    ensures
        r.method@ == wire_method(*n),
        opt_json(r.params) == wire_params(*n),
{
    notification_to_jsonrpc(n)
}

/// An emitted notification: method and optional params.
pub struct EmittedNotification {
    pub method: String,
    pub params: Option<Json>,
}

impl EmittedNotification {
    pub fn from_wire(w: JsonRpcNotificationWire) -> (r: Self)
        ensures
            r.method == w.method,
            r.params == w.params,
    {
        EmittedNotification { method: w.method, params: w.params }
    }
}

impl From<JsonRpcNotificationWire> for EmittedNotification {
    /// The emitted form of a JSON-RPC notification: the same method and params.
    fn from(w: JsonRpcNotificationWire) -> (r: Self) {
        EmittedNotification { method: w.method, params: w.params }
    }
}

impl vstd::std_specs::convert::FromSpecImpl<JsonRpcNotificationWire> for EmittedNotification {
    open spec fn obeys_from_spec() -> bool {
        true
    }

    open spec fn from_spec(w: JsonRpcNotificationWire) -> Self {
        EmittedNotification { method: w.method, params: w.params }
    }
}

/// An emitter that records what it emits.
pub struct RecordingEmitter {
    pub emissions: Vec<EmittedNotification>,
}

impl RecordingEmitter {
    pub fn new() -> (r: Self)
        ensures
            r.emissions@.len() == 0,
    {
        RecordingEmitter { emissions: Vec::new() }
    }

    /// Records the JSON-RPC form of `notification`.
    pub fn emit(&mut self, notification: &Notification)
        ensures
            final(self).emissions@.len() == old(self).emissions@.len() + 1,
            final(self).emissions@.drop_last() == old(self).emissions@,
            final(self).emissions@.last().method@ == wire_method(*notification),
            opt_json(final(self).emissions@.last().params) == wire_params(*notification),
    {
        let wire = to_jsonrpc(notification);
        self.emissions.push(EmittedNotification::from_wire(wire));
        assert(self.emissions@.drop_last() =~= old(self).emissions@);
    }

    pub fn len(&self) -> (n: usize)
        ensures
            n == self.emissions@.len(),
    {
        self.emissions.len()
    }

    pub fn is_empty(&self) -> (b: bool)
        ensures
            b == (self.emissions@.len() == 0),
    {
        self.emissions.len() == 0
    }

    pub fn clear(&mut self)
        ensures
            final(self).emissions@.len() == 0,
    {
        self.emissions.clear();
    }
}

/// Discards a notification.
pub fn noop_emit(_notification: &Notification) {
}

/// Hands the notification's JSON-RPC method and params to `send`, once.
pub fn emit_with<F>(notification: &Notification, mut send: F)
    where
        F: FnMut(&str, Option<&Json>),
    requires
        forall|m: &str, p: Option<&Json>| call_requires(send, (m, p)),
    ensures
        exists|m: &str, p: Option<&Json>|
            {
                &&& m@ == wire_method(*notification)
                &&& match p {
                    Some(j) => Some(j@),
                    None => None,
                } == wire_params(*notification)
                &&& call_ensures(send, (m, p), ())
            },
{
    let wire = to_jsonrpc(notification);
    let m = wire.method.as_str();
    let p = wire.params.as_ref();
    send(m, p);
}

} // verus!
