//! MCP method names, value catalogs and the classifiers built on them.
use vstd::prelude::*;
use crate::text::{chars_of, concat, lower, lower_vec, owned, starts_with, trim, trim_str, vec_eq};

verus! {

broadcast use vstd::string::group_string_axioms;

/// Is `v` exactly the characters of the literal `lit`?
pub fn eq_lit(v: &Vec<char>, lit: &str) -> (r: bool)
    ensures
        r == (v@ == lit@),
{
    vec_eq(v, &chars_of(lit))
}

/// A known MCP method string.
pub open spec fn mcp_method(m: Seq<char>) -> bool {
    m == "initialize"@
        || m == "notifications/initialized"@
        || m == "ping"@
        || m == "resources/list"@
        || m == "resources/templates/list"@
        || m == "resources/read"@
        || m == "resources/subscribe"@
        || m == "resources/unsubscribe"@
        || m == "notifications/resources/updated"@
        || m == "notifications/resources/list_changed"@
        || m == "prompts/list"@
        || m == "prompts/get"@
        || m == "notifications/prompts/list_changed"@
        || m == "tools/list"@
        || m == "tools/call"@
        || m == "notifications/tools/list_changed"@
        || m == "logging/setLevel"@
        || m == "notifications/message"@
        || m == "completion/complete"@
        || m == "sampling/createMessage"@
        || m == "elicitation/create"@
        || m == "notifications/progress"@
        || m == "notifications/cancelled"@
        || m == "roots/list"@
        || m == "notifications/roots/list_changed"@
}

/// A known MCP method string.
pub fn is_mcp_method(m: &str) -> (r: bool)
    ensures
        r == mcp_method(m@),
{
    let v = chars_of(m);
    eq_lit(&v, "initialize")
        || eq_lit(&v, "notifications/initialized")
        || eq_lit(&v, "ping")
        || eq_lit(&v, "resources/list")
        || eq_lit(&v, "resources/templates/list")
        || eq_lit(&v, "resources/read")
        || eq_lit(&v, "resources/subscribe")
        || eq_lit(&v, "resources/unsubscribe")
        || eq_lit(&v, "notifications/resources/updated")
        || eq_lit(&v, "notifications/resources/list_changed")
        || eq_lit(&v, "prompts/list")
        || eq_lit(&v, "prompts/get")
        || eq_lit(&v, "notifications/prompts/list_changed")
        || eq_lit(&v, "tools/list")
        || eq_lit(&v, "tools/call")
        || eq_lit(&v, "notifications/tools/list_changed")
        || eq_lit(&v, "logging/setLevel")
        || eq_lit(&v, "notifications/message")
        || eq_lit(&v, "completion/complete")
        || eq_lit(&v, "sampling/createMessage")
        || eq_lit(&v, "elicitation/create")
        || eq_lit(&v, "notifications/progress")
        || eq_lit(&v, "notifications/cancelled")
        || eq_lit(&v, "roots/list")
        || eq_lit(&v, "notifications/roots/list_changed")
}

/// A lifecycle method (`initialize`, `notifications/initialized`, `ping`).
pub open spec fn lifecycle_method(m: Seq<char>) -> bool {
    m == "initialize"@
        || m == "notifications/initialized"@
        || m == "ping"@
}

/// A lifecycle method (`initialize`, `notifications/initialized`, `ping`).
pub fn is_lifecycle_method(m: &str) -> (r: bool)
    ensures
        r == lifecycle_method(m@),
{
    let v = chars_of(m);
    eq_lit(&v, "initialize")
        || eq_lit(&v, "notifications/initialized")
        || eq_lit(&v, "ping")
}

/// A client-initiated MCP request method.
pub open spec fn client_to_server_request_method(m: Seq<char>) -> bool {
    m == "initialize"@
        || m == "ping"@
        || m == "resources/list"@
        || m == "resources/templates/list"@
        || m == "resources/read"@
        || m == "resources/subscribe"@
        || m == "resources/unsubscribe"@
        || m == "prompts/list"@
        || m == "prompts/get"@
        || m == "tools/list"@
        || m == "tools/call"@
        || m == "logging/setLevel"@
        || m == "completion/complete"@
        || m == "roots/list"@
}

/// A client-initiated MCP request method.
pub fn is_client_to_server_request_method(m: &str) -> (r: bool)
    ensures
        r == client_to_server_request_method(m@),
{
    let v = chars_of(m);
    eq_lit(&v, "initialize")
        || eq_lit(&v, "ping")
        || eq_lit(&v, "resources/list")
        || eq_lit(&v, "resources/templates/list")
        || eq_lit(&v, "resources/read")
        || eq_lit(&v, "resources/subscribe")
        || eq_lit(&v, "resources/unsubscribe")
        || eq_lit(&v, "prompts/list")
        || eq_lit(&v, "prompts/get")
        || eq_lit(&v, "tools/list")
        || eq_lit(&v, "tools/call")
        || eq_lit(&v, "logging/setLevel")
        || eq_lit(&v, "completion/complete")
        || eq_lit(&v, "roots/list")
}

/// A resources-domain method (requests and notifications).
pub open spec fn resources_method(m: Seq<char>) -> bool {
    m == "resources/list"@
        || m == "resources/templates/list"@
        || m == "resources/read"@
        || m == "resources/subscribe"@
        || m == "resources/unsubscribe"@
        || m == "notifications/resources/updated"@
        || m == "notifications/resources/list_changed"@
}

/// A resources-domain method (requests and notifications).
pub fn is_resources_method(m: &str) -> (r: bool)
    ensures
        r == resources_method(m@),
{
    let v = chars_of(m);
    eq_lit(&v, "resources/list")
        || eq_lit(&v, "resources/templates/list")
        || eq_lit(&v, "resources/read")
        || eq_lit(&v, "resources/subscribe")
        || eq_lit(&v, "resources/unsubscribe")
        || eq_lit(&v, "notifications/resources/updated")
        || eq_lit(&v, "notifications/resources/list_changed")
}

/// A tools-domain method.
pub open spec fn tools_method(m: Seq<char>) -> bool {
    m == "tools/list"@
        || m == "tools/call"@
        || m == "notifications/tools/list_changed"@
}

/// A tools-domain method.
pub fn is_tools_method(m: &str) -> (r: bool)
    ensures
        r == tools_method(m@),
{
    let v = chars_of(m);
    eq_lit(&v, "tools/list")
        || eq_lit(&v, "tools/call")
        || eq_lit(&v, "notifications/tools/list_changed")
}

/// A prompts-domain method.
pub open spec fn prompts_method(m: Seq<char>) -> bool {
    m == "prompts/list"@
        || m == "prompts/get"@
        || m == "notifications/prompts/list_changed"@
}

/// A prompts-domain method.
pub fn is_prompts_method(m: &str) -> (r: bool)
    ensures
        r == prompts_method(m@),
{
    let v = chars_of(m);
    eq_lit(&v, "prompts/list")
        || eq_lit(&v, "prompts/get")
        || eq_lit(&v, "notifications/prompts/list_changed")
}

/// A server-initiated request toward the client (sampling, elicitation).
pub open spec fn server_to_client_method(m: Seq<char>) -> bool {
    m == "sampling/createMessage"@
        || m == "elicitation/create"@
}

/// A server-initiated request toward the client (sampling, elicitation).
pub fn is_server_to_client_method(m: &str) -> (r: bool)
    ensures
        r == server_to_client_method(m@),
{
    let v = chars_of(m);
    eq_lit(&v, "sampling/createMessage")
        || eq_lit(&v, "elicitation/create")
}

/// A `*/list_changed` notification method.
pub open spec fn list_changed_notification(m: Seq<char>) -> bool {
    m == "notifications/resources/list_changed"@
        || m == "notifications/tools/list_changed"@
        || m == "notifications/prompts/list_changed"@
        || m == "notifications/roots/list_changed"@
}

/// A `*/list_changed` notification method.
pub fn is_list_changed_notification(m: &str) -> (r: bool)
    ensures
        r == list_changed_notification(m@),
{
    let v = chars_of(m);
    eq_lit(&v, "notifications/resources/list_changed")
        || eq_lit(&v, "notifications/tools/list_changed")
        || eq_lit(&v, "notifications/prompts/list_changed")
        || eq_lit(&v, "notifications/roots/list_changed")
}

/// A method served by the request handler.
pub open spec fn handler_request_method(m: Seq<char>) -> bool {
    m == "initialize"@
        || m == "ping"@
        || m == "tools/list"@
        || m == "tools/call"@
        || m == "resources/list"@
        || m == "resources/templates/list"@
        || m == "resources/read"@
        || m == "resources/subscribe"@
        || m == "resources/unsubscribe"@
        || m == "prompts/list"@
        || m == "prompts/get"@
        || m == "logging/setLevel"@
        || m == "completion/complete"@
}

/// A method served by the request handler.
pub fn is_handler_request_method(m: &str) -> (r: bool)
    ensures
        r == handler_request_method(m@),
{
    let v = chars_of(m);
    eq_lit(&v, "initialize")
        || eq_lit(&v, "ping")
        || eq_lit(&v, "tools/list")
        || eq_lit(&v, "tools/call")
        || eq_lit(&v, "resources/list")
        || eq_lit(&v, "resources/templates/list")
        || eq_lit(&v, "resources/read")
        || eq_lit(&v, "resources/subscribe")
        || eq_lit(&v, "resources/unsubscribe")
        || eq_lit(&v, "prompts/list")
        || eq_lit(&v, "prompts/get")
        || eq_lit(&v, "logging/setLevel")
        || eq_lit(&v, "completion/complete")
}

/// A supported protocol version.
pub open spec fn supported_protocol_version(m: Seq<char>) -> bool {
    m == "2025-03-26"@
        || m == "2024-11-05"@
}

/// A supported protocol version.
pub fn is_supported_protocol_version(m: &str) -> (r: bool)
    ensures
        r == supported_protocol_version(m@),
{
    let v = chars_of(m);
    eq_lit(&v, "2025-03-26")
        || eq_lit(&v, "2024-11-05")
}

/// A recognized MCP log level.
pub open spec fn log_level(m: Seq<char>) -> bool {
    m == "debug"@
        || m == "info"@
        || m == "notice"@
        || m == "warning"@
        || m == "error"@
        || m == "critical"@
        || m == "alert"@
        || m == "emergency"@
}

/// A recognized MCP log level.
pub fn is_valid_log_level(m: &str) -> (r: bool)
    ensures
        r == log_level(m@),
{
    let v = chars_of(m);
    eq_lit(&v, "debug")
        || eq_lit(&v, "info")
        || eq_lit(&v, "notice")
        || eq_lit(&v, "warning")
        || eq_lit(&v, "error")
        || eq_lit(&v, "critical")
        || eq_lit(&v, "alert")
        || eq_lit(&v, "emergency")
}

/// A recognized elicitation action.
pub open spec fn elicitation_action(m: Seq<char>) -> bool {
    m == "accept"@
        || m == "decline"@
        || m == "cancel"@
}

/// A recognized elicitation action.
pub fn is_valid_elicitation_action(m: &str) -> (r: bool)
    ensures
        r == elicitation_action(m@),
{
    let v = chars_of(m);
    eq_lit(&v, "accept")
        || eq_lit(&v, "decline")
        || eq_lit(&v, "cancel")
}

/// A recognized sampling `includeContext` value.
pub open spec fn include_context(m: Seq<char>) -> bool {
    m == "none"@
        || m == "thisServer"@
        || m == "allServers"@
}

/// A recognized sampling `includeContext` value.
pub fn is_valid_include_context(m: &str) -> (r: bool)
    ensures
        r == include_context(m@),
{
    let v = chars_of(m);
    eq_lit(&v, "none")
        || eq_lit(&v, "thisServer")
        || eq_lit(&v, "allServers")
}

/// A canonical sampling stop reason.
pub open spec fn canonical_stop_reason(m: Seq<char>) -> bool {
    m == "endTurn"@
        || m == "stopSequence"@
        || m == "maxTokens"@
}

/// A canonical sampling stop reason.
pub fn is_canonical_stop_reason(m: &str) -> (r: bool)
    ensures
        r == canonical_stop_reason(m@),
{
    let v = chars_of(m);
    eq_lit(&v, "endTurn")
        || eq_lit(&v, "stopSequence")
        || eq_lit(&v, "maxTokens")
}

/// A recognized message role.
pub open spec fn message_role(m: Seq<char>) -> bool {
    m == "user"@
        || m == "assistant"@
}

/// A recognized message role.
pub fn is_valid_message_role(m: &str) -> (r: bool)
    ensures
        r == message_role(m@),
{
    let v = chars_of(m);
    eq_lit(&v, "user")
        || eq_lit(&v, "assistant")
}

/// A recognized content type discriminator.
pub open spec fn content_type(m: Seq<char>) -> bool {
    m == "text"@
        || m == "image"@
        || m == "audio"@
        || m == "resource"@
}

/// A recognized content type discriminator.
pub fn is_valid_content_type(m: &str) -> (r: bool)
    ensures
        r == content_type(m@),
{
    let v = chars_of(m);
    eq_lit(&v, "text")
        || eq_lit(&v, "image")
        || eq_lit(&v, "audio")
        || eq_lit(&v, "resource")
}

/// A recognized content audience value.
pub open spec fn audience_value(m: Seq<char>) -> bool {
    m == "user"@
        || m == "assistant"@
}

/// A recognized content audience value.
pub fn is_valid_audience(m: &str) -> (r: bool)
    ensures
        r == audience_value(m@),
{
    let v = chars_of(m);
    eq_lit(&v, "user")
        || eq_lit(&v, "assistant")
}

/// A recognized completion reference type.
pub open spec fn completion_ref_kind(m: Seq<char>) -> bool {
    m == "ref/prompt"@
        || m == "ref/resource"@
}

/// A recognized completion reference type.
pub fn is_valid_completion_ref_type(m: &str) -> (r: bool)
    ensures
        r == completion_ref_kind(m@),
{
    let v = chars_of(m);
    eq_lit(&v, "ref/prompt")
        || eq_lit(&v, "ref/resource")
}

/// A recognized elicitation property type.
pub open spec fn elicitation_property_type(m: Seq<char>) -> bool {
    m == "string"@
        || m == "number"@
        || m == "integer"@
        || m == "boolean"@
}

/// A recognized elicitation property type.
pub fn is_valid_elicitation_property_type(m: &str) -> (r: bool)
    ensures
        r == elicitation_property_type(m@),
{
    let v = chars_of(m);
    eq_lit(&v, "string")
        || eq_lit(&v, "number")
        || eq_lit(&v, "integer")
        || eq_lit(&v, "boolean")
}

// ─── Protocol versions ──────────────────────────────────────────────────────

/// The latest protocol version.
pub open spec fn latest_protocol_version() -> Seq<char> {
    "2025-03-26"@
}

/// The version the server answers with for a client's requested version.
pub open spec fn negotiated_version(client: Option<Seq<char>>) -> Seq<char> {
    match client {
        Some(v) => if supported_protocol_version(v) { v } else { latest_protocol_version() },
        None => latest_protocol_version(),
    }
}

/// Picks the client's version when supported, else the latest server version.
pub fn negotiate_protocol_version(client_version: Option<&str>) -> (r: &'static str)
    ensures
        r@ == negotiated_version(
            match client_version {
                Some(v) => Some(v@),
                None => None,
            },
        ),
{
    match client_version {
        Some(v) => {
            let c = chars_of(v);
            if eq_lit(&c, "2025-03-26") {
                "2025-03-26"
            } else if eq_lit(&c, "2024-11-05") {
                "2024-11-05"
            } else {
                "2025-03-26"
            }
        },
        None => "2025-03-26",
    }
}

/// `version` with surrounding whitespace removed; `None` when nothing is left.
pub fn normalize_protocol_version(version: &str) -> (r: Option<String>)
    ensures
        match r {
            Some(s) => s@ == trim(version@) && s@.len() > 0,
            None => trim(version@).len() == 0,
        },
{
    let t = trim_str(version);
    if t.as_str().is_empty() {
        None
    } else {
        Some(t)
    }
}

// ─── Method classes ─────────────────────────────────────────────────────────

/// A known method in the `notifications/` namespace.
pub open spec fn mcp_notification_method(m: Seq<char>) -> bool {
    mcp_method(m) && "notifications/"@.is_prefix_of(m)
}

pub fn is_mcp_notification_method(method: &str) -> (r: bool)
    ensures
        r == mcp_notification_method(method@),
{
    is_mcp_method(method) && starts_with(method, "notifications/")
}

/// A known method outside the `notifications/` namespace.
pub fn is_mcp_request_method(method: &str) -> (r: bool)
    ensures
        r == (mcp_method(method@) && !"notifications/"@.is_prefix_of(method@)),
{
    is_mcp_method(method) && !starts_with(method, "notifications/")
}

/// Any method in the `notifications/` namespace.
pub fn is_notification_method(method: &str) -> (r: bool)
    ensures
        r == "notifications/"@.is_prefix_of(method@),
{
    starts_with(method, "notifications/")
}

pub fn is_ping_method(method: &str) -> (r: bool)
    ensures
        r == (method@ == "ping"@),
{
    eq_lit(&chars_of(method), "ping")
}

pub fn is_initialized_notification_method(method: &str) -> (r: bool)
    ensures
        r == (method@ == "notifications/initialized"@),
{
    eq_lit(&chars_of(method), "notifications/initialized")
}

/// A notification that marks the session initialized.
pub fn notification_should_mark_initialized(method: &str) -> (r: bool)
    ensures
        r == (method@ == "notifications/initialized"@),
{
    is_initialized_notification_method(method)
}

pub fn is_cancellation_method(method: &str) -> (r: bool)
    ensures
        r == (method@ == "notifications/cancelled"@),
{
    eq_lit(&chars_of(method), "notifications/cancelled")
}

/// `logging/setLevel`, `notifications/message`, or anything under `logging/`.
pub open spec fn logging_method(m: Seq<char>) -> bool {
    m == "logging/setLevel"@ || m == "notifications/message"@ || "logging/"@.is_prefix_of(m)
}

pub fn is_logging_method(method: &str) -> (r: bool)
    ensures
        r == logging_method(method@),
{
    let v = chars_of(method);
    eq_lit(&v, "logging/setLevel") || eq_lit(&v, "notifications/message") || starts_with(
        method,
        "logging/",
    )
}

/// Same catalog as [`is_handler_request_method`].
pub fn is_core_handler_method(method: &str) -> (r: bool)
    ensures
        r == handler_request_method(method@),
{
    is_handler_request_method(method)
}

/// Same catalog as [`is_server_to_client_method`].
pub fn is_server_to_client_request_method(method: &str) -> (r: bool)
    ensures
        r == server_to_client_method(method@),
{
    is_server_to_client_method(method)
}

/// Coarse domain of a known method.
pub open spec fn method_domain_of(m: Seq<char>) -> Seq<char> {
    if !mcp_method(m) {
        "unknown"@
    } else if lifecycle_method(m) {
        "lifecycle"@
    } else if "resources/"@.is_prefix_of(m) || "notifications/resources/"@.is_prefix_of(m) {
        "resources"@
    } else if "prompts/"@.is_prefix_of(m) || "notifications/prompts/"@.is_prefix_of(m) {
        "prompts"@
    } else if "tools/"@.is_prefix_of(m) || "notifications/tools/"@.is_prefix_of(m) {
        "tools"@
    } else if m == "logging/setLevel"@ || m == "notifications/message"@ {
        "logging"@
    } else if m == "completion/complete"@ {
        "completion"@
    } else if m == "sampling/createMessage"@ {
        "sampling"@
    } else if m == "elicitation/create"@ {
        "elicitation"@
    } else if m == "notifications/progress"@ {
        "progress"@
    } else if m == "notifications/cancelled"@ {
        "cancellation"@
    } else if m == "roots/list"@ || m == "notifications/roots/list_changed"@ {
        "roots"@
    } else {
        "unknown"@
    }
}

/// The domain (`lifecycle`, `resources`, …, or `unknown`) of a method.
pub fn method_domain(method: &str) -> (r: &'static str)
    ensures
        r@ == method_domain_of(method@),
{
    if !is_mcp_method(method) {
        return "unknown";
    }
    if is_lifecycle_method(method) {
        return "lifecycle";
    }
    if starts_with(method, "resources/") || starts_with(method, "notifications/resources/") {
        return "resources";
    }
    if starts_with(method, "prompts/") || starts_with(method, "notifications/prompts/") {
        return "prompts";
    }
    if starts_with(method, "tools/") || starts_with(method, "notifications/tools/") {
        return "tools";
    }
    let v = chars_of(method);
    if eq_lit(&v, "logging/setLevel") || eq_lit(&v, "notifications/message") {
        return "logging";
    }
    if eq_lit(&v, "completion/complete") {
        return "completion";
    }
    if eq_lit(&v, "sampling/createMessage") {
        return "sampling";
    }
    if eq_lit(&v, "elicitation/create") {
        return "elicitation";
    }
    if eq_lit(&v, "notifications/progress") {
        return "progress";
    }
    if eq_lit(&v, "notifications/cancelled") {
        return "cancellation";
    }
    if eq_lit(&v, "roots/list") || eq_lit(&v, "notifications/roots/list_changed") {
        return "roots";
    }
    "unknown"
}

/// Direction of a method.
pub open spec fn method_direction_of(m: Seq<char>) -> Seq<char> {
    if server_to_client_method(m) {
        "server_to_client"@
    } else if mcp_notification_method(m) {
        "notification"@
    } else if client_to_server_request_method(m) {
        "client_to_server"@
    } else {
        "unknown"@
    }
}

/// `client_to_server`, `server_to_client`, `notification` or `unknown`.
pub fn method_direction(method: &str) -> (r: &'static str)
    ensures
        r@ == method_direction_of(method@),
{
    if is_server_to_client_method(method) {
        "server_to_client"
    } else if is_mcp_notification_method(method) {
        "notification"
    } else if is_client_to_server_request_method(method) {
        "client_to_server"
    } else {
        "unknown"
    }
}

// ─── Log levels ─────────────────────────────────────────────────────────────

/// Position of a level in the list from most verbose to most severe, or `-1`.
pub open spec fn log_level_rank(level: Seq<char>) -> int {
    if level == "debug"@ {
        0
    } else if level == "info"@ {
        1
    } else if level == "notice"@ {
        2
    } else if level == "warning"@ {
        3
    } else if level == "error"@ {
        4
    } else if level == "critical"@ {
        5
    } else if level == "alert"@ {
        6
    } else if level == "emergency"@ {
        7
    } else {
        -1
    }
}

/// Index of `level` among the log levels (0 = most verbose).
pub fn log_level_index(level: &str) -> (r: Option<usize>)
    ensures
        match r {
            Some(i) => log_level_rank(level@) == i as int,
            None => log_level_rank(level@) == -1,
        },
{
    let v = chars_of(level);
    if eq_lit(&v, "debug") {
        Some(0)
    } else if eq_lit(&v, "info") {
        Some(1)
    } else if eq_lit(&v, "notice") {
        Some(2)
    } else if eq_lit(&v, "warning") {
        Some(3)
    } else if eq_lit(&v, "error") {
        Some(4)
    } else if eq_lit(&v, "critical") {
        Some(5)
    } else if eq_lit(&v, "alert") {
        Some(6)
    } else if eq_lit(&v, "emergency") {
        Some(7)
    } else {
        None
    }
}

/// `level` is at least as severe as `minimum`; unknown levels give `false`.
pub fn log_level_at_least(level: &str, minimum: &str) -> (r: bool)
    ensures
        r == (log_level_rank(level@) >= 0 && log_level_rank(minimum@) >= 0 && log_level_rank(
            level@,
        ) >= log_level_rank(minimum@)),
{
    match (log_level_index(level), log_level_index(minimum)) {
        (Some(l), Some(m)) => l >= m,
        _ => false,
    }
}

pub fn logging_set_level_accepts(level: &str) -> (r: bool)
    ensures
        r == log_level(level@),
{
    is_valid_log_level(level)
}

pub fn logging_level_valid(level: &str) -> (r: bool)
    ensures
        r == log_level(level@),
{
    is_valid_log_level(level)
}

/// The rank is defined exactly on the recognized levels.
pub proof fn lemma_log_level_rank_known(level: Seq<char>)
    ensures
        (log_level_rank(level) >= 0) == log_level(level),
        log_level_rank(level) < 8,
{
}

// ─── Roles ──────────────────────────────────────────────────────────────────

/// Trimmed, ASCII-lower-cased `role` when it names a known role.
pub open spec fn normalized_role(role: Seq<char>) -> Option<Seq<char>> {
    let r = lower(trim(role));
    if r == "user"@ {
        Some("user"@)
    } else if r == "assistant"@ {
        Some("assistant"@)
    } else {
        None
    }
}

pub fn normalize_message_role(role: &str) -> (r: Option<&'static str>)
    ensures
        match r {
            Some(s) => normalized_role(role@) == Some(s@),
            None => normalized_role(role@) is None,
        },
{
    let t = trim_str(role);
    let l = lower_vec(&chars_of(t.as_str()));
    if eq_lit(&l, "user") {
        Some("user")
    } else if eq_lit(&l, "assistant") {
        Some("assistant")
    } else {
        None
    }
}

// ─── Handler decisions ──────────────────────────────────────────────────────

/// How the dispatcher treats an inbound message.
#[derive(Debug, Clone, Copy, PartialEq, Eq, Structural)]
pub enum DispatchMessageKind {
    Notification,
    Request,
    Other,
}

pub fn dispatch_message_kind(is_notification: bool, is_request: bool) -> (k: DispatchMessageKind)
    ensures
        k == (if is_notification {
            DispatchMessageKind::Notification
        } else if is_request {
            DispatchMessageKind::Request
        } else {
            DispatchMessageKind::Other
        }),
{
    if is_notification {
        DispatchMessageKind::Notification
    } else if is_request {
        DispatchMessageKind::Request
    } else {
        DispatchMessageKind::Other
    }
}

/// Notifications and other non-requests produce no response.
pub fn dispatch_returns_none(is_notification: bool, is_request: bool) -> (r: bool)
    ensures
        r == (is_notification || !is_request),
{
    match dispatch_message_kind(is_notification, is_request) {
        DispatchMessageKind::Request => false,
        _ => true,
    }
}

pub fn dispatch_success_result_present(is_request: bool, handler_ok: bool) -> (r: bool)
    ensures
        r == (is_request && handler_ok),
{
    is_request && handler_ok
}

pub fn tool_context_sampling_available(client_has_sampling_cap: bool, request_fn_present: bool) -> (r: bool)
    ensures
        r == (client_has_sampling_cap && request_fn_present),
{
    client_has_sampling_cap && request_fn_present
}

pub fn tool_context_elicitation_available(client_has_elicitation_cap: bool, request_fn_present: bool) -> (r: bool)
    ensures
        r == (client_has_elicitation_cap && request_fn_present),
{
    client_has_elicitation_cap && request_fn_present
}

pub fn sampling_client_available(client_declared: bool, request_fn_present: bool) -> (r: bool)
    ensures
        r == (client_declared && request_fn_present),
{
    client_declared && request_fn_present
}

pub fn elicitation_client_available(client_declared: bool, request_fn_present: bool) -> (r: bool)
    ensures
        r == (client_declared && request_fn_present),
{
    client_declared && request_fn_present
}

/// Sampling needs a positive token budget.
pub fn sampling_max_tokens_valid(max_tokens: i64) -> (r: bool)
    ensures
        r == (max_tokens > 0),
{
    max_tokens > 0
}

/// The message of a handler failure: the error's own message, or its display form.
pub fn handler_error_message(is_error_instance: bool, message: &str, display: &str) -> (r: String)
    ensures
        r@ == if is_error_instance {
            message@
        } else {
            display@
        },
{
    if is_error_instance {
        owned(message)
    } else {
        owned(display)
    }
}

pub fn unknown_method_error_message(method: &str) -> (r: String)
    ensures
        r@ == "Unknown method: "@ + method@,
{
    concat("Unknown method: ", method)
}

pub fn unknown_prompt_error_message(name: &str) -> (r: String)
    ensures
        r@ == "Unknown prompt: "@ + name@,
{
    concat("Unknown prompt: ", name)
}

pub fn unknown_resource_error_message(uri: &str) -> (r: String)
    ensures
        r@ == "Unknown resource: "@ + uri@,
{
    concat("Unknown resource: ", uri)
}

/// The levels, from most verbose to most severe, are ranked `0` to `7` in
/// the severity order of RFC 5424: debug, info, notice, warning, error,
/// critical, alert, emergency; so one level is at least as severe as another
/// exactly when it comes no earlier in that list.
pub proof fn lemma_log_levels_in_severity_order()
    ensures
        ({
            let levels = seq![
                "debug"@,
                "info"@,
                "notice"@,
                "warning"@,
                "error"@,
                "critical"@,
                "alert"@,
                "emergency"@,
            ];
            &&& forall|i: int| 0 <= i < 8 ==> log_level_rank(#[trigger] levels[i]) == i
            &&& forall|i: int, j: int|
                0 <= i < 8 && 0 <= j < 8 ==> (log_level_rank(#[trigger] levels[i]) >= log_level_rank(
                    #[trigger] levels[j],
                )) == (i >= j)
        }),
{
    reveal_strlit("debug");
    reveal_strlit("info");
    reveal_strlit("notice");
    reveal_strlit("warning");
    reveal_strlit("error");
    reveal_strlit("critical");
    reveal_strlit("alert");
    reveal_strlit("emergency");
    let levels = seq![
        "debug"@,
        "info"@,
        "notice"@,
        "warning"@,
        "error"@,
        "critical"@,
        "alert"@,
        "emergency"@,
    ];
    assert("debug"@[0] == 'd' && "info"@[0] == 'i' && "notice"@[0] == 'n' && "warning"@[0] == 'w');
    assert("error"@[0] == 'e' && "critical"@[0] == 'c' && "alert"@[0] == 'a' && "emergency"@[0] == 'e');
    assert("error"@[1] == 'r' && "emergency"@[1] == 'm');
    assert forall|i: int| 0 <= i < 8 implies log_level_rank(#[trigger] levels[i]) == i by {}
}

/// Characters `0..k` of a text that starts with `p`.
proof fn lemma_prefix_chars(p: Seq<char>, m: Seq<char>, k: int)
    requires
        p.is_prefix_of(m),
        0 <= k < p.len(),
    ensures
        m[k] == p[k],
{
    assert(m.subrange(0, p.len() as int)[k] == m[k]);
}

/// Every known method under `resources/`, `prompts/` or `tools/` (or their
/// `notifications/…/` forms) belongs to that domain.
pub proof fn lemma_method_domains(m: Seq<char>)
    requires
        mcp_method(m),
    ensures
        "resources/"@.is_prefix_of(m) || "notifications/resources/"@.is_prefix_of(m) ==> method_domain_of(m)
            == "resources"@,
        "prompts/"@.is_prefix_of(m) || "notifications/prompts/"@.is_prefix_of(m) ==> method_domain_of(m)
            == "prompts"@,
        "tools/"@.is_prefix_of(m) || "notifications/tools/"@.is_prefix_of(m) ==> method_domain_of(m) == "tools"@,
{
    reveal_strlit("initialize");
    reveal_strlit("notifications/initialized");
    reveal_strlit("ping");
    reveal_strlit("resources/");
    reveal_strlit("notifications/resources/");
    reveal_strlit("prompts/");
    reveal_strlit("notifications/prompts/");
    reveal_strlit("tools/");
    reveal_strlit("notifications/tools/");
    let n = "notifications/initialized"@;
    if "resources/"@.is_prefix_of(m) {
        lemma_prefix_chars("resources/"@, m, 0);
    }
    if "prompts/"@.is_prefix_of(m) {
        lemma_prefix_chars("prompts/"@, m, 0);
        lemma_prefix_chars("prompts/"@, m, 1);
        assert(!lifecycle_method(m)) by {
            assert(m != "ping"@) by {
                if m == "ping"@ {
                    assert("ping"@[1] == 'i');
                }
            }
        }
        assert(!"resources/"@.is_prefix_of(m)) by {
            if "resources/"@.is_prefix_of(m) {
                lemma_prefix_chars("resources/"@, m, 0);
            }
        }
        assert(!"notifications/resources/"@.is_prefix_of(m)) by {
            if "notifications/resources/"@.is_prefix_of(m) {
                lemma_prefix_chars("notifications/resources/"@, m, 0);
            }
        }
    }
    if "notifications/prompts/"@.is_prefix_of(m) {
        lemma_prefix_chars("notifications/prompts/"@, m, 0);
        lemma_prefix_chars("notifications/prompts/"@, m, 14);
        assert(m != n) by {
            if m == n {
                assert(n[14] == 'i');
            }
        }
        assert(!"resources/"@.is_prefix_of(m)) by {
            if "resources/"@.is_prefix_of(m) {
                lemma_prefix_chars("resources/"@, m, 0);
            }
        }
        assert(!"notifications/resources/"@.is_prefix_of(m)) by {
            if "notifications/resources/"@.is_prefix_of(m) {
                lemma_prefix_chars("notifications/resources/"@, m, 14);
            }
        }
    }
    if "tools/"@.is_prefix_of(m) {
        lemma_prefix_chars("tools/"@, m, 0);
        assert(!"resources/"@.is_prefix_of(m)) by {
            if "resources/"@.is_prefix_of(m) {
                lemma_prefix_chars("resources/"@, m, 0);
            }
        }
        assert(!"notifications/resources/"@.is_prefix_of(m)) by {
            if "notifications/resources/"@.is_prefix_of(m) {
                lemma_prefix_chars("notifications/resources/"@, m, 0);
            }
        }
        assert(!"prompts/"@.is_prefix_of(m)) by {
            if "prompts/"@.is_prefix_of(m) {
                lemma_prefix_chars("prompts/"@, m, 0);
            }
        }
        assert(!"notifications/prompts/"@.is_prefix_of(m)) by {
            if "notifications/prompts/"@.is_prefix_of(m) {
                lemma_prefix_chars("notifications/prompts/"@, m, 0);
            }
        }
    }
    if "notifications/tools/"@.is_prefix_of(m) {
        lemma_prefix_chars("notifications/tools/"@, m, 0);
        lemma_prefix_chars("notifications/tools/"@, m, 14);
        assert(m != n) by {
            if m == n {
                assert(n[14] == 'i');
            }
        }
        assert(!"resources/"@.is_prefix_of(m)) by {
            if "resources/"@.is_prefix_of(m) {
                lemma_prefix_chars("resources/"@, m, 0);
            }
        }
        assert(!"notifications/resources/"@.is_prefix_of(m)) by {
            if "notifications/resources/"@.is_prefix_of(m) {
                lemma_prefix_chars("notifications/resources/"@, m, 14);
            }
        }
        assert(!"prompts/"@.is_prefix_of(m)) by {
            if "prompts/"@.is_prefix_of(m) {
                lemma_prefix_chars("prompts/"@, m, 0);
            }
        }
        assert(!"notifications/prompts/"@.is_prefix_of(m)) by {
            if "notifications/prompts/"@.is_prefix_of(m) {
                lemma_prefix_chars("notifications/prompts/"@, m, 14);
            }
        }
    }
}

} // verus!
