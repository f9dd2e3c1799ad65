//! Result and params bodies of MCP requests, as JSON values.
//!
//! Each builder's contract gives the exact object it returns, members in the
//! order they are written on the wire.
use vstd::prelude::*;
use crate::clients::{opt_text_member, opt_value_member, push_opt_text, push_opt_value};
use crate::json::{Json, JsonV, array, elems_view, fields_view, member, object};
use crate::jsonrpc::opt_json;
use crate::protocol::{
    Content, EmbeddedResource, Prompt, PromptArgument, PromptMessage, Resource, ResourceTemplate, Root, Tool,
    ToolAnnotations, content_to_json, content_v, embedded_to_json, embedded_v, opt_text,
};
use crate::textmap::TextMap;

verus! {

broadcast use vstd::string::group_string_axioms;

// ─── Small pieces ───────────────────────────────────────────────────────────

/// A member for an optional flag.
pub open spec fn opt_bool_member(k: Seq<char>, v: Option<bool>) -> Seq<(Seq<char>, JsonV)> {
    match v {
        Some(b) => seq![(k, JsonV::Bool(b))],
        None => Seq::empty(),
    }
}

fn push_opt_bool(v: &mut Vec<(String, Json)>, key: &str, value: Option<bool>)
    ensures
        fields_view(final(v)@) == fields_view(old(v)@) + opt_bool_member(key@, value),
{
    let ghost before = v@;
    if let Some(b) = value {
        v.push(member(key, Json::Bool(b)));
    }
    assert(fields_view(v@) =~= fields_view(before) + opt_bool_member(key@, value));
}

/// The model of `{}`.
pub open spec fn empty_v() -> JsonV {
    JsonV::Object(Seq::empty())
}

/// The model of an object with one member.
pub open spec fn single_v(k: Seq<char>, v: JsonV) -> JsonV {
    JsonV::Object(seq![(k, v)])
}

fn single(key: &str, value: Json) -> (r: Json)
    ensures
        r@ == single_v(key@, value@),
{
    let mut v: Vec<(String, Json)> = Vec::new();
    v.push(member(key, value));
    assert(fields_view(v@) =~= single_v(key@, value@)->Object_0);
    object(v)
}

/// The model of a text content item.
pub open spec fn text_item_v(t: Seq<char>) -> JsonV {
    JsonV::Object(seq![("type"@, JsonV::Str("text"@)), ("text"@, JsonV::Str(t))])
}

// ─── Wire form of descriptors ───────────────────────────────────────────────

pub open spec fn tool_annotations_v(a: ToolAnnotations) -> JsonV {
    JsonV::Object(
        opt_text_member("title"@, opt_text(a.title)) + opt_bool_member("readOnlyHint"@, a.read_only_hint)
            + opt_bool_member("destructiveHint"@, a.destructive_hint) + opt_bool_member(
            "idempotentHint"@,
            a.idempotent_hint,
        ) + opt_bool_member("openWorldHint"@, a.open_world_hint),
    )
}

pub fn tool_annotations_to_json(a: &ToolAnnotations) -> (r: Json)
    ensures
        r@ == tool_annotations_v(*a),
{
    let mut v: Vec<(String, Json)> = Vec::new();
    assert(fields_view(v@) =~= Seq::<(Seq<char>, JsonV)>::empty());
    push_opt_text(&mut v, "title", crate::protocol::clone_opt_string(&a.title));
    push_opt_bool(&mut v, "readOnlyHint", a.read_only_hint);
    push_opt_bool(&mut v, "destructiveHint", a.destructive_hint);
    push_opt_bool(&mut v, "idempotentHint", a.idempotent_hint);
    push_opt_bool(&mut v, "openWorldHint", a.open_world_hint);
    assert(fields_view(v@) =~= tool_annotations_v(*a)->Object_0);
    object(v)
}

/// The wire form of a tool: `name`, `title`, `description`, `inputSchema`,
/// `outputSchema`, `annotations`, absent options left out.
pub open spec fn tool_v(t: Tool) -> JsonV {
    JsonV::Object(
        seq![("name"@, JsonV::Str(t.name@))] + opt_text_member("title"@, opt_text(t.title)) + opt_text_member(
            "description"@,
            opt_text(t.description),
        ) + seq![("inputSchema"@, t.input_schema@)] + opt_value_member("outputSchema"@, opt_json(t.output_schema))
            + match t.annotations {
            Some(a) => seq![("annotations"@, tool_annotations_v(a))],
            None => Seq::empty(),
        },
    )
}

pub fn tool_to_json(t: &Tool) -> (r: Json)
    ensures
        r@ == tool_v(*t),
{
    let mut v: Vec<(String, Json)> = Vec::new();
    v.push(member("name", Json::str_of(t.name.as_str())));
    push_opt_text(&mut v, "title", crate::protocol::clone_opt_string(&t.title));
    push_opt_text(&mut v, "description", crate::protocol::clone_opt_string(&t.description));
    let ghost a = fields_view(v@);
    v.push(member("inputSchema", t.input_schema.deep_clone()));
    assert(fields_view(v@) =~= a + seq![("inputSchema"@, t.input_schema@)]);
    let out = match &t.output_schema {
        Some(s) => Some(s.deep_clone()),
        None => None,
    };
    assert(opt_json(out) == opt_json(t.output_schema));
    push_opt_value(&mut v, "outputSchema", out);
    let ghost b = fields_view(v@);
    if let Some(an) = &t.annotations {
        v.push(member("annotations", tool_annotations_to_json(an)));
        assert(fields_view(v@) =~= b + seq![("annotations"@, tool_annotations_v(*an))]);
    } else {
        assert(fields_view(v@) =~= b);
    }
    assert(fields_view(v@) =~= tool_v(*t)->Object_0);
    object(v)
}

/// The wire form of a resource: `uri`, `name`, `description`, `mimeType`, `size`.
pub open spec fn resource_v(r: Resource) -> JsonV {
    JsonV::Object(
        seq![("uri"@, JsonV::Str(r.uri@)), ("name"@, JsonV::Str(r.name@))] + opt_text_member(
            "description"@,
            opt_text(r.description),
        ) + opt_text_member("mimeType"@, opt_text(r.mime_type)) + match r.size {
            Some(n) => seq![("size"@, JsonV::Int(n as int))],
            None => Seq::empty(),
        },
    )
}

pub fn resource_to_json(r: &Resource) -> (j: Json)
    ensures
        j@ == resource_v(*r),
{
    let mut v: Vec<(String, Json)> = Vec::new();
    v.push(member("uri", Json::str_of(r.uri.as_str())));
    v.push(member("name", Json::str_of(r.name.as_str())));
    push_opt_text(&mut v, "description", crate::protocol::clone_opt_string(&r.description));
    push_opt_text(&mut v, "mimeType", crate::protocol::clone_opt_string(&r.mime_type));
    let ghost a = fields_view(v@);
    if let Some(n) = r.size {
        v.push(member("size", Json::Int(n as i128)));
        assert(fields_view(v@) =~= a + seq![("size"@, JsonV::Int(n as int))]);
    } else {
        assert(fields_view(v@) =~= a);
    }
    assert(fields_view(v@) =~= resource_v(*r)->Object_0);
    object(v)
}

/// The wire form of a resource template: `uriTemplate`, `name`, `description`, `mimeType`.
pub open spec fn template_v(t: ResourceTemplate) -> JsonV {
    JsonV::Object(
        seq![("uriTemplate"@, JsonV::Str(t.uri_template@)), ("name"@, JsonV::Str(t.name@))] + opt_text_member(
            "description"@,
            opt_text(t.description),
        ) + opt_text_member("mimeType"@, opt_text(t.mime_type)),
    )
}

pub fn template_to_json(t: &ResourceTemplate) -> (r: Json)
    ensures
        r@ == template_v(*t),
{
    let mut v: Vec<(String, Json)> = Vec::new();
    v.push(member("uriTemplate", Json::str_of(t.uri_template.as_str())));
    v.push(member("name", Json::str_of(t.name.as_str())));
    push_opt_text(&mut v, "description", crate::protocol::clone_opt_string(&t.description));
    push_opt_text(&mut v, "mimeType", crate::protocol::clone_opt_string(&t.mime_type));
    assert(fields_view(v@) =~= template_v(*t)->Object_0);
    object(v)
}

/// The wire form of a prompt argument: `name`, `description`, `required`.
pub open spec fn argument_v(a: PromptArgument) -> JsonV {
    JsonV::Object(
        seq![("name"@, JsonV::Str(a.name@))] + opt_text_member("description"@, opt_text(a.description))
            + opt_bool_member("required"@, a.required),
    )
}

pub fn argument_to_json(a: &PromptArgument) -> (r: Json)
    ensures
        r@ == argument_v(*a),
{
    let mut v: Vec<(String, Json)> = Vec::new();
    v.push(member("name", Json::str_of(a.name.as_str())));
    push_opt_text(&mut v, "description", crate::protocol::clone_opt_string(&a.description));
    push_opt_bool(&mut v, "required", a.required);
    assert(fields_view(v@) =~= argument_v(*a)->Object_0);
    object(v)
}

pub open spec fn arguments_v(args: Seq<PromptArgument>) -> Seq<JsonV> {
    Seq::new(args.len(), |i: int| argument_v(args[i]))
}

/// The wire form of a prompt: `name`, `title`, `description`, `arguments`.
pub open spec fn prompt_v(p: Prompt) -> JsonV {
    JsonV::Object(
        seq![("name"@, JsonV::Str(p.name@))] + opt_text_member("title"@, opt_text(p.title)) + opt_text_member(
            "description"@,
            opt_text(p.description),
        ) + match p.arguments {
            Some(args) => seq![("arguments"@, JsonV::Array(arguments_v(args@)))],
            None => Seq::empty(),
        },
    )
}

fn arguments_to_json(args: &Vec<PromptArgument>) -> (r: Json)
    ensures
        r@ == JsonV::Array(arguments_v(args@)),
{
    let mut out: Vec<Json> = Vec::new();
    let mut i: usize = 0;
    while i < args.len()
        invariant
            i <= args.len(),
            elems_view(out@) == arguments_v(args@).take(i as int),
        decreases args.len() - i,
    {
        let ghost before = out@;
        out.push(argument_to_json(&args[i]));
        assert(elems_view(out@) =~= elems_view(before).push(argument_v(args@[i as int])));
        assert(arguments_v(args@).take(i + 1) =~= arguments_v(args@).take(i as int).push(argument_v(args@[i as int])));
        i = i + 1;
    }
    assert(arguments_v(args@).take(args.len() as int) =~= arguments_v(args@));
    array(out)
}

pub fn prompt_to_json(p: &Prompt) -> (r: Json)
    ensures
        r@ == prompt_v(*p),
{
    let mut v: Vec<(String, Json)> = Vec::new();
    v.push(member("name", Json::str_of(p.name.as_str())));
    push_opt_text(&mut v, "title", crate::protocol::clone_opt_string(&p.title));
    push_opt_text(&mut v, "description", crate::protocol::clone_opt_string(&p.description));
    let ghost a = fields_view(v@);
    if let Some(args) = &p.arguments {
        v.push(member("arguments", arguments_to_json(args)));
        assert(fields_view(v@) =~= a + seq![("arguments"@, JsonV::Array(arguments_v(args@)))]);
    } else {
        assert(fields_view(v@) =~= a);
    }
    assert(fields_view(v@) =~= prompt_v(*p)->Object_0);
    object(v)
}

/// The wire form of a root: `uri`, `name`.
pub open spec fn root_v(r: Root) -> JsonV {
    JsonV::Object(seq![("uri"@, JsonV::Str(r.uri@))] + opt_text_member("name"@, opt_text(r.name)))
}

pub fn root_to_json(r: &Root) -> (j: Json)
    ensures
        j@ == root_v(*r),
{
    let mut v: Vec<(String, Json)> = Vec::new();
    v.push(member("uri", Json::str_of(r.uri.as_str())));
    push_opt_text(&mut v, "name", crate::protocol::clone_opt_string(&r.name));
    assert(fields_view(v@) =~= root_v(*r)->Object_0);
    object(v)
}

/// The wire form of a prompt message: `role`, `content`.
pub open spec fn prompt_message_v(m: PromptMessage) -> JsonV {
    JsonV::Object(seq![("role"@, JsonV::Str(m.role@)), ("content"@, content_v(m.content))])
}

pub fn prompt_message_to_json(m: &PromptMessage) -> (r: Json)
    ensures
        r@ == prompt_message_v(*m),
{
    let mut v: Vec<(String, Json)> = Vec::new();
    v.push(member("role", Json::str_of(m.role.as_str())));
    v.push(member("content", content_to_json(&m.content)));
    assert(fields_view(v@) =~= prompt_message_v(*m)->Object_0);
    object(v)
}

// ─── List results ───────────────────────────────────────────────────────────

pub open spec fn tools_v(tools: Seq<Tool>) -> Seq<JsonV> {
    Seq::new(tools.len(), |i: int| tool_v(tools[i]))
}

/// The model of a list result: the items under `key`, then `nextCursor` when given.
pub open spec fn list_result_v(key: Seq<char>, items: Seq<JsonV>, next_cursor: Option<Seq<char>>) -> JsonV {
    JsonV::Object(seq![(key, JsonV::Array(items))] + opt_text_member("nextCursor"@, next_cursor))
}

fn list_body(key: &str, items: Json, next_cursor: Option<String>) -> (r: Json)
    requires
        items@ is Array,
    ensures
        r@ == list_result_v(key@, items@->Array_0, opt_text(next_cursor)),
{
    let ghost it = items@;
    let mut v: Vec<(String, Json)> = Vec::new();
    v.push(member(key, items));
    assert(fields_view(v@) =~= seq![(key@, it)]);
    let ghost c = opt_text(next_cursor);
    push_opt_text(&mut v, "nextCursor", next_cursor);
    assert(fields_view(v@) =~= list_result_v(key@, it->Array_0, c)->Object_0);
    object(v)
}

/// `tools/list` result: the tools' wire forms, then `nextCursor` when given.
pub fn tools_list_result(tools: &[Tool], next_cursor: Option<String>) -> (r: Json)
    ensures
        r@ == list_result_v("tools"@, tools_v(tools@), opt_text(next_cursor)),
{
    let mut out: Vec<Json> = Vec::new();
    let mut i: usize = 0;
    while i < tools.len()
        invariant
            i <= tools@.len(),
            elems_view(out@) == tools_v(tools@).take(i as int),
        decreases tools.len() - i,
    {
        let ghost before = out@;
        out.push(tool_to_json(&tools[i]));
        assert(elems_view(out@) =~= elems_view(before).push(tool_v(tools@[i as int])));
        assert(tools_v(tools@).take(i + 1) =~= tools_v(tools@).take(i as int).push(tool_v(tools@[i as int])));
        i = i + 1;
    }
    assert(tools_v(tools@).take(tools@.len() as int) =~= tools_v(tools@));
    list_body("tools", array(out), next_cursor)
}

/// `resources/list` result: the given resource objects, then `nextCursor` when given.
pub fn resources_list_result(resources: &[Json], next_cursor: Option<String>) -> (r: Json)
    ensures
        r@ == list_result_v("resources"@, elems_view(resources@), opt_text(next_cursor)),
{
    list_body("resources", array(crate::clients::clone_values(resources)), next_cursor)
}

/// `prompts/list` result: the given prompt objects, then `nextCursor` when given.
pub fn prompts_list_result(prompts: &[Json], next_cursor: Option<String>) -> (r: Json)
    ensures
        r@ == list_result_v("prompts"@, elems_view(prompts@), opt_text(next_cursor)),
{
    list_body("prompts", array(crate::clients::clone_values(prompts)), next_cursor)
}

/// `resources/templates/list` result: the given template objects, then `nextCursor` when given.
pub fn resource_templates_list_result(templates: &[Json], next_cursor: Option<String>) -> (r: Json)
    ensures
        r@ == list_result_v("resourceTemplates"@, elems_view(templates@), opt_text(next_cursor)),
{
    list_body("resourceTemplates", array(crate::clients::clone_values(templates)), next_cursor)
}

/// `roots/list` result: `{"roots": [...]}`.
pub fn roots_list_result(roots: &[Json]) -> (r: Json)
    ensures
        r@ == single_v("roots"@, JsonV::Array(elems_view(roots@))),
{
    single("roots", array(crate::clients::clone_values(roots)))
}

/// `{"tools": []}`.
pub fn empty_tools_list_result() -> (r: Json)
    ensures
        r@ == single_v("tools"@, JsonV::Array(Seq::empty())),
{
    single("tools", Json::empty_array())
}

/// `{"prompts": []}`.
pub fn empty_prompts_list_result() -> (r: Json)
    ensures
        r@ == single_v("prompts"@, JsonV::Array(Seq::empty())),
{
    single("prompts", Json::empty_array())
}

/// `{"resources": []}`.
pub fn empty_resources_list_result() -> (r: Json)
    ensures
        r@ == single_v("resources"@, JsonV::Array(Seq::empty())),
{
    single("resources", Json::empty_array())
}

/// `{"roots": []}`.
pub fn empty_roots_list_result() -> (r: Json)
    ensures
        r@ == single_v("roots"@, JsonV::Array(Seq::empty())),
{
    single("roots", Json::empty_array())
}

/// `{"resourceTemplates": []}`.
pub fn empty_resource_templates_list_result() -> (r: Json)
    ensures
        r@ == single_v("resourceTemplates"@, JsonV::Array(Seq::empty())),
{
    single("resourceTemplates", Json::empty_array())
}

// ─── Empty results ──────────────────────────────────────────────────────────

/// `{}`, the result of `ping`.
pub fn ping_result() -> (r: Json)
    ensures
        r@ == empty_v(),
{
    Json::empty_object()
}

/// `{}`.
pub fn empty_server_capabilities() -> (r: Json)
    ensures
        r@ == empty_v(),
{
    Json::empty_object()
}

/// `{}`.
pub fn empty_client_capabilities() -> (r: Json)
    ensures
        r@ == empty_v(),
{
    Json::empty_object()
}

/// `{}`.
pub fn empty_object_result() -> (r: Json)
    ensures
        r@ == empty_v(),
{
    Json::empty_object()
}

/// `{}`, the result of `logging/setLevel`.
pub fn logging_set_level_result() -> (r: Json)
    ensures
        r@ == empty_v(),
{
    Json::empty_object()
}

/// `{}`, the result of `resources/subscribe` and `resources/unsubscribe`.
pub fn subscription_mutation_result() -> (r: Json)
    ensures
        r@ == empty_v(),
{
    Json::empty_object()
}

/// `{}`.
pub fn wave26_ping_result_empty() -> (r: Json)
    ensures
        r@ == empty_v(),
{
    Json::empty_object()
}

/// `{}`.
pub fn wave27_empty_object_result() -> (r: Json)
    ensures
        r@ == empty_v(),
{
    Json::empty_object()
}

/// `{}`.
pub fn wave29_empty_object() -> (r: Json)
    ensures
        r@ == empty_v(),
{
    Json::empty_object()
}

/// `{}`, the acknowledgement of a notification.
pub fn wave30_notification_ack() -> (r: Json)
    ensures
        r@ == empty_v(),
{
    Json::empty_object()
}

/// `[]`.
pub fn wave28_empty_array() -> (r: Json)
    ensures
        r@ == JsonV::Array(Seq::empty()),
{
    Json::empty_array()
}

/// `[]`, a content list with no items.
pub fn empty_tool_content() -> (r: Json)
    ensures
        r@ == JsonV::Array(Seq::empty()),
{
    Json::empty_array()
}

// ─── tools/call results ─────────────────────────────────────────────────────

pub open spec fn contents_v(content: Seq<Content>) -> Seq<JsonV> {
    Seq::new(content.len(), |i: int| content_v(content[i]))
}

/// The model of a tools/call result: `content`, `isError`, then `structuredContent` when given.
pub open spec fn tool_result_v(content: Seq<JsonV>, is_error: bool, structured: Option<JsonV>) -> JsonV {
    JsonV::Object(
        seq![("content"@, JsonV::Array(content)), ("isError"@, JsonV::Bool(is_error))] + opt_value_member(
            "structuredContent"@,
            structured,
        ),
    )
}

fn contents_to_json(content: &[Content]) -> (r: Json)
    ensures
        r@ == JsonV::Array(contents_v(content@)),
{
    let mut out: Vec<Json> = Vec::new();
    let mut i: usize = 0;
    while i < content.len()
        invariant
            i <= content@.len(),
            elems_view(out@) == contents_v(content@).take(i as int),
        decreases content.len() - i,
    {
        let ghost before = out@;
        out.push(content_to_json(&content[i]));
        assert(elems_view(out@) =~= elems_view(before).push(content_v(content@[i as int])));
        assert(contents_v(content@).take(i + 1) =~= contents_v(content@).take(i as int).push(
            content_v(content@[i as int]),
        ));
        i = i + 1;
    }
    assert(contents_v(content@).take(content@.len() as int) =~= contents_v(content@));
    array(out)
}

fn tool_body(content: Json, is_error: bool, structured: Option<Json>) -> (r: Json)
    requires
        content@ is Array,
    ensures
        r@ == tool_result_v(content@->Array_0, is_error, opt_json(structured)),
{
    let ghost c = content@;
    let mut v: Vec<(String, Json)> = Vec::new();
    v.push(member("content", content));
    v.push(member("isError", Json::Bool(is_error)));
    assert(fields_view(v@) =~= seq![("content"@, c), ("isError"@, JsonV::Bool(is_error))]);
    let ghost s = opt_json(structured);
    push_opt_value(&mut v, "structuredContent", structured);
    assert(fields_view(v@) =~= tool_result_v(c->Array_0, is_error, s)->Object_0);
    object(v)
}

/// A tools/call result with the given content items.
pub fn tool_content_result(content: &[Content], is_error: bool) -> (r: Json)
    ensures
        r@ == tool_result_v(contents_v(content@), is_error, None),
{
    tool_body(contents_to_json(content), is_error, None)
}

/// A tools/call result with content items and, when given, `structuredContent`.
pub fn tool_result_with_structured(content: &[Content], is_error: bool, structured_content: Option<Json>) -> (r: Json)
    ensures
        r@ == tool_result_v(contents_v(content@), is_error, opt_json(structured_content)),
{
    tool_body(contents_to_json(content), is_error, structured_content)
}

/// A successful tools/call result with no content.
pub fn empty_tool_result() -> (r: Json)
    ensures
        r@ == tool_result_v(Seq::empty(), false, None),
{
    tool_body(Json::empty_array(), false, None)
}

/// A tools/call result with one text item.
pub fn tool_text_result(message: &str, is_error: bool) -> (r: Json)
    ensures
        r@ == tool_result_v(seq![text_item_v(message@)], is_error, None),
{
    let c = Content::text(message);
    let mut items: Vec<Json> = Vec::new();
    items.push(content_to_json(&c));
    assert(elems_view(items@) =~= seq![text_item_v(message@)]);
    tool_body(array(items), is_error, None)
}

/// A failed tools/call result carrying `message` as text.
pub fn tool_error(message: &str) -> (r: Json)
    ensures
        r@ == tool_result_v(seq![text_item_v(message@)], true, None),
{
    tool_text_result(message, true)
}

/// A successful tools/call result carrying `text`.
pub fn tool_text_success_result(text: &str) -> (r: Json)
    ensures
        r@ == tool_result_v(seq![text_item_v(text@)], false, None),
{
    tool_text_result(text, false)
}

/// The failed result for a tool that does not exist: `Unknown tool: {name}`.
pub fn unknown_tool_error_result(name: &str) -> (r: Json)
    ensures
        r@ == tool_result_v(seq![text_item_v("Unknown tool: "@ + name@)], true, None),
{
    tool_error(crate::text::concat("Unknown tool: ", name).as_str())
}

/// The failed result for a tool whose handler failed: `Tool error: {error}`,
/// where `error` is the error's display text.
pub fn tool_handler_error_result(error: &str) -> (r: Json)
    ensures
        r@ == tool_result_v(seq![text_item_v("Tool error: "@ + error@)], true, None),
{
    tool_error(crate::text::concat("Tool error: ", error).as_str())
}

/// Is this (the model of) a full tools/call result: an object whose `content` is an array?
pub open spec fn has_content_array(v: JsonV) -> bool {
    v is Object && crate::json::jget(v, "content"@) matches Some(JsonV::Array(_))
}

/// The tools/call result a handler's value stands for: a full result as it
/// is, an array as the content list, anything else as the only content item.
pub open spec fn normalized_v(v: JsonV) -> JsonV {
    if has_content_array(v) {
        v
    } else if v is Array {
        single_v("content"@, v)
    } else {
        single_v("content"@, JsonV::Array(seq![v]))
    }
}

pub fn normalize_tool_result(result: &Json) -> (r: Json)
    ensures
        r@ == normalized_v(result@),
{
    let full = match result.get("content") {
        Some(Json::Array(_)) => true,
        _ => false,
    };
    if result.is_object() && full {
        return result.deep_clone();
    }
    match result {
        Json::Array(_) => single("content", result.deep_clone()),
        _ => {
            let mut items: Vec<Json> = Vec::new();
            items.push(result.deep_clone());
            assert(elems_view(items@) =~= seq![result@]);
            single("content", array(items))
        },
    }
}

// ─── resources/read results ─────────────────────────────────────────────────

pub open spec fn embedded_list_v(items: Seq<EmbeddedResource>) -> Seq<JsonV> {
    Seq::new(items.len(), |i: int| embedded_v(items[i]))
}

/// `resources/read` result: `{"contents": [...]}` with the items' wire forms.
pub fn resources_read_result(items: &[EmbeddedResource]) -> (r: Json)
    ensures
        r@ == single_v("contents"@, JsonV::Array(embedded_list_v(items@))),
{
    let mut out: Vec<Json> = Vec::new();
    let mut i: usize = 0;
    while i < items.len()
        invariant
            i <= items@.len(),
            elems_view(out@) == embedded_list_v(items@).take(i as int),
        decreases items.len() - i,
    {
        let ghost before = out@;
        out.push(embedded_to_json(&items[i]));
        assert(elems_view(out@) =~= elems_view(before).push(embedded_v(items@[i as int])));
        assert(embedded_list_v(items@).take(i + 1) =~= embedded_list_v(items@).take(i as int).push(
            embedded_v(items@[i as int]),
        ));
        i = i + 1;
    }
    assert(embedded_list_v(items@).take(items@.len() as int) =~= embedded_list_v(items@));
    single("contents", array(out))
}

/// The same as [`resources_read_result`].
pub fn resource_contents(items: &[EmbeddedResource]) -> (r: Json)
    ensures
        r@ == single_v("contents"@, JsonV::Array(embedded_list_v(items@))),
{
    resources_read_result(items)
}

/// The wire form of a text item of resource contents.
pub open spec fn text_resource_v(uri: Seq<char>, text: Seq<char>, mime_type: Seq<char>) -> JsonV {
    JsonV::Object(
        seq![
            ("type"@, JsonV::Str("resource"@)),
            ("uri"@, JsonV::Str(uri)),
            ("mimeType"@, JsonV::Str(mime_type)),
            ("text"@, JsonV::Str(text)),
        ],
    )
}

/// The wire form of a base64 blob item of resource contents.
pub open spec fn blob_resource_v(uri: Seq<char>, blob: Seq<char>, mime_type: Seq<char>) -> JsonV {
    JsonV::Object(
        seq![
            ("type"@, JsonV::Str("resource"@)),
            ("uri"@, JsonV::Str(uri)),
            ("mimeType"@, JsonV::Str(mime_type)),
            ("blob"@, JsonV::Str(blob)),
        ],
    )
}

/// The given MIME type, `text/plain` when none is given.
pub open spec fn mime_or_plain(mime_type: Option<String>) -> Seq<char> {
    match mime_type {
        Some(m) => m@,
        None => "text/plain"@,
    }
}

/// `resources/read` result for one text item (`text/plain` unless a MIME type is given).
pub fn resource_text_result(uri: &str, text: &str, mime_type: Option<String>) -> (r: Json)
    ensures
        r@ == single_v(
            "contents"@,
            JsonV::Array(
                seq![
                    text_resource_v(uri@, text@, mime_or_plain(mime_type)),
                ],
            ),
        ),
{
    let mut items: Vec<EmbeddedResource> = Vec::new();
    let ghost m = mime_or_plain(mime_type);
    items.push(EmbeddedResource::text_item(uri, text, mime_type));
    let r = resources_read_result(items.as_slice());
    assert(embedded_v(items@[0])->Object_0 =~= text_resource_v(uri@, text@, m)->Object_0);
    assert(embedded_list_v(items@) =~= seq![text_resource_v(uri@, text@, m)]);
    r
}

/// `resources/read` result for one base64 blob item.
pub fn resource_blob(uri: &str, blob_b64: &str, mime_type: &str) -> (r: Json)
    ensures
        r@ == single_v(
            "contents"@,
            JsonV::Array(seq![blob_resource_v(uri@, blob_b64@, mime_type@)]),
        ),
{
    let mut items: Vec<EmbeddedResource> = Vec::new();
    items.push(EmbeddedResource::blob_item(uri, blob_b64, mime_type));
    let r = resources_read_result(items.as_slice());
    assert(embedded_v(items@[0])->Object_0 =~= blob_resource_v(uri@, blob_b64@, mime_type@)->Object_0);
    assert(embedded_list_v(items@) =~= seq![blob_resource_v(uri@, blob_b64@, mime_type@)]);
    r
}

// ─── completion/complete ────────────────────────────────────────────────────

pub open spec fn str_values_v(values: Seq<String>) -> Seq<JsonV> {
    Seq::new(values.len(), |i: int| JsonV::Str(values[i]@))
}

/// The model of a completion result.
pub open spec fn completion_result_v(values: Seq<String>, total: Option<u64>, has_more: Option<bool>) -> JsonV {
    single_v(
        "completion"@,
        JsonV::Object(
            seq![("values"@, JsonV::Array(str_values_v(values)))] + match total {
                Some(t) => seq![("total"@, JsonV::Int(t as int))],
                None => Seq::empty(),
            } + opt_bool_member("hasMore"@, has_more),
        ),
    )
}

/// `completion/complete` result: `{"completion": {"values", "total"?, "hasMore"?}}`.
pub fn completion_complete_result(values: &[String], total: Option<u64>, has_more: Option<bool>) -> (r: Json)
    ensures
        r@ == completion_result_v(values@, total, has_more),
{
    let mut out: Vec<Json> = Vec::new();
    let mut i: usize = 0;
    while i < values.len()
        invariant
            i <= values@.len(),
            elems_view(out@) == str_values_v(values@).take(i as int),
        decreases values.len() - i,
    {
        let ghost before = out@;
        out.push(Json::str_of(values[i].as_str()));
        assert(elems_view(out@) =~= elems_view(before).push(JsonV::Str(values@[i as int]@)));
        assert(str_values_v(values@).take(i + 1) =~= str_values_v(values@).take(i as int).push(
            JsonV::Str(values@[i as int]@),
        ));
        i = i + 1;
    }
    assert(str_values_v(values@).take(values@.len() as int) =~= str_values_v(values@));
    let mut c: Vec<(String, Json)> = Vec::new();
    c.push(member("values", array(out)));
    let ghost a = fields_view(c@);
    assert(a =~= seq![("values"@, JsonV::Array(str_values_v(values@)))]);
    let ghost tm: Seq<(Seq<char>, JsonV)> = match total {
        Some(t) => seq![("total"@, JsonV::Int(t as int))],
        None => Seq::empty(),
    };
    if let Some(t) = total {
        c.push(member("total", Json::Int(t as i128)));
        assert(fields_view(c@) =~= a + tm);
    } else {
        assert(fields_view(c@) =~= a + tm);
    }
    push_opt_bool(&mut c, "hasMore", has_more);
    let body = object(c);
    assert(fields_view(c@) =~= a + tm + opt_bool_member("hasMore"@, has_more));
    assert(body@ == completion_result_v(values@, total, has_more)->Object_0[0].1);
    single("completion", body)
}

/// A completion result with `hasMore: false` and no total.
pub fn basic_completion_result(values: &[String]) -> (r: Json)
    ensures
        r@ == completion_result_v(values@, None, Some(false)),
{
    completion_complete_result(values, None, Some(false))
}

// ─── Request params ─────────────────────────────────────────────────────────

/// The model of `{"name": …, "version": …}`.
pub open spec fn implementation_v(name: Seq<char>, version: Seq<char>) -> JsonV {
    JsonV::Object(seq![("name"@, JsonV::Str(name)), ("version"@, JsonV::Str(version))])
}

/// An implementation's name and version.
pub fn implementation_info(name: &str, version: &str) -> (r: Json)
    ensures
        r@ == implementation_v(name@, version@),
{
    let mut v: Vec<(String, Json)> = Vec::new();
    v.push(member("name", Json::str_of(name)));
    v.push(member("version", Json::str_of(version)));
    assert(fields_view(v@) =~= implementation_v(name@, version@)->Object_0);
    object(v)
}

/// The model of client capabilities.
pub open spec fn client_capabilities_v(roots_list_changed: Option<bool>, sampling: bool, elicitation: bool) -> JsonV {
    JsonV::Object(
        match roots_list_changed {
            Some(b) => seq![("roots"@, single_v("listChanged"@, JsonV::Bool(b)))],
            None => Seq::empty(),
        } + if sampling {
            seq![("sampling"@, empty_v())]
        } else {
            Seq::empty()
        } + if elicitation {
            seq![("elicitation"@, empty_v())]
        } else {
            Seq::empty()
        },
    )
}

/// Client capabilities: `roots` with `listChanged` when given, and empty
/// `sampling` / `elicitation` objects when set.
pub fn client_capabilities(roots_list_changed: Option<bool>, sampling: bool, elicitation: bool) -> (r: Json)
    ensures
        r@ == client_capabilities_v(roots_list_changed, sampling, elicitation),
{
    let mut v: Vec<(String, Json)> = Vec::new();
    let ghost s0 = fields_view(v@);
    if let Some(b) = roots_list_changed {
        v.push(member("roots", single("listChanged", Json::Bool(b))));
    }
    let ghost s1 = fields_view(v@);
    assert(s1 =~= match roots_list_changed {
        Some(b) => seq![("roots"@, single_v("listChanged"@, JsonV::Bool(b)))],
        None => Seq::<(Seq<char>, JsonV)>::empty(),
    });
    if sampling {
        v.push(member("sampling", Json::empty_object()));
    }
    let ghost s2 = fields_view(v@);
    assert(s2 =~= s1 + if sampling {
        seq![("sampling"@, empty_v())]
    } else {
        Seq::<(Seq<char>, JsonV)>::empty()
    });
    if elicitation {
        v.push(member("elicitation", Json::empty_object()));
    }
    assert(fields_view(v@) =~= client_capabilities_v(roots_list_changed, sampling, elicitation)->Object_0);
    object(v)
}

/// The model of `initialize` params.
pub open spec fn initialize_params_v(
    protocol_version: Seq<char>,
    client_name: Seq<char>,
    client_version: Seq<char>,
    capabilities: JsonV,
) -> JsonV {
    JsonV::Object(
        seq![
            ("protocolVersion"@, JsonV::Str(protocol_version)),
            ("capabilities"@, capabilities),
            ("clientInfo"@, implementation_v(client_name, client_version)),
        ],
    )
}

/// `initialize` params: protocol version, capabilities and client info.
pub fn initialize_params(protocol_version: &str, client_name: &str, client_version: &str, capabilities: Json) -> (r: Json)
    ensures
        r@ == initialize_params_v(protocol_version@, client_name@, client_version@, capabilities@),
{
    let ghost c = capabilities@;
    let mut v: Vec<(String, Json)> = Vec::new();
    v.push(member("protocolVersion", Json::str_of(protocol_version)));
    v.push(member("capabilities", capabilities));
    v.push(member("clientInfo", implementation_info(client_name, client_version)));
    assert(fields_view(v@) =~= initialize_params_v(protocol_version@, client_name@, client_version@, c)->Object_0);
    object(v)
}

/// List params: `{"cursor": …}` when a cursor is given, else `{}`.
pub fn list_params(cursor: Option<String>) -> (r: Json)
    ensures
        r@ == JsonV::Object(opt_text_member("cursor"@, opt_text(cursor))),
{
    let mut v: Vec<(String, Json)> = Vec::new();
    assert(fields_view(v@) =~= Seq::<(Seq<char>, JsonV)>::empty());
    let ghost c = opt_text(cursor);
    push_opt_text(&mut v, "cursor", cursor);
    assert(fields_view(v@) =~= opt_text_member("cursor"@, c));
    object(v)
}

/// The model of `tools/call` params.
pub open spec fn tools_call_params_v(name: Seq<char>, arguments: Option<JsonV>, progress_token: Option<JsonV>) -> JsonV {
    JsonV::Object(
        seq![("name"@, JsonV::Str(name))] + opt_value_member("arguments"@, arguments) + match progress_token {
            Some(t) => seq![("_meta"@, single_v("progressToken"@, t))],
            None => Seq::empty(),
        },
    )
}

/// `tools/call` params with `_meta.progressToken` when a token is given.
pub fn tools_call_params_with_progress(name: &str, arguments: Option<Json>, progress_token: Option<Json>) -> (r: Json)
    ensures
        r@ == tools_call_params_v(name@, opt_json(arguments), opt_json(progress_token)),
{
    let ghost a = opt_json(arguments);
    let ghost t = opt_json(progress_token);
    let mut v: Vec<(String, Json)> = Vec::new();
    v.push(member("name", Json::str_of(name)));
    push_opt_value(&mut v, "arguments", arguments);
    let ghost b = fields_view(v@);
    if let Some(tok) = progress_token {
        v.push(member("_meta", single("progressToken", tok)));
        assert(fields_view(v@) =~= b + seq![("_meta"@, single_v("progressToken"@, t->Some_0))]);
    } else {
        assert(fields_view(v@) =~= b);
    }
    assert(fields_view(v@) =~= tools_call_params_v(name@, a, t)->Object_0);
    object(v)
}

/// `tools/call` params: the tool's name and its arguments when given.
pub fn tools_call_params(name: &str, arguments: Option<Json>) -> (r: Json)
    ensures
        r@ == tools_call_params_v(name@, opt_json(arguments), None),
{
    tools_call_params_with_progress(name, arguments, None)
}

/// `{"uri": …}`.
fn uri_params(uri: &str) -> (r: Json)
    ensures
        r@ == single_v("uri"@, JsonV::Str(uri@)),
{
    single("uri", Json::str_of(uri))
}

/// `resources/read` params.
pub fn resources_read_params(uri: &str) -> (r: Json)
    ensures
        r@ == single_v("uri"@, JsonV::Str(uri@)),
{
    uri_params(uri)
}

/// `resources/subscribe` params.
pub fn resources_subscribe_params(uri: &str) -> (r: Json)
    ensures
        r@ == single_v("uri"@, JsonV::Str(uri@)),
{
    uri_params(uri)
}

/// `resources/unsubscribe` params.
pub fn resources_unsubscribe_params(uri: &str) -> (r: Json)
    ensures
        r@ == single_v("uri"@, JsonV::Str(uri@)),
{
    uri_params(uri)
}

/// An object of string members, in the map's key order.
pub open spec fn string_map_v(m: Seq<(Seq<char>, String)>) -> JsonV {
    JsonV::Object(Seq::new(m.len(), |i: int| (m[i].0, JsonV::Str(m[i].1@))))
}

fn string_map_to_json(m: &TextMap<String>) -> (r: Json)
    requires
        m.wf(),
    ensures
        r@ == string_map_v(m@),
{
    let mut v: Vec<(String, Json)> = Vec::new();
    let mut i: usize = 0;
    while i < m.len()
        invariant
            m.wf(),
            i <= m@.len(),
            fields_view(v@) == string_map_v(m@)->Object_0.take(i as int),
        decreases m@.len() - i,
    {
        let ghost before = fields_view(v@);
        let k = m.key_at(i);
        let val = m.value_at(i);
        v.push((k.clone(), Json::str_of(val.as_str())));
        assert(fields_view(v@) =~= before.push((m@[i as int].0, JsonV::Str(m@[i as int].1@))));
        assert(string_map_v(m@)->Object_0.take(i + 1) =~= string_map_v(m@)->Object_0.take(i as int).push(
            (m@[i as int].0, JsonV::Str(m@[i as int].1@)),
        ));
        i = i + 1;
    }
    assert(string_map_v(m@)->Object_0.take(m@.len() as int) =~= string_map_v(m@)->Object_0);
    object(v)
}

/// The model of `prompts/get` params.
pub open spec fn prompts_get_params_v(name: Seq<char>, arguments: Option<Seq<(Seq<char>, String)>>) -> JsonV {
    JsonV::Object(
        seq![("name"@, JsonV::Str(name))] + match arguments {
            Some(m) => seq![("arguments"@, string_map_v(m))],
            None => Seq::empty(),
        },
    )
}

/// `prompts/get` params: the prompt's name and, when given, its arguments as
/// string members in key order.
pub fn prompts_get_params(name: &str, arguments: Option<TextMap<String>>) -> (r: Json)
    requires
        arguments matches Some(m) ==> m.wf(),
    ensures
        r@ == prompts_get_params_v(
            name@,
            match arguments {
                Some(m) => Some(m@),
                None => None,
            },
        ),
{
    let mut v: Vec<(String, Json)> = Vec::new();
    v.push(member("name", Json::str_of(name)));
    let ghost a = fields_view(v@);
    assert(a =~= seq![("name"@, JsonV::Str(name@))]);
    match &arguments {
        Some(m) => {
            v.push(member("arguments", string_map_to_json(m)));
            assert(fields_view(v@) =~= a + seq![("arguments"@, string_map_v(m@))]);
            assert(fields_view(v@) =~= prompts_get_params_v(name@, Some(m@))->Object_0);
        },
        None => {
            assert(fields_view(v@) =~= prompts_get_params_v(name@, None)->Object_0);
        },
    }
    object(v)
}

/// `logging/setLevel` params.
pub fn logging_set_level_params(level: &str) -> (r: Json)
    ensures
        r@ == single_v("level"@, JsonV::Str(level@)),
{
    single("level", Json::str_of(level))
}

/// The model of a completion reference.
pub open spec fn completion_ref_v(ref_type: Seq<char>, name: Option<Seq<char>>, uri: Option<Seq<char>>) -> JsonV {
    JsonV::Object(
        seq![("type"@, JsonV::Str(ref_type))] + opt_text_member("name"@, name) + opt_text_member("uri"@, uri),
    )
}

/// A completion reference: its type, then `name` and `uri` when given.
pub fn completion_ref(ref_type: &str, name: Option<String>, uri: Option<String>) -> (r: Json)
    ensures
        r@ == completion_ref_v(ref_type@, opt_text(name), opt_text(uri)),
{
    let ghost n = opt_text(name);
    let ghost u = opt_text(uri);
    let mut v: Vec<(String, Json)> = Vec::new();
    v.push(member("type", Json::str_of(ref_type)));
    push_opt_text(&mut v, "name", name);
    push_opt_text(&mut v, "uri", uri);
    assert(fields_view(v@) =~= completion_ref_v(ref_type@, n, u)->Object_0);
    object(v)
}

/// A completion argument: `{"name": …, "value": …}`.
pub fn completion_argument(name: &str, value: &str) -> (r: Json)
    ensures
        r@ == JsonV::Object(seq![("name"@, JsonV::Str(name@)), ("value"@, JsonV::Str(value@))]),
{
    let mut v: Vec<(String, Json)> = Vec::new();
    v.push(member("name", Json::str_of(name)));
    v.push(member("value", Json::str_of(value)));
    assert(fields_view(v@) =~= seq![("name"@, JsonV::Str(name@)), ("value"@, JsonV::Str(value@))]);
    object(v)
}

/// `completion/complete` params: the reference and the argument.
pub fn completion_complete_params(
    ref_type: &str,
    ref_name: Option<String>,
    ref_uri: Option<String>,
    argument_name: &str,
    argument_value: &str,
) -> (r: Json)
    ensures
        r@ == JsonV::Object(
            seq![
                ("ref"@, completion_ref_v(ref_type@, opt_text(ref_name), opt_text(ref_uri))),
                (
                    "argument"@,
                    JsonV::Object(
                        seq![("name"@, JsonV::Str(argument_name@)), ("value"@, JsonV::Str(argument_value@))],
                    ),
                ),
            ],
        ),
{
    let ghost n = opt_text(ref_name);
    let ghost u = opt_text(ref_uri);
    let mut v: Vec<(String, Json)> = Vec::new();
    v.push(member("ref", completion_ref(ref_type, ref_name, ref_uri)));
    v.push(member("argument", completion_argument(argument_name, argument_value)));
    assert(fields_view(v@) =~= seq![
        ("ref"@, completion_ref_v(ref_type@, n, u)),
        (
            "argument"@,
            JsonV::Object(seq![("name"@, JsonV::Str(argument_name@)), ("value"@, JsonV::Str(argument_value@))]),
        ),
    ]);
    object(v)
}

/// The model of progress params.
pub open spec fn progress_params_v(token: JsonV, progress: JsonV, total: Option<JsonV>, message: Option<Seq<char>>) -> JsonV {
    JsonV::Object(
        seq![("progressToken"@, token), ("progress"@, progress)] + opt_value_member("total"@, total)
            + opt_text_member("message"@, message),
    )
}

/// Progress params: token, progress, then `total` and `message` when given.
/// The numbers are JSON numbers.
pub fn progress_params(progress_token: Json, progress: Json, total: Option<Json>, message: Option<String>) -> (r: Json)
    ensures
        r@ == progress_params_v(progress_token@, progress@, opt_json(total), opt_text(message)),
{
    let ghost a = (progress_token@, progress@, opt_json(total), opt_text(message));
    let mut v: Vec<(String, Json)> = Vec::new();
    v.push(member("progressToken", progress_token));
    v.push(member("progress", progress));
    push_opt_value(&mut v, "total", total);
    push_opt_text(&mut v, "message", message);
    assert(fields_view(v@) =~= progress_params_v(a.0, a.1, a.2, a.3)->Object_0);
    object(v)
}

/// The params of a progress notification (same shape as [`progress_params`]).
pub fn progress_notification_params(
    progress_token: Json,
    progress: Json,
    total: Option<Json>,
    message: Option<String>,
) -> (r: Json)
    ensures
        r@ == progress_params_v(progress_token@, progress@, opt_json(total), opt_text(message)),
{
    progress_params(progress_token, progress, total, message)
}

/// The params of a log notification: `level`, `data`, then `logger` when given.
pub fn log_notification_params(level: &str, data: Json, logger: Option<String>) -> (r: Json)
    ensures
        r@ == JsonV::Object(
            seq![("level"@, JsonV::Str(level@)), ("data"@, data@)] + opt_text_member("logger"@, opt_text(logger)),
        ),
{
    let ghost d = data@;
    let ghost l = opt_text(logger);
    let mut v: Vec<(String, Json)> = Vec::new();
    v.push(member("level", Json::str_of(level)));
    v.push(member("data", data));
    push_opt_text(&mut v, "logger", logger);
    assert(fields_view(v@) =~= seq![("level"@, JsonV::Str(level@)), ("data"@, d)] + opt_text_member("logger"@, l));
    object(v)
}

/// A log entry: `level`, then `logger` and `data` when given.
pub fn log_entry(level: &str, data: Option<Json>, logger: Option<String>) -> (r: Json)
    ensures
        r@ == JsonV::Object(
            seq![("level"@, JsonV::Str(level@))] + opt_text_member("logger"@, opt_text(logger)) + opt_value_member(
                "data"@,
                opt_json(data),
            ),
        ),
{
    let ghost d = opt_json(data);
    let ghost l = opt_text(logger);
    let mut v: Vec<(String, Json)> = Vec::new();
    v.push(member("level", Json::str_of(level)));
    push_opt_text(&mut v, "logger", logger);
    push_opt_value(&mut v, "data", data);
    assert(fields_view(v@) =~= seq![("level"@, JsonV::Str(level@))] + opt_text_member("logger"@, l)
        + opt_value_member("data"@, d));
    object(v)
}

/// `notifications/cancelled` params: `requestId`, then `reason` when given.
pub fn cancelled_params(request_id: Json, reason: Option<String>) -> (r: Json)
    ensures
        r@ == JsonV::Object(seq![("requestId"@, request_id@)] + opt_text_member("reason"@, opt_text(reason))),
{
    let ghost id = request_id@;
    let ghost t = opt_text(reason);
    let mut v: Vec<(String, Json)> = Vec::new();
    v.push(member("requestId", request_id));
    push_opt_text(&mut v, "reason", reason);
    assert(fields_view(v@) =~= seq![("requestId"@, id)] + opt_text_member("reason"@, t));
    object(v)
}

/// `notifications/cancelled` params; an empty reason is left out.
pub fn cancellation_params(request_id: Json, reason: Option<&str>) -> (r: Json)
    ensures
        r@ == JsonV::Object(
            seq![("requestId"@, request_id@)] + match reason {
                Some(t) => if t@.len() > 0 {
                    seq![("reason"@, JsonV::Str(t@))]
                } else {
                    Seq::empty()
                },
                None => Seq::empty(),
            },
        ),
{
    let kept = match reason {
        Some(t) => if t.is_empty() {
            None
        } else {
            Some(crate::text::owned(t))
        },
        None => None,
    };
    cancelled_params(request_id, kept)
}

/// `{"progressToken": …}`.
pub fn meta_with_progress_token(progress_token: Json) -> (r: Json)
    ensures
        r@ == single_v("progressToken"@, progress_token@),
{
    single("progressToken", progress_token)
}

/// A model hint: `{"name": …}` when a name is given, else `{}`.
pub fn model_hint(name: Option<String>) -> (r: Json)
    ensures
        r@ == JsonV::Object(opt_text_member("name"@, opt_text(name))),
{
    let ghost n = opt_text(name);
    let mut v: Vec<(String, Json)> = Vec::new();
    assert(fields_view(v@) =~= Seq::<(Seq<char>, JsonV)>::empty());
    push_opt_text(&mut v, "name", name);
    object(v)
}

/// The model of model preferences.
pub open spec fn model_preferences_v(
    cost: Option<JsonV>,
    speed: Option<JsonV>,
    intelligence: Option<JsonV>,
    hints: Option<Seq<JsonV>>,
) -> JsonV {
    JsonV::Object(
        match hints {
            Some(h) => seq![("hints"@, JsonV::Array(h))],
            None => Seq::empty(),
        } + opt_value_member("costPriority"@, cost) + opt_value_member("speedPriority"@, speed) + opt_value_member(
            "intelligencePriority"@,
            intelligence,
        ),
    )
}

/// Model preferences: `hints`, `costPriority`, `speedPriority`,
/// `intelligencePriority`, each when given. The priorities are JSON numbers.
pub fn model_preferences(
    cost_priority: Option<Json>,
    speed_priority: Option<Json>,
    intelligence_priority: Option<Json>,
    hints: Option<&[Json]>,
) -> (r: Json)
    ensures
        r@ == model_preferences_v(
            opt_json(cost_priority),
            opt_json(speed_priority),
            opt_json(intelligence_priority),
            match hints {
                Some(h) => Some(elems_view(h@)),
                None => None,
            },
        ),
{
    let ghost c = opt_json(cost_priority);
    let ghost s = opt_json(speed_priority);
    let ghost i = opt_json(intelligence_priority);
    let mut v: Vec<(String, Json)> = Vec::new();
    let ghost hm: Seq<(Seq<char>, JsonV)> = match hints {
        Some(h) => seq![("hints"@, JsonV::Array(elems_view(h@)))],
        None => Seq::empty(),
    };
    match hints {
        Some(h) => {
            v.push(member("hints", array(crate::clients::clone_values(h))));
            assert(fields_view(v@) =~= hm);
        },
        None => {
            assert(fields_view(v@) =~= hm);
        },
    }
    push_opt_value(&mut v, "costPriority", cost_priority);
    push_opt_value(&mut v, "speedPriority", speed_priority);
    push_opt_value(&mut v, "intelligencePriority", intelligence_priority);
    assert(fields_view(v@) =~= hm + opt_value_member("costPriority"@, c) + opt_value_member("speedPriority"@, s)
        + opt_value_member("intelligencePriority"@, i));
    object(v)
}

/// Content annotations with the given audience and priority.
pub fn content_annotations(audience: Option<Vec<String>>, priority: Option<Json>) -> (r: crate::protocol::ContentAnnotations)
    ensures
        r.audience == audience,
        r.priority == priority,
{
    crate::protocol::ContentAnnotations { audience, priority }
}

// ─── Sampling and elicitation ───────────────────────────────────────────────

/// `sampling/createMessage` params (see [`crate::clients::build_sampling_params`]).
pub fn sampling_create_params(
    messages: &[Json],
    max_tokens: u64,
    system_prompt: Option<String>,
    temperature: Option<Json>,
) -> (r: Json)
    ensures
        r@ == crate::clients::sampling_params_v(
            elems_view(messages@),
            max_tokens,
            opt_text(system_prompt),
            opt_json(temperature),
            None,
            None,
        ),
{
    crate::clients::build_sampling_params(messages, max_tokens, system_prompt, temperature)
}

/// `sampling/createMessage` params with the extended options (see
/// [`crate::clients::build_sampling_params_ext`]).
pub fn sampling_create_params_ext(
    messages: &[Json],
    max_tokens: u64,
    system_prompt: Option<String>,
    temperature: Option<Json>,
    include_context: Option<String>,
    model_prefs: Option<Json>,
) -> (r: Json)
    ensures
        r@ == crate::clients::sampling_params_v(
            elems_view(messages@),
            max_tokens,
            opt_text(system_prompt),
            opt_json(temperature),
            opt_text(include_context),
            opt_json(model_prefs),
        ),
{
    crate::clients::build_sampling_params_ext(messages, max_tokens, system_prompt, temperature, include_context, model_prefs)
}

/// `sampling/createMessage` result.
pub fn sampling_create_result(role: &str, content: Content, model: &str, stop_reason: Option<String>) -> (r: Json)
    ensures
        r@ == crate::clients::sampling_result_v(role@, content_v(content), model@, opt_text(stop_reason)),
{
    crate::clients::build_sampling_result(role, content, model, stop_reason)
}

/// `elicitation/create` params: the message and the requested schema.
pub fn elicitation_create_params(message: &str, requested_schema: Json) -> (r: Json)
    ensures
        r@ == JsonV::Object(seq![("message"@, JsonV::Str(message@)), ("requestedSchema"@, requested_schema@)]),
{
    let ghost s = requested_schema@;
    let mut v: Vec<(String, Json)> = Vec::new();
    v.push(member("message", Json::str_of(message)));
    v.push(member("requestedSchema", requested_schema));
    assert(fields_view(v@) =~= seq![("message"@, JsonV::Str(message@)), ("requestedSchema"@, s)]);
    object(v)
}

/// `elicitation/create` result: the action, then `content` when given.
pub fn elicitation_create_result(action: &str, content: Option<Json>) -> (r: Json)
    ensures
        r@ == crate::clients::elicitation_result_v(action@, opt_json(content)),
{
    crate::clients::build_elicitation_result(action, content)
}

// ─── Prompt results ─────────────────────────────────────────────────────────

pub open spec fn messages_v(msgs: Seq<PromptMessage>) -> Seq<JsonV> {
    Seq::new(msgs.len(), |i: int| prompt_message_v(msgs[i]))
}

fn messages_to_json(msgs: &[PromptMessage]) -> (r: Json)
    ensures
        r@ == JsonV::Array(messages_v(msgs@)),
{
    let mut out: Vec<Json> = Vec::new();
    let mut i: usize = 0;
    while i < msgs.len()
        invariant
            i <= msgs@.len(),
            elems_view(out@) == messages_v(msgs@).take(i as int),
        decreases msgs.len() - i,
    {
        let ghost before = out@;
        out.push(prompt_message_to_json(&msgs[i]));
        assert(elems_view(out@) =~= elems_view(before).push(prompt_message_v(msgs@[i as int])));
        assert(messages_v(msgs@).take(i + 1) =~= messages_v(msgs@).take(i as int).push(
            prompt_message_v(msgs@[i as int]),
        ));
        i = i + 1;
    }
    assert(messages_v(msgs@).take(msgs@.len() as int) =~= messages_v(msgs@));
    array(out)
}

/// `{"messages": [...]}` with the messages' wire forms.
pub fn prompt_messages(msgs: &[PromptMessage]) -> (r: Json)
    ensures
        r@ == single_v("messages"@, JsonV::Array(messages_v(msgs@))),
{
    single("messages", messages_to_json(msgs))
}

/// The model of a `prompts/get` result.
pub open spec fn prompt_result_v(description: Seq<char>, msgs: Seq<PromptMessage>) -> JsonV {
    JsonV::Object(
        seq![("description"@, JsonV::Str(description)), ("messages"@, JsonV::Array(messages_v(msgs)))],
    )
}

/// `prompts/get` result: the description and the messages.
pub fn prompt_result(description: &str, msgs: &[PromptMessage]) -> (r: Json)
    ensures
        r@ == prompt_result_v(description@, msgs@),
{
    let mut v: Vec<(String, Json)> = Vec::new();
    v.push(member("description", Json::str_of(description)));
    v.push(member("messages", messages_to_json(msgs)));
    assert(fields_view(v@) =~= prompt_result_v(description@, msgs@)->Object_0);
    object(v)
}

// ─── JSON as text content ───────────────────────────────────────────────────

/// A text content item holding the pretty JSON text of `value`.
pub fn json_text_content(value: &Json) -> (r: Content)
    ensures
        r matches Content::Text { text, annotations: None } && text@ == crate::render::pretty(value@, Seq::empty()),
{
    Content::text(crate::render::to_pretty_text(value).as_str())
}

/// A text content item holding the pretty JSON text of `value`.
pub fn json_text_pretty(value: &Json) -> (r: Content)
    ensures
        r matches Content::Text { text, annotations: None } && text@ == crate::render::pretty(value@, Seq::empty()),
{
    json_text_content(value)
}


/// Normalizing a tools/call result twice gives what normalizing once gives.
pub proof fn lemma_normalize_idempotent(v: JsonV)
    ensures
        normalized_v(normalized_v(v)) == normalized_v(v),
{
    reveal_with_fuel(crate::json::member_pos, 2);
    let n = normalized_v(v);
    if !has_content_array(v) {
        assert(n->Object_0 =~= seq![("content"@, n->Object_0[0].1)]);
        assert(crate::json::jget(n, "content"@) == Some(n->Object_0[0].1));
    }
}

} // verus!
