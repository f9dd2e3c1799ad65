//! Sampling and elicitation: the requests the server sends to the client and
//! the results it reads back.
use vstd::prelude::*;
use crate::json::{Json, JsonV, array, elems_view, fields_view, jget, member, object};
use crate::jsonrpc::{opt_json, text_of};
use crate::methods::{elicitation_action, elicitation_property_type, is_valid_elicitation_action, is_valid_elicitation_property_type};
use crate::protocol::{Content, content_to_json, content_v, opt_text};
use crate::text::owned;

verus! {

broadcast use vstd::string::group_string_axioms;

/// The roles of sampling messages.
pub const SAMPLING_ROLES: [&'static str; 2] = ["user", "assistant"];

/// The property types an elicitation schema may use.
pub const ELICITATION_PROPERTY_TYPES: [&'static str; 4] = ["string", "number", "integer", "boolean"];

/// `sampling/createMessage`.
pub fn sampling_method() -> (r: &'static str)
    ensures
        r@ == "sampling/createMessage"@,
{
    "sampling/createMessage"
}

/// `elicitation/create`.
pub fn elicitation_method() -> (r: &'static str)
    ensures
        r@ == "elicitation/create"@,
{
    "elicitation/create"
}

/// `accept`, `decline` or `cancel`.
pub fn is_elicitation_action(action: &str) -> (r: bool)
    ensures
        r == elicitation_action(action@),
{
    is_valid_elicitation_action(action)
}

/// `string`, `number`, `integer` or `boolean`.
pub fn is_valid_property_type(t: &str) -> (r: bool)
    ensures
        r == elicitation_property_type(t@),
{
    is_valid_elicitation_property_type(t)
}

// ─── Sampling ───────────────────────────────────────────────────────────────

/// Copies of JSON values.
pub fn clone_values(v: &[Json]) -> (r: Vec<Json>)
    ensures
        elems_view(r@) == elems_view(v@),
{
    let mut out: Vec<Json> = Vec::new();
    let mut i: usize = 0;
    while i < v.len()
        invariant
            i <= v@.len(),
            elems_view(out@) == elems_view(v@).take(i as int),
        decreases v.len() - i,
    {
        let ghost before = out@;
        out.push(v[i].deep_clone());
        assert(elems_view(out@) =~= elems_view(before).push(v@[i as int]@));
        assert(elems_view(v@).take(i + 1) =~= elems_view(v@).take(i as int).push(v@[i as int]@));
        i = i + 1;
    }
    assert(elems_view(v@).take(v@.len() as int) =~= elems_view(v@));
    out
}

/// A member for an optional text.
pub open spec fn opt_text_member(k: Seq<char>, v: Option<Seq<char>>) -> Seq<(Seq<char>, JsonV)> {
    match v {
        Some(t) => seq![(k, JsonV::Str(t))],
        None => Seq::empty(),
    }
}

/// A member for an optional value.
pub open spec fn opt_value_member(k: Seq<char>, v: Option<JsonV>) -> Seq<(Seq<char>, JsonV)> {
    match v {
        Some(x) => seq![(k, x)],
        None => Seq::empty(),
    }
}

/// The model of sampling params.
pub open spec fn sampling_params_v(
    messages: Seq<JsonV>,
    max_tokens: u64,
    system_prompt: Option<Seq<char>>,
    temperature: Option<JsonV>,
    include_context: Option<Seq<char>>,
    model_preferences: Option<JsonV>,
) -> JsonV {
    JsonV::Object(
        seq![("messages"@, JsonV::Array(messages)), ("maxTokens"@, JsonV::Int(max_tokens as int))]
            + opt_text_member("systemPrompt"@, system_prompt) + opt_value_member(
            "temperature"@,
            temperature,
        ) + opt_text_member("includeContext"@, include_context) + opt_value_member(
            "modelPreferences"@,
            model_preferences,
        ),
    )
}

pub fn push_opt_text(v: &mut Vec<(String, Json)>, key: &str, value: Option<String>)
    ensures
        fields_view(final(v)@) == fields_view(old(v)@) + opt_text_member(key@, opt_text(value)),
{
    let ghost before = v@;
    let ghost t = opt_text(value);
    if let Some(x) = value {
        v.push(member(key, Json::str_of(x.as_str())));
    }
    assert(fields_view(v@) =~= fields_view(before) + opt_text_member(key@, t));
}

pub fn push_opt_value(v: &mut Vec<(String, Json)>, key: &str, value: Option<Json>)
    ensures
        fields_view(final(v)@) == fields_view(old(v)@) + opt_value_member(key@, opt_json(value)),
{
    let ghost before = v@;
    let ghost t = opt_json(value);
    if let Some(x) = value {
        v.push(member(key, x));
    }
    assert(fields_view(v@) =~= fields_view(before) + opt_value_member(key@, t));
}

/// `sampling/createMessage` params with the extended options. The
/// temperature is a JSON number, left out when absent.
pub fn build_sampling_params_ext(
    messages: &[Json],
    max_tokens: u64,
    system_prompt: Option<String>,
    temperature: Option<Json>,
    include_context: Option<String>,
    model_preferences: Option<Json>,
) -> (r: Json)
    ensures
        r@ == sampling_params_v(
            elems_view(messages@),
            max_tokens,
            opt_text(system_prompt),
            opt_json(temperature),
            opt_text(include_context),
            opt_json(model_preferences),
        ),
{
    let mut v: Vec<(String, Json)> = Vec::new();
    v.push(member("messages", array(clone_values(messages))));
    v.push(member("maxTokens", Json::Int(max_tokens as i128)));
    assert(fields_view(v@) =~= seq![
        ("messages"@, JsonV::Array(elems_view(messages@))),
        ("maxTokens"@, JsonV::Int(max_tokens as int)),
    ]);
    let ghost sp = opt_text(system_prompt);
    let ghost tp = opt_json(temperature);
    let ghost ic = opt_text(include_context);
    let ghost mp = opt_json(model_preferences);
    push_opt_text(&mut v, "systemPrompt", system_prompt);
    push_opt_value(&mut v, "temperature", temperature);
    push_opt_text(&mut v, "includeContext", include_context);
    push_opt_value(&mut v, "modelPreferences", model_preferences);
    assert(fields_view(v@) =~= sampling_params_v(elems_view(messages@), max_tokens, sp, tp, ic, mp)->Object_0);
    object(v)
}

/// `sampling/createMessage` params.
pub fn build_sampling_params(
    messages: &[Json],
    max_tokens: u64,
    system_prompt: Option<String>,
    temperature: Option<Json>,
) -> (r: Json)
    ensures
        r@ == sampling_params_v(
            elems_view(messages@),
            max_tokens,
            opt_text(system_prompt),
            opt_json(temperature),
            None,
            None,
        ),
{
    build_sampling_params_ext(messages, max_tokens, system_prompt, temperature, None, None)
}

/// The model of a message with a role and a content item.
pub open spec fn role_content_v(role: Seq<char>, content: JsonV) -> JsonV {
    JsonV::Object(seq![("role"@, JsonV::Str(role)), ("content"@, content)])
}

/// A sampling message.
pub fn sampling_message(role: &str, content: &Content) -> (r: Json)
    ensures
        r@ == role_content_v(role@, content_v(*content)),
{
    let mut v: Vec<(String, Json)> = Vec::new();
    v.push(member("role", Json::str_of(role)));
    v.push(member("content", content_to_json(content)));
    assert(fields_view(v@) =~= role_content_v(role@, content_v(*content))->Object_0);
    object(v)
}

/// The model of a text content item without annotations.
pub open spec fn text_content_v(t: Seq<char>) -> JsonV {
    JsonV::Object(seq![("type"@, JsonV::Str("text"@)), ("text"@, JsonV::Str(t))])
}

fn text_message(role: &str, text: &str) -> (r: Json)
    ensures
        r@ == role_content_v(role@, text_content_v(text@)),
{
    let c = Content::text(text);
    proof {
        assert(content_v(c)->Object_0 =~= text_content_v(text@)->Object_0);
    }
    sampling_message(role, &c)
}

/// A user sampling message with text content.
pub fn sampling_user_text(text: &str) -> (r: Json)
    ensures
        r@ == role_content_v("user"@, text_content_v(text@)),
{
    text_message("user", text)
}

/// An assistant sampling message with text content.
pub fn sampling_assistant_text(text: &str) -> (r: Json)
    ensures
        r@ == role_content_v("assistant"@, text_content_v(text@)),
{
    text_message("assistant", text)
}

/// The model of a sampling result.
pub open spec fn sampling_result_v(role: Seq<char>, content: JsonV, model: Seq<char>, stop_reason: Option<Seq<char>>) -> JsonV {
    JsonV::Object(
        seq![("role"@, JsonV::Str(role)), ("content"@, content), ("model"@, JsonV::Str(model))]
            + opt_text_member("stopReason"@, stop_reason),
    )
}

/// A sampling result.
pub fn build_sampling_result(role: &str, content: Content, model: &str, stop_reason: Option<String>) -> (r: Json)
    ensures
        r@ == sampling_result_v(role@, content_v(content), model@, opt_text(stop_reason)),
{
    let mut v: Vec<(String, Json)> = Vec::new();
    v.push(member("role", Json::str_of(role)));
    v.push(member("content", content_to_json(&content)));
    v.push(member("model", Json::str_of(model)));
    let ghost sr = opt_text(stop_reason);
    push_opt_text(&mut v, "stopReason", stop_reason);
    assert(fields_view(v@) =~= sampling_result_v(role@, content_v(content), model@, sr)->Object_0);
    object(v)
}

/// The text of a sampling result whose content is text.
pub open spec fn sampling_text_of(result: JsonV) -> Option<Seq<char>> {
    match jget(result, "content"@) {
        Some(c) => if text_of(jget(c, "type"@)) == Some("text"@) {
            text_of(jget(c, "text"@))
        } else {
            None
        },
        None => None,
    }
}

pub fn sampling_result_text(result: &Json) -> (r: Option<String>)
    ensures
        opt_text(r) == sampling_text_of(result@),
{
    match result.get("content") {
        Some(c) => {
            let is_text = match c.get("type") {
                Some(t) => t.is_str_eq("text"),
                None => false,
            };
            if is_text {
                match c.get("text") {
                    Some(Json::Str(t)) => Some(t.clone()),
                    _ => None,
                }
            } else {
                None
            }
        },
        None => None,
    }
}

/// The model name of a sampling result.
pub fn sampling_result_model(result: &Json) -> (r: Option<String>)
    ensures
        opt_text(r) == text_of(jget(result@, "model"@)),
{
    match result.get("model") {
        Some(Json::Str(m)) => Some(m.clone()),
        _ => None,
    }
}

/// The method and params of a sampling request.
pub struct SamplingCall {
    pub method: String,
    pub params: Json,
}

pub fn sampling_create_message_call(params: Json) -> (r: SamplingCall)
    ensures
        r.method@ == "sampling/createMessage"@,
        r.params == params,
{
    SamplingCall { method: owned(sampling_method()), params }
}

// ─── Elicitation ────────────────────────────────────────────────────────────

/// A flat object schema for elicitation.
pub struct ElicitationSchemaMeta {
    pub schema_type: String,
    pub properties: Json,
    pub required: Option<Vec<String>>,
}

/// The model of an elicitation schema.
pub open spec fn schema_v(s: ElicitationSchemaMeta) -> JsonV {
    JsonV::Object(
        seq![("type"@, JsonV::Str(s.schema_type@)), ("properties"@, s.properties@)] + match s.required {
            Some(r) => seq![("required"@, JsonV::Array(crate::protocol::str_elems(r@)))],
            None => Seq::empty(),
        },
    )
}

impl ElicitationSchemaMeta {
    /// An `object` schema.
    pub fn object(properties: Json, required: Option<Vec<String>>) -> (r: Self)
        ensures
            r.schema_type@ == "object"@,
            r.properties == properties,
            r.required == required,
    {
        ElicitationSchemaMeta { schema_type: owned("object"), properties, required }
    }

    /// The schema as a JSON value.
    pub fn to_value(&self) -> (r: Json)
        ensures
            r@ == schema_v(*self),
    {
        let mut v: Vec<(String, Json)> = Vec::new();
        v.push(member("type", Json::str_of(self.schema_type.as_str())));
        v.push(member("properties", self.properties.deep_clone()));
        if let Some(req) = &self.required {
            v.push(member("required", crate::protocol::str_array(req)));
        }
        assert(fields_view(v@) =~= schema_v(*self)->Object_0);
        object(v)
    }
}

/// The model of elicitation params.
pub open spec fn elicitation_params_v(message: Seq<char>, schema: JsonV) -> JsonV {
    JsonV::Object(seq![("message"@, JsonV::Str(message)), ("requestedSchema"@, schema)])
}

pub fn build_elicitation_params(message: &str, schema: &ElicitationSchemaMeta) -> (r: Json)
    ensures
        r@ == elicitation_params_v(message@, schema_v(*schema)),
{
    let mut v: Vec<(String, Json)> = Vec::new();
    v.push(member("message", Json::str_of(message)));
    v.push(member("requestedSchema", schema.to_value()));
    assert(fields_view(v@) =~= elicitation_params_v(message@, schema_v(*schema))->Object_0);
    object(v)
}

/// The model of an elicitation result.
pub open spec fn elicitation_result_v(action: Seq<char>, content: Option<JsonV>) -> JsonV {
    JsonV::Object(seq![("action"@, JsonV::Str(action))] + opt_value_member("content"@, content))
}

pub fn build_elicitation_result(action: &str, content: Option<Json>) -> (r: Json)
    ensures
        r@ == elicitation_result_v(action@, opt_json(content)),
{
    let mut v: Vec<(String, Json)> = Vec::new();
    v.push(member("action", Json::str_of(action)));
    assert(fields_view(v@) =~= seq![("action"@, JsonV::Str(action@))]);
    let ghost c = opt_json(content);
    push_opt_value(&mut v, "content", content);
    assert(fields_view(v@) =~= elicitation_result_v(action@, c)->Object_0);
    object(v)
}

/// The method and params of an elicitation request.
pub struct ElicitationCall {
    pub method: String,
    pub params: Json,
}

pub fn elicitation_create_call(message: &str, schema: &ElicitationSchemaMeta) -> (r: ElicitationCall)
    ensures
        r.method@ == "elicitation/create"@,
        r.params@ == elicitation_params_v(message@, schema_v(*schema)),
{
    ElicitationCall { method: owned(elicitation_method()), params: build_elicitation_params(message, schema) }
}

/// The action of an elicitation result.
pub fn elicitation_result_action(result: &Json) -> (r: Option<String>)
    ensures
        opt_text(r) == text_of(jget(result@, "action"@)),
{
    match result.get("action") {
        Some(Json::Str(a)) => Some(a.clone()),
        _ => None,
    }
}

/// The content of an accepted elicitation; `None` for other actions.
pub fn elicitation_result_content(result: &Json) -> (r: Option<Json>)
    ensures
        opt_json(r) == if text_of(jget(result@, "action"@)) == Some("accept"@) {
            jget(result@, "content"@)
        } else {
            None
        },
{
    let accepted = match result.get("action") {
        Some(a) => a.is_str_eq("accept"),
        None => false,
    };
    if accepted {
        match result.get("content") {
            Some(c) => Some(c.deep_clone()),
            None => None,
        }
    } else {
        None
    }
}

/// The model of a string property schema.
pub open spec fn string_property_v(description: Option<Seq<char>>) -> JsonV {
    JsonV::Object(seq![("type"@, JsonV::Str("string"@))] + opt_text_member("description"@, description))
}

/// A string property, with an optional description.
pub fn string_property(description: Option<&str>) -> (r: Json)
    ensures
        r@ == string_property_v(crate::http_auth::opt_view(description)),
{
    let mut v: Vec<(String, Json)> = Vec::new();
    v.push(member("type", Json::str_of("string")));
    if let Some(d) = description {
        v.push(member("description", Json::str_of(d)));
    }
    assert(fields_view(v@) =~= string_property_v(crate::http_auth::opt_view(description))->Object_0);
    object(v)
}

} // verus!
