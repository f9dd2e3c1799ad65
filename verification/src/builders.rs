//! Builders for tool, resource and prompt definitions, and their conversion
//! to protocol descriptors.
use vstd::prelude::*;
use crate::json::{Json, JsonV, fields_view, member, object};
use crate::protocol::{
    Content, Prompt, PromptArgument, PromptMessage, Resource, ResourceTemplate, Tool,
    ToolAnnotations, assistant_message, clone_arguments, clone_opt_string, protocol_prompt,
    protocol_resource, protocol_template, protocol_tool, prompt_message, user_message,
};
use crate::template::{extract_params as extract_template_params, extracted_pairs, interp_from, lookup_text, pairs_lookup};
use crate::text::owned;
use crate::textmap::TextMap;

verus! {

broadcast use vstd::string::group_string_axioms;

/// The model of `{"type":"object","properties":{}}`.
pub open spec fn empty_object_schema_v() -> JsonV {
    JsonV::Object(seq![("type"@, JsonV::Str("object"@)), ("properties"@, JsonV::Object(Seq::empty()))])
}

/// The input schema of a tool that declares none.
pub fn empty_object_schema() -> (r: Json)
    ensures
        r@ == empty_object_schema_v(),
{
    let mut v: Vec<(String, Json)> = Vec::new();
    v.push(member("type", Json::str_of("object")));
    v.push(member("properties", Json::empty_object()));
    assert(fields_view(v@) =~= empty_object_schema_v()->Object_0);
    object(v)
}

// ─── Tools ──────────────────────────────────────────────────────────────────

/// A tool definition without its handler.
pub struct ToolDefinitionMeta {
    pub name: Option<String>,
    pub description: Option<String>,
    pub input_schema: Json,
    pub annotations: Option<ToolAnnotations>,
}

impl ToolDefinitionMeta {
    pub fn new() -> (r: Self)
        ensures
            r.name is None,
            r.description is None,
            r.input_schema@ == empty_object_schema_v(),
            r.annotations is None,
    {
        ToolDefinitionMeta { name: None, description: None, input_schema: empty_object_schema(), annotations: None }
    }

    pub fn with_description(self, desc: &str) -> (r: Self)
        ensures
            r.description matches Some(d) && d@ == desc@,
            r.name == self.name,
            r.input_schema == self.input_schema,
            r.annotations == self.annotations,
    {
        ToolDefinitionMeta { description: Some(owned(desc)), ..self }
    }

    pub fn with_input_schema(self, schema: Json) -> (r: Self)
        ensures
            r.input_schema == schema,
            r.name == self.name,
            r.description == self.description,
            r.annotations == self.annotations,
    {
        ToolDefinitionMeta { input_schema: schema, ..self }
    }

    pub fn with_annotations(self, annotations: ToolAnnotations) -> (r: Self)
        ensures
            r.annotations == Some(annotations),
            r.name == self.name,
            r.description == self.description,
            r.input_schema == self.input_schema,
    {
        ToolDefinitionMeta { annotations: Some(annotations), ..self }
    }

    /// The protocol descriptor of this tool under `name`.
    pub fn to_protocol(&self, name: &str) -> (r: Tool)
        ensures
            r.name@ == name@,
            r.title is None,
            r.description == self.description,
            r.input_schema@ == self.input_schema@,
            r.output_schema is None,
            r.annotations == self.annotations,
    {
        let annotations = match &self.annotations {
            Some(a) => Some(a.clone_annotations()),
            None => None,
        };
        protocol_tool(name, clone_opt_string(&self.description), self.input_schema.deep_clone(), annotations)
    }
}

/// Builds a tool definition.
pub struct ToolBuilder {
    pub description: Option<String>,
    pub annotations: Option<ToolAnnotations>,
    pub input_schema: Option<Json>,
}

impl ToolBuilder {
    pub fn new() -> (r: Self)
        ensures
            r.description is None && r.annotations is None && r.input_schema is None,
    {
        ToolBuilder { description: None, annotations: None, input_schema: None }
    }

    pub fn description(self, desc: &str) -> (r: Self)
        ensures
            r.description matches Some(d) && d@ == desc@,
            r.annotations == self.annotations,
            r.input_schema == self.input_schema,
    {
        ToolBuilder { description: Some(owned(desc)), ..self }
    }

    pub fn annotations(self, annotations: ToolAnnotations) -> (r: Self)
        ensures
            r.annotations == Some(annotations),
            r.description == self.description,
            r.input_schema == self.input_schema,
    {
        ToolBuilder { annotations: Some(annotations), ..self }
    }

    pub fn input_schema(self, schema: Json) -> (r: Self)
        ensures
            r.input_schema == Some(schema),
            r.description == self.description,
            r.annotations == self.annotations,
    {
        ToolBuilder { input_schema: Some(schema), ..self }
    }

    /// The definition; without a declared schema the input schema is an empty object schema.
    pub fn finish(self) -> (r: ToolDefinitionMeta)
        ensures
            r.name is None,
            r.description == self.description,
            r.annotations == self.annotations,
            match self.input_schema {
                Some(s) => r.input_schema == s,
                None => r.input_schema@ == empty_object_schema_v(),
            },
    {
        let schema = match self.input_schema {
            Some(s) => s,
            None => empty_object_schema(),
        };
        ToolDefinitionMeta { name: None, description: self.description, input_schema: schema, annotations: self.annotations }
    }
}

/// Starts a tool builder.
pub fn tool() -> (r: ToolBuilder)
    ensures
        r.description is None && r.annotations is None && r.input_schema is None,
{
    ToolBuilder::new()
}

// ─── Resources ──────────────────────────────────────────────────────────────

/// A resource definition without its handler.
pub struct ResourceDefinitionMeta {
    pub uri: String,
    pub description: Option<String>,
    pub mime_type: Option<String>,
}

impl ResourceDefinitionMeta {
    /// The protocol descriptor of this resource under `name`.
    pub fn to_protocol(&self, name: &str) -> (r: Resource)
        ensures
            r.uri@ == self.uri@,
            r.name@ == name@,
            r.description == self.description,
            r.mime_type == self.mime_type,
            r.size is None,
    {
        protocol_resource(name, self.uri.as_str(), clone_opt_string(&self.description), clone_opt_string(&self.mime_type))
    }
}

/// Builds a resource definition; a URI is required.
pub struct ResourceBuilder {
    pub uri: Option<String>,
    pub description: Option<String>,
    pub mime_type: Option<String>,
}

impl ResourceBuilder {
    pub fn new() -> (r: Self)
        ensures
            r.uri is None && r.description is None && r.mime_type is None,
    {
        ResourceBuilder { uri: None, description: None, mime_type: None }
    }

    pub fn uri(self, uri: &str) -> (r: Self)
        ensures
            r.uri matches Some(u) && u@ == uri@,
            r.description == self.description,
            r.mime_type == self.mime_type,
    {
        ResourceBuilder { uri: Some(owned(uri)), ..self }
    }

    pub fn description(self, desc: &str) -> (r: Self)
        ensures
            r.description matches Some(d) && d@ == desc@,
            r.uri == self.uri,
            r.mime_type == self.mime_type,
    {
        ResourceBuilder { description: Some(owned(desc)), ..self }
    }

    pub fn mime_type(self, mime: &str) -> (r: Self)
        ensures
            r.mime_type matches Some(m) && m@ == mime@,
            r.uri == self.uri,
            r.description == self.description,
    {
        ResourceBuilder { mime_type: Some(owned(mime)), ..self }
    }

    /// The definition; `None` when no URI was given.
    pub fn finish(self) -> (r: Option<ResourceDefinitionMeta>)
        ensures
            match self.uri {
                Some(u) => r == Some(
                    ResourceDefinitionMeta { uri: u, description: self.description, mime_type: self.mime_type },
                ),
                None => r is None,
            },
    {
        match self.uri {
            Some(u) => Some(ResourceDefinitionMeta { uri: u, description: self.description, mime_type: self.mime_type }),
            None => None,
        }
    }
}

/// Starts a resource builder.
pub fn resource() -> (r: ResourceBuilder)
    ensures
        r.uri is None && r.description is None && r.mime_type is None,
{
    ResourceBuilder::new()
}

// ─── Resource templates ─────────────────────────────────────────────────────

/// A resource template definition without its handler.
pub struct ResourceTemplateDefinitionMeta {
    pub uri_template: String,
    pub description: Option<String>,
    pub mime_type: Option<String>,
}

impl ResourceTemplateDefinitionMeta {
    /// The protocol descriptor of this template under `name`.
    pub fn to_protocol(&self, name: &str) -> (r: ResourceTemplate)
        ensures
            r.uri_template@ == self.uri_template@,
            r.name@ == name@,
            r.description == self.description,
            r.mime_type == self.mime_type,
    {
        protocol_template(
            name,
            self.uri_template.as_str(),
            clone_opt_string(&self.description),
            clone_opt_string(&self.mime_type),
        )
    }

    /// The placeholder values of `uri` against this template.
    pub fn extract_params(&self, uri: &str) -> (r: Option<TextMap<String>>)
        ensures
            match r {
                Some(m) => {
                    &&& m.wf()
                    &&& extracted_pairs(self.uri_template@, uri@) matches Some(p) && forall|k: Seq<char>|
                        #[trigger] lookup_text(m@, k) == pairs_lookup(p, k)
                },
                None => extracted_pairs(self.uri_template@, uri@) is None,
            },
    {
        extract_template_params(self.uri_template.as_str(), uri)
    }

    /// Does `uri` match this template?
    pub fn matches(&self, uri: &str) -> (r: bool)
        ensures
            r == (extracted_pairs(self.uri_template@, uri@) is Some),
    {
        crate::template::matches_template(self.uri_template.as_str(), uri)
    }
}

/// Builds a resource template definition; a URI template is required.
pub struct ResourceTemplateBuilder {
    pub uri_template: Option<String>,
    pub description: Option<String>,
    pub mime_type: Option<String>,
}

impl ResourceTemplateBuilder {
    pub fn new() -> (r: Self)
        ensures
            r.uri_template is None && r.description is None && r.mime_type is None,
    {
        ResourceTemplateBuilder { uri_template: None, description: None, mime_type: None }
    }

    pub fn uri_template(self, t: &str) -> (r: Self)
        ensures
            r.uri_template matches Some(u) && u@ == t@,
            r.description == self.description,
            r.mime_type == self.mime_type,
    {
        ResourceTemplateBuilder { uri_template: Some(owned(t)), ..self }
    }

    pub fn description(self, desc: &str) -> (r: Self)
        ensures
            r.description matches Some(d) && d@ == desc@,
            r.uri_template == self.uri_template,
            r.mime_type == self.mime_type,
    {
        ResourceTemplateBuilder { description: Some(owned(desc)), ..self }
    }

    pub fn mime_type(self, mime: &str) -> (r: Self)
        ensures
            r.mime_type matches Some(m) && m@ == mime@,
            r.uri_template == self.uri_template,
            r.description == self.description,
    {
        ResourceTemplateBuilder { mime_type: Some(owned(mime)), ..self }
    }

    /// The definition; `None` when no URI template was given.
    pub fn finish(self) -> (r: Option<ResourceTemplateDefinitionMeta>)
        ensures
            match self.uri_template {
                Some(u) => r == Some(
                    ResourceTemplateDefinitionMeta {
                        uri_template: u,
                        description: self.description,
                        mime_type: self.mime_type,
                    },
                ),
                None => r is None,
            },
    {
        match self.uri_template {
            Some(u) => Some(
                ResourceTemplateDefinitionMeta { uri_template: u, description: self.description, mime_type: self.mime_type },
            ),
            None => None,
        }
    }
}

/// Starts a resource template builder.
pub fn resource_template() -> (r: ResourceTemplateBuilder)
    ensures
        r.uri_template is None && r.description is None && r.mime_type is None,
{
    ResourceTemplateBuilder::new()
}

// ─── Prompts ────────────────────────────────────────────────────────────────

/// A prompt definition without its handler.
pub struct PromptDefinitionMeta {
    pub description: Option<String>,
    pub arguments: Vec<PromptArgument>,
}

impl PromptDefinitionMeta {
    /// The protocol descriptor of this prompt under `name`; an empty argument
    /// list is left out.
    pub fn to_protocol(&self, name: &str) -> (r: Prompt)
        ensures
            r.name@ == name@,
            r.title is None,
            r.description == self.description,
            match r.arguments {
                Some(a) => self.arguments@.len() > 0 && a@ == self.arguments@,
                None => self.arguments@.len() == 0,
            },
    {
        let args = if self.arguments.len() == 0 {
            None
        } else {
            Some(clone_arguments(&self.arguments))
        };
        protocol_prompt(name, clone_opt_string(&self.description), args)
    }
}

/// Builds a prompt definition.
pub struct PromptBuilder {
    pub description: Option<String>,
    pub arguments: Vec<PromptArgument>,
}

impl PromptBuilder {
    pub fn new() -> (r: Self)
        ensures
            r.description is None,
            r.arguments@.len() == 0,
    {
        PromptBuilder { description: None, arguments: Vec::new() }
    }

    pub fn description(self, desc: &str) -> (r: Self)
        ensures
            r.description matches Some(d) && d@ == desc@,
            r.arguments == self.arguments,
    {
        PromptBuilder { description: Some(owned(desc)), ..self }
    }

    /// Adds one argument after the others.
    pub fn argument(self, arg: PromptArgument) -> (r: Self)
        ensures
            r.arguments@ == self.arguments@.push(arg),
            r.description == self.description,
    {
        let mut s = self;
        s.arguments.push(arg);
        s
    }

    /// Replaces the arguments.
    pub fn arguments(self, args: Vec<PromptArgument>) -> (r: Self)
        ensures
            r.arguments == args,
            r.description == self.description,
    {
        PromptBuilder { arguments: args, ..self }
    }

    pub fn finish(self) -> (r: PromptDefinitionMeta)
        ensures
            r.description == self.description,
            r.arguments == self.arguments,
    {
        PromptDefinitionMeta { description: self.description, arguments: self.arguments }
    }
}

/// Starts a prompt builder.
pub fn prompt() -> (r: PromptBuilder)
    ensures
        r.description is None,
        r.arguments@.len() == 0,
{
    PromptBuilder::new()
}

/// A prompt argument descriptor.
pub fn prompt_arg(name: &str, description: Option<String>, required: Option<bool>) -> (r: PromptArgument)
    ensures
        r.name@ == name@,
        r.description == description,
        r.required == required,
{
    crate::protocol::prompt_argument(name, description, required)
}

// ─── Content and messages ───────────────────────────────────────────────────

pub fn text(content: &str) -> (r: Content)
    ensures
        r matches Content::Text { text: t, annotations: None } && t@ == content@,
{
    Content::text(content)
}

pub fn image(data: &str, mime_type: &str) -> (r: Content)
    ensures
        r matches Content::Image { data: d, mime_type: m, annotations: None } && d@ == data@ && m@
            == mime_type@,
{
    Content::image(data, mime_type)
}

pub fn audio(data: &str, mime_type: &str) -> (r: Content)
    ensures
        r matches Content::Audio { data: d, mime_type: m, annotations: None } && d@ == data@ && m@
            == mime_type@,
{
    Content::audio(data, mime_type)
}

/// A user prompt message with text content.
pub fn user(text: &str) -> (r: PromptMessage)
    ensures
        r.role@ == "user"@,
        r.content matches Content::Text { text: t, annotations: None } && t@ == text@,
{
    user_message(text)
}

/// An assistant prompt message with text content.
pub fn assistant(text: &str) -> (r: PromptMessage)
    ensures
        r.role@ == "assistant"@,
        r.content matches Content::Text { text: t, annotations: None } && t@ == text@,
{
    assistant_message(text)
}

/// A prompt message with any content.
pub fn message(role: &str, content: Content) -> (r: PromptMessage)
    ensures
        r.role@ == role@,
        r.content == content,
{
    prompt_message(role, content)
}

/// Replaces `{{key}}` placeholders from `args`.
pub fn interpolate_template(template: &str, args: &TextMap<String>) -> (r: String)
    ensures
        r@ == interp_from(template@, 0, args@),
{
    crate::template::interpolate(template, args)
}

// ─── Inventories ────────────────────────────────────────────────────────────

/// Tool descriptors for all definitions, in name order.
pub fn tools_to_protocol(defs: &TextMap<ToolDefinitionMeta>) -> (r: Vec<Tool>)
    ensures
        r@.len() == defs@.len(),
        forall|i: int|
            0 <= i < r@.len() ==> (#[trigger] r@[i]).name@ == defs@[i].0 && r@[i].description
                == defs@[i].1.description && r@[i].input_schema@ == defs@[i].1.input_schema@ && r@[i].title is None
                && r@[i].output_schema is None && r@[i].annotations == defs@[i].1.annotations,
{
    let mut out: Vec<Tool> = Vec::new();
    let mut i: usize = 0;
    while i < defs.len()
        invariant
            i <= defs@.len(),
            out@.len() == i,
            forall|j: int|
                0 <= j < i ==> (#[trigger] out@[j]).name@ == defs@[j].0 && out@[j].description
                    == defs@[j].1.description && out@[j].input_schema@ == defs@[j].1.input_schema@
                    && out@[j].title is None && out@[j].output_schema is None && out@[j].annotations
                    == defs@[j].1.annotations,
        decreases defs@.len() - i,
    {
        out.push(defs.value_at(i).to_protocol(defs.key_at(i).as_str()));
        i = i + 1;
    }
    out
}

/// Resource descriptors for all definitions, in name order.
pub fn resources_to_protocol(defs: &TextMap<ResourceDefinitionMeta>) -> (r: Vec<Resource>)
    ensures
        r@.len() == defs@.len(),
        forall|i: int|
            0 <= i < r@.len() ==> (#[trigger] r@[i]).name@ == defs@[i].0 && r@[i].uri@
                == defs@[i].1.uri@ && r@[i].description == defs@[i].1.description && r@[i].mime_type
                == defs@[i].1.mime_type && r@[i].size is None,
{
    let mut out: Vec<Resource> = Vec::new();
    let mut i: usize = 0;
    while i < defs.len()
        invariant
            i <= defs@.len(),
            out@.len() == i,
            forall|j: int|
                0 <= j < i ==> (#[trigger] out@[j]).name@ == defs@[j].0 && out@[j].uri@
                    == defs@[j].1.uri@ && out@[j].description == defs@[j].1.description
                    && out@[j].mime_type == defs@[j].1.mime_type && out@[j].size is None,
        decreases defs@.len() - i,
    {
        out.push(defs.value_at(i).to_protocol(defs.key_at(i).as_str()));
        i = i + 1;
    }
    out
}

/// Prompt descriptors for all definitions, in name order.
pub fn prompts_to_protocol(defs: &TextMap<PromptDefinitionMeta>) -> (r: Vec<Prompt>)
    ensures
        r@.len() == defs@.len(),
        forall|i: int|
            0 <= i < r@.len() ==> (#[trigger] r@[i]).name@ == defs@[i].0 && r@[i].description
                == defs@[i].1.description && r@[i].title is None && match r@[i].arguments {
                Some(a) => defs@[i].1.arguments@.len() > 0 && a@ == defs@[i].1.arguments@,
                None => defs@[i].1.arguments@.len() == 0,
            },
{
    let mut out: Vec<Prompt> = Vec::new();
    let mut i: usize = 0;
    while i < defs.len()
        invariant
            i <= defs@.len(),
            out@.len() == i,
            forall|j: int|
                0 <= j < i ==> (#[trigger] out@[j]).name@ == defs@[j].0 && out@[j].description
                    == defs@[j].1.description && out@[j].title is None && match out@[j].arguments {
                    Some(a) => defs@[j].1.arguments@.len() > 0 && a@ == defs@[j].1.arguments@,
                    None => defs@[j].1.arguments@.len() == 0,
                },
        decreases defs@.len() - i,
    {
        out.push(defs.value_at(i).to_protocol(defs.key_at(i).as_str()));
        i = i + 1;
    }
    out
}

// ─── Results ────────────────────────────────────────────────────────────────

/// A failed tools/call result carrying `message`.
pub fn tool_err(message: &str) -> (r: Json)
    ensures
        r@ == crate::envelopes::tool_result_v(seq![crate::envelopes::text_item_v(message@)], true, None),
{
    crate::envelopes::tool_error(message)
}

/// A text content item holding the pretty JSON text of `data`.
pub fn json_content(data: &Json) -> (r: Content)
    ensures
        r matches Content::Text { text, annotations: None } && text@ == crate::render::pretty(data@, Seq::empty()),
{
    crate::envelopes::json_text_content(data)
}

/// The tools/call result a handler's value stands for (see
/// [`crate::envelopes::normalize_tool_result`]).
pub fn normalize_result(result: &Json) -> (r: Json)
    ensures
        r@ == crate::envelopes::normalized_v(result@),
{
    crate::envelopes::normalize_tool_result(result)
}

/// A `resources/read` result for one text resource.
pub fn resource_text(uri: &str, body: &str, mime: Option<String>) -> (r: Json)
    ensures
        r@ == crate::envelopes::single_v(
            "contents"@,
            JsonV::Array(seq![crate::envelopes::text_resource_v(uri@, body@, crate::envelopes::mime_or_plain(mime))]),
        ),
{
    crate::envelopes::resource_text_result(uri, body, mime)
}

/// A `resources/read` result for one base64 blob.
pub fn resource_blob_b64(uri: &str, blob: &str, mime: &str) -> (r: Json)
    ensures
        r@ == crate::envelopes::single_v(
            "contents"@,
            JsonV::Array(seq![crate::envelopes::blob_resource_v(uri@, blob@, mime@)]),
        ),
{
    crate::envelopes::resource_blob(uri, blob, mime)
}

/// A `prompts/get` result with an empty description.
pub fn messages(msgs: &[PromptMessage]) -> (r: Json)
    ensures
        r@ == crate::envelopes::prompt_result_v(Seq::empty(), msgs@),
{
    let r = crate::envelopes::prompt_result("", msgs);
    proof {
        reveal_strlit("");
        assert(""@ =~= Seq::<char>::empty());
    }
    r
}

/// A `prompts/get` result with a description.
pub fn prompt_result_with_desc(description: &str, msgs: &[PromptMessage]) -> (r: Json)
    ensures
        r@ == crate::envelopes::prompt_result_v(description@, msgs@),
{
    crate::envelopes::prompt_result(description, msgs)
}

} // verus!
