//! MCP data types: content items, descriptors of tools, resources, prompts
//! and roots, and their constructors.
use vstd::prelude::*;
use crate::json::{Json, JsonV, array, elems_view, fields_view, member, object};
use crate::text::owned;
pub use crate::http_auth::opt_text;

verus! {

broadcast use vstd::string::group_string_axioms;

/// A copy of an optional string.
pub fn clone_opt_string(o: &Option<String>) -> (r: Option<String>)
    ensures
        r == *o,
{
    match o {
        Some(s) => Some(s.clone()),
        None => None,
    }
}

// ─── Content ────────────────────────────────────────────────────────────────

/// Annotations of a content item: who it is for and how important it is
/// (a number from 0 to 1).
pub struct ContentAnnotations {
    pub audience: Option<Vec<String>>,
    pub priority: Option<Json>,
}

/// An embedded resource: a URI with text or a base64 blob.
pub struct EmbeddedResource {
    /// `resource` on items built for resource contents.
    pub kind: Option<String>,
    pub uri: String,
    pub mime_type: Option<String>,
    pub text: Option<String>,
    pub blob: Option<String>,
}

impl EmbeddedResource {
    /// A text item of resource contents; the MIME type defaults to `text/plain`.
    pub fn text_item(uri: &str, text: &str, mime_type: Option<String>) -> (r: Self)
        ensures
            opt_text(r.kind) == Some("resource"@),
            r.uri@ == uri@,
            opt_text(r.mime_type) == match mime_type {
                Some(m) => Some(m@),
                None => Some("text/plain"@),
            },
            opt_text(r.text) == Some(text@),
            r.blob is None,
    {
        let mime = match mime_type {
            Some(m) => Some(m),
            None => Some(owned("text/plain")),
        };
        EmbeddedResource {
            kind: Some(owned("resource")),
            uri: owned(uri),
            mime_type: mime,
            text: Some(owned(text)),
            blob: None,
        }
    }

    /// A base64 blob item of resource contents.
    pub fn blob_item(uri: &str, blob_b64: &str, mime_type: &str) -> (r: Self)
        ensures
            opt_text(r.kind) == Some("resource"@),
            r.uri@ == uri@,
            opt_text(r.mime_type) == Some(mime_type@),
            r.text is None,
            opt_text(r.blob) == Some(blob_b64@),
    {
        EmbeddedResource {
            kind: Some(owned("resource")),
            uri: owned(uri),
            mime_type: Some(owned(mime_type)),
            text: None,
            blob: Some(owned(blob_b64)),
        }
    }
}

/// A resource contents text item (same as [`EmbeddedResource::text_item`]).
pub fn resource_text(uri: &str, text: &str, mime_type: Option<String>) -> (r: EmbeddedResource)
    ensures
        opt_text(r.kind) == Some("resource"@),
        r.uri@ == uri@,
        opt_text(r.mime_type) == match mime_type {
            Some(m) => Some(m@),
            None => Some("text/plain"@),
        },
        opt_text(r.text) == Some(text@),
        r.blob is None,
{
    EmbeddedResource::text_item(uri, text, mime_type)
}

/// A content item of a tool result, prompt message or sampling message.
pub enum Content {
    Text { text: String, annotations: Option<ContentAnnotations> },
    Image { data: String, mime_type: String, annotations: Option<ContentAnnotations> },
    Audio { data: String, mime_type: String, annotations: Option<ContentAnnotations> },
    Resource { resource: EmbeddedResource, annotations: Option<ContentAnnotations> },
}

impl Content {
    /// Text content without annotations.
    pub fn text(text: &str) -> (r: Self)
        ensures
            r matches Content::Text { text: t, annotations: None } && t@ == text@,
    {
        Content::Text { text: owned(text), annotations: None }
    }

    /// Base64 image content without annotations.
    pub fn image(data: &str, mime_type: &str) -> (r: Self)
        ensures
            r matches Content::Image { data: d, mime_type: m, annotations: None } && d@ == data@
                && m@ == mime_type@,
    {
        Content::Image { data: owned(data), mime_type: owned(mime_type), annotations: None }
    }

    /// Base64 audio content without annotations.
    pub fn audio(data: &str, mime_type: &str) -> (r: Self)
        ensures
            r matches Content::Audio { data: d, mime_type: m, annotations: None } && d@ == data@
                && m@ == mime_type@,
    {
        Content::Audio { data: owned(data), mime_type: owned(mime_type), annotations: None }
    }

    pub fn is_text(&self) -> (r: bool)
        ensures
            r == (*self is Text),
    {
        match self {
            Content::Text { .. } => true,
            _ => false,
        }
    }

    pub fn is_image(&self) -> (r: bool)
        ensures
            r == (*self is Image),
    {
        match self {
            Content::Image { .. } => true,
            _ => false,
        }
    }

    pub fn is_audio(&self) -> (r: bool)
        ensures
            r == (*self is Audio),
    {
        match self {
            Content::Audio { .. } => true,
            _ => false,
        }
    }

    pub fn is_resource(&self) -> (r: bool)
        ensures
            r == (*self is Resource),
    {
        match self {
            Content::Resource { .. } => true,
            _ => false,
        }
    }

    /// The same content item carrying `annotations`.
    pub fn with_annotations(self, annotations: ContentAnnotations) -> (r: Self)
        ensures
            r == match self {
                Content::Text { text, .. } => Content::Text { text, annotations: Some(annotations) },
                Content::Image { data, mime_type, .. } => Content::Image {
                    data,
                    mime_type,
                    annotations: Some(annotations),
                },
                Content::Audio { data, mime_type, .. } => Content::Audio {
                    data,
                    mime_type,
                    annotations: Some(annotations),
                },
                Content::Resource { resource, .. } => Content::Resource {
                    resource,
                    annotations: Some(annotations),
                },
            },
    {
        match self {
            Content::Text { text, .. } => Content::Text { text, annotations: Some(annotations) },
            Content::Image { data, mime_type, .. } => Content::Image { data, mime_type, annotations: Some(annotations) },
            Content::Audio { data, mime_type, .. } => Content::Audio { data, mime_type, annotations: Some(annotations) },
            Content::Resource { resource, .. } => Content::Resource { resource, annotations: Some(annotations) },
        }
    }
}

/// Text content (same as [`Content::text`]).
pub fn text_content(text: &str) -> (r: Content)
    ensures
        r matches Content::Text { text: t, annotations: None } && t@ == text@,
{
    Content::text(text)
}

pub fn image_content(data: &str, mime_type: &str) -> (r: Content)
    ensures
        r matches Content::Image { data: d, mime_type: m, annotations: None } && d@ == data@ && m@
            == mime_type@,
{
    Content::image(data, mime_type)
}

pub fn audio_content(data: &str, mime_type: &str) -> (r: Content)
    ensures
        r matches Content::Audio { data: d, mime_type: m, annotations: None } && d@ == data@ && m@
            == mime_type@,
{
    Content::audio(data, mime_type)
}

/// Embedded resource content.
pub fn embedded_resource_content(uri: &str, mime_type: Option<String>, text: Option<String>) -> (r: Content)
    ensures
        r matches Content::Resource { resource: e, annotations: None } && e.kind is None && e.uri@
            == uri@ && e.mime_type == mime_type && e.text == text && e.blob is None,
{
    Content::Resource {
        resource: EmbeddedResource { kind: None, uri: owned(uri), mime_type, text, blob: None },
        annotations: None,
    }
}

/// Resource content wrapping an embedded resource.
pub fn resource_content(resource: EmbeddedResource) -> (r: Content)
    ensures
        r == (Content::Resource { resource, annotations: None }),
{
    Content::Resource { resource, annotations: None }
}

/// The discriminator of a content item.
pub open spec fn content_kind(c: Content) -> Seq<char> {
    match c {
        Content::Text { .. } => "text"@,
        Content::Image { .. } => "image"@,
        Content::Audio { .. } => "audio"@,
        Content::Resource { .. } => "resource"@,
    }
}

pub fn content_type_str(content: &Content) -> (r: &'static str)
    ensures
        r@ == content_kind(*content),
{
    match content {
        Content::Text { .. } => "text",
        Content::Image { .. } => "image",
        Content::Audio { .. } => "audio",
        Content::Resource { .. } => "resource",
    }
}

/// The text of a text item; `None` for other items.
pub fn content_text_body(content: &Content) -> (r: Option<&str>)
    ensures
        match r {
            Some(t) => content matches Content::Text { text, .. } && text@ == t@,
            None => !(*content is Text),
        },
{
    match content {
        Content::Text { text, .. } => Some(text.as_str()),
        _ => None,
    }
}

/// A prompt message: a role and a content item.
pub struct PromptMessage {
    pub role: String,
    pub content: Content,
}

pub fn user_message(text: &str) -> (r: PromptMessage)
    ensures
        r.role@ == "user"@,
        r.content matches Content::Text { text: t, annotations: None } && t@ == text@,
{
    PromptMessage { role: owned("user"), content: Content::text(text) }
}

pub fn assistant_message(text: &str) -> (r: PromptMessage)
    ensures
        r.role@ == "assistant"@,
        r.content matches Content::Text { text: t, annotations: None } && t@ == text@,
{
    PromptMessage { role: owned("assistant"), content: Content::text(text) }
}

pub fn prompt_message(role: &str, content: Content) -> (r: PromptMessage)
    ensures
        r.role@ == role@,
        r.content == content,
{
    PromptMessage { role: owned(role), content }
}

// ─── Wire form of content ───────────────────────────────────────────────────

/// A member for an optional text.
pub open spec fn text_member(k: Seq<char>, v: Option<String>) -> Seq<(Seq<char>, JsonV)> {
    match v {
        Some(t) => seq![(k, JsonV::Str(t@))],
        None => Seq::empty(),
    }
}

/// The texts of strings as JSON strings.
pub open spec fn str_elems(v: Seq<String>) -> Seq<JsonV> {
    Seq::new(v.len(), |i: int| JsonV::Str(v[i]@))
}

/// The wire form of annotations.
pub open spec fn annotations_v(a: ContentAnnotations) -> JsonV {
    JsonV::Object(
        match a.audience {
            Some(v) => seq![("audience"@, JsonV::Array(str_elems(v@)))],
            None => Seq::empty(),
        } + match a.priority {
            Some(p) => seq![("priority"@, p@)],
            None => Seq::empty(),
        },
    )
}

pub open spec fn annotations_member(a: Option<ContentAnnotations>) -> Seq<(Seq<char>, JsonV)> {
    match a {
        Some(x) => seq![("annotations"@, annotations_v(x))],
        None => Seq::empty(),
    }
}

/// The wire form of an embedded resource.
pub open spec fn embedded_v(e: EmbeddedResource) -> JsonV {
    JsonV::Object(
        text_member("type"@, e.kind) + seq![("uri"@, JsonV::Str(e.uri@))] + text_member(
            "mimeType"@,
            e.mime_type,
        ) + text_member("text"@, e.text) + text_member("blob"@, e.blob),
    )
}

/// The wire form of a content item: its `type` first, then its fields.
pub open spec fn content_v(c: Content) -> JsonV {
    match c {
        Content::Text { text, annotations } => JsonV::Object(
            seq![("type"@, JsonV::Str("text"@)), ("text"@, JsonV::Str(text@))] + annotations_member(
                annotations,
            ),
        ),
        Content::Image { data, mime_type, annotations } => JsonV::Object(
            seq![
                ("type"@, JsonV::Str("image"@)),
                ("data"@, JsonV::Str(data@)),
                ("mimeType"@, JsonV::Str(mime_type@)),
            ] + annotations_member(annotations),
        ),
        Content::Audio { data, mime_type, annotations } => JsonV::Object(
            seq![
                ("type"@, JsonV::Str("audio"@)),
                ("data"@, JsonV::Str(data@)),
                ("mimeType"@, JsonV::Str(mime_type@)),
            ] + annotations_member(annotations),
        ),
        Content::Resource { resource, annotations } => JsonV::Object(
            seq![("type"@, JsonV::Str("resource"@)), ("resource"@, embedded_v(resource))]
                + annotations_member(annotations),
        ),
    }
}

fn push_text_member(v: &mut Vec<(String, Json)>, key: &str, value: &Option<String>)
    ensures
        fields_view(final(v)@) == fields_view(old(v)@) + text_member(key@, *value),
{
    let ghost before = v@;
    if let Some(t) = value {
        v.push(member(key, Json::str_of(t.as_str())));
    }
    assert(fields_view(v@) =~= fields_view(before) + text_member(key@, *value));
}

/// JSON strings of a list of texts.
pub fn str_array(v: &Vec<String>) -> (r: Json)
    ensures
        r@ == JsonV::Array(str_elems(v@)),
{
    let mut out: Vec<Json> = Vec::new();
    let mut i: usize = 0;
    while i < v.len()
        invariant
            i <= v.len(),
            elems_view(out@) == str_elems(v@).take(i as int),
        decreases v.len() - i,
    {
        let ghost before = out@;
        out.push(Json::str_of(v[i].as_str()));
        assert(elems_view(out@) =~= elems_view(before).push(JsonV::Str(v@[i as int]@)));
        assert(str_elems(v@).take(i + 1) =~= str_elems(v@).take(i as int).push(JsonV::Str(v@[i as int]@)));
        i = i + 1;
    }
    assert(str_elems(v@).take(v.len() as int) =~= str_elems(v@));
    array(out)
}

pub fn annotations_to_json(a: &ContentAnnotations) -> (r: Json)
    ensures
        r@ == annotations_v(*a),
{
    let mut v: Vec<(String, Json)> = Vec::new();
    if let Some(aud) = &a.audience {
        v.push(member("audience", str_array(aud)));
    }
    let ghost mid = fields_view(v@);
    if let Some(p) = &a.priority {
        v.push(member("priority", p.deep_clone()));
    }
    assert(fields_view(v@) =~= annotations_v(*a)->Object_0);
    object(v)
}

fn push_annotations(v: &mut Vec<(String, Json)>, a: &Option<ContentAnnotations>)
    ensures
        fields_view(final(v)@) == fields_view(old(v)@) + annotations_member(*a),
{
    let ghost before = v@;
    if let Some(x) = a {
        v.push(member("annotations", annotations_to_json(x)));
    }
    assert(fields_view(v@) =~= fields_view(before) + annotations_member(*a));
}

pub fn embedded_to_json(e: &EmbeddedResource) -> (r: Json)
    ensures
        r@ == embedded_v(*e),
{
    let mut v: Vec<(String, Json)> = Vec::new();
    assert(fields_view(v@) =~= Seq::<(Seq<char>, JsonV)>::empty());
    push_text_member(&mut v, "type", &e.kind);
    let ghost a = fields_view(v@);
    v.push(member("uri", Json::str_of(e.uri.as_str())));
    assert(fields_view(v@) =~= a + seq![("uri"@, JsonV::Str(e.uri@))]);
    push_text_member(&mut v, "mimeType", &e.mime_type);
    push_text_member(&mut v, "text", &e.text);
    push_text_member(&mut v, "blob", &e.blob);
    assert(fields_view(v@) =~= embedded_v(*e)->Object_0);
    object(v)
}

/// The wire form of a content item.
pub fn content_to_json(c: &Content) -> (r: Json)
    ensures
        r@ == content_v(*c),
{
    let mut v: Vec<(String, Json)> = Vec::new();
    match c {
        Content::Text { text, annotations } => {
            v.push(member("type", Json::str_of("text")));
            v.push(member("text", Json::str_of(text.as_str())));
            let ghost head = fields_view(v@);
            push_annotations(&mut v, annotations);
        },
        Content::Image { data, mime_type, annotations } => {
            v.push(member("type", Json::str_of("image")));
            v.push(member("data", Json::str_of(data.as_str())));
            v.push(member("mimeType", Json::str_of(mime_type.as_str())));
            push_annotations(&mut v, annotations);
        },
        Content::Audio { data, mime_type, annotations } => {
            v.push(member("type", Json::str_of("audio")));
            v.push(member("data", Json::str_of(data.as_str())));
            v.push(member("mimeType", Json::str_of(mime_type.as_str())));
            push_annotations(&mut v, annotations);
        },
        Content::Resource { resource, annotations } => {
            v.push(member("type", Json::str_of("resource")));
            v.push(member("resource", embedded_to_json(resource)));
            push_annotations(&mut v, annotations);
        },
    }
    assert(fields_view(v@) =~= content_v(*c)->Object_0);
    object(v)
}

// ─── Descriptors ────────────────────────────────────────────────────────────

/// Hints about a tool's behaviour.
pub struct ToolAnnotations {
    pub title: Option<String>,
    pub read_only_hint: Option<bool>,
    pub destructive_hint: Option<bool>,
    pub idempotent_hint: Option<bool>,
    pub open_world_hint: Option<bool>,
}

impl ToolAnnotations {
    pub fn clone_annotations(&self) -> (r: Self)
        ensures
            r == *self,
    {
        ToolAnnotations {
            title: clone_opt_string(&self.title),
            read_only_hint: self.read_only_hint,
            destructive_hint: self.destructive_hint,
            idempotent_hint: self.idempotent_hint,
            open_world_hint: self.open_world_hint,
        }
    }
}

pub fn tool_annotations(
    title: Option<String>,
    read_only_hint: Option<bool>,
    destructive_hint: Option<bool>,
    idempotent_hint: Option<bool>,
    open_world_hint: Option<bool>,
) -> (r: ToolAnnotations)
    ensures
        r == (ToolAnnotations { title, read_only_hint, destructive_hint, idempotent_hint, open_world_hint }),
{
    ToolAnnotations { title, read_only_hint, destructive_hint, idempotent_hint, open_world_hint }
}

/// A tool descriptor for tools/list.
pub struct Tool {
    pub name: String,
    pub title: Option<String>,
    pub description: Option<String>,
    pub input_schema: Json,
    pub output_schema: Option<Json>,
    pub annotations: Option<ToolAnnotations>,
}

pub fn protocol_tool(
    name: &str,
    description: Option<String>,
    input_schema: Json,
    annotations: Option<ToolAnnotations>,
) -> (r: Tool)
    ensures
        r.name@ == name@,
        r.title is None,
        r.description == description,
        r.input_schema == input_schema,
        r.output_schema is None,
        r.annotations == annotations,
{
    Tool { name: owned(name), title: None, description, input_schema, output_schema: None, annotations }
}

/// A resource descriptor for resources/list.
pub struct Resource {
    pub uri: String,
    pub name: String,
    pub description: Option<String>,
    pub mime_type: Option<String>,
    pub size: Option<u64>,
}

pub fn protocol_resource(name: &str, uri: &str, description: Option<String>, mime_type: Option<String>) -> (r: Resource)
    ensures
        r.uri@ == uri@,
        r.name@ == name@,
        r.description == description,
        r.mime_type == mime_type,
        r.size is None,
{
    Resource { uri: owned(uri), name: owned(name), description, mime_type, size: None }
}

/// A resource template descriptor for resources/templates/list.
pub struct ResourceTemplate {
    pub uri_template: String,
    pub name: String,
    pub description: Option<String>,
    pub mime_type: Option<String>,
}

pub fn protocol_template(
    name: &str,
    uri_template: &str,
    description: Option<String>,
    mime_type: Option<String>,
) -> (r: ResourceTemplate)
    ensures
        r.uri_template@ == uri_template@,
        r.name@ == name@,
        r.description == description,
        r.mime_type == mime_type,
{
    ResourceTemplate { uri_template: owned(uri_template), name: owned(name), description, mime_type }
}

/// An argument a prompt takes.
pub struct PromptArgument {
    pub name: String,
    pub description: Option<String>,
    pub required: Option<bool>,
}

impl PromptArgument {
    pub fn clone_argument(&self) -> (r: Self)
        ensures
            r == *self,
    {
        PromptArgument {
            name: self.name.clone(),
            description: clone_opt_string(&self.description),
            required: self.required,
        }
    }
}

/// A copy of a list of prompt arguments.
pub fn clone_arguments(v: &Vec<PromptArgument>) -> (r: Vec<PromptArgument>)
    ensures
        r@ == v@,
{
    let mut out: Vec<PromptArgument> = Vec::new();
    let mut i: usize = 0;
    while i < v.len()
        invariant
            i <= v.len(),
            out@ == v@.take(i as int),
        decreases v.len() - i,
    {
        out.push(v[i].clone_argument());
        i = i + 1;
        assert(v@.take(i as int) =~= v@.take(i - 1).push(v@[i - 1]));
    }
    assert(v@.take(v.len() as int) =~= v@);
    out
}

pub fn prompt_argument(name: &str, description: Option<String>, required: Option<bool>) -> (r: PromptArgument)
    ensures
        r.name@ == name@,
        r.description == description,
        r.required == required,
{
    PromptArgument { name: owned(name), description, required }
}

/// A prompt descriptor for prompts/list.
pub struct Prompt {
    pub name: String,
    pub title: Option<String>,
    pub description: Option<String>,
    pub arguments: Option<Vec<PromptArgument>>,
}

pub fn protocol_prompt(name: &str, description: Option<String>, arguments: Option<Vec<PromptArgument>>) -> (r: Prompt)
    ensures
        r.name@ == name@,
        r.title is None,
        r.description == description,
        r.arguments == arguments,
{
    Prompt { name: owned(name), title: None, description, arguments }
}

/// A root the client exposes.
pub struct Root {
    pub uri: String,
    pub name: Option<String>,
}

pub fn protocol_root(uri: &str, name: Option<String>) -> (r: Root)
    ensures
        r.uri@ == uri@,
        r.name == name,
{
    Root { uri: owned(uri), name }
}

} // verus!
