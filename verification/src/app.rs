//! Application state: identity, inventories of tools, resources and prompts,
//! and the capabilities derived from them.
use vstd::prelude::*;
use crate::builders::{
    PromptDefinitionMeta, ResourceDefinitionMeta, ResourceTemplateDefinitionMeta,
    ToolDefinitionMeta, empty_object_schema_v, prompt, prompt_arg, resource, resource_template, tool};
use crate::json::{Json, JsonV, fields_view, jget, member, object};
use crate::http_auth::opt_text;
use crate::methods::eq_lit;
use crate::text::{chars_of, owned};
use crate::textmap::{TextMap, lookup};

verus! {

broadcast use vstd::string::group_string_axioms;

/// Server name used when none is configured.
pub const DEFAULT_SERVER_NAME: &'static str = "mcp-server";

/// Server version used when none is configured.
pub const DEFAULT_SERVER_VERSION: &'static str = "1.0.0";

/// How capabilities are advertised.
#[derive(Debug, Clone, Copy, PartialEq, Eq, Structural)]
pub enum CapabilityStyle {
    /// Empty capability objects; resources advertise `subscribe` only.
    McpApp,
    /// `listChanged` flags; resources advertise `subscribe` and `listChanged`.
    LegacyCreateServer,
}

impl Default for CapabilityStyle {
    fn default() -> (r: Self)
        ensures
            r == CapabilityStyle::McpApp,
    {
        CapabilityStyle::McpApp
    }
}

/// How many tools, resources, resource templates and prompts an app has.
#[derive(Debug, Clone, Copy, PartialEq, Eq, Structural)]
pub struct InventoryCounts {
    pub tools: usize,
    pub resources: usize,
    pub resource_templates: usize,
    pub prompts: usize,
}

impl InventoryCounts {
    /// Are there resources or resource templates?
    pub fn has_resources_surface(self) -> (r: bool)
        ensures
            r == (self.resources > 0 || self.resource_templates > 0),
    {
        self.resources > 0 || self.resource_templates > 0
    }
}

// ─── Capabilities ───────────────────────────────────────────────────────────

/// One member when `cond` holds, none otherwise.
pub open spec fn opt_member(cond: bool, k: Seq<char>, v: JsonV) -> Seq<(Seq<char>, JsonV)> {
    if cond {
        seq![(k, v)]
    } else {
        Seq::empty()
    }
}

/// `{"listChanged": b}` for a present flag.
pub open spec fn flag_object(k: Seq<char>, b: Option<bool>) -> Seq<(Seq<char>, JsonV)> {
    match b {
        Some(x) => seq![(k, JsonV::Bool(x))],
        None => Seq::empty(),
    }
}

/// The model of a server capabilities object.
pub open spec fn server_caps_v(
    tools_list_changed: Option<bool>,
    resources_subscribe: Option<bool>,
    resources_list_changed: Option<bool>,
    prompts_list_changed: Option<bool>,
    logging: bool,
    completions: bool,
) -> JsonV {
    JsonV::Object(
        opt_member(
            tools_list_changed is Some,
            "tools"@,
            JsonV::Object(flag_object("listChanged"@, tools_list_changed)),
        ) + opt_member(
            resources_subscribe is Some || resources_list_changed is Some,
            "resources"@,
            JsonV::Object(
                flag_object("subscribe"@, resources_subscribe) + flag_object(
                    "listChanged"@,
                    resources_list_changed,
                ),
            ),
        ) + opt_member(
            prompts_list_changed is Some,
            "prompts"@,
            JsonV::Object(flag_object("listChanged"@, prompts_list_changed)),
        ) + opt_member(logging, "logging"@, JsonV::Object(Seq::empty())) + opt_member(
            completions,
            "completions"@,
            JsonV::Object(Seq::empty()),
        ),
    )
}

fn push_flag(v: &mut Vec<(String, Json)>, key: &str, b: Option<bool>)
    ensures
        fields_view(final(v)@) == fields_view(old(v)@) + flag_object(key@, b),
{
    let ghost before = v@;
    match b {
        Some(x) => {
            v.push(member(key, Json::Bool(x)));
            assert(fields_view(v@) =~= fields_view(before) + flag_object(key@, b));
        },
        None => {
            assert(fields_view(v@) =~= fields_view(before) + flag_object(key@, b));
        },
    }
}

fn push_member_if(v: &mut Vec<(String, Json)>, cond: bool, key: &str, value: Json)
    ensures
        fields_view(final(v)@) == fields_view(old(v)@) + opt_member(cond, key@, value@),
{
    let ghost before = v@;
    if cond {
        v.push(member(key, value));
    }
    assert(fields_view(v@) =~= fields_view(before) + opt_member(cond, key@, value@));
}

/// A server capabilities object with the given flags.
pub fn server_capabilities(
    tools_list_changed: Option<bool>,
    resources_subscribe: Option<bool>,
    resources_list_changed: Option<bool>,
    prompts_list_changed: Option<bool>,
    logging: bool,
    completions: bool,
) -> (r: Json)
    ensures
        r@ == server_caps_v(
            tools_list_changed,
            resources_subscribe,
            resources_list_changed,
            prompts_list_changed,
            logging,
            completions,
        ),
{
    let mut v: Vec<(String, Json)> = Vec::new();
    assert(fields_view(v@) =~= Seq::<(Seq<char>, JsonV)>::empty());
    let mut t: Vec<(String, Json)> = Vec::new();
    assert(fields_view(t@) =~= Seq::<(Seq<char>, JsonV)>::empty());
    push_flag(&mut t, "listChanged", tools_list_changed);
    let t_obj = object(t);
    assert(t_obj@ == JsonV::Object(flag_object("listChanged"@, tools_list_changed))) by {
        assert(Seq::<(Seq<char>, JsonV)>::empty() + flag_object("listChanged"@, tools_list_changed)
            =~= flag_object("listChanged"@, tools_list_changed));
    }
    push_member_if(&mut v, tools_list_changed.is_some(), "tools", t_obj);
    let mut res: Vec<(String, Json)> = Vec::new();
    assert(fields_view(res@) =~= Seq::<(Seq<char>, JsonV)>::empty());
    push_flag(&mut res, "subscribe", resources_subscribe);
    push_flag(&mut res, "listChanged", resources_list_changed);
    let res_obj = object(res);
    assert(res_obj@ == JsonV::Object(
        flag_object("subscribe"@, resources_subscribe) + flag_object("listChanged"@, resources_list_changed),
    )) by {
        assert(Seq::<(Seq<char>, JsonV)>::empty() + flag_object("subscribe"@, resources_subscribe)
            =~= flag_object("subscribe"@, resources_subscribe));
    }
    push_member_if(
        &mut v,
        resources_subscribe.is_some() || resources_list_changed.is_some(),
        "resources",
        res_obj,
    );
    let mut p: Vec<(String, Json)> = Vec::new();
    assert(fields_view(p@) =~= Seq::<(Seq<char>, JsonV)>::empty());
    push_flag(&mut p, "listChanged", prompts_list_changed);
    let p_obj = object(p);
    assert(p_obj@ == JsonV::Object(flag_object("listChanged"@, prompts_list_changed))) by {
        assert(Seq::<(Seq<char>, JsonV)>::empty() + flag_object("listChanged"@, prompts_list_changed)
            =~= flag_object("listChanged"@, prompts_list_changed));
    }
    push_member_if(&mut v, prompts_list_changed.is_some(), "prompts", p_obj);
    push_member_if(&mut v, logging, "logging", Json::empty_object());
    push_member_if(&mut v, completions, "completions", Json::empty_object());
    assert(fields_view(v@) =~= server_caps_v(
        tools_list_changed,
        resources_subscribe,
        resources_list_changed,
        prompts_list_changed,
        logging,
        completions,
    )->Object_0);
    object(v)
}

/// The model of the capabilities an app advertises for its inventory.
pub open spec fn caps_for(counts: InventoryCounts, style: CapabilityStyle) -> JsonV {
    let surface = counts.resources > 0 || counts.resource_templates > 0;
    match style {
        CapabilityStyle::McpApp => JsonV::Object(
            opt_member(counts.tools > 0, "tools"@, JsonV::Object(Seq::empty())) + opt_member(
                surface,
                "resources"@,
                JsonV::Object(seq![("subscribe"@, JsonV::Bool(true))]),
            ) + opt_member(counts.prompts > 0, "prompts"@, JsonV::Object(Seq::empty())) + opt_member(
                true,
                "logging"@,
                JsonV::Object(Seq::empty()),
            ) + opt_member(true, "completions"@, JsonV::Object(Seq::empty())),
        ),
        CapabilityStyle::LegacyCreateServer => server_caps_v(
            if counts.tools > 0 { Some(true) } else { None },
            if surface { Some(true) } else { None },
            if surface { Some(true) } else { None },
            if counts.prompts > 0 { Some(true) } else { None },
            true,
            true,
        ),
    }
}

/// Capabilities of an app built with `McpApp` style.
pub fn mcp_app_capabilities(counts: InventoryCounts) -> (r: Json)
    ensures
        r@ == caps_for(counts, CapabilityStyle::McpApp),
{
    let mut v: Vec<(String, Json)> = Vec::new();
    assert(fields_view(v@) =~= Seq::<(Seq<char>, JsonV)>::empty());
    push_member_if(&mut v, counts.tools > 0, "tools", Json::empty_object());
    let mut sub: Vec<(String, Json)> = Vec::new();
    sub.push(member("subscribe", Json::Bool(true)));
    assert(fields_view(sub@) =~= seq![("subscribe"@, JsonV::Bool(true))]);
    let sub_obj = object(sub);
    assert(sub_obj@ == JsonV::Object(seq![("subscribe"@, JsonV::Bool(true))]));
    push_member_if(&mut v, counts.has_resources_surface(), "resources", sub_obj);
    push_member_if(&mut v, counts.prompts > 0, "prompts", Json::empty_object());
    push_member_if(&mut v, true, "logging", Json::empty_object());
    push_member_if(&mut v, true, "completions", Json::empty_object());
    assert(fields_view(v@) =~= caps_for(counts, CapabilityStyle::McpApp)->Object_0);
    object(v)
}

/// Capabilities for an inventory in the given style.
pub fn capabilities_from_inventory(counts: InventoryCounts, style: CapabilityStyle) -> (r: Json)
    ensures
        r@ == caps_for(counts, style),
{
    match style {
        CapabilityStyle::McpApp => mcp_app_capabilities(counts),
        CapabilityStyle::LegacyCreateServer => {
            let surface = counts.has_resources_surface();
            server_capabilities(
                if counts.tools > 0 { Some(true) } else { None },
                if surface { Some(true) } else { None },
                if surface { Some(true) } else { None },
                if counts.prompts > 0 { Some(true) } else { None },
                true,
                true,
            )
        },
    }
}

proof fn lemma_jget_present(f: Seq<(Seq<char>, JsonV)>, k: Seq<char>, i: int)
    requires
        0 <= i < f.len(),
        f[i].0 == k,
    ensures
        jget(JsonV::Object(f), k) is Some,
{
    crate::json::lemma_member_pos(f, k);
}

proof fn lemma_jget_absent(f: Seq<(Seq<char>, JsonV)>, k: Seq<char>)
    requires
        forall|j: int| 0 <= j < f.len() ==> f[j].0 != k,
    ensures
        jget(JsonV::Object(f), k) is None,
{
    crate::json::lemma_member_pos(f, k);
}

/// In every style, tools are advertised exactly when the app has tools,
/// resources exactly when it has resources or resource templates, and
/// prompts exactly when it has prompts; in `McpApp` style resources
/// advertise `{"subscribe": true}`.
pub proof fn lemma_caps_follow_inventory(counts: InventoryCounts, style: CapabilityStyle)
    ensures
        (jget(caps_for(counts, style), "tools"@) is Some) == (counts.tools > 0),
        (jget(caps_for(counts, style), "resources"@) is Some) == (counts.resources > 0
            || counts.resource_templates > 0),
        (jget(caps_for(counts, style), "prompts"@) is Some) == (counts.prompts > 0),
        style == CapabilityStyle::McpApp && (counts.resources > 0 || counts.resource_templates > 0) ==> jget(
            caps_for(counts, style),
            "resources"@,
        ) == Some(JsonV::Object(seq![("subscribe"@, JsonV::Bool(true))])),
{
    reveal_strlit("tools");
    reveal_strlit("resources");
    reveal_strlit("prompts");
    reveal_strlit("logging");
    reveal_strlit("completions");
    assert("tools"@.len() == 5 && "resources"@.len() == 9 && "prompts"@.len() == 7);
    assert("logging"@.len() == 7 && "completions"@.len() == 11);
    assert("prompts"@[0] != "logging"@[0]);
    let e = JsonV::Object(Seq::<(Seq<char>, JsonV)>::empty());
    let surface = counts.resources > 0 || counts.resource_templates > 0;
    let sub = JsonV::Object(seq![("subscribe"@, JsonV::Bool(true))]);
    let (a, b, c) = match style {
        CapabilityStyle::McpApp => (
            opt_member(counts.tools > 0, "tools"@, e),
            opt_member(surface, "resources"@, sub),
            opt_member(counts.prompts > 0, "prompts"@, e),
        ),
        CapabilityStyle::LegacyCreateServer => (
            opt_member(counts.tools > 0, "tools"@, JsonV::Object(flag_object("listChanged"@, if counts.tools > 0 { Some(true) } else { None }))),
            opt_member(
                surface,
                "resources"@,
                JsonV::Object(
                    flag_object("subscribe"@, if surface { Some(true) } else { None }) + flag_object(
                        "listChanged"@,
                        if surface { Some(true) } else { None },
                    ),
                ),
            ),
            opt_member(counts.prompts > 0, "prompts"@, JsonV::Object(flag_object("listChanged"@, if counts.prompts > 0 { Some(true) } else { None }))),
        ),
    };
    let f = caps_for(counts, style)->Object_0;
    assert(f =~= a + b + c + seq![("logging"@, e), ("completions"@, e)]);
    let abc = a + b + c;
    assert forall|j: int| 0 <= j < f.len() implies (j < a.len() ==> f[j].0 == "tools"@) && (a.len() <= j < a.len()
        + b.len() ==> f[j].0 == "resources"@) && (a.len() + b.len() <= j < abc.len() ==> f[j].0 == "prompts"@) && (
    j >= abc.len() ==> (f[j].0 == "logging"@ || f[j].0 == "completions"@)) by {
        if j < abc.len() {
            assert(f[j] == abc[j]);
            if j < a.len() {
                assert(abc[j] == a[j]);
            } else if j < a.len() + b.len() {
                assert(abc[j] == b[j - a.len()]);
            } else {
                assert(abc[j] == c[j - a.len() - b.len()]);
            }
        }
    }
    if counts.tools > 0 {
        lemma_jget_present(f, "tools"@, 0);
    } else {
        lemma_jget_absent(f, "tools"@);
    }
    if surface {
        lemma_jget_present(f, "resources"@, a.len() as int);
        if style == CapabilityStyle::McpApp {
            crate::json::lemma_member_pos(f, "resources"@);
            assert(crate::json::member_pos(f, "resources"@) == a.len());
        }
    } else {
        lemma_jget_absent(f, "resources"@);
    }
    if counts.prompts > 0 {
        lemma_jget_present(f, "prompts"@, (a.len() + b.len()) as int);
    } else {
        lemma_jget_absent(f, "prompts"@);
    }
}

/// Whatever the inventory and style, `logging` and `completions` are advertised
/// as empty objects.
pub proof fn lemma_caps_always_log_and_complete(counts: InventoryCounts, style: CapabilityStyle)
    ensures
        jget(caps_for(counts, style), "logging"@) == Some(JsonV::Object(Seq::empty())),
        jget(caps_for(counts, style), "completions"@) == Some(JsonV::Object(Seq::empty())),
{
    reveal_strlit("tools");
    reveal_strlit("resources");
    reveal_strlit("prompts");
    reveal_strlit("logging");
    reveal_strlit("completions");
    assert("tools"@ != "logging"@ && "tools"@ != "completions"@) by {
        assert("tools"@.len() == 5 && "logging"@.len() == 7 && "completions"@.len() == 11);
    }
    assert("resources"@ != "logging"@ && "resources"@ != "completions"@) by {
        assert("resources"@.len() == 9);
    }
    assert("prompts"@ != "logging"@ && "prompts"@ != "completions"@) by {
        assert("prompts"@[0] != "logging"@[0]);
    }
    let e = JsonV::Object(Seq::<(Seq<char>, JsonV)>::empty());
    let surface = counts.resources > 0 || counts.resource_templates > 0;
    let (a, b, c) = match style {
        CapabilityStyle::McpApp => (
            opt_member(counts.tools > 0, "tools"@, e),
            opt_member(surface, "resources"@, JsonV::Object(seq![("subscribe"@, JsonV::Bool(true))])),
            opt_member(counts.prompts > 0, "prompts"@, e),
        ),
        CapabilityStyle::LegacyCreateServer => (
            opt_member(counts.tools > 0, "tools"@, JsonV::Object(flag_object("listChanged"@, if counts.tools > 0 { Some(true) } else { None }))),
            opt_member(
                surface,
                "resources"@,
                JsonV::Object(
                    flag_object("subscribe"@, if surface { Some(true) } else { None }) + flag_object(
                        "listChanged"@,
                        if surface { Some(true) } else { None },
                    ),
                ),
            ),
            opt_member(counts.prompts > 0, "prompts"@, JsonV::Object(flag_object("listChanged"@, if counts.prompts > 0 { Some(true) } else { None }))),
        ),
    };
    let f = caps_for(counts, style)->Object_0;
    assert(f =~= a + b + c + seq![("logging"@, e), ("completions"@, e)]);
    let n = f.len() as int;
    assert(f[n - 2] == ("logging"@, e));
    assert(f[n - 1] == ("completions"@, e));
    assert forall|j: int| 0 <= j < n - 2 implies f[j].0 != "logging"@ && f[j].0 != "completions"@ by {
        let abc = a + b + c;
        assert(f[j] == abc[j]);
        if j < a.len() {
            assert(abc[j] == a[j]);
        } else if j < a.len() + b.len() {
            assert(abc[j] == b[j - a.len()]);
        } else {
            assert(abc[j] == c[j - a.len() - b.len()]);
        }
    }
    crate::json::lemma_member_pos(f, "logging"@);
    crate::json::lemma_member_pos(f, "completions"@);
}

// ─── Identity and state ─────────────────────────────────────────────────────

/// A server's name, version and optional instructions.
pub struct ServerIdentity {
    pub name: String,
    pub version: String,
    pub instructions: Option<String>,
}

impl ServerIdentity {
    /// The identity with `mcp-server` / `1.0.0` for a missing name / version.
    pub fn resolve(name: Option<String>, version: Option<String>, instructions: Option<String>) -> (r: Self)
        ensures
            r.name@ == match name {
                Some(n) => n@,
                None => DEFAULT_SERVER_NAME@,
            },
            r.version@ == match version {
                Some(v) => v@,
                None => DEFAULT_SERVER_VERSION@,
            },
            r.instructions == instructions,
    {
        ServerIdentity {
            name: match name {
                Some(n) => n,
                None => owned(DEFAULT_SERVER_NAME),
            },
            version: match version {
                Some(v) => v,
                None => owned(DEFAULT_SERVER_VERSION),
            },
            instructions,
        }
    }
}

/// The model of `{"name": …, "version": …}`.
pub open spec fn server_info_v(name: Seq<char>, version: Seq<char>) -> JsonV {
    JsonV::Object(seq![("name"@, JsonV::Str(name)), ("version"@, JsonV::Str(version))])
}

/// The `serverInfo` object of an identity.
pub fn server_info_body(identity: &ServerIdentity) -> (r: Json)
    ensures
        r@ == server_info_v(identity.name@, identity.version@),
{
    let mut v: Vec<(String, Json)> = Vec::new();
    v.push(member("name", Json::str_of(identity.name.as_str())));
    v.push(member("version", Json::str_of(identity.version.as_str())));
    assert(fields_view(v@) =~= server_info_v(identity.name@, identity.version@)->Object_0);
    object(v)
}

/// Pagination settings of an app.
#[derive(Debug, Clone, Copy, PartialEq, Eq, Structural)]
pub struct PaginationOptionsMeta {
    pub default_page_size: Option<u32>,
    pub max_page_size: Option<u32>,
}

/// The state of an app: identity, inventories and capabilities.
pub struct AppStateMeta {
    pub name: String,
    pub version: String,
    pub instructions: Option<String>,
    pub tools: TextMap<ToolDefinitionMeta>,
    pub resources: TextMap<ResourceDefinitionMeta>,
    pub resource_templates: TextMap<ResourceTemplateDefinitionMeta>,
    pub prompts: TextMap<PromptDefinitionMeta>,
    pub capabilities: Json,
    pub pagination: Option<PaginationOptionsMeta>,
}

/// The configuration an app state is built from.
pub struct AppConfig {
    pub name: Option<String>,
    pub version: Option<String>,
    pub instructions: Option<String>,
    pub tools: TextMap<ToolDefinitionMeta>,
    pub resources: TextMap<ResourceDefinitionMeta>,
    pub resource_templates: TextMap<ResourceTemplateDefinitionMeta>,
    pub prompts: TextMap<PromptDefinitionMeta>,
    pub pagination: Option<PaginationOptionsMeta>,
    pub style: CapabilityStyle,
}

impl AppConfig {
    /// The inventories are ordered maps.
    pub open spec fn wf(&self) -> bool {
        self.tools.wf() && self.resources.wf() && self.resource_templates.wf() && self.prompts.wf()
    }

    /// An empty configuration in `McpApp` style.
    pub fn new() -> (r: Self)
        ensures
            r.wf(),
            r.name is None && r.version is None && r.instructions is None,
            r.tools@.len() == 0 && r.resources@.len() == 0,
            r.resource_templates@.len() == 0 && r.prompts@.len() == 0,
            r.pagination is None,
            r.style == CapabilityStyle::McpApp,
    {
        AppConfig {
            name: None,
            version: None,
            instructions: None,
            tools: TextMap::new(),
            resources: TextMap::new(),
            resource_templates: TextMap::new(),
            prompts: TextMap::new(),
            pagination: None,
            style: CapabilityStyle::McpApp,
        }
    }

    pub fn with_name(self, name: &str) -> (r: Self)
        ensures
            r.name matches Some(n) && n@ == name@,
            r.version == self.version && r.instructions == self.instructions,
            r.tools == self.tools && r.resources == self.resources,
            r.resource_templates == self.resource_templates && r.prompts == self.prompts,
            r.pagination == self.pagination && r.style == self.style,
    {
        AppConfig { name: Some(owned(name)), ..self }
    }

    pub fn with_version(self, version: &str) -> (r: Self)
        ensures
            r.version matches Some(n) && n@ == version@,
            r.name == self.name && r.instructions == self.instructions,
            r.tools == self.tools && r.resources == self.resources,
            r.resource_templates == self.resource_templates && r.prompts == self.prompts,
            r.pagination == self.pagination && r.style == self.style,
    {
        AppConfig { version: Some(owned(version)), ..self }
    }

    pub fn with_instructions(self, instructions: &str) -> (r: Self)
        ensures
            r.instructions matches Some(n) && n@ == instructions@,
            r.name == self.name && r.version == self.version,
            r.tools == self.tools && r.resources == self.resources,
            r.resource_templates == self.resource_templates && r.prompts == self.prompts,
            r.pagination == self.pagination && r.style == self.style,
    {
        AppConfig { instructions: Some(owned(instructions)), ..self }
    }

    /// Adds (or replaces) tool `name`.
    pub fn with_tool(self, name: &str, def: ToolDefinitionMeta) -> (r: Self)
        requires
            self.wf(),
        ensures
            r.wf(),
            forall|k: Seq<char>| #[trigger]
                lookup(r.tools@, k) == if k == name@ {
                    Some(def)
                } else {
                    lookup(self.tools@, k)
                },
            r.name == self.name && r.version == self.version && r.instructions == self.instructions,
            r.resources == self.resources && r.resource_templates == self.resource_templates,
            r.prompts == self.prompts && r.pagination == self.pagination && r.style == self.style,
    {
        let mut s = self;
        s.tools.insert(owned(name), def);
        s
    }

    /// Adds (or replaces) resource `name`.
    pub fn with_resource(self, name: &str, def: ResourceDefinitionMeta) -> (r: Self)
        requires
            self.wf(),
        ensures
            r.wf(),
            forall|k: Seq<char>| #[trigger]
                lookup(r.resources@, k) == if k == name@ {
                    Some(def)
                } else {
                    lookup(self.resources@, k)
                },
            r.name == self.name && r.version == self.version && r.instructions == self.instructions,
            r.tools == self.tools && r.resource_templates == self.resource_templates,
            r.prompts == self.prompts && r.pagination == self.pagination && r.style == self.style,
    {
        let mut s = self;
        s.resources.insert(owned(name), def);
        s
    }

    /// Adds (or replaces) resource template `name`.
    pub fn with_resource_template(self, name: &str, def: ResourceTemplateDefinitionMeta) -> (r: Self)
        requires
            self.wf(),
        ensures
            r.wf(),
            forall|k: Seq<char>| #[trigger]
                lookup(r.resource_templates@, k) == if k == name@ {
                    Some(def)
                } else {
                    lookup(self.resource_templates@, k)
                },
            r.name == self.name && r.version == self.version && r.instructions == self.instructions,
            r.tools == self.tools && r.resources == self.resources,
            r.prompts == self.prompts && r.pagination == self.pagination && r.style == self.style,
    {
        let mut s = self;
        s.resource_templates.insert(owned(name), def);
        s
    }

    /// Adds (or replaces) prompt `name`.
    pub fn with_prompt(self, name: &str, def: PromptDefinitionMeta) -> (r: Self)
        requires
            self.wf(),
        ensures
            r.wf(),
            forall|k: Seq<char>| #[trigger]
                lookup(r.prompts@, k) == if k == name@ {
                    Some(def)
                } else {
                    lookup(self.prompts@, k)
                },
            r.name == self.name && r.version == self.version && r.instructions == self.instructions,
            r.tools == self.tools && r.resources == self.resources,
            r.resource_templates == self.resource_templates && r.pagination == self.pagination
                && r.style == self.style,
    {
        let mut s = self;
        s.prompts.insert(owned(name), def);
        s
    }

    pub fn with_style(self, style: CapabilityStyle) -> (r: Self)
        ensures
            r.style == style,
            r.name == self.name && r.version == self.version && r.instructions == self.instructions,
            r.tools == self.tools && r.resources == self.resources,
            r.resource_templates == self.resource_templates && r.prompts == self.prompts,
            r.pagination == self.pagination,
    {
        AppConfig { style, ..self }
    }

    pub fn with_pagination(self, pagination: PaginationOptionsMeta) -> (r: Self)
        ensures
            r.pagination == Some(pagination),
            r.name == self.name && r.version == self.version && r.instructions == self.instructions,
            r.tools == self.tools && r.resources == self.resources,
            r.resource_templates == self.resource_templates && r.prompts == self.prompts,
            r.style == self.style,
    {
        AppConfig { pagination: Some(pagination), ..self }
    }

    /// The app state: identity with defaults, the inventories, and the
    /// capabilities of the inventories in the configured style.
    pub fn build(self) -> (r: AppStateMeta)
        ensures
            r.name@ == match self.name {
                Some(n) => n@,
                None => DEFAULT_SERVER_NAME@,
            },
            r.version@ == match self.version {
                Some(v) => v@,
                None => DEFAULT_SERVER_VERSION@,
            },
            r.instructions == self.instructions,
            r.tools == self.tools && r.resources == self.resources,
            r.resource_templates == self.resource_templates && r.prompts == self.prompts,
            r.pagination == self.pagination,
            r.capabilities@ == caps_for(
                InventoryCounts {
                    tools: self.tools@.len() as usize,
                    resources: self.resources@.len() as usize,
                    resource_templates: self.resource_templates@.len() as usize,
                    prompts: self.prompts@.len() as usize,
                },
                self.style,
            ),
    {
        let identity = ServerIdentity::resolve(self.name, self.version, self.instructions);
        let counts = InventoryCounts {
            tools: self.tools.len(),
            resources: self.resources.len(),
            resource_templates: self.resource_templates.len(),
            prompts: self.prompts.len(),
        };
        AppStateMeta {
            name: identity.name,
            version: identity.version,
            instructions: identity.instructions,
            tools: self.tools,
            resources: self.resources,
            resource_templates: self.resource_templates,
            prompts: self.prompts,
            capabilities: capabilities_from_inventory(counts, self.style),
            pagination: self.pagination,
        }
    }
}

/// State in `McpApp` style.
pub fn create_mcp_app_state(config: AppConfig) -> (r: AppStateMeta)
    ensures
        r.tools == config.tools && r.resources == config.resources,
        r.resource_templates == config.resource_templates && r.prompts == config.prompts,
        r.capabilities@ == caps_for(
            InventoryCounts {
                tools: config.tools@.len() as usize,
                resources: config.resources@.len() as usize,
                resource_templates: config.resource_templates@.len() as usize,
                prompts: config.prompts@.len() as usize,
            },
            CapabilityStyle::McpApp,
        ),
        r.name@ == match config.name {
            Some(n) => n@,
            None => DEFAULT_SERVER_NAME@,
        },
        r.version@ == match config.version {
            Some(v) => v@,
            None => DEFAULT_SERVER_VERSION@,
        },
{
    config.with_style(CapabilityStyle::McpApp).build()
}

/// State in the legacy `createServer` style.
pub fn create_server_state(config: AppConfig) -> (r: AppStateMeta)
    ensures
        r.tools == config.tools && r.resources == config.resources,
        r.resource_templates == config.resource_templates && r.prompts == config.prompts,
        r.capabilities@ == caps_for(
            InventoryCounts {
                tools: config.tools@.len() as usize,
                resources: config.resources@.len() as usize,
                resource_templates: config.resource_templates@.len() as usize,
                prompts: config.prompts@.len() as usize,
            },
            CapabilityStyle::LegacyCreateServer,
        ),
        r.name@ == match config.name {
            Some(n) => n@,
            None => DEFAULT_SERVER_NAME@,
        },
        r.version@ == match config.version {
            Some(v) => v@,
            None => DEFAULT_SERVER_VERSION@,
        },
{
    config.with_style(CapabilityStyle::LegacyCreateServer).build()
}

/// The inventory sizes of a state.
pub fn inventory_counts(state: &AppStateMeta) -> (r: InventoryCounts)
    ensures
        r.tools == state.tools@.len() && r.resources == state.resources@.len(),
        r.resource_templates == state.resource_templates@.len() && r.prompts == state.prompts@.len(),
{
    InventoryCounts {
        tools: state.tools.len(),
        resources: state.resources.len(),
        resource_templates: state.resource_templates.len(),
        prompts: state.prompts.len(),
    }
}

// ─── Conformance catalog ────────────────────────────────────────────────────

/// A conformance tool's definition: described by its own name `k`, with the
/// empty object schema and no annotations.
pub open spec fn conformance_tool_def(d: ToolDefinitionMeta, k: Seq<char>) -> bool {
    &&& d.name is None
    &&& d.description matches Some(x) && x@ == k
    &&& d.input_schema@ == empty_object_schema_v()
    &&& d.annotations is None
}

/// The tool names a conformance server provides.
pub const CONFORMANCE_TOOL_NAMES: [&'static str; 8] = [
    "test_simple_text",
    "test_image_content",
    "test_audio_content",
    "test_multiple_content_types",
    "test_error_handling",
    "test_embedded_resource",
    "test_tool_with_logging",
    "test_tool_with_progress",
];

/// The static resource URIs of a conformance server.
pub const CONFORMANCE_RESOURCE_URIS: [&'static str; 2] = ["test://static/resource", "test://static/resource/blob"];

/// The prompt names of a conformance server.
pub const CONFORMANCE_PROMPT_NAMES: [&'static str; 2] = ["test_simple_prompt", "test_prompt_with_args"];

/// The tools a conformance server provides.
pub open spec fn conformance_tool(m: Seq<char>) -> bool {
    m == "test_simple_text"@ || m == "test_image_content"@ || m == "test_audio_content"@
        || m == "test_multiple_content_types"@ || m == "test_error_handling"@
        || m == "test_embedded_resource"@ || m == "test_tool_with_logging"@
        || m == "test_tool_with_progress"@
}

pub fn is_conformance_tool(name: &str) -> (r: bool)
    ensures
        r == conformance_tool(name@),
{
    let v = chars_of(name);
    eq_lit(&v, "test_simple_text") || eq_lit(&v, "test_image_content") || eq_lit(&v, "test_audio_content")
        || eq_lit(&v, "test_multiple_content_types") || eq_lit(&v, "test_error_handling")
        || eq_lit(&v, "test_embedded_resource") || eq_lit(&v, "test_tool_with_logging")
        || eq_lit(&v, "test_tool_with_progress")
}

/// The configuration of a conformance server: its tools (each described by
/// its own name), two static resources, one template and two prompts.
pub fn conformance_app_config() -> (r: AppConfig)
    ensures
        r.wf(),
        r.name matches Some(n) && n@ == "conformance-server"@,
        r.version matches Some(v) && v@ == "1.0.0"@,
        r.instructions is None,
        r.pagination is None,
        r.style == CapabilityStyle::McpApp,
        forall|k: Seq<char>| #[trigger] (lookup(r.tools@, k) is Some) == conformance_tool(k),
        forall|k: Seq<char>|
            #[trigger] lookup(r.tools@, k) is Some ==> conformance_tool_def(lookup(r.tools@, k)->Some_0, k),
        forall|k: Seq<char>| #[trigger] (lookup(r.resources@, k) is Some) == (k == "static"@ || k == "static_blob"@),
        lookup(r.resources@, "static"@) matches Some(d) && d.uri@ == "test://static/resource"@ && d.description is None
            && opt_text(d.mime_type) == Some("text/plain"@),
        lookup(r.resources@, "static_blob"@) matches Some(d) && d.uri@ == "test://static/resource/blob"@
            && d.description is None && opt_text(d.mime_type) == Some("application/octet-stream"@),
        forall|k: Seq<char>| #[trigger] (lookup(r.resource_templates@, k) is Some) == (k == "template"@),
        lookup(r.resource_templates@, "template"@) matches Some(d) && d.uri_template@ == "test://dynamic/{id}"@
            && d.description is None && d.mime_type is None,
        forall|k: Seq<char>|
            #[trigger] (lookup(r.prompts@, k) is Some) == (k == "test_simple_prompt"@ || k == "test_prompt_with_args"@),
        lookup(r.prompts@, "test_simple_prompt"@) matches Some(p) && opt_text(p.description) == Some("simple"@)
            && p.arguments@.len() == 0,
        lookup(r.prompts@, "test_prompt_with_args"@) matches Some(p) && opt_text(p.description) == Some(
            "with args"@,
        ) && p.arguments@.len() == 1 && p.arguments@[0].name@ == "name"@ && opt_text(p.arguments@[0].description)
            == Some("Name"@) && p.arguments@[0].required == Some(true),
{
    proof {
        reveal_strlit("test_simple_text");
        reveal_strlit("test_image_content");
        reveal_strlit("test_audio_content");
        reveal_strlit("test_multiple_content_types");
        reveal_strlit("test_error_handling");
        reveal_strlit("test_embedded_resource");
        reveal_strlit("test_tool_with_logging");
        reveal_strlit("test_tool_with_progress");
        reveal_strlit("static");
        reveal_strlit("static_blob");
        reveal_strlit("test_simple_prompt");
        reveal_strlit("test_prompt_with_args");
        assert("static"@.len() != "static_blob"@.len());
        assert("test_simple_prompt"@.len() != "test_prompt_with_args"@.len());
    }
    let mut cfg = AppConfig::new().with_name("conformance-server").with_version("1.0.0").with_style(
        CapabilityStyle::McpApp,
    );
    cfg = cfg.with_tool("test_simple_text", tool().description("test_simple_text").finish());
    cfg = cfg.with_tool("test_image_content", tool().description("test_image_content").finish());
    cfg = cfg.with_tool("test_audio_content", tool().description("test_audio_content").finish());
    cfg = cfg.with_tool("test_multiple_content_types", tool().description("test_multiple_content_types").finish());
    cfg = cfg.with_tool("test_error_handling", tool().description("test_error_handling").finish());
    cfg = cfg.with_tool("test_embedded_resource", tool().description("test_embedded_resource").finish());
    cfg = cfg.with_tool("test_tool_with_logging", tool().description("test_tool_with_logging").finish());
    cfg = cfg.with_tool("test_tool_with_progress", tool().description("test_tool_with_progress").finish());
    if let Some(res) = resource().uri("test://static/resource").mime_type("text/plain").finish() {
        cfg = cfg.with_resource("static", res);
    }
    if let Some(res) = resource().uri("test://static/resource/blob").mime_type("application/octet-stream").finish() {
        cfg = cfg.with_resource("static_blob", res);
    }
    if let Some(tmpl) = resource_template().uri_template("test://dynamic/{id}").finish() {
        cfg = cfg.with_resource_template("template", tmpl);
    }
    let simple = prompt().description("simple").finish();
    cfg = cfg.with_prompt("test_simple_prompt", simple);
    cfg = cfg.with_prompt(
        "test_prompt_with_args",
        prompt().description("with args").argument(prompt_arg("name", Some(owned("Name")), Some(true))).finish(),
    );
    cfg
}

} // verus!
