//! Reading MCP result and params bodies: the members a client or server
//! looks at, each read the way the contract's model reads it.
use vstd::prelude::*;
use crate::http_auth::opt_view;
use crate::json::{Json, JsonV, elems_view, jarray, jbool, jget, jget_opt, jstr};
use crate::methods::{completion_ref_kind, is_valid_completion_ref_type, log_level, logging_level_valid};
use crate::text::{str_eq, trim, trim_str};

verus! {

broadcast use vstd::string::group_string_axioms;

// ─── Vocabulary ─────────────────────────────────────────────────────────────

/// The text of member `key`.
pub open spec fn text_at(v: JsonV, key: Seq<char>) -> Option<Seq<char>> {
    jstr(jget(v, key))
}

/// A text, when it is not empty.
pub open spec fn nonempty(t: Option<Seq<char>>) -> Option<Seq<char>> {
    match t {
        Some(s) => if s.len() > 0 {
            Some(s)
        } else {
            None
        },
        None => None,
    }
}

/// The elements of array member `key`; none when it is missing or no array.
pub open spec fn items_at(v: JsonV, key: Seq<char>) -> Seq<JsonV> {
    match jarray(jget(v, key)) {
        Some(a) => a,
        None => Seq::empty(),
    }
}

/// The first element of array member `key`.
pub open spec fn first_at(v: JsonV, key: Seq<char>) -> Option<JsonV> {
    match jarray(jget(v, key)) {
        Some(a) => if a.len() > 0 {
            Some(a[0])
        } else {
            None
        },
        None => None,
    }
}

/// Member `key` is present and not `null`.
pub open spec fn present(v: JsonV, key: Seq<char>) -> bool {
    jget(v, key) matches Some(x) && !(x is Null)
}

/// The texts of member `key` of the items that have one, in order.
pub open spec fn member_texts(items: Seq<JsonV>, key: Seq<char>) -> Seq<Seq<char>>
    decreases items.len(),
{
    if items.len() == 0 {
        Seq::empty()
    } else {
        let rest = member_texts(items.drop_last(), key);
        match text_at(items.last(), key) {
            Some(t) => rest.push(t),
            None => rest,
        }
    }
}

/// The views of strings.
pub open spec fn texts_view(v: Seq<String>) -> Seq<Seq<char>> {
    Seq::new(v.len(), |i: int| v[i]@)
}

fn str_member<'a>(j: &'a Json, key: &str) -> (r: Option<&'a str>)
    ensures
        opt_view(r) == text_at(j@, key@),
{
    match j.get(key) {
        Some(Json::Str(s)) => Some(s.as_str()),
        _ => None,
    }
}

fn keep_nonempty<'a>(t: Option<&'a str>) -> (r: Option<&'a str>)
    ensures
        opt_view(r) == nonempty(opt_view(t)),
{
    match t {
        Some(s) => if s.is_empty() {
            None
        } else {
            Some(s)
        },
        None => None,
    }
}

fn array_member<'a>(j: &'a Json, key: &str) -> (r: Option<&'a Vec<Json>>)
    ensures
        match r {
            Some(v) => jarray(jget(j@, key@)) == Some(elems_view(v@)),
            None => jarray(jget(j@, key@)) is None,
        },
{
    match j.get(key) {
        Some(x) => match x.as_array() {
            Some(v) => {
                assert(x@->Array_0 =~= elems_view(v@));
                Some(v)
            },
            None => None,
        },
        None => None,
    }
}

fn items_len(j: &Json, key: &str) -> (n: usize)
    ensures
        n == items_at(j@, key@).len(),
{
    match array_member(j, key) {
        Some(v) => v.len(),
        None => 0,
    }
}

fn first_item<'a>(j: &'a Json, key: &str) -> (r: Option<&'a Json>)
    ensures
        match r {
            Some(x) => first_at(j@, key@) == Some(x@),
            None => first_at(j@, key@) is None,
        },
{
    match array_member(j, key) {
        Some(v) => if v.len() > 0 {
            Some(&v[0])
        } else {
            None
        },
        None => None,
    }
}

fn nested<'a>(j: &'a Json, outer: &str, inner: &str) -> (r: Option<&'a Json>)
    ensures
        match r {
            Some(x) => jget_opt(jget(j@, outer@), inner@) == Some(x@),
            None => jget_opt(jget(j@, outer@), inner@) is None,
        },
{
    match j.get(outer) {
        Some(o) => o.get(inner),
        None => None,
    }
}

fn nested_str<'a>(j: &'a Json, outer: &str, inner: &str) -> (r: Option<&'a str>)
    ensures
        opt_view(r) == jstr(jget_opt(jget(j@, outer@), inner@)),
{
    match nested(j, outer, inner) {
        Some(Json::Str(s)) => Some(s.as_str()),
        _ => None,
    }
}

fn is_present(j: &Json, key: &str) -> (b: bool)
    ensures
        b == present(j@, key@),
{
    match j.get(key) {
        Some(x) => !x.is_null(),
        None => false,
    }
}

/// The texts of member `key` of the items that have one.
fn texts_of_items(items: &Vec<Json>, key: &str) -> (r: Vec<String>)
    ensures
        texts_view(r@) == member_texts(elems_view(items@), key@),
{
    let ghost all = elems_view(items@);
    let mut out: Vec<String> = Vec::new();
    let mut i: usize = 0;
    while i < items.len()
        invariant
            i <= items.len(),
            all == elems_view(items@),
            texts_view(out@) == member_texts(all.take(i as int), key@),
        decreases items.len() - i,
    {
        let ghost before = texts_view(out@);
        assert(all.take(i + 1).drop_last() =~= all.take(i as int));
        assert(all.take(i + 1).last() == items@[i as int]@);
        match str_member(&items[i], key) {
            Some(t) => {
                out.push(crate::text::owned(t));
                assert(texts_view(out@) =~= before.push(t@));
            },
            None => {
                assert(texts_view(out@) =~= before);
            },
        }
        i = i + 1;
    }
    assert(all.take(items.len() as int) =~= all);
    out
}

fn texts_of_list(j: &Json, list_key: &str, key: &str) -> (r: Vec<String>)
    ensures
        texts_view(r@) == member_texts(items_at(j@, list_key@), key@),
{
    match array_member(j, list_key) {
        Some(v) => texts_of_items(v, key),
        None => {
            let r: Vec<String> = Vec::new();
            assert(texts_view(r@) =~= Seq::<Seq<char>>::empty());
            r
        },
    }
}

// ─── List results ───────────────────────────────────────────────────────────

/// The `nextCursor` of a list result.
pub fn list_next_cursor(result: &Json) -> (r: Option<&str>)
    ensures
        opt_view(r) == text_at(result@, "nextCursor"@),
{
    str_member(result, "nextCursor")
}

/// Does a list result carry a non-empty `nextCursor`?
pub fn list_has_next_cursor(result: &Json) -> (b: bool)
    ensures
        b == (nonempty(text_at(result@, "nextCursor"@)) is Some),
{
    keep_nonempty(list_next_cursor(result)).is_some()
}

/// The array under `key` of a list result.
pub fn list_result_array<'a>(result: &'a Json, key: &str) -> (r: Option<&'a Vec<Json>>)
    ensures
        match r {
            Some(v) => jarray(jget(result@, key@)) == Some(elems_view(v@)),
            None => jarray(jget(result@, key@)) is None,
        },
{
    array_member(result, key)
}

/// The length of the array under `key` (0 when missing or no array).
pub fn list_result_len(result: &Json, key: &str) -> (n: usize)
    ensures
        n == items_at(result@, key@).len(),
{
    items_len(result, key)
}

/// The names of the tools of a `tools/list` result.
pub fn tool_names_from_list(result: &Json) -> (r: Vec<String>)
    ensures
        texts_view(r@) == member_texts(items_at(result@, "tools"@), "name"@),
{
    texts_of_list(result, "tools", "name")
}

/// The names of the prompts of a `prompts/list` result.
pub fn prompt_names_from_list(result: &Json) -> (r: Vec<String>)
    ensures
        texts_view(r@) == member_texts(items_at(result@, "prompts"@), "name"@),
{
    texts_of_list(result, "prompts", "name")
}

/// The names of the resources of a `resources/list` result.
pub fn resource_names_from_list(result: &Json) -> (r: Vec<String>)
    ensures
        texts_view(r@) == member_texts(items_at(result@, "resources"@), "name"@),
{
    texts_of_list(result, "resources", "name")
}

/// The URIs of the resources of a `resources/list` result.
pub fn resource_uris_from_list(result: &Json) -> (r: Vec<String>)
    ensures
        texts_view(r@) == member_texts(items_at(result@, "resources"@), "uri"@),
{
    texts_of_list(result, "resources", "uri")
}

/// The URIs of the roots of a `roots/list` result.
pub fn root_uris_from_list(result: &Json) -> (r: Vec<String>)
    ensures
        texts_view(r@) == member_texts(items_at(result@, "roots"@), "uri"@),
{
    texts_of_list(result, "roots", "uri")
}

/// The argument names of a prompt descriptor.
pub fn prompt_argument_names(prompt: &Json) -> (r: Vec<String>)
    ensures
        texts_view(r@) == member_texts(items_at(prompt@, "arguments"@), "name"@),
{
    texts_of_list(prompt, "arguments", "name")
}

/// The number of tools of a `tools/list` result.
pub fn tool_count_from_list(result: &Json) -> (n: usize)
    ensures
        n == items_at(result@, "tools"@).len(),
{
    items_len(result, "tools")
}

/// The number of tools of a `tools/list` result.
pub fn tools_count_from_list(result: &Json) -> (n: usize)
    ensures
        n == items_at(result@, "tools"@).len(),
{
    items_len(result, "tools")
}

/// The number of resources of a `resources/list` result.
pub fn resource_count_from_list(result: &Json) -> (n: usize)
    ensures
        n == items_at(result@, "resources"@).len(),
{
    list_result_len(result, "resources")
}

/// The number of prompts of a `prompts/list` result.
pub fn prompt_count_from_list(result: &Json) -> (n: usize)
    ensures
        n == items_at(result@, "prompts"@).len(),
{
    list_result_len(result, "prompts")
}

/// The number of templates of a `resources/templates/list` result.
pub fn resource_template_count_from_list(result: &Json) -> (n: usize)
    ensures
        n == items_at(result@, "resourceTemplates"@).len(),
{
    list_result_len(result, "resourceTemplates")
}

/// The number of templates of a `resources/templates/list` result.
pub fn resource_templates_count(result: &Json) -> (n: usize)
    ensures
        n == items_at(result@, "resourceTemplates"@).len(),
{
    items_len(result, "resourceTemplates")
}

/// The number of roots of a `roots/list` result.
pub fn roots_list_count(result: &Json) -> (n: usize)
    ensures
        n == items_at(result@, "roots"@).len(),
{
    items_len(result, "roots")
}

/// Does a `tools/list` result list no tool?
pub fn tools_list_is_empty(result: &Json) -> (b: bool)
    ensures
        b == (items_at(result@, "tools"@).len() == 0),
{
    tool_count_from_list(result) == 0
}

/// Does a `resources/list` result list no resource?
pub fn resources_list_is_empty(result: &Json) -> (b: bool)
    ensures
        b == (items_at(result@, "resources"@).len() == 0),
{
    resource_count_from_list(result) == 0
}

/// Does a `prompts/list` result list no prompt?
pub fn prompts_list_is_empty(result: &Json) -> (b: bool)
    ensures
        b == (items_at(result@, "prompts"@).len() == 0),
{
    prompt_count_from_list(result) == 0
}

/// Does a `resources/templates/list` result list no template?
pub fn resource_templates_list_is_empty(result: &Json) -> (b: bool)
    ensures
        b == (items_at(result@, "resourceTemplates"@).len() == 0),
{
    resource_template_count_from_list(result) == 0
}

/// Does a `roots/list` result list no root (or no `roots` array at all)?
pub fn roots_list_is_empty(result: &Json) -> (b: bool)
    ensures
        b == (items_at(result@, "roots"@).len() == 0),
{
    roots_list_count(result) == 0
}

/// The `uri` of the root at `index` of a `roots/list` result.
pub fn root_uri_at(result: &Json, index: usize) -> (r: Option<&str>)
    ensures
        opt_view(r) == (if index < items_at(result@, "roots"@).len() && jarray(jget(result@, "roots"@)) is Some {
            text_at(items_at(result@, "roots"@)[index as int], "uri"@)
        } else {
            None
        }),
{
    match array_member(result, "roots") {
        Some(v) => if index < v.len() {
            str_member(&v[index], "uri")
        } else {
            None
        },
        None => None,
    }
}

// ─── tools/call results and params ──────────────────────────────────────────

/// Does a tools/call result say `isError: true`?
pub open spec fn marks_error(v: JsonV) -> bool {
    jbool(jget(v, "isError"@)) == Some(true)
}

/// Does a tools/call result say `isError: true`? Missing or non-boolean is `false`.
pub fn is_tool_error_result(body: &Json) -> (b: bool)
    ensures
        b == marks_error(body@),
{
    match body.get("isError") {
        Some(x) => match x.as_bool() {
            Some(t) => t,
            None => false,
        },
        None => false,
    }
}

/// Does a tools/call result say `isError: true`?
pub fn tool_result_is_error(result: &Json) -> (b: bool)
    ensures
        b == marks_error(result@),
{
    is_tool_error_result(result)
}

/// The text of the first content item when it is a text item.
pub open spec fn first_text_v(result: JsonV) -> Option<Seq<char>> {
    match first_at(result, "content"@) {
        Some(item) => if text_at(item, "type"@) == Some("text"@) {
            text_at(item, "text"@)
        } else {
            None
        },
        None => None,
    }
}

/// The text of the first content item of a tools/call result, when it is a text item.
pub fn tool_result_first_text(result: &Json) -> (r: Option<&str>)
    ensures
        opt_view(r) == first_text_v(result@),
{
    match first_item(result, "content") {
        Some(item) => {
            let is_text = match str_member(item, "type") {
                Some(t) => str_eq(t, "text"),
                None => false,
            };
            if is_text {
                str_member(item, "text")
            } else {
                None
            }
        },
        None => None,
    }
}

/// The message of a failed tools/call result: its first text, when `isError` is set.
pub fn tool_error_message(result: &Json) -> (r: Option<&str>)
    ensures
        opt_view(r) == (if marks_error(result@) {
            first_text_v(result@)
        } else {
            None
        }),
{
    if !is_tool_error_result(result) {
        return None;
    }
    tool_result_first_text(result)
}

/// The number of content items of a tools/call result.
pub fn tool_result_content_len(result: &Json) -> (n: usize)
    ensures
        n == items_at(result@, "content"@).len(),
{
    items_len(result, "content")
}

/// The number of content items of a tools/call result.
pub fn tool_result_content_count(result: &Json) -> (n: usize)
    ensures
        n == items_at(result@, "content"@).len(),
{
    items_len(result, "content")
}

/// Does a result have at least one content item?
pub fn content_array_nonempty(result: &Json) -> (b: bool)
    ensures
        b == (items_at(result@, "content"@).len() > 0),
{
    items_len(result, "content") > 0
}

/// The texts of the text items of a content list that carry one, in order.
pub open spec fn text_bodies(items: Seq<JsonV>) -> Seq<Seq<char>>
    decreases items.len(),
{
    if items.len() == 0 {
        Seq::empty()
    } else {
        let rest = text_bodies(items.drop_last());
        let it = items.last();
        if text_at(it, "type"@) == Some("text"@) && text_at(it, "text"@) is Some {
            rest.push(text_at(it, "text"@)->Some_0)
        } else {
            rest
        }
    }
}

/// Texts joined with no separator.
pub open spec fn joined(parts: Seq<Seq<char>>) -> Seq<char>
    decreases parts.len(),
{
    if parts.len() == 0 {
        Seq::empty()
    } else {
        joined(parts.drop_last()) + parts.last()
    }
}

/// All text bodies of a tools/call result joined with no separator; `None`
/// when there is no content list or no text item in it.
pub fn tool_result_all_text(result: &Json) -> (r: Option<String>)
    ensures
        match r {
            Some(s) => jarray(jget(result@, "content"@)) is Some && text_bodies(items_at(result@, "content"@)).len() > 0
                && s@ == joined(text_bodies(items_at(result@, "content"@))),
            None => jarray(jget(result@, "content"@)) is None || text_bodies(items_at(result@, "content"@)).len()
                == 0,
        },
{
    let arr = match array_member(result, "content") {
        Some(a) => a,
        None => {
            return None;
        },
    };
    let ghost all = elems_view(arr@);
    let mut out = String::new();
    let mut any = false;
    let mut i: usize = 0;
    while i < arr.len()
        invariant
            i <= arr.len(),
            all == elems_view(arr@),
            out@ == joined(text_bodies(all.take(i as int))),
            any == (text_bodies(all.take(i as int)).len() > 0),
        decreases arr.len() - i,
    {
        assert(all.take(i + 1).drop_last() =~= all.take(i as int));
        assert(all.take(i + 1).last() == arr@[i as int]@);
        let item = &arr[i];
        let is_text = match str_member(item, "type") {
            Some(t) => str_eq(t, "text"),
            None => false,
        };
        let ghost prev = text_bodies(all.take(i as int));
        proof {
            reveal_strlit("text");
        }
        let body = if is_text {
            str_member(item, "text")
        } else {
            None
        };
        match body {
            Some(t) => {
                assert(text_bodies(all.take(i + 1)) == prev.push(t@));
                assert(prev.push(t@).drop_last() =~= prev);
                crate::text::push_str(&mut out, t);
                any = true;
            },
            None => {
                assert(text_bodies(all.take(i + 1)) == prev);
            },
        }
        i = i + 1;
    }
    assert(all.take(arr.len() as int) =~= all);
    if any {
        Some(out)
    } else {
        None
    }
}

/// Does a tools/call result carry `structuredContent` (not `null`)?
pub fn tool_result_has_structured(result: &Json) -> (b: bool)
    ensures
        b == present(result@, "structuredContent"@),
{
    is_present(result, "structuredContent")
}

/// The `type` of the first content item of a tools/call result.
pub fn tool_result_first_content_type(result: &Json) -> (r: Option<&str>)
    ensures
        opt_view(r) == match first_at(result@, "content"@) {
            Some(item) => text_at(item, "type"@),
            None => None,
        },
{
    match first_item(result, "content") {
        Some(item) => content_type_of(item),
        None => None,
    }
}

/// The `type` of a content item.
pub fn content_type_of(content: &Json) -> (r: Option<&str>)
    ensures
        opt_view(r) == text_at(content@, "type"@),
{
    str_member(content, "type")
}

/// Does a content item carry a non-empty `annotations` object?
pub fn content_has_annotations(content: &Json) -> (b: bool)
    ensures
        b == (jget(content@, "annotations"@) matches Some(JsonV::Object(f)) && f.len() > 0),
{
    match content.get("annotations") {
        Some(Json::Object(f)) => {
            proof {
                reveal_with_fuel(<Json as View>::view, 2);
            }
            f.len() > 0
        },
        _ => false,
    }
}

/// The non-empty strings among values, in order.
pub open spec fn nonempty_strings(items: Seq<JsonV>) -> Seq<Seq<char>>
    decreases items.len(),
{
    if items.len() == 0 {
        Seq::empty()
    } else {
        let rest = nonempty_strings(items.drop_last());
        match items.last() {
            JsonV::Str(s) => if s.len() > 0 {
                rest.push(s)
            } else {
                rest
            },
            _ => rest,
        }
    }
}

/// The audience of a content item's annotations: a non-empty string, or the
/// non-empty strings of an array.
pub open spec fn audience_v(content: JsonV) -> Seq<Seq<char>> {
    match jget_opt(jget(content, "annotations"@), "audience"@) {
        Some(JsonV::Str(s)) => if s.len() > 0 {
            seq![s]
        } else {
            Seq::empty()
        },
        Some(JsonV::Array(a)) => nonempty_strings(a),
        _ => Seq::empty(),
    }
}

/// The audience of a content item's annotations.
pub fn content_annotation_audience(content: &Json) -> (r: Vec<String>)
    ensures
        texts_view(r@) == audience_v(content@),
{
    let mut out: Vec<String> = Vec::new();
    match nested(content, "annotations", "audience") {
        Some(Json::Str(s)) => {
            if !s.as_str().is_empty() {
                out.push(s.clone());
                assert(texts_view(out@) =~= seq![s@]);
            } else {
                assert(texts_view(out@) =~= Seq::<Seq<char>>::empty());
            }
            out
        },
        Some(Json::Array(arr)) => {
            let ghost all = elems_view(arr@);
            proof {
                reveal_with_fuel(<Json as View>::view, 2);
                assert(audience_v(content@) == nonempty_strings(all)) by {
                    assert(jget_opt(jget(content@, "annotations"@), "audience"@)->Some_0->Array_0 =~= all);
                }
            }
            let mut i: usize = 0;
            while i < arr.len()
                invariant
                    i <= arr.len(),
                    all == elems_view(arr@),
                    texts_view(out@) == nonempty_strings(all.take(i as int)),
                decreases arr.len() - i,
            {
                assert(all.take(i + 1).drop_last() =~= all.take(i as int));
                assert(all.take(i + 1).last() == arr@[i as int]@);
                let ghost before = texts_view(out@);
                match &arr[i] {
                    Json::Str(s) => {
                        if !s.as_str().is_empty() {
                            out.push(s.clone());
                            assert(texts_view(out@) =~= before.push(s@));
                        } else {
                            assert(texts_view(out@) =~= before);
                        }
                    },
                    _ => {
                        assert(texts_view(out@) =~= before);
                    },
                }
                i = i + 1;
            }
            assert(all.take(arr.len() as int) =~= all);
            out
        },
        _ => {
            assert(texts_view(out@) =~= Seq::<Seq<char>>::empty());
            out
        },
    }
}

/// The `name` of `tools/call` params.
pub fn tools_call_name(params: &Json) -> (r: Option<&str>)
    ensures
        opt_view(r) == text_at(params@, "name"@),
{
    str_member(params, "name")
}

/// The non-empty `name` of `tools/call` params.
pub fn tool_name_from_call_params(params: &Json) -> (r: Option<&str>)
    ensures
        opt_view(r) == nonempty(text_at(params@, "name"@)),
{
    keep_nonempty(str_member(params, "name"))
}

/// The `arguments` of `tools/call` params, when they are an object.
pub fn tool_arguments_from_call_params(params: &Json) -> (r: Option<&Json>)
    ensures
        match r {
            Some(x) => jget(params@, "arguments"@) == Some(x@) && x@ is Object,
            None => !(jget(params@, "arguments"@) matches Some(JsonV::Object(_))),
        },
{
    match params.get("arguments") {
        Some(x) => if x.is_object() {
            Some(x)
        } else {
            None
        },
        None => None,
    }
}

/// The object member `key`, or `{}` when it is missing or no object.
pub open spec fn object_or_empty(v: JsonV, key: Seq<char>) -> JsonV {
    match jget(v, key) {
        Some(JsonV::Object(f)) => JsonV::Object(f),
        _ => JsonV::Object(Seq::empty()),
    }
}

/// The `arguments` of `tools/call` params, or `{}`.
pub fn tool_arguments_or_empty(params: &Json) -> (r: Json)
    ensures
        r@ == object_or_empty(params@, "arguments"@),
{
    match tool_arguments_from_call_params(params) {
        Some(x) => x.deep_clone(),
        None => Json::empty_object(),
    }
}

/// The `arguments` of `prompts/get` params, or `{}`.
pub fn prompt_arguments_from_get_params(params: &Json) -> (r: Json)
    ensures
        r@ == object_or_empty(params@, "arguments"@),
{
    tool_arguments_or_empty(params)
}

/// `progressToken` of params.
pub fn progress_token_from_params(params: &Json) -> (r: Option<Json>)
    ensures
        crate::jsonrpc::opt_json(r) == jget(params@, "progressToken"@),
{
    match params.get("progressToken") {
        Some(x) => Some(x.deep_clone()),
        None => None,
    }
}

/// `_meta.progressToken` of `tools/call` params.
pub fn progress_token_from_call_params(params: &Json) -> (r: Option<&Json>)
    ensures
        match r {
            Some(x) => jget_opt(jget(params@, "_meta"@), "progressToken"@) == Some(x@),
            None => jget_opt(jget(params@, "_meta"@), "progressToken"@) is None,
        },
{
    nested(params, "_meta", "progressToken")
}

/// `progressToken` of a `_meta` object.
pub fn progress_token_from_meta(meta: &Json) -> (r: Option<&Json>)
    ensures
        match r {
            Some(x) => jget(meta@, "progressToken"@) == Some(x@),
            None => jget(meta@, "progressToken"@) is None,
        },
{
    meta.get("progressToken")
}

/// `_meta.progressToken` of params when present and not `null`, for a tool's context.
pub fn tool_context_progress_token(params: &Json) -> (r: Option<Json>)
    ensures
        crate::jsonrpc::opt_json(r) == match jget_opt(jget(params@, "_meta"@), "progressToken"@) {
            Some(JsonV::Null) => None,
            other => other,
        },
{
    match nested(params, "_meta", "progressToken") {
        Some(x) => if x.is_null() {
            None
        } else {
            Some(x.deep_clone())
        },
        None => None,
    }
}

/// Do `tools/call` params carry a progress token, at the top or under `_meta`?
pub fn tools_call_has_progress_token(params: &Json) -> (b: bool)
    ensures
        b == (jget(params@, "progressToken"@) is Some || jget_opt(jget(params@, "_meta"@), "progressToken"@) is Some),
{
    progress_token_from_params(params).is_some() || nested(params, "_meta", "progressToken").is_some()
}

/// Do call params carry `_meta.progressToken`?
pub fn call_params_has_progress_token(params: &Json) -> (b: bool)
    ensures
        b == (jget_opt(jget(params@, "_meta"@), "progressToken"@) is Some),
{
    progress_token_from_call_params(params).is_some() || match params.get("_meta") {
        Some(m) => progress_token_from_meta(m).is_some(),
        None => false,
    }
}

/// Do progress notification params carry `progressToken`?
pub fn notifications_progress_params_valid(params: &Json) -> (b: bool)
    ensures
        b == (jget(params@, "progressToken"@) is Some),
{
    params.get("progressToken").is_some()
}

/// Do `tools/call` params name a tool (non-empty `name`)?
pub fn tools_call_params_valid(params: &Json) -> (b: bool)
    ensures
        b == (nonempty(text_at(params@, "name"@)) is Some),
{
    keep_nonempty(str_member(params, "name")).is_some()
}

// ─── Other params ───────────────────────────────────────────────────────────

/// The `uri` of resource params.
pub fn params_uri(params: &Json) -> (r: Option<&str>)
    ensures
        opt_view(r) == text_at(params@, "uri"@),
{
    str_member(params, "uri")
}

/// The non-empty `uri` of resource params.
pub fn resource_uri_from_params(params: &Json) -> (r: Option<&str>)
    ensures
        opt_view(r) == nonempty(text_at(params@, "uri"@)),
{
    keep_nonempty(str_member(params, "uri"))
}

/// Do `resources/read` params carry a non-empty `uri`?
pub fn resources_read_params_valid(params: &Json) -> (b: bool)
    ensures
        b == (nonempty(text_at(params@, "uri"@)) is Some),
{
    resource_uri_from_params(params).is_some()
}

/// The non-empty `name` of `prompts/get` params.
pub fn prompt_name_from_get_params(params: &Json) -> (r: Option<&str>)
    ensures
        opt_view(r) == nonempty(text_at(params@, "name"@)),
{
    keep_nonempty(str_member(params, "name"))
}

/// Do `prompts/get` params name a prompt (non-empty `name`)?
pub fn prompts_get_params_valid(params: &Json) -> (b: bool)
    ensures
        b == (nonempty(text_at(params@, "name"@)) is Some),
{
    prompt_name_from_get_params(params).is_some()
}

/// The `level` of `logging/setLevel` params.
pub fn logging_level_from_params(params: &Json) -> (r: Option<&str>)
    ensures
        opt_view(r) == text_at(params@, "level"@),
{
    str_member(params, "level")
}

/// The `level` of `logging/setLevel` params.
pub fn log_level_from_set_params(params: &Json) -> (r: Option<&str>)
    ensures
        opt_view(r) == text_at(params@, "level"@),
{
    str_member(params, "level")
}

/// Do `logging/setLevel` params name a known log level?
pub fn logging_set_level_params_valid(params: &Json) -> (b: bool)
    ensures
        b == (text_at(params@, "level"@) matches Some(l) && log_level(l)),
{
    match str_member(params, "level") {
        Some(l) => logging_level_valid(l),
        None => false,
    }
}

/// A text with surrounding whitespace removed, when something remains.
pub open spec fn trimmed_nonempty(t: Option<Seq<char>>) -> Option<Seq<char>> {
    match t {
        Some(s) => nonempty(Some(trim(s))),
        None => None,
    }
}

fn trimmed_member(params: &Json, key: &str) -> (r: Option<String>)
    ensures
        crate::protocol::opt_text(r) == trimmed_nonempty(text_at(params@, key@)),
{
    match str_member(params, key) {
        Some(t) => {
            let s = trim_str(t);
            if s.as_str().is_empty() {
                None
            } else {
                Some(s)
            }
        },
        None => None,
    }
}

/// The `cursor` of list params, trimmed, when not empty.
pub fn cursor_from_list_params(params: &Json) -> (r: Option<String>)
    ensures
        crate::protocol::opt_text(r) == trimmed_nonempty(text_at(params@, "cursor"@)),
{
    trimmed_member(params, "cursor")
}

/// The `uri` of subscribe params, trimmed, when not empty.
pub fn uri_from_subscribe_params(params: &Json) -> (r: Option<String>)
    ensures
        crate::protocol::opt_text(r) == trimmed_nonempty(text_at(params@, "uri"@)),
{
    trimmed_member(params, "uri")
}

/// Do `elicitation/create` params carry a non-empty `message`?
pub fn elicitation_params_valid(params: &Json) -> (b: bool)
    ensures
        b == (nonempty(text_at(params@, "message"@)) is Some),
{
    keep_nonempty(str_member(params, "message")).is_some()
}

/// Are `roots/list` params absent, `null` or an object?
pub fn roots_list_params_valid(params: Option<&Json>) -> (b: bool)
    ensures
        b == match params {
            None => true,
            Some(v) => v@ is Null || v@ is Object,
        },
{
    match params {
        None => true,
        Some(v) => v.is_null() || v.is_object(),
    }
}

// ─── completion/complete params ─────────────────────────────────────────────

/// The `ref.type` of completion params, when it is a known reference type.
pub open spec fn ref_type_v(params: JsonV) -> Option<Seq<char>> {
    match jstr(jget_opt(jget(params, "ref"@), "type"@)) {
        Some(t) => if completion_ref_kind(t) {
            Some(t)
        } else {
            None
        },
        None => None,
    }
}

/// The `ref.type` of completion params, when it is `ref/prompt` or `ref/resource`.
pub fn completion_ref_type(params: &Json) -> (r: Option<&str>)
    ensures
        opt_view(r) == ref_type_v(params@),
{
    match nested_str(params, "ref", "type") {
        Some(t) => if is_valid_completion_ref_type(t) {
            Some(t)
        } else {
            None
        },
        None => None,
    }
}

/// The `argument.value` of completion params.
pub fn completion_argument_value(params: &Json) -> (r: Option<&str>)
    ensures
        opt_view(r) == jstr(jget_opt(jget(params@, "argument"@), "value"@)),
{
    nested_str(params, "argument", "value")
}

/// Is the completion reference a prompt?
pub fn completion_ref_is_prompt(params: &Json) -> (b: bool)
    ensures
        b == (ref_type_v(params@) == Some("ref/prompt"@)),
{
    match completion_ref_type(params) {
        Some(t) => str_eq(t, "ref/prompt"),
        None => false,
    }
}

/// Is the completion reference a resource?
pub fn completion_ref_is_resource(params: &Json) -> (b: bool)
    ensures
        b == (ref_type_v(params@) == Some("ref/resource"@)),
{
    match completion_ref_type(params) {
        Some(t) => str_eq(t, "ref/resource"),
        None => false,
    }
}

/// The `ref.name` of completion params that reference a prompt.
pub fn completion_ref_prompt_name(params: &Json) -> (r: Option<&str>)
    ensures
        opt_view(r) == (if ref_type_v(params@) == Some("ref/prompt"@) {
            jstr(jget_opt(jget(params@, "ref"@), "name"@))
        } else {
            None
        }),
{
    if !completion_ref_is_prompt(params) {
        return None;
    }
    nested_str(params, "ref", "name")
}

// ─── Initialize results and capabilities ────────────────────────────────────

/// The `protocolVersion` of an `initialize` result.
pub fn initialize_result_protocol_version(result: &Json) -> (r: Option<&str>)
    ensures
        opt_view(r) == text_at(result@, "protocolVersion"@),
{
    str_member(result, "protocolVersion")
}

/// The `serverInfo.name` of an `initialize` result.
pub fn initialize_result_server_name(result: &Json) -> (r: Option<&str>)
    ensures
        opt_view(r) == jstr(jget_opt(jget(result@, "serverInfo"@), "name"@)),
{
    nested_str(result, "serverInfo", "name")
}

/// The non-empty `serverInfo.name` of an `initialize` result.
pub fn initialize_server_name(result: &Json) -> (r: Option<&str>)
    ensures
        opt_view(r) == nonempty(jstr(jget_opt(jget(result@, "serverInfo"@), "name"@))),
{
    keep_nonempty(nested_str(result, "serverInfo", "name"))
}

/// The non-empty `serverInfo.version` of an `initialize` result.
pub fn initialize_server_version(result: &Json) -> (r: Option<&str>)
    ensures
        opt_view(r) == nonempty(jstr(jget_opt(jget(result@, "serverInfo"@), "version"@))),
{
    keep_nonempty(nested_str(result, "serverInfo", "version"))
}

/// The non-empty `instructions` of an `initialize` result.
pub fn initialize_instructions(result: &Json) -> (r: Option<&str>)
    ensures
        opt_view(r) == nonempty(text_at(result@, "instructions"@)),
{
    keep_nonempty(str_member(result, "instructions"))
}

/// Does an `initialize` result carry non-empty instructions?
pub fn initialize_has_instructions(result: &Json) -> (b: bool)
    ensures
        b == (nonempty(text_at(result@, "instructions"@)) is Some),
{
    initialize_instructions(result).is_some()
}

/// Does an `initialize` result carry a `serverInfo` object with a `name`?
pub fn initialize_result_has_server_info(result: &Json) -> (b: bool)
    ensures
        b == (jget(result@, "serverInfo"@) matches Some(JsonV::Object(f)) && jget(JsonV::Object(f), "name"@) is Some),
{
    match result.get("serverInfo") {
        Some(info) => info.is_object() && info.get("name").is_some(),
        None => false,
    }
}

/// Do client capabilities declare sampling (present, not `null`)?
pub fn client_has_sampling(capabilities: &Json) -> (b: bool)
    ensures
        b == present(capabilities@, "sampling"@),
{
    is_present(capabilities, "sampling")
}

/// Do client capabilities declare elicitation (present, not `null`)?
pub fn client_has_elicitation(capabilities: &Json) -> (b: bool)
    ensures
        b == present(capabilities@, "elicitation"@),
{
    is_present(capabilities, "elicitation")
}

/// Whether client capabilities declare roots, sampling and elicitation.
pub fn client_capability_flags(capabilities: &Json) -> (r: (bool, bool, bool))
    ensures
        r == (
            present(capabilities@, "roots"@),
            present(capabilities@, "sampling"@),
            present(capabilities@, "elicitation"@),
        ),
{
    (is_present(capabilities, "roots"), client_has_sampling(capabilities), client_has_elicitation(capabilities))
}

// ─── Prompt results and descriptors ─────────────────────────────────────────

/// The `description` of a `prompts/get` result.
pub fn prompt_result_description(result: &Json) -> (r: Option<&str>)
    ensures
        opt_view(r) == text_at(result@, "description"@),
{
    str_member(result, "description")
}

/// The number of messages of a `prompts/get` result.
pub fn prompt_result_message_count(result: &Json) -> (n: usize)
    ensures
        n == items_at(result@, "messages"@).len(),
{
    items_len(result, "messages")
}

/// The `role` of the first message of a `prompts/get` result.
pub fn prompt_result_first_role(result: &Json) -> (r: Option<&str>)
    ensures
        opt_view(r) == match first_at(result@, "messages"@) {
            Some(m) => text_at(m, "role"@),
            None => None,
        },
{
    match first_item(result, "messages") {
        Some(m) => str_member(m, "role"),
        None => None,
    }
}

/// Does a prompt descriptor carry a non-empty `name`?
pub fn prompt_descriptor_name_present(prompt: &Json) -> (b: bool)
    ensures
        b == (nonempty(text_at(prompt@, "name"@)) is Some),
{
    keep_nonempty(str_member(prompt, "name")).is_some()
}

/// Does a tool descriptor carry a non-empty `name`?
pub fn tool_descriptor_name_present(tool: &Json) -> (b: bool)
    ensures
        b == (nonempty(text_at(tool@, "name"@)) is Some),
{
    keep_nonempty(str_member(tool, "name")).is_some()
}

/// Is a tool descriptor's `inputSchema` an object?
pub fn tool_input_schema_is_object(tool: &Json) -> (b: bool)
    ensures
        b == (jget(tool@, "inputSchema"@) matches Some(JsonV::Object(_))),
{
    match tool.get("inputSchema") {
        Some(s) => s.is_object(),
        None => false,
    }
}

/// The non-empty `title` of a tool descriptor.
pub fn tool_title_of(tool: &Json) -> (r: Option<&str>)
    ensures
        opt_view(r) == nonempty(text_at(tool@, "title"@)),
{
    keep_nonempty(str_member(tool, "title"))
}

/// The non-empty `description` of a tool descriptor.
pub fn tool_description(tool: &Json) -> (r: Option<&str>)
    ensures
        opt_view(r) == nonempty(text_at(tool@, "description"@)),
{
    keep_nonempty(str_member(tool, "description"))
}

/// The non-empty `mimeType` of a resource descriptor.
pub fn resource_mime_type(resource: &Json) -> (r: Option<&str>)
    ensures
        opt_view(r) == nonempty(text_at(resource@, "mimeType"@)),
{
    keep_nonempty(str_member(resource, "mimeType"))
}

/// The non-empty `description` of a resource descriptor.
pub fn resource_description(resource: &Json) -> (r: Option<&str>)
    ensures
        opt_view(r) == nonempty(text_at(resource@, "description"@)),
{
    keep_nonempty(str_member(resource, "description"))
}

/// The non-empty `uriTemplate` of a resource template descriptor.
pub fn resource_template_uri_template(template: &Json) -> (r: Option<&str>)
    ensures
        opt_view(r) == nonempty(text_at(template@, "uriTemplate"@)),
{
    keep_nonempty(str_member(template, "uriTemplate"))
}

/// Does a resource template descriptor carry a non-empty `uriTemplate`?
pub fn resource_template_uri_present(template: &Json) -> (b: bool)
    ensures
        b == (nonempty(text_at(template@, "uriTemplate"@)) is Some),
{
    resource_template_uri_template(template).is_some()
}

// ─── Reading back what the builders write ───────────────────────────────────

/// Reading back a failed tool result: the error flag is set and the message
/// is the first text (`tool_error_message(tool_error(m)) == Some(m)`).
pub proof fn lemma_tool_error_reads_back(message: Seq<char>)
    ensures
        ({
            let r = crate::envelopes::tool_result_v(seq![crate::envelopes::text_item_v(message)], true, None);
            &&& marks_error(r)
            &&& first_text_v(r) == Some(message)
        }),
{
    reveal_strlit("content");
    reveal_strlit("isError");
    reveal_strlit("type");
    reveal_strlit("text");
    assert("content"@[0] != "isError"@[0]);
    assert("type"@[1] != "text"@[1]);
    reveal_with_fuel(crate::json::member_pos, 3);
    let r = crate::envelopes::tool_result_v(seq![crate::envelopes::text_item_v(message)], true, None);
    assert(r->Object_0 =~= seq![
        ("content"@, JsonV::Array(seq![crate::envelopes::text_item_v(message)])),
        ("isError"@, JsonV::Bool(true)),
    ]);
}

/// Reading back a list result: its items under the list's key, and the
/// cursor it was given.
pub proof fn lemma_list_reads_back(key: Seq<char>, items: Seq<JsonV>, next_cursor: Option<Seq<char>>)
    requires
        key != "nextCursor"@,
    ensures
        items_at(crate::envelopes::list_result_v(key, items, next_cursor), key) == items,
        text_at(crate::envelopes::list_result_v(key, items, next_cursor), "nextCursor"@) == next_cursor,
{
    reveal_with_fuel(crate::json::member_pos, 3);
}

/// Reading back the names of a `tools/list` result: the tools' names, in order.
pub proof fn lemma_tool_names_read_back(tools: Seq<crate::protocol::Tool>)
    ensures
        member_texts(crate::envelopes::tools_v(tools), "name"@) == Seq::new(tools.len(), |i: int| tools[i].name@),
    decreases tools.len(),
{
    reveal_with_fuel(crate::json::member_pos, 2);
    if tools.len() > 0 {
        let init = tools.drop_last();
        lemma_tool_names_read_back(init);
        assert(crate::envelopes::tools_v(tools).drop_last() =~= crate::envelopes::tools_v(init));
        let t = tools.last();
        assert(crate::envelopes::tools_v(tools).last() == crate::envelopes::tool_v(t));
        assert(text_at(crate::envelopes::tool_v(t), "name"@) == Some(t.name@));
        assert(Seq::new(tools.len(), |i: int| tools[i].name@) =~= Seq::new(init.len(), |i: int| init[i].name@).push(
            t.name@,
        ));
    } else {
        assert(Seq::new(tools.len(), |i: int| tools[i].name@) =~= Seq::<Seq<char>>::empty());
    }
}

/// Reading back a `prompts/get` result: its description and its number of messages.
pub proof fn lemma_prompt_result_reads_back(description: Seq<char>, msgs: Seq<crate::protocol::PromptMessage>)
    ensures
        text_at(crate::envelopes::prompt_result_v(description, msgs), "description"@) == Some(description),
        items_at(crate::envelopes::prompt_result_v(description, msgs), "messages"@).len() == msgs.len(),
{
    reveal_strlit("description");
    reveal_strlit("messages");
    assert("description"@.len() != "messages"@.len());
    reveal_with_fuel(crate::json::member_pos, 3);
}

/// Reading back an `initialize` result: the protocol version, the server's
/// name and version, and the instructions it was given.
pub proof fn lemma_initialize_reads_back(
    protocol_version: Seq<char>,
    name: Seq<char>,
    version: Seq<char>,
    capabilities: JsonV,
    instructions: Option<Seq<char>>,
)
    ensures
        ({
            let r = crate::streamable_http::init_result_v(protocol_version, name, version, capabilities, instructions);
            &&& text_at(r, "protocolVersion"@) == Some(protocol_version)
            &&& jstr(jget_opt(jget(r, "serverInfo"@), "name"@)) == Some(name)
            &&& jstr(jget_opt(jget(r, "serverInfo"@), "version"@)) == Some(version)
            &&& text_at(r, "instructions"@) == instructions
        }),
{
    reveal_strlit("protocolVersion");
    reveal_strlit("capabilities");
    reveal_strlit("serverInfo");
    reveal_strlit("instructions");
    reveal_strlit("name");
    reveal_strlit("version");
    assert("protocolVersion"@.len() != "capabilities"@.len());
    assert("protocolVersion"@.len() != "serverInfo"@.len());
    assert("protocolVersion"@.len() != "instructions"@.len());
    assert("capabilities"@[0] != "serverInfo"@[0]);
    assert("capabilities"@[0] != "instructions"@[0]);
    assert("serverInfo"@.len() != "instructions"@.len());
    assert("name"@.len() != "version"@.len());
    reveal_with_fuel(crate::json::member_pos, 5);
}

} // verus!
