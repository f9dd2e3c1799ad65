//! Cursor-based pagination.
//!
//! A cursor is the unpadded URL-safe base64 encoding of the JSON text
//! `{"offset":N,"pageSize":M}`; it tells where the next page starts and how
//! long pages are.
use vstd::prelude::*;
use base64::Engine;
use vstd::utf8::encode_utf8;
use crate::text::{concat, decimal, push_str, u64_decimal};
use crate::http_auth::opt_view;
use crate::json::{Json, JsonV, jget, json_of_value};
use crate::jsonrpc::opt_json;

verus! {

broadcast use vstd::string::group_string_axioms;

/// Page sizes: the size of a page without cursor, and the largest size a cursor may ask.
#[derive(Debug, Clone, Copy)]
pub struct PaginationOptions {
    pub default_page_size: usize,
    pub max_page_size: usize,
}

impl Default for PaginationOptions {
    /// Pages of 50 by default, at most 100.
    fn default() -> (r: Self)
        ensures
            r.default_page_size == 50,
            r.max_page_size == 100,
    {
        PaginationOptions { default_page_size: 50, max_page_size: 100 }
    }
}

/// One page of items and the cursor of the next page, if any.
pub struct PageResult<T> {
    pub items: Vec<T>,
    pub next_cursor: Option<String>,
}

// ─── Cursor codec ───────────────────────────────────────────────────────────

/// The JSON text a cursor carries.
pub open spec fn cursor_text(offset: nat, page_size: nat) -> Seq<char> {
    "{\"offset\":"@ + decimal(offset) + ",\"pageSize\":"@ + decimal(page_size) + "}"@
}

/// Unpadded URL-safe base64 encoding of the UTF-8 bytes of a text.
pub uninterp spec fn b64url_encode(text: Seq<char>) -> Seq<char>;

/// Unpadded URL-safe base64 decoding; `None` for text that is not such an encoding.
pub uninterp spec fn b64url_decode(text: Seq<char>) -> Option<Seq<u8>>;

/// What `serde_json::from_slice::<serde_json::Value>` reads from bytes;
/// `None` for bytes that are not JSON text.
pub uninterp spec fn json_bytes_reading(bytes: Seq<u8>) -> Option<JsonV>;

/// The JSON value of a cursor's text.
pub open spec fn cursor_object_v(offset: nat, page_size: nat) -> JsonV {
    JsonV::Object(seq![("offset"@, JsonV::Int(offset as int)), ("pageSize"@, JsonV::Int(page_size as int))])
}

/// A non-negative integer within `usize`.
pub open spec fn usize_of(v: Option<JsonV>) -> Option<nat> {
    match v {
        Some(JsonV::Int(n)) => if 0 <= n <= usize::MAX {
            Some(n as nat)
        } else {
            None
        },
        _ => None,
    }
}

/// The offset and page size a cursor's JSON value holds: an object with
/// integer members `offset` and `pageSize` (other members ignored), or an
/// array of exactly those two integers; both within `usize`.
pub open spec fn cursor_fields_v(v: JsonV) -> Option<(nat, nat)> {
    match v {
        JsonV::Object(_) => match (usize_of(jget(v, "offset"@)), usize_of(jget(v, "pageSize"@))) {
            (Some(o), Some(p)) => Some((o, p)),
            _ => None,
        },
        JsonV::Array(a) => if a.len() == 2 {
            match (usize_of(Some(a[0])), usize_of(Some(a[1]))) {
                (Some(o), Some(p)) => Some((o, p)),
                _ => None,
            }
        } else {
            None
        },
        _ => None,
    }
}

/// `URL_SAFE_NO_PAD.encode` of the UTF-8 bytes of `text` (`base64`).
///
/// Trusted: the result is the encoding `base64` computes, named
/// `b64url_encode`, and decoding it gives back the bytes of `text`.
#[verifier::external_body]
fn b64_encode(text: &str) -> (r: String)
    ensures
        r@ == b64url_encode(text@),
        b64url_decode(r@) == Some(encode_utf8(text@)),
{
    base64::engine::general_purpose::URL_SAFE_NO_PAD.encode(text.as_bytes())
}

/// `URL_SAFE_NO_PAD.decode` (`base64`); `None` on a decoding error.
///
/// Trusted: the result is the decoding `base64` computes, named `b64url_decode`.
#[verifier::external_body]
fn b64_decode(text: &str) -> (r: Option<Vec<u8>>)
    ensures
        match r {
            Some(v) => b64url_decode(text@) == Some(v@),
            None => b64url_decode(text@) is None,
        },
{
    match base64::engine::general_purpose::URL_SAFE_NO_PAD.decode(text.as_bytes()) {
        Ok(v) => Some(v),
        Err(_) => None,
    }
}

/// Reads JSON bytes with `serde_json::from_slice` into the library's value.
///
/// Trusted: the result is what `serde_json` reads, named
/// `json_bytes_reading`; the UTF-8 bytes of `{"offset":N,"pageSize":M}`
/// read as that object (numbers within `u64`).
#[verifier::external_body]
fn parse_json_bytes(bytes: &[u8]) -> (r: Option<Json>)
    ensures
        opt_json(r) == json_bytes_reading(bytes@),
        forall|o: nat, s: nat|
            bytes@ == encode_utf8(cursor_text(o, s)) && o <= u64::MAX && s <= u64::MAX ==> opt_json(r) == Some(
                cursor_object_v(o, s),
            ),
{
    match serde_json::from_slice::<serde_json::Value>(bytes) {
        Ok(v) => Some(json_of_value(&v)),
        Err(_) => None,
    }
}

fn usize_member(v: Option<&Json>) -> (r: Option<usize>)
    ensures
        match r {
            Some(n) => usize_of(opt_ref_view(v)) == Some(n as nat),
            None => usize_of(opt_ref_view(v)) is None,
        },
{
    match v {
        Some(Json::Int(n)) => if 0 <= *n && *n <= usize::MAX as i128 {
            Some(*n as usize)
        } else {
            None
        },
        _ => None,
    }
}

/// The view of an optional borrowed value.
pub open spec fn opt_ref_view(v: Option<&Json>) -> Option<JsonV> {
    match v {
        Some(x) => Some(x@),
        None => None,
    }
}

/// A cursor's text holds its offset and page size.
proof fn lemma_cursor_object_fields(o: nat, s: nat)
    requires
        o <= usize::MAX,
        s <= usize::MAX,
    ensures
        cursor_fields_v(cursor_object_v(o, s)) == Some((o, s)),
{
    reveal_strlit("offset");
    reveal_strlit("pageSize");
    let v = cursor_object_v(o, s);
    assert("offset"@ != "pageSize"@) by {
        assert("offset"@.len() != "pageSize"@.len());
    }
    assert(jget(v, "offset"@) == Some(JsonV::Int(o as int)));
    assert(jget(v, "pageSize"@) == Some(JsonV::Int(s as int))) by {
        let f = v->Object_0;
        assert(f.drop_first() =~= seq![("pageSize"@, JsonV::Int(s as int))]);
        assert(crate::json::member_pos(f.drop_first(), "pageSize"@) == 0);
        assert(crate::json::member_pos(f, "pageSize"@) == 1);
    }
}

/// The offset and page size a cursor's JSON value holds (see [`cursor_fields_v`]).
pub fn cursor_fields(v: &Json) -> (r: Option<(usize, usize)>)
    ensures
        match r {
            Some(p) => cursor_fields_v(v@) == Some((p.0 as nat, p.1 as nat)),
            None => cursor_fields_v(v@) is None,
        },
{
    proof {
        reveal_with_fuel(<Json as View>::view, 2);
    }
    match v {
        Json::Object(_) => match (usize_member(v.get("offset")), usize_member(v.get("pageSize"))) {
            (Some(o), Some(p)) => Some((o, p)),
            _ => None,
        },
        Json::Array(a) => if a.len() == 2 {
            assert(v@->Array_0[0] == a@[0]@ && v@->Array_0[1] == a@[1]@);
            match (usize_member(Some(&a[0])), usize_member(Some(&a[1]))) {
                (Some(o), Some(p)) => Some((o, p)),
                _ => None,
            }
        } else {
            None
        },
        _ => None,
    }
}

/// The position and page size a cursor text stands for.
pub open spec fn decoded_cursor(c: Seq<char>) -> Option<(nat, nat)> {
    match b64url_decode(c) {
        Some(b) => match json_bytes_reading(b) {
            Some(v) => cursor_fields_v(v),
            None => None,
        },
        None => None,
    }
}

/// The cursor text for a page starting at `offset` of `page_size` items.
pub open spec fn encoded_cursor(offset: nat, page_size: nat) -> Seq<char> {
    b64url_encode(cursor_text(offset, page_size))
}

/// The cursor for a page starting at `offset` of `page_size` items.
pub fn encode_cursor(offset: usize, page_size: usize) -> (r: String)
    ensures
        r@ == encoded_cursor(offset as nat, page_size as nat),
        b64url_decode(r@) == Some(encode_utf8(cursor_text(offset as nat, page_size as nat))),
{
    let mut text = concat("{\"offset\":", u64_decimal(offset as u64).as_str());
    push_str(&mut text, ",\"pageSize\":");
    push_str(&mut text, u64_decimal(page_size as u64).as_str());
    push_str(&mut text, "}");
    let r = b64_encode(text.as_str());
    proof {
        assert(text@ == cursor_text(offset as nat, page_size as nat));
    }
    r
}

/// The offset and page size a cursor holds; `None` for a text that is not a
/// cursor, or whose numbers do not fit in `usize`.
pub fn decode_cursor(cursor: &str) -> (r: Option<(usize, usize)>)
    ensures
        match r {
            Some(p) => decoded_cursor(cursor@) == Some((p.0 as nat, p.1 as nat)),
            None => decoded_cursor(cursor@) is None,
        },
        forall|o: nat, s: nat|
            b64url_decode(cursor@) == Some(encode_utf8(cursor_text(o, s))) && o <= usize::MAX && s
                <= usize::MAX ==> decoded_cursor(cursor@) == Some((o, s)),
{
    match b64_decode(cursor) {
        None => None,
        Some(bytes) => {
            let parsed = parse_json_bytes(bytes.as_slice());
            proof {
                assert forall|o: nat, s: nat|
                    b64url_decode(cursor@) == Some(encode_utf8(cursor_text(o, s))) && o <= usize::MAX && s
                        <= usize::MAX implies decoded_cursor(cursor@) == Some((o, s)) by {
                    lemma_cursor_object_fields(o, s);
                }
            }
            match parsed {
                Some(v) => cursor_fields(&v),
                None => None,
            }
        },
    }
}

/// The first position and the page size for a request.
pub open spec fn page_window(cursor: Option<Seq<char>>, options: PaginationOptions) -> (nat, nat) {
    match cursor {
        Some(c) => match decoded_cursor(c) {
            Some(p) => if p.0 <= usize::MAX && p.1 <= usize::MAX {
                (p.0, if p.1 < options.max_page_size { p.1 } else { options.max_page_size as nat })
            } else {
                (0, options.default_page_size as nat)
            },
            None => (0, options.default_page_size as nat),
        },
        None => (0, options.default_page_size as nat),
    }
}

/// `r` is the page of `items` for `cursor`: the items from the cursor's
/// offset on, at most a page size of them, each a clone of the item at its
/// place; and a cursor for the next page exactly when items remain after it.
pub open spec fn paged<T: Clone>(items: Seq<T>, cursor: Option<Seq<char>>, options: PaginationOptions, r: PageResult<T>) -> bool {
    let (offset, size) = page_window(cursor, options);
    let end = if offset + size < items.len() {
        offset + size
    } else {
        items.len() as nat
    };
    &&& r.items@.len() == if offset >= items.len() {
        0
    } else {
        end - offset
    }
    &&& forall|i: int| 0 <= i < r.items@.len() ==> cloned::<T>(items[offset + i], #[trigger] r.items@[i])
    &&& (r.next_cursor is Some) == (offset + size < items.len())
    &&& r.next_cursor matches Some(c) ==> c@ == encoded_cursor(offset + size, size) && b64url_decode(c@) == Some(
        encode_utf8(cursor_text(offset + size, size)),
    )
    &&& forall|o: nat, s: nat|
        #![trigger cursor_text(o, s)]
        cursor is Some && b64url_decode(cursor->Some_0) == Some(encode_utf8(cursor_text(o, s))) && o
            <= usize::MAX && s <= usize::MAX ==> decoded_cursor(cursor->Some_0) == Some((o, s))
}

/// The page of `items` for `cursor` (see [`paged`]).
pub fn paginate<T: Clone>(items: &[T], cursor: Option<&str>, options: PaginationOptions) -> (r: PageResult<T>)
    ensures
        paged(items@, opt_view(cursor), options, r),
{
    let mut offset: usize = 0;
    let mut page_size: usize = options.default_page_size;
    match cursor {
        Some(c) => match decode_cursor(c) {
            Some((o, p)) => {
                offset = o;
                page_size = if p < options.max_page_size {
                    p
                } else {
                    options.max_page_size
                };
            },
            None => {},
        },
        None => {},
    }
    let end: usize = if offset < items.len() && page_size < items.len() - offset {
        offset + page_size
    } else {
        items.len()
    };
    let mut page: Vec<T> = Vec::new();
    if offset < items.len() {
        let mut i: usize = offset;
        while i < end
            invariant
                offset <= i <= end <= items@.len(),
                page@.len() == i - offset,
                forall|j: int| 0 <= j < page@.len() ==> cloned::<T>(items@[offset + j], #[trigger] page@[j]),
            decreases end - i,
        {
            page.push(items[i].clone());
            i = i + 1;
        }
    }
    let has_more = offset < items.len() && page_size < items.len() - offset;
    let next_cursor = if has_more {
        Some(encode_cursor(offset + page_size, page_size))
    } else {
        None
    };
    PageResult { items: page, next_cursor }
}

/// The cursor of a page leads to the page that starts where it ended, with
/// the same page size (capped by the maximum).
pub proof fn lemma_next_page_continues(c: Seq<char>, offset: nat, size: nat, options: PaginationOptions)
    requires
        decoded_cursor(c) == Some((offset, size)),
        offset <= usize::MAX,
        size <= usize::MAX,
    ensures
        page_window(Some(c), options) == (offset, if size < options.max_page_size {
            size
        } else {
            options.max_page_size as nat
        }),
{
}

/// Following a page's cursor gives the page that starts right after it, in
/// pages of the same size (capped at the maximum): every item after the
/// first page is reached in order, none twice.
pub proof fn lemma_cursor_chain<T: Clone>(
    items: Seq<T>,
    cursor: Option<Seq<char>>,
    options: PaginationOptions,
    first: PageResult<T>,
    second: PageResult<T>,
)
    requires
        items.len() <= usize::MAX,
        paged(items, cursor, options, first),
        first.next_cursor is Some,
        paged(items, Some(first.next_cursor->Some_0@), options, second),
    ensures
        ({
            let (offset, size) = page_window(cursor, options);
            &&& page_window(Some(first.next_cursor->Some_0@), options) == (offset + size, if size
                < options.max_page_size {
                size
            } else {
                options.max_page_size as nat
            })
            &&& forall|i: int|
                0 <= i < second.items@.len() ==> cloned::<T>(items[offset + size + i], #[trigger] second.items@[i])
        }),
{
    let (offset, size) = page_window(cursor, options);
    let c = first.next_cursor->Some_0@;
    assert(b64url_decode(c) == Some(encode_utf8(cursor_text(offset + size, size))));
    assert(decoded_cursor(c) == Some((offset + size, size)));
}

/// The items of `pages`, one page after the other.
pub open spec fn all_items<T>(pages: Seq<PageResult<T>>) -> Seq<T>
    decreases pages.len(),
{
    if pages.len() == 0 {
        Seq::empty()
    } else {
        all_items(pages.drop_last()) + pages.last().items@
    }
}

/// The cursor page `j` of a chain was asked with: none for the first page,
/// then the next cursor of the page before.
pub open spec fn chain_cursor<T>(pages: Seq<PageResult<T>>, j: int) -> Option<Seq<char>> {
    if j == 0 {
        None
    } else {
        Some(pages[j - 1].next_cursor->Some_0@)
    }
}

/// `pages` are the pages of `items` from the first one, each asked with the
/// next cursor of the one before, up to a page without a next cursor.
pub open spec fn cursor_chain<T: Clone>(items: Seq<T>, options: PaginationOptions, pages: Seq<PageResult<T>>) -> bool {
    &&& pages.len() > 0
    &&& forall|j: int| 0 <= j < pages.len() ==> paged(items, chain_cursor(pages, j), options, #[trigger] pages[j])
    &&& forall|j: int| 0 <= j < pages.len() - 1 ==> (#[trigger] pages[j]).next_cursor is Some
    &&& pages.last().next_cursor is None
}

/// What one page of a chain tells: where it starts, that a page with a
/// next cursor is full, and that its items are those at its place.
proof fn lemma_page_facts<T: Clone>(items: Seq<T>, cursor: Option<Seq<char>>, options: PaginationOptions, page: PageResult<T>)
    requires
        paged(items, cursor, options, page),
    ensures
        ({
            let (o, size) = page_window(cursor, options);
            &&& page.next_cursor is Some ==> page.items@.len() == size && o + size < items.len()
            &&& page.next_cursor is None && o <= items.len() ==> o + page.items@.len() == items.len()
            &&& forall|i: int|
                0 <= i < page.items@.len() ==> cloned::<T>(items[o + i], #[trigger] page.items@[i])
        }),
{
}

/// Appending the next page of a chain keeps the items in their places.
proof fn lemma_chain_step<T: Clone>(
    items: Seq<T>,
    options: PaginationOptions,
    cursor: Option<Seq<char>>,
    prev: PageResult<T>,
    next: PageResult<T>,
    before: Seq<T>,
)
    requires
        items.len() <= usize::MAX,
        paged(items, cursor, options, prev),
        prev.next_cursor is Some,
        paged(items, Some(prev.next_cursor->Some_0@), options, next),
        before.len() == page_window(cursor, options).0 + prev.items@.len(),
        forall|p: int| 0 <= p < before.len() ==> cloned::<T>(items[p], #[trigger] before[p]),
    ensures
        ({
            let o = page_window(Some(prev.next_cursor->Some_0@), options).0;
            &&& o < items.len()
            &&& (before + next.items@).len() == o + next.items@.len()
            &&& forall|p: int|
                0 <= p < (before + next.items@).len() ==> cloned::<T>(items[p], #[trigger] (before + next.items@)[p])
        }),
{
    lemma_page_facts(items, cursor, options, prev);
    lemma_cursor_chain(items, cursor, options, prev, next);
    let all = before + next.items@;
    assert forall|p: int| 0 <= p < all.len() implies cloned::<T>(items[p], #[trigger] all[p]) by {
        if p >= before.len() {
            assert(all[p] == next.items@[p - before.len()]);
        } else {
            assert(all[p] == before[p]);
        }
    }
}

proof fn lemma_chain_prefix<T: Clone>(items: Seq<T>, options: PaginationOptions, pages: Seq<PageResult<T>>, k: int)
    requires
        items.len() <= usize::MAX,
        cursor_chain(items, options, pages),
        1 <= k <= pages.len(),
    ensures
        page_window(chain_cursor(pages, k - 1), options).0 <= items.len(),
        all_items(pages.take(k)).len() == page_window(chain_cursor(pages, k - 1), options).0
            + pages[k - 1].items@.len(),
        forall|p: int|
            0 <= p < all_items(pages.take(k)).len() ==> cloned::<T>(items[p], #[trigger] all_items(pages.take(k))[p]),
    decreases k,
{
    let last = pages[k - 1];
    assert(paged(items, chain_cursor(pages, k - 1), options, last));
    assert(pages.take(k).drop_last() =~= pages.take(k - 1));
    assert(all_items(pages.take(k)) == all_items(pages.take(k - 1)) + last.items@);
    if k == 1 {
        assert(all_items(pages.take(0)) =~= Seq::<T>::empty());
        lemma_page_facts(items, chain_cursor(pages, 0), options, last);
        assert(all_items(pages.take(1)) =~= last.items@);
    } else {
        lemma_chain_prefix(items, options, pages, k - 1);
        let prev = pages[k - 2];
        assert(paged(items, chain_cursor(pages, k - 2), options, prev));
        assert(prev.next_cursor is Some);
        lemma_chain_step(items, options, chain_cursor(pages, k - 2), prev, last, all_items(pages.take(k - 1)));
    }
}

/// Following the cursors from the first page to the page without one gives
/// every item exactly once, in order.
pub proof fn lemma_cursor_chain_covers<T: Clone>(items: Seq<T>, options: PaginationOptions, pages: Seq<PageResult<T>>)
    requires
        items.len() <= usize::MAX,
        cursor_chain(items, options, pages),
    ensures
        all_items(pages).len() == items.len(),
        forall|p: int| 0 <= p < items.len() ==> cloned::<T>(items[p], #[trigger] all_items(pages)[p]),
{
    let n = pages.len() as int;
    lemma_chain_prefix(items, options, pages, n);
    assert(pages.take(n) =~= pages);
    assert(paged(items, chain_cursor(pages, n - 1), options, pages[n - 1]));
    lemma_page_facts(items, chain_cursor(pages, n - 1), options, pages[n - 1]);
}

/// A page never holds more items than its page size, and a cursor never asks
/// for more than the maximum page size.
pub proof fn lemma_page_size_bounded(cursor: Option<Seq<char>>, options: PaginationOptions)
    ensures
        cursor is None ==> page_window(cursor, options).1 == options.default_page_size,
        page_window(cursor, options).1 <= if options.default_page_size < options.max_page_size {
            options.max_page_size as nat
        } else {
            options.default_page_size as nat
        },
{
}

} // verus!
