use base64::Engine;
use mcp_sdk::pagination::{decode_cursor, encode_cursor, paginate, PaginationOptions};

#[test]
fn first_page_default() {
    let items: Vec<i32> = (0..120).collect();
    let page = paginate(&items, None, PaginationOptions::default());
    assert_eq!(page.items.len(), 50);
    assert!(page.next_cursor.is_some());
    assert_eq!(page.items[0], 0);
    assert_eq!(page.items[49], 49);
}

#[test]
fn second_page_via_cursor() {
    let items: Vec<i32> = (0..120).collect();
    let first = paginate(&items, None, PaginationOptions::default());
    let second = paginate(&items, first.next_cursor.as_deref(), PaginationOptions::default());
    assert_eq!(second.items[0], 50);
    assert_eq!(second.items.len(), 50);
}

#[test]
fn last_page_no_cursor() {
    let items: Vec<i32> = (0..10).collect();
    let page = paginate(&items, None, PaginationOptions { default_page_size: 50, max_page_size: 100 });
    assert_eq!(page.items.len(), 10);
    assert!(page.next_cursor.is_none());
}

#[test]
fn bad_cursor_falls_back() {
    let items = vec![1, 2, 3];
    let page = paginate(&items, Some("!!!"), PaginationOptions::default());
    assert_eq!(page.items, vec![1, 2, 3]);
}

#[test]
fn max_page_size_caps() {
    let items: Vec<i32> = (0..200).collect();
    let cursor = encode_cursor(0, 10_000);
    let page = paginate(&items, Some(&cursor), PaginationOptions { default_page_size: 50, max_page_size: 100 });
    assert_eq!(page.items.len(), 100);
}

#[test]
fn bulk_paginate_empty_and_offset_past_end() {
    let items: Vec<i32> = vec![];
    let page = paginate(&items, None, PaginationOptions::default());
    assert!(page.items.is_empty());
    assert!(page.next_cursor.is_none());
    let items = vec![1, 2, 3];
    let cursor = encode_cursor(99, 2);
    let page = paginate(&items, Some(&cursor), PaginationOptions::default());
    assert!(page.items.is_empty());
    assert!(page.next_cursor.is_none());
}

#[test]
fn bulk_decode_cursor_rejects_garbage() {
    assert!(decode_cursor("!!!not-base64!!!").is_none());
    assert!(decode_cursor("").is_none());
    let good = encode_cursor(0, 10);
    assert!(decode_cursor(&good).is_some());
}

#[test]
fn cursor_round_trip_and_text() {
    let c = encode_cursor(50, 25);
    // base64url without padding of {"offset":50,"pageSize":25}
    assert_eq!(c, "eyJvZmZzZXQiOjUwLCJwYWdlU2l6ZSI6MjV9");
    assert_eq!(decode_cursor(&c), Some((50, 25)));
    assert_eq!(decode_cursor("eyJvZmZzZXQiOjUwfQ"), None); // {"offset":50}
}

#[test]
fn next_page_continues_where_the_last_ended() {
    let items: Vec<i32> = (0..7).collect();
    let opts = PaginationOptions { default_page_size: 3, max_page_size: 3 };
    let p1 = paginate(&items, None, opts);
    assert_eq!(p1.items, vec![0, 1, 2]);
    let p2 = paginate(&items, p1.next_cursor.as_deref(), opts);
    assert_eq!(p2.items, vec![3, 4, 5]);
    let p3 = paginate(&items, p2.next_cursor.as_deref(), opts);
    assert_eq!(p3.items, vec![6]);
    assert!(p3.next_cursor.is_none());
}

#[test]
fn page_never_exceeds_max_size() {
    let items: Vec<i32> = (0..40).collect();
    let opts = PaginationOptions { default_page_size: 5, max_page_size: 8 };
    let cursor = encode_cursor(3, 30);
    let page = paginate(&items, Some(&cursor), opts);
    assert_eq!(page.items.len(), 8);
    assert_eq!(page.items[0], 3);
    assert_eq!(decode_cursor(page.next_cursor.as_deref().unwrap()), Some((11, 8)));
}

#[test]
fn cursor_forms_read_like_the_cursor_struct() {
    let enc = |t: &str| base64::engine::general_purpose::URL_SAFE_NO_PAD.encode(t.as_bytes());
    assert_eq!(decode_cursor(&enc("[5,10]")), Some((5, 10)));
    assert_eq!(decode_cursor(&enc("[5,10,1]")), None);
    assert_eq!(decode_cursor(&enc(r#"{"pageSize":3,"offset":7,"x":true}"#)), Some((7, 3)));
    assert_eq!(decode_cursor(&enc(r#"{"offset":7}"#)), None);
    assert_eq!(decode_cursor(&enc(r#"{"offset":-1,"pageSize":3}"#)), None);
    assert_eq!(decode_cursor(&enc(r#"{"offset":1.5,"pageSize":3}"#)), None);
    assert_eq!(decode_cursor(&encode_cursor(12, 4)), Some((12, 4)));
}

#[test]
fn cursor_chain_covers_every_item_once() {
    let items: Vec<i32> = (0..123).collect();
    let options = PaginationOptions { default_page_size: 10, max_page_size: 10 };
    let mut all: Vec<i32> = Vec::new();
    let mut page = paginate(&items, None, options);
    loop {
        all.extend(page.items.iter().copied());
        match page.next_cursor.clone() {
            Some(c) => page = paginate(&items, Some(&c), options),
            None => break,
        }
    }
    assert_eq!(all, items);
}
