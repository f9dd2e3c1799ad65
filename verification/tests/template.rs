use mcp_sdk::template::{
    apply_template_params, completion_values_from_resource_uris, extract_params, interpolate, is_file_uri,
    is_http_or_https_uri, matches_template, resource_uri_matches_completion, subscription_add, subscription_remove,
    uri_scheme,
};
use mcp_sdk::textmap::TextMap;

fn params(pairs: &[(&str, &str)]) -> TextMap<String> {
    let mut m = TextMap::new();
    for (k, v) in pairs {
        m.insert((*k).to_string(), (*v).to_string());
    }
    m
}

#[test]
fn extract_params_segments() {
    let p = extract_params("users://{id}/posts/{post}", "users://42/posts/7").expect("match");
    assert_eq!(p.len(), 2);
    assert_eq!(p.get("id").map(String::as_str), Some("42"));
    assert_eq!(p.get("post").map(String::as_str), Some("7"));
    assert!(extract_params("users://{id}", "users://a/b").is_none());
    assert!(extract_params("users://{id}", "users://").is_none());
    assert!(extract_params("users://{id", "users://x").is_none());
    assert!(extract_params("users://{}", "users://x").is_none());
    assert!(extract_params("a{x}b", "ayb").is_some());
    assert!(matches_template("static://x", "static://x"));
    assert!(!matches_template("static://x", "static://y"));
}

#[test]
fn apply_is_inverse_of_extract() {
    let t = "file:///{dir}/{name}.txt";
    let uri = "file:///docs/readme.txt";
    let p = extract_params(t, uri).expect("match");
    assert_eq!(apply_template_params(t, &p).as_deref(), Some(uri));
    assert_eq!(apply_template_params("x://{a}", &params(&[("a", "b/c")])), None);
    assert_eq!(apply_template_params("x://{a}", &params(&[("a", "")])), None);
    assert_eq!(apply_template_params("x://{a}", &params(&[])), None);
    assert_eq!(apply_template_params("plain", &params(&[])).as_deref(), Some("plain"));
}

#[test]
fn interpolate_keys() {
    let args = params(&[("name", "Ada"), ("x_1", "y")]);
    assert_eq!(interpolate("Hi {{name}}!", &args), "Hi Ada!");
    assert_eq!(interpolate("{{x_1}}{{name}}", &args), "yAda");
    assert_eq!(interpolate("{{bad key}}", &args), "{{bad key}}");
    assert_eq!(interpolate("{{name", &args), "{{name");
    assert_eq!(interpolate("{{}}", &args), "{{}}");
}

#[test]
fn uri_schemes() {
    assert_eq!(uri_scheme("https://x").as_deref(), Some("https"));
    assert_eq!(uri_scheme("a+b-c.d:rest").as_deref(), Some("a+b-c.d"));
    assert_eq!(uri_scheme("1abc:x"), None);
    assert_eq!(uri_scheme(":x"), None);
    assert_eq!(uri_scheme("noscheme"), None);
    assert!(is_http_or_https_uri("http://a"));
    assert!(!is_http_or_https_uri("HTTP://a"));
    assert!(is_file_uri("file:///tmp"));
    assert!(!is_file_uri("https://x"));
}

#[test]
fn subscriptions_add_and_remove() {
    let (s, added) = subscription_add(&[], "u://a");
    assert!(added);
    assert_eq!(s, vec!["u://a".to_string()]);
    let (s2, added2) = subscription_add(&s, "u://a");
    assert!(!added2);
    assert_eq!(s2, s);
    let existing = vec!["u://a".to_string(), "u://b".to_string(), "u://a".to_string()];
    let (r, removed) = subscription_remove(&existing, "u://a");
    assert!(removed);
    assert_eq!(r, vec!["u://b".to_string()]);
    let (r2, removed2) = subscription_remove(&r, "u://zzz");
    assert!(!removed2);
    assert_eq!(r2, r);
}

#[test]
fn completion_filters() {
    assert!(resource_uri_matches_completion("file:///abc", "b"));
    assert!(!resource_uri_matches_completion("file:///abc", "z"));
    let v = completion_values_from_resource_uris(&["a://x1", "a://y", "b://x2"], "x");
    assert_eq!(v, vec!["a://x1".to_string(), "b://x2".to_string()]);
}
