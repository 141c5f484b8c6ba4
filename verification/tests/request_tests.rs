use httpc::error::Error;
use httpc::form::{encode_component, encode_form, join_encoded};
use httpc::request::{
    build, build_checked, checked_url, parse_fields, parse_kv_pair, parse_url, KvPair, Method,
};

fn pair(key: &str, value: &str) -> KvPair {
    KvPair { key: key.to_string(), value: value.to_string() }
}

fn strings(items: &[&str]) -> Vec<String> {
    items.iter().map(|s| s.to_string()).collect()
}

#[test]
fn kv_pair_splits_on_equals() {
    assert_eq!(parse_kv_pair("name=alice"), Ok(pair("name", "alice")));
    assert_eq!(KvPair::from_str("age=30"), Ok(pair("age", "30")));
}

#[test]
fn kv_pair_value_keeps_further_equals() {
    assert_eq!(parse_kv_pair("a=b=c"), Ok(pair("a", "b=c")));
    assert_eq!(parse_kv_pair("q=x==y="), Ok(pair("q", "x==y=")));
}

#[test]
fn kv_pair_empty_key_or_value() {
    assert_eq!(parse_kv_pair("="), Ok(pair("", "")));
    assert_eq!(parse_kv_pair("k="), Ok(pair("k", "")));
    assert_eq!(parse_kv_pair("=v"), Ok(pair("", "v")));
}

#[test]
fn kv_pair_counts_characters_not_bytes() {
    assert_eq!(parse_kv_pair("n\u{e4}me=v\u{e4}lue"), Ok(pair("n\u{e4}me", "v\u{e4}lue")));
}

#[test]
fn kv_pair_without_equals_is_refused() {
    assert_eq!(parse_kv_pair("bad"), Err(Error::InvalidFieldSyntax("bad".to_string())));
    assert_eq!(parse_kv_pair(""), Err(Error::InvalidFieldSyntax(String::new())));
}

#[test]
fn url_absolute_is_kept() {
    assert_eq!(
        parse_url("https://example.com/status/200"),
        Ok("https://example.com/status/200".to_string())
    );
}

#[test]
fn url_without_scheme_is_refused() {
    assert_eq!(parse_url("example.com/x"), Err(Error::InvalidUrl("example.com/x".to_string())));
    assert_eq!(parse_url("/status/200"), Err(Error::InvalidUrl("/status/200".to_string())));
    assert_eq!(parse_url(""), Err(Error::InvalidUrl(String::new())));
}

#[test]
fn checked_url_follows_the_verdict() {
    assert_eq!(checked_url("anything", true), Ok("anything".to_string()));
    assert_eq!(checked_url("anything", false), Err(Error::InvalidUrl("anything".to_string())));
}

#[test]
fn fields_keep_order_and_duplicates() {
    let fields = parse_fields(&strings(&["b=2", "a=1", "b=3"])).unwrap();
    assert_eq!(fields, vec![pair("b", "2"), pair("a", "1"), pair("b", "3")]);
}

#[test]
fn fields_report_first_bad_one() {
    let r = parse_fields(&strings(&["a=1", "oops", "also bad"]));
    assert_eq!(r, Err(Error::InvalidFieldSyntax("oops".to_string())));
}

#[test]
fn build_get_has_no_body() {
    let spec = build(Method::Get, "https://example.com/status/200", &Vec::new()).unwrap();
    assert_eq!(spec.method, Method::Get);
    assert_eq!(spec.url, "https://example.com/status/200");
    assert!(spec.fields.is_empty());
    assert_eq!(spec.body(), None);
    assert_eq!(spec.content_type(), None);
}

#[test]
fn build_get_ignores_fields() {
    let spec = build(Method::Get, "https://example.com/", &strings(&["bad"])).unwrap();
    assert!(spec.fields.is_empty());
    assert_eq!(spec.body(), None);
}

#[test]
fn build_post_encodes_fields_in_order() {
    let spec =
        build(Method::Post, "https://example.com/echo", &strings(&["name=alice", "age=30"]))
            .unwrap();
    assert_eq!(spec.method, Method::Post);
    assert_eq!(spec.fields, vec![pair("name", "alice"), pair("age", "30")]);
    assert_eq!(spec.body(), Some("name=alice&age=30".to_string()));
    assert_eq!(spec.content_type(), Some("application/x-www-form-urlencoded"));
}

#[test]
fn build_post_without_fields_has_empty_body() {
    let spec = build(Method::Post, "https://example.com/echo", &Vec::new()).unwrap();
    assert_eq!(spec.body(), Some(String::new()));
    assert_eq!(spec.content_type(), Some("application/x-www-form-urlencoded"));
}

#[test]
fn build_post_bad_field_is_refused() {
    let r = build(Method::Post, "https://example.com/x", &strings(&["bad"]));
    assert_eq!(r, Err(Error::InvalidFieldSyntax("bad".to_string())));
    assert_eq!(r.unwrap_err().message(), "invalid key-value pair: bad");
}

#[test]
fn build_invalid_url_is_refused() {
    let r = build(Method::Get, "not a url", &Vec::new());
    assert_eq!(r, Err(Error::InvalidUrl("not a url".to_string())));
    assert_eq!(r.unwrap_err().message(), "invalid URL: not a url");
}

#[test]
fn build_judges_url_before_fields() {
    let r = build(Method::Post, "example.com", &strings(&["bad"]));
    assert_eq!(r, Err(Error::InvalidUrl("example.com".to_string())));
}

#[test]
fn build_checked_takes_the_verdict_as_given() {
    let raw = strings(&["a=1"]);
    assert_eq!(
        build_checked(Method::Post, "u", false, &raw),
        Err(Error::InvalidUrl("u".to_string()))
    );
    let spec = build_checked(Method::Post, "u", true, &raw).unwrap();
    assert_eq!(spec.url, "u");
    assert_eq!(spec.fields, vec![pair("a", "1")]);
}

#[test]
fn join_encoded_joins_with_ampersand() {
    assert_eq!(join_encoded(&Vec::new()), "");
    assert_eq!(join_encoded(&vec![pair("a", "1")]), "a=1");
    assert_eq!(join_encoded(&vec![pair("a", "1"), pair("b", "2"), pair("a", "3")]), "a=1&b=2&a=3");
}

#[test]
fn encode_form_escapes_reserved_characters() {
    let fields = vec![pair("full name", "a&b=c"), pair("caf\u{e9}", "100%")];
    assert_eq!(encode_form(&fields), "full+name=a%26b%3Dc&caf%C3%A9=100%25");
}

#[test]
fn encode_form_leaves_unreserved_characters() {
    assert_eq!(encode_form(&vec![pair("A-z_0.9*", "ok")]), "A-z_0.9*=ok");
}

#[test]
fn encode_component_byte_classes() {
    assert_eq!(encode_component(""), "");
    assert_eq!(encode_component("*-._"), "*-._");
    assert_eq!(encode_component("09AZaz"), "09AZaz");
    assert_eq!(encode_component(" "), "+");
    assert_eq!(encode_component("+"), "%2B");
    assert_eq!(encode_component("/:@[`{"), "%2F%3A%40%5B%60%7B");
    assert_eq!(encode_component("),,~"), "%29%2C%2C%7E");
    assert_eq!(encode_component("\u{0}\n\u{7f}"), "%00%0A%7F");
    assert_eq!(encode_component("\u{20ac}"), "%E2%82%AC");
}
