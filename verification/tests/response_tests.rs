use httpc::error::Error;
use httpc::render::{
    decimal_string, json_body, layout, plain_text, render, render_body, render_headers,
    render_status, Span, Style,
};
use httpc::response::{
    essence_or_error, get_content_type, select_format, BodyFormat, Header, ResponseView,
};

fn header(name: &str, value: &str) -> Header {
    Header { name: name.to_string(), value: value.to_string() }
}

fn span(style: Style, text: &str) -> Span {
    Span { style, text: text.to_string() }
}

fn response(status: u16, headers: Vec<Header>, body: &str) -> ResponseView {
    ResponseView { version: "HTTP/1.1".to_string(), status, headers, body: body.to_string() }
}

#[test]
fn decimal_string_exact_values() {
    assert_eq!(decimal_string(0), "0");
    assert_eq!(decimal_string(7), "7");
    assert_eq!(decimal_string(10), "10");
    assert_eq!(decimal_string(200), "200");
    assert_eq!(decimal_string(404), "404");
    assert_eq!(decimal_string(65535), "65535");
}

#[test]
fn status_line_is_version_and_code() {
    let resp = response(200, Vec::new(), "");
    assert_eq!(render_status(&resp), span(Style::Status, "HTTP/1.1 200"));
}

#[test]
fn headers_keep_order_and_duplicates() {
    let resp = response(
        200,
        vec![header("set-cookie", "a=1"), header("server", "x"), header("set-cookie", "b=2")],
        "",
    );
    assert_eq!(
        render_headers(&resp),
        vec![
            span(Style::HeaderName, "set-cookie"),
            span(Style::Plain, ": a=1\n"),
            span(Style::HeaderName, "server"),
            span(Style::Plain, ": x\n"),
            span(Style::HeaderName, "set-cookie"),
            span(Style::Plain, ": b=2\n"),
        ]
    );
}

#[test]
fn header_lookup_takes_the_first() {
    let resp = response(200, vec![header("x", "1"), header("y", "2"), header("x", "3")], "");
    assert_eq!(resp.header("x"), Some("1"));
    assert_eq!(resp.header("y"), Some("2"));
    assert_eq!(resp.header("z"), None);
}

#[test]
fn content_type_absent_is_none() {
    let resp = response(200, vec![header("server", "x")], "ok");
    assert_eq!(get_content_type(&resp), Ok(None));
}

#[test]
fn content_type_essence_drops_parameters() {
    let resp = response(200, vec![header("content-type", "application/json; charset=utf-8")], "");
    assert_eq!(get_content_type(&resp), Ok(Some("application/json".to_string())));
}

#[test]
fn content_type_essence_is_lower_case() {
    let resp = response(200, vec![header("content-type", "Text/HTML")], "");
    assert_eq!(get_content_type(&resp), Ok(Some("text/html".to_string())));
}

#[test]
fn content_type_invalid_is_an_error() {
    let resp = response(200, vec![header("content-type", "not a media type")], "");
    let r = get_content_type(&resp);
    assert_eq!(r, Err(Error::InvalidContentType("not a media type".to_string())));
    assert_eq!(r.unwrap_err().message(), "invalid content type: not a media type");
}

#[test]
fn essence_or_error_follows_the_parser() {
    assert_eq!(essence_or_error("v", Some("a/b".to_string())), Ok(Some("a/b".to_string())));
    assert_eq!(essence_or_error("v", None), Err(Error::InvalidContentType("v".to_string())));
}

#[test]
fn format_is_json_only_for_exact_essence() {
    assert_eq!(select_format(&Some("application/json".to_string())), BodyFormat::Json);
    assert_eq!(select_format(&Some("application/json+xml".to_string())), BodyFormat::PlainText);
    assert_eq!(select_format(&Some("text/plain".to_string())), BodyFormat::PlainText);
    assert_eq!(select_format(&None), BodyFormat::PlainText);
}

#[test]
fn json_body_maps_formatter_outcome() {
    assert_eq!(json_body(Ok("{}".to_string())), Ok(span(Style::Json, "{}")));
    let r = json_body(Err("broken".to_string()));
    assert_eq!(r, Err(Error::MalformedResponseBody("broken".to_string())));
    assert_eq!(r.unwrap_err().message(), "malformed response body: broken");
}

#[test]
fn plain_body_is_unchanged() {
    let body = "  {\"a\":1}\r\n\ttext \u{e9}\n";
    assert_eq!(render_body(BodyFormat::PlainText, body), Ok(span(Style::Plain, body)));
}

#[test]
fn json_body_is_indented() {
    let r = render_body(BodyFormat::Json, "{\"a\":1}").unwrap();
    assert_eq!(r, span(Style::Json, "{\n  \"a\": 1\n}"));
}

#[test]
fn json_pretty_printing_is_idempotent() {
    let once = render_body(BodyFormat::Json, "{\"a\":[1,2],\"b\":{\"c\":null}}").unwrap();
    assert!(once.text.contains("\n  "));
    let twice = render_body(BodyFormat::Json, &once.text).unwrap();
    assert_eq!(once, twice);
}

#[test]
fn layout_puts_a_blank_line_before_the_body() {
    let resp = response(404, vec![header("server", "x")], "ignored");
    assert_eq!(
        layout(&resp, span(Style::Plain, "gone")),
        vec![
            span(Style::Status, "HTTP/1.1 404"),
            span(Style::Plain, "\n"),
            span(Style::HeaderName, "server"),
            span(Style::Plain, ": x\n"),
            span(Style::Plain, "\n"),
            span(Style::Plain, "gone"),
            span(Style::Plain, "\n"),
        ]
    );
}

#[test]
fn render_plain_text_response() {
    let resp = response(200, vec![header("content-type", "text/plain")], "ok");
    let spans = render(&resp).unwrap();
    assert_eq!(spans[0], span(Style::Status, "HTTP/1.1 200"));
    assert_eq!(spans[spans.len() - 2], span(Style::Plain, "ok"));
    assert_eq!(plain_text(&spans), "HTTP/1.1 200\ncontent-type: text/plain\n\nok\n");
}

#[test]
fn render_without_content_type_is_verbatim() {
    let resp = response(204, Vec::new(), "{\"a\":1}");
    let spans = render(&resp).unwrap();
    assert_eq!(plain_text(&spans), "HTTP/1.1 204\n\n{\"a\":1}\n");
}

#[test]
fn render_json_response() {
    let resp = response(200, vec![header("content-type", "application/json")], "{\"a\":1}");
    let spans = render(&resp).unwrap();
    assert_eq!(spans[spans.len() - 2], span(Style::Json, "{\n  \"a\": 1\n}"));
    assert_eq!(
        plain_text(&spans),
        "HTTP/1.1 200\ncontent-type: application/json\n\n{\n  \"a\": 1\n}\n"
    );
}

#[test]
fn render_json_with_charset_parameter() {
    let resp =
        response(200, vec![header("content-type", "application/json; charset=utf-8")], "[1,2]");
    let spans = render(&resp).unwrap();
    assert_eq!(spans[spans.len() - 2], span(Style::Json, "[\n  1,\n  2\n]"));
}

#[test]
fn render_invalid_content_type_fails() {
    let resp = response(200, vec![header("content-type", "///")], "ok");
    assert_eq!(render(&resp), Err(Error::InvalidContentType("///".to_string())));
}

#[test]
fn plain_text_concatenates_spans() {
    assert_eq!(plain_text(&Vec::new()), "");
    assert_eq!(plain_text(&vec![span(Style::Json, "a"), span(Style::Plain, "b\n")]), "ab\n");
}
