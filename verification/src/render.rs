//! Laying a response out as styled text: the status line, the headers, a
//! blank line and the body.

use crate::error::{Error, ErrorView};
use crate::response::{
    content_type_of, format_of, get_content_type, headers_view, select_format, BodyFormat,
    ResponseView,
};
use vstd::prelude::*;
use vstd::string::*;

verus! {

/// How a piece of output is to be set off from the rest.
#[derive(Clone, Copy, Debug, PartialEq, Eq, Structural)]
pub enum Style {
    /// The status line.
    Status,
    /// A header's name.
    HeaderName,
    /// A body that was reformatted as JSON.
    Json,
    /// Everything else.
    Plain,
}

/// A run of output in one style. Line breaks are part of the text.
#[derive(Debug, Clone, PartialEq, Eq)]
pub struct Span {
    pub style: Style,
    pub text: String,
}

impl View for Span {
    type V = (Style, Seq<char>);

    open spec fn view(&self) -> (Style, Seq<char>) {
        (self.style, self.text@)
    }
}

/// The views of a sequence of spans, in order.
pub open spec fn spans_view(v: Seq<Span>) -> Seq<(Style, Seq<char>)> {
    Seq::new(v.len(), |i: int| v[i]@)
}

/// The character for a decimal digit.
pub open spec fn digit(d: nat) -> char {
    seq!['0', '1', '2', '3', '4', '5', '6', '7', '8', '9'][d as int]
}

/// A number in decimal, without sign or leading zeros.
pub open spec fn decimal(n: nat) -> Seq<char>
    decreases n,
{
    if n < 10 {
        seq![digit(n)]
    } else {
        decimal(n / 10).push(digit(n % 10))
    }
}

/// The status line: the protocol version, a space, the status code.
pub open spec fn status_line(version: Seq<char>, status: nat) -> Seq<char> {
    version + seq![' '] + decimal(status)
}

/// The header lines: for each header its name in the header style, then
/// `: `, the value and a line break in the plain style.
pub open spec fn header_spans(headers: Seq<(Seq<char>, Seq<char>)>) -> Seq<(Style, Seq<char>)>
    decreases headers.len(),
{
    if headers.len() == 0 {
        Seq::empty()
    } else {
        header_spans(headers.drop_last()).push((Style::HeaderName, headers.last().0)).push(
            (Style::Plain, seq![':', ' '] + headers.last().1 + seq!['\n']),
        )
    }
}

/// The whole output around a body span: status line, header lines, a blank
/// line, the body and a final line break.
pub open spec fn layout_spec(
    version: Seq<char>,
    status: nat,
    headers: Seq<(Seq<char>, Seq<char>)>,
    body: (Style, Seq<char>),
) -> Seq<(Style, Seq<char>)> {
    seq![(Style::Status, status_line(version, status)), (Style::Plain, seq!['\n'])] + header_spans(
        headers,
    ) + seq![(Style::Plain, seq!['\n']), body, (Style::Plain, seq!['\n'])]
}

/// The texts of the spans, one after the other.
pub open spec fn concat_text(spans: Seq<(Style, Seq<char>)>) -> Seq<char>
    decreases spans.len(),
{
    if spans.len() == 0 {
        Seq::empty()
    } else {
        concat_text(spans.drop_last()) + spans.last().1
    }
}

/// What `jsonxf::pretty_print` makes of a text: the reformatted JSON, or its
/// complaint.
pub uninterp spec fn json_pretty(s: Seq<char>) -> Result<Seq<char>, Seq<char>>;

/// The outcome of the JSON formatter over sequences of characters.
pub open spec fn pretty_view(r: Result<String, String>) -> Result<Seq<char>, Seq<char>> {
    match r {
        Ok(s) => Ok(s@),
        Err(m) => Err(m@),
    }
}

/// Calls `jsonxf::pretty_print`, which formats into a buffer in memory and
/// reads nothing but its argument. Its outcome is named [`json_pretty`] and
/// not stated.
#[verifier::external_body]
fn pretty_json(body: &str) -> (r: Result<String, String>)
    ensures
        pretty_view(r) == json_pretty(body@),
{
    jsonxf::pretty_print(body)
}

/// The body span for JSON, given what the JSON formatter returned: its
/// output in the JSON style, or `MalformedResponseBody` with its complaint.
pub open spec fn json_span(pretty: Result<Seq<char>, Seq<char>>) -> Result<
    (Style, Seq<char>),
    ErrorView,
> {
    match pretty {
        Ok(s) => Ok((Style::Json, s)),
        Err(m) => Err(ErrorView::MalformedResponseBody(m)),
    }
}

/// The body span for a format, given what the JSON formatter makes of the
/// body: plain text is kept as it is; JSON is replaced by the formatter's
/// output, and a body it refuses is an error and never shown raw.
pub open spec fn body_spec(
    format: BodyFormat,
    body: Seq<char>,
    pretty: Result<Seq<char>, Seq<char>>,
) -> Result<(Style, Seq<char>), ErrorView> {
    match format {
        BodyFormat::PlainText => Ok((Style::Plain, body)),
        BodyFormat::Json => json_span(pretty),
    }
}

/// The outcome of rendering a body over sequences of characters.
pub open spec fn body_view(r: Result<Span, Error>) -> Result<(Style, Seq<char>), ErrorView> {
    match r {
        Ok(s) => Ok(s@),
        Err(e) => Err(e@),
    }
}

/// The outcome of rendering a response over sequences of characters.
pub open spec fn render_view(r: Result<Vec<Span>, Error>) -> Result<
    Seq<(Style, Seq<char>)>,
    ErrorView,
> {
    match r {
        Ok(v) => Ok(spans_view(v@)),
        Err(e) => Err(e@),
    }
}

/// What [`render`] returns: the content type is judged first, then the body
/// is formatted, then everything is laid out.
pub open spec fn render_spec(
    version: Seq<char>,
    status: nat,
    headers: Seq<(Seq<char>, Seq<char>)>,
    body: Seq<char>,
) -> Result<Seq<(Style, Seq<char>)>, ErrorView> {
    match content_type_of(headers) {
        Err(e) => Err(e),
        Ok(essence) => match body_spec(format_of(essence), body, json_pretty(body)) {
            Err(e) => Err(e),
            Ok(span) => Ok(layout_spec(version, status, headers, span)),
        },
    }
}

/// One decimal digit as a string.
fn digit_str(d: u16) -> (r: &'static str)
    requires
        d < 10,
    ensures
        r@ == seq![digit(d as nat)],
{
    proof {
        reveal_strlit("0");
        reveal_strlit("1");
        reveal_strlit("2");
        reveal_strlit("3");
        reveal_strlit("4");
        reveal_strlit("5");
        reveal_strlit("6");
        reveal_strlit("7");
        reveal_strlit("8");
        reveal_strlit("9");
    }
    let r = match d {
        0 => "0",
        1 => "1",
        2 => "2",
        3 => "3",
        4 => "4",
        5 => "5",
        6 => "6",
        7 => "7",
        8 => "8",
        _ => "9",
    };
    assert(r@ =~= seq![digit(d as nat)]);
    r
}

/// A number in decimal.
pub fn decimal_string(n: u16) -> (r: String)
    ensures
        r@ == decimal(n as nat),
    decreases n,
{
    if n < 10 {
        String::from_str(digit_str(n))
    } else {
        let r = decimal_string(n / 10).concat(digit_str(n % 10));
        assert(r@ =~= decimal(n as nat));
        r
    }
}

/// The status line of a response, in the status style.
pub fn render_status(resp: &ResponseView) -> (r: Span)
    ensures
        r@ == (Style::Status, status_line(resp.version@, resp.status as nat)),
{
    proof {
        reveal_strlit(" ");
    }
    let code = decimal_string(resp.status);
    let text = resp.version.clone().concat(" ").concat(code.as_str());
    assert(text@ =~= status_line(resp.version@, resp.status as nat));
    Span { style: Style::Status, text }
}

/// The header lines of a response, in the order received.
pub fn render_headers(resp: &ResponseView) -> (r: Vec<Span>)
    ensures
        spans_view(r@) == header_spans(headers_view(resp.headers@)),
{
    let ghost all = headers_view(resp.headers@);
    let mut out: Vec<Span> = Vec::new();
    let mut i: usize = 0;
    while i < resp.headers.len()
        invariant
            all == headers_view(resp.headers@),
            i <= resp.headers.len(),
            spans_view(out@) == header_spans(all.take(i as int)),
        decreases resp.headers.len() - i,
    {
        proof {
            reveal_strlit(": ");
            reveal_strlit("\n");
            assert(all.take(i + 1).drop_last() =~= all.take(i as int));
            assert(all.take(i + 1).last() == resp.headers@[i as int]@);
        }
        let ghost before = spans_view(out@);
        let name = resp.headers[i].name.clone();
        let rest = String::from_str(": ").concat(resp.headers[i].value.as_str()).concat("\n");
        assert(rest@ =~= seq![':', ' '] + resp.headers@[i as int].value@ + seq!['\n']);
        out.push(Span { style: Style::HeaderName, text: name });
        out.push(Span { style: Style::Plain, text: rest });
        assert(spans_view(out@) =~= before.push((Style::HeaderName, name@)).push(
            (Style::Plain, rest@),
        ));
        i += 1;
    }
    assert(all.take(i as int) =~= all);
    out
}

/// The body span for JSON, from what the JSON formatter returned.
pub fn json_body(pretty: Result<String, String>) -> (r: Result<Span, Error>)
    ensures
        body_view(r) == json_span(pretty_view(pretty)),
{
    match pretty {
        Ok(text) => Ok(Span { style: Style::Json, text }),
        Err(m) => Err(Error::MalformedResponseBody(m)),
    }
}

/// The body span: the body as received for plain text, reformatted for JSON.
pub fn render_body(format: BodyFormat, body: &str) -> (r: Result<Span, Error>)
    ensures
        body_view(r) == body_spec(format, body@, json_pretty(body@)),
{
    match format {
        BodyFormat::PlainText => Ok(Span { style: Style::Plain, text: String::from_str(body) }),
        BodyFormat::Json => json_body(pretty_json(body)),
    }
}

/// Lays the response out around an already rendered body.
pub fn layout(resp: &ResponseView, body: Span) -> (r: Vec<Span>)
    ensures
        spans_view(r@) == layout_spec(
            resp.version@,
            resp.status as nat,
            headers_view(resp.headers@),
            body@,
        ),
{
    proof {
        reveal_strlit("\n");
        assert("\n"@ =~= seq!['\n']);
    }
    let ghost first = (Style::Status, status_line(resp.version@, resp.status as nat));
    let ghost newline = (Style::Plain, seq!['\n']);
    let mut out: Vec<Span> = Vec::new();
    out.push(render_status(resp));
    out.push(Span { style: Style::Plain, text: String::from_str("\n") });
    assert(spans_view(out@) =~= seq![first, newline]);
    let mut headers = render_headers(resp);
    let ghost lines = spans_view(headers@);
    out.append(&mut headers);
    assert(spans_view(out@) =~= seq![first, newline] + lines);
    out.push(Span { style: Style::Plain, text: String::from_str("\n") });
    let ghost body_span = body@;
    out.push(body);
    out.push(Span { style: Style::Plain, text: String::from_str("\n") });
    assert(spans_view(out@) =~= seq![first, newline] + lines + seq![newline, body_span, newline]);
    out
}

/// Renders a response: status line, headers, a blank line, and the body,
/// reformatted where the response declares `application/json`.
pub fn render(resp: &ResponseView) -> (r: Result<Vec<Span>, Error>)
    ensures
        render_view(r) == render_spec(
            resp.version@,
            resp.status as nat,
            headers_view(resp.headers@),
            resp.body@,
        ),
{
    let essence = match get_content_type(resp) {
        Ok(essence) => essence,
        Err(e) => {
            return Err(e);
        },
    };
    let format = select_format(&essence);
    match render_body(format, resp.body.as_str()) {
        Ok(body) => Ok(layout(resp, body)),
        Err(e) => Err(e),
    }
}

/// The output with the styles left out.
pub fn plain_text(spans: &Vec<Span>) -> (r: String)
    ensures
        r@ == concat_text(spans_view(spans@)),
{
    let ghost all = spans_view(spans@);
    let mut out = String::new();
    let mut i: usize = 0;
    while i < spans.len()
        invariant
            all == spans_view(spans@),
            i <= spans.len(),
            out@ == concat_text(all.take(i as int)),
        decreases spans.len() - i,
    {
        proof {
            assert(all.take(i + 1).drop_last() =~= all.take(i as int));
            assert(all.take(i + 1).last() == spans@[i as int]@);
        }
        out.append(spans[i].text.as_str());
        i += 1;
    }
    assert(all.take(i as int) =~= all);
    out
}

/// A response that declares no content type, or one whose essence is not
/// `application/json`, is rendered with its body unchanged in the plain
/// style, whatever the body holds.
pub proof fn lemma_plain_body_verbatim(
    version: Seq<char>,
    status: nat,
    headers: Seq<(Seq<char>, Seq<char>)>,
    body: Seq<char>,
)
    requires
        content_type_of(headers) matches Ok(essence) && essence != Some("application/json"@),
    ensures
        render_spec(version, status, headers, body) matches Ok(spans) && spans == layout_spec(
            version,
            status,
            headers,
            (Style::Plain, body),
        ) && spans[spans.len() - 2] == (Style::Plain, body) && concat_text(spans) == concat_text(
            spans.take(spans.len() - 2),
        ) + body + seq!['\n'],
{
    let spans = layout_spec(version, status, headers, (Style::Plain, body));
    let n = spans.len() as int;
    assert(spans.drop_last().drop_last() =~= spans.take(n - 2));
    assert(spans.drop_last().last() == spans[n - 2]);
    assert(concat_text(spans) == concat_text(spans.drop_last()) + spans.last().1);
    assert(concat_text(spans.drop_last()) == concat_text(spans.drop_last().drop_last())
        + spans.drop_last().last().1);
}

} // verus!
