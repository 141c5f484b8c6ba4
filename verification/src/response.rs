//! A received response, and what its content-type header declares.

use crate::error::{Error, ErrorView};
use vstd::prelude::*;
use vstd::string::*;

verus! {

/// One response header. Names stand as the transport hands them over, which
/// is in lower case.
#[derive(Debug, Clone, PartialEq, Eq)]
pub struct Header {
    pub name: String,
    pub value: String,
}

impl View for Header {
    type V = (Seq<char>, Seq<char>);

    open spec fn view(&self) -> (Seq<char>, Seq<char>) {
        (self.name@, self.value@)
    }
}

/// A complete response: the headers in the order received, duplicates kept,
/// and the whole body as text.
#[derive(Debug, Clone, PartialEq, Eq)]
pub struct ResponseView {
    pub version: String,
    pub status: u16,
    pub headers: Vec<Header>,
    pub body: String,
}

/// How a body is shown.
#[derive(Clone, Copy, Debug, PartialEq, Eq, Structural)]
pub enum BodyFormat {
    /// Reformatted as indented JSON.
    Json,
    /// As received.
    PlainText,
}

/// The views of a sequence of headers, in order.
pub open spec fn headers_view(v: Seq<Header>) -> Seq<(Seq<char>, Seq<char>)> {
    Seq::new(v.len(), |i: int| v[i]@)
}

/// The text of an optional string.
pub open spec fn option_view(o: Option<String>) -> Option<Seq<char>> {
    match o {
        Some(s) => Some(s@),
        None => None,
    }
}

/// `i` is the position of the first header called `name`.
pub open spec fn is_first_named(headers: Seq<(Seq<char>, Seq<char>)>, name: Seq<char>, i: int)
    -> bool {
    &&& 0 <= i < headers.len()
    &&& headers[i].0 == name
    &&& forall|j: int| 0 <= j < i ==> (#[trigger] headers[j]).0 != name
}

/// The value of the first header called `name`, if there is one.
pub open spec fn header_value(headers: Seq<(Seq<char>, Seq<char>)>, name: Seq<char>) -> Option<
    Seq<char>,
> {
    if exists|i: int| is_first_named(headers, name, i) {
        Some(headers[choose|i: int| is_first_named(headers, name, i)].1)
    } else {
        None
    }
}

/// The essence (`type/subtype`, lower case, parameters left out) that the
/// `mime` crate reads from a content-type value; `None` where its parser
/// refuses the value.
pub uninterp spec fn mime_essence(s: Seq<char>) -> Option<Seq<char>>;

/// Parses the value with `<mime::Mime as FromStr>::from_str` and, where that
/// succeeds, reads `Mime::essence_str` of the result. Both depend on the value
/// alone; the outcome is named [`mime_essence`] and not stated.
#[verifier::external_body]
fn parse_essence(s: &str) -> (r: Option<String>)
    ensures
        option_view(r) == mime_essence(s@),
{
    match s.parse::<mime::Mime>() {
        Ok(m) => Some(m.essence_str().to_string()),
        Err(_) => None,
    }
}

/// What a content-type value declares, given what the media-type parser made
/// of it: its essence, or `InvalidContentType` with the value.
pub open spec fn declared(value: Option<Seq<char>>, parsed: Option<Seq<char>>) -> Result<
    Option<Seq<char>>,
    ErrorView,
> {
    match value {
        None => Ok(None),
        Some(v) => match parsed {
            Some(e) => Ok(Some(e)),
            None => Err(ErrorView::InvalidContentType(v)),
        },
    }
}

/// The declared content type of a list of headers: nothing where no
/// `content-type` header is present, else the essence of the first one's
/// value, or an error where that value is no media type.
pub open spec fn content_type_of(headers: Seq<(Seq<char>, Seq<char>)>) -> Result<
    Option<Seq<char>>,
    ErrorView,
> {
    match header_value(headers, "content-type"@) {
        None => Ok(None),
        Some(v) => declared(Some(v), mime_essence(v)),
    }
}

/// The outcome of [`get_content_type`] over sequences of characters.
pub open spec fn content_type_view(r: Result<Option<String>, Error>) -> Result<
    Option<Seq<char>>,
    ErrorView,
> {
    match r {
        Ok(o) => Ok(option_view(o)),
        Err(e) => Err(e@),
    }
}

/// The format for a declared essence: JSON for exactly `application/json`,
/// plain text for anything else and for none.
pub open spec fn format_of(essence: Option<Seq<char>>) -> BodyFormat {
    if essence == Some("application/json"@) {
        BodyFormat::Json
    } else {
        BodyFormat::PlainText
    }
}

/// The first header called `name` is unique.
pub proof fn lemma_first_named_unique(
    headers: Seq<(Seq<char>, Seq<char>)>,
    name: Seq<char>,
    i: int,
    j: int,
)
    requires
        is_first_named(headers, name, i),
        is_first_named(headers, name, j),
    ensures
        i == j,
{
    if i < j {
        assert(headers[i].0 != name);
    }
    if j < i {
        assert(headers[j].0 != name);
    }
}

impl ResponseView {
    /// The value of the first header called `name`.
    pub fn header(&self, name: &str) -> (r: Option<&str>)
        ensures
            match header_value(headers_view(self.headers@), name@) {
                Some(v) => r matches Some(s) && s@ == v,
                None => r is None,
            },
    {
        let ghost views = headers_view(self.headers@);
        let wanted = String::from_str(name);
        let mut i: usize = 0;
        while i < self.headers.len()
            invariant
                views == headers_view(self.headers@),
                wanted@ == name@,
                i <= self.headers.len(),
                forall|j: int| 0 <= j < i ==> (#[trigger] views[j]).0 != name@,
            decreases self.headers.len() - i,
        {
            assert(views[i as int] == self.headers@[i as int]@);
            if self.headers[i].name == wanted {
                proof {
                    assert(is_first_named(views, name@, i as int));
                    let c = choose|c: int| is_first_named(views, name@, c);
                    lemma_first_named_unique(views, name@, i as int, c);
                }
                return Some(self.headers[i].value.as_str());
            }
            i += 1;
        }
        proof {
            if exists|c: int| is_first_named(views, name@, c) {
                let c = choose|c: int| is_first_named(views, name@, c);
                assert(views[c].0 != name@);
            }
        }
        None
    }
}

/// Turns what the media-type parser made of a content-type value into the
/// declared essence, or into `InvalidContentType` where it refused the value.
pub fn essence_or_error(value: &str, parsed: Option<String>) -> (r: Result<Option<String>, Error>)
    ensures
        content_type_view(r) == declared(Some(value@), option_view(parsed)),
{
    match parsed {
        Some(e) => Ok(Some(e)),
        None => Err(Error::InvalidContentType(String::from_str(value))),
    }
}

/// The content type that the response declares.
pub fn get_content_type(resp: &ResponseView) -> (r: Result<Option<String>, Error>)
    ensures
        content_type_view(r) == content_type_of(headers_view(resp.headers@)),
{
    match resp.header("content-type") {
        None => Ok(None),
        Some(v) => essence_or_error(v, parse_essence(v)),
    }
}

/// Chooses how the body is shown from the declared essence.
pub fn select_format(essence: &Option<String>) -> (r: BodyFormat)
    ensures
        r == format_of(option_view(*essence)),
{
    match essence {
        Some(e) => {
            let json = String::from_str("application/json");
            if *e == json {
                BodyFormat::Json
            } else {
                BodyFormat::PlainText
            }
        },
        None => BodyFormat::PlainText,
    }
}

} // verus!
