//! Building a request description from a method, a URL and raw form fields.

use crate::error::{Error, ErrorView};
use crate::form::{encode_form, form_encoding};
use vstd::prelude::*;
use vstd::string::*;

verus! {

/// The request methods the client knows.
#[derive(Clone, Copy, Debug, PartialEq, Eq, Structural)]
pub enum Method {
    Get,
    Post,
}

/// One form field: what stood before the first `=`, and what stood after it.
#[derive(Debug, Clone, PartialEq, Eq)]
pub struct KvPair {
    pub key: String,
    pub value: String,
}

impl View for KvPair {
    type V = (Seq<char>, Seq<char>);

    open spec fn view(&self) -> (Seq<char>, Seq<char>) {
        (self.key@, self.value@)
    }
}

/// The views of a sequence of strings, in order.
pub open spec fn strings_view(v: Seq<String>) -> Seq<Seq<char>> {
    Seq::new(v.len(), |i: int| v[i]@)
}

/// The views of a sequence of fields, in order.
pub open spec fn pairs_view(v: Seq<KvPair>) -> Seq<(Seq<char>, Seq<char>)> {
    Seq::new(v.len(), |i: int| v[i]@)
}

/// `i` is the position of the first `=` in `s`.
pub open spec fn is_first_eq(s: Seq<char>, i: int) -> bool {
    &&& 0 <= i < s.len()
    &&& s[i] == '='
    &&& forall|j: int| 0 <= j < i ==> s[j] != '='
}

/// A field string cut at its first `=`: the key before it and the value after
/// it, which keeps any further `=`. `None` where the string holds no `=`.
pub open spec fn split_field(s: Seq<char>) -> Option<(Seq<char>, Seq<char>)> {
    if exists|i: int| is_first_eq(s, i) {
        let i = choose|i: int| is_first_eq(s, i);
        Some((s.subrange(0, i), s.subrange(i + 1, s.len() as int)))
    } else {
        None
    }
}

/// A string has a first `=` exactly when it holds one at all.
pub proof fn lemma_first_eq_exists(s: Seq<char>)
    ensures
        s.contains('=') <==> exists|i: int| is_first_eq(s, i),
        s.contains('=') <==> split_field(s) is Some,
{
    if s.contains('=') {
        let k = choose|k: int| 0 <= k < s.len() && s[k] == '=';
        lemma_first_eq_before(s, k);
    }
    if exists|i: int| is_first_eq(s, i) {
        let i = choose|i: int| is_first_eq(s, i);
        assert(s[i] == '=');
    }
}

/// Where `s[k]` is `=`, some position up to `k` is the first one.
proof fn lemma_first_eq_before(s: Seq<char>, k: int)
    requires
        0 <= k < s.len(),
        s[k] == '=',
    ensures
        exists|i: int| is_first_eq(s, i),
    decreases k,
{
    if exists|j: int| 0 <= j < k && s[j] == '=' {
        let j = choose|j: int| 0 <= j < k && s[j] == '=';
        lemma_first_eq_before(s, j);
    } else {
        assert(is_first_eq(s, k));
    }
}

/// The first `=` of a string is unique, so the cut is the one at `i`.
pub proof fn lemma_split_at_first_eq(s: Seq<char>, i: int)
    requires
        is_first_eq(s, i),
    ensures
        split_field(s) == Some((s.subrange(0, i), s.subrange(i + 1, s.len() as int))),
{
    let c = choose|c: int| is_first_eq(s, c);
    assert(is_first_eq(s, c));
    if c < i {
        assert(s[c] != '=');
    }
    if i < c {
        assert(s[i] != '=');
    }
}

/// Splitting `k=v` gives back `k` and `v` whenever `k` holds no `=`, whatever
/// `v` holds.
pub proof fn lemma_split_key_value(k: Seq<char>, v: Seq<char>)
    requires
        !k.contains('='),
    ensures
        split_field(k + seq!['='] + v) == Some((k, v)),
{
    let s = k + seq!['='] + v;
    let i = k.len() as int;
    assert(s[i] == '=');
    assert forall|j: int| 0 <= j < i implies s[j] != '=' by {
        assert(s[j] == k[j]);
        assert(k.contains(k[j]));
    }
    assert(is_first_eq(s, i));
    lemma_split_at_first_eq(s, i);
    assert(s.subrange(0, i) =~= k);
    assert(s.subrange(i + 1, s.len() as int) =~= v);
}

/// A string without `=` is no field.
pub proof fn lemma_no_eq_no_field(s: Seq<char>)
    requires
        !s.contains('='),
    ensures
        split_field(s) is None,
{
    lemma_first_eq_exists(s);
}

impl KvPair {
    /// Cuts a field string at its first `=`.
    pub fn from_str(s: &str) -> (r: Result<KvPair, Error>)
        ensures
            match split_field(s@) {
                Some(p) => r matches Ok(kv) && kv@ == p,
                None => r matches Err(e) && e@ == ErrorView::InvalidFieldSyntax(s@),
            },
    {
        let n: usize = s.unicode_len();
        let mut i: usize = 0;
        while i < n
            invariant
                n == s@.len(),
                i <= n,
                forall|j: int| 0 <= j < i ==> s@[j] != '=',
            decreases n - i,
        {
            if s.get_char(i) == '=' {
                proof {
                    assert(is_first_eq(s@, i as int));
                    lemma_split_at_first_eq(s@, i as int);
                }
                let key = String::from_str(s.substring_char(0, i));
                let value = String::from_str(s.substring_char(i + 1, n));
                return Ok(KvPair { key, value });
            }
            i += 1;
        }
        proof {
            if s@.contains('=') {
                let k = choose|k: int| 0 <= k < s@.len() && s@[k] == '=';
                assert(s@[k] != '=');
            }
            lemma_first_eq_exists(s@);
        }
        Err(Error::InvalidFieldSyntax(String::from_str(s)))
    }
}

/// Cuts a field string at its first `=`; see [`KvPair::from_str`].
pub fn parse_kv_pair(s: &str) -> (r: Result<KvPair, Error>)
    ensures
        match split_field(s@) {
            Some(p) => r matches Ok(kv) && kv@ == p,
            None => r matches Err(e) && e@ == ErrorView::InvalidFieldSyntax(s@),
        },
{
    KvPair::from_str(s)
}

/// Whether `Url::parse` of the `url` crate accepts the text, which it does
/// for absolute URLs only: a relative reference has no base to resolve against.
pub uninterp spec fn is_absolute_url(s: Seq<char>) -> bool;

/// Calls `url::Url::parse` and reports whether it returned `Ok`. The parser
/// reads nothing but its argument, so the answer is taken to be a fixed
/// property of the text, named [`is_absolute_url`].
#[verifier::external_body]
fn url_parses(s: &str) -> (r: bool)
    ensures
        r == is_absolute_url(s@),
{
    url::Url::parse(s).is_ok()
}

/// Keeps a URL that the parser accepted and turns a refused one into
/// `InvalidUrl`.
pub fn checked_url(s: &str, accepted: bool) -> (r: Result<String, Error>)
    ensures
        accepted ==> (r matches Ok(u) && u@ == s@),
        !accepted ==> (r matches Err(e) && e@ == ErrorView::InvalidUrl(s@)),
{
    if accepted {
        Ok(String::from_str(s))
    } else {
        Err(Error::InvalidUrl(String::from_str(s)))
    }
}

/// Accepts a syntactically valid absolute URL and hands it back unchanged.
pub fn parse_url(s: &str) -> (r: Result<String, Error>)
    ensures
        is_absolute_url(s@) ==> (r matches Ok(u) && u@ == s@),
        !is_absolute_url(s@) ==> (r matches Err(e) && e@ == ErrorView::InvalidUrl(s@)),
{
    checked_url(s, url_parses(s))
}

/// `i` is the position of the first raw field that holds no `=`.
pub open spec fn is_first_bad_field(raw: Seq<Seq<char>>, i: int) -> bool {
    &&& 0 <= i < raw.len()
    &&& split_field(raw[i]) is None
    &&& forall|j: int| 0 <= j < i ==> split_field(#[trigger] raw[j]) is Some
}

/// Every raw field holds an `=`.
pub open spec fn all_fields_valid(raw: Seq<Seq<char>>) -> bool {
    forall|j: int| 0 <= j < raw.len() ==> split_field(#[trigger] raw[j]) is Some
}

/// The fields that valid raw field strings stand for, in the order given.
pub open spec fn fields_of(raw: Seq<Seq<char>>) -> Seq<(Seq<char>, Seq<char>)> {
    Seq::new(raw.len(), |i: int| split_field(raw[i]).unwrap())
}

/// Cuts every raw field at its first `=`, keeping order and duplicates, or
/// reports the first one that has no `=`.
pub fn parse_fields(raw: &Vec<String>) -> (r: Result<Vec<KvPair>, Error>)
    ensures
        match r {
            Ok(fields) => all_fields_valid(strings_view(raw@)) && pairs_view(fields@) == fields_of(
                strings_view(raw@),
            ),
            Err(e) => exists|i: int|
                is_first_bad_field(strings_view(raw@), i) && e@ == ErrorView::InvalidFieldSyntax(
                    strings_view(raw@)[i],
                ),
        },
{
    let ghost texts = strings_view(raw@);
    let mut fields: Vec<KvPair> = Vec::new();
    let mut i: usize = 0;
    while i < raw.len()
        invariant
            texts == strings_view(raw@),
            i <= raw.len(),
            fields@.len() == i,
            forall|j: int| 0 <= j < i ==> split_field(#[trigger] texts[j]) is Some,
            forall|j: int| 0 <= j < i ==> Some(#[trigger] fields@[j]@) == split_field(texts[j]),
        decreases raw.len() - i,
    {
        assert(texts[i as int] == raw@[i as int]@);
        match KvPair::from_str(raw[i].as_str()) {
            Ok(pair) => {
                fields.push(pair);
            },
            Err(e) => {
                assert(is_first_bad_field(texts, i as int));
                return Err(e);
            },
        }
        i += 1;
    }
    assert(pairs_view(fields@) =~= fields_of(texts));
    Ok(fields)
}

/// A request that is ready to be sent.
#[derive(Debug, Clone, PartialEq, Eq)]
pub struct RequestSpec {
    pub method: Method,
    pub url: String,
    pub fields: Vec<KvPair>,
}

/// A [`RequestSpec`] over sequences of characters.
pub struct RequestView {
    pub method: Method,
    pub url: Seq<char>,
    pub fields: Seq<(Seq<char>, Seq<char>)>,
}

impl View for RequestSpec {
    type V = RequestView;

    open spec fn view(&self) -> RequestView {
        RequestView { method: self.method, url: self.url@, fields: pairs_view(self.fields@) }
    }
}

impl RequestView {
    /// The URL is absolute, and a GET carries no fields.
    pub open spec fn wf(self) -> bool {
        &&& is_absolute_url(self.url)
        &&& self.method == Method::Get ==> self.fields.len() == 0
    }

    /// The body to send: none for a GET, the form-encoded fields for a POST.
    pub open spec fn body(self) -> Option<Seq<char>> {
        match self.method {
            Method::Get => None,
            Method::Post => Some(form_encoding(self.fields)),
        }
    }

    /// The content-type header to send: none for a GET, the form media type
    /// for a POST.
    pub open spec fn content_type(self) -> Option<Seq<char>> {
        match self.method {
            Method::Get => None,
            Method::Post => Some("application/x-www-form-urlencoded"@),
        }
    }
}

impl RequestSpec {
    /// The body to send: none for a GET, the form-encoded fields for a POST.
    pub fn body(&self) -> (r: Option<String>)
        ensures
            match self@.body() {
                Some(b) => r matches Some(s) && s@ == b,
                None => r is None,
            },
    {
        match self.method {
            Method::Get => None,
            Method::Post => Some(encode_form(&self.fields)),
        }
    }

    /// The content-type header to send with the body.
    pub fn content_type(&self) -> (r: Option<&'static str>)
        ensures
            match self@.content_type() {
                Some(t) => r matches Some(s) && s@ == t,
                None => r is None,
            },
    {
        match self.method {
            Method::Get => None,
            Method::Post => Some("application/x-www-form-urlencoded"),
        }
    }
}

/// What [`build`] returns, given whether the URL parser accepted the URL: the
/// URL is judged first, a GET ignores the raw fields, and a POST fails on its
/// first field without `=`.
pub open spec fn build_spec(method: Method, url: Seq<char>, accepted: bool, raw: Seq<Seq<char>>)
    -> Result<RequestView, ErrorView> {
    if !accepted {
        Err(ErrorView::InvalidUrl(url))
    } else if method == Method::Get {
        Ok(RequestView { method, url, fields: Seq::empty() })
    } else if all_fields_valid(raw) {
        Ok(RequestView { method, url, fields: fields_of(raw) })
    } else {
        Err(ErrorView::InvalidFieldSyntax(raw[choose|i: int| is_first_bad_field(raw, i)]))
    }
}

/// The outcome of [`build`] over sequences of characters.
pub open spec fn build_result_view(r: Result<RequestSpec, Error>) -> Result<
    RequestView,
    ErrorView,
> {
    match r {
        Ok(spec) => Ok(spec@),
        Err(e) => Err(e@),
    }
}

/// The first field without `=` is unique.
pub proof fn lemma_first_bad_field_unique(raw: Seq<Seq<char>>, i: int, j: int)
    requires
        is_first_bad_field(raw, i),
        is_first_bad_field(raw, j),
    ensures
        i == j,
{
    if i < j {
        assert(split_field(raw[i]) is Some);
    }
    if j < i {
        assert(split_field(raw[j]) is Some);
    }
}

/// Assembles the request once the URL parser has given its verdict on `url`.
pub fn build_checked(method: Method, url: &str, accepted: bool, raw: &Vec<String>) -> (r: Result<
    RequestSpec,
    Error,
>)
    ensures
        build_result_view(r) == build_spec(method, url@, accepted, strings_view(raw@)),
        accepted == is_absolute_url(url@) ==> (r matches Ok(spec) ==> spec@.wf()),
{
    let url = match checked_url(url, accepted) {
        Ok(url) => url,
        Err(e) => {
            return Err(e);
        },
    };
    match method {
        Method::Get => {
            let spec = RequestSpec { method, url, fields: Vec::new() };
            assert(spec@.fields =~= Seq::empty());
            Ok(spec)
        },
        Method::Post => {
            match parse_fields(raw) {
                Ok(fields) => Ok(RequestSpec { method, url, fields }),
                Err(e) => {
                    proof {
                        let texts = strings_view(raw@);
                        let i = choose|i: int|
                            is_first_bad_field(texts, i) && e@ == ErrorView::InvalidFieldSyntax(
                                texts[i],
                            );
                        let c = choose|c: int| is_first_bad_field(texts, c);
                        lemma_first_bad_field_unique(texts, i, c);
                    }
                    Err(e)
                },
            }
        },
    }
}

/// Turns a method, a URL and raw `key=value` strings into a request. The URL
/// must be absolute; for a POST every raw field must hold an `=`. Nothing is
/// sent or read.
pub fn build(method: Method, url: &str, raw: &Vec<String>) -> (r: Result<RequestSpec, Error>)
    ensures
        build_result_view(r) == build_spec(
            method,
            url@,
            is_absolute_url(url@),
            strings_view(raw@),
        ),
        r matches Ok(spec) ==> spec@.wf(),
{
    build_checked(method, url, url_parses(url), raw)
}

/// A URL that is not absolute is answered with `InvalidUrl`, whatever the
/// method and the fields.
pub proof fn lemma_invalid_url_rejected(method: Method, url: Seq<char>, raw: Seq<Seq<char>>)
    requires
        !is_absolute_url(url),
    ensures
        build_spec(method, url, is_absolute_url(url), raw) == Err::<RequestView, ErrorView>(
            ErrorView::InvalidUrl(url),
        ),
{
}

/// A GET of an absolute URL always succeeds, with that URL, no fields and no
/// body.
pub proof fn lemma_get_succeeds(url: Seq<char>, raw: Seq<Seq<char>>)
    requires
        is_absolute_url(url),
    ensures
        build_spec(Method::Get, url, is_absolute_url(url), raw) matches Ok(spec) && spec == (
            RequestView { method: Method::Get, url, fields: Seq::empty() }
        ) && spec.wf() && spec.body() is None && spec.content_type() is None,
{
}

/// A POST to an absolute URL whose raw fields hold one without `=` fails
/// with `InvalidFieldSyntax`, which carries one of the fields without `=`.
pub proof fn lemma_bad_field_rejected(url: Seq<char>, raw: Seq<Seq<char>>, i: int)
    requires
        is_absolute_url(url),
        0 <= i < raw.len(),
        !raw[i].contains('='),
    ensures
        build_spec(Method::Post, url, is_absolute_url(url), raw) matches Err(
            ErrorView::InvalidFieldSyntax(f),
        ) && !f.contains('=') && raw.contains(f),
{
    lemma_first_eq_exists(raw[i]);
    lemma_first_bad_field_exists(raw, i);
    let c = choose|c: int| is_first_bad_field(raw, c);
    lemma_first_eq_exists(raw[c]);
}

/// Where field `k` is bad, there is a first bad field.
proof fn lemma_first_bad_field_exists(raw: Seq<Seq<char>>, k: int)
    requires
        0 <= k < raw.len(),
        split_field(raw[k]) is None,
    ensures
        exists|i: int| is_first_bad_field(raw, i),
    decreases k,
{
    if exists|j: int| 0 <= j < k && split_field(raw[j]) is None {
        let j = choose|j: int| 0 <= j < k && split_field(raw[j]) is None;
        lemma_first_bad_field_exists(raw, j);
    } else {
        assert(is_first_bad_field(raw, k));
    }
}

} // verus!
