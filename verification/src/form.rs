//! The `application/x-www-form-urlencoded` body of a POST.

use crate::request::{pairs_view, KvPair};
use vstd::prelude::*;
use vstd::string::*;
use vstd::utf8::{encode_utf8, is_ascii_chars, is_ascii_chars_encode_utf8};

verus! {

/// Whether the form byte serializer leaves a byte as it is: `*`, `-`, `.`,
/// `_`, the digits and the ASCII letters.
pub open spec fn is_unreserved(b: u8) -> bool {
    ||| b == 0x2A
    ||| b == 0x2D
    ||| b == 0x2E
    ||| b == 0x5F
    ||| 0x30 <= b <= 0x39
    ||| 0x41 <= b <= 0x5A
    ||| 0x61 <= b <= 0x7A
}

/// The upper-case hexadecimal digit for a value below sixteen.
pub open spec fn hex_digit(d: int) -> char {
    seq!['0', '1', '2', '3', '4', '5', '6', '7', '8', '9', 'A', 'B', 'C', 'D', 'E', 'F'][d]
}

/// One byte form-encoded: itself where unreserved, `+` for a space, and
/// otherwise `%` with its two hexadecimal digits.
pub open spec fn serialize_byte(b: u8) -> Seq<char> {
    if is_unreserved(b) {
        seq![b as char]
    } else if b == 0x20 {
        seq!['+']
    } else {
        seq!['%', hex_digit(b as int / 16), hex_digit(b as int % 16)]
    }
}

/// A byte string form-encoded, byte by byte.
pub open spec fn serialize_bytes(bytes: Seq<u8>) -> Seq<char>
    decreases bytes.len(),
{
    if bytes.len() == 0 {
        Seq::empty()
    } else {
        serialize_bytes(bytes.drop_last()) + serialize_byte(bytes.last())
    }
}

/// The form encoding of one key or value: its UTF-8 bytes, form-encoded.
pub open spec fn form_component(s: Seq<char>) -> Seq<char> {
    serialize_bytes(encode_utf8(s))
}

/// Calls `url::form_urlencoded::byte_serialize` and collects the pieces it
/// yields into one string. The contract restates that serializer: it walks
/// the bytes in order, yields runs of unreserved bytes unchanged, `+` for a
/// space, and for any other byte the `%XX` entry of the upper-case table of
/// `percent_encoding::percent_encode_byte`.
#[verifier::external_body]
fn serialize(input: &[u8]) -> (r: String)
    ensures
        r@ == serialize_bytes(input@),
{
    url::form_urlencoded::byte_serialize(input).collect()
}

/// Form-encodes one key or value.
pub fn encode_component(s: &str) -> (r: String)
    ensures
        r@ == form_component(s@),
{
    serialize(s.as_bytes())
}

/// `key=value` segments joined by `&`, in the order given.
pub open spec fn join_pairs(pairs: Seq<(Seq<char>, Seq<char>)>) -> Seq<char>
    decreases pairs.len(),
{
    if pairs.len() == 0 {
        Seq::empty()
    } else {
        let head = join_pairs(pairs.drop_last());
        let sep = if pairs.len() == 1 {
            Seq::empty()
        } else {
            seq!['&']
        };
        head + sep + pairs.last().0 + seq!['='] + pairs.last().1
    }
}

/// Every key and value form-encoded, in place.
pub open spec fn encode_pairs(fields: Seq<(Seq<char>, Seq<char>)>) -> Seq<(Seq<char>, Seq<char>)> {
    Seq::new(fields.len(), |i: int| (form_component(fields[i].0), form_component(fields[i].1)))
}

/// The form-encoded body for a sequence of fields.
pub open spec fn form_encoding(fields: Seq<(Seq<char>, Seq<char>)>) -> Seq<char> {
    join_pairs(encode_pairs(fields))
}

/// Joins pairs that are already encoded into `k1=v1&k2=v2...`.
pub fn join_encoded(pairs: &Vec<KvPair>) -> (r: String)
    ensures
        r@ == join_pairs(pairs_view(pairs@)),
{
    let ghost all = pairs_view(pairs@);
    let mut out = String::new();
    let mut i: usize = 0;
    while i < pairs.len()
        invariant
            all == pairs_view(pairs@),
            i <= pairs.len(),
            out@ == join_pairs(all.take(i as int)),
        decreases pairs.len() - i,
    {
        proof {
            reveal_strlit("&");
            reveal_strlit("=");
            assert(all.take(i + 1).drop_last() =~= all.take(i as int));
            assert(all.take(i + 1).last() == pairs@[i as int]@);
            assert("&"@ =~= seq!['&']);
            assert("="@ =~= seq!['=']);
        }
        if i > 0 {
            out.append("&");
        } else {
            assert(out@ + Seq::<char>::empty() =~= out@);
        }
        out.append(pairs[i].key.as_str());
        out.append("=");
        out.append(pairs[i].value.as_str());
        i += 1;
    }
    assert(all.take(i as int) =~= all);
    out
}

/// The form-encoded body for the fields: each key and value encoded, joined
/// as `key=value` with `&` between, order and duplicates kept.
pub fn encode_form(fields: &Vec<KvPair>) -> (r: String)
    ensures
        r@ == form_encoding(pairs_view(fields@)),
{
    let mut encoded: Vec<KvPair> = Vec::new();
    let mut i: usize = 0;
    while i < fields.len()
        invariant
            i <= fields.len(),
            encoded@.len() == i,
            forall|j: int|
                0 <= j < i ==> (#[trigger] encoded@[j])@ == (
                    form_component(fields@[j].key@),
                    form_component(fields@[j].value@),
                ),
        decreases fields.len() - i,
    {
        let key = encode_component(fields[i].key.as_str());
        let value = encode_component(fields[i].value.as_str());
        encoded.push(KvPair { key, value });
        i += 1;
    }
    assert(pairs_view(encoded@) =~= encode_pairs(pairs_view(fields@)));
    join_encoded(&encoded)
}

/// Joining keeps the order: the body for `fields` followed by one more field
/// is the body for `fields`, then `&` unless nothing came before, then the
/// new field.
pub proof fn lemma_form_encoding_push(
    fields: Seq<(Seq<char>, Seq<char>)>,
    p: (Seq<char>, Seq<char>),
)
    ensures
        form_encoding(fields.push(p)) == form_encoding(fields) + (if fields.len() == 0 {
            Seq::<char>::empty()
        } else {
            seq!['&']
        }) + form_component(p.0) + seq!['='] + form_component(p.1),
{
    assert(encode_pairs(fields.push(p)).drop_last() =~= encode_pairs(fields));
}

/// Every character is an ASCII letter, a digit or one of `*`, `-`, `.`, `_`.
pub open spec fn is_unreserved_text(s: Seq<char>) -> bool {
    forall|i: int|
        0 <= i < s.len() ==> '\0' <= #[trigger] s[i] <= '\u{7f}' && is_unreserved(s[i] as u8)
}

/// Bytes that are all unreserved are encoded as themselves.
proof fn lemma_serialize_unreserved(bytes: Seq<u8>)
    requires
        forall|i: int| 0 <= i < bytes.len() ==> is_unreserved(#[trigger] bytes[i]),
    ensures
        serialize_bytes(bytes) == Seq::new(bytes.len(), |i: int| bytes[i] as char),
    decreases bytes.len(),
{
    if bytes.len() > 0 {
        lemma_serialize_unreserved(bytes.drop_last());
    }
    assert(serialize_bytes(bytes) =~= Seq::new(bytes.len(), |i: int| bytes[i] as char));
}

/// Text made of unreserved characters only is its own form encoding.
pub proof fn lemma_unreserved_unchanged(s: Seq<char>)
    requires
        is_unreserved_text(s),
    ensures
        form_component(s) == s,
{
    assert(is_ascii_chars(s));
    is_ascii_chars_encode_utf8(s);
    let bytes = encode_utf8(s);
    assert forall|i: int| 0 <= i < bytes.len() implies is_unreserved(#[trigger] bytes[i]) by {
        assert(bytes[i] == s[i] as u8);
    }
    lemma_serialize_unreserved(bytes);
    assert forall|i: int| 0 <= i < s.len() implies bytes[i] as char == s[i] by {
        assert(bytes[i] == s[i] as u8);
    }
    assert(form_component(s) =~= s);
}

/// Fields whose keys and values are unreserved text are sent as they stand:
/// the body is the fields joined as `key=value` with `&` between.
pub proof fn lemma_form_encoding_unreserved(fields: Seq<(Seq<char>, Seq<char>)>)
    requires
        forall|i: int|
            0 <= i < fields.len() ==> is_unreserved_text((#[trigger] fields[i]).0)
                && is_unreserved_text(fields[i].1),
    ensures
        form_encoding(fields) == join_pairs(fields),
{
    assert forall|i: int| 0 <= i < fields.len() implies encode_pairs(fields)[i] == fields[i] by {
        lemma_unreserved_unchanged(fields[i].0);
        lemma_unreserved_unchanged(fields[i].1);
    }
    assert(encode_pairs(fields) =~= fields);
}

} // verus!
