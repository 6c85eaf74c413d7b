//! HTTP header maps.
//!
//! The headers of a message are an `http::HeaderMap` over bytes. What such a map holds is
//! the list of its headers, `header_list`: names in lower case, each with its
//! value in bytes, in the order in which the map hands them out. The values of
//! one name keep the order in which they came in; between names the order is
//! the map's own.

use vstd::prelude::*;
use vstd::utf8::encode_utf8;

use crate::text;

verus! {

/// `http::HeaderMap`.
#[verifier::external_type_specification]
#[verifier::external_body]
#[verifier::reject_recursive_types(T)]
pub struct ExHeaderMap<T>(http::HeaderMap<T>);

/// The headers of a message, with their values as bytes.
pub type Headers = http::HeaderMap<Vec<u8>>;

/// The headers that a map holds.
pub uninterp spec fn header_list(map: http::HeaderMap<Vec<u8>>) -> Seq<
    (Seq<char>, Seq<u8>),
>;

/// The values of one name among headers, in their order.
pub open spec fn values_of(list: Seq<(Seq<char>, Seq<u8>)>, name: Seq<char>) -> Seq<Seq<u8>>
    decreases list.len(),
{
    if list.len() == 0 {
        Seq::empty()
    } else {
        let before = values_of(list.drop_last(), name);
        if list.last().0 == name {
            before.push(list.last().1)
        } else {
            before
        }
    }
}

/// Whether a header of that name is there.
pub open spec fn has_name(list: Seq<(Seq<char>, Seq<u8>)>, name: Seq<char>) -> bool {
    values_of(list, name).len() > 0
}

/// The characters of header names (the token characters of HTTP).
pub open spec fn is_token_char(c: char) -> bool {
    ||| c == '!'
    ||| '#' <= c <= '\''
    ||| c == '*'
    ||| c == '+'
    ||| c == '-'
    ||| c == '.'
    ||| '0' <= c <= '9'
    ||| 'A' <= c <= 'Z'
    ||| '^' <= c <= 'z'
    ||| c == '|'
    ||| c == '~'
}

/// Whether a text is a header name.
pub open spec fn is_header_name(s: Seq<char>) -> bool {
    &&& 0 < s.len() <= 65535
    &&& forall|i: int| 0 <= i < s.len() ==> is_token_char(#[trigger] s[i])
}

/// The bytes of header values: tab, and all from the space on but delete.
pub open spec fn is_value_byte(b: u8) -> bool {
    b == 9 || (b >= 32 && b != 127)
}

/// Whether bytes are a header value.
pub open spec fn is_header_value(bytes: Seq<u8>) -> bool {
    forall|i: int| 0 <= i < bytes.len() ==> is_value_byte(#[trigger] bytes[i])
}

/// The bytes that are visible ASCII, or tab.
pub open spec fn is_visible(b: u8) -> bool {
    b == 9 || 32 <= b < 127
}

/// Whether all bytes are visible ASCII.
pub open spec fn all_visible(bytes: Seq<u8>) -> bool {
    forall|i: int| 0 <= i < bytes.len() ==> is_visible(#[trigger] bytes[i])
}

/// The text of ASCII bytes.
pub open spec fn ascii_text(bytes: Seq<u8>) -> Seq<char> {
    bytes.map_values(|b: u8| b as char)
}

/// Up to this many headers a map takes another one, however its hash table
/// stands. With more it depends on the table.
pub const HEADER_LIMIT: usize = 6553;

/// The views of some headers.
pub open spec fn list_views(v: Seq<(String, Vec<u8>)>) -> Seq<(Seq<char>, Seq<u8>)> {
    v.map_values(|h: (String, Vec<u8>)| (h.0@, h.1@))
}

/// `http::HeaderMap::with_capacity` gives a map without headers.
#[verifier::external_body]
pub(crate) fn new_headers() -> (r: Headers)
    ensures
        header_list(r) == Seq::<(Seq<char>, Seq<u8>)>::empty(),
{
    http::HeaderMap::with_capacity(0)
}

/// `HeaderMap::iter` hands out the headers, name by name.
#[verifier::external_body]
pub(crate) fn list_headers(map: &Headers) -> (r: Vec<(String, Vec<u8>)>)
    ensures
        list_views(r@) == header_list(*map),
{
    map.iter().map(|(n, v)| (n.as_str().to_string(), v.clone())).collect()
}

/// `HeaderMap::get` looks a name up, without regard to case, and gives its
/// first value.
#[verifier::external_body]
pub(crate) fn get_header(map: &Headers, name: &str) -> (r: Option<Vec<u8>>)
    requires
        is_header_name(name@),
    ensures
        match r {
            Some(v) => has_name(header_list(*map), text::lower(name@)) && v@ == values_of(
                header_list(*map),
                text::lower(name@),
            )[0],
            None => !has_name(header_list(*map), text::lower(name@)),
        },
{
    map.get(name).cloned()
}

/// `HeaderMap::try_insert` puts one value in the place of all values of the
/// name. Where the map is full, which takes more than `HEADER_LIMIT` headers,
/// it changes nothing and the result is `false`.
#[verifier::external_body]
pub(crate) fn insert_header(map: &mut Headers, name: &str, value: Vec<u8>) -> (r: bool)
    requires
        is_header_name(name@),
    ensures
        r ==> values_of(header_list(*final(map)), text::lower(name@)) == seq![value@],
        r ==> forall|other: Seq<char>|
            other != text::lower(name@) ==> #[trigger] values_of(header_list(*final(map)), other)
                == values_of(header_list(*old(map)), other),
        header_list(*final(map)).len() <= header_list(*old(map)).len() + 1,
        !r ==> header_list(*final(map)) == header_list(*old(map)),
        !r ==> header_list(*final(map)).len() > HEADER_LIMIT,
{
    let name = http::HeaderName::from_bytes(name.as_bytes()).unwrap();
    map.try_insert(name, value).is_ok()
}

/// `HeaderMap::try_append` puts one value behind the values of the name. Where
/// the map is full, which takes more than `HEADER_LIMIT` headers, it changes
/// nothing and the result is `false`.
#[verifier::external_body]
pub(crate) fn append_header(map: &mut Headers, name: &str, value: Vec<u8>) -> (r: bool)
    requires
        is_header_name(name@),
    ensures
        r ==> values_of(header_list(*final(map)), text::lower(name@)) == values_of(
            header_list(*old(map)),
            text::lower(name@),
        ).push(value@),
        r ==> forall|other: Seq<char>|
            other != text::lower(name@) ==> #[trigger] values_of(header_list(*final(map)), other)
                == values_of(header_list(*old(map)), other),
        r ==> header_list(*final(map)).len() == header_list(*old(map)).len() + 1,
        !r ==> header_list(*final(map)) == header_list(*old(map)),
        !r ==> header_list(*final(map)).len() > HEADER_LIMIT,
{
    let name = http::HeaderName::from_bytes(name.as_bytes()).unwrap();
    map.try_append(name, value).is_ok()
}

/// `HeaderMap::remove` takes all values of the name out.
#[verifier::external_body]
pub(crate) fn remove_header(map: &mut Headers, name: &str)
    requires
        is_header_name(name@),
    ensures
        !has_name(header_list(*final(map)), text::lower(name@)),
        forall|other: Seq<char>|
            other != text::lower(name@) ==> #[trigger] values_of(header_list(*final(map)), other)
                == values_of(header_list(*old(map)), other),
        header_list(*final(map)).len() <= header_list(*old(map)).len(),
{
    map.remove(name);
}

/// `HeaderMap::clone` gives a map with the same headers.
#[verifier::external_body]
pub(crate) fn clone_headers(map: &Headers) -> (r: Headers)
    ensures
        header_list(r) == header_list(*map),
{
    map.clone()
}

/// `http::HeaderName::from_str` takes the header names, and gives them in
/// lower case.
#[verifier::external_body]
pub(crate) fn parse_header_name(name: &str) -> (r: Option<String>)
    ensures
        match r {
            Some(n) => is_header_name(name@) && n@ == text::lower(name@),
            None => !is_header_name(name@),
        },
{
    name.parse::<http::HeaderName>().ok().map(|n| n.as_str().to_string())
}

/// `http::HeaderValue::from_str` takes the texts whose bytes are a header
/// value.
#[verifier::external_body]
pub(crate) fn parse_header_value(value: &str) -> (r: Option<Vec<u8>>)
    ensures
        match r {
            Some(v) => is_header_value(encode_utf8(value@)) && v@ == encode_utf8(value@),
            None => !is_header_value(encode_utf8(value@)),
        },
{
    http::HeaderValue::from_str(value).ok().map(|v| v.as_bytes().to_vec())
}

/// `http::HeaderValue::to_str` gives the text of values that are visible
/// ASCII.
#[verifier::external_body]
pub(crate) fn value_text(value: &[u8]) -> (r: Option<String>)
    ensures
        match r {
            Some(t) => all_visible(value@) && t@ == ascii_text(value@),
            None => !all_visible(value@),
        },
{
    http::HeaderValue::from_bytes(value).ok().and_then(|v| v.to_str().ok().map(str::to_string))
}

} // verus!
