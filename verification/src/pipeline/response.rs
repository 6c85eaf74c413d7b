//! Responses that the proxy makes itself.

use vstd::prelude::*;
use vstd::utf8::encode_utf8;

use crate::headers::{self, Headers};
use crate::text;

verus! {

/// A response with a text body.
pub struct TextResponse {
    /// HTTP status code.
    pub status: u16,
    /// Headers.
    pub headers: Headers,
    /// Body.
    pub body: String,
}

pub const CONTENT_TYPE: &'static str = "content-type";

pub const CONTENT_LENGTH: &'static str = "content-length";

pub const LOCATION: &'static str = "location";

pub const TEXT_PLAIN: &'static str = "text/plain";

/// The values of a header of a response.
pub open spec fn header_values(r: TextResponse, name: Seq<char>) -> Seq<Seq<u8>> {
    headers::values_of(headers::header_list(r.headers), name)
}

/// The only header is the content type, plain text.
pub open spec fn is_plain_text(r: TextResponse) -> bool {
    &&& header_values(r, CONTENT_TYPE@) == seq![encode_utf8(TEXT_PLAIN@)]
    &&& forall|name: Seq<char>| name != CONTENT_TYPE@ ==> #[trigger] header_values(r, name)
        == Seq::<Seq<u8>>::empty()
}

/// The names of the headers set here are header names in lower case.
proof fn lemma_names()
    ensures
        headers::is_header_name(CONTENT_TYPE@),
        text::lower(CONTENT_TYPE@) == CONTENT_TYPE@,
        headers::is_header_name(CONTENT_LENGTH@),
        text::lower(CONTENT_LENGTH@) == CONTENT_LENGTH@,
        headers::is_header_name(LOCATION@),
        text::lower(LOCATION@) == LOCATION@,
        LOCATION@ != CONTENT_TYPE@,
        CONTENT_LENGTH@ != CONTENT_TYPE@,
{
    reveal_strlit("content-type");
    reveal_strlit("content-length");
    reveal_strlit("location");
    assert(text::lower(CONTENT_TYPE@) =~= CONTENT_TYPE@);
    assert(text::lower(CONTENT_LENGTH@) =~= CONTENT_LENGTH@);
    assert(text::lower(LOCATION@) =~= LOCATION@);
    assert(CONTENT_LENGTH@.len() != CONTENT_TYPE@.len());
    assert(LOCATION@.len() != CONTENT_TYPE@.len());
}

/// A plain text response.
pub fn plain_response(status: u16, body: &str) -> (r: TextResponse)
    ensures
        r.status == status,
        r.body@ == body@,
        is_plain_text(r),
        headers::header_list(r.headers).len() <= headers::HEADER_LIMIT,
{
    proof {
        lemma_names();
    }
    let mut map = headers::new_headers();
    let done = headers::insert_header(&mut map, CONTENT_TYPE, text::bytes_of(TEXT_PLAIN));
    assert(done);
    TextResponse { status, headers: map, body: body.to_string() }
}

/// The response 404 Not Found.
pub fn not_found_response() -> (r: TextResponse)
    ensures
        r.status == 404,
        r.body@ == "404 Not Found"@,
        is_plain_text(r),
        headers::header_list(r.headers).len() <= headers::HEADER_LIMIT,
{
    plain_response(404, "404 Not Found")
}

/// The response 502 Bad Gateway.
pub fn bad_gateway_response() -> (r: TextResponse)
    ensures
        r.status == 502,
        r.body@ == "502 Bad Gateway"@,
        is_plain_text(r),
        headers::header_list(r.headers).len() <= headers::HEADER_LIMIT,
{
    plain_response(502, "502 Bad Gateway")
}

/// The response 503 Service Unavailable.
pub fn service_unavailable_response() -> (r: TextResponse)
    ensures
        r.status == 503,
        r.body@ == "503 Service Unavailable"@,
        is_plain_text(r),
        headers::header_list(r.headers).len() <= headers::HEADER_LIMIT,
{
    plain_response(503, "503 Service Unavailable")
}

/// The response 504 Gateway Timeout.
pub fn gateway_timeout_response() -> (r: TextResponse)
    ensures
        r.status == 504,
        r.body@ == "504 Gateway Timeout"@,
        is_plain_text(r),
        headers::header_list(r.headers).len() <= headers::HEADER_LIMIT,
{
    plain_response(504, "504 Gateway Timeout")
}

/// `http::StatusCode::from_u16` takes the numbers of three digits.
#[verifier::external_body]
fn is_status_code(code: u16) -> (r: bool)
    ensures
        r == (100 <= code <= 999),
{
    http::StatusCode::from_u16(code).is_ok()
}

/// The status of a redirect: 302 where the number is no status code.
pub open spec fn redirect_status(status: u16) -> u16 {
    if 100 <= status <= 999 {
        status
    } else {
        302
    }
}

/// A redirect to `location`.
pub fn redirect_response(status: u16, location: &str) -> (r: TextResponse)
    requires
        headers::is_header_value(encode_utf8(location@)),
    ensures
        r.status == redirect_status(status),
        r.body@ == Seq::<char>::empty(),
        header_values(r, LOCATION@) == seq![encode_utf8(location@)],
        header_values(r, CONTENT_TYPE@) == seq![encode_utf8(TEXT_PLAIN@)],
        forall|name: Seq<char>|
            name != CONTENT_TYPE@ && name != LOCATION@ ==> #[trigger] header_values(r, name)
                == Seq::<Seq<u8>>::empty(),
        headers::header_list(r.headers).len() <= headers::HEADER_LIMIT,
{
    proof {
        lemma_names();
    }
    let code = if is_status_code(status) {
        status
    } else {
        302
    };
    let mut map = headers::new_headers();
    let located = headers::insert_header(&mut map, LOCATION, text::bytes_of(location));
    let typed = headers::insert_header(&mut map, CONTENT_TYPE, text::bytes_of(TEXT_PLAIN));
    assert(located && typed);
    TextResponse { status: code, headers: map, body: String::new() }
}

/// Whether a text can stand in a header.
pub fn fits_in_header(value: &str) -> (r: bool)
    ensures
        r == headers::is_header_value(encode_utf8(value@)),
{
    headers::parse_header_value(value).is_some()
}

/// A body as it goes onto the wire.
#[derive(Debug, PartialEq)]
pub enum Payload {
    /// No body.
    Nothing,
    /// These bytes.
    Fixed(Vec<u8>),
}

/// The payload of some bytes: none where there are none.
pub open spec fn payload_of(bytes: Seq<u8>) -> Option<Seq<u8>> {
    if bytes.len() == 0 {
        None
    } else {
        Some(bytes)
    }
}

impl View for Payload {
    type V = Option<Seq<u8>>;

    open spec fn view(&self) -> Option<Seq<u8>> {
        match self {
            Payload::Nothing => None,
            Payload::Fixed(bytes) => Some(bytes@),
        }
    }
}

/// The payload of the bytes of a body.
pub fn body_payload(bytes: Vec<u8>) -> (r: Payload)
    ensures
        r@ == payload_of(bytes@),
{
    if bytes.len() == 0 {
        Payload::Nothing
    } else {
        Payload::Fixed(bytes)
    }
}

/// A response as it goes onto the wire.
pub struct WireResponse {
    pub status: u16,
    pub headers: Headers,
    pub payload: Payload,
}

/// Whether `r` is a response for the wire. Where there is a body its length
/// stands in the `Content-Length` header.
pub open spec fn goes_out_as(resp: TextResponse, r: WireResponse) -> bool {
    &&& r.status == resp.status
    &&& r.payload@ == payload_of(encode_utf8(resp.body@))
    &&& resp.body@.len() == 0 ==> headers::header_list(r.headers) == headers::header_list(
        resp.headers,
    )
    &&& resp.body@.len() > 0 ==> {
        &&& headers::values_of(headers::header_list(r.headers), CONTENT_LENGTH@) == seq![
            encode_utf8(text::decimal(encode_utf8(resp.body@).len())),
        ]
        &&& forall|name: Seq<char>|
            name != CONTENT_LENGTH@ ==> #[trigger] headers::values_of(
                headers::header_list(r.headers),
                name,
            ) == headers::values_of(headers::header_list(resp.headers), name)
    }
}

/// The response for the wire. `None` where the headers are full.
pub fn text_response_to_wire(resp: TextResponse) -> (r: Option<WireResponse>)
    ensures
        match r {
            Some(wire) => goes_out_as(resp, wire),
            None => resp.body@.len() > 0 && headers::header_list(resp.headers).len()
                > headers::HEADER_LIMIT,
        },
{
    proof {
        lemma_names();
        lemma_no_text_no_bytes(resp.body@);
    }
    let mut map = resp.headers;
    let bytes = text::bytes_of(resp.body.as_str());
    if bytes.len() > 0 {
        let length = text::to_decimal(bytes.len() as u64);
        if !headers::insert_header(&mut map, CONTENT_LENGTH, text::bytes_of(length.as_str())) {
            return None;
        }
    }
    Some(WireResponse { status: resp.status, headers: map, payload: body_payload(bytes) })
}

proof fn lemma_no_text_no_bytes(s: Seq<char>)
    ensures
        s.len() == 0 <==> encode_utf8(s).len() == 0,
{
    if s.len() > 0 {
        assert(encode_utf8(s) == vstd::utf8::encode_scalar(s[0] as u32) + encode_utf8(
            s.drop_first(),
        ));
        assert(vstd::utf8::encode_scalar(s[0] as u32).len() > 0);
    }
}

// ---------------------------------------------------------------------------
// Laws
// ---------------------------------------------------------------------------

/// The header names and the type of a text answer, letter by letter.
pub proof fn law_response_headers_are_spelled_out()
    ensures
        CONTENT_TYPE@ == seq!['c', 'o', 'n', 't', 'e', 'n', 't', '-', 't', 'y', 'p', 'e'],
        CONTENT_LENGTH@ == seq!['c', 'o', 'n', 't', 'e', 'n', 't', '-', 'l', 'e', 'n', 'g', 't', 'h'],
        LOCATION@ == seq!['l', 'o', 'c', 'a', 't', 'i', 'o', 'n'],
        TEXT_PLAIN@ == seq!['t', 'e', 'x', 't', '/', 'p', 'l', 'a', 'i', 'n'],
{
    reveal_strlit("content-type");
    reveal_strlit("content-length");
    reveal_strlit("location");
    reveal_strlit("text/plain");
    assert(CONTENT_TYPE@ =~= seq!['c', 'o', 'n', 't', 'e', 'n', 't', '-', 't', 'y', 'p', 'e']);
    assert(CONTENT_LENGTH@ =~= seq!['c', 'o', 'n', 't', 'e', 'n', 't', '-', 'l', 'e', 'n', 'g', 't', 'h']);
    assert(LOCATION@ =~= seq!['l', 'o', 'c', 'a', 't', 'i', 'o', 'n']);
    assert(TEXT_PLAIN@ =~= seq!['t', 'e', 'x', 't', '/', 'p', 'l', 'a', 'i', 'n']);
}

/// A redirect has the status that it is given, as far as that is a status of
/// three digits, and else 302.
pub proof fn law_redirects_keep_their_status(status: u16)
    ensures
        status >= 100 && status < 1000 ==> redirect_status(status) == status,
        status < 100 || status >= 1000 ==> redirect_status(status) == 302,
{
}

/// A response goes out with its status and the bytes of its body; where it has
/// a body, the length that it announces is the number of these bytes.
pub proof fn law_responses_announce_their_length(resp: TextResponse, r: WireResponse)
    requires
        goes_out_as(resp, r),
    ensures
        r.status == resp.status,
        encode_utf8(resp.body@).len() == 0 ==> r.payload is Nothing,
        encode_utf8(resp.body@).len() > 0 ==> r.payload is Fixed && r.payload->Fixed_0@
            == encode_utf8(resp.body@),
        resp.body@.len() > 0 ==> exists|digits: Seq<char>|
            headers::values_of(headers::header_list(r.headers), CONTENT_LENGTH@) == seq![
                #[trigger] encode_utf8(digits),
            ] && text::number(digits) == encode_utf8(resp.body@).len(),
{
    let n = encode_utf8(resp.body@).len();
    text::law_decimal_stands_for_the_number(n);
    if resp.body@.len() > 0 {
        assert(headers::values_of(headers::header_list(r.headers), CONTENT_LENGTH@) == seq![
            encode_utf8(text::decimal(n)),
        ]);
    }
}

/// A text answer has one header, its content type, and that is plain text. On
/// the wire it gains its length at most; all other headers stay.
pub proof fn law_text_answers_are_plain(resp: TextResponse, r: WireResponse, name: Seq<char>)
    requires
        is_plain_text(resp),
        goes_out_as(resp, r),
    ensures
        headers::values_of(headers::header_list(resp.headers), CONTENT_TYPE@) == seq![
            encode_utf8(TEXT_PLAIN@),
        ],
        name != CONTENT_TYPE@ ==> headers::values_of(
            headers::header_list(resp.headers),
            name,
        ).len() == 0,
        name != CONTENT_LENGTH@ ==> headers::values_of(headers::header_list(r.headers), name)
            == headers::values_of(headers::header_list(resp.headers), name),
{
    assert(header_values(resp, name) == headers::values_of(
        headers::header_list(resp.headers),
        name,
    ));
}

} // verus!
