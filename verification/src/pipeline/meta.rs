//! What the pipeline reads of a request before it routes it.

use vstd::prelude::*;

use crate::config::ProxyConfig;
use crate::filter::header_views;
use crate::headers::{self, Headers};
use crate::routing::{self, RequestModel, RoutingDecision};
use crate::text;
use crate::uri::{self, RequestUri};

verus! {

/// The head of an HTTP request: all but its body.
pub struct RequestHead {
    /// HTTP method.
    pub method: String,
    /// Request URI.
    pub uri: RequestUri,
    /// Headers.
    pub headers: Headers,
}

impl RequestHead {
    /// A request without headers. `None` where the text is no URI.
    pub fn new(method: &str, uri_text: &str) -> (r: Option<Self>)
        ensures
            match r {
                Some(head) => {
                    &&& head.method@ == method@
                    &&& head.uri.text@ == uri_text@
                    &&& uri::uri_parts(uri_text@) == Some(head.uri.parts())
                    &&& headers::header_list(head.headers) == Seq::<(Seq<char>, Seq<u8>)>::empty()
                },
                None => uri::uri_parts(uri_text@) is None,
            },
    {
        match uri::parse_uri(uri_text) {
            Some(parsed) => Some(
                RequestHead {
                    method: method.to_string(),
                    uri: parsed,
                    headers: headers::new_headers(),
                },
            ),
            None => None,
        }
    }

    /// This request with one header more, behind those of the same name.
    /// `None` where the name is no header name, the value no header value, or
    /// the headers are full.
    pub fn with_header(self, name: &str, value: &str) -> (r: Option<Self>)
        ensures
            match r {
                Some(head) => {
                    &&& headers::is_header_name(name@)
                    &&& headers::is_header_value(vstd::utf8::encode_utf8(value@))
                    &&& head.method == self.method
                    &&& head.uri == self.uri
                    &&& headers::values_of(headers::header_list(head.headers), text::lower(name@))
                        == headers::values_of(
                        headers::header_list(self.headers),
                        text::lower(name@),
                    ).push(vstd::utf8::encode_utf8(value@))
                    &&& forall|other: Seq<char>|
                        other != text::lower(name@) ==> #[trigger] headers::values_of(
                            headers::header_list(head.headers),
                            other,
                        ) == headers::values_of(headers::header_list(self.headers), other)
                    &&& headers::header_list(head.headers).len() == headers::header_list(
                        self.headers,
                    ).len() + 1
                },
                None => !headers::is_header_name(name@) || !headers::is_header_value(
                    vstd::utf8::encode_utf8(value@),
                ) || headers::header_list(self.headers).len() > headers::HEADER_LIMIT,
            },
    {
        let mut head = self;
        match (headers::parse_header_name(name), headers::parse_header_value(value)) {
            (Some(_), Some(v)) => {
                if headers::append_header(&mut head.headers, name, v) {
                    Some(head)
                } else {
                    None
                }
            },
            _ => None,
        }
    }
}

/// What routing reads of a request, owned.
#[derive(Debug, Clone, PartialEq, Eq)]
pub struct RequestMeta {
    /// Host of the `Host` header, without the port.
    pub host: Option<String>,
    /// Request path.
    pub path: String,
    /// HTTP method.
    pub method: String,
    /// Header names and values.
    pub headers: Vec<(String, String)>,
    /// Query parameter names and values.
    pub query_params: Vec<(String, String)>,
}

impl View for RequestMeta {
    type V = RequestModel;

    open spec fn view(&self) -> RequestModel {
        RequestModel {
            host: text::opt_owned(self.host),
            path: self.path@,
            method: self.method@,
            headers: header_views(self.headers@),
            query_params: header_views(self.query_params@),
        }
    }
}

/// A `Host` header without its port: what follows the last colon is a port
/// where it is made of digits alone.
pub open spec fn host_name(value: Seq<char>) -> Seq<char> {
    match text::cut_at_last(value, ':') {
        Some((host, port)) => if text::all_digits(port) {
            host
        } else {
            value
        },
        None => value,
    }
}

/// The `Host` header without its port.
pub fn host_without_port(value: &str) -> (r: String)
    ensures
        r@ == host_name(value@),
{
    match text::rsplit_once(value, ':') {
        Some((host, port)) => {
            assert(text::cut_at_last(value@, ':') == Some((host@, port@)));
            if text::is_all_digits(port.as_str()) {
                host
            } else {
                value.to_string()
            }
        },
        None => value.to_string(),
    }
}

/// A query parameter: its name stands before the first equals sign, its value
/// behind. Without an equals sign the value is empty.
pub open spec fn query_param(piece: Seq<char>) -> (Seq<char>, Seq<char>) {
    match text::cut_at_first(piece, '=') {
        Some(pair) => pair,
        None => (piece, Seq::empty()),
    }
}

/// The parameters of a query, in their order.
pub open spec fn query_parameters(query: Seq<char>) -> Seq<(Seq<char>, Seq<char>)> {
    text::split(query, '&').map_values(|piece: Seq<char>| query_param(piece))
}

/// The parameters of a query that may be missing.
pub open spec fn parameters_of(query: Option<Seq<char>>) -> Seq<(Seq<char>, Seq<char>)> {
    match query {
        Some(q) => query_parameters(q),
        None => Seq::empty(),
    }
}

/// The parameters of the query, in their order.
pub fn parse_query(query: &Option<String>) -> (r: Vec<(String, String)>)
    ensures
        header_views(r@) == parameters_of(text::opt_owned(*query)),
{
    let mut r: Vec<(String, String)> = Vec::new();
    match query {
        None => {
            assert(header_views(r@) =~= Seq::empty());
        },
        Some(q) => {
            let pieces = text::split_on(q.as_str(), '&');
            let ghost all = text::split(q@, '&');
            let mut i: usize = 0;
            while i < pieces.len()
                invariant
                    i <= pieces@.len(),
                    text::views(pieces@) == all,
                    r@.len() == i,
                    forall|j: int|
                        0 <= j < i ==> (#[trigger] r@[j].0@, r@[j].1@) == query_param(all[j]),
                decreases pieces.len() - i,
            {
                assert(pieces@[i as int]@ == all[i as int]);
                match text::split_once(pieces[i].as_str(), '=') {
                    Some(pair) => {
                        assert(text::cut_at_first(all[i as int], '=') == Some((pair.0@, pair.1@)));
                        r.push(pair);
                    },
                    None => {
                        r.push((pieces[i].clone(), String::new()));
                    },
                }
                i += 1;
            }
            assert(header_views(r@) =~= query_parameters(q@));
        },
    }
    r
}

/// The value of a header as routing sees it: its text, or nothing where it is
/// not visible ASCII.
pub open spec fn routed_value(bytes: Seq<u8>) -> Seq<char> {
    if headers::all_visible(bytes) {
        headers::ascii_text(bytes)
    } else {
        Seq::empty()
    }
}

/// The name of the `Host` header.
pub const HOST: &'static str = "host";

/// The host that a request names in its headers: the first `Host` header,
/// where it is visible ASCII, without its port.
pub open spec fn host_of(list: Seq<(Seq<char>, Seq<u8>)>) -> Option<Seq<char>> {
    if headers::has_name(list, HOST@) && headers::all_visible(
        headers::values_of(list, HOST@)[0],
    ) {
        Some(host_name(headers::ascii_text(headers::values_of(list, HOST@)[0])))
    } else {
        None
    }
}

/// What routing reads of a request.
pub open spec fn meta_of(head: RequestHead) -> RequestModel {
    RequestModel {
        host: host_of(headers::header_list(head.headers)),
        path: head.uri.path@,
        method: head.method@,
        headers: headers::header_list(head.headers).map_values(
            |h: (Seq<char>, Seq<u8>)| (h.0, routed_value(h.1)),
        ),
        query_params: parameters_of(text::opt_owned(head.uri.query)),
    }
}

/// `HOST` is a header name in lower case.
pub proof fn lemma_host_is_a_name()
    ensures
        headers::is_header_name(HOST@),
        text::lower(HOST@) == HOST@,
{
    reveal_strlit("host");
    assert(text::lower(HOST@) =~= HOST@);
}

/// What routing reads of the request.
pub fn extract_request_meta(head: &RequestHead) -> (r: RequestMeta)
    ensures
        r@ == meta_of(*head),
{
    proof {
        lemma_host_is_a_name();
    }
    let host = match headers::get_header(&head.headers, HOST) {
        Some(v) => match headers::value_text(v.as_slice()) {
            Some(t) => Some(host_without_port(t.as_str())),
            None => None,
        },
        None => None,
    };
    let list = headers::list_headers(&head.headers);
    let ghost all = headers::header_list(head.headers);
    let mut pairs: Vec<(String, String)> = Vec::new();
    let mut i: usize = 0;
    while i < list.len()
        invariant
            i <= list@.len(),
            headers::list_views(list@) == all,
            pairs@.len() == i,
            forall|j: int|
                0 <= j < i ==> (#[trigger] pairs@[j].0@, pairs@[j].1@) == (
                    all[j].0,
                    routed_value(all[j].1),
                ),
        decreases list.len() - i,
    {
        assert(all[i as int] == (list@[i as int].0@, list@[i as int].1@));
        let value = match headers::value_text(list[i].1.as_slice()) {
            Some(t) => t,
            None => String::new(),
        };
        pairs.push((list[i].0.clone(), value));
        i += 1;
    }
    assert(header_views(pairs@) =~= meta_of(*head).headers);
    RequestMeta {
        host,
        path: head.uri.path.clone(),
        method: head.method.clone(),
        headers: pairs,
        query_params: parse_query(&head.uri.query),
    }
}

/// The pairs, borrowed.
fn borrow_pairs<'a>(pairs: &'a Vec<(String, String)>) -> (r: Vec<(&'a str, &'a str)>)
    ensures
        routing::pair_views(r@) == header_views(pairs@),
{
    let mut r: Vec<(&'a str, &'a str)> = Vec::new();
    let mut i: usize = 0;
    while i < pairs.len()
        invariant
            i <= pairs@.len(),
            r@.len() == i,
            forall|j: int|
                0 <= j < i ==> (#[trigger] r@[j].0@, r@[j].1@) == (pairs@[j].0@, pairs@[j].1@),
        decreases pairs.len() - i,
    {
        r.push((pairs[i].0.as_str(), pairs[i].1.as_str()));
        i += 1;
    }
    assert(routing::pair_views(r@) =~= header_views(pairs@));
    r
}

/// What to do with the request that this was read of.
pub fn route_request<'a>(config: &'a ProxyConfig, listener_name: &str, meta: &RequestMeta) -> (r:
    RoutingDecision<'a>)
    ensures
        routing::is_decision(*config, listener_name@, meta@, r),
{
    let header_refs = borrow_pairs(&meta.headers);
    let param_refs = borrow_pairs(&meta.query_params);
    let request = routing::RequestMeta {
        host: match &meta.host {
            Some(h) => Some(h.as_str()),
            None => None,
        },
        path: meta.path.as_str(),
        method: meta.method.as_str(),
        headers: header_refs.as_slice(),
        query_params: param_refs.as_slice(),
    };
    routing::route(config, listener_name, &request)
}

// ---------------------------------------------------------------------------
// Laws
// ---------------------------------------------------------------------------

/// A host loses the port behind its last colon where that is a number, and
/// nothing else.
pub proof fn law_hosts_lose_their_port(name: Seq<char>, behind: Seq<char>)
    requires
        !behind.contains(':'),
    ensures
        (forall|i: int| 0 <= i < behind.len() ==> '0' <= #[trigger] behind[i] <= '9')
            ==> host_name(name + seq![':'] + behind) == name,
        (exists|i: int| 0 <= i < behind.len() && !('0' <= #[trigger] behind[i] <= '9'))
            ==> host_name(name + seq![':'] + behind) == name + seq![':'] + behind,
        !name.contains(':') ==> host_name(name) == name,
{
    text::law_texts_are_cut_at_one_separator(name, ':', behind);
}

/// The parameters of a query are those of its parts between `&`, in order. Each
/// part is a name and a value around its first equals sign; one without has an
/// empty value.
pub proof fn law_queries_are_read_part_by_part(
    a: Seq<char>,
    b: Seq<char>,
    name: Seq<char>,
    value: Seq<char>,
)
    ensures
        query_parameters(a + seq!['&'] + b) == query_parameters(a) + query_parameters(b),
        !name.contains('&') && !name.contains('=') && !value.contains('&') ==> query_parameters(
            name + seq!['='] + value,
        ) == seq![(name, value)],
        !name.contains('&') && !name.contains('=') ==> query_parameters(name) == seq![
            (name, Seq::<char>::empty()),
        ],
        parameters_of(None).len() == 0,
        parameters_of(Some(a)) == query_parameters(a),
{
    text::law_texts_are_split_at_separators(a, '&', b);
    assert(query_parameters(a + seq!['&'] + b) =~= query_parameters(a) + query_parameters(b));
    let pair = name + seq!['='] + value;
    if !name.contains('&') && !name.contains('=') {
        text::law_texts_are_split_at_separators(name, '&', value);
        text::law_texts_are_cut_at_one_separator(name, '=', value);
        assert(query_parameters(name) =~= seq![(name, Seq::<char>::empty())]);
        if !value.contains('&') {
            assert(!pair.contains('&')) by {
                if pair.contains('&') {
                    let i = pair.index_of('&');
                    if i < name.len() {
                        assert(name[i] == '&');
                    } else if i > name.len() {
                        assert(value[i - name.len() - 1] == '&');
                    }
                }
            }
            text::law_texts_are_split_at_separators(pair, '&', value);
            assert(query_parameters(pair) =~= seq![(name, value)]);
        }
    }
}

/// Routing reads the path and the method of the request as they are, its query
/// parameter by parameter, all its headers in their order (a value that is not
/// visible ASCII as an empty one), and as its host the first `Host` header, where
/// that is visible ASCII, without the port.
pub proof fn law_routing_reads_the_request(head: RequestHead)
    ensures
        ({
            let r = meta_of(head);
            let list = headers::header_list(head.headers);
            let hosts = headers::values_of(list, seq!['h', 'o', 's', 't']);
            &&& r.path == head.uri.path@
            &&& r.method == head.method@
            &&& head.uri.query is None ==> r.query_params.len() == 0
            &&& head.uri.query matches Some(q) ==> r.query_params == query_parameters(q@)
            &&& r.headers.len() == list.len()
            &&& forall|i: int|
                0 <= i < list.len() ==> (#[trigger] r.headers[i]).0 == list[i].0 && (
                headers::all_visible(list[i].1) ==> r.headers[i].1 == headers::ascii_text(
                    list[i].1,
                )) && (!headers::all_visible(list[i].1) ==> r.headers[i].1.len() == 0)
            &&& hosts.len() == 0 ==> r.host is None
            &&& hosts.len() > 0 && !headers::all_visible(hosts[0]) ==> r.host is None
            &&& hosts.len() > 0 && headers::all_visible(hosts[0]) ==> r.host == Some(
                host_name(headers::ascii_text(hosts[0])),
            )
        }),
{
    reveal_strlit("host");
    assert(HOST@ =~= seq!['h', 'o', 's', 't']);
}

} // verus!
