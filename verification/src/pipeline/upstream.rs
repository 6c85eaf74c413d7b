//! Forwarding a request to a backend.

use vstd::prelude::*;
use vstd::utf8::encode_utf8;

use crate::config::{Backend, BackendProtocol, HeaderValue, Seconds};
use crate::filter::{AppliedFilter, MirrorTarget};
use crate::headers::{self, Headers};
use crate::pipeline::balance;
use crate::pipeline::chance::Chance;
use crate::pipeline::meta::{self, RequestHead, RequestMeta};
use crate::pipeline::response::{self, TextResponse};
use crate::text;
use crate::uri::{self, RequestUri, UriModel};

verus! {

// ---------------------------------------------------------------------------
// Header filters on a map
// ---------------------------------------------------------------------------

/// Whether a header of a filter can be sent at all.
pub open spec fn is_sendable(h: HeaderValue) -> bool {
    headers::is_header_name(h.name@) && headers::is_header_value(encode_utf8(h.value@))
}

/// Whether a header of a filter can be sent and is that of the name.
pub open spec fn sends(h: HeaderValue, name: Seq<char>) -> bool {
    is_sendable(h) && text::lower(h.name@) == name
}

/// The values of a name after the names of a filter are removed.
pub open spec fn values_kept(values: Seq<Seq<u8>>, remove: Seq<String>, name: Seq<char>) -> Seq<
    Seq<u8>,
> {
    if exists|i: int|
        0 <= i < remove.len() && headers::is_header_name(#[trigger] remove[i]@) && text::lower(
            remove[i]@,
        ) == name {
        Seq::empty()
    } else {
        values
    }
}

/// The values of a name after the headers of a filter are set: the last one
/// of that name, where there is one.
pub open spec fn values_set(values: Seq<Seq<u8>>, set: Seq<HeaderValue>, name: Seq<char>) -> Seq<
    Seq<u8>,
>
    decreases set.len(),
{
    if set.len() == 0 {
        values
    } else if sends(set.last(), name) {
        seq![encode_utf8(set.last().value@)]
    } else {
        values_set(values, set.drop_last(), name)
    }
}

/// The values of a name after the headers of a filter are added: all of that
/// name, behind those that were there.
pub open spec fn values_added(values: Seq<Seq<u8>>, add: Seq<HeaderValue>, name: Seq<char>) -> Seq<
    Seq<u8>,
>
    decreases add.len(),
{
    if add.len() == 0 {
        values
    } else {
        let before = values_added(values, add.drop_last(), name);
        if sends(add.last(), name) {
            before.push(encode_utf8(add.last().value@))
        } else {
            before
        }
    }
}

/// The values of a name after a header filter: remove, then set, then add.
/// Names and values that HTTP does not allow are passed over.
pub open spec fn values_changed(
    values: Seq<Seq<u8>>,
    remove: Seq<String>,
    set: Seq<HeaderValue>,
    add: Seq<HeaderValue>,
    name: Seq<char>,
) -> Seq<Seq<u8>> {
    values_added(values_set(values_kept(values, remove, name), set, name), add, name)
}

/// The values of a name in a map.
pub open spec fn values_in(map: Headers, name: Seq<char>) -> Seq<Seq<u8>> {
    headers::values_of(headers::header_list(map), name)
}

/// Removes the headers of these names.
fn remove_all(map: &mut Headers, remove: &Vec<String>)
    ensures
        forall|n: Seq<char>| #[trigger]
            values_in(*final(map), n) == values_kept(values_in(*old(map), n), remove@, n),
        headers::header_list(*final(map)).len() <= headers::header_list(*old(map)).len(),
{
    let ghost start = *map;
    let mut i: usize = 0;
    while i < remove.len()
        invariant
            i <= remove@.len(),
            start == *old(map),
            forall|n: Seq<char>| #[trigger]
                values_in(*map, n) == values_kept(values_in(start, n), remove@.take(i as int), n),
            headers::header_list(*map).len() <= headers::header_list(start).len(),
        decreases remove.len() - i,
    {
        let ghost before = *map;
        let ghost done = remove@.take(i as int);
        let ghost more = remove@.take(i + 1);
        assert(more[i as int] == remove@[i as int]);
        assert(forall|k: int| 0 <= k < i ==> more[k] == done[k]);
        let name = headers::parse_header_name(remove[i].as_str());
        if name.is_some() {
            headers::remove_header(map, remove[i].as_str());
        }
        assert forall|n: Seq<char>| #[trigger]
            values_in(*map, n) == values_kept(values_in(start, n), more, n) by {
            let here = headers::is_header_name(remove@[i as int]@) && text::lower(
                remove@[i as int]@,
            ) == n;
            assert(values_in(before, n) == values_kept(values_in(start, n), done, n));
            if here {
                assert(headers::is_header_name(more[i as int]@));
                assert(values_in(*map, n) =~= Seq::empty());
            } else {
                assert(values_in(*map, n) == values_in(before, n));
                if exists|k: int|
                    0 <= k < done.len() && headers::is_header_name(#[trigger] done[k]@)
                        && text::lower(done[k]@) == n {
                    let k = choose|k: int|
                        0 <= k < done.len() && headers::is_header_name(#[trigger] done[k]@)
                            && text::lower(done[k]@) == n;
                    assert(headers::is_header_name(more[k]@) && text::lower(more[k]@) == n);
                }
            }
        }
        i += 1;
    }
    assert(remove@.take(i as int) =~= remove@);
}

/// Sets these headers. `false` where the map is full.
fn set_all(map: &mut Headers, set: &Vec<HeaderValue>) -> (r: bool)
    ensures
        r ==> forall|n: Seq<char>| #[trigger]
            values_in(*final(map), n) == values_set(values_in(*old(map), n), set@, n),
        headers::header_list(*final(map)).len() <= headers::header_list(*old(map)).len()
            + set@.len(),
        !r ==> headers::header_list(*final(map)).len() > headers::HEADER_LIMIT,
{
    let ghost start = *map;
    let mut i: usize = 0;
    assert(set@.take(0) =~= Seq::empty());
    while i < set.len()
        invariant
            i <= set@.len(),
            start == *old(map),
            forall|n: Seq<char>| #[trigger]
                values_in(*map, n) == values_set(values_in(start, n), set@.take(i as int), n),
            headers::header_list(*map).len() <= headers::header_list(start).len() + i,
        decreases set.len() - i,
    {
        let ghost before = *map;
        let ghost more = set@.take(i + 1);
        assert(more.drop_last() =~= set@.take(i as int));
        assert(more.last() == set@[i as int]);
        let name = headers::parse_header_name(set[i].name.as_str());
        let value = headers::parse_header_value(set[i].value.as_str());
        if name.is_some() {
            if let Some(bytes) = value {
                if !headers::insert_header(map, set[i].name.as_str(), bytes) {
                    return false;
                }
            }
        }
        assert forall|n: Seq<char>| #[trigger]
            values_in(*map, n) == values_set(values_in(start, n), more, n) by {
            assert(values_in(before, n) == values_set(values_in(start, n), more.drop_last(), n));
        }
        i += 1;
    }
    assert(set@.take(i as int) =~= set@);
    true
}

/// Adds these headers. `false` where the map is full.
fn add_all(map: &mut Headers, add: &Vec<HeaderValue>) -> (r: bool)
    ensures
        r ==> forall|n: Seq<char>| #[trigger]
            values_in(*final(map), n) == values_added(values_in(*old(map), n), add@, n),
        headers::header_list(*final(map)).len() <= headers::header_list(*old(map)).len()
            + add@.len(),
        !r ==> headers::header_list(*final(map)).len() > headers::HEADER_LIMIT,
{
    let ghost start = *map;
    let mut i: usize = 0;
    assert(add@.take(0) =~= Seq::empty());
    while i < add.len()
        invariant
            i <= add@.len(),
            start == *old(map),
            forall|n: Seq<char>| #[trigger]
                values_in(*map, n) == values_added(values_in(start, n), add@.take(i as int), n),
            headers::header_list(*map).len() <= headers::header_list(start).len() + i,
        decreases add.len() - i,
    {
        let ghost before = *map;
        let ghost more = add@.take(i + 1);
        assert(more.drop_last() =~= add@.take(i as int));
        assert(more.last() == add@[i as int]);
        let name = headers::parse_header_name(add[i].name.as_str());
        let value = headers::parse_header_value(add[i].value.as_str());
        if name.is_some() {
            if let Some(bytes) = value {
                if !headers::append_header(map, add[i].name.as_str(), bytes) {
                    return false;
                }
            }
        }
        assert forall|n: Seq<char>| #[trigger]
            values_in(*map, n) == values_added(values_in(start, n), more, n) by {
            assert(values_in(before, n) == values_added(values_in(start, n), more.drop_last(), n));
        }
        i += 1;
    }
    assert(add@.take(i as int) =~= add@);
    true
}

/// The headers after a header filter: remove, then set, then add. `None` where
/// the map is full before all are in it.
pub fn change_headers(
    headers: Headers,
    remove: &Vec<String>,
    set: &Vec<HeaderValue>,
    add: &Vec<HeaderValue>,
) -> (r: Option<Headers>)
    ensures
        match r {
            Some(map) => {
                &&& forall|n: Seq<char>| #[trigger]
                    values_in(map, n) == values_changed(
                        values_in(headers, n),
                        remove@,
                        set@,
                        add@,
                        n,
                    )
                &&& headers::header_list(map).len() <= headers::header_list(headers).len()
                    + set@.len() + add@.len()
            },
            None => headers::header_list(headers).len() + set@.len() + add@.len()
                > headers::HEADER_LIMIT,
        },
{
    let ghost start = headers;
    let mut map = headers;
    remove_all(&mut map, remove);
    let ghost removed = map;
    if !set_all(&mut map, set) {
        return None;
    }
    let ghost changed = map;
    if !add_all(&mut map, add) {
        return None;
    }
    assert forall|n: Seq<char>| #[trigger]
        values_in(map, n) == values_changed(values_in(start, n), remove@, set@, add@, n) by {
        assert(values_in(changed, n) == values_set(values_in(removed, n), set@, n));
        assert(values_in(removed, n) == values_kept(values_in(start, n), remove@, n));
    }
    Some(map)
}

// ---------------------------------------------------------------------------
// The request to the backend
// ---------------------------------------------------------------------------

/// Whether a text that may be missing can stand in a header.
pub open spec fn usable(value: Option<Seq<char>>) -> bool {
    value is Some && headers::is_header_value(encode_utf8(value->0))
}

/// The URI sent to the backend: the new path of a rewrite, where it is a URI,
/// else the URI of the request.
pub open spec fn upstream_uri(head: RequestHead, applied: AppliedFilter) -> (Seq<char>, UriModel) {
    match applied@.rewrite {
        Some(rewrite) => match rewrite.path {
            Some(path) => match uri::uri_parts(path) {
                Some(parts) => (path, parts),
                None => (head.uri.text@, head.uri.parts()),
            },
            None => (head.uri.text@, head.uri.parts()),
        },
        None => (head.uri.text@, head.uri.parts()),
    }
}

/// The host that a rewrite names.
pub open spec fn rewrite_host(applied: AppliedFilter) -> Option<Seq<char>> {
    match applied@.rewrite {
        Some(rewrite) => rewrite.hostname,
        None => None,
    }
}

/// The values of a header in the request to the backend: the host of a
/// rewrite in place of the `Host` header, then the header filter, then, where
/// no `Host` header is left, the host that the request was routed by.
pub open spec fn upstream_values(
    original: Headers,
    host: Option<Seq<char>>,
    applied: AppliedFilter,
    name: Seq<char>,
) -> Seq<Seq<u8>> {
    let first = if name == meta::HOST@ && usable(rewrite_host(applied)) {
        seq![encode_utf8(rewrite_host(applied)->0)]
    } else {
        values_in(original, name)
    };
    let second = values_changed(
        first,
        applied@.request_remove,
        applied@.request_set,
        applied@.request_add,
        name,
    );
    if name == meta::HOST@ && second.len() == 0 && usable(host) {
        seq![encode_utf8(host->0)]
    } else {
        second
    }
}

/// The most headers that a request to the backend can come to on its way.
pub open spec fn upstream_count(head: RequestHead, applied: AppliedFilter) -> nat {
    headers::header_list(head.headers).len() + applied@.request_set.len()
        + applied@.request_add.len() + 2
}

/// Whether `r` is the request to the backend: the request with rewrite and
/// header filters applied, and with a `Host` header.
pub open spec fn goes_upstream_as(
    original: RequestHead,
    host: Option<Seq<char>>,
    applied: AppliedFilter,
    r: RequestHead,
) -> bool {
    &&& r.method == original.method
    &&& (r.uri.text@, r.uri.parts()) == upstream_uri(original, applied)
    &&& forall|n: Seq<char>| #[trigger]
        values_in(r.headers, n) == upstream_values(original.headers, host, applied, n)
}

/// The request to the backend. `None` where its headers are full before all
/// are in it.
pub fn build_upstream_request(original: RequestHead, meta: &RequestMeta, applied: &AppliedFilter) -> (r:
    Option<RequestHead>)
    ensures
        match r {
            Some(head) => goes_upstream_as(original, meta@.host, *applied, head),
            None => upstream_count(original, *applied) > headers::HEADER_LIMIT,
        },
{
    proof {
        meta::lemma_host_is_a_name();
    }
    let ghost start = original.headers;
    let mut uri_now = original.uri;
    let mut map = original.headers;
    if let Some(rewrite) = &applied.rewrite {
        if let Some(path) = &rewrite.path {
            if let Some(parsed) = uri::parse_uri(path.as_str()) {
                uri_now = parsed;
            }
        }
        if let Some(host) = &rewrite.hostname {
            if let Some(bytes) = headers::parse_header_value(host.as_str()) {
                if !headers::insert_header(&mut map, meta::HOST, bytes) {
                    return None;
                }
            }
        }
    }
    let ghost first = map;
    assert forall|n: Seq<char>| #[trigger]
        values_in(first, n) == if n == meta::HOST@ && usable(rewrite_host(*applied)) {
            seq![encode_utf8(rewrite_host(*applied)->0)]
        } else {
            values_in(start, n)
        } by {}
    let changed = change_headers(
        map,
        &applied.request_header_remove,
        &applied.request_header_set,
        &applied.request_header_add,
    );
    let mut map = match changed {
        Some(m) => m,
        None => return None,
    };
    let ghost second = map;
    if headers::get_header(&map, meta::HOST).is_none() {
        if let Some(host) = &meta.host {
            if let Some(bytes) = headers::parse_header_value(host.as_str()) {
                if !headers::insert_header(&mut map, meta::HOST, bytes) {
                    return None;
                }
            }
        }
    }
    assert forall|n: Seq<char>| #[trigger]
        values_in(map, n) == upstream_values(start, meta@.host, *applied, n) by {
        assert(values_in(second, n) == values_changed(
            values_in(first, n),
            applied@.request_remove,
            applied@.request_set,
            applied@.request_add,
            n,
        ));
    }
    Some(RequestHead { method: original.method, uri: uri_now, headers: map })
}

/// A copy of the request for a mirror. It goes out without a body.
pub fn clone_request_for_mirror(head: &RequestHead) -> (r: RequestHead)
    ensures
        r.method == head.method,
        r.uri == head.uri,
        headers::header_list(r.headers) == headers::header_list(head.headers),
{
    RequestHead {
        method: head.method.clone(),
        uri: head.uri.clone(),
        headers: headers::clone_headers(&head.headers),
    }
}

/// The headers of a response after the response header filters. `None` where
/// they are full before all are in.
pub fn apply_response_filters(headers: Headers, applied: &AppliedFilter) -> (r: Option<Headers>)
    ensures
        match r {
            Some(map) => forall|n: Seq<char>| #[trigger]
                values_in(map, n) == values_changed(
                    values_in(headers, n),
                    applied@.response_remove,
                    applied@.response_set,
                    applied@.response_add,
                    n,
                ),
            None => headers::header_list(headers).len() + applied@.response_set.len()
                + applied@.response_add.len() > headers::HEADER_LIMIT,
        },
{
    change_headers(
        headers,
        &applied.response_header_remove,
        &applied.response_header_set,
        &applied.response_header_add,
    )
}

// ---------------------------------------------------------------------------
// HTTP/2 requests
// ---------------------------------------------------------------------------

pub const TRANSFER_ENCODING: &'static str = "transfer-encoding";

pub const CONNECTION: &'static str = "connection";

/// Whether an HTTP/2 request leaves a header out: the host goes into the URI,
/// and the others belong to one HTTP/1.1 connection.
pub open spec fn left_out_of_h2(name: Seq<char>) -> bool {
    name == TRANSFER_ENCODING@ || name == CONNECTION@ || name == meta::HOST@
}

/// The authority of an HTTP/2 request: the text of the `Host` header, nothing
/// where it is not visible ASCII.
pub open spec fn h2_authority(map: Headers) -> Seq<char> {
    meta::routed_value(values_in(map, meta::HOST@)[0])
}

/// The path and query of an HTTP/2 request.
pub open spec fn h2_target(uri: RequestUri) -> Seq<char> {
    match uri.path_and_query {
        Some(p) => p@,
        None => "/"@,
    }
}

/// The URI of an HTTP/2 request: that of the `Host` header and the path, where
/// there is such a header and the two make a URI, else that of the request.
pub open spec fn h2_uri(head: RequestHead) -> (Seq<char>, UriModel) {
    if values_in(head.headers, meta::HOST@).len() > 0 {
        match uri::assembled_uri("http"@, h2_authority(head.headers), h2_target(head.uri)) {
            Some(built) => built,
            None => (head.uri.text@, head.uri.parts()),
        }
    } else {
        (head.uri.text@, head.uri.parts())
    }
}

/// Whether a request over HTTP/2 ends with its headers: it has no body.
pub fn ends_with_head(body: &[u8]) -> (r: bool)
    ensures
        r == (body@.len() == 0),
{
    body.len() == 0
}

/// The request as it goes out over HTTP/2.
pub fn build_h2_request(head: RequestHead) -> (r: RequestHead)
    ensures
        r.method == head.method,
        (r.uri.text@, r.uri.parts()) == h2_uri(head),
        forall|n: Seq<char>| #[trigger]
            values_in(r.headers, n) == if left_out_of_h2(n) {
                Seq::empty()
            } else {
                values_in(head.headers, n)
            },
{
    proof {
        meta::lemma_host_is_a_name();
        reveal_strlit("transfer-encoding");
        reveal_strlit("connection");
        assert(text::lower(TRANSFER_ENCODING@) =~= TRANSFER_ENCODING@);
        assert(text::lower(CONNECTION@) =~= CONNECTION@);
    }
    let ghost start = head.headers;
    let host = headers::get_header(&head.headers, meta::HOST);
    let new_uri = match host {
        Some(v) => {
            let authority = match headers::value_text(v.as_slice()) {
                Some(t) => t,
                None => String::new(),
            };
            let target = match &head.uri.path_and_query {
                Some(p) => p.as_str(),
                None => "/",
            };
            match uri::assemble_uri("http", authority.as_str(), target) {
                Some(built) => built,
                None => head.uri,
            }
        },
        None => head.uri,
    };
    let mut map = head.headers;
    headers::remove_header(&mut map, TRANSFER_ENCODING);
    headers::remove_header(&mut map, CONNECTION);
    headers::remove_header(&mut map, meta::HOST);
    assert forall|n: Seq<char>| #[trigger]
        values_in(map, n) == if left_out_of_h2(n) {
            Seq::empty()
        } else {
            values_in(start, n)
        } by {
        if left_out_of_h2(n) {
            assert(values_in(map, n) =~= Seq::empty());
        }
    }
    RequestHead { method: head.method, uri: new_uri, headers: map }
}

// ---------------------------------------------------------------------------
// Timeouts and mirrors
// ---------------------------------------------------------------------------

/// A timeout that counts: one above zero.
pub open spec fn counting(timeout: Option<Seconds>) -> Option<Seconds> {
    match timeout {
        Some(t) => if t.positive() {
            Some(t)
        } else {
            None
        },
        None => None,
    }
}

/// The limit for the exchange with the backend, `None` where there is none.
pub fn backend_timeout(applied: &AppliedFilter) -> (r: Option<Seconds>)
    ensures
        r == match applied@.timeout {
            Some(t) => counting(t.backend_request),
            None => None,
        },
{
    match applied.timeout {
        Some(t) => match t.backend_request {
            Some(limit) => if limit.is_positive() {
                Some(limit)
            } else {
                None
            },
            None => None,
        },
        None => None,
    }
}

/// The limit for the whole request, `None` where there is none.
pub fn request_timeout(applied: &AppliedFilter) -> (r: Option<Seconds>)
    ensures
        r == match applied@.timeout {
            Some(t) => counting(t.request),
            None => None,
        },
{
    match applied.timeout {
        Some(t) => match t.request {
            Some(limit) => if limit.is_positive() {
                Some(limit)
            } else {
                None
            },
            None => None,
        },
        None => None,
    }
}

/// Whether a request is mirrored, where `roll` was drawn from 0 to 99.
pub open spec fn mirrored(percent: u32, roll: u32) -> bool {
    percent >= 100 || roll < percent
}

/// Whether the request is mirrored, where `roll` was drawn from 0 to 99.
pub fn is_mirrored(percent: u32, roll: u32) -> (r: bool)
    ensures
        r == mirrored(percent, roll),
{
    percent >= 100 || roll < percent
}

/// The mirrors that get a copy of a request, in their order, where `rolls[i]`
/// was drawn for mirror `i`.
pub open spec fn mirrors_kept(mirrors: Seq<MirrorTarget>, rolls: Seq<u32>) -> Seq<MirrorTarget>
    decreases mirrors.len(),
{
    if mirrors.len() == 0 {
        Seq::empty()
    } else {
        let before = mirrors_kept(mirrors.drop_last(), rolls);
        if mirrored(mirrors.last().percent, rolls[mirrors.len() - 1]) {
            before.push(mirrors.last())
        } else {
            before
        }
    }
}

/// The mirrors that get a copy of the request, where `rolls[i]` was drawn for
/// mirror `i`.
pub fn keep_mirrors<'a>(mirrors: &'a Vec<MirrorTarget>, rolls: &Vec<u32>) -> (r: Vec<
    &'a MirrorTarget,
>)
    requires
        rolls@.len() == mirrors@.len(),
    ensures
        r@.map_values(|m: &MirrorTarget| *m) == mirrors_kept(mirrors@, rolls@),
{
    let mut r: Vec<&'a MirrorTarget> = Vec::new();
    let mut i: usize = 0;
    assert(mirrors@.take(0) =~= Seq::empty());
    assert(r@.map_values(|m: &MirrorTarget| *m) =~= Seq::empty());
    while i < mirrors.len()
        invariant
            i <= mirrors@.len() == rolls@.len(),
            r@.map_values(|m: &MirrorTarget| *m) == mirrors_kept(mirrors@.take(i as int), rolls@),
        decreases mirrors.len() - i,
    {
        assert(mirrors@.take(i + 1).drop_last() =~= mirrors@.take(i as int));
        let ghost before = r@.map_values(|m: &MirrorTarget| *m);
        if is_mirrored(mirrors[i].percent, rolls[i]) {
            r.push(&mirrors[i]);
            assert(r@.map_values(|m: &MirrorTarget| *m) =~= before.push(mirrors@[i as int]));
        }
        i += 1;
    }
    assert(mirrors@.take(i as int) =~= mirrors@);
    r
}

/// Whether these rolls could have been drawn for that many mirrors.
pub open spec fn drawn(rolls: Seq<u32>, count: nat) -> bool {
    rolls.len() == count && forall|i: int| 0 <= i < rolls.len() ==> #[trigger] rolls[i] < 100
}

/// Whether the rolls came from the random source: one fresh draw below 100 for
/// each, in order, and nothing else.
pub open spec fn rolled(rolls: Seq<u32>, source: Chance) -> bool {
    source.draws() == rolls.map_values(|roll: u32| (100u128, roll as u128))
}

/// The mirrors that get a copy of the request: chance decides, by the
/// percentage of each.
pub fn choose_mirrors(mirrors: &Vec<MirrorTarget>) -> (r: Vec<&MirrorTarget>)
    ensures
        exists|rolls: Seq<u32>| #[trigger]
            drawn(rolls, mirrors@.len()) && r@.map_values(|m: &MirrorTarget| *m) == mirrors_kept(
                mirrors@,
                rolls,
            ),
        exists|rolls: Seq<u32>, source: Chance| #[trigger]
            rolled(rolls, source) && drawn(rolls, mirrors@.len()) && r@.map_values(
                |m: &MirrorTarget| *m,
            ) == mirrors_kept(mirrors@, rolls),
{
    let mut source = Chance::new();
    let mut rolls: Vec<u32> = Vec::new();
    let mut i: usize = 0;
    assert(source.draws() =~= rolls@.map_values(|roll: u32| (100u128, roll as u128)));
    while i < mirrors.len()
        invariant
            i <= mirrors@.len(),
            drawn(rolls@, i as nat),
            rolled(rolls@, source),
        decreases mirrors.len() - i,
    {
        let roll = balance::random_below(100, &mut source) as u32;
        rolls.push(roll);
        assert(source.draws() =~= rolls@.map_values(|roll: u32| (100u128, roll as u128)));
        i += 1;
    }
    keep_mirrors(mirrors, &rolls)
}

// ---------------------------------------------------------------------------
// Forwarding
// ---------------------------------------------------------------------------

/// A request on its way to a backend.
pub struct ForwardRequest {
    /// The request.
    pub request: RequestHead,
    /// What routing read of it.
    pub meta: RequestMeta,
    /// Backends that can serve it.
    pub backends: Vec<Backend>,
    /// The effects of the filters.
    pub applied_filter: AppliedFilter,
}

/// Why the proxy answers in place of a backend.
#[derive(Debug, Clone, Copy, PartialEq, Eq, Structural)]
pub enum Fault {
    /// No backend has weight.
    Unavailable,
    /// The backend could not be reached or broke off.
    BadGateway,
    /// The backend took too long.
    Timeout,
}

/// The status code for a fault.
pub open spec fn fault_status(fault: Fault) -> u16 {
    match fault {
        Fault::Unavailable => 503,
        Fault::BadGateway => 502,
        Fault::Timeout => 504,
    }
}

/// The body for a fault.
pub open spec fn fault_body(fault: Fault) -> Seq<char> {
    match fault {
        Fault::Unavailable => "503 Service Unavailable"@,
        Fault::BadGateway => "502 Bad Gateway"@,
        Fault::Timeout => "504 Gateway Timeout"@,
    }
}

/// What the client is answered on a fault.
pub fn fault_response(fault: Fault) -> (r: TextResponse)
    ensures
        r.status == fault_status(fault),
        r.body@ == fault_body(fault),
        response::is_plain_text(r),
        headers::header_list(r.headers).len() <= headers::HEADER_LIMIT,
{
    match fault {
        Fault::Unavailable => response::service_unavailable_response(),
        Fault::BadGateway => response::bad_gateway_response(),
        Fault::Timeout => response::gateway_timeout_response(),
    }
}

/// How forwarding begins.
pub enum ForwardStart<'a> {
    /// Answer with the fault.
    Answer(Fault),
    /// Resolve the address of this backend.
    Resolve(&'a Backend),
}

/// How forwarding to one of these backends begins.
pub fn begin_forward(backends: &[Backend]) -> (r: ForwardStart<'_>)
    ensures
        if balance::total_weight(backends@) == 0 {
            r == ForwardStart::Answer(Fault::Unavailable)
        } else {
            r matches ForwardStart::Resolve(b) && exists|pick: nat, i: int|
                pick < balance::total_weight(backends@) && balance::selects(backends@, pick, i)
                    && *b == backends@[i]
        },
        r matches ForwardStart::Resolve(b) ==> balance::drawn_from(backends@, *b),
{
    match balance::select_backend(backends) {
        Some(b) => ForwardStart::Resolve(b),
        None => ForwardStart::Answer(Fault::Unavailable),
    }
}

/// Where forwarding stands: what it waits for.
#[derive(Debug, Clone, Copy, PartialEq, Eq, Structural)]
pub enum ForwardState {
    /// For the addresses of a backend that speaks this protocol.
    Resolving(BackendProtocol),
    /// For a connection from the pool.
    Connecting,
    /// For the backend's response.
    Exchanging,
    /// For nothing: the client has its response.
    Finished,
}

/// How an exchange with a backend ended.
#[derive(Debug, Clone, Copy, PartialEq, Eq, Structural)]
pub enum ExchangeEnd {
    /// With a response.
    Response,
    /// It took too long.
    TimedOut,
    /// It failed otherwise.
    Failed,
}

/// What has come of the last action.
pub enum ForwardEvent<A> {
    /// The addresses of the backend, or none if it could not be resolved.
    Resolved(Option<Vec<A>>),
    /// Whether the pool gave a connection.
    Connected(bool),
    /// How the exchange ended.
    Exchanged(ExchangeEnd),
}

/// What to do next.
pub enum ForwardAction<A> {
    /// Get a connection to this address from the pool.
    Connect(A),
    /// Send the request over the pooled connection.
    ExchangeHttp1,
    /// Send the request to this address over HTTP/2.
    ExchangeH2(A),
    /// Apply the response filters and hand the response on.
    Deliver,
    /// Answer with the fault.
    Answer(Fault),
}

/// What an event leads to: the next state and what to do.
pub open spec fn forward_step<A>(state: ForwardState, event: ForwardEvent<A>) -> (
    ForwardState,
    ForwardAction<A>,
) {
    match (state, event) {
        (ForwardState::Resolving(protocol), ForwardEvent::Resolved(Some(addrs))) => {
            if addrs@.len() == 0 {
                (ForwardState::Finished, ForwardAction::Answer(Fault::BadGateway))
            } else {
                match protocol {
                    BackendProtocol::H2c => (
                        ForwardState::Exchanging,
                        ForwardAction::ExchangeH2(addrs@[0]),
                    ),
                    BackendProtocol::Http1 => (
                        ForwardState::Connecting,
                        ForwardAction::Connect(addrs@[0]),
                    ),
                }
            }
        },
        (ForwardState::Connecting, ForwardEvent::Connected(true)) => (
            ForwardState::Exchanging,
            ForwardAction::ExchangeHttp1,
        ),
        (ForwardState::Exchanging, ForwardEvent::Exchanged(ExchangeEnd::Response)) => (
            ForwardState::Finished,
            ForwardAction::Deliver,
        ),
        (ForwardState::Exchanging, ForwardEvent::Exchanged(ExchangeEnd::TimedOut)) => (
            ForwardState::Finished,
            ForwardAction::Answer(Fault::Timeout),
        ),
        _ => (ForwardState::Finished, ForwardAction::Answer(Fault::BadGateway)),
    }
}

/// The next state of forwarding, and what to do.
pub fn step_forward<A>(state: ForwardState, event: ForwardEvent<A>) -> (r: (
    ForwardState,
    ForwardAction<A>,
))
    ensures
        r == forward_step(state, event),
{
    match (state, event) {
        (ForwardState::Resolving(protocol), ForwardEvent::Resolved(Some(mut addrs))) => {
            if addrs.len() == 0 {
                (ForwardState::Finished, ForwardAction::Answer(Fault::BadGateway))
            } else {
                let addr = addrs.remove(0);
                match protocol {
                    BackendProtocol::H2c => (
                        ForwardState::Exchanging,
                        ForwardAction::ExchangeH2(addr),
                    ),
                    BackendProtocol::Http1 => (
                        ForwardState::Connecting,
                        ForwardAction::Connect(addr),
                    ),
                }
            }
        },
        (ForwardState::Connecting, ForwardEvent::Connected(true)) => (
            ForwardState::Exchanging,
            ForwardAction::ExchangeHttp1,
        ),
        (ForwardState::Exchanging, ForwardEvent::Exchanged(ExchangeEnd::Response)) => (
            ForwardState::Finished,
            ForwardAction::Deliver,
        ),
        (ForwardState::Exchanging, ForwardEvent::Exchanged(ExchangeEnd::TimedOut)) => (
            ForwardState::Finished,
            ForwardAction::Answer(Fault::Timeout),
        ),
        _ => (ForwardState::Finished, ForwardAction::Answer(Fault::BadGateway)),
    }
}

/// How an exchange over HTTP/1.1 that the codec broke off with this message
/// ended.
pub open spec fn codec_failure(message: Seq<char>) -> ExchangeEnd {
    if text::contains_text(message, "timeout"@) {
        ExchangeEnd::TimedOut
    } else {
        ExchangeEnd::Failed
    }
}

/// How the exchange ended, by the codec's message.
pub fn classify_codec_failure(message: &str) -> (r: ExchangeEnd)
    ensures
        r == codec_failure(message@),
{
    if text::contains(message, "timeout") {
        ExchangeEnd::TimedOut
    } else {
        ExchangeEnd::Failed
    }
}

// ---------------------------------------------------------------------------
// Laws
// ---------------------------------------------------------------------------

/// A percentage of 100 or more mirrors every request, one of 0 none, and one
/// between mirrors as many of the hundred rolls as it says: those below it.
pub proof fn law_mirroring_follows_the_percentage(percent: u32, roll: u32)
    requires
        roll < 100,
    ensures
        percent >= 100 ==> mirrored(percent, roll),
        percent == 0 ==> !mirrored(percent, roll),
        percent < 100 ==> (mirrored(percent, roll) <==> roll < percent),
{
}

/// The number of steps that forwarding in that state can still take.
pub open spec fn forward_steps_left(state: ForwardState) -> nat {
    match state {
        ForwardState::Resolving(_) => 3,
        ForwardState::Connecting => 2,
        ForwardState::Exchanging => 1,
        ForwardState::Finished => 0,
    }
}

/// Every step brings forwarding nearer to its end, and at the end the client
/// has exactly one response: the backend's, or a fault.
pub proof fn law_forwarding_ends_with_one_response<A>(state: ForwardState, event: ForwardEvent<A>)
    requires
        state != ForwardState::Finished,
    ensures
        ({
            let (next, action) = forward_step(state, event);
            &&& forward_steps_left(next) < forward_steps_left(state)
            &&& next == ForwardState::Finished <==> (action is Deliver || action is Answer)
        }),
{
}

/// The request to the backend has a `Host` header wherever a host is known
/// that can stand in one.
pub proof fn law_upstream_has_a_host(
    original: Headers,
    host: Option<Seq<char>>,
    applied: AppliedFilter,
)
    requires
        usable(host),
    ensures
        upstream_values(original, host, applied, meta::HOST@).len() > 0,
{
}

/// Filters without request header changes and without a rewrite leave every
/// header but a missing `Host` as it is.
pub proof fn law_unfiltered_headers_stay(
    original: Headers,
    host: Option<Seq<char>>,
    applied: AppliedFilter,
    name: Seq<char>,
)
    requires
        applied@.request_remove.len() == 0,
        applied@.request_set.len() == 0,
        applied@.request_add.len() == 0,
        applied@.rewrite is None,
        name != meta::HOST@ || values_in(original, name).len() > 0,
    ensures
        upstream_values(original, host, applied, name) == values_in(original, name),
{
}

/// A header that is removed and neither set nor added is gone.
pub proof fn law_removed_values_are_gone(
    values: Seq<Seq<u8>>,
    remove: Seq<String>,
    set: Seq<HeaderValue>,
    add: Seq<HeaderValue>,
    i: int,
)
    requires
        0 <= i < remove.len(),
        headers::is_header_name(remove[i]@),
        forall|k: int|
            0 <= k < set.len() ==> !sends(#[trigger] set[k], text::lower(remove[i]@)),
        forall|k: int|
            0 <= k < add.len() ==> !sends(#[trigger] add[k], text::lower(remove[i]@)),
    ensures
        values_changed(values, remove, set, add, text::lower(remove[i]@)).len() == 0,
{
    let name = text::lower(remove[i]@);
    lemma_nothing_set(values_kept(values, remove, name), set, name);
    lemma_nothing_added(
        values_set(values_kept(values, remove, name), set, name),
        add,
        name,
    );
}

proof fn lemma_nothing_set(values: Seq<Seq<u8>>, set: Seq<HeaderValue>, name: Seq<char>)
    requires
        forall|k: int| 0 <= k < set.len() ==> !sends(#[trigger] set[k], name),
    ensures
        values_set(values, set, name) == values,
    decreases set.len(),
{
    if set.len() > 0 {
        assert(!sends(set[set.len() - 1], name));
        assert forall|k: int| 0 <= k < set.drop_last().len() implies !sends(
            #[trigger] set.drop_last()[k],
            name,
        ) by {
            assert(set.drop_last()[k] == set[k]);
        }
        lemma_nothing_set(values, set.drop_last(), name);
    }
}

proof fn lemma_nothing_added(values: Seq<Seq<u8>>, add: Seq<HeaderValue>, name: Seq<char>)
    requires
        forall|k: int| 0 <= k < add.len() ==> !sends(#[trigger] add[k], name),
    ensures
        values_added(values, add, name) == values,
    decreases add.len(),
{
    if add.len() > 0 {
        assert(!sends(add[add.len() - 1], name));
        assert forall|k: int| 0 <= k < add.drop_last().len() implies !sends(
            #[trigger] add.drop_last()[k],
            name,
        ) by {
            assert(add.drop_last()[k] == add[k]);
        }
        lemma_nothing_added(values, add.drop_last(), name);
    }
}

// -- What reaches the backend ------------------------------------------------

/// The headers that are named here, letter by letter.
pub proof fn law_connection_headers_are_spelled_out()
    ensures
        meta::HOST@ == seq!['h', 'o', 's', 't'],
        CONNECTION@ == seq!['c', 'o', 'n', 'n', 'e', 'c', 't', 'i', 'o', 'n'],
        TRANSFER_ENCODING@ == seq![
            't',
            'r',
            'a',
            'n',
            's',
            'f',
            'e',
            'r',
            '-',
            'e',
            'n',
            'c',
            'o',
            'd',
            'i',
            'n',
            'g',
        ],
{
    reveal_strlit("host");
    reveal_strlit("connection");
    reveal_strlit("transfer-encoding");
    assert(meta::HOST@ =~= seq!['h', 'o', 's', 't']);
    assert(CONNECTION@ =~= seq!['c', 'o', 'n', 'n', 'e', 'c', 't', 'i', 'o', 'n']);
    assert(TRANSFER_ENCODING@ =~= seq![
        't',
        'r',
        'a',
        'n',
        's',
        'f',
        'e',
        'r',
        '-',
        'e',
        'n',
        'c',
        'o',
        'd',
        'i',
        'n',
        'g',
    ]);
}

/// A header that a filter sets is there once, with the value that the filter
/// sets last, whatever was there and whether or not its name is removed too.
pub proof fn law_set_values_are_there_once(
    values: Seq<Seq<u8>>,
    remove: Seq<String>,
    set: Seq<HeaderValue>,
    h: HeaderValue,
)
    requires
        headers::is_header_name(h.name@),
        headers::is_header_value(encode_utf8(h.value@)),
    ensures
        values_changed(values, remove, set.push(h), Seq::empty(), text::lower(h.name@)) == seq![
            encode_utf8(h.value@),
        ],
{
    assert(set.push(h).last() == h);
}

/// A header that a filter adds comes behind the values that are there, and
/// nothing else changes.
pub proof fn law_added_values_come_last(
    values: Seq<Seq<u8>>,
    remove: Seq<String>,
    set: Seq<HeaderValue>,
    add: Seq<HeaderValue>,
    h: HeaderValue,
    name: Seq<char>,
)
    requires
        headers::is_header_name(h.name@),
        headers::is_header_value(encode_utf8(h.value@)),
    ensures
        values_changed(values, remove, set, add.push(h), name) == if name == text::lower(h.name@) {
            values_changed(values, remove, set, add, name).push(encode_utf8(h.value@))
        } else {
            values_changed(values, remove, set, add, name)
        },
{
    assert(add.push(h).drop_last() =~= add);
}

/// Headers that HTTP does not allow are passed over, be they set or added, and
/// a filter on one name changes no other.
pub proof fn law_other_values_stay(
    values: Seq<Seq<u8>>,
    remove: Seq<String>,
    set: Seq<HeaderValue>,
    add: Seq<HeaderValue>,
    h: HeaderValue,
    name: Seq<char>,
)
    requires
        !headers::is_header_name(h.name@) || !headers::is_header_value(encode_utf8(h.value@))
            || text::lower(h.name@) != name,
    ensures
        values_changed(values, remove, set.push(h), add, name) == values_changed(
            values,
            remove,
            set,
            add,
            name,
        ),
        values_changed(values, remove, set, add.push(h), name) == values_changed(
            values,
            remove,
            set,
            add,
            name,
        ),
        (forall|i: int|
            0 <= i < remove.len() && headers::is_header_name((#[trigger] remove[i])@)
                ==> text::lower(remove[i]@) != name) ==> values_changed(
            values,
            remove,
            Seq::empty(),
            Seq::empty(),
            name,
        ) == values,
{
    assert(add.push(h).drop_last() =~= add);
    assert(set.push(h).drop_last() =~= set);
}

/// The backend sees the path of a rewrite, where that is a URI, and else the
/// URI of the request.
pub proof fn law_backends_see_the_rewritten_path(
    original: RequestHead,
    host: Option<Seq<char>>,
    applied: AppliedFilter,
    r: RequestHead,
)
    requires
        goes_upstream_as(original, host, applied, r),
    ensures
        r.method@ == original.method@,
        applied@.rewrite is None ==> r.uri.text@ == original.uri.text@ && r.uri.parts()
            == original.uri.parts(),
        applied@.rewrite matches Some(w) ==> {
            &&& w.path is None ==> r.uri.text@ == original.uri.text@
            &&& w.path matches Some(p) ==> (uri::uri_parts(p) is Some ==> r.uri.text@ == p
                && r.uri.parts() == uri::uri_parts(p)->0)
            &&& w.path matches Some(p) ==> (uri::uri_parts(p) is None ==> r.uri.text@
                == original.uri.text@)
        },
{
}

/// The backend sees the host of a rewrite in place of that of the request,
/// unless a header filter changes it again.
pub proof fn law_backends_see_the_rewritten_host(
    original: RequestHead,
    host: Option<Seq<char>>,
    applied: AppliedFilter,
    r: RequestHead,
)
    requires
        goes_upstream_as(original, host, applied, r),
        applied@.request_remove.len() == 0,
        applied@.request_set.len() == 0,
        applied@.request_add.len() == 0,
    ensures
        applied@.rewrite matches Some(w) ==> (w.hostname matches Some(h) ==> (
        headers::is_header_value(encode_utf8(h)) ==> values_in(
            r.headers,
            seq!['h', 'o', 's', 't'],
        ) == seq![encode_utf8(h)])),
        applied@.rewrite is None && values_in(original.headers, seq!['h', 'o', 's', 't']).len() > 0
            ==> values_in(r.headers, seq!['h', 'o', 's', 't']) == values_in(
            original.headers,
            seq!['h', 'o', 's', 't'],
        ),
        applied@.rewrite is None && values_in(original.headers, seq!['h', 'o', 's', 't']).len()
            == 0 ==> (host matches Some(h) ==> (headers::is_header_value(encode_utf8(h))
            ==> values_in(r.headers, seq!['h', 'o', 's', 't']) == seq![encode_utf8(h)])),
        forall|n: Seq<char>|
            n != seq!['h', 'o', 's', 't'] ==> #[trigger] values_in(r.headers, n) == values_in(
                original.headers,
                n,
            ),
{
    law_connection_headers_are_spelled_out();
    assert(values_in(r.headers, meta::HOST@) == upstream_values(
        original.headers,
        host,
        applied,
        meta::HOST@,
    ));
}

/// The backend sees the header filters of the request: a header that is set
/// last has that value alone, one that is removed and not set or added is not
/// there.
pub proof fn law_backends_see_the_header_filters(
    original: RequestHead,
    host: Option<Seq<char>>,
    applied: AppliedFilter,
    r: RequestHead,
    set: Seq<HeaderValue>,
    h: HeaderValue,
)
    requires
        goes_upstream_as(original, host, applied, r),
        applied@.request_set == set.push(h),
        applied@.request_add.len() == 0,
        headers::is_header_name(h.name@),
        headers::is_header_value(encode_utf8(h.value@)),
    ensures
        values_in(r.headers, text::lower(h.name@)) == seq![encode_utf8(h.value@)],
{
    assert(set.push(h).last() == h);
    assert(applied@.request_add =~= Seq::empty());
    let name = text::lower(h.name@);
    assert(values_in(r.headers, name) == upstream_values(original.headers, host, applied, name));
}

/// Over HTTP/2 the host goes into the URI, and exactly the headers `host`,
/// `connection` and `transfer-encoding` are left out.
pub proof fn law_http2_leaves_out_three_headers(name: Seq<char>)
    ensures
        left_out_of_h2(name) <==> name == meta::HOST@ || name == CONNECTION@ || name
            == TRANSFER_ENCODING@,
{
}

/// The URI of an HTTP/2 request is made of `http`, the first `Host` header and
/// the path and query of the request; where these make none, or there is no
/// such header, it is that of the request.
pub proof fn law_http2_puts_the_host_into_the_uri(head: RequestHead, authority: Seq<char>)
    ensures
        ({
            let hosts = values_in(head.headers, seq!['h', 'o', 's', 't']);
            let target = match head.uri.path_and_query {
                Some(p) => p@,
                None => seq!['/'],
            };
            let built = uri::assembled_uri(seq!['h', 't', 't', 'p'], authority, target);
            &&& hosts.len() == 0 ==> h2_uri(head) == (head.uri.text@, head.uri.parts())
            &&& hosts.len() > 0 && authority == (if headers::all_visible(hosts[0]) {
                headers::ascii_text(hosts[0])
            } else {
                Seq::empty()
            }) ==> h2_uri(head) == (match built {
                Some(u) => u,
                None => (head.uri.text@, head.uri.parts()),
            })
        }),
{
    law_connection_headers_are_spelled_out();
    reveal_strlit("http");
    reveal_strlit("/");
    assert("http"@ =~= seq!['h', 't', 't', 'p']);
    assert("/"@ =~= seq!['/']);
}

/// A timeout counts where it is a number above zero: not where it is zero,
/// negative or no number.
pub proof fn law_only_positive_timeouts_count(t: Seconds)
    ensures
        counting(None) is None,
        counting(Some(t)) is None || counting(Some(t)) == Some(t),
        counting(Some(t)) is Some <==> t.number() && !t.zero() && t.bits < 0x8000_0000_0000_0000,
{
}

/// The mirrors kept are, one by one and in their order, those whose own roll is
/// below their percentage.
pub proof fn law_each_mirror_has_its_own_roll(
    mirrors: Seq<MirrorTarget>,
    m: MirrorTarget,
    rolls: Seq<u32>,
    roll: u32,
)
    requires
        rolls.len() == mirrors.len(),
        roll < 100,
    ensures
        mirrors_kept(mirrors.push(m), rolls.push(roll)) == if roll < m.percent {
            mirrors_kept(mirrors, rolls).push(m)
        } else {
            mirrors_kept(mirrors, rolls)
        },
        mirrors_kept(Seq::empty(), rolls).len() == 0,
{
    assert(mirrors.push(m).drop_last() =~= mirrors);
    lemma_kept_by_first_rolls(mirrors, rolls, rolls.push(roll));
}

proof fn lemma_kept_by_first_rolls(mirrors: Seq<MirrorTarget>, a: Seq<u32>, b: Seq<u32>)
    requires
        forall|i: int| 0 <= i < mirrors.len() ==> a[i] == #[trigger] b[i],
    ensures
        mirrors_kept(mirrors, a) == mirrors_kept(mirrors, b),
    decreases mirrors.len(),
{
    if mirrors.len() > 0 {
        lemma_kept_by_first_rolls(mirrors.drop_last(), a, b);
        assert(a[mirrors.len() - 1] == b[mirrors.len() - 1]);
    }
}

/// A client is told 503 where no backend has weight, 502 where the backend
/// fails and 504 where it takes too long, by number and in words.
pub proof fn law_faults_have_their_status(fault: Fault)
    ensures
        fault_status(fault) == (match fault {
            Fault::Unavailable => 503u16,
            Fault::BadGateway => 502u16,
            Fault::Timeout => 504u16,
        }),
        fault_body(fault) == (match fault {
            Fault::Unavailable => "503 Service Unavailable"@,
            Fault::BadGateway => "502 Bad Gateway"@,
            Fault::Timeout => "504 Gateway Timeout"@,
        }),
{
}

/// Forwarding goes to the first address of the backend, over the protocol that
/// it speaks; a backend without addresses, one that cannot be connected to and
/// one that breaks off are bad gateways, one that takes too long is a timeout,
/// and a response is delivered.
pub proof fn law_forwarding_goes_to_the_first_address<A>(
    protocol: BackendProtocol,
    addrs: Vec<A>,
    ok: bool,
    end: ExchangeEnd,
)
    ensures
        ({
            let resolved = forward_step(
                ForwardState::Resolving(protocol),
                ForwardEvent::Resolved(Some(addrs)),
            );
            let unresolved = forward_step::<A>(
                ForwardState::Resolving(protocol),
                ForwardEvent::Resolved(None),
            );
            let connected = forward_step::<A>(ForwardState::Connecting, ForwardEvent::Connected(ok));
            let exchanged = forward_step::<A>(ForwardState::Exchanging, ForwardEvent::Exchanged(end));
            &&& unresolved.1 == ForwardAction::<A>::Answer(Fault::BadGateway)
            &&& addrs@.len() == 0 ==> resolved.1 == ForwardAction::<A>::Answer(Fault::BadGateway)
            &&& addrs@.len() > 0 && protocol == BackendProtocol::Http1 ==> resolved == (
                ForwardState::Connecting,
                ForwardAction::Connect(addrs@[0]),
            )
            &&& addrs@.len() > 0 && protocol == BackendProtocol::H2c ==> resolved == (
                ForwardState::Exchanging,
                ForwardAction::ExchangeH2(addrs@[0]),
            )
            &&& ok ==> connected == (ForwardState::Exchanging, ForwardAction::<A>::ExchangeHttp1)
            &&& !ok ==> connected.1 == ForwardAction::<A>::Answer(Fault::BadGateway)
            &&& end == ExchangeEnd::Response ==> exchanged.1 is Deliver
            &&& end == ExchangeEnd::TimedOut ==> exchanged.1 == ForwardAction::<A>::Answer(
                Fault::Timeout,
            )
            &&& end == ExchangeEnd::Failed ==> exchanged.1 == ForwardAction::<A>::Answer(
                Fault::BadGateway,
            )
        }),
{
}

/// The codec broke off for time exactly where its message holds the word
/// `timeout`.
pub proof fn law_timeouts_are_told_by_their_word(
    message: Seq<char>,
    before: Seq<char>,
    behind: Seq<char>,
)
    ensures
        codec_failure(before + seq!['t', 'i', 'm', 'e', 'o', 'u', 't'] + behind)
            == ExchangeEnd::TimedOut,
        codec_failure(message) != ExchangeEnd::Response,
        codec_failure(message) == ExchangeEnd::TimedOut ==> exists|i: int|
            0 <= i && i + 7 <= message.len() && #[trigger] message.subrange(i, i + 7) == seq![
                't',
                'i',
                'm',
                'e',
                'o',
                'u',
                't',
            ],
{
    reveal_strlit("timeout");
    let word = seq!['t', 'i', 'm', 'e', 'o', 'u', 't'];
    assert("timeout"@ =~= word);
    let all = before + word + behind;
    let n = before.len() as int;
    assert(all.subrange(n, n + 7) =~= word);
    assert(text::stands_at(all, "timeout"@, n));
    assert(text::contains_text(all, "timeout"@));
    if codec_failure(message) == ExchangeEnd::TimedOut {
        assert(text::contains_text(message, "timeout"@));
        let i = choose|i: int| text::stands_at(message, "timeout"@, i);
        assert(message.subrange(i, i + 7) == word);
    }
}

} // verus!
