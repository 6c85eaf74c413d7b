//! What filters do to requests and responses, as pure data: header changes,
//! redirects, URL rewrites and mirroring.

use vstd::prelude::*;
use vstd::utf8::{
    decode_utf8, encode_utf8, encode_utf8_decode_utf8, encode_utf8_valid_utf8, is_char_boundary,
};

use crate::config::{Backend, Filter, HeaderValue, PathModifier, TimeoutConfig};
use crate::routing::byte_len;
use crate::text;

verus! {

// ---------------------------------------------------------------------------
// Types
// ---------------------------------------------------------------------------

/// The effects of a list of filters together. Header changes keep the order
/// of the filters; they are applied in the order remove, set, add.
#[derive(Debug, Clone, PartialEq)]
pub struct AppliedFilter {
    /// Request headers to append.
    pub request_header_add: Vec<HeaderValue>,
    /// Request headers to overwrite.
    pub request_header_set: Vec<HeaderValue>,
    /// Names of request headers to remove.
    pub request_header_remove: Vec<String>,
    /// Response headers to append.
    pub response_header_add: Vec<HeaderValue>,
    /// Response headers to overwrite.
    pub response_header_set: Vec<HeaderValue>,
    /// Names of response headers to remove.
    pub response_header_remove: Vec<String>,
    /// URL rewrite to apply before forwarding.
    pub rewrite: Option<RewriteResult>,
    /// Where to send copies of the request.
    pub mirrors: Vec<MirrorTarget>,
    /// Timeouts of the matched rule.
    pub timeout: Option<TimeoutConfig>,
}

/// A computed redirect.
#[derive(Debug, Clone, PartialEq)]
pub struct RedirectResponse {
    /// HTTP status code.
    pub status_code: u16,
    /// Value of the `Location` header.
    pub location: String,
}

/// A computed URL rewrite.
#[derive(Debug, Clone, PartialEq)]
pub struct RewriteResult {
    /// New host, for the `Host` header that the backend sees.
    pub hostname: Option<String>,
    /// New path.
    pub path: Option<String>,
}

/// Where to send copies of requests, and of how many of a hundred.
#[derive(Debug, Clone, PartialEq)]
pub struct MirrorTarget {
    pub backend: Backend,
    /// Percentage of requests to mirror.
    pub percent: u32,
}

/// A URL rewrite as mathematical values.
pub struct RewriteModel {
    pub hostname: Option<Seq<char>>,
    pub path: Option<Seq<char>>,
}

impl View for RewriteResult {
    type V = RewriteModel;

    open spec fn view(&self) -> RewriteModel {
        RewriteModel {
            hostname: text::opt_owned(self.hostname),
            path: text::opt_owned(self.path),
        }
    }
}

/// The effects of filters as mathematical values.
pub struct FilterEffects {
    pub request_add: Seq<HeaderValue>,
    pub request_set: Seq<HeaderValue>,
    pub request_remove: Seq<String>,
    pub response_add: Seq<HeaderValue>,
    pub response_set: Seq<HeaderValue>,
    pub response_remove: Seq<String>,
    pub rewrite: Option<RewriteModel>,
    pub mirrors: Seq<MirrorTarget>,
    pub timeout: Option<TimeoutConfig>,
}

impl View for AppliedFilter {
    type V = FilterEffects;

    open spec fn view(&self) -> FilterEffects {
        FilterEffects {
            request_add: self.request_header_add@,
            request_set: self.request_header_set@,
            request_remove: self.request_header_remove@,
            response_add: self.response_header_add@,
            response_set: self.response_header_set@,
            response_remove: self.response_header_remove@,
            rewrite: match self.rewrite {
                Some(r) => Some(r@),
                None => None,
            },
            mirrors: self.mirrors@,
            timeout: self.timeout,
        }
    }
}

/// No effect at all.
pub open spec fn no_effects() -> FilterEffects {
    FilterEffects {
        request_add: Seq::empty(),
        request_set: Seq::empty(),
        request_remove: Seq::empty(),
        response_add: Seq::empty(),
        response_set: Seq::empty(),
        response_remove: Seq::empty(),
        rewrite: None,
        mirrors: Seq::empty(),
        timeout: None,
    }
}

impl Default for AppliedFilter {
    fn default() -> (r: Self)
        ensures
            r@ == no_effects(),
    {
        AppliedFilter {
            request_header_add: Vec::new(),
            request_header_set: Vec::new(),
            request_header_remove: Vec::new(),
            response_header_add: Vec::new(),
            response_header_set: Vec::new(),
            response_header_remove: Vec::new(),
            rewrite: None,
            mirrors: Vec::new(),
            timeout: None,
        }
    }
}

// ---------------------------------------------------------------------------
// Paths
// ---------------------------------------------------------------------------

/// Whether a text can be cut behind its first `n` bytes: there are that many
/// and no character spans the cut.
pub open spec fn can_cut(s: Seq<char>, n: usize) -> bool {
    is_char_boundary(encode_utf8(s), n as int)
}

/// What stands behind the first `n` bytes of a text.
pub open spec fn behind_bytes(s: Seq<char>, n: usize) -> Seq<char> {
    decode_utf8(encode_utf8(s).subrange(n as int, encode_utf8(s).len() as int))
}

/// `front` and `rest` as one path. Where both sides bring a slash one is
/// dropped, where neither does one is put between, unless there is no rest.
pub open spec fn joined(front: Seq<char>, rest: Seq<char>) -> Seq<char> {
    let closes = front.len() > 0 && front.last() == '/';
    let opens = rest.len() > 0 && rest[0] == '/';
    if closes && opens {
        front + rest.skip(1)
    } else if !closes && !opens && rest.len() > 0 {
        front + seq!['/'] + rest
    } else {
        front + rest
    }
}

/// `original` with the part that a prefix of `matched` takes (as many bytes
/// as `matched` has) replaced.
pub open spec fn prefix_replaced(
    original: Seq<char>,
    matched: Seq<char>,
    replacement: Seq<char>,
) -> Seq<char> {
    joined(replacement, behind_bytes(original, byte_len(matched)))
}

/// Whether the part of `original` that `matched_prefix` takes can be replaced.
pub fn can_replace_prefix(original: &str, matched_prefix: &str) -> (r: bool)
    ensures
        r == can_cut(original@, byte_len(matched_prefix@)),
{
    original.is_char_boundary(matched_prefix.len())
}

/// Replaces a matched path prefix and keeps what stands behind it.
pub fn replace_prefix(original: &str, matched_prefix: &str, replacement: &str) -> (r: String)
    requires
        can_cut(original@, byte_len(matched_prefix@)),
    ensures
        r@ == prefix_replaced(original@, matched_prefix@, replacement@),
{
    let n: usize = matched_prefix.len();
    let (_, rest) = original.split_at(n);
    proof {
        encode_utf8_decode_utf8(rest@);
        assert(rest@ == behind_bytes(original@, n));
    }
    let front = text::chars_of(replacement);
    let remainder = text::chars_of(rest);
    let closes = front.len() > 0 && front[front.len() - 1] == '/';
    let opens = remainder.len() > 0 && remainder[0] == '/';
    let mut r = replacement.to_string();
    if closes && opens {
        let tail = text::slice_text(&remainder, 1, remainder.len());
        r.append(tail.as_str());
        assert(tail@ =~= rest@.skip(1));
    } else if !closes && !opens && remainder.len() > 0 {
        r.push('/');
        r.append(rest);
        assert(r@ =~= replacement@ + seq!['/'] + rest@);
    } else {
        r.append(rest);
    }
    r
}

/// The path of a URI: all before the first question mark.
pub open spec fn uri_path(uri: Seq<char>) -> Seq<char> {
    match uri.index_of_first('?') {
        Some(i) => uri.take(i),
        None => uri,
    }
}

/// The query of a URI: all behind the first question mark.
pub open spec fn uri_query(uri: Seq<char>) -> Seq<char> {
    match uri.index_of_first('?') {
        Some(i) => uri.skip(i + 1),
        None => Seq::empty(),
    }
}

/// The path and the query of a URI. The query comes without the question mark.
pub fn split_uri(uri: &str) -> (r: (String, String))
    ensures
        r.0@ == uri_path(uri@),
        r.1@ == uri_query(uri@),
{
    let cs = text::chars_of(uri);
    match text::find(&cs, '?') {
        Some(i) => {
            let query = text::slice_text(&cs, i + 1, cs.len());
            assert(query@ =~= uri@.skip(i + 1));
            (text::slice_text(&cs, 0, i), query)
        },
        None => {
            assert(uri@.subrange(0, uri@.len() as int) =~= uri@);
            (text::slice_text(&cs, 0, cs.len()), String::new())
        },
    }
}

/// Whether a port is the one that the scheme implies.
pub open spec fn standard_port(scheme: Seq<char>, port: u16) -> bool {
    ||| scheme == "http"@ && port == 80
    ||| scheme == "https"@ && port == 443
}

/// Whether the port is the one that the scheme implies: 80 for `http` and 443
/// for `https`.
pub fn is_standard_port(scheme: &str, port: u16) -> (r: bool)
    ensures
        r == standard_port(scheme@, port),
{
    (text::same(scheme, "http") && port == 80) || (text::same(scheme, "https") && port == 443)
}

// ---------------------------------------------------------------------------
// Redirects
// ---------------------------------------------------------------------------

/// The prefix that a path filter replaces where the route names none.
pub open spec fn prefix_or_root(matched: Option<Seq<char>>) -> Seq<char> {
    match matched {
        Some(p) => p,
        None => "/"@,
    }
}

/// Whether a path filter can be applied: a prefix can only be replaced where
/// the path can be cut behind it.
pub open spec fn path_change_applies(
    path: Option<PathModifier>,
    original: Seq<char>,
    matched: Option<Seq<char>>,
) -> bool {
    path matches Some(PathModifier::ReplacePrefixMatch { value }) ==> can_cut(
        original,
        byte_len(prefix_or_root(matched)),
    )
}

/// The path after a path filter.
pub open spec fn changed_path(
    path: Option<PathModifier>,
    original: Seq<char>,
    matched: Option<Seq<char>>,
) -> Seq<char> {
    match path {
        Some(PathModifier::ReplaceFullPath { value }) => value@,
        Some(PathModifier::ReplacePrefixMatch { value }) => prefix_replaced(
            original,
            prefix_or_root(matched),
            value@,
        ),
        None => original,
    }
}

/// The path after the path filter.
pub fn change_path(path: &Option<PathModifier>, original: &str, matched: Option<&str>) -> (r:
    String)
    requires
        path_change_applies(*path, original@, text::opt(matched)),
    ensures
        r@ == changed_path(*path, original@, text::opt(matched)),
{
    match path {
        Some(PathModifier::ReplaceFullPath { value }) => value.clone(),
        Some(PathModifier::ReplacePrefixMatch { value }) => {
            let prefix = match matched {
                Some(p) => p,
                None => "/",
            };
            replace_prefix(original, prefix, value.as_str())
        },
        None => original.to_string(),
    }
}

/// The URL that a redirect filter points to.
pub open spec fn redirect_url(
    filter: Filter,
    uri: Seq<char>,
    host: Seq<char>,
    matched: Option<Seq<char>>,
) -> Seq<char> {
    match filter {
        Filter::RequestRedirect { scheme, hostname, port, path, status_code } => {
            let scheme_text = match scheme {
                Some(s) => s@,
                None => "http"@,
            };
            let host_text = match hostname {
                Some(h) => h@,
                None => host,
            };
            let port_text = match port {
                Some(p) => if standard_port(scheme_text, p) {
                    Seq::empty()
                } else {
                    ":"@ + text::decimal(p as nat)
                },
                None => Seq::empty(),
            };
            let query_text = if uri_query(uri).len() == 0 {
                Seq::empty()
            } else {
                "?"@ + uri_query(uri)
            };
            scheme_text + "://"@ + host_text + port_text + changed_path(
                path,
                uri_path(uri),
                matched,
            ) + query_text
        },
        _ => arbitrary(),
    }
}

/// What a redirect filter answers.
///
/// `original_uri` is the whole URI of the request, `original_host` its `Host`
/// header, and `matched_path_prefix` the prefix by which the route matched.
pub fn compute_redirect(
    filter: &Filter,
    original_uri: &str,
    original_host: &str,
    matched_path_prefix: Option<&str>,
) -> (r: RedirectResponse)
    requires
        filter is RequestRedirect,
        path_change_applies(
            filter->RequestRedirect_path,
            uri_path(original_uri@),
            text::opt(matched_path_prefix),
        ),
    ensures
        r.status_code == match filter->status_code {
            Some(code) => code,
            None => 302u16,
        },
        r.location@ == redirect_url(
            *filter,
            original_uri@,
            original_host@,
            text::opt(matched_path_prefix),
        ),
{
    match filter {
        Filter::RequestRedirect { scheme, hostname, port, path, status_code } => {
            let scheme_text: &str = match scheme {
                Some(s) => s.as_str(),
                None => "http",
            };
            let host_text: &str = match hostname {
                Some(h) => h.as_str(),
                None => original_host,
            };
            let (original_path, query) = split_uri(original_uri);
            let new_path = change_path(path, original_path.as_str(), matched_path_prefix);
            let mut location = scheme_text.to_string();
            location.append("://");
            location.append(host_text);
            let ghost before = location@;
            if let Some(p) = port {
                if !is_standard_port(scheme_text, *p) {
                    location.append(":");
                    let digits = text::to_decimal(*p as u64);
                    location.append(digits.as_str());
                    assert(location@ =~= before + (":"@ + digits@));
                } else {
                    assert(before + Seq::<char>::empty() =~= before);
                }
            } else {
                assert(before + Seq::<char>::empty() =~= before);
            }
            location.append(new_path.as_str());
            let ghost before = location@;
            if !query.as_str().is_empty() {
                location.append("?");
                location.append(query.as_str());
                assert(location@ =~= before + ("?"@ + query@));
            } else {
                assert(before + Seq::<char>::empty() =~= before);
            }
            let code: u16 = match status_code {
                Some(c) => *c,
                None => 302,
            };
            RedirectResponse { status_code: code, location }
        },
        _ => RedirectResponse { status_code: 302, location: String::new() },
    }
}

// ---------------------------------------------------------------------------
// Rewrites
// ---------------------------------------------------------------------------

/// What a rewrite filter changes.
pub open spec fn rewrite_of(filter: Filter, original: Seq<char>, matched: Option<Seq<char>>) -> RewriteModel {
    match filter {
        Filter::URLRewrite { hostname, path } => RewriteModel {
            hostname: text::opt_owned(hostname),
            path: match path {
                Some(_) => Some(changed_path(path, original, matched)),
                None => None,
            },
        },
        _ => arbitrary(),
    }
}

/// What a rewrite filter changes. `original_path` is the path of the request
/// and `matched_path_prefix` the prefix by which the route matched.
pub fn compute_rewrite(filter: &Filter, original_path: &str, matched_path_prefix: Option<&str>) -> (r:
    RewriteResult)
    requires
        filter is URLRewrite,
        path_change_applies(
            filter->URLRewrite_path,
            original_path@,
            text::opt(matched_path_prefix),
        ),
    ensures
        r@ == rewrite_of(*filter, original_path@, text::opt(matched_path_prefix)),
{
    match filter {
        Filter::URLRewrite { hostname, path } => {
            let new_path = match path {
                Some(_) => Some(change_path(path, original_path, matched_path_prefix)),
                None => None,
            };
            RewriteResult { hostname: hostname.clone(), path: new_path }
        },
        _ => RewriteResult { hostname: None, path: None },
    }
}

// ---------------------------------------------------------------------------
// Collecting filters
// ---------------------------------------------------------------------------

/// Whether a filter rewrites a path prefix.
pub open spec fn rewrites_prefix(filter: Filter) -> bool {
    filter matches Filter::URLRewrite { path: Some(PathModifier::ReplacePrefixMatch { .. }), .. }
}

/// The percentage of a mirror; all requests where it names none.
pub open spec fn mirror_percent(percent: Option<u32>) -> u32 {
    match percent {
        Some(p) => p,
        None => 100,
    }
}

/// The effects of one filter more.
pub open spec fn with_filter(before: FilterEffects, filter: Filter) -> FilterEffects {
    match filter {
        Filter::RequestHeaderModifier { add, set, remove } => FilterEffects {
            request_add: before.request_add + add@,
            request_set: before.request_set + set@,
            request_remove: before.request_remove + remove@,
            ..before
        },
        Filter::ResponseHeaderModifier { add, set, remove } => FilterEffects {
            response_add: before.response_add + add@,
            response_set: before.response_set + set@,
            response_remove: before.response_remove + remove@,
            ..before
        },
        Filter::URLRewrite { .. } => FilterEffects {
            rewrite: Some(rewrite_of(filter, Seq::empty(), None)),
            ..before
        },
        Filter::RequestMirror { backend, percent } => FilterEffects {
            mirrors: before.mirrors.push(
                MirrorTarget { backend, percent: mirror_percent(percent) },
            ),
            ..before
        },
        Filter::RequestRedirect { .. } => before,
    }
}

/// The effects of filters, one after the other.
pub open spec fn effects_of(filters: Seq<Filter>) -> FilterEffects
    decreases filters.len(),
{
    if filters.len() == 0 {
        no_effects()
    } else {
        with_filter(effects_of(filters.drop_last()), filters.last())
    }
}

/// `to` with copies of the headers of `from` behind it.
fn extend_headers(to: &mut Vec<HeaderValue>, from: &Vec<HeaderValue>)
    ensures
        final(to)@ == old(to)@ + from@,
{
    let mut i: usize = 0;
    assert(to@ =~= old(to)@ + from@.take(0));
    while i < from.len()
        invariant
            i <= from@.len(),
            to@ == old(to)@ + from@.take(i as int),
        decreases from.len() - i,
    {
        to.push(from[i].clone());
        i += 1;
        assert(to@ =~= old(to)@ + from@.take(i as int));
    }
    assert(from@.take(i as int) =~= from@);
}

/// `to` with copies of the names of `from` behind it.
fn extend_names(to: &mut Vec<String>, from: &Vec<String>)
    ensures
        final(to)@ == old(to)@ + from@,
{
    let mut i: usize = 0;
    assert(to@ =~= old(to)@ + from@.take(0));
    while i < from.len()
        invariant
            i <= from@.len(),
            to@ == old(to)@ + from@.take(i as int),
        decreases from.len() - i,
    {
        to.push(from[i].clone());
        i += 1;
        assert(to@ =~= old(to)@ + from@.take(i as int));
    }
    assert(from@.take(i as int) =~= from@);
}

/// The effects of the filters together. Redirects have none here: they answer
/// the request before anything is forwarded.
pub fn collect_filters(filters: &[Filter]) -> (r: AppliedFilter)
    requires
        forall|i: int| 0 <= i < filters@.len() ==> !rewrites_prefix(#[trigger] filters@[i]),
    ensures
        r@ == effects_of(filters@),
{
    let mut applied = AppliedFilter::default();
    let mut i: usize = 0;
    assert(filters@.take(0) =~= Seq::empty());
    while i < filters.len()
        invariant
            i <= filters@.len(),
            forall|i: int| 0 <= i < filters@.len() ==> !rewrites_prefix(#[trigger] filters@[i]),
            applied@ == effects_of(filters@.take(i as int)),
        decreases filters.len() - i,
    {
        let filter = &filters[i];
        assert(filters@.take(i + 1).drop_last() =~= filters@.take(i as int));
        match filter {
            Filter::RequestHeaderModifier { add, set, remove } => {
                extend_headers(&mut applied.request_header_add, add);
                extend_headers(&mut applied.request_header_set, set);
                extend_names(&mut applied.request_header_remove, remove);
            },
            Filter::ResponseHeaderModifier { add, set, remove } => {
                extend_headers(&mut applied.response_header_add, add);
                extend_headers(&mut applied.response_header_set, set);
                extend_names(&mut applied.response_header_remove, remove);
            },
            Filter::URLRewrite { .. } => {
                proof {
                    reveal_strlit("");
                    assert(""@ =~= Seq::<char>::empty());
                    assert(!rewrites_prefix(filters@[i as int]));
                }
                applied.rewrite = Some(compute_rewrite(filter, "", None));
            },
            Filter::RequestMirror { backend, percent } => {
                let share: u32 = match percent {
                    Some(p) => *p,
                    None => 100,
                };
                applied.mirrors.push(MirrorTarget { backend: backend.clone(), percent: share });
            },
            Filter::RequestRedirect { .. } => {},
        }
        i += 1;
    }
    assert(filters@.take(i as int) =~= filters@);
    applied
}

// ---------------------------------------------------------------------------
// Header lists
// ---------------------------------------------------------------------------

/// A header as mathematical values: its name and its value.
pub type HeaderModel = (Seq<char>, Seq<char>);

/// The views of some headers.
pub open spec fn header_views(headers: Seq<(String, String)>) -> Seq<HeaderModel> {
    headers.map_values(|h: (String, String)| (h.0@, h.1@))
}

/// Whether a header has that name, up to case.
pub open spec fn is_named(header: HeaderModel, name: Seq<char>) -> bool {
    text::same_ignoring_case(header.0, name)
}

/// Whether a header has one of those names, up to case.
pub open spec fn is_named_in(header: HeaderModel, names: Seq<String>) -> bool {
    exists|i: int| 0 <= i < names.len() && is_named(header, #[trigger] names[i]@)
}

/// The headers that have none of those names, in their order.
pub open spec fn without_headers(headers: Seq<HeaderModel>, names: Seq<String>) -> Seq<HeaderModel>
    decreases headers.len(),
{
    if headers.len() == 0 {
        Seq::empty()
    } else {
        let before = without_headers(headers.drop_last(), names);
        if is_named_in(headers.last(), names) {
            before
        } else {
            before.push(headers.last())
        }
    }
}

/// The headers with one of them set: every header of that name gets the
/// value, and where there is none the header goes to the end.
pub open spec fn with_header_set(headers: Seq<HeaderModel>, header: HeaderValue) -> Seq<HeaderModel> {
    if exists|i: int| 0 <= i < headers.len() && is_named(#[trigger] headers[i], header.name@) {
        headers.map_values(
            |h: HeaderModel|
                if is_named(h, header.name@) {
                    (h.0, header.value@)
                } else {
                    h
                },
        )
    } else {
        headers.push((header.name@, header.value@))
    }
}

/// The headers with others set, one after the other.
pub open spec fn with_headers_set(headers: Seq<HeaderModel>, set: Seq<HeaderValue>) -> Seq<HeaderModel>
    decreases set.len(),
{
    if set.len() == 0 {
        headers
    } else {
        with_header_set(with_headers_set(headers, set.drop_last()), set.last())
    }
}

/// The headers that a filter appends.
pub open spec fn added(add: Seq<HeaderValue>) -> Seq<HeaderModel> {
    add.map_values(|h: HeaderValue| (h.name@, h.value@))
}

/// The headers after a header filter: remove, then set, then add.
pub open spec fn modified(
    headers: Seq<HeaderModel>,
    remove: Seq<String>,
    set: Seq<HeaderValue>,
    add: Seq<HeaderValue>,
) -> Seq<HeaderModel> {
    with_headers_set(without_headers(headers, remove), set) + added(add)
}

/// Whether the header has one of the names, up to case.
fn named_in(name: &str, names: &Vec<String>) -> (r: bool)
    ensures
        forall|value: Seq<char>| r == is_named_in((name@, value), names@),
{
    let mut i: usize = 0;
    while i < names.len()
        invariant
            i <= names@.len(),
            forall|j: int| 0 <= j < i ==> !text::same_ignoring_case(name@, #[trigger] names@[j]@),
        decreases names.len() - i,
    {
        if text::eq_ignore_ascii_case(name, names[i].as_str()) {
            assert forall|value: Seq<char>| is_named_in((name@, value), names@) by {
                assert(is_named((name@, value), names@[i as int]@));
            }
            return true;
        }
        i += 1;
    }
    false
}

/// The headers that have none of the names.
fn remove_headers(headers: &Vec<(String, String)>, names: &Vec<String>) -> (r: Vec<
    (String, String),
>)
    ensures
        header_views(r@) == without_headers(header_views(headers@), names@),
{
    let mut r: Vec<(String, String)> = Vec::new();
    let mut i: usize = 0;
    assert(header_views(headers@).take(0) =~= Seq::empty());
    assert(header_views(r@) =~= Seq::empty());
    while i < headers.len()
        invariant
            i <= headers@.len(),
            header_views(r@) == without_headers(header_views(headers@).take(i as int), names@),
        decreases headers.len() - i,
    {
        let ghost all = header_views(headers@);
        assert(all.take(i + 1).drop_last() =~= all.take(i as int));
        assert(all.take(i + 1).last() == (headers@[i as int].0@, headers@[i as int].1@));
        let ghost before = r@;
        if !named_in(headers[i].0.as_str(), names) {
            r.push((headers[i].0.clone(), headers[i].1.clone()));
            assert(header_views(r@) =~= header_views(before).push(all[i as int]));
        }
        i += 1;
    }
    assert(header_views(headers@).take(i as int) =~= header_views(headers@));
    r
}

/// The headers with one of them set.
fn set_header(headers: &Vec<(String, String)>, header: &HeaderValue) -> (r: Vec<(String, String)>)
    ensures
        header_views(r@) == with_header_set(header_views(headers@), *header),
{
    let mut r: Vec<(String, String)> = Vec::new();
    let mut found = false;
    let mut i: usize = 0;
    let ghost all = header_views(headers@);
    while i < headers.len()
        invariant
            i <= headers@.len(),
            all == header_views(headers@),
            r@.len() == i,
            found == exists|j: int| 0 <= j < i && is_named(#[trigger] all[j], header.name@),
            forall|j: int|
                0 <= j < i ==> (#[trigger] r@[j].0@, r@[j].1@) == if is_named(
                    all[j],
                    header.name@,
                ) {
                    (all[j].0, header.value@)
                } else {
                    all[j]
                },
        decreases headers.len() - i,
    {
        assert(all[i as int] == (headers@[i as int].0@, headers@[i as int].1@));
        if text::eq_ignore_ascii_case(headers[i].0.as_str(), header.name.as_str()) {
            assert(is_named(all[i as int], header.name@));
            found = true;
            r.push((headers[i].0.clone(), header.value.clone()));
        } else {
            r.push((headers[i].0.clone(), headers[i].1.clone()));
        }
        i += 1;
    }
    if !found {
        assert(header_views(r@) =~= all);
        let ghost before = r@;
        r.push((header.name.clone(), header.value.clone()));
        assert(header_views(r@) =~= all.push((header.name@, header.value@)));
    } else {
        assert(header_views(r@) =~= with_header_set(all, *header));
    }
    r
}

/// Changes the headers: remove, then set, then add.
pub fn apply_header_modifications(
    headers: &mut Vec<(String, String)>,
    remove: &Vec<String>,
    set: &Vec<HeaderValue>,
    add: &Vec<HeaderValue>,
)
    ensures
        header_views(final(headers)@) == modified(
            header_views(old(headers)@),
            remove@,
            set@,
            add@,
        ),
{
    let ghost start = header_views(headers@);
    *headers = remove_headers(headers, remove);
    let ghost kept = header_views(headers@);
    let mut i: usize = 0;
    assert(set@.take(0) =~= Seq::empty());
    while i < set.len()
        invariant
            i <= set@.len(),
            header_views(headers@) == with_headers_set(kept, set@.take(i as int)),
        decreases set.len() - i,
    {
        assert(set@.take(i + 1).drop_last() =~= set@.take(i as int));
        *headers = set_header(headers, &set[i]);
        i += 1;
    }
    assert(set@.take(i as int) =~= set@);
    let ghost changed = header_views(headers@);
    let mut j: usize = 0;
    assert(changed + added(add@.take(0)) =~= changed);
    while j < add.len()
        invariant
            j <= add@.len(),
            header_views(headers@) == changed + added(add@.take(j as int)),
        decreases add.len() - j,
    {
        let ghost before = headers@;
        headers.push((add[j].name.clone(), add[j].value.clone()));
        assert(header_views(headers@) =~= header_views(before).push(
            (add@[j as int].name@, add@[j as int].value@),
        ));
        j += 1;
        assert(header_views(headers@) =~= changed + added(add@.take(j as int)));
    }
    assert(add@.take(j as int) =~= add@);
}

/// Applies the request header changes, in the order remove, set, add.
pub fn apply_request_headers(headers: &mut Vec<(String, String)>, applied: &AppliedFilter)
    ensures
        header_views(final(headers)@) == modified(
            header_views(old(headers)@),
            applied@.request_remove,
            applied@.request_set,
            applied@.request_add,
        ),
{
    apply_header_modifications(
        headers,
        &applied.request_header_remove,
        &applied.request_header_set,
        &applied.request_header_add,
    );
}

/// Applies the response header changes, in the order remove, set, add.
pub fn apply_response_headers(headers: &mut Vec<(String, String)>, applied: &AppliedFilter)
    ensures
        header_views(final(headers)@) == modified(
            header_views(old(headers)@),
            applied@.response_remove,
            applied@.response_set,
            applied@.response_add,
        ),
{
    apply_header_modifications(
        headers,
        &applied.response_header_remove,
        &applied.response_header_set,
        &applied.response_header_add,
    );
}

// ---------------------------------------------------------------------------
// Laws
// ---------------------------------------------------------------------------

proof fn lemma_encoding_of_concatenation(a: Seq<char>, b: Seq<char>)
    ensures
        encode_utf8(a + b) == encode_utf8(a) + encode_utf8(b),
        is_char_boundary(encode_utf8(a + b), encode_utf8(a).len() as int),
    decreases a.len(),
{
    encode_utf8_valid_utf8(a + b);
    if a.len() == 0 {
        assert(a + b =~= b);
        assert(encode_utf8(a) + encode_utf8(b) =~= encode_utf8(b));
    } else {
        let all = a + b;
        lemma_encoding_of_concatenation(a.drop_first(), b);
        assert(all.drop_first() =~= a.drop_first() + b);
        assert(encode_utf8(all) =~= encode_utf8(a) + encode_utf8(b));
        vstd::utf8::encode_utf8_first_scalar(all);
        assert(vstd::utf8::pop_first_scalar(encode_utf8(all)) =~= encode_utf8(all.drop_first()));
    }
}

/// Where the matched prefix stands in front of the path, replacing it keeps
/// exactly what stands behind it.
pub proof fn law_replacing_keeps_the_rest(matched: Seq<char>, rest: Seq<char>, replacement: Seq<char>)
    requires
        encode_utf8(matched + rest).len() <= usize::MAX,
    ensures
        can_cut(matched + rest, byte_len(matched)),
        prefix_replaced(matched + rest, matched, replacement) == joined(replacement, rest),
{
    lemma_encoding_of_concatenation(matched, rest);
    let bytes = encode_utf8(matched + rest);
    let n = encode_utf8(matched).len();
    assert(bytes.subrange(n as int, bytes.len() as int) =~= encode_utf8(rest));
    encode_utf8_decode_utf8(rest);
}

/// A joined path has exactly one slash at the seam: neither doubled nor
/// missing.
pub proof fn law_one_slash_at_the_seam(front: Seq<char>, rest: Seq<char>)
    requires
        rest.len() > 0,
    ensures
        ({
            let bare = if front.len() > 0 && front.last() == '/' {
                front.drop_last()
            } else {
                front
            };
            let tail = if rest[0] == '/' {
                rest.skip(1)
            } else {
                rest
            };
            joined(front, rest) == bare + seq!['/'] + tail
        }),
{
    let closes = front.len() > 0 && front.last() == '/';
    if closes {
        assert(front =~= front.drop_last() + seq!['/']);
    }
    if rest[0] == '/' {
        assert(rest =~= seq!['/'] + rest.skip(1));
    }
    if closes && rest[0] == '/' {
        assert(joined(front, rest) =~= front.drop_last() + seq!['/'] + rest.skip(1));
    } else if !closes && rest[0] == '/' {
        assert(joined(front, rest) =~= front + seq!['/'] + rest.skip(1));
    } else if closes {
        assert(joined(front, rest) =~= front.drop_last() + seq!['/'] + rest);
    }
}

/// A prefix that nothing follows is replaced by the replacement alone.
pub proof fn law_nothing_behind_the_prefix(front: Seq<char>)
    ensures
        joined(front, Seq::empty()) == front,
{
    assert(front + Seq::<char>::empty() =~= front);
}

/// A redirect keeps the query of the request.
pub proof fn law_redirect_keeps_the_query(
    filter: Filter,
    uri: Seq<char>,
    host: Seq<char>,
    matched: Option<Seq<char>>,
)
    requires
        filter is RequestRedirect,
        uri_query(uri).len() > 0,
    ensures
        ("?"@ + uri_query(uri)).is_suffix_of(redirect_url(filter, uri, host, matched)),
{
    let tail = "?"@ + uri_query(uri);
    let url = redirect_url(filter, uri, host, matched);
    assert(exists|front: Seq<char>| url == #[trigger] (front + tail));
    let front = choose|front: Seq<char>| url == #[trigger] (front + tail);
    assert(url.subrange(url.len() - tail.len(), url.len() as int) =~= tail);
}

/// A URI is its path, or its path, a question mark and its query.
pub proof fn law_uri_is_path_and_query(uri: Seq<char>)
    ensures
        uri == uri_path(uri) || uri == uri_path(uri) + seq!['?'] + uri_query(uri),
        !uri_path(uri).contains('?'),
{
    uri.index_of_first_ensures('?');
    if let Some(i) = uri.index_of_first('?') {
        assert(uri =~= uri.take(i) + seq!['?'] + uri.skip(i + 1));
    }
}

/// A redirect among the filters has no effect on what is forwarded.
pub proof fn law_redirects_have_no_effect(filters: Seq<Filter>, redirect: Filter)
    requires
        redirect is RequestRedirect,
    ensures
        effects_of(filters.push(redirect)) == effects_of(filters),
{
    assert(filters.push(redirect).drop_last() =~= filters);
}

/// The effects of two lists of filters are those of the first followed by
/// those of the second; the last rewrite counts.
pub proof fn law_effects_follow_each_other(a: Seq<Filter>, b: Seq<Filter>)
    ensures
        ({
            let first = effects_of(a);
            let second = effects_of(b);
            effects_of(a + b) == FilterEffects {
                request_add: first.request_add + second.request_add,
                request_set: first.request_set + second.request_set,
                request_remove: first.request_remove + second.request_remove,
                response_add: first.response_add + second.response_add,
                response_set: first.response_set + second.response_set,
                response_remove: first.response_remove + second.response_remove,
                rewrite: if second.rewrite is Some {
                    second.rewrite
                } else {
                    first.rewrite
                },
                mirrors: first.mirrors + second.mirrors,
                timeout: None,
            }
        }),
    decreases b.len(),
{
    law_effects_carry_no_timeout(a);
    law_effects_carry_no_timeout(b);
    if b.len() == 0 {
        assert(a + b =~= a);
        let first = effects_of(a);
        assert(first.request_add + Seq::empty() =~= first.request_add);
        assert(first.request_set + Seq::empty() =~= first.request_set);
        assert(first.request_remove + Seq::empty() =~= first.request_remove);
        assert(first.response_add + Seq::empty() =~= first.response_add);
        assert(first.response_set + Seq::empty() =~= first.response_set);
        assert(first.response_remove + Seq::empty() =~= first.response_remove);
        assert(first.mirrors + Seq::empty() =~= first.mirrors);
    } else {
        law_effects_follow_each_other(a, b.drop_last());
        assert((a + b).drop_last() =~= a + b.drop_last());
        assert((a + b).last() == b.last());
        let first = effects_of(a);
        let second = effects_of(b.drop_last());
        match b.last() {
            Filter::RequestHeaderModifier { add, set, remove } => {
                assert(first.request_add + second.request_add + add@ =~= first.request_add + (
                second.request_add + add@));
                assert(first.request_set + second.request_set + set@ =~= first.request_set + (
                second.request_set + set@));
                assert(first.request_remove + second.request_remove + remove@
                    =~= first.request_remove + (second.request_remove + remove@));
            },
            Filter::ResponseHeaderModifier { add, set, remove } => {
                assert(first.response_add + second.response_add + add@ =~= first.response_add + (
                second.response_add + add@));
                assert(first.response_set + second.response_set + set@ =~= first.response_set + (
                second.response_set + set@));
                assert(first.response_remove + second.response_remove + remove@
                    =~= first.response_remove + (second.response_remove + remove@));
            },
            Filter::RequestMirror { backend, percent } => {
                let m = MirrorTarget { backend, percent: mirror_percent(percent) };
                assert((first.mirrors + second.mirrors).push(m) =~= first.mirrors
                    + second.mirrors.push(m));
            },
            _ => {},
        }
    }
}

/// Filters carry no timeout: that comes from the rule.
pub proof fn law_effects_carry_no_timeout(filters: Seq<Filter>)
    ensures
        effects_of(filters).timeout is None,
    decreases filters.len(),
{
    if filters.len() > 0 {
        law_effects_carry_no_timeout(filters.drop_last());
    }
}

/// No header of a removed name is left, and what is left was there before.
pub proof fn law_removed_headers_are_gone(headers: Seq<HeaderModel>, names: Seq<String>)
    ensures
        forall|i: int|
            0 <= i < without_headers(headers, names).len() ==> !is_named_in(
                #[trigger] without_headers(headers, names)[i],
                names,
            ) && headers.contains(without_headers(headers, names)[i]),
    decreases headers.len(),
{
    if headers.len() > 0 {
        let front = headers.drop_last();
        law_removed_headers_are_gone(front, names);
        assert forall|h: HeaderModel| front.contains(h) implies headers.contains(h) by {
            let i = front.index_of(h);
            assert(headers[i] == h);
        }
        assert(headers[headers.len() - 1] == headers.last());
        let before = without_headers(front, names);
        let after = without_headers(headers, names);
        assert forall|i: int| 0 <= i < after.len() implies !is_named_in(#[trigger] after[i], names)
            && headers.contains(after[i]) by {
            if i < before.len() {
                assert(after[i] == before[i]);
            }
        }
    }
}

/// Every header that has none of the removed names is kept.
pub proof fn law_other_headers_are_kept(headers: Seq<HeaderModel>, names: Seq<String>, i: int)
    requires
        0 <= i < headers.len(),
        !is_named_in(headers[i], names),
    ensures
        without_headers(headers, names).contains(headers[i]),
    decreases headers.len(),
{
    let before = without_headers(headers.drop_last(), names);
    if i == headers.len() - 1 {
        assert(before.push(headers[i]).last() == headers[i]);
    } else {
        law_other_headers_are_kept(headers.drop_last(), names, i);
        let k = before.index_of(headers[i]);
        assert(without_headers(headers, names)[k] == headers[i]);
    }
}

/// After a header is set there is one of that name, every header of that name
/// has the value, and all others are where and what they were.
pub proof fn law_set_header_has_its_value(headers: Seq<HeaderModel>, header: HeaderValue)
    ensures
        ({
            let after = with_header_set(headers, header);
            &&& exists|i: int| 0 <= i < after.len() && is_named(#[trigger] after[i], header.name@)
            &&& forall|i: int|
                0 <= i < after.len() && is_named(#[trigger] after[i], header.name@) ==> after[i].1
                    == header.value@
            &&& forall|i: int|
                0 <= i < headers.len() && !is_named(#[trigger] headers[i], header.name@)
                    ==> after[i] == headers[i]
            &&& forall|i: int| 0 <= i < headers.len() ==> #[trigger] after[i].0 == headers[i].0
        }),
{
    let after = with_header_set(headers, header);
    if exists|i: int| 0 <= i < headers.len() && is_named(#[trigger] headers[i], header.name@) {
        let i = choose|i: int|
            0 <= i < headers.len() && is_named(#[trigger] headers[i], header.name@);
        assert(is_named(after[i], header.name@));
    } else {
        assert(is_named(after[headers.len() as int], header.name@));
        assert forall|i: int|
            0 <= i < after.len() && is_named(#[trigger] after[i], header.name@) implies after[i].1
            == header.value@ by {
            if i < headers.len() {
                assert(!is_named(headers[i], header.name@));
            }
        }
    }
}

/// Setting a header a second time changes nothing.
pub proof fn law_setting_twice_is_setting_once(headers: Seq<HeaderModel>, header: HeaderValue)
    ensures
        with_header_set(with_header_set(headers, header), header) == with_header_set(
            headers,
            header,
        ),
{
    law_set_header_has_its_value(headers, header);
    let after = with_header_set(headers, header);
    assert(with_header_set(after, header) =~= after);
}

/// Removing and setting the same headers a second time changes nothing, where
/// no name is both removed and set.
pub proof fn law_changing_twice_is_changing_once(
    headers: Seq<HeaderModel>,
    remove: Seq<String>,
    set: Seq<HeaderValue>,
)
    requires
        forall|i: int, j: int|
            0 <= i < remove.len() && 0 <= j < set.len() ==> !text::same_ignoring_case(
                #[trigger] set[j].name@,
                #[trigger] remove[i]@,
            ),
    ensures
        modified(modified(headers, remove, set, Seq::empty()), remove, set, Seq::empty())
            == modified(headers, remove, set, Seq::empty()),
{
    let kept = without_headers(headers, remove);
    let once = with_headers_set(kept, set);
    assert(modified(headers, remove, set, Seq::empty()) =~= once);
    law_removed_headers_are_gone(headers, remove);
    lemma_set_names_stay_out(kept, remove, set);
    lemma_none_removed(once, remove);
    lemma_all_set(kept, set);
    lemma_set_in_place(once, set);
    assert(with_headers_set(once, set) =~= once);
    assert(modified(once, remove, set, Seq::empty()) =~= once);
}

/// The value of a header after others are set, where it is there from the
/// start: that of the last of its name.
spec fn last_value(set: Seq<HeaderValue>, header: HeaderModel) -> Seq<char>
    decreases set.len(),
{
    if set.len() == 0 {
        header.1
    } else if is_named(header, set.last().name@) {
        set.last().value@
    } else {
        last_value(set.drop_last(), header)
    }
}

/// Whether every header of the list has its final value.
spec fn settled(headers: Seq<HeaderModel>, set: Seq<HeaderValue>) -> bool {
    forall|i: int|
        0 <= i < headers.len() ==> last_value(set, #[trigger] headers[i]) == headers[i].1
}

/// Whether every name that is set is there.
spec fn all_there(headers: Seq<HeaderModel>, set: Seq<HeaderValue>) -> bool {
    forall|j: int| 0 <= j < set.len() ==> is_there(headers, #[trigger] set[j].name@)
}

/// Whether a header of that name is there.
spec fn is_there(headers: Seq<HeaderModel>, name: Seq<char>) -> bool {
    exists|i: int| 0 <= i < headers.len() && is_named(#[trigger] headers[i], name)
}

proof fn lemma_set_names_stay_out(
    headers: Seq<HeaderModel>,
    remove: Seq<String>,
    set: Seq<HeaderValue>,
)
    requires
        forall|i: int| 0 <= i < headers.len() ==> !is_named_in(#[trigger] headers[i], remove),
        forall|i: int, j: int|
            0 <= i < remove.len() && 0 <= j < set.len() ==> !text::same_ignoring_case(
                #[trigger] set[j].name@,
                #[trigger] remove[i]@,
            ),
    ensures
        forall|i: int|
            0 <= i < with_headers_set(headers, set).len() ==> !is_named_in(
                #[trigger] with_headers_set(headers, set)[i],
                remove,
            ),
    decreases set.len(),
{
    if set.len() > 0 {
        let front = set.drop_last();
        assert(forall|j: int| 0 <= j < front.len() ==> front[j] == set[j]);
        lemma_set_names_stay_out(headers, remove, front);
        let before = with_headers_set(headers, front);
        let after = with_headers_set(headers, set);
        assert forall|i: int| 0 <= i < after.len() implies !is_named_in(
            #[trigger] after[i],
            remove,
        ) by {
            if i < before.len() {
                assert(after[i].0 == before[i].0);
                assert(!is_named_in(before[i], remove));
                assert forall|k: int| 0 <= k < remove.len() implies !is_named(
                    after[i],
                    #[trigger] remove[k]@,
                ) by {
                    assert(!is_named(before[i], remove[k]@));
                }
            } else {
                assert(after[i].0 == set[set.len() - 1].name@);
            }
        }
    }
}

proof fn lemma_none_removed(headers: Seq<HeaderModel>, names: Seq<String>)
    requires
        forall|i: int| 0 <= i < headers.len() ==> !is_named_in(#[trigger] headers[i], names),
    ensures
        without_headers(headers, names) == headers,
    decreases headers.len(),
{
    if headers.len() > 0 {
        let front = headers.drop_last();
        assert forall|i: int| 0 <= i < front.len() implies !is_named_in(
            #[trigger] front[i],
            names,
        ) by {
            assert(front[i] == headers[i]);
        }
        lemma_none_removed(front, names);
        assert(!is_named_in(headers[headers.len() - 1], names));
        assert(headers =~= front.push(headers.last()));
    }
}

proof fn lemma_all_set(headers: Seq<HeaderModel>, set: Seq<HeaderValue>)
    ensures
        all_there(with_headers_set(headers, set), set),
        settled(with_headers_set(headers, set), set),
    decreases set.len(),
{
    if set.len() > 0 {
        let front = set.drop_last();
        let last = set.last();
        lemma_all_set(headers, front);
        let before = with_headers_set(headers, front);
        let after = with_headers_set(headers, set);
        law_set_header_has_its_value(before, last);
        assert forall|j: int| 0 <= j < set.len() implies is_there(
            after,
            #[trigger] set[j].name@,
        ) by {
            if j < front.len() {
                assert(front[j] == set[j]);
                assert(is_there(before, front[j].name@));
                let i = choose|i: int|
                    0 <= i < before.len() && is_named(#[trigger] before[i], set[j].name@);
                assert(after[i].0 == before[i].0);
                assert(is_named(after[i], set[j].name@));
            }
        }
        assert forall|i: int| 0 <= i < after.len() implies last_value(set, #[trigger] after[i])
            == after[i].1 by {
            if !is_named(after[i], last.name@) {
                if i < before.len() {
                    assert(after[i].0 == before[i].0);
                    assert(!is_named(before[i], last.name@));
                    assert(after[i] == before[i]);
                } else {
                    assert(after[i].0 == last.name@);
                }
            }
        }
    }
}

proof fn lemma_set_in_place(headers: Seq<HeaderModel>, set: Seq<HeaderValue>)
    requires
        all_there(headers, set),
    ensures
        with_headers_set(headers, set) == headers.map_values(
            |h: HeaderModel| (h.0, last_value(set, h)),
        ),
    decreases set.len(),
{
    let placed = headers.map_values(|h: HeaderModel| (h.0, last_value(set, h)));
    if set.len() > 0 {
        let front = set.drop_last();
        let last = set.last();
        assert forall|j: int| 0 <= j < front.len() implies is_there(
            headers,
            #[trigger] front[j].name@,
        ) by {
            assert(front[j] == set[j]);
        }
        lemma_set_in_place(headers, front);
        let before = with_headers_set(headers, front);
        assert(is_there(headers, set[set.len() - 1].name@));
        let i = choose|i: int|
            0 <= i < headers.len() && is_named(#[trigger] headers[i], last.name@);
        assert(before[i].0 == headers[i].0);
        assert(is_named(before[i], last.name@));
    }
    assert(with_headers_set(headers, set) =~= placed);
}

/// Filters without header changes leave the headers as they are.
pub proof fn law_no_changes_change_nothing(headers: Seq<HeaderModel>)
    ensures
        modified(headers, Seq::empty(), Seq::empty(), Seq::empty()) == headers,
{
    lemma_nothing_removed(headers);
    assert(modified(headers, Seq::empty(), Seq::empty(), Seq::empty()) =~= headers);
}

proof fn lemma_nothing_removed(headers: Seq<HeaderModel>)
    ensures
        without_headers(headers, Seq::empty()) == headers,
    decreases headers.len(),
{
    if headers.len() > 0 {
        lemma_nothing_removed(headers.drop_last());
        assert(headers =~= headers.drop_last().push(headers.last()));
    }
}

/// Added headers stand at the end, in their order, whatever was removed or
/// set before.
pub proof fn law_added_headers_come_last(
    headers: Seq<HeaderModel>,
    remove: Seq<String>,
    set: Seq<HeaderValue>,
    add: Seq<HeaderValue>,
)
    ensures
        added(add).is_suffix_of(modified(headers, remove, set, add)),
        modified(headers, remove, set, add) == modified(headers, remove, set, Seq::empty()) + added(
            add,
        ),
{
    let front = with_headers_set(without_headers(headers, remove), set);
    let all = front + added(add);
    assert(all.subrange(all.len() - added(add).len(), all.len() as int) =~= added(add));
    assert(front + added(Seq::empty()) =~= front);
}

// -- What each filter is for -------------------------------------------------

/// A redirect filter sends the client to its scheme, or `http`, and its host,
/// or that of the request; its port follows unless the scheme implies it (80
/// for `http`, 443 for `https`); then comes the path, changed as the filter
/// says, and the query of the request.
pub proof fn law_redirects_are_built_of_their_parts(
    filter: Filter,
    uri: Seq<char>,
    host: Seq<char>,
    matched: Option<Seq<char>>,
    s: Seq<char>,
    h: Seq<char>,
    port: Seq<char>,
    p: Seq<char>,
    query: Seq<char>,
)
    requires
        filter is RequestRedirect,
        filter->RequestRedirect_scheme matches Some(given) ==> s == given@,
        filter->RequestRedirect_scheme is None ==> s == seq!['h', 't', 't', 'p'],
        filter->RequestRedirect_hostname matches Some(given) ==> h == given@,
        filter->RequestRedirect_hostname is None ==> h == host,
        filter->RequestRedirect_port is None ==> port.len() == 0,
        filter->RequestRedirect_port matches Some(n) ==> port == if (n == 80 && s == seq![
            'h',
            't',
            't',
            'p',
        ]) || (n == 443 && s == seq!['h', 't', 't', 'p', 's']) {
            Seq::empty()
        } else {
            seq![':'] + text::decimal(n as nat)
        },
        filter->RequestRedirect_path is None ==> p == uri_path(uri),
        filter->RequestRedirect_path matches Some(PathModifier::ReplaceFullPath { value }) ==> p
            == value@,
        filter->RequestRedirect_path matches Some(PathModifier::ReplacePrefixMatch { value }) ==> p
            == prefix_replaced(
            uri_path(uri),
            match matched {
                Some(prefix) => prefix,
                None => seq!['/'],
            },
            value@,
        ),
        query == (if uri_query(uri).len() == 0 {
            Seq::empty()
        } else {
            seq!['?'] + uri_query(uri)
        }),
    ensures
        redirect_url(filter, uri, host, matched) == s + seq![':', '/', '/'] + h + port + p + query,
{
    reveal_strlit("http");
    reveal_strlit("https");
    reveal_strlit("://");
    reveal_strlit(":");
    reveal_strlit("?");
    reveal_strlit("/");
    assert("http"@ =~= seq!['h', 't', 't', 'p']);
    assert("https"@ =~= seq!['h', 't', 't', 'p', 's']);
    assert("://"@ =~= seq![':', '/', '/']);
    assert(":"@ =~= seq![':']);
    assert("?"@ =~= seq!['?']);
    assert("/"@ =~= seq!['/']);
    assert(port.len() == 0 ==> port =~= Seq::empty());
}

/// A rewrite filter puts its host in place where it names one, and its path: a
/// whole path as it is, a prefix in place of the one that the route matched by,
/// or of the root.
pub proof fn law_rewrites_change_host_and_path(
    filter: Filter,
    path: Seq<char>,
    matched: Option<Seq<char>>,
)
    requires
        filter is URLRewrite,
    ensures
        ({
            let change = rewrite_of(filter, path, matched);
            &&& filter->URLRewrite_hostname is None ==> change.hostname is None
            &&& filter->URLRewrite_hostname matches Some(h) ==> change.hostname == Some(h@)
            &&& filter->URLRewrite_path is None ==> change.path is None
            &&& filter->URLRewrite_path matches Some(PathModifier::ReplaceFullPath { value })
                ==> change.path == Some(value@)
            &&& filter->URLRewrite_path matches Some(PathModifier::ReplacePrefixMatch { value })
                ==> change.path == Some(
                prefix_replaced(
                    path,
                    match matched {
                        Some(prefix) => prefix,
                        None => seq!['/'],
                    },
                    value@,
                ),
            )
        }),
{
    reveal_strlit("/");
    assert("/"@ =~= seq!['/']);
}

/// One filter more has the effect of its kind and no other: a request header
/// filter adds, sets and removes request headers, a response header filter
/// response headers, a mirror one target (for all requests where it names no
/// percentage), a rewrite the rewrite.
pub proof fn law_each_filter_has_its_own_effect(filters: Seq<Filter>, f: Filter)
    ensures
        ({
            let before = effects_of(filters);
            let after = effects_of(filters.push(f));
            &&& f matches Filter::RequestHeaderModifier { add, set, remove } ==> after == (
            FilterEffects {
                request_add: before.request_add + add@,
                request_set: before.request_set + set@,
                request_remove: before.request_remove + remove@,
                ..before
            })
            &&& f matches Filter::ResponseHeaderModifier { add, set, remove } ==> after == (
            FilterEffects {
                response_add: before.response_add + add@,
                response_set: before.response_set + set@,
                response_remove: before.response_remove + remove@,
                ..before
            })
            &&& f matches Filter::RequestMirror { backend, percent } ==> {
                &&& after.mirrors.len() == before.mirrors.len() + 1
                &&& after.mirrors.drop_last() == before.mirrors
                &&& after.mirrors.last().backend == backend
                &&& percent is None ==> after.mirrors.last().percent == 100
                &&& percent matches Some(n) ==> after.mirrors.last().percent == n
                &&& after == (FilterEffects { mirrors: after.mirrors, ..before })
            }
            &&& f is URLRewrite ==> {
                &&& after.rewrite is Some
                &&& after.rewrite->0.hostname == text::opt_owned(f->URLRewrite_hostname)
                &&& after == (FilterEffects { rewrite: after.rewrite, ..before })
            }
        }),
        effects_of(Seq::empty()) == (FilterEffects {
            request_add: Seq::empty(),
            request_set: Seq::empty(),
            request_remove: Seq::empty(),
            response_add: Seq::empty(),
            response_set: Seq::empty(),
            response_remove: Seq::empty(),
            rewrite: None,
            mirrors: Seq::empty(),
            timeout: None,
        }),
{
    assert(filters.push(f).drop_last() =~= filters);
    assert(filters.push(f).last() == f);
    if f is RequestMirror {
        assert(effects_of(filters.push(f)).mirrors.drop_last() =~= effects_of(filters).mirrors);
    }
}

/// Names are removed without regard to case, and the rest keeps its order: what
/// is left of two lists of headers is what is left of each.
pub proof fn law_removing_goes_header_by_header(
    a: Seq<HeaderModel>,
    b: Seq<HeaderModel>,
    header: HeaderModel,
    names: Seq<String>,
)
    ensures
        without_headers(a + b, names) == without_headers(a, names) + without_headers(b, names),
        without_headers(seq![header], names) == if exists|i: int|
            0 <= i < names.len() && text::lower(header.0) == text::lower(
                (#[trigger] names[i])@,
            ) {
            Seq::empty()
        } else {
            seq![header]
        },
    decreases b.len(),
{
    assert(seq![header].drop_last() =~= Seq::empty());
    assert(without_headers(seq![header].drop_last(), names) =~= Seq::empty());
    assert(Seq::<HeaderModel>::empty().push(header) =~= seq![header]);
    assert(is_named_in(header, names) <==> exists|i: int|
        0 <= i < names.len() && text::lower(header.0) == text::lower((#[trigger] names[i])@)) by {
        if is_named_in(header, names) {
            let i = choose|i: int|
                0 <= i < names.len() && is_named(header, #[trigger] names[i]@);
            assert(text::lower(header.0) == text::lower(names[i]@));
        }
        if exists|i: int|
            0 <= i < names.len() && text::lower(header.0) == text::lower((#[trigger] names[i])@) {
            let i = choose|i: int|
                0 <= i < names.len() && text::lower(header.0) == text::lower(
                    (#[trigger] names[i])@,
                );
            assert(is_named(header, names[i]@));
        }
    }
    if b.len() == 0 {
        assert(a + b =~= a);
        assert(without_headers(a, names) + without_headers(b, names) =~= without_headers(a, names));
    } else {
        law_removing_goes_header_by_header(a, b.drop_last(), header, names);
        assert((a + b).drop_last() =~= a + b.drop_last());
        assert((a + b).last() == b.last());
        let left = without_headers(a, names);
        let right = without_headers(b.drop_last(), names);
        assert((left + right).push(b.last()) =~= left + right.push(b.last()));
    }
}

/// Setting a header changes the headers of that name where they stand; only
/// where there is none does it put one more at the end.
pub proof fn law_setting_adds_only_what_is_missing(
    headers: Seq<HeaderModel>,
    header: HeaderValue,
)
    ensures
        ({
            let there = exists|i: int|
                0 <= i < headers.len() && text::lower((#[trigger] headers[i]).0) == text::lower(
                    header.name@,
                );
            let after = with_header_set(headers, header);
            &&& there ==> after.len() == headers.len()
            &&& !there ==> after == headers.push((header.name@, header.value@))
        }),
{
    let there = exists|i: int|
        0 <= i < headers.len() && text::lower((#[trigger] headers[i]).0) == text::lower(
            header.name@,
        );
    if there {
        let i = choose|i: int|
            0 <= i < headers.len() && text::lower((#[trigger] headers[i]).0) == text::lower(
                header.name@,
            );
        assert(is_named(headers[i], header.name@));
    } else {
        assert forall|i: int| 0 <= i < headers.len() implies !is_named(
            #[trigger] headers[i],
            header.name@,
        ) by {
            assert(text::lower(headers[i].0) != text::lower(header.name@));
        }
    }
}

/// Headers are removed first, then set, then added: a header that is set is
/// there with its value even where its name is also removed, and a header that
/// is added stands at the end even where its name is also removed or set.
pub proof fn law_remove_then_set_then_add(
    headers: Seq<HeaderModel>,
    remove: Seq<String>,
    set: Seq<HeaderValue>,
    add: Seq<HeaderValue>,
    j: int,
)
    requires
        0 <= j < set.len(),
        forall|k: int|
            j < k < set.len() ==> text::lower((#[trigger] set[k]).name@) != text::lower(
                set[j].name@,
            ),
    ensures
        ({
            let after = modified(headers, remove, set, add);
            let n = after.len() - add.len();
            &&& n >= 0
            &&& exists|i: int|
                0 <= i < n && text::lower((#[trigger] after[i]).0) == text::lower(set[j].name@)
            &&& forall|i: int|
                0 <= i < n && text::lower((#[trigger] after[i]).0) == text::lower(set[j].name@)
                    ==> after[i].1 == set[j].value@
            &&& forall|i: int|
                0 <= i < add.len() ==> after[n + i] == (
                    (#[trigger] add[i]).name@,
                    add[i].value@,
                )
        }),
{
    let kept = without_headers(headers, remove);
    let once = with_headers_set(kept, set);
    let after = modified(headers, remove, set, add);
    lemma_all_set(kept, set);
    assert(after.len() == once.len() + add.len());
    assert(forall|i: int| 0 <= i < once.len() ==> after[i] == once[i]);
    assert(is_there(once, set[j].name@));
    let at = choose|i: int| 0 <= i < once.len() && is_named(#[trigger] once[i], set[j].name@);
    assert(text::lower(after[at].0) == text::lower(set[j].name@));
    assert forall|i: int|
        0 <= i < once.len() && text::lower((#[trigger] after[i]).0) == text::lower(
            set[j].name@,
        ) implies after[i].1 == set[j].value@ by {
        assert(last_value(set, once[i]) == once[i].1);
        lemma_last_value(set, once[i], j);
    }
    assert forall|i: int| 0 <= i < add.len() implies after[once.len() + i] == (
        (#[trigger] add[i]).name@,
        add[i].value@,
    ) by {}
}

proof fn lemma_last_value(set: Seq<HeaderValue>, header: HeaderModel, j: int)
    requires
        0 <= j < set.len(),
        is_named(header, set[j].name@),
        forall|k: int|
            j < k < set.len() ==> text::lower((#[trigger] set[k]).name@) != text::lower(
                set[j].name@,
            ),
    ensures
        last_value(set, header) == set[j].value@,
    decreases set.len(),
{
    if j < set.len() - 1 {
        assert(text::lower(set[set.len() - 1].name@) != text::lower(set[j].name@));
        assert(!is_named(header, set.last().name@));
        let front = set.drop_last();
        assert forall|k: int| j < k < front.len() implies text::lower((#[trigger] front[k]).name@)
            != text::lower(front[j].name@) by {
            assert(front[k] == set[k]);
        }
        lemma_last_value(front, header, j);
    }
}

} // verus!
