//! Route matching: which rule of a configuration serves a request.
//!
//! A pure function of the configuration, the listener's name and what the
//! request holds.

use vstd::prelude::*;
use vstd::utf8::encode_utf8;

use crate::config::{
    Backend, Filter, HeaderMatch, HeaderMatchType, PathMatchType, PathModifier,
    ProxyConfig, QueryParamMatch, QueryParamMatchType, RouteConfig, RouteMatch, RouteRule,
    TimeoutConfig,
};
use crate::config;
use crate::text;

verus! {

// ---------------------------------------------------------------------------
// The request
// ---------------------------------------------------------------------------

/// What routing reads of a request.
#[derive(Debug)]
pub struct RequestMeta<'a> {
    /// Host of the request.
    pub host: Option<&'a str>,
    /// Path of the request.
    pub path: &'a str,
    /// HTTP method.
    pub method: &'a str,
    /// Header names and values.
    pub headers: &'a [(&'a str, &'a str)],
    /// Query parameter names and values.
    pub query_params: &'a [(&'a str, &'a str)],
}

/// A request as mathematical values.
pub struct RequestModel {
    pub host: Option<Seq<char>>,
    pub path: Seq<char>,
    pub method: Seq<char>,
    pub headers: Seq<(Seq<char>, Seq<char>)>,
    pub query_params: Seq<(Seq<char>, Seq<char>)>,
}

/// The views of some pairs of texts.
pub open spec fn pair_views(v: Seq<(&str, &str)>) -> Seq<(Seq<char>, Seq<char>)> {
    v.map_values(|p: (&str, &str)| (p.0@, p.1@))
}

impl<'a> View for RequestMeta<'a> {
    type V = RequestModel;

    open spec fn view(&self) -> RequestModel {
        RequestModel {
            host: text::opt(self.host),
            path: self.path@,
            method: self.method@,
            headers: pair_views(self.headers@),
            query_params: pair_views(self.query_params@),
        }
    }
}

// ---------------------------------------------------------------------------
// The decision
// ---------------------------------------------------------------------------

/// What to do with a request.
#[derive(Debug)]
pub enum RoutingDecision<'a> {
    /// Forward it to one of these backends, through these filters.
    Forward {
        backends: &'a [Backend],
        filters: &'a [Filter],
        timeout: Option<&'a TimeoutConfig>,
    },
    /// Redirect the client.
    Redirect(RedirectResponse),
    /// No route matches.
    NotFound,
}

/// A redirect to send to the client.
#[derive(Debug, PartialEq)]
pub struct RedirectResponse {
    /// HTTP status code.
    pub status_code: u16,
    /// Value of the `Location` header.
    pub location: String,
}

// ---------------------------------------------------------------------------
// Regular expressions
// ---------------------------------------------------------------------------

/// What `regex::Regex` finds: `None` where `pattern` is no regular expression
/// that it takes, else whether the expression matches somewhere in `text`.
pub uninterp spec fn regex_search(pattern: Seq<char>, text: Seq<char>) -> Option<bool>;

/// Compiles `pattern` with `regex::Regex::new` and searches `text` with
/// `Regex::is_match`. Nothing is claimed of the result but that it depends on
/// the two texts alone.
#[verifier::external_body]
fn search(pattern: &str, text: &str) -> (r: Option<bool>)
    ensures
        r == regex_search(pattern@, text@),
{
    regex::Regex::new(pattern).ok().map(|re| re.is_match(text))
}

// ---------------------------------------------------------------------------
// Hostnames
// ---------------------------------------------------------------------------

/// A host without the port behind it: all before the last colon. A host that
/// starts with a bracket (an IPv6 address) stays as it is.
pub open spec fn host_without_port(host: Seq<char>) -> Seq<char> {
    if host.len() > 0 && host[0] == '[' {
        host
    } else {
        match host.index_of_last(':') {
            Some(i) => host.take(i),
            None => host,
        }
    }
}

/// The host without the port behind it (`example.com:8080` gives
/// `example.com`).
pub fn strip_port(host: &str) -> (r: String)
    ensures
        r@ == host_without_port(host@),
{
    let cs = text::chars_of(host);
    if cs.len() > 0 && cs[0] == '[' {
        return text::slice_text(&cs, 0, cs.len());
    }
    match text::rfind(&cs, ':') {
        Some(i) => text::slice_text(&cs, 0, i),
        None => text::slice_text(&cs, 0, cs.len()),
    }
}

/// Whether `label` is one label of a host name: not empty and without a dot.
pub open spec fn is_label(label: Seq<char>) -> bool {
    label.len() > 0 && !label.contains('.')
}

/// The host name patterns that start so are wildcards.
pub open spec fn is_wildcard(pattern: Seq<char>) -> bool {
    pattern.len() >= 2 && pattern[0] == '*' && pattern[1] == '.'
}

/// Whether a host (without port) is one that the pattern stands for. Under a
/// wildcard `*.rest` these are one label, a dot and `rest`; else the pattern
/// itself. The case of ASCII letters plays no part.
pub open spec fn pattern_covers(pattern: Seq<char>, host: Seq<char>) -> bool {
    if is_wildcard(pattern) {
        exists|label: Seq<char>| #[trigger]
            is_label(label) && text::lower(host) == label + seq!['.'] + text::lower(pattern.skip(2))
    } else {
        text::same_ignoring_case(pattern, host)
    }
}

/// Whether a route with these host names takes requests for `host`. Without
/// host names it takes all of them.
pub open spec fn hostnames_cover(hostnames: Seq<String>, host: Option<Seq<char>>) -> bool {
    ||| hostnames.len() == 0
    ||| host is Some && exists|i: int|
        0 <= i < hostnames.len() && #[trigger] pattern_covers(
            hostnames[i]@,
            host_without_port(host->0),
        )
}

/// Whether the pattern stands for the host, which carries no port.
pub fn pattern_matches(pattern: &str, host: &str) -> (r: bool)
    ensures
        r == pattern_covers(pattern@, host@),
{
    let ps = text::chars_of(pattern);
    if ps.len() < 2 || ps[0] != '*' || ps[1] != '.' {
        return text::eq_ignore_ascii_case(pattern, host);
    }
    let suffix = text::slice_text(&ps, 2, ps.len());
    assert(pattern@.skip(2) =~= suffix@);
    let rest = text::chars_of(text::to_lower(suffix.as_str()).as_str());
    let low = text::chars_of(text::to_lower(host).as_str());
    let ghost tail = text::lower(pattern@.skip(2));
    if low.len() < rest.len() + 2 || !text::is_at(&low, &rest, low.len() - rest.len()) {
        proof {
            if pattern_covers(pattern@, host@) {
                let label = choose|label: Seq<char>| #[trigger]
                    is_label(label) && text::lower(host@) == label + seq!['.'] + tail;
                let n = low@.len() - rest@.len();
                assert(label.len() == n - 1);
                assert(low@.subrange(n, n + rest@.len()) =~= rest@);
            }
        }
        return false;
    }
    let dot: usize = low.len() - rest.len() - 1;
    let ghost n: int = dot + 1;
    assert(low@.subrange(n, n + rest@.len()) =~= low@.skip(n));
    if low[dot] != '.' {
        proof {
            if pattern_covers(pattern@, host@) {
                let label = choose|label: Seq<char>| #[trigger]
                    is_label(label) && text::lower(host@) == label + seq!['.'] + tail;
                assert(label.len() == dot);
                assert((label + seq!['.'] + tail)[dot as int] == '.');
            }
        }
        return false;
    }
    let ghost before = low@.take(dot as int);
    assert(low@ =~= before + seq!['.'] + tail);
    let mut i: usize = 0;
    while i < dot
        invariant
            dot < low@.len(),
            i <= dot,
            before == low@.take(dot as int),
            is_wildcard(pattern@),
            tail == text::lower(pattern@.skip(2)),
            low@ == text::lower(host@),
            low@.len() == dot + 1 + tail.len(),
            forall|j: int| 0 <= j < i ==> before[j] != '.',
        decreases dot - i,
    {
        if low[i] == '.' {
            proof {
                if pattern_covers(pattern@, host@) {
                    let label = choose|label: Seq<char>| #[trigger]
                        is_label(label) && text::lower(host@) == label + seq!['.'] + tail;
                    assert(label.len() == dot);
                    assert((label + seq!['.'] + tail)[i as int] == label[i as int]);
                    assert(label.contains(label[i as int]));
                }
            }
            return false;
        }
        i += 1;
    }
    assert(is_label(before));
    true
}

/// Whether the route takes requests for `host`.
pub fn hostname_matches(route: &RouteConfig, host: Option<&str>) -> (r: bool)
    ensures
        r == hostnames_cover(route.hostnames@, text::opt(host)),
{
    if route.hostnames.len() == 0 {
        return true;
    }
    match host {
        None => false,
        Some(h) => {
            let bare = strip_port(h);
            let mut i: usize = 0;
            while i < route.hostnames.len()
                invariant
                    i <= route.hostnames@.len(),
                    host == Some(h),
                    bare@ == host_without_port(h@),
                    forall|j: int|
                        0 <= j < i ==> !pattern_covers(route.hostnames@[j]@, host_without_port(h@)),
                decreases route.hostnames.len() - i,
            {
                if pattern_matches(route.hostnames[i].as_str(), bare.as_str()) {
                    let ghost k = i as int;
                    assert(0 <= k < route.hostnames@.len() && pattern_covers(
                        route.hostnames@[k]@,
                        host_without_port(Some(h@)->0),
                    ));
                    assert(hostnames_cover(route.hostnames@, Some(h@)));
                    return true;
                }
                i += 1;
            }
            false
        },
    }
}

// ---------------------------------------------------------------------------
// Conditions
// ---------------------------------------------------------------------------

/// Whether `path` is `prefix` or goes on behind it with a slash. The prefix
/// `/` stands for every path.
pub open spec fn prefix_covers(prefix: Seq<char>, path: Seq<char>) -> bool {
    ||| prefix == seq!['/']
    ||| path == prefix
    ||| prefix.push('/').is_prefix_of(path)
}

/// Prefix matching by whole segments: `/api` matches `/api` and `/api/users`
/// but not `/apiversion`, and `/` matches every path.
pub fn prefix_path_matches(prefix: &str, path: &str) -> (r: bool)
    ensures
        r == prefix_covers(prefix@, path@),
{
    proof {
        reveal_strlit("/");
    }
    assert("/"@ =~= seq!['/']);
    if text::same(prefix, "/") {
        return true;
    }
    if text::same(path, prefix) {
        return true;
    }
    let mut with_slash = text::chars_of(prefix);
    with_slash.push('/');
    text::is_at(&text::chars_of(path), &with_slash, 0)
}

/// Whether a path meets a path condition, given what a search for the value
/// as a regular expression finds.
pub open spec fn path_condition(
    match_type: PathMatchType,
    value: Seq<char>,
    path: Seq<char>,
    found: Option<bool>,
) -> bool {
    match match_type {
        PathMatchType::Exact => path == value,
        PathMatchType::PathPrefix => prefix_covers(value, path),
        PathMatchType::RegularExpression => found == Some(true),
    }
}

/// Whether the path meets the condition, given what a search for `value` as a
/// regular expression found in it.
pub fn path_condition_holds(
    match_type: PathMatchType,
    value: &str,
    path: &str,
    found: Option<bool>,
) -> (r: bool)
    ensures
        r == path_condition(match_type, value@, path@, found),
{
    match match_type {
        PathMatchType::Exact => text::same(path, value),
        PathMatchType::PathPrefix => prefix_path_matches(value, path),
        PathMatchType::RegularExpression => matches!(found, Some(true)),
    }
}

/// Whether a path meets a path condition.
pub open spec fn path_covers(match_type: PathMatchType, value: Seq<char>, path: Seq<char>) -> bool {
    path_condition(match_type, value, path, regex_search(value, path))
}

/// Whether the path meets the path condition.
pub fn path_matches(match_type: PathMatchType, value: &str, path: &str) -> (r: bool)
    ensures
        r == path_covers(match_type, value@, path@),
{
    let found = match match_type {
        PathMatchType::RegularExpression => search(value, path),
        _ => None,
    };
    path_condition_holds(match_type, value, path, found)
}

/// Whether a text meets a condition on its value, given what a search for the
/// expected text as a regular expression finds in it.
pub open spec fn value_condition(
    exact: bool,
    expected: Seq<char>,
    value: Seq<char>,
    found: Option<bool>,
) -> bool {
    if exact {
        value == expected
    } else {
        found == Some(true)
    }
}

/// Whether the text meets the condition, given what a search for `expected`
/// as a regular expression found in it.
pub fn value_condition_holds(exact: bool, expected: &str, value: &str, found: Option<bool>) -> (r:
    bool)
    ensures
        r == value_condition(exact, expected@, value@, found),
{
    if exact {
        text::same(value, expected)
    } else {
        matches!(found, Some(true))
    }
}

/// Whether a header meets a header condition: the names are equal up to case
/// and the value meets the condition.
pub open spec fn header_covers(hm: HeaderMatch, header: (Seq<char>, Seq<char>)) -> bool {
    &&& text::same_ignoring_case(header.0, hm.name@)
    &&& value_condition(
        hm.match_type == HeaderMatchType::Exact,
        hm.value@,
        header.1,
        regex_search(hm.value@, header.1),
    )
}

/// Whether some header meets the condition.
pub fn header_matches(hm: &HeaderMatch, headers: &[(&str, &str)]) -> (r: bool)
    ensures
        r == exists|i: int| 0 <= i < headers@.len() && #[trigger] header_covers(*hm, pair_views(headers@)[i]),
{
    let mut i: usize = 0;
    while i < headers.len()
        invariant
            i <= headers@.len(),
            forall|j: int| 0 <= j < i ==> !#[trigger] header_covers(*hm, pair_views(headers@)[j]),
        decreases headers.len() - i,
    {
        let (name, value) = headers[i];
        assert(pair_views(headers@)[i as int] == (name@, value@));
        if text::eq_ignore_ascii_case(name, hm.name.as_str()) {
            let exact = match hm.match_type {
                HeaderMatchType::Exact => true,
                HeaderMatchType::RegularExpression => false,
            };
            let found = if exact {
                None
            } else {
                search(hm.value.as_str(), value)
            };
            if value_condition_holds(exact, hm.value.as_str(), value, found) {
                assert(header_covers(*hm, pair_views(headers@)[i as int]));
                return true;
            }
        }
        i += 1;
    }
    false
}

/// Whether a query parameter meets a condition: the names are equal and the
/// value meets the condition.
pub open spec fn query_param_covers(qpm: QueryParamMatch, param: (Seq<char>, Seq<char>)) -> bool {
    &&& param.0 == qpm.name@
    &&& value_condition(
        qpm.match_type == QueryParamMatchType::Exact,
        qpm.value@,
        param.1,
        regex_search(qpm.value@, param.1),
    )
}

/// Whether some query parameter meets the condition.
pub fn query_param_matches(qpm: &QueryParamMatch, query_params: &[(&str, &str)]) -> (r: bool)
    ensures
        r == exists|i: int|
            0 <= i < query_params@.len() && #[trigger] query_param_covers(
                *qpm,
                pair_views(query_params@)[i],
            ),
{
    let mut i: usize = 0;
    while i < query_params.len()
        invariant
            i <= query_params@.len(),
            forall|j: int|
                0 <= j < i ==> !#[trigger] query_param_covers(*qpm, pair_views(query_params@)[j]),
        decreases query_params.len() - i,
    {
        let (name, value) = query_params[i];
        assert(pair_views(query_params@)[i as int] == (name@, value@));
        if text::same(name, qpm.name.as_str()) {
            let exact = match qpm.match_type {
                QueryParamMatchType::Exact => true,
                QueryParamMatchType::RegularExpression => false,
            };
            let found = if exact {
                None
            } else {
                search(qpm.value.as_str(), value)
            };
            if value_condition_holds(exact, qpm.value.as_str(), value, found) {
                assert(query_param_covers(*qpm, pair_views(query_params@)[i as int]));
                return true;
            }
        }
        i += 1;
    }
    false
}

// ---------------------------------------------------------------------------
// Precedence
// ---------------------------------------------------------------------------

/// How a match ranks among others.
#[derive(Debug, Clone, Copy, PartialEq, Eq, Structural)]
pub struct MatchPrecedence {
    /// 2 for an exact path, 1 for a prefix, 0 for a regular expression or no
    /// path condition.
    pub path_kind: u8,
    /// Length in bytes of the path condition's value.
    pub path_length: usize,
    /// Whether there is a method condition.
    pub has_method: bool,
    /// Number of header conditions.
    pub header_count: usize,
    /// Number of query parameter conditions.
    pub query_param_count: usize,
}

/// Whether `a` ranks above `b`: by the kind of path, then its length, then a
/// method condition, then the number of header conditions, then the number of
/// query parameter conditions.
pub open spec fn outranks(a: MatchPrecedence, b: MatchPrecedence) -> bool {
    if a.path_kind != b.path_kind {
        a.path_kind > b.path_kind
    } else if a.path_length != b.path_length {
        a.path_length > b.path_length
    } else if a.has_method != b.has_method {
        a.has_method
    } else if a.header_count != b.header_count {
        a.header_count > b.header_count
    } else {
        a.query_param_count > b.query_param_count
    }
}

/// Whether `a` ranks above `b`.
pub fn precedence_beats(a: &MatchPrecedence, b: &MatchPrecedence) -> (r: bool)
    ensures
        r == outranks(*a, *b),
{
    if a.path_kind != b.path_kind {
        a.path_kind > b.path_kind
    } else if a.path_length != b.path_length {
        a.path_length > b.path_length
    } else if a.has_method != b.has_method {
        a.has_method
    } else if a.header_count != b.header_count {
        a.header_count > b.header_count
    } else {
        a.query_param_count > b.query_param_count
    }
}

/// The number of bytes of a text in UTF-8.
pub open spec fn byte_len(s: Seq<char>) -> usize {
    encode_utf8(s).len() as usize
}

/// The rank of a kind of path condition.
pub open spec fn path_rank(match_type: PathMatchType) -> u8 {
    match match_type {
        PathMatchType::Exact => 2,
        PathMatchType::PathPrefix => 1,
        PathMatchType::RegularExpression => 0,
    }
}

/// Whether a request meets every condition of a match.
pub open spec fn match_holds(m: RouteMatch, request: RequestModel) -> bool {
    &&& m.path matches Some(pm) ==> path_covers(pm.match_type, pm.value@, request.path)
    &&& m.method matches Some(method) ==> text::same_ignoring_case(request.method, method@)
    &&& forall|k: int|
        0 <= k < m.headers@.len() ==> header_condition_met(#[trigger] m.headers@[k], request)
    &&& forall|k: int|
        0 <= k < m.query_params@.len() ==> query_condition_met(
            #[trigger] m.query_params@[k],
            request,
        )
}

/// Whether some header of the request meets the condition.
pub open spec fn header_condition_met(hm: HeaderMatch, request: RequestModel) -> bool {
    exists|i: int|
        0 <= i < request.headers.len() && #[trigger] header_covers(hm, request.headers[i])
}

/// Whether some query parameter of the request meets the condition.
pub open spec fn query_condition_met(qpm: QueryParamMatch, request: RequestModel) -> bool {
    exists|i: int|
        0 <= i < request.query_params.len() && #[trigger] query_param_covers(
            qpm,
            request.query_params[i],
        )
}

/// The rank that a match gives to the requests that meet it.
pub open spec fn rank_of(m: RouteMatch) -> MatchPrecedence {
    MatchPrecedence {
        path_kind: match m.path {
            Some(pm) => path_rank(pm.match_type),
            None => 0,
        },
        path_length: match m.path {
            Some(pm) => byte_len(pm.value@),
            None => 0,
        },
        has_method: m.method is Some,
        header_count: m.headers.len(),
        query_param_count: m.query_params.len(),
    }
}

/// The rank of a rule without matches.
pub open spec fn lowest_rank() -> MatchPrecedence {
    MatchPrecedence {
        path_kind: 0,
        path_length: 0,
        has_method: false,
        header_count: 0,
        query_param_count: 0,
    }
}

/// The rank of one match for a request: `None` where the request does not
/// meet it.
pub fn single_match_applies(route_match: &RouteMatch, request: &RequestMeta<'_>) -> (r: Option<
    MatchPrecedence,
>)
    ensures
        r == if match_holds(*route_match, request@) {
            Some(rank_of(*route_match))
        } else {
            None
        },
{
    let mut path_kind: u8 = 0;
    let mut path_length: usize = 0;
    if let Some(pm) = &route_match.path {
        if !path_matches(pm.match_type, pm.value.as_str(), request.path) {
            return None;
        }
        path_kind =
        match pm.match_type {
            PathMatchType::Exact => 2,
            PathMatchType::PathPrefix => 1,
            PathMatchType::RegularExpression => 0,
        };
        path_length = pm.value.as_str().len();
    }
    if let Some(method) = &route_match.method {
        if !text::eq_ignore_ascii_case(request.method, method.as_str()) {
            return None;
        }
    }
    let mut i: usize = 0;
    while i < route_match.headers.len()
        invariant
            i <= route_match.headers@.len(),
            forall|k: int|
                0 <= k < i ==> header_condition_met(#[trigger] route_match.headers@[k], request@),
        decreases route_match.headers.len() - i,
    {
        if !header_matches(&route_match.headers[i], request.headers) {
            assert(!header_condition_met(route_match.headers@[i as int], request@));
            return None;
        }
        i += 1;
    }
    let mut j: usize = 0;
    while j < route_match.query_params.len()
        invariant
            j <= route_match.query_params@.len(),
            forall|k: int|
                0 <= k < j ==> query_condition_met(
                    #[trigger] route_match.query_params@[k],
                    request@,
                ),
        decreases route_match.query_params.len() - j,
    {
        if !query_param_matches(&route_match.query_params[j], request.query_params) {
            assert(!query_condition_met(route_match.query_params@[j as int], request@));
            return None;
        }
        j += 1;
    }
    Some(
        MatchPrecedence {
            path_kind,
            path_length,
            has_method: route_match.method.is_some(),
            header_count: route_match.headers.len(),
            query_param_count: route_match.query_params.len(),
        },
    )
}

/// The higher of two ranks; of two equal ones either.
pub open spec fn higher(a: Option<MatchPrecedence>, b: Option<MatchPrecedence>) -> Option<
    MatchPrecedence,
> {
    match (a, b) {
        (None, _) => b,
        (_, None) => a,
        (Some(p), Some(q)) => if outranks(p, q) {
            a
        } else {
            b
        },
    }
}

/// The highest rank among the matches that a request meets.
pub open spec fn highest_rank(matches: Seq<RouteMatch>, request: RequestModel) -> Option<
    MatchPrecedence,
>
    decreases matches.len(),
{
    if matches.len() == 0 {
        None
    } else {
        let last = if match_holds(matches.last(), request) {
            Some(rank_of(matches.last()))
        } else {
            None
        };
        higher(last, highest_rank(matches.drop_last(), request))
    }
}

/// The rank of a rule for a request, `None` where the rule does not match it.
/// A rule without matches matches every request, with the lowest rank; else
/// one match that holds is enough, and the highest of those counts.
pub open spec fn rule_rank(rule: RouteRule, request: RequestModel) -> Option<MatchPrecedence> {
    if rule.matches@.len() == 0 {
        Some(lowest_rank())
    } else {
        highest_rank(rule.matches@, request)
    }
}

/// The rank of the rule for the request, `None` where it does not match.
pub fn rule_matches(rule: &RouteRule, request: &RequestMeta<'_>) -> (r: Option<MatchPrecedence>)
    ensures
        r == rule_rank(*rule, request@),
{
    if rule.matches.len() == 0 {
        return Some(
            MatchPrecedence {
                path_kind: 0,
                path_length: 0,
                has_method: false,
                header_count: 0,
                query_param_count: 0,
            },
        );
    }
    let mut best: Option<MatchPrecedence> = None;
    let mut i: usize = 0;
    while i < rule.matches.len()
        invariant
            i <= rule.matches@.len(),
            best == highest_rank(rule.matches@.take(i as int), request@),
        decreases rule.matches.len() - i,
    {
        assert(rule.matches@.take(i + 1).drop_last() =~= rule.matches@.take(i as int));
        if let Some(rank) = single_match_applies(&rule.matches[i], request) {
            let better = match &best {
                None => true,
                Some(b) => precedence_beats(&rank, b),
            };
            if better {
                best = Some(rank);
            }
        }
        i += 1;
    }
    assert(rule.matches@.take(i as int) =~= rule.matches@);
    best
}

// ---------------------------------------------------------------------------
// The winning rule
// ---------------------------------------------------------------------------

/// The rules that a request may reach at a listener: those of the attached
/// routes that take its host, in the order of the configuration.
pub open spec fn reachable_rules(
    routes: Seq<RouteConfig>,
    listener: Seq<char>,
    host: Option<Seq<char>>,
) -> Seq<RouteRule>
    decreases routes.len(),
{
    if routes.len() == 0 {
        Seq::empty()
    } else {
        let before = reachable_rules(routes.drop_last(), listener, host);
        if routes.last().is_attached_to(listener) && hostnames_cover(routes.last().hostnames@, host) {
            before + routes.last().rules@
        } else {
            before
        }
    }
}

/// Whether rule `w` of `rules` serves the request: it matches, no rule that
/// matches ranks above it, and it ranks above every matching rule before it.
pub open spec fn wins(rules: Seq<RouteRule>, request: RequestModel, w: int) -> bool {
    &&& 0 <= w < rules.len()
    &&& rule_rank(rules[w], request) is Some
    &&& forall|i: int|
        0 <= i < rules.len() && (#[trigger] rule_rank(rules[i], request)) is Some ==> !outranks(
            rule_rank(rules[i], request)->0,
            rule_rank(rules[w], request)->0,
        )
    &&& forall|i: int|
        0 <= i < w && (#[trigger] rule_rank(rules[i], request)) is Some ==> outranks(
            rule_rank(rules[w], request)->0,
            rule_rank(rules[i], request)->0,
        )
}

/// Whether no rule matches the request.
pub open spec fn none_matches(rules: Seq<RouteRule>, request: RequestModel) -> bool {
    forall|i: int| 0 <= i < rules.len() ==> (#[trigger] rule_rank(rules[i], request)) is None
}

/// The URL that a redirect points to.
pub open spec fn redirect_location(
    scheme: Option<Seq<char>>,
    hostname: Option<Seq<char>>,
    port: Option<u16>,
    path: Option<PathModifier>,
    request: RequestModel,
) -> Seq<char> {
    let scheme_text = match scheme {
        Some(s) => s,
        None => "http"@,
    };
    let host_text = match hostname {
        Some(h) => h,
        None => match request.host {
            Some(h) => h,
            None => "localhost"@,
        },
    };
    let path_text = match path {
        Some(PathModifier::ReplaceFullPath { value }) => value@,
        Some(PathModifier::ReplacePrefixMatch { value }) => value@,
        None => request.path,
    };
    let port_text = match port {
        Some(p) => ":"@ + text::decimal(p as nat),
        None => Seq::empty(),
    };
    scheme_text + "://"@ + host_text + port_text + path_text
}

/// The position of the first redirect among filters.
pub open spec fn first_redirect(filters: Seq<Filter>, at: int) -> bool {
    &&& 0 <= at < filters.len()
    &&& filters[at] is RequestRedirect
    &&& forall|i: int| 0 <= i < at ==> !(#[trigger] filters[i] is RequestRedirect)
}

/// Whether the rule redirects.
pub open spec fn redirects(rule: RouteRule) -> bool {
    exists|at: int| first_redirect(rule.filters@, at)
}

/// What a redirect filter tells the client.
pub open spec fn redirect_of(filter: Filter, request: RequestModel) -> (u16, Seq<char>) {
    match filter {
        Filter::RequestRedirect { scheme, hostname, port, path, status_code } => (
            match status_code {
                Some(code) => code,
                None => 302,
            },
            redirect_location(text::opt_owned(scheme), text::opt_owned(hostname), port, path, request),
        ),
        _ => arbitrary(),
    }
}

/// Whether `decision` is what the rule makes of the request: its first
/// redirect if it has one, else its backends, filters and timeout.
pub open spec fn decides(rule: RouteRule, request: RequestModel, decision: RoutingDecision<'_>) -> bool {
    match decision {
        RoutingDecision::Redirect(redirect) => exists|at: int| #[trigger]
            first_redirect(rule.filters@, at) && (redirect.status_code, redirect.location@)
                == redirect_of(rule.filters@[at], request),
        RoutingDecision::Forward { backends, filters, timeout } => {
            &&& !redirects(rule)
            &&& backends@ == rule.backends@
            &&& filters@ == rule.filters@
            &&& match timeout {
                Some(t) => rule.timeout == Some(*t),
                None => rule.timeout is None,
            }
        },
        RoutingDecision::NotFound => false,
    }
}

/// The URL that a redirect with these settings points to.
pub fn build_redirect_location(
    scheme: Option<&str>,
    hostname: Option<&str>,
    port: Option<u16>,
    path: &Option<PathModifier>,
    request: &RequestMeta<'_>,
) -> (r: String)
    ensures
        r@ == redirect_location(text::opt(scheme), text::opt(hostname), port, *path, request@),
{
    let mut r = match scheme {
        Some(s) => s.to_string(),
        None => "http".to_string(),
    };
    r.append("://");
    match hostname {
        Some(h) => r.append(h),
        None => match request.host {
            Some(h) => r.append(h),
            None => r.append("localhost"),
        },
    }
    let ghost before = r@;
    if let Some(p) = port {
        r.append(":");
        let digits = text::to_decimal(p as u64);
        r.append(digits.as_str());
        assert(r@ =~= before + (":"@ + digits@));
    } else {
        assert(before + Seq::<char>::empty() =~= before);
    }
    match path {
        Some(PathModifier::ReplaceFullPath { value }) => r.append(value.as_str()),
        Some(PathModifier::ReplacePrefixMatch { value }) => r.append(value.as_str()),
        None => r.append(request.path),
    }
    r
}

/// What the rule makes of the request.
pub fn build_decision<'a>(rule: &'a RouteRule, request: &RequestMeta<'_>) -> (r: RoutingDecision<'a>)
    ensures
        decides(*rule, request@, r),
{
    let mut i: usize = 0;
    while i < rule.filters.len()
        invariant
            i <= rule.filters@.len(),
            forall|k: int| 0 <= k < i ==> !(#[trigger] rule.filters@[k] is RequestRedirect),
        decreases rule.filters.len() - i,
    {
        if let Filter::RequestRedirect { scheme, hostname, port, path, status_code } =
            &rule.filters[i] {
            let scheme_text: Option<&str> = match scheme {
                Some(s) => Some(s.as_str()),
                None => None,
            };
            let host_text: Option<&str> = match hostname {
                Some(h) => Some(h.as_str()),
                None => None,
            };
            let location = build_redirect_location(scheme_text, host_text, *port, path, request);
            let code: u16 = match status_code {
                Some(c) => *c,
                None => 302,
            };
            assert(first_redirect(rule.filters@, i as int));
            return RoutingDecision::Redirect(RedirectResponse { status_code: code, location });
        }
        i += 1;
    }
    RoutingDecision::Forward {
        backends: rule.backends.as_slice(),
        filters: rule.filters.as_slice(),
        timeout: match &rule.timeout {
            Some(t) => Some(t),
            None => None,
        },
    }
}

/// Whether `decision` is what becomes of a request at a listener: not found
/// where no reachable rule matches, else what the winning rule makes of it.
pub open spec fn is_decision(
    config: ProxyConfig,
    listener: Seq<char>,
    request: RequestModel,
    decision: RoutingDecision<'_>,
) -> bool {
    let rules = reachable_rules(config.routes@, listener, request.host);
    match decision {
        RoutingDecision::NotFound => none_matches(rules, request),
        _ => exists|w: int| #[trigger] wins(rules, request, w) && decides(
            rules[w],
            request,
            decision,
        ),
    }
}

/// What to do with a request that came in at the listener of that name.
///
/// 1. Only the routes attached to the listener count.
/// 2. Of those, only the routes that take the request's host.
/// 3. Of their rules, only those that match the request.
/// 4. Of those, the one of the highest rank wins, the first of them on a tie.
/// 5. A winner with a redirect filter redirects; any other forwards.
pub fn route<'a>(config: &'a ProxyConfig, listener_name: &str, request: &RequestMeta<'_>) -> (r:
    RoutingDecision<'a>)
    ensures
        is_decision(*config, listener_name@, request@, r),
{
    let mut best: Option<(&'a RouteRule, MatchPrecedence)> = None;
    let ghost mut seen = Seq::<RouteRule>::empty();
    let ghost mut w: int = 0;
    let mut i: usize = 0;
    assert(config.routes@.take(0) =~= Seq::empty());
    while i < config.routes.len()
        invariant
            i <= config.routes@.len(),
            seen == reachable_rules(config.routes@.take(i as int), listener_name@, request@.host),
            match best {
                None => none_matches(seen, request@),
                Some((rule, rank)) => wins(seen, request@, w) && *rule == seen[w] && rule_rank(
                    seen[w],
                    request@,
                ) == Some(rank),
            },
        decreases config.routes.len() - i,
    {
        let candidate = &config.routes[i];
        assert(config.routes@.take(i + 1).drop_last() =~= config.routes@.take(i as int));
        if config::contains_name(&candidate.attached_listeners, listener_name) && hostname_matches(
            candidate,
            request.host,
        ) {
            let ghost start = seen;
            let mut j: usize = 0;
            assert(start + candidate.rules@.take(0) =~= start);
            while j < candidate.rules.len()
                invariant
                    j <= candidate.rules@.len(),
                    seen == start + candidate.rules@.take(j as int),
                    match best {
                        None => none_matches(seen, request@),
                        Some((rule, rank)) => wins(seen, request@, w) && *rule == seen[w]
                            && rule_rank(seen[w], request@) == Some(rank),
                    },
                decreases candidate.rules.len() - j,
            {
                let rule = &candidate.rules[j];
                let ghost before = seen;
                proof {
                    seen = before.push(*rule);
                    assert(seen =~= start + candidate.rules@.take(j + 1));
                    assert forall|k: int| 0 <= k < before.len() implies seen[k] == before[k] by {}
                }
                if let Some(rank) = rule_matches(rule, request) {
                    let better = match &best {
                        None => true,
                        Some((_, b)) => precedence_beats(&rank, b),
                    };
                    if better {
                        best = Some((rule, rank));
                        proof {
                            w = before.len() as int;
                        }
                    }
                }
                j += 1;
            }
            assert(candidate.rules@.take(j as int) =~= candidate.rules@);
        }
        i += 1;
    }
    assert(config.routes@.take(i as int) =~= config.routes@);
    match best {
        Some((rule, _)) => build_decision(rule, request),
        None => RoutingDecision::NotFound,
    }
}

// ---------------------------------------------------------------------------
// Laws
// ---------------------------------------------------------------------------

/// Ranks are totally ordered: no rank is above itself, of two different ranks
/// one is above the other and not both, and the order is transitive.
pub proof fn law_ranks_are_totally_ordered(
    a: MatchPrecedence,
    b: MatchPrecedence,
    c: MatchPrecedence,
)
    ensures
        !outranks(a, a),
        a != b ==> (outranks(a, b) <==> !outranks(b, a)),
        outranks(a, b) && outranks(b, c) ==> outranks(a, c),
{
}

/// An exact path ranks above every match whose path condition is of another
/// kind or missing, whatever else the two hold.
pub proof fn law_exact_path_outranks(exact: RouteMatch, other: RouteMatch)
    requires
        exact.path matches Some(pm) && pm.match_type == PathMatchType::Exact,
        other.path matches Some(pm) ==> pm.match_type != PathMatchType::Exact,
    ensures
        outranks(rank_of(exact), rank_of(other)),
{
}

/// Of two prefix conditions the longer ranks above the shorter, whatever else
/// the two matches hold.
pub proof fn law_longer_prefix_outranks(long: RouteMatch, short: RouteMatch)
    requires
        long.path matches Some(pm) && pm.match_type == PathMatchType::PathPrefix,
        short.path matches Some(pm) && pm.match_type == PathMatchType::PathPrefix,
        byte_len(long.path->0.value@) > byte_len(short.path->0.value@),
    ensures
        outranks(rank_of(long), rank_of(short)),
{
}

/// The rank of a rule is that of one of its matches that hold, and none of
/// its matches that hold ranks above it. It has no rank only if none holds.
pub proof fn law_highest_rank_is_highest(matches: Seq<RouteMatch>, request: RequestModel)
    ensures
        match highest_rank(matches, request) {
            None => forall|i: int|
                0 <= i < matches.len() ==> !match_holds(#[trigger] matches[i], request),
            Some(rank) => {
                &&& exists|i: int|
                    0 <= i < matches.len() && match_holds(#[trigger] matches[i], request)
                        && rank_of(matches[i]) == rank
                &&& forall|i: int|
                    0 <= i < matches.len() && match_holds(#[trigger] matches[i], request)
                        ==> !outranks(rank_of(matches[i]), rank)
            },
        },
    decreases matches.len(),
{
    if matches.len() > 0 {
        let front = matches.drop_last();
        law_highest_rank_is_highest(front, request);
        let last = matches.len() - 1;
        assert forall|i: int| 0 <= i < last implies matches[i] == front[i] by {}
        if let Some(rank) = highest_rank(matches, request) {
            if match_holds(matches[last], request) && rank_of(matches[last]) == rank {
                assert(match_holds(matches[last], request));
            } else {
                let i = choose|i: int|
                    0 <= i < front.len() && match_holds(#[trigger] front[i], request) && rank_of(
                        front[i],
                    ) == rank;
                assert(match_holds(matches[i], request));
            }
            assert forall|i: int|
                0 <= i < matches.len() && match_holds(#[trigger] matches[i], request) implies !outranks(
                rank_of(matches[i]),
                rank,
            ) by {
                if i < last {
                    assert(match_holds(front[i], request));
                }
            }
        } else {
            assert forall|i: int| 0 <= i < matches.len() implies !match_holds(
                #[trigger] matches[i],
                request,
            ) by {
                if i < last {
                    assert(!match_holds(front[i], request));
                }
            }
        }
    }
}

/// At most one rule wins.
pub proof fn law_winner_is_unique(rules: Seq<RouteRule>, request: RequestModel, v: int, w: int)
    requires
        wins(rules, request, v),
        wins(rules, request, w),
    ensures
        v == w,
{
    if v < w {
        assert(outranks(rule_rank(rules[w], request)->0, rule_rank(rules[v], request)->0));
    } else if w < v {
        assert(outranks(rule_rank(rules[v], request)->0, rule_rank(rules[w], request)->0));
    }
}

/// Where some rule matches, one wins: a request is turned away only where no
/// rule matches it.
pub proof fn law_some_rule_wins(rules: Seq<RouteRule>, request: RequestModel)
    ensures
        none_matches(rules, request) || exists|w: int| wins(rules, request, w),
    decreases rules.len(),
{
    if rules.len() > 0 {
        let front = rules.drop_last();
        let last = rules.len() - 1;
        law_some_rule_wins(front, request);
        assert forall|i: int| 0 <= i < last implies rules[i] == front[i] by {}
        if rule_rank(rules[last], request) is None {
            if exists|w: int| wins(front, request, w) {
                let w = choose|w: int| wins(front, request, w);
                assert(wins(rules, request, w));
            } else {
                assert forall|i: int| 0 <= i < rules.len() implies (#[trigger] rule_rank(
                    rules[i],
                    request,
                )) is None by {
                    if i < last {
                        assert(rule_rank(front[i], request) is None);
                    }
                }
            }
        } else if none_matches(front, request) {
            assert forall|i: int| 0 <= i < last implies (#[trigger] rule_rank(
                rules[i],
                request,
            )) is None by {
                assert(rule_rank(front[i], request) is None);
            }
            assert(wins(rules, request, last));
        } else {
            let w = choose|w: int| wins(front, request, w);
            let top = rule_rank(front[w], request)->0;
            let new = rule_rank(rules[last], request)->0;
            assert forall|i: int|
                0 <= i < last && (#[trigger] rule_rank(rules[i], request)) is Some implies !outranks(
                rule_rank(rules[i], request)->0,
                top,
            ) by {
                assert(rule_rank(front[i], request) is Some);
            }
            if outranks(new, top) {
                assert(wins(rules, request, last));
            } else {
                assert(wins(rules, request, w));
            }
        }
    }
}

/// Whether some match of some rule holds and has that rank of path.
pub open spec fn matched_at(
    rules: Seq<RouteRule>,
    request: RequestModel,
    i: int,
    k: int,
    kind: u8,
) -> bool {
    &&& 0 <= i < rules.len()
    &&& 0 <= k < rules[i].matches@.len()
    &&& match_holds(rules[i].matches@[k], request)
    &&& rank_of(rules[i].matches@[k]).path_kind == kind
}

proof fn lemma_winner_is_not_below(
    rules: Seq<RouteRule>,
    request: RequestModel,
    w: int,
    i: int,
    k: int,
)
    requires
        wins(rules, request, w),
        0 <= i < rules.len(),
        0 <= k < rules[i].matches@.len(),
        match_holds(rules[i].matches@[k], request),
    ensures
        !outranks(rank_of(rules[i].matches@[k]), rule_rank(rules[w], request)->0),
{
    law_highest_rank_is_highest(rules[i].matches@, request);
    let m = rules[i].matches@[k];
    assert(rule_rank(rules[i], request) is Some);
    let r = rule_rank(rules[i], request)->0;
    law_ranks_are_totally_ordered(rank_of(m), r, rule_rank(rules[w], request)->0);
    law_ranks_are_totally_ordered(r, rank_of(m), rule_rank(rules[w], request)->0);
}

/// Where an exact path matches, an exact path wins.
pub proof fn law_exact_paths_win(
    rules: Seq<RouteRule>,
    request: RequestModel,
    w: int,
    i: int,
    k: int,
)
    requires
        wins(rules, request, w),
        matched_at(rules, request, i, k, 2),
    ensures
        rule_rank(rules[w], request)->0.path_kind == 2,
{
    lemma_winner_is_not_below(rules, request, w, i, k);
    lemma_ranks_of_paths(rules[w], request);
}

proof fn lemma_ranks_of_paths(rule: RouteRule, request: RequestModel)
    requires
        rule_rank(rule, request) is Some,
    ensures
        rule_rank(rule, request)->0.path_kind <= 2,
{
    law_highest_rank_is_highest(rule.matches@, request);
}

/// Where no exact path matches but a prefix does, a prefix wins, and none that
/// is shorter.
pub proof fn law_longest_prefixes_win(
    rules: Seq<RouteRule>,
    request: RequestModel,
    w: int,
    i: int,
    k: int,
)
    requires
        wins(rules, request, w),
        matched_at(rules, request, i, k, 1),
        forall|a: int, b: int| !matched_at(rules, request, a, b, 2),
    ensures
        rule_rank(rules[w], request)->0.path_kind == 1,
        rule_rank(rules[w], request)->0.path_length >= rank_of(
            rules[i].matches@[k],
        ).path_length,
{
    lemma_winner_is_not_below(rules, request, w, i, k);
    law_highest_rank_is_highest(rules[w].matches@, request);
    let top = rule_rank(rules[w], request)->0;
    if rules[w].matches@.len() > 0 {
        let b = choose|b: int|
            0 <= b < rules[w].matches@.len() && match_holds(
                #[trigger] rules[w].matches@[b],
                request,
            ) && rank_of(rules[w].matches@[b]) == top;
        assert(!matched_at(rules, request, w, b, 2));
    }
}

/// Routes that are not attached to the listener change nothing.
pub proof fn law_only_attached_routes_count(
    routes: Seq<RouteConfig>,
    listener: Seq<char>,
    host: Option<Seq<char>>,
)
    ensures
        reachable_rules(routes, listener, host) == reachable_rules(
            config::attached_routes(routes, listener),
            listener,
            host,
        ),
    decreases routes.len(),
{
    if routes.len() > 0 {
        law_only_attached_routes_count(routes.drop_last(), listener, host);
        let before = config::attached_routes(routes.drop_last(), listener);
        if routes.last().is_attached_to(listener) {
            assert(before.push(routes.last()).drop_last() =~= before);
        }
    }
}

/// A route without host names takes every request, also one without a host.
pub proof fn law_no_hostnames_takes_all(host: Option<Seq<char>>)
    ensures
        hostnames_cover(Seq::empty(), host),
{
}

/// A request without a host reaches no route that has host names.
pub proof fn law_hostnames_need_a_host(hostnames: Seq<String>)
    requires
        hostnames.len() > 0,
    ensures
        !hostnames_cover(hostnames, None),
{
}

/// The case of ASCII letters plays no part in host names, neither in the
/// pattern nor in the host.
pub proof fn law_hostnames_ignore_case(
    pattern: Seq<char>,
    pattern2: Seq<char>,
    host: Seq<char>,
    host2: Seq<char>,
)
    requires
        text::same_ignoring_case(pattern, pattern2),
        text::same_ignoring_case(host, host2),
    ensures
        pattern_covers(pattern, host) == pattern_covers(pattern2, host2),
{
    assert(text::lower(pattern).len() == pattern.len());
    assert(text::lower(pattern2).len() == pattern2.len());
    assert forall|i: int| 0 <= i < pattern.len() implies text::lower_char(#[trigger] pattern[i])
        == text::lower_char(pattern2[i]) by {
        assert(text::lower(pattern)[i] == text::lower(pattern2)[i]);
    }
    if pattern.len() >= 2 {
        assert(text::lower(pattern)[0] == text::lower(pattern2)[0]);
        assert(text::lower(pattern)[1] == text::lower(pattern2)[1]);
        assert(is_wildcard(pattern) == is_wildcard(pattern2));
        assert(text::lower(pattern.skip(2)) =~= text::lower(pattern).skip(2));
        assert(text::lower(pattern2.skip(2)) =~= text::lower(pattern2).skip(2));
    }
}

/// A wildcard stands for exactly one label: in front of a dot and the rest of
/// the pattern, `front` is taken where it is one label, and only there. So
/// `*.example.com` takes `foo.example.com` but not `foo.bar.example.com`.
pub proof fn law_wildcard_takes_one_label(rest: Seq<char>, front: Seq<char>)
    ensures
        pattern_covers("*."@ + rest, front + seq!['.'] + rest) <==> is_label(front),
{
    reveal_strlit("*.");
    let pattern = "*."@ + rest;
    let host = front + seq!['.'] + rest;
    assert(is_wildcard(pattern));
    assert(pattern.skip(2) =~= rest);
    let low = text::lower(front);
    assert(text::lower(host) =~= low + seq!['.'] + text::lower(rest));
    lemma_lower_keeps_dots(front);
    if is_label(front) {
        assert(is_label(low));
    }
    if pattern_covers(pattern, host) {
        let label = choose|label: Seq<char>| #[trigger]
            is_label(label) && text::lower(host) == label + seq!['.'] + text::lower(rest);
        assert(label.len() == low.len());
        assert(label =~= low) by {
            assert forall|i: int| 0 <= i < label.len() implies label[i] == low[i] by {
                assert((label + seq!['.'] + text::lower(rest))[i] == label[i]);
                assert((low + seq!['.'] + text::lower(rest))[i] == low[i]);
            }
        }
    }
}

/// A wildcard does not take the rest of its pattern alone: `*.example.com`
/// does not take `example.com`.
pub proof fn law_wildcard_needs_a_label(rest: Seq<char>)
    ensures
        !pattern_covers("*."@ + rest, rest),
{
    reveal_strlit("*.");
    let pattern = "*."@ + rest;
    assert(is_wildcard(pattern));
    assert(pattern.skip(2) =~= rest);
    if pattern_covers(pattern, rest) {
        let label = choose|label: Seq<char>| #[trigger]
            is_label(label) && text::lower(rest) == label + seq!['.'] + text::lower(rest);
        assert((label + seq!['.'] + text::lower(rest)).len() > text::lower(rest).len());
    }
}

proof fn lemma_lower_keeps_dots(s: Seq<char>)
    ensures
        text::lower(s).contains('.') <==> s.contains('.'),
{
    if s.contains('.') {
        let i = s.index_of('.');
        assert(text::lower(s)[i] == '.');
    }
    if text::lower(s).contains('.') {
        let i = text::lower(s).index_of('.');
        assert(text::lower_char(s[i]) == '.');
        assert(s[i] == '.');
    }
}

/// The prefix `/` takes every path.
pub proof fn law_root_prefix_takes_all(path: Seq<char>)
    ensures
        prefix_covers("/"@, path),
{
    reveal_strlit("/");
    assert("/"@ =~= seq!['/']);
}

/// Any other prefix takes what goes on behind it only at a segment's end.
pub proof fn law_prefix_ends_at_a_segment(prefix: Seq<char>, rest: Seq<char>)
    requires
        prefix != "/"@,
    ensures
        prefix_covers(prefix, prefix + rest) <==> (rest.len() == 0 || rest[0] == '/'),
{
    reveal_strlit("/");
    assert("/"@ =~= seq!['/']);
    let path = prefix + rest;
    if rest.len() == 0 {
        assert(path =~= prefix);
    } else {
        assert(path[prefix.len() as int] == rest[0]);
        if rest[0] == '/' {
            assert(path.take(prefix.len() as int + 1) =~= prefix.push('/'));
        } else if prefix.push('/').is_prefix_of(path) {
            assert(prefix.push('/')[prefix.len() as int] == '/');
        }
    }
}

/// A path that a prefix takes starts with that prefix.
pub proof fn law_prefix_stands_in_front(prefix: Seq<char>, path: Seq<char>)
    requires
        prefix_covers(prefix, path),
        prefix != "/"@,
    ensures
        prefix.is_prefix_of(path),
{
    reveal_strlit("/");
    assert("/"@ =~= seq!['/']);
    if path != prefix {
        assert(prefix.push('/').is_prefix_of(path));
        assert(path.take(prefix.len() as int) =~= prefix.push('/').take(prefix.len() as int));
        assert(prefix.push('/').take(prefix.len() as int) =~= prefix);
    } else {
        assert(path.take(prefix.len() as int) =~= prefix);
    }
}

/// The names of methods are compared without regard to case.
pub proof fn law_methods_ignore_case(m: RouteMatch, a: RequestModel, b: RequestModel)
    requires
        text::same_ignoring_case(a.method, b.method),
        a == (RequestModel { method: a.method, ..b }),
    ensures
        match_holds(m, a) == match_holds(m, b),
{
    assert(forall|hm: HeaderMatch| header_condition_met(hm, a) == header_condition_met(hm, b));
    assert(forall|q: QueryParamMatch| query_condition_met(q, a) == query_condition_met(q, b));
}

// -- Which of two matches counts for more ------------------------------------

/// A prefix ranks above every match whose path condition is a regular
/// expression or missing, whatever else the two hold.
pub proof fn law_prefix_outranks(prefix: RouteMatch, other: RouteMatch)
    requires
        prefix.path matches Some(pm) && pm.match_type == PathMatchType::PathPrefix,
        other.path matches Some(pm) ==> pm.match_type == PathMatchType::RegularExpression,
    ensures
        outranks(rank_of(prefix), rank_of(other)),
{
}

/// Of two path conditions of the same kind the longer ranks above the shorter,
/// whatever else the two matches hold.
pub proof fn law_longer_path_outranks(long: RouteMatch, short: RouteMatch)
    requires
        long.path is Some && short.path is Some,
        long.path->0.match_type == short.path->0.match_type,
        byte_len(long.path->0.value@) > byte_len(short.path->0.value@),
    ensures
        outranks(rank_of(long), rank_of(short)),
{
}

/// Whether the path conditions of two matches are alike: both missing, or of
/// the same kind with the same value.
pub open spec fn same_path_condition(a: RouteMatch, b: RouteMatch) -> bool {
    match (a.path, b.path) {
        (None, None) => true,
        (Some(p), Some(q)) => p.match_type == q.match_type && p.value@ == q.value@,
        _ => false,
    }
}

/// At the same path, a match with a method condition ranks above one without,
/// whatever header and query parameter conditions the two have.
pub proof fn law_method_outranks(with: RouteMatch, without: RouteMatch)
    requires
        same_path_condition(with, without),
        with.method is Some,
        without.method is None,
    ensures
        outranks(rank_of(with), rank_of(without)),
{
}

/// At the same path, and both with or both without a method condition, more
/// header conditions rank above fewer, whatever query parameter conditions the
/// two have.
pub proof fn law_more_headers_outrank(more: RouteMatch, fewer: RouteMatch)
    requires
        same_path_condition(more, fewer),
        more.method is Some <==> fewer.method is Some,
        more.headers@.len() > fewer.headers@.len(),
    ensures
        outranks(rank_of(more), rank_of(fewer)),
{
}

/// At the same path, both with or both without a method condition and with as
/// many header conditions, more query parameter conditions rank above fewer.
pub proof fn law_more_query_params_outrank(more: RouteMatch, fewer: RouteMatch)
    requires
        same_path_condition(more, fewer),
        more.method is Some <==> fewer.method is Some,
        more.headers@.len() == fewer.headers@.len(),
        more.query_params@.len() > fewer.query_params@.len(),
    ensures
        outranks(rank_of(more), rank_of(fewer)),
{
}

/// Two matches that agree on all that ranks go by are equal in rank: neither
/// the values of their conditions nor the names in them count.
pub proof fn law_equal_matches_rank_equal(a: RouteMatch, b: RouteMatch)
    requires
        same_path_condition(a, b),
        a.method is Some <==> b.method is Some,
        a.headers@.len() == b.headers@.len(),
        a.query_params@.len() == b.query_params@.len(),
    ensures
        rank_of(a) == rank_of(b),
{
}

/// Whether every match of a rule that holds for the request is below `above`
/// only by what comes after the path: it has no method condition where `above`
/// has one, or else fewer header conditions, or else fewer query parameter
/// conditions.
pub open spec fn all_less_specific(
    rule: RouteRule,
    request: RequestModel,
    above: RouteMatch,
) -> bool {
    forall|k: int|
        0 <= k < rule.matches@.len() && match_holds(#[trigger] rule.matches@[k], request) ==> {
            let m = rule.matches@[k];
            &&& same_path_condition(m, above)
            &&& {
                ||| above.method is Some && m.method is None
                ||| (above.method is Some <==> m.method is Some) && above.headers@.len()
                    > m.headers@.len()
                ||| (above.method is Some <==> m.method is Some) && above.headers@.len()
                    == m.headers@.len() && above.query_params@.len() > m.query_params@.len()
            }
        }
}

/// Where a match of some rule holds, no rule wins all of whose matches that
/// hold have the same path and are less specific: without its method condition,
/// with fewer headers, or with fewer query parameters.
pub proof fn law_less_specific_rules_do_not_win(
    rules: Seq<RouteRule>,
    request: RequestModel,
    v: int,
    i: int,
    k: int,
)
    requires
        0 <= v < rules.len(),
        rules[v].matches@.len() > 0,
        0 <= i < rules.len(),
        0 <= k < rules[i].matches@.len(),
        match_holds(rules[i].matches@[k], request),
        all_less_specific(rules[v], request, rules[i].matches@[k]),
    ensures
        !wins(rules, request, v),
{
    if wins(rules, request, v) {
        lemma_winner_is_not_below(rules, request, v, i, k);
        law_highest_rank_is_highest(rules[v].matches@, request);
        let top = rule_rank(rules[v], request)->0;
        let b = choose|b: int|
            0 <= b < rules[v].matches@.len() && match_holds(
                #[trigger] rules[v].matches@[b],
                request,
            ) && rank_of(rules[v].matches@[b]) == top;
        assert(match_holds(rules[v].matches@[b], request));
        assert(same_path_condition(rules[v].matches@[b], rules[i].matches@[k]));
    }
}

/// Where a match with an exact path holds, no rule wins that has none that
/// holds.
pub proof fn law_rules_without_the_exact_path_do_not_win(
    rules: Seq<RouteRule>,
    request: RequestModel,
    v: int,
    i: int,
    k: int,
)
    requires
        0 <= v < rules.len(),
        forall|b: int|
            0 <= b < rules[v].matches@.len() && match_holds(
                #[trigger] rules[v].matches@[b],
                request,
            ) ==> (rules[v].matches@[b].path matches Some(pm) ==> pm.match_type
                != PathMatchType::Exact),
        0 <= i < rules.len(),
        0 <= k < rules[i].matches@.len(),
        match_holds(rules[i].matches@[k], request),
        rules[i].matches@[k].path matches Some(pm) && pm.match_type == PathMatchType::Exact,
    ensures
        !wins(rules, request, v),
{
    if wins(rules, request, v) {
        lemma_winner_is_not_below(rules, request, v, i, k);
        law_highest_rank_is_highest(rules[v].matches@, request);
        if rules[v].matches@.len() > 0 {
            let top = rule_rank(rules[v], request)->0;
            let b = choose|b: int|
                0 <= b < rules[v].matches@.len() && match_holds(
                    #[trigger] rules[v].matches@[b],
                    request,
                ) && rank_of(rules[v].matches@[b]) == top;
            assert(match_holds(rules[v].matches@[b], request));
            law_exact_path_outranks(rules[i].matches@[k], rules[v].matches@[b]);
        }
    }
}

/// Where a prefix holds, no rule wins all of whose matches that hold have a
/// shorter prefix, a regular expression or no path condition.
pub proof fn law_rules_with_shorter_prefixes_do_not_win(
    rules: Seq<RouteRule>,
    request: RequestModel,
    v: int,
    i: int,
    k: int,
)
    requires
        0 <= v < rules.len(),
        0 <= i < rules.len(),
        0 <= k < rules[i].matches@.len(),
        match_holds(rules[i].matches@[k], request),
        rules[i].matches@[k].path matches Some(pm) && pm.match_type == PathMatchType::PathPrefix,
        forall|b: int|
            0 <= b < rules[v].matches@.len() && match_holds(
                #[trigger] rules[v].matches@[b],
                request,
            ) ==> (rules[v].matches@[b].path matches Some(pm) ==> {
                ||| pm.match_type == PathMatchType::RegularExpression
                ||| pm.match_type == PathMatchType::PathPrefix && byte_len(pm.value@) < byte_len(
                    rules[i].matches@[k].path->0.value@,
                )
            }),
    ensures
        !wins(rules, request, v),
{
    if wins(rules, request, v) {
        lemma_winner_is_not_below(rules, request, v, i, k);
        law_highest_rank_is_highest(rules[v].matches@, request);
        if rules[v].matches@.len() > 0 {
            let top = rule_rank(rules[v], request)->0;
            let b = choose|b: int|
                0 <= b < rules[v].matches@.len() && match_holds(
                    #[trigger] rules[v].matches@[b],
                    request,
                ) && rank_of(rules[v].matches@[b]) == top;
            assert(match_holds(rules[v].matches@[b], request));
        }
    }
}

/// Of two rules with the same matches the later never wins.
pub proof fn law_the_first_of_equal_rules_wins(
    rules: Seq<RouteRule>,
    request: RequestModel,
    first: int,
    later: int,
)
    requires
        0 <= first < later < rules.len(),
        rules[first].matches@ == rules[later].matches@,
    ensures
        !wins(rules, request, later),
{
    if wins(rules, request, later) {
        assert(rule_rank(rules[first], request) == rule_rank(rules[later], request));
        assert(outranks(rule_rank(rules[later], request)->0, rule_rank(rules[first], request)->0));
    }
}

/// A rule without matches takes every request, and wins only where no match
/// with any condition on the method, headers or query parameters, or a path
/// condition that is not empty, holds.
pub proof fn law_rules_without_matches_take_all(
    rules: Seq<RouteRule>,
    request: RequestModel,
    v: int,
    i: int,
    k: int,
)
    requires
        0 <= v < rules.len(),
        rules[v].matches@.len() == 0,
    ensures
        !none_matches(rules, request),
        0 <= i < rules.len() && 0 <= k < rules[i].matches@.len() && match_holds(
            rules[i].matches@[k],
            request,
        ) && {
            let m = rules[i].matches@[k];
            ||| m.method is Some
            ||| m.headers@.len() > 0
            ||| m.query_params@.len() > 0
            ||| m.path matches Some(pm) && (pm.match_type != PathMatchType::RegularExpression
                || byte_len(pm.value@) > 0)
        } ==> !wins(rules, request, v),
{
    assert(rule_rank(rules[v], request) is Some);
    if 0 <= i < rules.len() && 0 <= k < rules[i].matches@.len() && match_holds(
        rules[i].matches@[k],
        request,
    ) && wins(rules, request, v) {
        lemma_winner_is_not_below(rules, request, v, i, k);
    }
}

/// A rule with matches takes exactly the requests for which one of them holds.
pub proof fn law_one_match_is_enough(rule: RouteRule, request: RequestModel)
    requires
        rule.matches@.len() > 0,
    ensures
        rule_rank(rule, request) is Some <==> exists|k: int|
            0 <= k < rule.matches@.len() && match_holds(#[trigger] rule.matches@[k], request),
{
    law_highest_rank_is_highest(rule.matches@, request);
}

// -- When a match holds ------------------------------------------------------

/// A match without conditions holds for every request.
pub proof fn law_matches_without_conditions_hold(m: RouteMatch, request: RequestModel)
    requires
        m.path is None,
        m.method is None,
        m.headers@.len() == 0,
        m.query_params@.len() == 0,
    ensures
        match_holds(m, request),
{
}

/// All conditions of a match must be met: it holds for a request exactly where
/// the match without its path condition holds and the path is met, and likewise
/// for the method.
pub proof fn law_path_and_method_must_both_be_met(
    m: RouteMatch,
    without_path: RouteMatch,
    without_method: RouteMatch,
    request: RequestModel,
)
    requires
        m.path is Some,
        m.method is Some,
        without_path == (RouteMatch { path: None, ..m }),
        without_method == (RouteMatch { method: None, ..m }),
    ensures
        match_holds(m, request) <==> match_holds(without_path, request) && path_covers(
            m.path->0.match_type,
            m.path->0.value@,
            request.path,
        ),
        match_holds(m, request) <==> match_holds(without_method, request)
            && text::same_ignoring_case(request.method, m.method->0@),
{
    assert(without_path.headers@ == m.headers@ && without_method.headers@ == m.headers@);
    assert(without_path.query_params@ == m.query_params@);
    assert(without_method.query_params@ == m.query_params@);
    assert(match_holds(m, request) ==> match_holds(without_path, request) && match_holds(
        without_method,
        request,
    ));
}

/// A match holds only where some header of the request has the name of each
/// header condition, up to case, and, where the condition is exact, its value.
pub proof fn law_every_header_condition_needs_a_header(
    m: RouteMatch,
    request: RequestModel,
    k: int,
)
    requires
        match_holds(m, request),
        0 <= k < m.headers@.len(),
    ensures
        exists|i: int|
            0 <= i < request.headers.len() && text::lower((#[trigger] request.headers[i]).0)
                == text::lower(m.headers@[k].name@) && (m.headers@[k].match_type
                == HeaderMatchType::Exact ==> request.headers[i].1 == m.headers@[k].value@) && (
            m.headers@[k].match_type == HeaderMatchType::RegularExpression ==> regex_search(
                m.headers@[k].value@,
                request.headers[i].1,
            ) == Some(true)),
{
    assert(header_condition_met(m.headers@[k], request));
    let i = choose|i: int|
        0 <= i < request.headers.len() && #[trigger] header_covers(
            m.headers@[k],
            request.headers[i],
        );
    assert(header_covers(m.headers@[k], request.headers[i]));
}

/// A match holds only where some query parameter of the request has the name of
/// each query parameter condition, to the letter, and, where the condition is
/// exact, its value.
pub proof fn law_every_query_condition_needs_a_parameter(
    m: RouteMatch,
    request: RequestModel,
    k: int,
)
    requires
        match_holds(m, request),
        0 <= k < m.query_params@.len(),
    ensures
        exists|i: int|
            0 <= i < request.query_params.len() && (#[trigger] request.query_params[i]).0
                == m.query_params@[k].name@ && (m.query_params@[k].match_type
                == QueryParamMatchType::Exact ==> request.query_params[i].1
                == m.query_params@[k].value@) && (m.query_params@[k].match_type
                == QueryParamMatchType::RegularExpression ==> regex_search(
                m.query_params@[k].value@,
                request.query_params[i].1,
            ) == Some(true)),
{
    assert(query_condition_met(m.query_params@[k], request));
    let i = choose|i: int|
        0 <= i < request.query_params.len() && #[trigger] query_param_covers(
            m.query_params@[k],
            request.query_params[i],
        );
    assert(query_param_covers(m.query_params@[k], request.query_params[i]));
}

/// A request whose headers hold, for each header condition, one with its name
/// (in any case) and its value meets all header conditions that are exact or
/// whose expression is found in the value; likewise for query parameters.
pub proof fn law_conditions_are_met_by_their_values(
    m: RouteMatch,
    request: RequestModel,
    at_header: spec_fn(int) -> int,
    at_param: spec_fn(int) -> int,
)
    requires
        m.path is None,
        m.method is None,
        forall|k: int| #![trigger m.headers@[k]]
            0 <= k < m.headers@.len() ==> {
                let i = at_header(k);
                &&& 0 <= i < request.headers.len()
                &&& text::lower(request.headers[i].0) == text::lower(m.headers@[k].name@)
                &&& if m.headers@[k].match_type == HeaderMatchType::Exact {
                    request.headers[i].1 == m.headers@[k].value@
                } else {
                    regex_search(m.headers@[k].value@, request.headers[i].1) == Some(true)
                }
            },
        forall|k: int| #![trigger m.query_params@[k]]
            0 <= k < m.query_params@.len() ==> {
                let i = at_param(k);
                &&& 0 <= i < request.query_params.len()
                &&& request.query_params[i].0 == m.query_params@[k].name@
                &&& if m.query_params@[k].match_type == QueryParamMatchType::Exact {
                    request.query_params[i].1 == m.query_params@[k].value@
                } else {
                    regex_search(m.query_params@[k].value@, request.query_params[i].1) == Some(true)
                }
            },
    ensures
        match_holds(m, request),
{
    assert forall|k: int| 0 <= k < m.headers@.len() implies header_condition_met(
        #[trigger] m.headers@[k],
        request,
    ) by {
        assert(header_covers(m.headers@[k], request.headers[at_header(k)]));
    }
    assert forall|k: int| 0 <= k < m.query_params@.len() implies query_condition_met(
        #[trigger] m.query_params@[k],
        request,
    ) by {
        assert(query_param_covers(m.query_params@[k], request.query_params[at_param(k)]));
    }
}

/// An exact path condition is met by its own value and by no other path, down
/// to the case of a letter or a slash at the end.
pub proof fn law_exact_paths_take_one_path(value: Seq<char>, path: Seq<char>)
    ensures
        path_covers(PathMatchType::Exact, value, path) <==> path == value,
{
}

/// A regular expression is met where it is found in the path. One that cannot
/// be read is met by no path.
pub proof fn law_regular_expressions_are_searched(value: Seq<char>, path: Seq<char>)
    ensures
        regex_search(value, path) == Some(true) ==> path_covers(
            PathMatchType::RegularExpression,
            value,
            path,
        ),
        regex_search(value, path) != Some(true) ==> !path_covers(
            PathMatchType::RegularExpression,
            value,
            path,
        ),
{
}

/// The port behind a host does not count, nor does an address in brackets lose
/// any of its parts.
pub proof fn law_ports_do_not_count(name: Seq<char>, port: Seq<char>)
    requires
        !port.contains(':'),
        name.len() > 0 ==> name[0] != '[',
    ensures
        host_without_port(name + seq![':'] + port) == name,
        !name.contains(':') ==> host_without_port(name) == name,
        host_without_port(seq!['['] + name) == seq!['['] + name,
{
    let host = name + seq![':'] + port;
    assert(host[name.len() as int] == ':');
    assert(host.contains(':'));
    let at = host.index_of_last(':');
    assert(at == Some(name.len() as int)) by {
        host.index_of_last_ensures(':');
        assert forall|j: int| name.len() < j < host.len() implies host[j] != ':' by {
            assert(host[j] == port[j - name.len() - 1]);
        }
    }
    assert(host.take(name.len() as int) =~= name);
    if name.len() > 0 {
        assert(host[0] == name[0]);
    }
    if !name.contains(':') {
        name.index_of_last_ensures(':');
    }
}

/// A host name without a wildcard stands for itself alone, up to case.
pub proof fn law_plain_hostnames_stand_for_themselves(pattern: Seq<char>, host: Seq<char>)
    requires
        !(pattern.len() >= 2 && pattern[0] == '*' && pattern[1] == '.'),
    ensures
        pattern_covers(pattern, host) <==> text::lower(pattern) == text::lower(host),
{
}

/// One host name that stands for the host is enough for a route to take it, and
/// one is needed.
pub proof fn law_one_hostname_is_enough(hostnames: Seq<String>, host: Seq<char>)
    requires
        hostnames.len() > 0,
    ensures
        hostnames_cover(hostnames, Some(host)) <==> exists|i: int|
            0 <= i < hostnames.len() && pattern_covers(
                (#[trigger] hostnames[i])@,
                host_without_port(host),
            ),
{
    if exists|i: int|
        0 <= i < hostnames.len() && pattern_covers(
            (#[trigger] hostnames[i])@,
            host_without_port(host),
        ) {
        let i = choose|i: int|
            0 <= i < hostnames.len() && pattern_covers(
                (#[trigger] hostnames[i])@,
                host_without_port(host),
            );
        assert(pattern_covers(hostnames[i]@, host_without_port(Some(host)->0)));
    }
    if hostnames_cover(hostnames, Some(host)) {
        let i = choose|i: int|
            0 <= i < hostnames.len() && #[trigger] pattern_covers(
                hostnames[i]@,
                host_without_port(Some(host)->0),
            );
        assert(pattern_covers(hostnames[i]@, host_without_port(host)));
    }
}

/// The rules of a route are reached at a listener exactly where the route is
/// attached to it and takes the host; all of them are then, in their order,
/// behind those of the routes before.
pub proof fn law_rules_are_reached_through_their_route(
    routes: Seq<RouteConfig>,
    route: RouteConfig,
    listener: Seq<char>,
    host: Option<Seq<char>>,
)
    ensures
        reachable_rules(routes.push(route), listener, host) == reachable_rules(
            routes,
            listener,
            host,
        ) + if (exists|i: int|
            0 <= i < route.attached_listeners@.len() && (
            #[trigger] route.attached_listeners@[i])@ == listener) && hostnames_cover(
            route.hostnames@,
            host,
        ) {
            route.rules@
        } else {
            Seq::empty()
        },
{
    assert(routes.push(route).drop_last() =~= routes);
    let before = reachable_rules(routes, listener, host);
    assert(before + Seq::<RouteRule>::empty() =~= before);
    assert(route.is_attached_to(listener) <==> exists|i: int|
        0 <= i < route.attached_listeners@.len() && (#[trigger] route.attached_listeners@[i])@
            == listener);
}

// -- What becomes of a request -----------------------------------------------

/// A redirect with a path modifier points to the path that the modifier gives,
/// whatever the path of the request; without one it points to the path of the
/// request.
pub proof fn law_redirects_end_with_their_path(
    scheme: Option<Seq<char>>,
    hostname: Option<Seq<char>>,
    port: Option<u16>,
    path: Option<PathModifier>,
    a: RequestModel,
    b: RequestModel,
)
    requires
        a.host == b.host,
    ensures
        ({
            let to_a = redirect_location(scheme, hostname, port, path, a);
            let to_b = redirect_location(scheme, hostname, port, path, b);
            match path {
                Some(PathModifier::ReplaceFullPath { value }) => value@.is_suffix_of(to_a) && to_a
                    == to_b,
                Some(PathModifier::ReplacePrefixMatch { value }) => value@.is_suffix_of(to_a)
                    && to_a == to_b,
                None => a.path.is_suffix_of(to_a) && to_a.len() - a.path.len() == to_b.len()
                    - b.path.len() && to_a.take(to_a.len() - a.path.len()) == to_b.take(
                    to_b.len() - b.path.len(),
                ),
            }
        }),
{
    let to_a = redirect_location(scheme, hostname, port, path, a);
    let to_b = redirect_location(scheme, hostname, port, path, b);
    match path {
        Some(PathModifier::ReplaceFullPath { value }) => {
            assert(to_a.subrange(to_a.len() - value@.len(), to_a.len() as int) =~= value@);
        },
        Some(PathModifier::ReplacePrefixMatch { value }) => {
            assert(to_a.subrange(to_a.len() - value@.len(), to_a.len() as int) =~= value@);
        },
        None => {
            assert(to_a.subrange(to_a.len() - a.path.len(), to_a.len() as int) =~= a.path);
            assert(to_a.take(to_a.len() - a.path.len()) =~= to_b.take(to_b.len() - b.path.len()));
        },
    }
}

/// A redirect points to its scheme, or `http`, and its host, or that of the
/// request, or `localhost`; the port follows where, and only where, it has one.
pub proof fn law_redirects_start_with_scheme_and_host(
    scheme: Option<Seq<char>>,
    hostname: Option<Seq<char>>,
    port: Option<u16>,
    path: Option<PathModifier>,
    request: RequestModel,
    s: Seq<char>,
    h: Seq<char>,
    p: Seq<char>,
)
    requires
        scheme matches Some(given) ==> s == given,
        scheme is None ==> s == seq!['h', 't', 't', 'p'],
        hostname matches Some(given) ==> h == given,
        hostname is None && request.host is Some ==> h == request.host->0,
        hostname is None && request.host is None ==> h == "localhost"@,
        path matches Some(PathModifier::ReplaceFullPath { value }) ==> p == value@,
        path matches Some(PathModifier::ReplacePrefixMatch { value }) ==> p == value@,
        path is None ==> p == request.path,
    ensures
        ({
            let location = redirect_location(scheme, hostname, port, path, request);
            let front = s + seq![':', '/', '/'] + h;
            match port {
                None => location == front + p,
                Some(n) => location == front + seq![':'] + text::decimal(n as nat) + p,
            }
        }),
{
    reveal_strlit("http");
    reveal_strlit("://");
    reveal_strlit(":");
    assert("http"@ =~= seq!['h', 't', 't', 'p']);
    assert("://"@ =~= seq![':', '/', '/']);
    assert(":"@ =~= seq![':']);
    let location = redirect_location(scheme, hostname, port, path, request);
    let front = s + seq![':', '/', '/'] + h;
    match port {
        None => {
            assert(location =~= front + p);
        },
        Some(n) => {
            assert(location =~= front + seq![':'] + text::decimal(n as nat) + p);
        },
    }
}

/// A rule redirects exactly where one of its filters is a redirect. The client
/// is then told the status of the first redirect, 302 where it names none, and
/// the later ones play no part.
pub proof fn law_the_first_redirect_counts(
    rule: RouteRule,
    request: RequestModel,
    decision: RoutingDecision<'_>,
    at: int,
)
    requires
        decides(rule, request, decision),
        0 <= at < rule.filters@.len(),
        rule.filters@[at] is RequestRedirect,
        forall|i: int| 0 <= i < at ==> !(#[trigger] rule.filters@[i] is RequestRedirect),
    ensures
        decision is Redirect,
        decision->Redirect_0.status_code == match rule.filters@[at]->RequestRedirect_status_code {
            Some(code) => code,
            None => 302u16,
        },
        decision->Redirect_0.location@ == redirect_location(
            text::opt_owned(rule.filters@[at]->RequestRedirect_scheme),
            text::opt_owned(rule.filters@[at]->RequestRedirect_hostname),
            rule.filters@[at]->RequestRedirect_port,
            rule.filters@[at]->RequestRedirect_path,
            request,
        ),
{
    assert(first_redirect(rule.filters@, at));
    assert(redirects(rule));
    let j = choose|j: int| #[trigger]
        first_redirect(rule.filters@, j) && (
            decision->Redirect_0.status_code,
            decision->Redirect_0.location@,
        ) == redirect_of(rule.filters@[j], request);
    assert(j == at) by {
        if j < at {
            assert(!(rule.filters@[j] is RequestRedirect));
        } else if at < j {
            assert(!(rule.filters@[at] is RequestRedirect));
        }
    }
}

/// A rule without redirects forwards to its own backends, through its own
/// filters, within its own timeouts.
pub proof fn law_other_rules_forward(
    rule: RouteRule,
    request: RequestModel,
    decision: RoutingDecision<'_>,
)
    requires
        decides(rule, request, decision),
        forall|i: int|
            0 <= i < rule.filters@.len() ==> !(#[trigger] rule.filters@[i] is RequestRedirect),
    ensures
        decision matches RoutingDecision::Forward { backends, filters, timeout } && backends@
            == rule.backends@ && filters@ == rule.filters@ && (timeout is Some
            <==> rule.timeout is Some) && (timeout is Some ==> *timeout->0 == rule.timeout->0),
{
    if decision is Redirect {
        let j = choose|j: int| #[trigger]
            first_redirect(rule.filters@, j) && (
                decision->Redirect_0.status_code,
                decision->Redirect_0.location@,
            ) == redirect_of(rule.filters@[j], request);
        assert(rule.filters@[j] is RequestRedirect);
    }
}

/// A request is turned away exactly where no rule that it can reach matches;
/// else the winning rule decides.
pub proof fn law_only_unmatched_requests_are_not_found(
    config: ProxyConfig,
    listener: Seq<char>,
    request: RequestModel,
    decision: RoutingDecision<'_>,
)
    requires
        is_decision(config, listener, request, decision),
    ensures
        ({
            let rules = reachable_rules(config.routes@, listener, request.host);
            &&& decision is NotFound <==> forall|i: int|
                0 <= i < rules.len() ==> (#[trigger] rule_rank(rules[i], request)) is None
            &&& forall|w: int| #[trigger]
                wins(rules, request, w) ==> decides(rules[w], request, decision)
        }),
{
    let rules = reachable_rules(config.routes@, listener, request.host);
    law_some_rule_wins(rules, request);
    if !(decision is NotFound) {
        let v = choose|v: int| #[trigger]
            wins(rules, request, v) && decides(rules[v], request, decision);
        assert(rule_rank(rules[v], request) is Some);
        assert forall|w: int| #[trigger] wins(rules, request, w) implies decides(
            rules[w],
            request,
            decision,
        ) by {
            law_winner_is_unique(rules, request, v, w);
        }
    } else {
        assert forall|w: int| #[trigger] wins(rules, request, w) implies false by {
            assert(rule_rank(rules[w], request) is None);
        }
    }
}

/// Paths are measured in bytes.
pub proof fn law_lengths_are_in_bytes(s: Seq<char>)
    requires
        encode_utf8(s).len() <= usize::MAX,
    ensures
        byte_len(s) == encode_utf8(s).len(),
{
}

} // verus!
