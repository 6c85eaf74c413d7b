//! Routing a request and collecting the effects of its filters.

use vstd::prelude::*;
use vstd::utf8::encode_utf8;

use crate::config::{Backend, Filter, ProxyConfig, Seconds};
use crate::filter::{self, AppliedFilter, FilterEffects, RewriteModel};
use crate::headers;
use crate::pipeline::meta::{self, RequestHead, RequestMeta};
use crate::pipeline::response::{self, TextResponse};
use crate::pipeline::upstream::{self, ForwardRequest};
use crate::routing::{self, RoutingDecision};

verus! {

/// A request in the pipeline.
pub struct PipelineRequest {
    /// The request.
    pub request: RequestHead,
    /// What routing reads of it.
    pub meta: RequestMeta,
    /// The listener that it came in at.
    pub listener_name: String,
}

/// What becomes of a request once it is routed.
pub enum Dispatch {
    /// The client is answered at once.
    Answer(TextResponse),
    /// The request is forwarded, within the limit if there is one.
    Forward(ForwardRequest, Option<Seconds>),
    /// The rule rewrites a path prefix, which cannot be done here.
    PrefixRewrite,
    /// The URL of the redirect cannot stand in a header.
    BadLocation,
}

/// Whether some filter rewrites a path prefix.
pub open spec fn some_prefix_rewrite(filters: Seq<Filter>) -> bool {
    exists|i: int| 0 <= i < filters.len() && filter::rewrites_prefix(#[trigger] filters[i])
}

/// Whether some filter rewrites a path prefix.
pub fn has_prefix_rewrite(filters: &[Filter]) -> (r: bool)
    ensures
        r == some_prefix_rewrite(filters@),
{
    let mut i: usize = 0;
    while i < filters.len()
        invariant
            i <= filters@.len(),
            forall|k: int| 0 <= k < i ==> !filter::rewrites_prefix(#[trigger] filters@[k]),
        decreases filters.len() - i,
    {
        if let Filter::URLRewrite {
            path: Some(crate::config::PathModifier::ReplacePrefixMatch { .. }),
            ..
        } = &filters[i] {
            assert(filter::rewrites_prefix(filters@[i as int]));
            return true;
        }
        i += 1;
    }
    false
}

/// The rewrite of the last rewrite filter, on that path.
pub open spec fn last_rewrite(filters: Seq<Filter>, path: Seq<char>) -> Option<RewriteModel>
    decreases filters.len(),
{
    if filters.len() == 0 {
        None
    } else if filters.last() is URLRewrite {
        Some(filter::rewrite_of(filters.last(), path, None))
    } else {
        last_rewrite(filters.drop_last(), path)
    }
}

/// The effects with the rewrite computed on the path of the request.
pub fn recompute_rewrite(filters: &[Filter], meta: &RequestMeta, applied: AppliedFilter) -> (r:
    AppliedFilter)
    requires
        forall|i: int|
            0 <= i < filters@.len() && (#[trigger] filters@[i]) is URLRewrite
                ==> filter::path_change_applies(filters@[i]->URLRewrite_path, meta@.path, None),
    ensures
        r@ == (FilterEffects {
            rewrite: match last_rewrite(filters@, meta@.path) {
                Some(rewrite) => Some(rewrite),
                None => applied@.rewrite,
            },
            ..applied@
        }),
{
    let mut r = applied;
    let mut i: usize = 0;
    assert(filters@.take(0) =~= Seq::empty());
    while i < filters.len()
        invariant
            i <= filters@.len(),
            forall|i: int|
                0 <= i < filters@.len() && (#[trigger] filters@[i]) is URLRewrite
                    ==> filter::path_change_applies(
                    filters@[i]->URLRewrite_path,
                    meta@.path,
                    None,
                ),
            r@ == (FilterEffects {
                rewrite: match last_rewrite(filters@.take(i as int), meta@.path) {
                    Some(rewrite) => Some(rewrite),
                    None => applied@.rewrite,
                },
                ..applied@
            }),
        decreases filters.len() - i,
    {
        assert(filters@.take(i + 1).drop_last() =~= filters@.take(i as int));
        if let Filter::URLRewrite { .. } = &filters[i] {
            assert(filters@[i as int] is URLRewrite);
            r.rewrite = Some(filter::compute_rewrite(&filters[i], meta.path.as_str(), None));
        }
        i += 1;
    }
    assert(filters@.take(i as int) =~= filters@);
    r
}

/// The effects of a rule on a request: those of its filters, with the rewrite
/// on the path of the request and the timeouts of the rule.
pub open spec fn rule_effects(
    filters: Seq<Filter>,
    timeout: Option<crate::config::TimeoutConfig>,
    path: Seq<char>,
) -> FilterEffects {
    FilterEffects {
        rewrite: last_rewrite(filters, path),
        timeout,
        ..filter::effects_of(filters)
    }
}

/// Whether `outcome` is what the decision makes of the request.
pub open spec fn dispatches(
    decision: RoutingDecision<'_>,
    request: PipelineRequest,
    outcome: Dispatch,
) -> bool {
    match decision {
        RoutingDecision::NotFound => {
            &&& outcome matches Dispatch::Answer(answer)
            &&& answer.status == 404
            &&& answer.body@ == "404 Not Found"@
            &&& response::is_plain_text(answer)
        },
        RoutingDecision::Redirect(redirect) => {
            if headers::is_header_value(encode_utf8(redirect.location@)) {
                &&& outcome matches Dispatch::Answer(answer)
                &&& answer.status == response::redirect_status(redirect.status_code)
                &&& answer.body@ == Seq::<char>::empty()
                &&& response::header_values(answer, response::LOCATION@) == seq![
                    encode_utf8(redirect.location@),
                ]
                &&& response::header_values(answer, response::CONTENT_TYPE@) == seq![
                    encode_utf8(response::TEXT_PLAIN@),
                ]
                &&& forall|name: Seq<char>|
                    name != response::CONTENT_TYPE@ && name != response::LOCATION@
                        ==> #[trigger] response::header_values(answer, name)
                        == Seq::<Seq<u8>>::empty()
            } else {
                outcome is BadLocation
            }
        },
        RoutingDecision::Forward { backends, filters, timeout } => {
            if some_prefix_rewrite(filters@) {
                outcome is PrefixRewrite
            } else {
                &&& outcome matches Dispatch::Forward(forward, limit)
                &&& forward.request == request.request
                &&& forward.meta == request.meta
                &&& forward.backends@ == backends@
                &&& forward.applied_filter@ == rule_effects(
                    filters@,
                    match timeout {
                        Some(t) => Some(*t),
                        None => None,
                    },
                    request.meta@.path,
                )
                &&& limit == match timeout {
                    Some(t) => upstream::counting(t.request),
                    None => None,
                }
            }
        },
    }
}

/// Copies of the backends.
fn clone_backends(backends: &[Backend]) -> (r: Vec<Backend>)
    ensures
        r@ == backends@,
{
    let mut r: Vec<Backend> = Vec::new();
    let mut i: usize = 0;
    while i < backends.len()
        invariant
            i <= backends@.len(),
            r@ == backends@.take(i as int),
        decreases backends.len() - i,
    {
        r.push(backends[i].clone());
        i += 1;
        assert(r@ =~= backends@.take(i as int));
    }
    assert(backends@.take(i as int) =~= backends@);
    r
}

proof fn lemma_effects_have_last_rewrite(filters: Seq<Filter>)
    ensures
        filter::effects_of(filters).rewrite == last_rewrite(filters, Seq::empty()),
        filter::effects_of(filters).timeout is None,
    decreases filters.len(),
{
    if filters.len() > 0 {
        lemma_effects_have_last_rewrite(filters.drop_last());
    }
}

proof fn lemma_rewrite_either_way(filters: Seq<Filter>, a: Seq<char>, b: Seq<char>)
    ensures
        last_rewrite(filters, a) is Some <==> last_rewrite(filters, b) is Some,
    decreases filters.len(),
{
    if filters.len() > 0 {
        lemma_rewrite_either_way(filters.drop_last(), a, b);
    }
}

/// What the decision makes of the request.
pub fn dispatch(decision: RoutingDecision<'_>, request: PipelineRequest) -> (r: Dispatch)
    ensures
        dispatches(decision, request, r),
{
    match decision {
        RoutingDecision::NotFound => Dispatch::Answer(response::not_found_response()),
        RoutingDecision::Redirect(redirect) => {
            if response::fits_in_header(redirect.location.as_str()) {
                Dispatch::Answer(
                    response::redirect_response(redirect.status_code, redirect.location.as_str()),
                )
            } else {
                Dispatch::BadLocation
            }
        },
        RoutingDecision::Forward { backends, filters, timeout } => {
            if has_prefix_rewrite(filters) {
                return Dispatch::PrefixRewrite;
            }
            let collected = filter::collect_filters(filters);
            proof {
                lemma_effects_have_last_rewrite(filters@);
                lemma_rewrite_either_way(filters@, Seq::empty(), request.meta@.path);
                assert forall|i: int|
                    0 <= i < filters@.len() && (
                    #[trigger] filters@[i]) is URLRewrite implies filter::path_change_applies(
                    filters@[i]->URLRewrite_path,
                    request.meta@.path,
                    None,
                ) by {
                    assert(!filter::rewrites_prefix(filters@[i]));
                }
            }
            let mut applied = recompute_rewrite(filters, &request.meta, collected);
            applied.timeout =
            match timeout {
                Some(t) => Some(*t),
                None => None,
            };
            let limit = upstream::request_timeout(&applied);
            let forward = ForwardRequest {
                request: request.request,
                meta: request.meta,
                backends: clone_backends(backends),
                applied_filter: applied,
            };
            Dispatch::Forward(forward, limit)
        },
    }
}

/// What becomes of a request: it is routed and its filters are collected.
pub fn route_and_filter(config: &ProxyConfig, request: PipelineRequest) -> (r: Dispatch)
    ensures
        exists|decision: RoutingDecision<'_>| #[trigger]
            routing::is_decision(*config, request.listener_name@, request.meta@, decision)
                && dispatches(decision, request, r),
{
    let decision = meta::route_request(config, request.listener_name.as_str(), &request.meta);
    dispatch(decision, request)
}

// ---------------------------------------------------------------------------
// Laws
// ---------------------------------------------------------------------------

/// Where the winning rule redirects, nothing is forwarded.
pub proof fn law_redirects_are_not_forwarded(
    rule: crate::config::RouteRule,
    decision: RoutingDecision<'_>,
    request: PipelineRequest,
    outcome: Dispatch,
)
    requires
        routing::redirects(rule),
        routing::decides(rule, request.meta@, decision),
        dispatches(decision, request, outcome),
    ensures
        !(outcome is Forward),
{
}

/// Where no rule matches, the answer is 404 and nothing is forwarded.
pub proof fn law_unmatched_requests_are_not_found(
    config: ProxyConfig,
    decision: RoutingDecision<'_>,
    request: PipelineRequest,
    outcome: Dispatch,
)
    requires
        routing::none_matches(
            routing::reachable_rules(
                config.routes@,
                request.listener_name@,
                request.meta@.host,
            ),
            request.meta@,
        ),
        routing::is_decision(config, request.listener_name@, request.meta@, decision),
        dispatches(decision, request, outcome),
    ensures
        outcome matches Dispatch::Answer(answer) && answer.status == 404,
{
    let rules = routing::reachable_rules(
        config.routes@,
        request.listener_name@,
        request.meta@.host,
    );
    if !(decision is NotFound) {
        let w = choose|w: int| #[trigger]
            routing::wins(rules, request.meta@, w) && routing::decides(
                rules[w],
                request.meta@,
                decision,
            );
        assert(routing::rule_rank(rules[w], request.meta@) is None);
    }
}

/// Every request has one outcome: two decisions for it lead to outcomes of the
/// same kind, and answers have the same status.
pub proof fn law_outcome_is_determined(
    config: ProxyConfig,
    request: PipelineRequest,
    a: RoutingDecision<'_>,
    b: RoutingDecision<'_>,
    x: Dispatch,
    y: Dispatch,
)
    requires
        routing::is_decision(config, request.listener_name@, request.meta@, a),
        routing::is_decision(config, request.listener_name@, request.meta@, b),
        dispatches(a, request, x),
        dispatches(b, request, y),
    ensures
        x is Answer <==> y is Answer,
        x is Forward <==> y is Forward,
        x matches Dispatch::Answer(p) ==> p.status == y->Answer_0.status,
        x matches Dispatch::Forward(p, limit) ==> {
            &&& p.backends@ == y->Forward_0.backends@
            &&& p.applied_filter@ == y->Forward_0.applied_filter@
            &&& limit == y->Forward_1
        },
{
    let m = request.meta@;
    let rules = routing::reachable_rules(config.routes@, request.listener_name@, m.host);
    if a is NotFound || b is NotFound {
        if !(a is NotFound) {
            let w = choose|w: int| #[trigger]
                routing::wins(rules, m, w) && routing::decides(rules[w], m, a);
            assert(routing::rule_rank(rules[w], m) is None);
        }
        if !(b is NotFound) {
            let w = choose|w: int| #[trigger]
                routing::wins(rules, m, w) && routing::decides(rules[w], m, b);
            assert(routing::rule_rank(rules[w], m) is None);
        }
    } else {
        let v = choose|w: int| #[trigger]
            routing::wins(rules, m, w) && routing::decides(rules[w], m, a);
        let w = choose|w: int| #[trigger]
            routing::wins(rules, m, w) && routing::decides(rules[w], m, b);
        routing::law_winner_is_unique(rules, m, v, w);
        let filters = rules[w].filters@;
        if a is Redirect && b is Redirect {
            let i = choose|at: int| #[trigger]
                routing::first_redirect(filters, at) && (
                    a->Redirect_0.status_code,
                    a->Redirect_0.location@,
                ) == routing::redirect_of(filters[at], m);
            let j = choose|at: int| #[trigger]
                routing::first_redirect(filters, at) && (
                    b->Redirect_0.status_code,
                    b->Redirect_0.location@,
                ) == routing::redirect_of(filters[at], m);
            assert(i == j) by {
                if i < j {
                    assert(!(filters[i] is RequestRedirect));
                } else if j < i {
                    assert(!(filters[j] is RequestRedirect));
                }
            }
        }
    }
}

/// A request that no rule takes is answered with 404, one whose rule redirects
/// with the status and the URL of the redirect and no body; neither is
/// forwarded.
pub proof fn law_answers_say_what_was_decided(
    decision: RoutingDecision<'_>,
    request: PipelineRequest,
    outcome: Dispatch,
)
    requires
        dispatches(decision, request, outcome),
    ensures
        decision is NotFound ==> outcome is Answer && outcome->Answer_0.status == 404,
        decision matches RoutingDecision::Redirect(redirect) ==> (headers::is_header_value(
            encode_utf8(redirect.location@),
        ) ==> outcome is Answer && outcome->Answer_0.body@.len() == 0 && headers::values_of(
            headers::header_list(outcome->Answer_0.headers),
            response::LOCATION@,
        ) == seq![encode_utf8(redirect.location@)] && (100 <= redirect.status_code <= 999
            ==> outcome->Answer_0.status == redirect.status_code)),
{
}

/// A request that is forwarded goes on as it came in, to the backends of its
/// rule, with the effects of all its filters, the rewrite on its own path, the
/// timeouts of the rule, and the limit for the whole request where that is
/// above zero.
pub proof fn law_forwarded_requests_carry_the_rule(
    decision: RoutingDecision<'_>,
    request: PipelineRequest,
    outcome: Dispatch,
)
    requires
        dispatches(decision, request, outcome),
        outcome is Forward,
    ensures
        decision matches RoutingDecision::Forward { backends, filters, timeout } && {
            let forward = outcome->Forward_0;
            let effects = forward.applied_filter@;
            let collected = filter::effects_of(filters@);
            &&& forward.request == request.request
            &&& forward.meta == request.meta
            &&& forward.backends@ == backends@
            &&& effects.request_add == collected.request_add
            &&& effects.request_set == collected.request_set
            &&& effects.request_remove == collected.request_remove
            &&& effects.response_add == collected.response_add
            &&& effects.response_set == collected.response_set
            &&& effects.response_remove == collected.response_remove
            &&& effects.mirrors == collected.mirrors
            &&& effects.rewrite is Some <==> collected.rewrite is Some
            &&& timeout is None ==> effects.timeout is None && outcome->Forward_1 is None
            &&& timeout matches Some(t) ==> effects.timeout == Some(*t) && (
            outcome->Forward_1 is Some <==> t.request is Some && t.request->0.positive()) && (
            outcome->Forward_1 is Some ==> outcome->Forward_1 == t.request)
        },
{
    if let RoutingDecision::Forward { backends, filters, timeout } = decision {
        lemma_effects_have_last_rewrite(filters@);
        lemma_rewrite_either_way(filters@, Seq::empty(), request.meta@.path);
    }
}

/// The last rewrite of a rule counts, on the path of the request; other filters
/// leave it as it is.
pub proof fn law_the_last_rewrite_counts(filters: Seq<Filter>, f: Filter, path: Seq<char>)
    ensures
        f is URLRewrite ==> last_rewrite(filters.push(f), path) == Some(
            filter::rewrite_of(f, path, None),
        ),
        !(f is URLRewrite) ==> last_rewrite(filters.push(f), path) == last_rewrite(filters, path),
        last_rewrite(Seq::empty(), path) is None,
{
    assert(filters.push(f).drop_last() =~= filters);
}

/// A rule is refused for its rewrite exactly where one of its filters replaces a
/// path prefix.
pub proof fn law_prefix_rewrites_are_told(
    decision: RoutingDecision<'_>,
    request: PipelineRequest,
    outcome: Dispatch,
)
    requires
        dispatches(decision, request, outcome),
    ensures
        decision matches RoutingDecision::Forward { backends, filters, timeout } ==> (
        outcome is PrefixRewrite <==> exists|i: int|
            0 <= i < filters@.len() && (#[trigger] filters@[i]) is URLRewrite && (
            filters@[i]->URLRewrite_path matches Some(
                p,
            ) && p is ReplacePrefixMatch)),
        outcome is PrefixRewrite ==> decision is Forward,
{
    if let RoutingDecision::Forward { backends, filters, timeout } = decision {
        if some_prefix_rewrite(filters@) {
            let i = choose|i: int|
                0 <= i < filters@.len() && filter::rewrites_prefix(#[trigger] filters@[i]);
            assert(filters@[i] is URLRewrite);
        }
        if exists|i: int|
            0 <= i < filters@.len() && (#[trigger] filters@[i]) is URLRewrite && (
            filters@[i]->URLRewrite_path matches Some(
                p,
            ) && p is ReplacePrefixMatch) {
            let i = choose|i: int|
                0 <= i < filters@.len() && (#[trigger] filters@[i]) is URLRewrite && (
                filters@[i]->URLRewrite_path matches Some(
                    p,
                ) && p is ReplacePrefixMatch);
            assert(filter::rewrites_prefix(filters@[i]));
        }
    }
}

} // verus!
