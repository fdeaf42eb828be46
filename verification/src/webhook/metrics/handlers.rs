//! Answering a request for an external metric.
//!
//! A replica that serves a resource answers from its own store. Another one forwards
//! the request; where that does not help it answers from what it has.

use crate::labels::Labels;
use crate::membership::manager::MembershipManager;
use crate::membership::ownership::{is_owner, key_of, EpaOwnership};
use crate::number::{decimal_int, signed_text};
use crate::scraper::worker::{is_success, success_code};
use crate::store::ops::{windows_listed, MetricsStore, StoreView};
use crate::store::types::{metric_key, window_key, CachedAggregation, MetricConfig};
use crate::store::window::MetricWindow;
use crate::text::{
    before_suffix, chars_of, last_of, opt_view, rfind, same, strip_suffix,
};
use crate::webhook::types::{ExternalMetricValue, ExternalMetricValueList};
use vstd::prelude::*;
use vstd::string::StrSliceExecFns;
use vstd::string::StringExecFns;

verus! {

/// How long an aggregated value may be used again, in nanoseconds.
pub const CACHE_TTL: u128 = 10_000_000_000;

// ---------------------------------------------------------------------------
// Errors
// ---------------------------------------------------------------------------

/// API error type
#[derive(Debug)]
pub enum ApiError {
    NotFound,
    BadRequest(String),
    InternalError(String),
    MetricUnavailable(String),
}

impl ApiError {
    /// The status code of the answer.
    pub fn status_code(&self) -> (r: u16)
        ensures
            r == (match *self {
                ApiError::NotFound => 404u16,
                ApiError::BadRequest(_) => 400u16,
                ApiError::InternalError(_) => 500u16,
                ApiError::MetricUnavailable(_) => 422u16,
            }),
    {
        match self {
            ApiError::NotFound => 404,
            ApiError::BadRequest(_) => 400,
            ApiError::InternalError(_) => 500,
            ApiError::MetricUnavailable(_) => 422,
        }
    }

    /// The body of the answer.
    pub fn message(self) -> (r: String)
        ensures
            r@ == (match self {
                ApiError::NotFound => "Metric not found"@,
                ApiError::BadRequest(m) => m@,
                ApiError::InternalError(m) => m@,
                ApiError::MetricUnavailable(m) => m@,
            }),
    {
        match self {
            ApiError::NotFound => "Metric not found".to_owned(),
            ApiError::BadRequest(m) => m,
            ApiError::InternalError(m) => m,
            ApiError::MetricUnavailable(m) => m,
        }
    }
}

// ---------------------------------------------------------------------------
// Discovery
// ---------------------------------------------------------------------------

/// What the API offers.
#[derive(Debug)]
pub struct ApiResourceList {
    pub kind: String,
    pub api_version: String,
    pub group_version: String,
    pub resources: Vec<ApiResource>,
}

/// A resource that the API offers.
#[derive(Debug)]
pub struct ApiResource {
    pub name: String,
    pub singular_name: String,
    pub namespaced: bool,
    pub kind: String,
    pub verbs: Vec<String>,
}

/// What the discovery endpoint answers: any metric of a namespace can be got.
pub fn api_resource_list() -> (r: ApiResourceList)
    ensures
        r.kind@ == "APIResourceList"@,
        r.api_version@ == "v1"@,
        r.group_version@ == "external.metrics.k8s.io/v1beta1"@,
        r.resources@.len() == 1,
        r.resources@[0].name@ == "*"@,
        r.resources@[0].singular_name@ == ""@,
        r.resources@[0].namespaced,
        r.resources@[0].kind@ == "ExternalMetricValueList"@,
        r.resources@[0].verbs@.len() == 1,
        r.resources@[0].verbs@[0]@ == "get"@,
{
    let mut verbs: Vec<String> = Vec::new();
    verbs.push("get".to_owned());
    let mut resources: Vec<ApiResource> = Vec::new();
    resources.push(
        ApiResource {
            name: "*".to_owned(),
            singular_name: "".to_owned(),
            namespaced: true,
            kind: "ExternalMetricValueList".to_owned(),
            verbs,
        },
    );
    ApiResourceList {
        kind: "APIResourceList".to_owned(),
        api_version: "v1".to_owned(),
        group_version: "external.metrics.k8s.io/v1beta1".to_owned(),
        resources,
    }
}

// ---------------------------------------------------------------------------
// Names of external metrics
// ---------------------------------------------------------------------------

/// The name under which a metric of a resource is asked for.
pub open spec fn external_name(
    epa_name: Seq<char>,
    namespace: Seq<char>,
    metric: Seq<char>,
) -> Seq<char> {
    epa_name + "-"@ + namespace + "-"@ + metric
}

/// The name under which a metric of a resource is asked for.
pub fn build_external_metric_name(epa_name: &str, namespace: &str, metric: &str) -> (r: String)
    ensures
        r@ == external_name(epa_name@, namespace@, metric@),
{
    let mut r = epa_name.to_owned();
    r.append("-");
    r.append(namespace);
    r.append("-");
    r.append(metric);
    r
}

/// The resource and the metric that a name asks for in a namespace. The metric is what
/// follows the last hyphen; before it stands the namespace, and before that the name
/// of the resource.
pub open spec fn named_metric(namespace: Seq<char>, name: Seq<char>) -> Option<
    (Seq<char>, Seq<char>),
> {
    let at = last_of(name, '-');
    if at < 0 {
        None
    } else {
        let metric = name.skip(at + 1);
        match before_suffix(name.take(at), "-"@ + namespace) {
            Some(epa_name) => if epa_name.len() == 0 || metric.len() == 0 {
                None
            } else {
                Some((epa_name, metric))
            },
            None => None,
        }
    }
}

/// The error for a name that asks for nothing.
pub open spec fn bad_name(name: Seq<char>) -> Seq<char> {
    "Invalid external metric name format: "@ + name
}

fn bad_request(metric_name: &str) -> (r: ApiError)
    ensures
        r matches ApiError::BadRequest(m) && m@ == bad_name(metric_name@),
{
    let mut m = "Invalid external metric name format: ".to_owned();
    m.append(metric_name);
    ApiError::BadRequest(m)
}

/// Parse external metric name: {epa-name}-{epa-namespace}-{metric-name}
/// The namespace parameter from the URL is the namespace where the HPA is (same as EPA).
///
/// Prometheus metric names follow the pattern `[a-zA-Z_:][a-zA-Z0-9_:]*` and never contain
/// hyphens, while Kubernetes resource names and namespaces use hyphens. This means the metric
/// name portion is everything after the last hyphen. We then use the known URL namespace to
/// extract the EPA name from the remaining prefix.
pub fn parse_external_metric_name(url_namespace: &str, metric_name: &str) -> (r: Result<
    (String, String, String),
    ApiError,
>)
    ensures
        match named_metric(url_namespace@, metric_name@) {
            Some((epa_name, metric)) => r matches Ok(parts) && parts.0@ == epa_name && parts.1@
                == url_namespace@ && parts.2@ == metric,
            None => r matches Err(ApiError::BadRequest(m)) && m@ == bad_name(metric_name@),
        },
{
    let chars = chars_of(metric_name);
    let at: usize = match rfind(&chars, '-') {
        Some(at) => at,
        None => {
            return Err(bad_request(metric_name));
        },
    };
    let prefix = metric_name.substring_char(0, at);
    let metric = metric_name.substring_char(at + 1, chars.len());
    assert(prefix@ =~= metric_name@.take(at as int));
    assert(metric@ =~= metric_name@.skip(at + 1));
    let mut suffix = "-".to_owned();
    suffix.append(url_namespace);
    match strip_suffix(prefix, suffix.as_str()) {
        Some(epa_name) => {
            if epa_name.unicode_len() == 0 || metric.unicode_len() == 0 {
                Err(bad_request(metric_name))
            } else {
                Ok((epa_name.to_owned(), url_namespace.to_owned(), metric.to_owned()))
            }
        },
        None => Err(bad_request(metric_name)),
    }
}

// ---------------------------------------------------------------------------
// Which replica answers
// ---------------------------------------------------------------------------

/// Who answers a request.
#[derive(Debug)]
pub enum Route {
    /// This replica.
    Local,
    /// Another replica: the owner, or the draining one from which this replica takes
    /// over.
    Forward { target: String, draining: bool },
    /// There is no active replica.
    NoReplicas,
    /// This replica does not serve yet, and none is draining that would.
    NoPredecessor,
}

/// Who answers a request.
pub enum RouteView {
    Local,
    Forward { target: Seq<char>, draining: bool },
    NoReplicas,
    NoPredecessor,
}

impl View for Route {
    type V = RouteView;

    open spec fn view(&self) -> RouteView {
        match *self {
            Route::Local => RouteView::Local,
            Route::Forward { target, draining } => RouteView::Forward { target: target@, draining },
            Route::NoReplicas => RouteView::NoReplicas,
            Route::NoPredecessor => RouteView::NoPredecessor,
        }
    }
}

/// Who answers a request. A replica that does not serve forwards it to the owner. An
/// owner that does not serve yet forwards it to the replica that would be the owner if
/// the draining ones still took part, unless that is the owner itself.
pub open spec fn route_for(
    serves: bool,
    owner: Option<Seq<char>>,
    previous: Option<Seq<char>>,
    my_id: Seq<char>,
) -> RouteView {
    if serves {
        RouteView::Local
    } else {
        match owner {
            None => RouteView::NoReplicas,
            Some(id) => if id != my_id {
                RouteView::Forward { target: id, draining: false }
            } else {
                match previous {
                    Some(p) => if p != id {
                        RouteView::Forward { target: p, draining: true }
                    } else {
                        RouteView::NoPredecessor
                    },
                    None => RouteView::NoPredecessor,
                }
            },
        }
    }
}

/// Who answers a request, given whether this replica serves, the owner, and the
/// replica that would be the owner if the draining ones still took part.
pub fn choose_route(
    serves: bool,
    owner: Option<String>,
    previous: Option<String>,
    my_id: &str,
) -> (r: Route)
    ensures
        r@ == route_for(serves, opt_view(owner), opt_view(previous), my_id@),
{
    if serves {
        return Route::Local;
    }
    match owner {
        None => Route::NoReplicas,
        Some(id) => {
            if !same(id.as_str(), my_id) {
                return Route::Forward { target: id, draining: false };
            }
            match previous {
                Some(p) => {
                    if !same(p.as_str(), id.as_str()) {
                        Route::Forward { target: p, draining: true }
                    } else {
                        Route::NoPredecessor
                    }
                },
                None => Route::NoPredecessor,
            }
        },
    }
}

/// A request for a metric.
#[derive(Debug)]
pub struct MetricRequest {
    /// Name of the resource
    pub epa_name: String,
    /// Namespace of the resource
    pub namespace: String,
    /// Name of the metric
    pub metric: String,
    /// The name under which the metric was asked for
    pub external_name: String,
}

impl MetricRequest {
    /// Whether this is the request for a metric of a resource under a name.
    pub open spec fn asks(
        self,
        epa_name: Seq<char>,
        namespace: Seq<char>,
        metric: Seq<char>,
        external_name: Seq<char>,
    ) -> bool {
        &&& self.epa_name@ == epa_name
        &&& self.namespace@ == namespace
        &&& self.metric@ == metric
        &&& self.external_name@ == external_name
    }

    /// Under what the metric is held.
    pub open spec fn key(self) -> Seq<Seq<char>> {
        metric_key(self.namespace@, self.epa_name@, self.metric@)
    }
}

/// Whether a route is one that can be found for a resource: of several owners of the
/// same weight, each look can find another.
pub open spec fn may_route(
    ownership: EpaOwnership,
    membership: MembershipManager,
    namespace: Seq<char>,
    epa_name: Seq<char>,
    now: u64,
    route: RouteView,
) -> bool {
    let key = key_of(namespace, epa_name);
    let all = membership.active_set().union(membership.draining_set());
    exists|owner: Option<Seq<char>>, before: Option<Seq<char>>, previous: Option<Seq<char>>|
        #![trigger is_owner(membership.active_set(), key, owner), is_owner(all, key, before), is_owner(all, key, previous)]
        {
            &&& is_owner(membership.active_set(), key, owner)
            &&& is_owner(all, key, before)
            &&& is_owner(all, key, previous)
            &&& route == route_for(
                ownership@.serves(key, before, membership.id(), now),
                owner,
                previous,
                membership.id(),
            )
        }
}

/// Takes a request: reads what it asks for, and finds who answers.
pub fn get_external_metric(
    ownership: &EpaOwnership,
    membership: &MembershipManager,
    namespace: &str,
    metric_name: &str,
    now: u64,
) -> (r: Result<(MetricRequest, Route), ApiError>)
    ensures
        match named_metric(namespace@, metric_name@) {
            None => r matches Err(ApiError::BadRequest(m)) && m@ == bad_name(metric_name@),
            Some((epa_name, metric)) => r matches Ok(found) && found.0.asks(
                epa_name,
                namespace@,
                metric,
                metric_name@,
            ) && may_route(*ownership, *membership, namespace@, epa_name, now, found.1@),
        },
{
    let (epa_name, epa_namespace, metric) = match parse_external_metric_name(
        namespace,
        metric_name,
    ) {
        Ok(parts) => parts,
        Err(e) => {
            return Err(e);
        },
    };
    let serves = ownership.should_serve_epa(membership, namespace, epa_name.as_str(), now);
    let owner = EpaOwnership::get_epa_owner(membership, namespace, epa_name.as_str());
    let previous = EpaOwnership::get_previous_epa_owner(membership, namespace, epa_name.as_str());
    let ghost all = membership.active_set().union(membership.draining_set());
    let ghost key = key_of(namespace@, epa_name@);
    proof {
        let before = choose|before: Option<Seq<char>>| #[trigger]
            is_owner(all, key, before) && serves == ownership@.serves(
                key,
                before,
                membership.id(),
                now,
            );
        assert(is_owner(membership.active_set(), key, opt_view(owner)));
        assert(is_owner(all, key, before));
        assert(is_owner(all, key, opt_view(previous)));
    }
    let route = choose_route(serves, owner, previous, membership.my_replica_id());
    Ok(
        (
            MetricRequest {
                epa_name,
                namespace: epa_namespace,
                metric,
                external_name: metric_name.to_owned(),
            },
            route,
        ),
    )
}

// ---------------------------------------------------------------------------
// Forwarding
// ---------------------------------------------------------------------------

/// Where a request is forwarded to.
pub fn forward_url(address: &str, request: &MetricRequest) -> (r: String)
    ensures
        r@ == "https://"@ + address@ + "/apis/external.metrics.k8s.io/v1beta1/namespaces/"@
            + request.namespace@ + "/"@ + request.external_name@,
{
    let mut r = "https://".to_owned();
    r.append(address);
    r.append("/apis/external.metrics.k8s.io/v1beta1/namespaces/");
    r.append(request.namespace.as_str());
    r.append("/");
    r.append(request.external_name.as_str());
    r
}

/// What became of a request that was forwarded.
#[derive(Debug)]
pub enum Reply {
    /// The address of the replica could not be had.
    Unreachable,
    /// No answer came.
    Failed,
    /// An answer came.
    Answered {
        /// Status code
        status: u16,
        /// The list in the answer, where there is one; it counts only where the status
        /// is a success
        list: Option<ExternalMetricValueList>,
    },
}

/// The list that another replica answered with.
pub open spec fn forwarded_list(reply: Reply) -> Option<ExternalMetricValueList> {
    match reply {
        Reply::Answered { status, list } => if success_code(status) {
            list
        } else {
            None
        },
        _ => None,
    }
}

/// The name under which a request is counted that was forwarded.
pub open spec fn forward_label(reply: Reply, draining: bool) -> Seq<char> {
    if reply is Unreachable {
        "owner_down"@
    } else if forwarded_list(reply) is None {
        "forward_failed"@
    } else if draining {
        "forwarded_to_draining"@
    } else {
        "forwarded"@
    }
}

fn label_of_forward(reply: &Reply, draining: bool) -> (r: &'static str)
    ensures
        r@ == forward_label(*reply, draining),
{
    match reply {
        Reply::Unreachable => "owner_down",
        Reply::Failed => "forward_failed",
        Reply::Answered { status, list } => {
            if !is_success(*status) || list.is_none() {
                "forward_failed"
            } else if draining {
                "forwarded_to_draining"
            } else {
                "forwarded"
            }
        },
    }
}

/// The list that another replica answered with, and the name under which the request
/// is counted.
pub fn forwarded(reply: Reply, draining: bool) -> (r: (
    Option<ExternalMetricValueList>,
    &'static str,
))
    ensures
        r.0 == forwarded_list(reply),
        r.1@ == forward_label(reply, draining),
{
    let label = label_of_forward(&reply, draining);
    match reply {
        Reply::Answered { status, list } => {
            if is_success(status) {
                (list, label)
            } else {
                (None, label)
            }
        },
        _ => (None, label),
    }
}

/// The name under which a request is counted on its way, where it is: as one that was
/// forwarded, or as one that no replica could take.
pub fn route_label(route: &Route, reply: &Option<Reply>) -> (r: Option<&'static str>)
    ensures
        match (route@, *reply) {
            (RouteView::Forward { draining, .. }, Some(reply)) => r matches Some(label) && label@
                == forward_label(reply, draining),
            (RouteView::NoReplicas, _) => r matches Some(label) && label@ == "no_replicas"@,
            _ => r is None,
        },
{
    match (route, reply) {
        (Route::Forward { draining, .. }, Some(reply)) => Some(label_of_forward(reply, *draining)),
        (Route::NoReplicas, _) => Some("no_replicas"),
        _ => None,
    }
}

/// The list that another replica gave, given the route of a request and the reply to it.
/// A reply counts only where the request was forwarded.
pub open spec fn list_from(route: RouteView, reply: Option<Reply>) -> Option<
    ExternalMetricValueList,
> {
    match (route, reply) {
        (RouteView::Forward { .. }, Some(reply)) => forwarded_list(reply),
        _ => None,
    }
}

/// Whether a replica falls back to what it has: another one was to answer, and none did.
pub open spec fn falls_back(route: RouteView, reply: Option<Reply>) -> bool {
    !(route is Local) && list_from(route, reply) is None
}

/// What comes of a route, given the reply to the request where it was forwarded: the
/// list to answer with, where another replica gave one, and whether this replica falls
/// back to what it has.
pub fn after_route(route: &Route, reply: Option<Reply>) -> (r: (
    Option<ExternalMetricValueList>,
    bool,
))
    ensures
        r.0 == list_from(route@, reply),
        r.1 == falls_back(route@, reply),
{
    match (route, reply) {
        (Route::Local, _) => (None, false),
        (Route::Forward { draining, .. }, Some(reply)) => {
            let (list, _) = forwarded(reply, *draining);
            let failed = list.is_none();
            (list, failed)
        },
        _ => (None, true),
    }
}

// ---------------------------------------------------------------------------
// Answering from the store
// ---------------------------------------------------------------------------

/// Whether a store has windows of a metric of a resource.
pub open spec fn has_windows(
    store: StoreView,
    namespace: Seq<char>,
    epa_name: Seq<char>,
    metric: Seq<char>,
) -> bool {
    exists|pod: Seq<char>| #[trigger]
        store.windows.contains_key(window_key(namespace, epa_name, metric, pod))
}

/// How a request is answered from the store.
#[derive(Debug)]
pub enum LocalStep {
    /// With no value, for there is none.
    Empty(ExternalMetricValueList),
    /// With a value that was aggregated before.
    Cached(u64),
    /// With what these windows are aggregated to.
    Aggregate { windows: Vec<(String, MetricWindow)>, config: MetricConfig },
}

/// Whether a request is answered from a store in the given way.
pub open spec fn answers_from(
    step: LocalStep,
    store: StoreView,
    request: MetricRequest,
    forward_failed: bool,
    now: u64,
) -> bool {
    let known = has_windows(store, request.namespace@, request.epa_name@, request.metric@);
    let cached = store.cached(request.key(), now);
    match step {
        LocalStep::Empty(list) => !known && (forward_failed || cached is None) && list.lists(
            seq![],
        ),
        LocalStep::Cached(value) => (known || !forward_failed) && cached == Some(value),
        LocalStep::Aggregate { windows, config } => known && cached is None && windows_listed(
            windows@,
            store.windows,
            request.namespace@,
            request.epa_name@,
            request.metric@,
        ) && config == store.config(request.key()),
    }
}

/// How a request is answered from the store. A replica whose forwarding failed
/// answers only where it has windows of the metric: while a resource changes its
/// owner, the new one may not serve yet.
pub fn local_step(
    store: &MetricsStore,
    request: &MetricRequest,
    forward_failed: bool,
    now: u64,
) -> (r: LocalStep)
    ensures
        answers_from(r, store@, *request, forward_failed, now),
{
    let namespace = request.namespace.as_str();
    let epa_name = request.epa_name.as_str();
    let metric = request.metric.as_str();
    let windows = store.get_windows(namespace, epa_name, metric);
    proof {
        if windows@.len() > 0 {
            assert(store@.windows.contains_key(
                window_key(namespace@, epa_name@, metric@, windows@[0].0@),
            ));
        }
    }
    if forward_failed && windows.len() == 0 {
        return LocalStep::Empty(ExternalMetricValueList::empty());
    }
    if let Some(value) = store.get_cached(namespace, epa_name, metric, now) {
        return LocalStep::Cached(value);
    }
    if windows.len() == 0 {
        return LocalStep::Empty(ExternalMetricValueList::empty());
    }
    let config = store.get_metric_config(namespace, epa_name, metric);
    LocalStep::Aggregate { windows, config }
}

/// Holds the value that was aggregated for a request, so that it is used again for a
/// while.
pub fn hold_value(store: &mut MetricsStore, request: &MetricRequest, value: u64, now: u64)
    ensures
        final(store)@ == (StoreView {
            cache: old(store)@.cache.insert(
                request.key(),
                (CachedAggregation { value, computed_at: now, ttl: CACHE_TTL }),
            ),
            ..old(store)@
        }),
{
    store.cache_result(
        request.namespace.as_str(),
        request.epa_name.as_str(),
        request.metric.as_str(),
        value,
        CACHE_TTL,
        now,
    );
}

/// The answer with one value.
pub fn respond(request: &MetricRequest, value: i64, timestamp: i64) -> (r: ExternalMetricValueList)
    ensures
        r.lists(r.items@),
        r.items@.len() == 1,
        r.items@[0].metric_name@ == request.external_name@,
        r.items@[0].metric_labels@ == Map::<Seq<char>, Seq<char>>::empty(),
        r.items@[0].value@ == decimal_int(value as int),
        r.items@[0].timestamp == timestamp,
{
    let mut items: Vec<ExternalMetricValue> = Vec::new();
    items.push(
        ExternalMetricValue {
            metric_name: request.external_name.clone(),
            metric_labels: Labels::new(),
            value: signed_text(value),
            timestamp,
        },
    );
    ExternalMetricValueList::new(items)
}

} // verus!
