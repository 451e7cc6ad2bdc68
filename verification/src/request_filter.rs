//! Which requests a listing shows.

use vstd::prelude::*;
use crate::network::{NetworkRequest, RequestView};
use crate::text::{
    ascii_lower_text, contains, lowercase, occurs, same_ignoring_ascii_case, to_lowercase,
};

verus! {

/// What a listing asks of a request. Nothing asked matches every request.
#[derive(Debug)]
pub struct RequestFilter {
    /// Text that stands in the URL, whatever the case.
    pub url: Option<String>,
    /// The method, whatever the case of ASCII letters.
    pub method: Option<String>,
    /// The status.
    pub status: Option<u32>,
    /// The resource type, whatever the case of ASCII letters.
    pub resource_type: Option<String>,
    /// Whether the request failed or was blocked at the network layer.
    pub failed: Option<bool>,
    /// Whether the request is still in flight.
    pub pending: Option<bool>,
}

/// The model of a filter.
pub struct FilterView {
    pub url: Option<Seq<char>>,
    pub method: Option<Seq<char>>,
    pub status: Option<u32>,
    pub resource_type: Option<Seq<char>>,
    pub failed: Option<bool>,
    pub pending: Option<bool>,
}

impl DeepView for RequestFilter {
    type V = FilterView;

    open spec fn deep_view(&self) -> FilterView {
        FilterView {
            url: self.url.deep_view(),
            method: self.method.deep_view(),
            status: self.status,
            resource_type: self.resource_type.deep_view(),
            failed: self.failed,
            pending: self.pending,
        }
    }
}

/// The filter that asks for nothing.
pub open spec fn no_filter() -> FilterView {
    FilterView {
        url: None,
        method: None,
        status: None,
        resource_type: None,
        failed: None,
        pending: None,
    }
}

impl Default for RequestFilter {
    fn default() -> (r: RequestFilter)
        ensures
            r.deep_view() == no_filter(),
    {
        RequestFilter {
            url: None,
            method: None,
            status: None,
            resource_type: None,
            failed: None,
            pending: None,
        }
    }
}

/// Whether two texts are equal but for the case of ASCII letters.
pub open spec fn alike(a: Seq<char>, b: Seq<char>) -> bool {
    ascii_lower_text(a) == ascii_lower_text(b)
}

/// Whether a request meets what a filter asks besides the URL.
pub open spec fn accepts_rest(filter: FilterView, request: RequestView) -> bool {
    &&& filter.method matches Some(method) ==> alike(request.method, method)
    &&& filter.status matches Some(status) ==> request.status == Some(status)
    &&& filter.resource_type matches Some(wanted) ==> match request.resource_type {
        Some(actual) => alike(actual, wanted),
        None => false,
    }
    &&& filter.failed matches Some(failed) ==> failed == (request.failure_reason is Some
        || request.blocked_reason is Some)
    &&& filter.pending matches Some(pending) ==> pending == !request.completed
}

/// Whether a request meets what a filter asks, where `url` and `wanted` are the
/// lower-case forms of the request's URL and of the text asked of it.
pub open spec fn accepts_lowered(
    filter: FilterView,
    request: RequestView,
    url: Seq<char>,
    wanted: Seq<char>,
) -> bool {
    &&& filter.url is Some ==> occurs(url, wanted)
    &&& accepts_rest(filter, request)
}

/// Whether a request meets what a filter asks.
pub open spec fn accepts(filter: FilterView, request: RequestView) -> bool {
    match filter.url {
        Some(wanted) => accepts_lowered(filter, request, lowercase(request.url), lowercase(wanted)),
        None => accepts_rest(filter, request),
    }
}

/// A filter that asks for nothing matches every request.
pub proof fn law_empty_filter_matches_all(request: RequestView)
    ensures
        accepts(no_filter(), request),
{
}

impl RequestFilter {
    /// Whether the filter asks for nothing.
    pub fn is_empty(&self) -> (r: bool)
        ensures
            r == (self.deep_view() == no_filter()),
    {
        self.url.is_none() && self.method.is_none() && self.status.is_none()
            && self.resource_type.is_none() && self.failed.is_none() && self.pending.is_none()
    }

    /// Whether a request meets what the filter asks besides the URL.
    fn matches_rest(&self, request: &NetworkRequest) -> (r: bool)
        ensures
            r == accepts_rest(self.deep_view(), request.deep_view()),
    {
        if let Some(method) = &self.method {
            if !same_ignoring_ascii_case(request.method.as_str(), method.as_str()) {
                return false;
            }
        }
        if let Some(status) = self.status {
            match request.status {
                Some(actual) => {
                    if actual != status {
                        return false;
                    }
                },
                None => {
                    return false;
                },
            }
        }
        if let Some(wanted) = &self.resource_type {
            match &request.resource_type {
                Some(actual) => {
                    if !same_ignoring_ascii_case(actual.as_str(), wanted.as_str()) {
                        return false;
                    }
                },
                None => {
                    return false;
                },
            }
        }
        if let Some(failed) = self.failed {
            let is_failed = request.failure_reason.is_some() || request.blocked_reason.is_some();
            if is_failed != failed {
                return false;
            }
        }
        if let Some(pending) = self.pending {
            if request.completed == pending {
                return false;
            }
        }
        true
    }

    /// Whether a request meets what the filter asks, where `url` and `wanted` are
    /// the lower-case forms of the request's URL and of the text asked of it.
    pub fn matches_lowered(&self, request: &NetworkRequest, url: &str, wanted: &str) -> (r: bool)
        ensures
            r == accepts_lowered(self.deep_view(), request.deep_view(), url@, wanted@),
    {
        if self.url.is_some() && !contains(url, wanted) {
            return false;
        }
        self.matches_rest(request)
    }

    /// Whether a request meets what the filter asks.
    pub fn matches(&self, request: &NetworkRequest) -> (r: bool)
        ensures
            r == accepts(self.deep_view(), request.deep_view()),
    {
        match &self.url {
            Some(wanted) => {
                let url = to_lowercase(request.url.as_str());
                let text = to_lowercase(wanted.as_str());
                self.matches_lowered(request, url.as_str(), text.as_str())
            },
            None => self.matches_rest(request),
        }
    }
}

/// What a filter accepts has all that the filter asks for: the very status, the method and
/// the kind up to the case of ASCII letters, the text in the URL whatever its case, and it
/// has failed, or is in flight, exactly as asked.
pub proof fn law_accepted_has_what_was_asked(filter: FilterView, request: RequestView)
    requires
        accepts(filter, request),
    ensures
        filter.status matches Some(status) ==> request.status == Some(status),
        filter.method matches Some(method) ==> ascii_lower_text(request.method)
            == ascii_lower_text(method),
        filter.resource_type matches Some(wanted) ==> request.resource_type matches Some(actual)
            && ascii_lower_text(actual) == ascii_lower_text(wanted),
        filter.url matches Some(wanted) ==> occurs(lowercase(request.url), lowercase(wanted)),
        filter.failed == Some(true) ==> request.failure_reason is Some || request.blocked_reason
            is Some,
        filter.failed == Some(false) ==> request.failure_reason is None && request.blocked_reason
            is None,
        filter.pending == Some(true) ==> !request.completed,
        filter.pending == Some(false) ==> request.completed,
{
}

/// A filter asks for each of its parts: it accepts exactly what the filters accept that ask
/// for one of them alone.
pub proof fn law_filter_asks_for_all_its_parts(filter: FilterView, request: RequestView)
    ensures
        accepts(filter, request) <==> {
            &&& accepts(FilterView { url: filter.url, ..no_filter() }, request)
            &&& accepts(FilterView { method: filter.method, ..no_filter() }, request)
            &&& accepts(FilterView { status: filter.status, ..no_filter() }, request)
            &&& accepts(FilterView { resource_type: filter.resource_type, ..no_filter() }, request)
            &&& accepts(FilterView { failed: filter.failed, ..no_filter() }, request)
            &&& accepts(FilterView { pending: filter.pending, ..no_filter() }, request)
        },
{
}

/// A request is accepted by a filter that asks for what the request has, and that is all
/// that counts: its status, method, kind, URL, whether it failed and whether it is in
/// flight.
pub proof fn law_filter_accepts_what_it_asks_for(request: RequestView, wanted: Seq<char>)
    ensures
        request.status is Some ==> accepts(
            FilterView { status: request.status, ..no_filter() },
            request,
        ),
        ascii_lower_text(wanted) == ascii_lower_text(request.method) ==> accepts(
            FilterView { method: Some(wanted), ..no_filter() },
            request,
        ),
        request.resource_type matches Some(actual) ==> ascii_lower_text(wanted) == ascii_lower_text(
            actual,
        ) ==> accepts(FilterView { resource_type: Some(wanted), ..no_filter() }, request),
        occurs(lowercase(request.url), lowercase(wanted)) ==> accepts(
            FilterView { url: Some(wanted), ..no_filter() },
            request,
        ),
        request.failure_reason is Some || request.blocked_reason is Some ==> accepts(
            FilterView { failed: Some(true), ..no_filter() },
            request,
        ),
        request.failure_reason is None && request.blocked_reason is None ==> accepts(
            FilterView { failed: Some(false), ..no_filter() },
            request,
        ),
        accepts(FilterView { pending: Some(!request.completed), ..no_filter() }, request),
{
}

} // verus!
