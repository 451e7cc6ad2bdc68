//! HTTP requests rebuilt from the `Network.*` events of the Chrome DevTools
//! protocol (CDP).
//!
//! The store holds one entry for each CDP `requestId`, in the order in which the
//! ids first came. Only `Network.requestWillBeSent` makes an entry; every other
//! event enriches one that is there, so a response whose request was not captured
//! leaves nothing behind.

use vstd::prelude::*;
use crate::assoc::{
    assign, distinct, find, find_mut, has, law_put_all_counts, lemma_lookup_after_put,
    lemma_lookup_after_put_all, lemma_lookup_entry, lemma_lookup_push, lemma_put_entries,
    lemma_put_keeps_distinct, lemma_put_twice, lookup, put, put_all,
};
use crate::json::{
    copy_of, copy_or_null, double_in, field, field_in, get_in, has_member, members_in,
    number_or_null, optional_number, optional_text, optional_u32, or_null, read_double,
    string_field, string_field_in, text_field, text_field_in, text_in, text_or_null, u32_field,
    u32_field_in, u32_or_null, u64_in, Fields, Json, JsonView,
};
use crate::number::Number;
use crate::text::{is_blank, same};

verus! {

// ---------------------------------------------------------------------------
// Headers

/// Header values by header name.
#[derive(Debug)]
pub struct Headers {
    entries: Vec<(String, String)>,
}

impl DeepView for Headers {
    type V = Seq<(Seq<char>, Seq<char>)>;

    closed spec fn deep_view(&self) -> Seq<(Seq<char>, Seq<char>)> {
        self.entries.deep_view()
    }
}

/// The members that are strings, as headers.
pub open spec fn string_members(members: Seq<(Seq<char>, JsonView)>) -> Seq<
    (Seq<char>, Seq<char>),
>
    decreases members.len(),
{
    if members.len() == 0 {
        Seq::empty()
    } else {
        let rest = string_members(members.drop_last());
        match members.last().1 {
            JsonView::Text(value) => put(rest, members.last().0, value),
            _ => rest,
        }
    }
}

/// The headers in a JSON object; none where the value is no object.
pub open spec fn headers_object(value: JsonView) -> Seq<(Seq<char>, Seq<char>)> {
    match members_in(Some(value)) {
        Some(members) => string_members(members),
        None => Seq::empty(),
    }
}

/// No header name stands twice in what is read from a JSON object.
pub proof fn lemma_string_members_distinct(members: Seq<(Seq<char>, JsonView)>)
    ensures
        distinct(string_members(members)),
    decreases members.len(),
{
    if members.len() > 0 {
        let rest = string_members(members.drop_last());
        lemma_string_members_distinct(members.drop_last());
        if let JsonView::Text(value) = members.last().1 {
            lemma_put_keeps_distinct(rest, members.last().0, value);
        }
    }
}

/// The headers as members of a JSON object.
pub open spec fn header_members(headers: Seq<(Seq<char>, Seq<char>)>) -> Seq<
    (Seq<char>, JsonView),
> {
    Seq::new(headers.len(), |i: int| (headers[i].0, JsonView::Text(headers[i].1)))
}

impl Headers {
    /// No headers.
    pub fn new() -> (r: Headers)
        ensures
            r.deep_view() == Seq::<(Seq<char>, Seq<char>)>::empty(),
    {
        let r = Headers { entries: Vec::new() };
        assert(r.deep_view() =~= Seq::empty());
        r
    }

    /// The headers in the order in which their names first came.
    pub fn entries(&self) -> (r: &Vec<(String, String)>)
        ensures
            r.deep_view() == self.deep_view(),
    {
        &self.entries
    }

    /// The value of a header.
    pub fn get(&self, name: &str) -> (r: Option<&String>)
        ensures
            r.deep_view() == lookup(self.deep_view(), name@),
    {
        find(&self.entries, name)
    }

    /// Sets a header.
    pub fn insert(&mut self, name: &str, value: String)
        ensures
            final(self).deep_view() == put(old(self).deep_view(), name@, value@),
    {
        assign(&mut self.entries, name, value);
    }

    /// Sets each of the other headers.
    pub fn extend(&mut self, other: &Headers)
        ensures
            final(self).deep_view() == put_all(old(self).deep_view(), other.deep_view()),
    {
        let ghost before = self.deep_view();
        let mut i: usize = 0;
        while i < other.entries.len()
            invariant
                i <= other.entries@.len(),
                before == old(self).deep_view(),
                self.deep_view() == put_all(before, other.deep_view().take(i as int)),
            decreases other.entries@.len() - i,
        {
            self.insert(other.entries[i].0.as_str(), other.entries[i].1.clone());
            proof {
                let next = other.deep_view().take(i + 1);
                assert(next.drop_last() =~= other.deep_view().take(i as int));
            }
            i = i + 1;
        }
        assert(other.deep_view().take(other.entries@.len() as int) =~= other.deep_view());
    }

    /// The headers in a JSON object; none where the value is no object.
    pub fn from_json(value: &Json) -> (r: Headers)
        ensures
            r.deep_view() == headers_object(value.deep_view()),
    {
        let mut headers = Headers::new();
        if let Some(members) = value.as_object() {
            let ghost models = members.deep_view();
            let mut i: usize = 0;
            while i < members.len()
                invariant
                    i <= members@.len(),
                    models == members.deep_view(),
                    headers.deep_view() == string_members(models.take(i as int)),
                decreases members@.len() - i,
            {
                if let Some(text) = members[i].1.as_str() {
                    headers.insert(members[i].0.as_str(), text.to_owned());
                }
                proof {
                    let next = models.take(i + 1);
                    assert(next.drop_last() =~= models.take(i as int));
                    assert(next.last() == models[i as int]);
                }
                i = i + 1;
            }
            assert(models.take(members@.len() as int) =~= models);
        }
        headers
    }

    /// The headers as a JSON object.
    pub fn to_json(&self) -> (r: Json)
        ensures
            r.deep_view() == JsonView::Object(header_members(self.deep_view())),
    {
        let mut fields = Fields::new();
        let mut i: usize = 0;
        while i < self.entries.len()
            invariant
                i <= self.entries@.len(),
                fields.deep_view() == header_members(self.deep_view()).take(i as int),
            decreases self.entries@.len() - i,
        {
            fields = fields.with(self.entries[i].0.as_str(), Json::Text(self.entries[i].1.clone()));
            assert(fields.deep_view() =~= header_members(self.deep_view()).take(i + 1));
            i = i + 1;
        }
        assert(fields.deep_view() =~= header_members(self.deep_view()));
        fields.object()
    }
}

impl Clone for Headers {
    fn clone(&self) -> (r: Self)
        ensures
            r.deep_view() == self.deep_view(),
    {
        let mut entries: Vec<(String, String)> = Vec::new();
        let mut i: usize = 0;
        while i < self.entries.len()
            invariant
                i <= self.entries@.len(),
                entries@.len() == i,
                forall|j: int| 0 <= j < i ==> entries@[j] == self.entries@[j],
            decreases self.entries@.len() - i,
        {
            entries.push((self.entries[i].0.clone(), self.entries[i].1.clone()));
            i = i + 1;
        }
        assert(entries@ =~= self.entries@);
        assert(entries.deep_view() =~= self.entries.deep_view());
        Headers { entries }
    }
}

// ---------------------------------------------------------------------------
// Requests

/// The timing phases that CDP reports for a request.
#[derive(Clone, Copy, Debug, PartialEq, Eq, Structural)]
pub struct NetworkTiming {
    pub request_time: Option<Number>,
    pub proxy_start: Option<Number>,
    pub proxy_end: Option<Number>,
    pub dns_start: Option<Number>,
    pub dns_end: Option<Number>,
    pub connect_start: Option<Number>,
    pub connect_end: Option<Number>,
    pub ssl_start: Option<Number>,
    pub ssl_end: Option<Number>,
    pub send_start: Option<Number>,
    pub send_end: Option<Number>,
    pub receive_headers_end: Option<Number>,
}

impl DeepView for NetworkTiming {
    type V = NetworkTiming;

    open spec fn deep_view(&self) -> NetworkTiming {
        *self
    }
}

/// The number under that name, as a double.
pub open spec fn phase(value: JsonView, name: Seq<char>) -> Option<Number> {
    double_in(field(value, name))
}

/// The timing phases in a CDP timing object.
pub open spec fn timing_of(value: JsonView) -> NetworkTiming {
    NetworkTiming {
        request_time: phase(value, "requestTime"@),
        proxy_start: phase(value, "proxyStart"@),
        proxy_end: phase(value, "proxyEnd"@),
        dns_start: phase(value, "dnsStart"@),
        dns_end: phase(value, "dnsEnd"@),
        connect_start: phase(value, "connectStart"@),
        connect_end: phase(value, "connectEnd"@),
        ssl_start: phase(value, "sslStart"@),
        ssl_end: phase(value, "sslEnd"@),
        send_start: phase(value, "sendStart"@),
        send_end: phase(value, "sendEnd"@),
        receive_headers_end: phase(value, "receiveHeadersEnd"@),
    }
}

/// The timing phases as a JSON object.
pub open spec fn timing_json(t: NetworkTiming) -> JsonView {
    JsonView::Object(
        Seq::empty().push(("request_time"@, number_or_null(t.request_time))).push(
            ("proxy_start"@, number_or_null(t.proxy_start)),
        ).push(("proxy_end"@, number_or_null(t.proxy_end))).push(
            ("dns_start"@, number_or_null(t.dns_start)),
        ).push(("dns_end"@, number_or_null(t.dns_end))).push(
            ("connect_start"@, number_or_null(t.connect_start)),
        ).push(("connect_end"@, number_or_null(t.connect_end))).push(
            ("ssl_start"@, number_or_null(t.ssl_start)),
        ).push(("ssl_end"@, number_or_null(t.ssl_end))).push(
            ("send_start"@, number_or_null(t.send_start)),
        ).push(("send_end"@, number_or_null(t.send_end))).push(
            ("receive_headers_end"@, number_or_null(t.receive_headers_end)),
        ),
    )
}

fn phase_of(value: &Json, name: &str) -> (r: Option<Number>)
    ensures
        r == phase(value.deep_view(), name@),
{
    read_double(value.get(name))
}

impl NetworkTiming {
    /// The timing phases in a CDP timing object.
    pub fn from_json(value: &Json) -> (r: NetworkTiming)
        ensures
            r == timing_of(value.deep_view()),
    {
        NetworkTiming {
            request_time: phase_of(value, "requestTime"),
            proxy_start: phase_of(value, "proxyStart"),
            proxy_end: phase_of(value, "proxyEnd"),
            dns_start: phase_of(value, "dnsStart"),
            dns_end: phase_of(value, "dnsEnd"),
            connect_start: phase_of(value, "connectStart"),
            connect_end: phase_of(value, "connectEnd"),
            ssl_start: phase_of(value, "sslStart"),
            ssl_end: phase_of(value, "sslEnd"),
            send_start: phase_of(value, "sendStart"),
            send_end: phase_of(value, "sendEnd"),
            receive_headers_end: phase_of(value, "receiveHeadersEnd"),
        }
    }

    /// The timing phases as a JSON object.
    pub fn to_json(&self) -> (r: Json)
        ensures
            r.deep_view() == timing_json(*self),
    {
        Fields::new().with("request_time", optional_number(self.request_time)).with(
            "proxy_start",
            optional_number(self.proxy_start),
        ).with("proxy_end", optional_number(self.proxy_end)).with(
            "dns_start",
            optional_number(self.dns_start),
        ).with("dns_end", optional_number(self.dns_end)).with(
            "connect_start",
            optional_number(self.connect_start),
        ).with("connect_end", optional_number(self.connect_end)).with(
            "ssl_start",
            optional_number(self.ssl_start),
        ).with("ssl_end", optional_number(self.ssl_end)).with(
            "send_start",
            optional_number(self.send_start),
        ).with("send_end", optional_number(self.send_end)).with(
            "receive_headers_end",
            optional_number(self.receive_headers_end),
        ).object()
    }
}

/// One request and its response.
#[derive(Debug)]
pub struct NetworkRequest {
    pub request_id: String,
    pub url: String,
    pub method: String,
    pub status: Option<u32>,
    pub status_text: Option<String>,
    pub mime_type: Option<String>,
    pub resource_type: Option<String>,
    pub initiator: Option<String>,
    pub initiator_stack: Option<Json>,
    pub request_headers: Headers,
    pub response_headers: Headers,
    pub post_data: Option<String>,
    pub timing: Option<NetworkTiming>,
    pub failure_reason: Option<String>,
    pub blocked_reason: Option<String>,
    pub cors_error_status: Option<String>,
    /// A double.
    pub encoded_data_length: Option<Number>,
    pub from_cache: bool,
    /// Whether the request finished or failed, and is no longer in flight.
    pub completed: bool,
}

/// The model of a request.
pub struct RequestView {
    pub request_id: Seq<char>,
    pub url: Seq<char>,
    pub method: Seq<char>,
    pub status: Option<u32>,
    pub status_text: Option<Seq<char>>,
    pub mime_type: Option<Seq<char>>,
    pub resource_type: Option<Seq<char>>,
    pub initiator: Option<Seq<char>>,
    pub initiator_stack: Option<JsonView>,
    pub request_headers: Seq<(Seq<char>, Seq<char>)>,
    pub response_headers: Seq<(Seq<char>, Seq<char>)>,
    pub post_data: Option<Seq<char>>,
    pub timing: Option<NetworkTiming>,
    pub failure_reason: Option<Seq<char>>,
    pub blocked_reason: Option<Seq<char>>,
    pub cors_error_status: Option<Seq<char>>,
    pub encoded_data_length: Option<Number>,
    pub from_cache: bool,
    pub completed: bool,
}

impl DeepView for NetworkRequest {
    type V = RequestView;

    open spec fn deep_view(&self) -> RequestView {
        RequestView {
            request_id: self.request_id@,
            url: self.url@,
            method: self.method@,
            status: self.status,
            status_text: self.status_text.deep_view(),
            mime_type: self.mime_type.deep_view(),
            resource_type: self.resource_type.deep_view(),
            initiator: self.initiator.deep_view(),
            initiator_stack: self.initiator_stack.deep_view(),
            request_headers: self.request_headers.deep_view(),
            response_headers: self.response_headers.deep_view(),
            post_data: self.post_data.deep_view(),
            timing: self.timing.deep_view(),
            failure_reason: self.failure_reason.deep_view(),
            blocked_reason: self.blocked_reason.deep_view(),
            cors_error_status: self.cors_error_status.deep_view(),
            encoded_data_length: self.encoded_data_length,
            from_cache: self.from_cache,
            completed: self.completed,
        }
    }
}

/// A request of which nothing is known but its id.
pub open spec fn blank_request(request_id: Seq<char>) -> RequestView {
    RequestView {
        request_id,
        url: Seq::empty(),
        method: Seq::empty(),
        status: None,
        status_text: None,
        mime_type: None,
        resource_type: None,
        initiator: None,
        initiator_stack: None,
        request_headers: Seq::empty(),
        response_headers: Seq::empty(),
        post_data: None,
        timing: None,
        failure_reason: None,
        blocked_reason: None,
        cors_error_status: None,
        encoded_data_length: None,
        from_cache: false,
        completed: false,
    }
}

/// The request as a JSON object.
pub open spec fn request_json(r: RequestView) -> JsonView {
    JsonView::Object(
        Seq::empty().push(("request_id"@, JsonView::Text(r.request_id))).push(
            ("url"@, JsonView::Text(r.url)),
        ).push(("method"@, JsonView::Text(r.method))).push(("status"@, u32_or_null(r.status))).push(
            ("status_text"@, text_or_null(r.status_text)),
        ).push(("mime_type"@, text_or_null(r.mime_type))).push(
            ("resource_type"@, text_or_null(r.resource_type)),
        ).push(("initiator"@, text_or_null(r.initiator))).push(
            ("initiator_stack"@, or_null(r.initiator_stack)),
        ).push(
            ("request_headers"@, JsonView::Object(header_members(r.request_headers))),
        ).push(
            ("response_headers"@, JsonView::Object(header_members(r.response_headers))),
        ).push(("post_data"@, text_or_null(r.post_data))).push(
            (
                "timing"@,
                match r.timing {
                    Some(t) => timing_json(t),
                    None => JsonView::Null,
                },
            ),
        ).push(("failure_reason"@, text_or_null(r.failure_reason))).push(
            ("blocked_reason"@, text_or_null(r.blocked_reason)),
        ).push(("cors_error_status"@, text_or_null(r.cors_error_status))).push(
            ("encoded_data_length"@, number_or_null(r.encoded_data_length)),
        ).push(("from_cache"@, JsonView::Bool(r.from_cache))).push(
            ("completed"@, JsonView::Bool(r.completed)),
        ),
    )
}

impl NetworkRequest {
    /// A request of which nothing is known but its id.
    pub fn blank(request_id: &str) -> (r: NetworkRequest)
        ensures
            r.deep_view() == blank_request(request_id@),
    {
        NetworkRequest {
            request_id: request_id.to_owned(),
            url: String::new(),
            method: String::new(),
            status: None,
            status_text: None,
            mime_type: None,
            resource_type: None,
            initiator: None,
            initiator_stack: None,
            request_headers: Headers::new(),
            response_headers: Headers::new(),
            post_data: None,
            timing: None,
            failure_reason: None,
            blocked_reason: None,
            cors_error_status: None,
            encoded_data_length: None,
            from_cache: false,
            completed: false,
        }
    }

    /// The request in the stable JSON shape that tools and panels read.
    pub fn to_json(&self) -> (r: Json)
        ensures
            r.deep_view() == request_json(self.deep_view()),
    {
        let timing = match &self.timing {
            Some(t) => t.to_json(),
            None => Json::Null,
        };
        Fields::new().with("request_id", Json::Text(self.request_id.clone())).with(
            "url",
            Json::Text(self.url.clone()),
        ).with("method", Json::Text(self.method.clone())).with(
            "status",
            optional_u32(self.status),
        ).with("status_text", optional_text(&self.status_text)).with(
            "mime_type",
            optional_text(&self.mime_type),
        ).with("resource_type", optional_text(&self.resource_type)).with(
            "initiator",
            optional_text(&self.initiator),
        ).with("initiator_stack", copy_or_null(self.initiator_stack.as_ref())).with(
            "request_headers",
            self.request_headers.to_json(),
        ).with("response_headers", self.response_headers.to_json()).with(
            "post_data",
            optional_text(&self.post_data),
        ).with("timing", timing).with("failure_reason", optional_text(&self.failure_reason)).with(
            "blocked_reason",
            optional_text(&self.blocked_reason),
        ).with("cors_error_status", optional_text(&self.cors_error_status)).with(
            "encoded_data_length",
            optional_number(self.encoded_data_length),
        ).with("from_cache", Json::Bool(self.from_cache)).with(
            "completed",
            Json::Bool(self.completed),
        ).object()
    }
}

// ---------------------------------------------------------------------------
// Events

/// The new value where there is one, else the current one.
pub open spec fn updated<T>(new: Option<T>, current: T) -> T {
    match new {
        Some(value) => value,
        None => current,
    }
}

/// The new value where there is one, else the current one, if any.
pub open spec fn either<T>(new: Option<T>, current: Option<T>) -> Option<T> {
    match new {
        Some(value) => Some(value),
        None => current,
    }
}

/// The headers under that name, where it is there.
pub open spec fn headers_in(value: Option<JsonView>) -> Option<Seq<(Seq<char>, Seq<char>)>> {
    match value {
        Some(headers) => Some(headers_object(headers)),
        None => None,
    }
}

/// The headers together with those that came, if any.
pub open spec fn merged_headers(
    current: Seq<(Seq<char>, Seq<char>)>,
    came: Option<Seq<(Seq<char>, Seq<char>)>>,
) -> Seq<(Seq<char>, Seq<char>)> {
    match came {
        Some(headers) => put_all(current, headers),
        None => current,
    }
}

/// What `Network.requestWillBeSent` makes of a request.
pub open spec fn when_sent(request: RequestView, params: JsonView) -> RequestView {
    let data = field(params, "request"@);
    let initiator = field(params, "initiator"@);
    RequestView {
        url: updated(text_field_in(data, "url"@), request.url),
        method: updated(text_field_in(data, "method"@), request.method),
        request_headers: updated(headers_in(field_in(data, "headers"@)), request.request_headers),
        post_data: either(text_field_in(data, "postData"@), request.post_data),
        resource_type: either(text_field(params, "type"@), request.resource_type),
        initiator: either(text_field_in(initiator, "type"@), request.initiator),
        initiator_stack: field_in(initiator, "stack"@),
        ..request
    }
}

/// What `Network.responseReceived` makes of a request.
pub open spec fn when_answered(request: RequestView, params: JsonView) -> RequestView {
    let data = field(params, "response"@);
    RequestView {
        status: either(u32_field_in(data, "status"@), request.status),
        status_text: either(text_field_in(data, "statusText"@), request.status_text),
        mime_type: either(text_field_in(data, "mimeType"@), request.mime_type),
        response_headers: merged_headers(
            request.response_headers,
            headers_in(field_in(data, "headers"@)),
        ),
        timing: match field_in(data, "timing"@) {
            Some(timing) => Some(timing_of(timing)),
            None => request.timing,
        },
        url: if request.url.len() == 0 {
            updated(text_field_in(data, "url"@), request.url)
        } else {
            request.url
        },
        ..request
    }
}

/// What `Network.loadingFinished` makes of a request.
pub open spec fn when_finished(request: RequestView, params: JsonView) -> RequestView {
    RequestView {
        encoded_data_length: phase(params, "encodedDataLength"@),
        completed: true,
        ..request
    }
}

/// What `Network.loadingFailed` makes of a request.
pub open spec fn when_failed(request: RequestView, params: JsonView) -> RequestView {
    RequestView {
        failure_reason: either(text_field(params, "errorText"@), request.failure_reason),
        blocked_reason: either(text_field(params, "blockedReason"@), request.blocked_reason),
        cors_error_status: either(
            text_field_in(field(params, "corsErrorStatus"@), "corsError"@),
            request.cors_error_status,
        ),
        completed: true,
        ..request
    }
}

/// What `Network.requestWillBeSentExtraInfo` makes of a request.
pub open spec fn when_sent_with_more(request: RequestView, params: JsonView) -> RequestView {
    RequestView {
        request_headers: updated(headers_in(field(params, "headers"@)), request.request_headers),
        ..request
    }
}

/// What `Network.responseReceivedExtraInfo` makes of a request.
pub open spec fn when_answered_with_more(request: RequestView, params: JsonView) -> RequestView {
    RequestView {
        response_headers: merged_headers(
            request.response_headers,
            headers_in(field(params, "headers"@)),
        ),
        status: either(u32_field_in(Some(params), "statusCode"@), request.status),
        ..request
    }
}

/// What `Network.requestServedFromCache` makes of a request.
pub open spec fn when_cached(request: RequestView, params: JsonView) -> RequestView {
    RequestView { from_cache: true, completed: true, ..request }
}

/// What an event makes of a request that is in the store.
pub open spec fn when_event(method: Seq<char>, request: RequestView, params: JsonView) -> RequestView {
    if method == "Network.requestWillBeSent"@ {
        when_sent(request, params)
    } else if method == "Network.responseReceived"@ {
        when_answered(request, params)
    } else if method == "Network.loadingFinished"@ {
        when_finished(request, params)
    } else if method == "Network.loadingFailed"@ {
        when_failed(request, params)
    } else if method == "Network.requestWillBeSentExtraInfo"@ {
        when_sent_with_more(request, params)
    } else if method == "Network.responseReceivedExtraInfo"@ {
        when_answered_with_more(request, params)
    } else if method == "Network.requestServedFromCache"@ {
        when_cached(request, params)
    } else {
        request
    }
}

/// The store after an event: only a request that is being sent makes an entry.
pub open spec fn ingested(
    requests: Seq<(Seq<char>, RequestView)>,
    event: JsonView,
) -> Seq<(Seq<char>, RequestView)> {
    let params = or_null(field(event, "params"@));
    match (text_field(event, "method"@), text_field(params, "requestId"@)) {
        (Some(method), Some(id)) => match lookup(requests, id) {
            Some(request) => put(requests, id, when_event(method, request, params)),
            None => if method == "Network.requestWillBeSent"@ {
                put(requests, id, when_sent(blank_request(id), params))
            } else {
                requests
            },
        },
        _ => requests,
    }
}

fn take_sent(request: &mut NetworkRequest, params: &Json)
    ensures
        final(request).deep_view() == when_sent(old(request).deep_view(), params.deep_view()),
{
    let data = params.get("request");
    if let Some(url) = string_field_in(data, "url") {
        request.url = url;
    }
    if let Some(method) = string_field_in(data, "method") {
        request.method = method;
    }
    if let Some(headers) = get_in(data, "headers") {
        request.request_headers = Headers::from_json(headers);
    }
    if let Some(post_data) = string_field_in(data, "postData") {
        request.post_data = Some(post_data);
    }
    if let Some(resource_type) = string_field(params, "type") {
        request.resource_type = Some(resource_type);
    }
    let initiator = params.get("initiator");
    if let Some(kind) = string_field_in(initiator, "type") {
        request.initiator = Some(kind);
    }
    request.initiator_stack = copy_of(get_in(initiator, "stack"));
}

fn take_answered(request: &mut NetworkRequest, params: &Json)
    ensures
        final(request).deep_view() == when_answered(old(request).deep_view(), params.deep_view()),
{
    let data = params.get("response");
    if let Some(status) = u32_field(data, "status") {
        request.status = Some(status);
    }
    if let Some(status_text) = string_field_in(data, "statusText") {
        request.status_text = Some(status_text);
    }
    if let Some(mime_type) = string_field_in(data, "mimeType") {
        request.mime_type = Some(mime_type);
    }
    if let Some(headers) = get_in(data, "headers") {
        request.response_headers.extend(&Headers::from_json(headers));
    }
    if let Some(timing) = get_in(data, "timing") {
        request.timing = Some(NetworkTiming::from_json(timing));
    }
    if is_blank(request.url.as_str()) {
        if let Some(url) = string_field_in(data, "url") {
            request.url = url;
        }
    }
}

fn take_failed(request: &mut NetworkRequest, params: &Json)
    ensures
        final(request).deep_view() == when_failed(old(request).deep_view(), params.deep_view()),
{
    if let Some(error_text) = string_field(params, "errorText") {
        request.failure_reason = Some(error_text);
    }
    if let Some(blocked_reason) = string_field(params, "blockedReason") {
        request.blocked_reason = Some(blocked_reason);
    }
    if let Some(cors_error) = string_field_in(params.get("corsErrorStatus"), "corsError") {
        request.cors_error_status = Some(cors_error);
    }
    request.completed = true;
}

fn take_answered_with_more(request: &mut NetworkRequest, params: &Json)
    ensures
        final(request).deep_view() == when_answered_with_more(
            old(request).deep_view(),
            params.deep_view(),
        ),
{
    if let Some(headers) = params.get("headers") {
        request.response_headers.extend(&Headers::from_json(headers));
    }
    if let Some(status) = u32_field(Some(params), "statusCode") {
        request.status = Some(status);
    }
}

fn take_event(method: &str, request: &mut NetworkRequest, params: &Json)
    ensures
        final(request).deep_view() == when_event(
            method@,
            old(request).deep_view(),
            params.deep_view(),
        ),
{
    if same(method, "Network.requestWillBeSent") {
        take_sent(request, params);
    } else if same(method, "Network.responseReceived") {
        take_answered(request, params);
    } else if same(method, "Network.loadingFinished") {
        request.encoded_data_length = phase_of(params, "encodedDataLength");
        request.completed = true;
    } else if same(method, "Network.loadingFailed") {
        take_failed(request, params);
    } else if same(method, "Network.requestWillBeSentExtraInfo") {
        if let Some(headers) = params.get("headers") {
            request.request_headers = Headers::from_json(headers);
        }
    } else if same(method, "Network.responseReceivedExtraInfo") {
        take_answered_with_more(request, params);
    } else if same(method, "Network.requestServedFromCache") {
        request.from_cache = true;
        request.completed = true;
    }
}

// ---------------------------------------------------------------------------
// The store

/// Requests by CDP `requestId`, in the order in which the ids first came.
#[derive(Debug)]
pub struct NetworkStore {
    entries: Vec<(String, NetworkRequest)>,
}

impl DeepView for NetworkStore {
    type V = Seq<(Seq<char>, RequestView)>;

    closed spec fn deep_view(&self) -> Seq<(Seq<char>, RequestView)> {
        self.entries.deep_view()
    }
}

/// Whether no header name stands twice on either side.
pub open spec fn valid_request(request: RequestView) -> bool {
    distinct(request.request_headers) && distinct(request.response_headers)
}

/// Whether each id stands once and every request, itself valid, is kept under its
/// own id.
pub open spec fn valid_store(requests: Seq<(Seq<char>, RequestView)>) -> bool {
    &&& distinct(requests)
    &&& forall|i: int|
        0 <= i < requests.len() ==> (#[trigger] requests[i]).1.request_id == requests[i].0
            && valid_request(requests[i].1)
}

proof fn lemma_merged_headers_distinct(
    current: Seq<(Seq<char>, Seq<char>)>,
    came: Seq<(Seq<char>, Seq<char>)>,
)
    requires
        distinct(current),
    ensures
        distinct(put_all(current, came)),
    decreases came.len(),
{
    if came.len() > 0 {
        lemma_merged_headers_distinct(current, came.drop_last());
        lemma_put_keeps_distinct(
            put_all(current, came.drop_last()),
            came.last().0,
            came.last().1,
        );
    }
}

proof fn lemma_headers_in_distinct(value: Option<JsonView>)
    ensures
        headers_in(value) matches Some(headers) ==> distinct(headers),
{
    if let Some(JsonView::Object(members)) = value {
        lemma_string_members_distinct(members);
    }
}

proof fn lemma_event_keeps_valid(method: Seq<char>, request: RequestView, params: JsonView)
    requires
        valid_request(request),
    ensures
        valid_request(when_event(method, request, params)),
        valid_request(when_sent(request, params)),
{
    let sent = field_in(field(params, "request"@), "headers"@);
    let received = field_in(field(params, "response"@), "headers"@);
    let more = field(params, "headers"@);
    lemma_headers_in_distinct(sent);
    lemma_headers_in_distinct(more);
    if let Some(headers) = headers_in(received) {
        lemma_merged_headers_distinct(request.response_headers, headers);
    }
    if let Some(headers) = headers_in(more) {
        lemma_merged_headers_distinct(request.response_headers, headers);
    }
}

/// The requests of a store, without the ids they are kept under.
pub open spec fn requests_of(requests: Seq<(Seq<char>, RequestView)>) -> Seq<RequestView> {
    Seq::new(requests.len(), |i: int| requests[i].1)
}

proof fn lemma_put_keeps_valid(
    requests: Seq<(Seq<char>, RequestView)>,
    id: Seq<char>,
    request: RequestView,
)
    requires
        valid_store(requests),
        request.request_id == id,
        valid_request(request),
    ensures
        valid_store(put(requests, id, request)),
{
    lemma_put_keeps_distinct(requests, id, request);
    let after = put(requests, id, request);
    assert forall|i: int| 0 <= i < after.len() implies (#[trigger] after[i]).1.request_id
        == after[i].0 && valid_request(after[i].1) by {
        lemma_put_entries(requests, id, request, i);
    }
}

/// An event leaves a valid store valid, and no request ever leaves the store: the
/// ids that were there stay, in their order, before any id that came.
pub proof fn law_ingest_keeps_requests(requests: Seq<(Seq<char>, RequestView)>, event: JsonView)
    requires
        valid_store(requests),
    ensures
        valid_store(ingested(requests, event)),
        requests.len() <= ingested(requests, event).len() <= requests.len() + 1,
        forall|i: int|
            0 <= i < requests.len() ==> (#[trigger] ingested(requests, event)[i]).0
                == requests[i].0,
{
    let params = or_null(field(event, "params"@));
    if let (Some(method), Some(id)) = (text_field(event, "method"@), text_field(params, "requestId"@)) {
        match lookup(requests, id) {
            Some(request) => {
                lemma_lookup_entry(requests, id);
                let after = when_event(method, request, params);
                lemma_event_keeps_valid(method, request, params);
                lemma_put_keeps_valid(requests, id, after);
                lemma_put_keeps_distinct(requests, id, after);
            },
            None => {
                let after = when_sent(blank_request(id), params);
                lemma_event_keeps_valid(method, blank_request(id), params);
                lemma_put_keeps_valid(requests, id, after);
                lemma_put_keeps_distinct(requests, id, after);
            },
        }
    }
}

/// A header that a response carried stays unless a later event carries that name
/// again, so a `Set-Cookie` of `Network.responseReceivedExtraInfo` outlives a
/// `Network.responseReceived` that leaves it out.
pub proof fn law_response_headers_survive(
    method: Seq<char>,
    request: RequestView,
    params: JsonView,
    name: Seq<char>,
)
    requires
        headers_in(field_in(field(params, "response"@), "headers"@)) matches Some(came)
            ==> lookup(came, name) is None,
        headers_in(field(params, "headers"@)) matches Some(came) ==> lookup(came, name) is None,
    ensures
        lookup(when_event(method, request, params).response_headers, name) == lookup(
            request.response_headers,
            name,
        ),
{
    if let Some(came) = headers_in(field_in(field(params, "response"@), "headers"@)) {
        lemma_lookup_after_put_all(request.response_headers, came, name);
    }
    if let Some(came) = headers_in(field(params, "headers"@)) {
        lemma_lookup_after_put_all(request.response_headers, came, name);
    }
}

/// An event about one request leaves every other request as it was.
pub proof fn law_ingest_touches_one_request(
    requests: Seq<(Seq<char>, RequestView)>,
    event: JsonView,
    other: Seq<char>,
)
    requires
        text_field(or_null(field(event, "params"@)), "requestId"@) != Some(other),
    ensures
        lookup(ingested(requests, event), other) == lookup(requests, other),
{
    let params = or_null(field(event, "params"@));
    if let (Some(method), Some(id)) = (text_field(event, "method"@), text_field(params, "requestId"@)) {
        match lookup(requests, id) {
            Some(request) => {
                lemma_lookup_after_put(requests, id, when_event(method, request, params), other);
            },
            None => {
                lemma_lookup_after_put(
                    requests,
                    id,
                    when_sent(blank_request(id), params),
                    other,
                );
            },
        }
    }
}

impl NetworkStore {
    /// A store without requests.
    pub fn new() -> (r: NetworkStore)
        ensures
            r.deep_view() == Seq::<(Seq<char>, RequestView)>::empty(),
            valid_store(r.deep_view()),
    {
        let r = NetworkStore { entries: Vec::new() };
        assert(r.deep_view() =~= Seq::empty());
        r
    }

    /// Updates the store from one CDP event.
    pub fn ingest(&mut self, event: &Json)
        ensures
            final(self).deep_view() == ingested(old(self).deep_view(), event.deep_view()),
            valid_store(old(self).deep_view()) ==> valid_store(final(self).deep_view()),
    {
        let ghost before = self.deep_view();
        proof {
            if valid_store(before) {
                law_ingest_keeps_requests(before, event.deep_view());
            }
        }
        let method = match string_field(event, "method") {
            Some(method) => method,
            None => {
                return ;
            },
        };
        let params = copy_or_null(event.get("params"));
        let id = match string_field(&params, "requestId") {
            Some(id) => id,
            None => {
                return ;
            },
        };
        let known = has(&self.entries, id.as_str());
        if !known && same(method.as_str(), "Network.requestWillBeSent") {
            assign(&mut self.entries, id.as_str(), NetworkRequest::blank(id.as_str()));
        }
        let ghost between = self.deep_view();
        proof {
            lemma_lookup_after_put(before, id@, blank_request(id@), id@);
            lemma_put_twice(
                before,
                id@,
                blank_request(id@),
                when_sent(blank_request(id@), params.deep_view()),
            );
        }
        match find_mut(&mut self.entries, id.as_str()) {
            Some(request) => {
                take_event(method.as_str(), request, &params);
            },
            None => {},
        }
    }

    /// The request of that id.
    pub fn request(&self, request_id: &str) -> (r: Option<&NetworkRequest>)
        ensures
            r.deep_view() == lookup(self.deep_view(), request_id@),
    {
        find(&self.entries, request_id)
    }

    /// The requests in arrival order.
    pub fn requests(&self) -> (r: Vec<&NetworkRequest>)
        ensures
            r.deep_view() == requests_of(self.deep_view()),
    {
        let mut out: Vec<&NetworkRequest> = Vec::new();
        let mut i: usize = 0;
        while i < self.entries.len()
            invariant
                i <= self.entries@.len(),
                out.deep_view() == requests_of(self.deep_view()).take(i as int),
            decreases self.entries@.len() - i,
        {
            let ghost done = out.deep_view();
            let request = &self.entries[i].1;
            out.push(request);
            assert(out.deep_view() =~= done.push(request.deep_view()));
            assert(self.deep_view()[i as int] == self.entries.deep_view()[i as int]);
            i = i + 1;
            assert(out.deep_view() =~= requests_of(self.deep_view()).take(i as int));
        }
        assert(out.deep_view() =~= requests_of(self.deep_view()));
        out
    }

    /// How many requests there are.
    pub fn len(&self) -> (r: usize)
        ensures
            r == self.deep_view().len(),
    {
        self.entries.len()
    }

    /// Whether there are no requests.
    pub fn is_empty(&self) -> (r: bool)
        ensures
            r == (self.deep_view().len() == 0),
    {
        self.entries.len() == 0
    }

    /// Keeps a request under its own id.
    pub fn insert(&mut self, request: NetworkRequest)
        ensures
            final(self).deep_view() == put(
                old(self).deep_view(),
                request.request_id@,
                request.deep_view(),
            ),
            valid_store(old(self).deep_view()) && valid_request(request.deep_view())
                ==> valid_store(final(self).deep_view()),
    {
        proof {
            if valid_store(self.deep_view()) && valid_request(request.deep_view()) {
                lemma_put_keeps_valid(self.deep_view(), request.request_id@, request.deep_view());
            }
        }
        let id = request.request_id.clone();
        assign(&mut self.entries, id.as_str(), request);
    }
}

// ---------------------------------------------------------------------------
// What is read and written

/// Each phase of a timing object is read from the member of its own name: a double as it
/// is, and nothing where there is none.
pub proof fn law_timing_is_read_by_name(value: JsonView, bits: u64)
    ensures
        field(value, "requestTime"@) == Some(JsonView::Number(Number::Float(bits))) ==> timing_of(
            value,
        ).request_time == Some(Number::Float(bits)),
        field(value, "requestTime"@) is None ==> timing_of(value).request_time is None,
        field(value, "proxyStart"@) == Some(JsonView::Number(Number::Float(bits))) ==> timing_of(
            value,
        ).proxy_start == Some(Number::Float(bits)),
        field(value, "proxyStart"@) is None ==> timing_of(value).proxy_start is None,
        field(value, "proxyEnd"@) == Some(JsonView::Number(Number::Float(bits))) ==> timing_of(
            value,
        ).proxy_end == Some(Number::Float(bits)),
        field(value, "proxyEnd"@) is None ==> timing_of(value).proxy_end is None,
        field(value, "dnsStart"@) == Some(JsonView::Number(Number::Float(bits))) ==> timing_of(
            value,
        ).dns_start == Some(Number::Float(bits)),
        field(value, "dnsStart"@) is None ==> timing_of(value).dns_start is None,
        field(value, "dnsEnd"@) == Some(JsonView::Number(Number::Float(bits))) ==> timing_of(
            value,
        ).dns_end == Some(Number::Float(bits)),
        field(value, "dnsEnd"@) is None ==> timing_of(value).dns_end is None,
        field(value, "connectStart"@) == Some(JsonView::Number(Number::Float(bits))) ==> timing_of(
            value,
        ).connect_start == Some(Number::Float(bits)),
        field(value, "connectStart"@) is None ==> timing_of(value).connect_start is None,
        field(value, "connectEnd"@) == Some(JsonView::Number(Number::Float(bits))) ==> timing_of(
            value,
        ).connect_end == Some(Number::Float(bits)),
        field(value, "connectEnd"@) is None ==> timing_of(value).connect_end is None,
        field(value, "sslStart"@) == Some(JsonView::Number(Number::Float(bits))) ==> timing_of(
            value,
        ).ssl_start == Some(Number::Float(bits)),
        field(value, "sslStart"@) is None ==> timing_of(value).ssl_start is None,
        field(value, "sslEnd"@) == Some(JsonView::Number(Number::Float(bits))) ==> timing_of(
            value,
        ).ssl_end == Some(Number::Float(bits)),
        field(value, "sslEnd"@) is None ==> timing_of(value).ssl_end is None,
        field(value, "sendStart"@) == Some(JsonView::Number(Number::Float(bits))) ==> timing_of(
            value,
        ).send_start == Some(Number::Float(bits)),
        field(value, "sendStart"@) is None ==> timing_of(value).send_start is None,
        field(value, "sendEnd"@) == Some(JsonView::Number(Number::Float(bits))) ==> timing_of(
            value,
        ).send_end == Some(Number::Float(bits)),
        field(value, "sendEnd"@) is None ==> timing_of(value).send_end is None,
        field(value, "receiveHeadersEnd"@) == Some(JsonView::Number(Number::Float(bits))) ==> timing_of(
            value,
        ).receive_headers_end == Some(Number::Float(bits)),
        field(value, "receiveHeadersEnd"@) is None ==> timing_of(value).receive_headers_end is None,
{
}

/// Each phase is written under its own name.
pub proof fn law_timing_is_written_by_name(t: NetworkTiming)
    ensures
        has_member(timing_json(t), "request_time"@, number_or_null(t.request_time)),
        has_member(timing_json(t), "proxy_start"@, number_or_null(t.proxy_start)),
        has_member(timing_json(t), "proxy_end"@, number_or_null(t.proxy_end)),
        has_member(timing_json(t), "dns_start"@, number_or_null(t.dns_start)),
        has_member(timing_json(t), "dns_end"@, number_or_null(t.dns_end)),
        has_member(timing_json(t), "connect_start"@, number_or_null(t.connect_start)),
        has_member(timing_json(t), "connect_end"@, number_or_null(t.connect_end)),
        has_member(timing_json(t), "ssl_start"@, number_or_null(t.ssl_start)),
        has_member(timing_json(t), "ssl_end"@, number_or_null(t.ssl_end)),
        has_member(timing_json(t), "send_start"@, number_or_null(t.send_start)),
        has_member(timing_json(t), "send_end"@, number_or_null(t.send_end)),
        has_member(timing_json(t), "receive_headers_end"@, number_or_null(t.receive_headers_end)),
{
    let members = timing_json(t)->Object_0;
    assert(members[0] == ("request_time"@, number_or_null(t.request_time)));
    assert(members[1] == ("proxy_start"@, number_or_null(t.proxy_start)));
    assert(members[2] == ("proxy_end"@, number_or_null(t.proxy_end)));
    assert(members[3] == ("dns_start"@, number_or_null(t.dns_start)));
    assert(members[4] == ("dns_end"@, number_or_null(t.dns_end)));
    assert(members[5] == ("connect_start"@, number_or_null(t.connect_start)));
    assert(members[6] == ("connect_end"@, number_or_null(t.connect_end)));
    assert(members[7] == ("ssl_start"@, number_or_null(t.ssl_start)));
    assert(members[8] == ("ssl_end"@, number_or_null(t.ssl_end)));
    assert(members[9] == ("send_start"@, number_or_null(t.send_start)));
    assert(members[10] == ("send_end"@, number_or_null(t.send_end)));
    assert(members[11] == ("receive_headers_end"@, number_or_null(t.receive_headers_end)));
}

/// Everything that is known of a request is written under its own name.
pub proof fn law_request_is_written_by_name(r: RequestView)
    ensures
        has_member(request_json(r), "request_id"@, JsonView::Text(r.request_id)),
        has_member(request_json(r), "url"@, JsonView::Text(r.url)),
        has_member(request_json(r), "method"@, JsonView::Text(r.method)),
        has_member(request_json(r), "status"@, u32_or_null(r.status)),
        has_member(request_json(r), "status_text"@, text_or_null(r.status_text)),
        has_member(request_json(r), "mime_type"@, text_or_null(r.mime_type)),
        has_member(request_json(r), "resource_type"@, text_or_null(r.resource_type)),
        has_member(request_json(r), "initiator"@, text_or_null(r.initiator)),
        has_member(request_json(r), "initiator_stack"@, or_null(r.initiator_stack)),
        has_member(request_json(r), "request_headers"@, JsonView::Object(header_members(r.request_headers))),
        has_member(request_json(r), "response_headers"@, JsonView::Object(header_members(r.response_headers))),
        has_member(request_json(r), "post_data"@, text_or_null(r.post_data)),
        has_member(request_json(r), "failure_reason"@, text_or_null(r.failure_reason)),
        has_member(request_json(r), "blocked_reason"@, text_or_null(r.blocked_reason)),
        has_member(request_json(r), "cors_error_status"@, text_or_null(r.cors_error_status)),
        has_member(request_json(r), "encoded_data_length"@, number_or_null(r.encoded_data_length)),
        has_member(request_json(r), "from_cache"@, JsonView::Bool(r.from_cache)),
        has_member(request_json(r), "completed"@, JsonView::Bool(r.completed)),
        r.timing is None ==> has_member(request_json(r), "timing"@, JsonView::Null),
        r.timing matches Some(timing) ==> has_member(
            request_json(r),
            "timing"@,
            timing_json(timing),
        ),
{
    let members = request_json(r)->Object_0;
    assert(members[0] == ("request_id"@, JsonView::Text(r.request_id)));
    assert(members[1] == ("url"@, JsonView::Text(r.url)));
    assert(members[2] == ("method"@, JsonView::Text(r.method)));
    assert(members[3] == ("status"@, u32_or_null(r.status)));
    assert(members[4] == ("status_text"@, text_or_null(r.status_text)));
    assert(members[5] == ("mime_type"@, text_or_null(r.mime_type)));
    assert(members[6] == ("resource_type"@, text_or_null(r.resource_type)));
    assert(members[7] == ("initiator"@, text_or_null(r.initiator)));
    assert(members[8] == ("initiator_stack"@, or_null(r.initiator_stack)));
    assert(members[9] == ("request_headers"@, JsonView::Object(header_members(r.request_headers))));
    assert(members[10] == ("response_headers"@, JsonView::Object(header_members(r.response_headers))));
    assert(members[11] == ("post_data"@, text_or_null(r.post_data)));
    assert(members[12].0 == "timing"@);
    assert(members[12] == (members[12].0, members[12].1));
    assert(members[13] == ("failure_reason"@, text_or_null(r.failure_reason)));
    assert(members[14] == ("blocked_reason"@, text_or_null(r.blocked_reason)));
    assert(members[15] == ("cors_error_status"@, text_or_null(r.cors_error_status)));
    assert(members[16] == ("encoded_data_length"@, number_or_null(r.encoded_data_length)));
    assert(members[17] == ("from_cache"@, JsonView::Bool(r.from_cache)));
    assert(members[18] == ("completed"@, JsonView::Bool(r.completed)));
}

/// Headers are written one by one, each name with its value, in order.
pub proof fn law_headers_are_written_one_by_one(headers: Seq<(Seq<char>, Seq<char>)>, i: int)
    requires
        0 <= i < headers.len(),
    ensures
        header_members(headers).len() == headers.len(),
        header_members(headers)[i] == (headers[i].0, JsonView::Text(headers[i].1)),
{
}

/// A header is read from the text of its name, and from nothing else.
pub proof fn law_headers_are_read_by_name(members: Seq<(Seq<char>, JsonView)>, name: Seq<char>)
    requires
        distinct(members),
    ensures
        lookup(headers_object(JsonView::Object(members)), name) == text_in(
            field(JsonView::Object(members), name),
        ),
        lookup(string_members(members), name) == text_in(lookup(members, name)),
    decreases members.len(),
{
    if members.len() > 0 {
        let rest = members.drop_last();
        let last = members.last();
        assert(distinct(rest)) by {
            assert forall|i: int, j: int| 0 <= i < j < rest.len() implies (#[trigger] rest[i]).0 != (
            #[trigger] rest[j]).0 by {
                assert(rest[i] == members[i] && rest[j] == members[j]);
            }
        }
        law_headers_are_read_by_name(rest, name);
        lemma_lookup_push(rest, last, name);
        assert(rest.push(last) =~= members);
        if last.0 == name {
            lemma_lookup_entry(rest, name);
            if lookup(rest, name) is Some {
                let i = choose|i: int| 0 <= i < rest.len() && (#[trigger] rest[i]).0 == name;
                assert(members[i] == rest[i]);
                assert(members[i].0 != members[members.len() - 1].0);
            }
        }
        if let JsonView::Text(value) = last.1 {
            lemma_lookup_after_put(string_members(rest), last.0, value, name);
        }
    }
}

/// Whether this is the event of that method about that request.
pub open spec fn is_event(
    event: JsonView,
    method: Seq<char>,
    id: Seq<char>,
    params: JsonView,
) -> bool {
    &&& field(event, "method"@) == Some(JsonView::Text(method))
    &&& field(event, "params"@) == Some(params)
    &&& field(params, "requestId"@) == Some(JsonView::Text(id))
}

proof fn lemma_methods_differ()
    ensures
        "Network.requestWillBeSent"@.len() == 25,
        "Network.responseReceived"@.len() == 24,
        "Network.loadingFinished"@.len() == 23,
        "Network.loadingFailed"@.len() == 21,
        "Network.requestWillBeSentExtraInfo"@.len() == 34,
        "Network.responseReceivedExtraInfo"@.len() == 33,
        "Network.requestServedFromCache"@.len() == 30,
{
    reveal_strlit("Network.requestWillBeSent");
    reveal_strlit("Network.responseReceived");
    reveal_strlit("Network.loadingFinished");
    reveal_strlit("Network.loadingFailed");
    reveal_strlit("Network.requestWillBeSentExtraInfo");
    reveal_strlit("Network.responseReceivedExtraInfo");
    reveal_strlit("Network.requestServedFromCache");
}

/// A request that is sent comes into the store, with what the event says of it: its URL,
/// method, headers, body and kind, and what made it. Of one that is there already the rest
/// stays; one that was not there comes last, and is in flight.
pub proof fn law_sent_request_is_recorded(
    requests: Seq<(Seq<char>, RequestView)>,
    event: JsonView,
    id: Seq<char>,
    params: JsonView,
    data: JsonView,
    initiator: JsonView,
)
    requires
        distinct(requests),
        is_event(event, "Network.requestWillBeSent"@, id, params),
        field(params, "request"@) == Some(data),
        field(params, "initiator"@) == Some(initiator),
    ensures
        lookup(ingested(requests, event), id) is Some,
        ({
            let after = lookup(ingested(requests, event), id)->0;
            &&& text_in(field(data, "url"@)) matches Some(t) ==> after.url == t
            &&& text_in(field(data, "method"@)) matches Some(t) ==> after.method == t
            &&& text_in(field(data, "postData"@)) matches Some(t) ==> after.post_data == Some(t)
            &&& text_in(field(params, "type"@)) matches Some(t) ==> after.resource_type == Some(t)
            &&& text_in(field(initiator, "type"@)) matches Some(t) ==> after.initiator == Some(t)
            &&& after.initiator_stack == field(initiator, "stack"@)
            &&& field(data, "headers"@) matches Some(headers) ==> after.request_headers
                == headers_object(headers)
        }),
        lookup(requests, id) is None ==> {
            let after = lookup(ingested(requests, event), id)->0;
            &&& ingested(requests, event) == requests.push((id, after))
            &&& after.request_id == id
            &&& after.status is None
            &&& after.response_headers.len() == 0
            &&& after.failure_reason is None
            &&& after.blocked_reason is None
            &&& !after.completed
            &&& !after.from_cache
        },
        lookup(requests, id) matches Some(known) ==> {
            let after = lookup(ingested(requests, event), id)->0;
            &&& after.request_id == known.request_id
            &&& after.status == known.status
            &&& after.status_text == known.status_text
            &&& after.mime_type == known.mime_type
            &&& after.response_headers == known.response_headers
            &&& after.timing == known.timing
            &&& after.failure_reason == known.failure_reason
            &&& after.blocked_reason == known.blocked_reason
            &&& after.cors_error_status == known.cors_error_status
            &&& after.encoded_data_length == known.encoded_data_length
            &&& after.from_cache == known.from_cache
            &&& after.completed == known.completed
            &&& field(data, "url"@) is None ==> after.url == known.url
            &&& field(data, "method"@) is None ==> after.method == known.method
            &&& field(data, "postData"@) is None ==> after.post_data == known.post_data
            &&& field(data, "headers"@) is None ==> after.request_headers == known.request_headers
        },
{
    let new = match lookup(requests, id) {
        Some(known) => when_sent(known, params),
        None => when_sent(blank_request(id), params),
    };
    lemma_lookup_after_put(requests, id, new, id);
    lemma_put_keeps_distinct(requests, id, new);
}

/// What the browser received is recorded with its request: the status, the kind of
/// content, the headers, the timing. The request stays in flight, and what was sent stays.
pub proof fn law_response_is_recorded(
    requests: Seq<(Seq<char>, RequestView)>,
    event: JsonView,
    id: Seq<char>,
    params: JsonView,
    data: JsonView,
)
    requires
        is_event(event, "Network.responseReceived"@, id, params),
        field(params, "response"@) == Some(data),
        lookup(requests, id) is Some,
    ensures
        lookup(ingested(requests, event), id) is Some,
        ({
            let known = lookup(requests, id)->0;
            let after = lookup(ingested(requests, event), id)->0;
            &&& u64_in(field(data, "status"@)) matches Some(n) ==> n <= u32::MAX ==> after.status
                == Some(n as u32)
            &&& field(data, "status"@) is None ==> after.status == known.status
            &&& text_in(field(data, "statusText"@)) matches Some(t) ==> after.status_text == Some(t)
            &&& text_in(field(data, "mimeType"@)) matches Some(t) ==> after.mime_type == Some(t)
            &&& field(data, "timing"@) matches Some(t) ==> after.timing == Some(timing_of(t))
            &&& field(data, "timing"@) is None ==> after.timing == known.timing
            &&& known.url.len() > 0 ==> after.url == known.url
            &&& known.url.len() == 0 ==> (text_in(field(data, "url"@)) matches Some(t)
                ==> after.url == t)
            &&& after.method == known.method
            &&& after.request_headers == known.request_headers
            &&& after.post_data == known.post_data
            &&& after.resource_type == known.resource_type
            &&& after.initiator == known.initiator
            &&& after.failure_reason == known.failure_reason
            &&& after.blocked_reason == known.blocked_reason
            &&& after.completed == known.completed
            &&& after.from_cache == known.from_cache
            &&& after.encoded_data_length == known.encoded_data_length
        }),
{
    lemma_methods_differ();
    let new = when_answered(lookup(requests, id)->0, params);
    lemma_lookup_after_put(requests, id, new, id);
}

/// A response's headers are added to those known, name by name.
pub proof fn law_response_headers_are_added(
    requests: Seq<(Seq<char>, RequestView)>,
    event: JsonView,
    id: Seq<char>,
    params: JsonView,
    data: JsonView,
    members: Seq<(Seq<char>, JsonView)>,
    name: Seq<char>,
)
    requires
        lookup(requests, id) is Some,
        distinct(members),
        (is_event(event, "Network.responseReceived"@, id, params) && field(params, "response"@)
            == Some(data)) || (is_event(event, "Network.responseReceivedExtraInfo"@, id, params)
            && data == params),
        field(data, "headers"@) == Some(JsonView::Object(members)),
    ensures
        lookup(lookup(ingested(requests, event), id)->0.response_headers, name) == match text_in(
            field(JsonView::Object(members), name),
        ) {
            Some(value) => Some(value),
            None => lookup(lookup(requests, id)->0.response_headers, name),
        },
{
    lemma_methods_differ();
    let known = lookup(requests, id)->0;
    lemma_lookup_after_put(requests, id, when_answered(known, params), id);
    lemma_lookup_after_put(requests, id, when_answered_with_more(known, params), id);
    law_headers_are_read_by_name(members, name);
    lemma_string_members_distinct(members);
    law_put_all_counts(known.response_headers, string_members(members), name);
}

/// A request that has finished is in flight no more, and its size is known; nothing else of
/// it changes.
pub proof fn law_finished_request_is_complete(
    requests: Seq<(Seq<char>, RequestView)>,
    event: JsonView,
    id: Seq<char>,
    params: JsonView,
    bits: u64,
)
    requires
        is_event(event, "Network.loadingFinished"@, id, params),
        lookup(requests, id) is Some,
    ensures
        ({
            let known = lookup(requests, id)->0;
            let after = lookup(ingested(requests, event), id)->0;
            &&& lookup(ingested(requests, event), id) is Some
            &&& after.completed
            &&& field(params, "encodedDataLength"@) == Some(
                JsonView::Number(Number::Float(bits)),
            ) ==> after.encoded_data_length == Some(Number::Float(bits))
            &&& after == (RequestView {
                completed: true,
                encoded_data_length: after.encoded_data_length,
                ..known
            })
        }),
{
    lemma_methods_differ();
    lemma_lookup_after_put(requests, id, when_finished(lookup(requests, id)->0, params), id);
}

/// A request that has failed is in flight no more, and it is known why: the error, the
/// reason for which it was blocked, the rule about origins; nothing else of it changes.
pub proof fn law_failed_request_says_why(
    requests: Seq<(Seq<char>, RequestView)>,
    event: JsonView,
    id: Seq<char>,
    params: JsonView,
    cors: JsonView,
)
    requires
        is_event(event, "Network.loadingFailed"@, id, params),
        lookup(requests, id) is Some,
    ensures
        ({
            let known = lookup(requests, id)->0;
            let after = lookup(ingested(requests, event), id)->0;
            &&& lookup(ingested(requests, event), id) is Some
            &&& after.completed
            &&& text_in(field(params, "errorText"@)) matches Some(t) ==> after.failure_reason
                == Some(t)
            &&& text_in(field(params, "blockedReason"@)) matches Some(t) ==> after.blocked_reason
                == Some(t)
            &&& field(params, "corsErrorStatus"@) == Some(cors) ==> (text_in(
                field(cors, "corsError"@),
            ) matches Some(t) ==> after.cors_error_status == Some(t))
            &&& field(params, "blockedReason"@) is None ==> after.blocked_reason
                == known.blocked_reason
            &&& after == (RequestView {
                completed: true,
                failure_reason: after.failure_reason,
                blocked_reason: after.blocked_reason,
                cors_error_status: after.cors_error_status,
                ..known
            })
        }),
{
    lemma_methods_differ();
    lemma_lookup_after_put(requests, id, when_failed(lookup(requests, id)->0, params), id);
}

/// More that is known of a request or a response is recorded with it, and nothing else
/// changes: the headers that were really sent, and the status that really came.
pub proof fn law_more_is_recorded(
    requests: Seq<(Seq<char>, RequestView)>,
    event: JsonView,
    id: Seq<char>,
    params: JsonView,
)
    requires
        lookup(requests, id) is Some,
    ensures
        is_event(event, "Network.requestWillBeSentExtraInfo"@, id, params) ==> {
            let known = lookup(requests, id)->0;
            let after = lookup(ingested(requests, event), id)->0;
            &&& field(params, "headers"@) matches Some(headers) ==> after.request_headers
                == headers_object(headers)
            &&& after == (RequestView { request_headers: after.request_headers, ..known })
        },
        is_event(event, "Network.responseReceivedExtraInfo"@, id, params) ==> {
            let known = lookup(requests, id)->0;
            let after = lookup(ingested(requests, event), id)->0;
            &&& u64_in(field(params, "statusCode"@)) matches Some(n) ==> n <= u32::MAX
                ==> after.status == Some(n as u32)
            &&& field(params, "statusCode"@) is None ==> after.status == known.status
            &&& after == (RequestView {
                status: after.status,
                response_headers: after.response_headers,
                ..known
            })
        },
        is_event(event, "Network.requestServedFromCache"@, id, params) ==> {
            let known = lookup(requests, id)->0;
            lookup(ingested(requests, event), id) == Some(
                RequestView { from_cache: true, completed: true, ..known },
            )
        },
{
    lemma_methods_differ();
    let known = lookup(requests, id)->0;
    lemma_lookup_after_put(requests, id, when_sent_with_more(known, params), id);
    lemma_lookup_after_put(requests, id, when_answered_with_more(known, params), id);
    lemma_lookup_after_put(requests, id, when_cached(known, params), id);
}

/// Only a request that is sent makes an entry, and an event of any other method changes
/// nothing.
pub proof fn law_other_events_change_nothing(
    requests: Seq<(Seq<char>, RequestView)>,
    event: JsonView,
    method: Seq<char>,
    id: Seq<char>,
    params: JsonView,
)
    requires
        is_event(event, method, id, params),
        method != "Network.requestWillBeSent"@,
    ensures
        lookup(requests, id) is None ==> ingested(requests, event) == requests,
        method != "Network.responseReceived"@ && method != "Network.loadingFinished"@ && method
            != "Network.loadingFailed"@ && method != "Network.requestWillBeSentExtraInfo"@
            && method != "Network.responseReceivedExtraInfo"@ && method
            != "Network.requestServedFromCache"@ ==> lookup(ingested(requests, event), id)
            == lookup(requests, id),
{
    if let Some(known) = lookup(requests, id) {
        lemma_lookup_after_put(requests, id, when_event(method, known, params), id);
    }
}

} // verus!
