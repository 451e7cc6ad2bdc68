//! The agent's tool for inspecting and changing a browser's network traffic.
//!
//! Reading is possible in every mode. Whatever changes something needs a mode that can
//! change things, and the user's permission.

use vstd::prelude::*;
use crate::browser::{TargetCommand, TargetCommandView};
use crate::control::{
    preset_conditions, preset_of, InterceptionConfig, InterceptionPattern, PatternView,
    ThrottleConditions, ThrottlePreset, ThrottleView,
};
use crate::digits::{decimal, decimal_text};
use crate::json::{text_field, Json, JsonView};
use crate::network::Headers;
use crate::request_filter::{FilterView, RequestFilter};
use crate::text::{begins_with, lemma_occurs_between, occurs};
use crate::tool_plan::{
    call_title, lemma_asked_names_session_and_rest, permission_inputs, permission_list,
    planned_call, show_output, shown_output, title_of_call,
    title_of_partial_call, OutputView, PlanView, ToolOutput, ToolPlan,
};

verus! {

/// What to do.
#[derive(Clone, Copy, Debug, PartialEq, Eq, Structural)]
pub enum NetworkOperation {
    /// List requests from the capture, filtered and paginated.
    ListRequests,
    /// Fetch one request.
    GetRequest,
    /// Fetch a slice of a response body.
    GetResponseBody,
    /// Fetch what a request posted.
    GetRequestPostData,
    /// Fetch the browser's cookies.
    GetCookies,
    /// Fetch the frames of a web socket.
    GetWebSocketFrames,
    /// Wait until no request is in flight.
    WaitForNetworkIdle,
    /// Export the capture as a HAR object.
    HarExport,
    /// Replace the capture with a HAR object.
    HarImport,
    /// List the requests that are paused.
    ListPausedRequests,
    /// Read what the session is put under.
    GetControlState,
    /// Throttle the network.
    SetThrottle,
    /// Go offline or online.
    SetOffline,
    /// Block URLs.
    BlockUrls,
    /// Unblock URLs.
    UnblockUrls,
    /// Disable or enable the cache.
    SetCacheDisabled,
    /// Bypass service workers or not.
    SetBypassServiceWorker,
    /// Clear the cache.
    ClearBrowserCache,
    /// Clear the cookies.
    ClearBrowserCookies,
    /// Set a cookie.
    SetCookie,
    /// Delete cookies.
    DeleteCookies,
    /// Override the headers that are sent.
    SetExtraHttpHeaders,
    /// Override the user agent.
    SetUserAgent,
    /// Intercept requests.
    SetInterception,
    /// Let a paused request go on, changed or not.
    ContinueRequest,
    /// Answer a paused request.
    FulfillRequest,
    /// Fail a paused request.
    FailRequest,
}

impl Default for NetworkOperation {
    fn default() -> (r: NetworkOperation)
        ensures
            r == NetworkOperation::ListRequests,
    {
        NetworkOperation::ListRequests
    }
}

/// The name of an operation.
pub open spec fn network_operation_name(operation: NetworkOperation) -> Seq<char> {
    match operation {
        NetworkOperation::ListRequests => "list_requests"@,
        NetworkOperation::GetRequest => "get_request"@,
        NetworkOperation::GetResponseBody => "get_response_body"@,
        NetworkOperation::GetRequestPostData => "get_request_post_data"@,
        NetworkOperation::GetCookies => "get_cookies"@,
        NetworkOperation::GetWebSocketFrames => "get_websocket_frames"@,
        NetworkOperation::WaitForNetworkIdle => "wait_for_network_idle"@,
        NetworkOperation::HarExport => "har_export"@,
        NetworkOperation::HarImport => "har_import"@,
        NetworkOperation::ListPausedRequests => "list_paused_requests"@,
        NetworkOperation::GetControlState => "get_control_state"@,
        NetworkOperation::SetThrottle => "set_throttle"@,
        NetworkOperation::SetOffline => "set_offline"@,
        NetworkOperation::BlockUrls => "block_urls"@,
        NetworkOperation::UnblockUrls => "unblock_urls"@,
        NetworkOperation::SetCacheDisabled => "set_cache_disabled"@,
        NetworkOperation::SetBypassServiceWorker => "set_bypass_service_worker"@,
        NetworkOperation::ClearBrowserCache => "clear_browser_cache"@,
        NetworkOperation::ClearBrowserCookies => "clear_browser_cookies"@,
        NetworkOperation::SetCookie => "set_cookie"@,
        NetworkOperation::DeleteCookies => "delete_cookies"@,
        NetworkOperation::SetExtraHttpHeaders => "set_extra_http_headers"@,
        NetworkOperation::SetUserAgent => "set_user_agent"@,
        NetworkOperation::SetInterception => "set_interception"@,
        NetworkOperation::ContinueRequest => "continue_request"@,
        NetworkOperation::FulfillRequest => "fulfill_request"@,
        NetworkOperation::FailRequest => "fail_request"@,
    }
}

/// Whether an operation changes something.
pub open spec fn network_writes(operation: NetworkOperation) -> bool {
    match operation {
        NetworkOperation::ListRequests
        | NetworkOperation::GetRequest
        | NetworkOperation::GetResponseBody
        | NetworkOperation::GetRequestPostData
        | NetworkOperation::GetCookies
        | NetworkOperation::GetWebSocketFrames
        | NetworkOperation::WaitForNetworkIdle
        | NetworkOperation::HarExport
        | NetworkOperation::ListPausedRequests
        | NetworkOperation::GetControlState => false,
        _ => true,
    }
}

/// Whether an operation decides on a paused request.
pub open spec fn decides_on_request(operation: NetworkOperation) -> bool {
    operation == NetworkOperation::ContinueRequest || operation == NetworkOperation::FulfillRequest
        || operation == NetworkOperation::FailRequest
}

/// What is said once an operation succeeded.
pub open spec fn network_success(operation: NetworkOperation) -> Seq<char> {
    match operation {
        NetworkOperation::ListRequests => "listed network requests"@,
        NetworkOperation::GetRequest => "fetched request"@,
        NetworkOperation::GetResponseBody => "fetched response body"@,
        NetworkOperation::GetRequestPostData => "fetched request post data"@,
        NetworkOperation::GetCookies => "fetched cookies"@,
        NetworkOperation::GetWebSocketFrames => "fetched websocket frames"@,
        NetworkOperation::WaitForNetworkIdle => "waited for network idle"@,
        NetworkOperation::HarExport => "exported HAR"@,
        NetworkOperation::HarImport => "imported HAR"@,
        NetworkOperation::ListPausedRequests => "listed paused requests"@,
        NetworkOperation::GetControlState => "read network control state"@,
        NetworkOperation::SetThrottle => "set network throttle"@,
        NetworkOperation::SetOffline => "set offline state"@,
        NetworkOperation::BlockUrls => "blocked URLs"@,
        NetworkOperation::UnblockUrls => "unblocked URLs"@,
        NetworkOperation::SetCacheDisabled => "toggled cache"@,
        NetworkOperation::SetBypassServiceWorker => "toggled service worker bypass"@,
        NetworkOperation::ClearBrowserCache => "cleared browser cache"@,
        NetworkOperation::ClearBrowserCookies => "cleared browser cookies"@,
        NetworkOperation::SetCookie => "set cookie"@,
        NetworkOperation::DeleteCookies => "deleted cookies"@,
        NetworkOperation::SetExtraHttpHeaders => "set extra HTTP headers"@,
        NetworkOperation::SetUserAgent => "set user agent"@,
        NetworkOperation::SetInterception => "enabled network interception"@,
        NetworkOperation::ContinueRequest => "continued request"@,
        NetworkOperation::FulfillRequest => "fulfilled request"@,
        NetworkOperation::FailRequest => "failed request"@,
    }
}

/// The title under which the user is asked for permission.
pub open spec fn network_ask_title(operation: NetworkOperation) -> Seq<char> {
    match operation {
        NetworkOperation::HarImport => "Import HAR capture"@,
        NetworkOperation::SetThrottle => "Set network throttle"@,
        NetworkOperation::SetOffline => "Set network offline"@,
        NetworkOperation::BlockUrls => "Block network URLs"@,
        NetworkOperation::UnblockUrls => "Unblock network URLs"@,
        NetworkOperation::SetCacheDisabled => "Toggle browser cache"@,
        NetworkOperation::SetBypassServiceWorker => "Toggle service worker bypass"@,
        NetworkOperation::ClearBrowserCache => "Clear browser cache"@,
        NetworkOperation::ClearBrowserCookies => "Clear browser cookies"@,
        NetworkOperation::SetCookie => "Set browser cookie"@,
        NetworkOperation::DeleteCookies => "Delete browser cookies"@,
        NetworkOperation::SetExtraHttpHeaders => "Override HTTP headers"@,
        NetworkOperation::SetUserAgent => "Override user agent"@,
        NetworkOperation::SetInterception => "Enable network interception"@,
        NetworkOperation::ContinueRequest => "Continue network request"@,
        NetworkOperation::FulfillRequest => "Fulfill network request"@,
        NetworkOperation::FailRequest => "Fail network request"@,
        _ => Seq::empty(),
    }
}

impl NetworkOperation {
    /// The name of this operation.
    pub fn name(self) -> (r: &'static str)
        ensures
            r@ == network_operation_name(self),
    {
        match self {
            NetworkOperation::ListRequests => "list_requests",
            NetworkOperation::GetRequest => "get_request",
            NetworkOperation::GetResponseBody => "get_response_body",
            NetworkOperation::GetRequestPostData => "get_request_post_data",
            NetworkOperation::GetCookies => "get_cookies",
            NetworkOperation::GetWebSocketFrames => "get_websocket_frames",
            NetworkOperation::WaitForNetworkIdle => "wait_for_network_idle",
            NetworkOperation::HarExport => "har_export",
            NetworkOperation::HarImport => "har_import",
            NetworkOperation::ListPausedRequests => "list_paused_requests",
            NetworkOperation::GetControlState => "get_control_state",
            NetworkOperation::SetThrottle => "set_throttle",
            NetworkOperation::SetOffline => "set_offline",
            NetworkOperation::BlockUrls => "block_urls",
            NetworkOperation::UnblockUrls => "unblock_urls",
            NetworkOperation::SetCacheDisabled => "set_cache_disabled",
            NetworkOperation::SetBypassServiceWorker => "set_bypass_service_worker",
            NetworkOperation::ClearBrowserCache => "clear_browser_cache",
            NetworkOperation::ClearBrowserCookies => "clear_browser_cookies",
            NetworkOperation::SetCookie => "set_cookie",
            NetworkOperation::DeleteCookies => "delete_cookies",
            NetworkOperation::SetExtraHttpHeaders => "set_extra_http_headers",
            NetworkOperation::SetUserAgent => "set_user_agent",
            NetworkOperation::SetInterception => "set_interception",
            NetworkOperation::ContinueRequest => "continue_request",
            NetworkOperation::FulfillRequest => "fulfill_request",
            NetworkOperation::FailRequest => "fail_request",
        }
    }

    /// Whether this operation changes something.
    pub fn is_write(self) -> (r: bool)
        ensures
            r == network_writes(self),
    {
        match self {
            NetworkOperation::ListRequests => false,
            NetworkOperation::GetRequest => false,
            NetworkOperation::GetResponseBody => false,
            NetworkOperation::GetRequestPostData => false,
            NetworkOperation::GetCookies => false,
            NetworkOperation::GetWebSocketFrames => false,
            NetworkOperation::WaitForNetworkIdle => false,
            NetworkOperation::HarExport => false,
            NetworkOperation::ListPausedRequests => false,
            NetworkOperation::GetControlState => false,
            _ => true,
        }
    }

    fn success_text(self) -> (r: &'static str)
        ensures
            r@ == network_success(self),
    {
        match self {
            NetworkOperation::ListRequests => "listed network requests",
            NetworkOperation::GetRequest => "fetched request",
            NetworkOperation::GetResponseBody => "fetched response body",
            NetworkOperation::GetRequestPostData => "fetched request post data",
            NetworkOperation::GetCookies => "fetched cookies",
            NetworkOperation::GetWebSocketFrames => "fetched websocket frames",
            NetworkOperation::WaitForNetworkIdle => "waited for network idle",
            NetworkOperation::HarExport => "exported HAR",
            NetworkOperation::HarImport => "imported HAR",
            NetworkOperation::ListPausedRequests => "listed paused requests",
            NetworkOperation::GetControlState => "read network control state",
            NetworkOperation::SetThrottle => "set network throttle",
            NetworkOperation::SetOffline => "set offline state",
            NetworkOperation::BlockUrls => "blocked URLs",
            NetworkOperation::UnblockUrls => "unblocked URLs",
            NetworkOperation::SetCacheDisabled => "toggled cache",
            NetworkOperation::SetBypassServiceWorker => "toggled service worker bypass",
            NetworkOperation::ClearBrowserCache => "cleared browser cache",
            NetworkOperation::ClearBrowserCookies => "cleared browser cookies",
            NetworkOperation::SetCookie => "set cookie",
            NetworkOperation::DeleteCookies => "deleted cookies",
            NetworkOperation::SetExtraHttpHeaders => "set extra HTTP headers",
            NetworkOperation::SetUserAgent => "set user agent",
            NetworkOperation::SetInterception => "enabled network interception",
            NetworkOperation::ContinueRequest => "continued request",
            NetworkOperation::FulfillRequest => "fulfilled request",
            NetworkOperation::FailRequest => "failed request",
        }
    }

    fn ask_title(self) -> (r: &'static str)
        requires
            network_writes(self),
        ensures
            r@ == network_ask_title(self),
    {
        match self {
            NetworkOperation::HarImport => "Import HAR capture",
            NetworkOperation::SetThrottle => "Set network throttle",
            NetworkOperation::SetOffline => "Set network offline",
            NetworkOperation::BlockUrls => "Block network URLs",
            NetworkOperation::UnblockUrls => "Unblock network URLs",
            NetworkOperation::SetCacheDisabled => "Toggle browser cache",
            NetworkOperation::SetBypassServiceWorker => "Toggle service worker bypass",
            NetworkOperation::ClearBrowserCache => "Clear browser cache",
            NetworkOperation::ClearBrowserCookies => "Clear browser cookies",
            NetworkOperation::SetCookie => "Set browser cookie",
            NetworkOperation::DeleteCookies => "Delete browser cookies",
            NetworkOperation::SetExtraHttpHeaders => "Override HTTP headers",
            NetworkOperation::SetUserAgent => "Override user agent",
            NetworkOperation::SetInterception => "Enable network interception",
            NetworkOperation::ContinueRequest => "Continue network request",
            NetworkOperation::FulfillRequest => "Fulfill network request",
            _ => "Fail network request",
        }
    }
}

// ---------------------------------------------------------------------------
// Input

/// Network conditions of one's own.
#[derive(Debug)]
pub struct NetworkThrottleInput {
    pub offline: Option<bool>,
    pub latency_ms: Option<u32>,
    pub download_throughput_bps: Option<i64>,
    pub upload_throughput_bps: Option<i64>,
    pub connection_type: Option<String>,
}

/// A pattern of URLs to intercept.
#[derive(Debug)]
pub struct NetworkInterceptionPatternInput {
    pub url_pattern: String,
    pub request_stage: Option<String>,
}

impl DeepView for NetworkInterceptionPatternInput {
    type V = PatternView;

    open spec fn deep_view(&self) -> PatternView {
        PatternView {
            url_pattern: self.url_pattern@,
            request_stage: self.request_stage.deep_view(),
        }
    }
}

/// The tool's input: the operation and the fields that it needs.
#[derive(Debug)]
pub struct NetworkToolInput {
    pub operation: NetworkOperation,
    pub session_id: Option<u64>,
    /// The session's active target is meant where none is given.
    pub target_id: Option<String>,
    pub request_id: Option<String>,
    pub url: Option<String>,
    pub method: Option<String>,
    pub status: Option<u32>,
    pub resource_type: Option<String>,
    pub failed: Option<bool>,
    pub pending: Option<bool>,
    /// How many requests to skip.
    pub cursor: Option<usize>,
    /// How many requests to list: a hundred where none is given, five hundred at most.
    pub limit: Option<usize>,
    /// How many bytes of a body to skip.
    pub offset: Option<usize>,
    /// How many bytes of a body to fetch: 64 KiB where none is given, 1 MiB at most.
    pub max_body_bytes: Option<usize>,
    /// For how long the network must be idle: 500 where none is given.
    pub idle_for_ms: Option<u64>,
    /// For how long to wait: 10000 where none is given.
    pub timeout_ms: Option<u64>,
    pub preset: Option<String>,
    pub conditions: Option<NetworkThrottleInput>,
    pub offline: Option<bool>,
    pub disabled: Option<bool>,
    pub urls: Option<Vec<String>>,
    pub headers: Option<Headers>,
    pub user_agent: Option<String>,
    pub cookie: Option<Json>,
    pub patterns: Option<Vec<NetworkInterceptionPatternInput>>,
    pub modifications: Option<Json>,
    pub response: Option<Json>,
    pub error_reason: Option<String>,
    pub har: Option<Json>,
}

/// How many requests are listed where no limit is given.
pub const DEFAULT_REQUESTS_PER_PAGE: usize = 100;

/// How many requests are listed at most.
pub const MAX_REQUESTS_PER_PAGE: usize = 500;

/// How many bytes of a body are fetched where no limit is given.
pub const DEFAULT_BODY_BYTES: usize = 65_536;

/// How many bytes of a body are fetched at most.
pub const MAX_BODY_BYTES: usize = 1_048_576;

/// How many requests to list, or why not that many.
pub open spec fn page_limit(limit: Option<usize>) -> Result<usize, Seq<char>> {
    match limit {
        None => Ok(DEFAULT_REQUESTS_PER_PAGE),
        Some(n) => if n > MAX_REQUESTS_PER_PAGE {
            Err(
                "limit "@ + decimal(n as nat)
                    + " exceeds the maximum of 500 requests per page"@,
            )
        } else {
            Ok(n)
        },
    }
}

/// How many bytes of a body to fetch, or why not that many.
pub open spec fn body_limit(limit: Option<usize>) -> Result<usize, Seq<char>> {
    match limit {
        None => Ok(DEFAULT_BODY_BYTES),
        Some(n) => if n > MAX_BODY_BYTES {
            Err(
                "max_body_bytes "@ + decimal(n as nat)
                    + " exceeds the maximum of 1048576 bytes (1 MiB)"@,
            )
        } else {
            Ok(n)
        },
    }
}

/// How many requests to list.
pub fn validate_limit(limit: Option<usize>) -> (r: Result<usize, String>)
    ensures
        match page_limit(limit) {
            Ok(n) => r matches Ok(m) && m == n,
            Err(text) => r matches Err(error) && error@ == text,
        },
{
    match limit {
        None => Ok(DEFAULT_REQUESTS_PER_PAGE),
        Some(n) => {
            if n > MAX_REQUESTS_PER_PAGE {
                let mut error = "limit ".to_owned();
                error.append(decimal_text(n as u64).as_str());
                error.append(" exceeds the maximum of 500 requests per page");
                Err(error)
            } else {
                Ok(n)
            }
        },
    }
}

/// How many bytes of a body to fetch.
pub fn validate_body_limit(limit: Option<usize>) -> (r: Result<usize, String>)
    ensures
        match body_limit(limit) {
            Ok(n) => r matches Ok(m) && m == n,
            Err(text) => r matches Err(error) && error@ == text,
        },
{
    match limit {
        None => Ok(DEFAULT_BODY_BYTES),
        Some(n) => {
            if n > MAX_BODY_BYTES {
                let mut error = "max_body_bytes ".to_owned();
                error.append(decimal_text(n as u64).as_str());
                error.append(" exceeds the maximum of 1048576 bytes (1 MiB)");
                Err(error)
            } else {
                Ok(n)
            }
        },
    }
}

/// The conditions asked for: those of a preset, or else one's own; or why there are none.
pub open spec fn wanted_conditions(
    preset: Option<Seq<char>>,
    custom: Option<NetworkThrottleInput>,
) -> Result<ThrottleView, Seq<char>> {
    match preset {
        Some(name) => match preset_of(name) {
            Some(preset) => Ok(preset_conditions(preset)),
            None => Err("unknown throttle preset"@),
        },
        None => match custom {
            Some(c) => Ok(
                ThrottleView {
                    offline: match c.offline {
                        Some(offline) => offline,
                        None => false,
                    },
                    latency_ms: match c.latency_ms {
                        Some(latency) => latency,
                        None => 0,
                    },
                    download_throughput_bps: match c.download_throughput_bps {
                        Some(rate) => rate as int,
                        None => -1,
                    },
                    upload_throughput_bps: match c.upload_throughput_bps {
                        Some(rate) => rate as int,
                        None => -1,
                    },
                    connection_type: c.connection_type.deep_view(),
                },
            ),
            None => Err("set_throttle requires either a preset name or custom conditions"@),
        },
    }
}

fn conditions_of(preset: Option<String>, custom: Option<NetworkThrottleInput>) -> (r: Result<
    ThrottleConditions,
    String,
>)
    ensures
        match wanted_conditions(preset.deep_view(), custom) {
            Ok(view) => r matches Ok(conditions) && conditions.deep_view() == view,
            Err(text) => r matches Err(error) && error@ == text,
        },
{
    match preset {
        Some(name) => match ThrottlePreset::parse(name.as_str()) {
            Some(preset) => Ok(preset.conditions()),
            None => Err("unknown throttle preset".to_owned()),
        },
        None => match custom {
            Some(c) => Ok(
                ThrottleConditions {
                    offline: match c.offline {
                        Some(offline) => offline,
                        None => false,
                    },
                    latency_ms: match c.latency_ms {
                        Some(latency) => latency,
                        None => 0,
                    },
                    download_throughput_bps: match c.download_throughput_bps {
                        Some(rate) => rate,
                        None => -1,
                    },
                    upload_throughput_bps: match c.upload_throughput_bps {
                        Some(rate) => rate,
                        None => -1,
                    },
                    connection_type: c.connection_type,
                },
            ),
            None => Err(
                "set_throttle requires either a preset name or custom conditions".to_owned(),
            ),
        },
    }
}

// ---------------------------------------------------------------------------
// Calls

/// What is run.
#[derive(Debug)]
pub enum NetworkCall {
    ListRequests { session_id: u64, filter: RequestFilter, offset: usize, limit: usize },
    GetRequest { session_id: u64, request_id: String },
    GetResponseBody {
        session_id: u64,
        target_id: Option<String>,
        request_id: String,
        offset: usize,
        max_body_bytes: usize,
    },
    GetRequestPostData { session_id: u64, target_id: Option<String>, request_id: String },
    GetCookies { session_id: u64, target_id: Option<String>, urls: Vec<String> },
    GetWebSocketFrames { session_id: u64, target_id: Option<String>, request_id: String },
    WaitForNetworkIdle { session_id: u64, idle_for_ms: u64, timeout_ms: u64 },
    HarExport { session_id: u64 },
    HarImport { session_id: u64, har: Json },
    ListPausedRequests { session_id: u64, target_id: Option<String> },
    GetControlState { session_id: u64 },
    BlockUrls { session_id: u64, target_id: Option<String>, urls: Vec<String> },
    UnblockUrls { session_id: u64, target_id: Option<String>, urls: Vec<String> },
    /// An operation on a target of the session.
    Command { session_id: u64, target_id: Option<String>, command: TargetCommand },
}

/// The model of what is run.
pub enum NetworkCallView {
    ListRequests { session_id: u64, filter: FilterView, offset: usize, limit: usize },
    GetRequest { session_id: u64, request_id: Seq<char> },
    GetResponseBody {
        session_id: u64,
        target_id: Option<Seq<char>>,
        request_id: Seq<char>,
        offset: usize,
        max_body_bytes: usize,
    },
    GetRequestPostData { session_id: u64, target_id: Option<Seq<char>>, request_id: Seq<char> },
    GetCookies { session_id: u64, target_id: Option<Seq<char>>, urls: Seq<Seq<char>> },
    GetWebSocketFrames { session_id: u64, target_id: Option<Seq<char>>, request_id: Seq<char> },
    WaitForNetworkIdle { session_id: u64, idle_for_ms: u64, timeout_ms: u64 },
    HarExport { session_id: u64 },
    HarImport { session_id: u64, har: JsonView },
    ListPausedRequests { session_id: u64, target_id: Option<Seq<char>> },
    GetControlState { session_id: u64 },
    BlockUrls { session_id: u64, target_id: Option<Seq<char>>, urls: Seq<Seq<char>> },
    UnblockUrls { session_id: u64, target_id: Option<Seq<char>>, urls: Seq<Seq<char>> },
    Command { session_id: u64, target_id: Option<Seq<char>>, command: TargetCommandView },
}

impl DeepView for NetworkCall {
    type V = NetworkCallView;

    open spec fn deep_view(&self) -> NetworkCallView {
        match self {
            NetworkCall::ListRequests { session_id, filter, offset, limit } => NetworkCallView::ListRequests {
                session_id: *session_id,
                filter: filter.deep_view(),
                offset: *offset,
                limit: *limit,
            },
            NetworkCall::GetRequest { session_id, request_id } => NetworkCallView::GetRequest {
                session_id: *session_id,
                request_id: request_id@,
            },
            NetworkCall::GetResponseBody {
                session_id,
                target_id,
                request_id,
                offset,
                max_body_bytes,
            } => NetworkCallView::GetResponseBody {
                session_id: *session_id,
                target_id: target_id.deep_view(),
                request_id: request_id@,
                offset: *offset,
                max_body_bytes: *max_body_bytes,
            },
            NetworkCall::GetRequestPostData { session_id, target_id, request_id } => NetworkCallView::GetRequestPostData {
                session_id: *session_id,
                target_id: target_id.deep_view(),
                request_id: request_id@,
            },
            NetworkCall::GetCookies { session_id, target_id, urls } => NetworkCallView::GetCookies {
                session_id: *session_id,
                target_id: target_id.deep_view(),
                urls: urls.deep_view(),
            },
            NetworkCall::GetWebSocketFrames { session_id, target_id, request_id } => NetworkCallView::GetWebSocketFrames {
                session_id: *session_id,
                target_id: target_id.deep_view(),
                request_id: request_id@,
            },
            NetworkCall::WaitForNetworkIdle { session_id, idle_for_ms, timeout_ms } => NetworkCallView::WaitForNetworkIdle {
                session_id: *session_id,
                idle_for_ms: *idle_for_ms,
                timeout_ms: *timeout_ms,
            },
            NetworkCall::HarExport { session_id } => NetworkCallView::HarExport {
                session_id: *session_id,
            },
            NetworkCall::HarImport { session_id, har } => NetworkCallView::HarImport {
                session_id: *session_id,
                har: har.deep_view(),
            },
            NetworkCall::ListPausedRequests { session_id, target_id } => NetworkCallView::ListPausedRequests {
                session_id: *session_id,
                target_id: target_id.deep_view(),
            },
            NetworkCall::GetControlState { session_id } => NetworkCallView::GetControlState {
                session_id: *session_id,
            },
            NetworkCall::BlockUrls { session_id, target_id, urls } => NetworkCallView::BlockUrls {
                session_id: *session_id,
                target_id: target_id.deep_view(),
                urls: urls.deep_view(),
            },
            NetworkCall::UnblockUrls { session_id, target_id, urls } => NetworkCallView::UnblockUrls {
                session_id: *session_id,
                target_id: target_id.deep_view(),
                urls: urls.deep_view(),
            },
            NetworkCall::Command { session_id, target_id, command } => NetworkCallView::Command {
                session_id: *session_id,
                target_id: target_id.deep_view(),
                command: command.deep_view(),
            },
        }
    }
}

/// What is said where a field is missing.
pub open spec fn field_missing(field: Seq<char>, operation: Seq<char>) -> Seq<char> {
    field + " is required for network "@ + operation
}

/// The error of a missing field.
pub open spec fn missing<T>(field: Seq<char>, operation: NetworkOperation) -> Result<T, Seq<char>> {
    Err(field_missing(field, network_operation_name(operation)))
}

/// The number, or else another.
pub open spec fn number_or<T>(value: Option<T>, other: T) -> T {
    match value {
        Some(value) => value,
        None => other,
    }
}

/// The value, or else null.
pub open spec fn json_or_null(value: Option<Json>) -> JsonView {
    match value {
        Some(value) => value.deep_view(),
        None => JsonView::Null,
    }
}

/// The filter that an input describes.
pub open spec fn input_filter(input: NetworkToolInput) -> FilterView {
    FilterView {
        url: input.url.deep_view(),
        method: input.method.deep_view(),
        status: input.status,
        resource_type: input.resource_type.deep_view(),
        failed: input.failed,
        pending: input.pending,
    }
}

/// What a reading operation runs in a session, or which field it lacks.
pub open spec fn read_call(input: NetworkToolInput, session_id: u64) -> Result<
    NetworkCallView,
    Seq<char>,
> {
    let target_id = input.target_id.deep_view();
    match input.operation {
        NetworkOperation::GetRequest => match input.request_id {
            Some(id) => Ok(NetworkCallView::GetRequest { session_id, request_id: id@ }),
            None => missing("request_id"@, input.operation),
        },
        NetworkOperation::GetResponseBody => match input.request_id {
            Some(id) => match body_limit(input.max_body_bytes) {
                Ok(max_body_bytes) => Ok(
                    NetworkCallView::GetResponseBody {
                        session_id,
                        target_id,
                        request_id: id@,
                        offset: number_or(input.offset, 0),
                        max_body_bytes,
                    },
                ),
                Err(text) => Err(text),
            },
            None => missing("request_id"@, input.operation),
        },
        NetworkOperation::GetRequestPostData => match input.request_id {
            Some(id) => Ok(
                NetworkCallView::GetRequestPostData { session_id, target_id, request_id: id@ },
            ),
            None => missing("request_id"@, input.operation),
        },
        NetworkOperation::GetCookies => Ok(
            NetworkCallView::GetCookies {
                session_id,
                target_id,
                urls: match input.urls {
                    Some(urls) => urls.deep_view(),
                    None => Seq::empty(),
                },
            },
        ),
        NetworkOperation::GetWebSocketFrames => match input.request_id {
            Some(id) => Ok(
                NetworkCallView::GetWebSocketFrames { session_id, target_id, request_id: id@ },
            ),
            None => missing("request_id"@, input.operation),
        },
        NetworkOperation::WaitForNetworkIdle => Ok(
            NetworkCallView::WaitForNetworkIdle {
                session_id,
                idle_for_ms: number_or(input.idle_for_ms, 500),
                timeout_ms: number_or(input.timeout_ms, 10_000),
            },
        ),
        NetworkOperation::HarExport => Ok(NetworkCallView::HarExport { session_id }),
        NetworkOperation::ListPausedRequests => Ok(
            NetworkCallView::ListPausedRequests { session_id, target_id },
        ),
        NetworkOperation::GetControlState => Ok(NetworkCallView::GetControlState { session_id }),
        _ => match page_limit(input.limit) {
            Ok(limit) => Ok(
                NetworkCallView::ListRequests {
                    session_id,
                    filter: input_filter(input),
                    offset: number_or(input.cursor, 0),
                    limit,
                },
            ),
            Err(text) => Err(text),
        },
    }
}

/// The operation on a target that a writing operation comes to, or which field it lacks.
pub open spec fn write_command(input: NetworkToolInput) -> Result<TargetCommandView, Seq<char>> {
    match input.operation {
        NetworkOperation::SetThrottle => match wanted_conditions(
            input.preset.deep_view(),
            input.conditions,
        ) {
            Ok(conditions) => Ok(TargetCommandView::SetThrottle { conditions }),
            Err(text) => Err(text),
        },
        NetworkOperation::SetOffline => match input.offline {
            Some(offline) => Ok(TargetCommandView::SetOffline { offline }),
            None => missing("offline"@, input.operation),
        },
        NetworkOperation::SetCacheDisabled => match input.disabled {
            Some(disabled) => Ok(TargetCommandView::SetCacheDisabled { disabled }),
            None => missing("disabled"@, input.operation),
        },
        NetworkOperation::SetBypassServiceWorker => match input.disabled {
            Some(bypass) => Ok(TargetCommandView::SetBypassServiceWorker { bypass }),
            None => missing("disabled"@, input.operation),
        },
        NetworkOperation::ClearBrowserCache => Ok(TargetCommandView::ClearBrowserCache),
        NetworkOperation::ClearBrowserCookies => Ok(TargetCommandView::ClearBrowserCookies),
        NetworkOperation::SetCookie => match input.cookie {
            Some(cookie) => Ok(TargetCommandView::SetCookie { params: cookie.deep_view() }),
            None => missing("cookie"@, input.operation),
        },
        NetworkOperation::DeleteCookies => match input.cookie {
            Some(cookie) => Ok(TargetCommandView::DeleteCookies { params: cookie.deep_view() }),
            None => missing("cookie"@, input.operation),
        },
        NetworkOperation::SetExtraHttpHeaders => match input.headers {
            Some(headers) => Ok(
                TargetCommandView::SetExtraHttpHeaders { headers: headers.deep_view() },
            ),
            None => missing("headers"@, input.operation),
        },
        NetworkOperation::SetUserAgent => match input.user_agent {
            Some(user_agent) => Ok(TargetCommandView::SetUserAgent { user_agent: user_agent@ }),
            None => missing("user_agent"@, input.operation),
        },
        NetworkOperation::SetInterception => match input.patterns {
            Some(patterns) => Ok(
                TargetCommandView::SetInterception { patterns: patterns.deep_view() },
            ),
            None => missing("patterns"@, input.operation),
        },
        NetworkOperation::ContinueRequest => match input.request_id {
            Some(id) => Ok(
                TargetCommandView::ContinueRequest {
                    request_id: id@,
                    modifications: json_or_null(input.modifications),
                },
            ),
            None => missing("request_id"@, input.operation),
        },
        NetworkOperation::FulfillRequest => match (input.request_id, input.response) {
            (None, _) => missing("request_id"@, input.operation),
            (_, None) => missing("response"@, input.operation),
            (Some(id), Some(response)) => Ok(
                TargetCommandView::FulfillRequest {
                    request_id: id@,
                    response: response.deep_view(),
                },
            ),
        },
        _ => match (input.request_id, input.error_reason) {
            (None, _) => missing("request_id"@, input.operation),
            (_, None) => missing("error_reason"@, input.operation),
            (Some(id), Some(reason)) => Ok(
                TargetCommandView::FailRequest { request_id: id@, error_reason: reason@ },
            ),
        },
    }
}

/// What a writing operation runs in a session, or which field it lacks.
pub open spec fn write_call(input: NetworkToolInput, session_id: u64) -> Result<
    NetworkCallView,
    Seq<char>,
> {
    let target_id = input.target_id.deep_view();
    match input.operation {
        NetworkOperation::HarImport => match input.har {
            Some(har) => Ok(NetworkCallView::HarImport { session_id, har: har.deep_view() }),
            None => missing("har"@, input.operation),
        },
        NetworkOperation::BlockUrls => match input.urls {
            Some(urls) => Ok(
                NetworkCallView::BlockUrls { session_id, target_id, urls: urls.deep_view() },
            ),
            None => missing("urls"@, input.operation),
        },
        NetworkOperation::UnblockUrls => match input.urls {
            Some(urls) => Ok(
                NetworkCallView::UnblockUrls { session_id, target_id, urls: urls.deep_view() },
            ),
            None => missing("urls"@, input.operation),
        },
        _ => match write_command(input) {
            Ok(command) => Ok(NetworkCallView::Command { session_id, target_id, command }),
            Err(text) => Err(text),
        },
    }
}

/// The session as it stands in a permission.
pub open spec fn session_text(session_id: u64) -> Seq<char> {
    "session_id:"@ + decimal(session_id as nat)
}

/// A truth value as it stands in a permission.
pub open spec fn bool_text(value: bool) -> Seq<char> {
    if value {
        "true"@
    } else {
        "false"@
    }
}

/// The values that permission is asked for.
pub open spec fn asked_values(input: NetworkToolInput, session_id: u64) -> Seq<Seq<char>> {
    let session = session_text(session_id);
    match input.operation {
        NetworkOperation::SetOffline => Seq::empty().push(
            session + " offline:"@ + bool_text(number_or(input.offline, false)),
        ),
        NetworkOperation::SetCacheDisabled => Seq::empty().push(
            session + " disabled:"@ + bool_text(number_or(input.disabled, false)),
        ),
        NetworkOperation::SetBypassServiceWorker => Seq::empty().push(
            session + " bypass:"@ + bool_text(number_or(input.disabled, false)),
        ),
        NetworkOperation::BlockUrls | NetworkOperation::UnblockUrls => match input.urls {
            Some(urls) => Seq::new(urls@.len(), |i: int| session + " url:"@ + urls@[i]@),
            None => Seq::empty(),
        },
        NetworkOperation::SetInterception => Seq::empty().push(session) + (match input.patterns {
            Some(patterns) => Seq::new(
                patterns@.len(),
                |i: int| "url:"@ + patterns@[i].url_pattern@,
            ),
            None => Seq::empty(),
        }),
        _ => Seq::empty().push(session),
    }
}

/// What is said where an operation is not available.
pub open spec fn read_only_refusal(operation: NetworkOperation) -> Seq<char> {
    "network."@ + network_operation_name(operation)
        + " is not available in read-only modes. Switch to Write or Execute mode to change the browser network state."@
}

/// What a call of the tool comes to. An operation that changes something is refused in
/// a read-only mode, and otherwise asks the user first; for a decision on a paused
/// request, what the user is asked names the request's URL where it can be looked up.
pub open spec fn network_plan(input: NetworkToolInput, read_only: bool) -> PlanView<
    NetworkCallView,
> {
    let operation = input.operation;
    let message = network_success(operation);
    if network_writes(operation) && read_only {
        PlanView::Refused { error: read_only_refusal(operation) }
    } else {
        match input.session_id {
            None => PlanView::Refused {
                error: "session_id is required for this network operation"@,
            },
            Some(session_id) => if network_writes(operation) {
                match write_call(input, session_id) {
                    Err(error) => PlanView::Refused { error },
                    Ok(call) => if decides_on_request(operation) {
                        PlanView::LookUp {
                            session_id,
                            request_id: input.request_id->0@,
                            operation: network_operation_name(operation),
                            title: network_ask_title(operation),
                            call,
                            message,
                        }
                    } else {
                        PlanView::Ask {
                            title: network_ask_title(operation),
                            inputs: permission_list(
                                network_operation_name(operation),
                                asked_values(input, session_id),
                            ),
                            call,
                            message,
                        }
                    },
                }
            } else {
                match read_call(input, session_id) {
                    Err(error) => PlanView::Refused { error },
                    Ok(call) => PlanView::Run { call, message },
                }
            },
        }
    }
}

/// Nothing that changes something is run without asking the user, nor at all in a
/// read-only mode; and reading never asks.
pub proof fn law_network_writes_ask(input: NetworkToolInput, read_only: bool, url: Option<Seq<char>>)
    ensures
        network_writes(input.operation) ==> !(network_plan(input, read_only) is Run),
        network_writes(input.operation) ==> !(crate::tool_plan::plan_after_lookup(
            network_plan(input, read_only),
            url,
        ) is Run),
        network_writes(input.operation) && read_only ==> network_plan(input, read_only) is Refused,
        !network_writes(input.operation) ==> network_plan(input, read_only) is Run || network_plan(
            input,
            read_only,
        ) is Refused,
        !network_writes(input.operation) ==> network_plan(input, true) == network_plan(input, false),
{
}

// ---------------------------------------------------------------------------
// Planning

fn missing_field<T>(field: &str, operation: NetworkOperation) -> (r: Result<T, String>)
    ensures
        r matches Err(error) && error@ == field_missing(
            field@,
            network_operation_name(operation),
        ),
{
    let mut error = field.to_owned();
    error.append(" is required for network ");
    error.append(operation.name());
    Err(error)
}

fn plan_read(input: NetworkToolInput, session_id: u64) -> (r: Result<NetworkCall, String>)
    ensures
        match read_call(input, session_id) {
            Ok(call) => r matches Ok(c) && c.deep_view() == call,
            Err(text) => r matches Err(error) && error@ == text,
        },
{
    let operation = input.operation;
    match operation {
        NetworkOperation::GetRequest => match input.request_id {
            Some(request_id) => Ok(NetworkCall::GetRequest { session_id, request_id }),
            None => missing_field("request_id", operation),
        },
        NetworkOperation::GetResponseBody => match input.request_id {
            Some(request_id) => match validate_body_limit(input.max_body_bytes) {
                Ok(max_body_bytes) => {
                    let offset: usize = match input.offset {
                        Some(offset) => offset,
                        None => 0,
                    };
                    Ok(
                        NetworkCall::GetResponseBody {
                            session_id,
                            target_id: input.target_id,
                            request_id,
                            offset,
                            max_body_bytes,
                        },
                    )
                },
                Err(error) => Err(error),
            },
            None => missing_field("request_id", operation),
        },
        NetworkOperation::GetRequestPostData => match input.request_id {
            Some(request_id) => Ok(
                NetworkCall::GetRequestPostData {
                    session_id,
                    target_id: input.target_id,
                    request_id,
                },
            ),
            None => missing_field("request_id", operation),
        },
        NetworkOperation::GetCookies => {
            let urls = match input.urls {
                Some(urls) => urls,
                None => {
                    let none: Vec<String> = Vec::new();
                    assert(none.deep_view() =~= Seq::empty());
                    none
                },
            };
            Ok(NetworkCall::GetCookies { session_id, target_id: input.target_id, urls })
        },
        NetworkOperation::GetWebSocketFrames => match input.request_id {
            Some(request_id) => Ok(
                NetworkCall::GetWebSocketFrames {
                    session_id,
                    target_id: input.target_id,
                    request_id,
                },
            ),
            None => missing_field("request_id", operation),
        },
        NetworkOperation::WaitForNetworkIdle => {
            let idle_for_ms: u64 = match input.idle_for_ms {
                Some(idle) => idle,
                None => 500,
            };
            let timeout_ms: u64 = match input.timeout_ms {
                Some(timeout) => timeout,
                None => 10_000,
            };
            Ok(NetworkCall::WaitForNetworkIdle { session_id, idle_for_ms, timeout_ms })
        },
        NetworkOperation::HarExport => Ok(NetworkCall::HarExport { session_id }),
        NetworkOperation::ListPausedRequests => Ok(
            NetworkCall::ListPausedRequests { session_id, target_id: input.target_id },
        ),
        NetworkOperation::GetControlState => Ok(NetworkCall::GetControlState { session_id }),
        _ => match validate_limit(input.limit) {
            Ok(limit) => {
                let offset: usize = match input.cursor {
                    Some(cursor) => cursor,
                    None => 0,
                };
                Ok(
                    NetworkCall::ListRequests {
                        session_id,
                        filter: RequestFilter {
                            url: input.url,
                            method: input.method,
                            status: input.status,
                            resource_type: input.resource_type,
                            failed: input.failed,
                            pending: input.pending,
                        },
                        offset,
                        limit,
                    },
                )
            },
            Err(error) => Err(error),
        },
    }
}

fn interception_of(patterns: &Vec<NetworkInterceptionPatternInput>) -> (r: InterceptionConfig)
    ensures
        r.deep_view() == patterns.deep_view(),
{
    let mut out: Vec<InterceptionPattern> = Vec::new();
    let mut i: usize = 0;
    while i < patterns.len()
        invariant
            i <= patterns@.len(),
            out.deep_view() == patterns.deep_view().take(i as int),
        decreases patterns@.len() - i,
    {
        let ghost done = out.deep_view();
        let pattern = InterceptionPattern {
            url_pattern: patterns[i].url_pattern.clone(),
            request_stage: match &patterns[i].request_stage {
                Some(stage) => Some(stage.clone()),
                None => None,
            },
        };
        out.push(pattern);
        assert(out.deep_view() =~= done.push(pattern.deep_view()));
        i = i + 1;
        assert(out.deep_view() =~= patterns.deep_view().take(i as int));
    }
    assert(out.deep_view() =~= patterns.deep_view());
    InterceptionConfig { patterns: out }
}

fn plan_command(input: NetworkToolInput) -> (r: Result<TargetCommand, String>)
    ensures
        match write_command(input) {
            Ok(command) => r matches Ok(c) && c.deep_view() == command,
            Err(text) => r matches Err(error) && error@ == text,
        },
{
    let operation = input.operation;
    match operation {
        NetworkOperation::SetThrottle => match conditions_of(input.preset, input.conditions) {
            Ok(conditions) => Ok(TargetCommand::SetThrottle { conditions }),
            Err(error) => Err(error),
        },
        NetworkOperation::SetOffline => match input.offline {
            Some(offline) => Ok(TargetCommand::SetOffline { offline }),
            None => missing_field("offline", operation),
        },
        NetworkOperation::SetCacheDisabled => match input.disabled {
            Some(disabled) => Ok(TargetCommand::SetCacheDisabled { disabled }),
            None => missing_field("disabled", operation),
        },
        NetworkOperation::SetBypassServiceWorker => match input.disabled {
            Some(bypass) => Ok(TargetCommand::SetBypassServiceWorker { bypass }),
            None => missing_field("disabled", operation),
        },
        NetworkOperation::ClearBrowserCache => Ok(TargetCommand::ClearBrowserCache),
        NetworkOperation::ClearBrowserCookies => Ok(TargetCommand::ClearBrowserCookies),
        NetworkOperation::SetCookie => match input.cookie {
            Some(params) => Ok(TargetCommand::SetCookie { params }),
            None => missing_field("cookie", operation),
        },
        NetworkOperation::DeleteCookies => match input.cookie {
            Some(params) => Ok(TargetCommand::DeleteCookies { params }),
            None => missing_field("cookie", operation),
        },
        NetworkOperation::SetExtraHttpHeaders => match input.headers {
            Some(headers) => Ok(TargetCommand::SetExtraHttpHeaders { headers }),
            None => missing_field("headers", operation),
        },
        NetworkOperation::SetUserAgent => match input.user_agent {
            Some(user_agent) => Ok(TargetCommand::SetUserAgent { user_agent }),
            None => missing_field("user_agent", operation),
        },
        NetworkOperation::SetInterception => match input.patterns {
            Some(patterns) => Ok(
                TargetCommand::SetInterception { config: interception_of(&patterns) },
            ),
            None => missing_field("patterns", operation),
        },
        NetworkOperation::ContinueRequest => match input.request_id {
            Some(request_id) => {
                let modifications = match input.modifications {
                    Some(modifications) => modifications,
                    None => Json::Null,
                };
                Ok(TargetCommand::ContinueRequest { request_id, modifications })
            },
            None => missing_field("request_id", operation),
        },
        NetworkOperation::FulfillRequest => match input.request_id {
            Some(request_id) => match input.response {
                Some(response) => Ok(TargetCommand::FulfillRequest { request_id, response }),
                None => missing_field("response", operation),
            },
            None => missing_field("request_id", operation),
        },
        _ => match input.request_id {
            Some(request_id) => match input.error_reason {
                Some(error_reason) => Ok(TargetCommand::FailRequest { request_id, error_reason }),
                None => missing_field("error_reason", operation),
            },
            None => missing_field("request_id", operation),
        },
    }
}

fn plan_write(input: NetworkToolInput, session_id: u64) -> (r: Result<NetworkCall, String>)
    ensures
        match write_call(input, session_id) {
            Ok(call) => r matches Ok(c) && c.deep_view() == call,
            Err(text) => r matches Err(error) && error@ == text,
        },
{
    let operation = input.operation;
    match operation {
        NetworkOperation::HarImport => match input.har {
            Some(har) => Ok(NetworkCall::HarImport { session_id, har }),
            None => missing_field("har", operation),
        },
        NetworkOperation::BlockUrls => match input.urls {
            Some(urls) => Ok(
                NetworkCall::BlockUrls { session_id, target_id: input.target_id, urls },
            ),
            None => missing_field("urls", operation),
        },
        NetworkOperation::UnblockUrls => match input.urls {
            Some(urls) => Ok(
                NetworkCall::UnblockUrls { session_id, target_id: input.target_id, urls },
            ),
            None => missing_field("urls", operation),
        },
        _ => {
            let target_id = match &input.target_id {
                Some(id) => Some(id.clone()),
                None => None,
            };
            match plan_command(input) {
                Ok(command) => Ok(NetworkCall::Command { session_id, target_id, command }),
                Err(error) => Err(error),
            }
        },
    }
}

fn session_value(session_id: u64) -> (r: String)
    ensures
        r@ == session_text(session_id),
{
    let mut out = "session_id:".to_owned();
    out.append(decimal_text(session_id).as_str());
    out
}

fn flag_values(session_id: u64, name: &str, flag: Option<bool>) -> (r: Vec<String>)
    ensures
        r.deep_view() == Seq::empty().push(
            session_text(session_id) + name@ + bool_text(number_or(flag, false)),
        ),
{
    let mut value = session_value(session_id);
    value.append(name);
    let on = match flag {
        Some(on) => on,
        None => false,
    };
    if on {
        value.append("true");
    } else {
        value.append("false");
    }
    let mut out: Vec<String> = Vec::new();
    out.push(value);
    assert(out.deep_view() =~= Seq::empty().push(value@));
    out
}

fn values_of(input: &NetworkToolInput, session_id: u64) -> (r: Vec<String>)
    ensures
        r.deep_view() == asked_values(*input, session_id),
{
    match input.operation {
        NetworkOperation::SetOffline => flag_values(session_id, " offline:", input.offline),
        NetworkOperation::SetCacheDisabled => flag_values(session_id, " disabled:", input.disabled),
        NetworkOperation::SetBypassServiceWorker => flag_values(
            session_id,
            " bypass:",
            input.disabled,
        ),
        NetworkOperation::BlockUrls | NetworkOperation::UnblockUrls => {
            let mut out: Vec<String> = Vec::new();
            let ghost wanted = asked_values(*input, session_id);
            if let Some(urls) = &input.urls {
                let mut i: usize = 0;
                while i < urls.len()
                    invariant
                        i <= urls@.len(),
                        wanted == Seq::new(
                            urls@.len(),
                            |i: int| session_text(session_id) + " url:"@ + urls@[i]@,
                        ),
                        out.deep_view() == wanted.take(i as int),
                    decreases urls@.len() - i,
                {
                    let ghost done = out.deep_view();
                    let mut value = session_value(session_id);
                    value.append(" url:");
                    value.append(urls[i].as_str());
                    out.push(value);
                    assert(out.deep_view() =~= done.push(value@));
                    i = i + 1;
                    assert(out.deep_view() =~= wanted.take(i as int));
                }
            }
            assert(out.deep_view() =~= wanted);
            out
        },
        NetworkOperation::SetInterception => {
            let mut out: Vec<String> = Vec::new();
            let value = session_value(session_id);
            out.push(value);
            let ghost first = Seq::<Seq<char>>::empty().push(session_text(session_id));
            assert(out.deep_view() =~= first);
            let ghost wanted = asked_values(*input, session_id);
            if let Some(patterns) = &input.patterns {
                let ghost urls = Seq::new(
                    patterns@.len(),
                    |i: int| "url:"@ + patterns@[i].url_pattern@,
                );
                let mut i: usize = 0;
                assert(first + urls.take(0) =~= first);
                while i < patterns.len()
                    invariant
                        i <= patterns@.len(),
                        urls == Seq::new(
                            patterns@.len(),
                            |i: int| "url:"@ + patterns@[i].url_pattern@,
                        ),
                        out.deep_view() == first + urls.take(i as int),
                    decreases patterns@.len() - i,
                {
                    let ghost done = out.deep_view();
                    let mut value = "url:".to_owned();
                    value.append(patterns[i].url_pattern.as_str());
                    out.push(value);
                    assert(out.deep_view() =~= done.push(value@));
                    i = i + 1;
                    assert(out.deep_view() =~= first + urls.take(i as int));
                }
                assert(urls.take(urls.len() as int) =~= urls);
            } else {
                assert(first + Seq::<Seq<char>>::empty() =~= first);
            }
            out
        },
        _ => {
            let mut out: Vec<String> = Vec::new();
            let value = session_value(session_id);
            out.push(value);
            assert(out.deep_view() =~= Seq::empty().push(value@));
            out
        },
    }
}

/// What a call of the tool comes to.
pub fn plan_network_operation(input: NetworkToolInput, read_only: bool) -> (r: ToolPlan<NetworkCall>)
    ensures
        r.deep_view() == network_plan(input, read_only),
{
    let operation = input.operation;
    let writes = operation.is_write();
    if writes && read_only {
        let mut error = "network.".to_owned();
        error.append(operation.name());
        error.append(
            " is not available in read-only modes. Switch to Write or Execute mode to change the browser network state.",
        );
        return ToolPlan::Refused { error };
    }
    let session_id: u64 = match input.session_id {
        Some(session_id) => session_id,
        None => {
            return ToolPlan::Refused {
                error: "session_id is required for this network operation".to_owned(),
            };
        },
    };
    let message = operation.success_text().to_owned();
    if !writes {
        return match plan_read(input, session_id) {
            Ok(call) => ToolPlan::Run { call, message },
            Err(error) => ToolPlan::Refused { error },
        };
    }
    let values = values_of(&input, session_id);
    let inputs = permission_inputs(operation.name(), &values);
    let request_id = match &input.request_id {
        Some(id) => id.clone(),
        None => String::new(),
    };
    match plan_write(input, session_id) {
        Ok(call) => {
            let title = operation.ask_title().to_owned();
            if operation == NetworkOperation::ContinueRequest || operation
                == NetworkOperation::FulfillRequest || operation == NetworkOperation::FailRequest {
                ToolPlan::LookUp {
                    session_id,
                    request_id,
                    operation: operation.name().to_owned(),
                    title,
                    call,
                    message,
                }
            } else {
                ToolPlan::Ask { title, inputs, call, message }
            }
        },
        Err(error) => ToolPlan::Refused { error },
    }
}

// ---------------------------------------------------------------------------
// The tool

/// The output of the tool.
pub type NetworkToolOutput = ToolOutput;

/// The tool.
#[derive(Clone, Copy, Debug, PartialEq, Eq, Structural)]
pub struct NetworkTool;

impl NetworkTool {
    /// The tool.
    pub fn new() -> (r: NetworkTool)
        ensures
            r == NetworkTool,
    {
        NetworkTool
    }

    /// The name that the model calls the tool by.
    pub fn name(&self) -> (r: &'static str)
        ensures
            r@ == "network"@,
    {
        "network"
    }

    /// The title of a call while it runs, for an input that is complete or one that is
    /// not yet.
    pub fn initial_title(&self, input: Result<&NetworkToolInput, &Json>) -> (r: String)
        ensures
            r@ == match input {
                Ok(input) => call_title("Network"@, Some(network_operation_name(input.operation))),
                Err(value) => call_title("Network"@, text_field(value.deep_view(), "operation"@)),
            },
    {
        match input {
            Ok(input) => title_of_call("Network", Some(input.operation.name())),
            Err(value) => title_of_partial_call("Network", value),
        }
    }

    /// The output where the input did not arrive.
    pub fn input_error(&self, error: &str) -> (r: NetworkToolOutput)
        ensures
            r.deep_view() == (OutputView::Error {
                operation: None,
                error: "Failed to receive network tool input: "@ + error@,
            }),
    {
        let mut text = "Failed to receive network tool input: ".to_owned();
        text.append(error);
        ToolOutput::Error { operation: None, error: text }
    }

    /// What a call of the tool comes to.
    pub fn run_operation(&self, input: NetworkToolInput, read_only: bool) -> (r: ToolPlan<
        NetworkCall,
    >)
        ensures
            r.deep_view() == network_plan(input, read_only),
    {
        plan_network_operation(input, read_only)
    }

    /// What the model is shown of an output, given the data written out as text.
    pub fn show(&self, output: &NetworkToolOutput, data: &str) -> (r: String)
        ensures
            r@ == shown_output("Network"@, output.deep_view(), data@),
    {
        show_output("Network", output, data)
    }
}

// ---------------------------------------------------------------------------
// What a call comes to

/// What is read is what the input asks for, with the input's own values, in the input's own
/// session and target; where a number is left out, the usual one holds.
pub proof fn law_network_reads_what_is_asked(input: NetworkToolInput, session_id: u64)
    requires
        !network_writes(input.operation),
    ensures
        read_call(input, session_id) matches Ok(call) ==> match call {
            NetworkCallView::ListRequests { session_id: s, filter, offset, limit } => {
                &&& input.operation == NetworkOperation::ListRequests
                &&& s == session_id
                &&& filter.url == input.url.deep_view()
                &&& filter.method == input.method.deep_view()
                &&& filter.status == input.status
                &&& filter.resource_type == input.resource_type.deep_view()
                &&& filter.failed == input.failed
                &&& filter.pending == input.pending
                &&& offset == if input.cursor is Some {
                    input.cursor->0
                } else {
                    0
                }
                &&& limit <= 500
                &&& input.limit is Some ==> Some(limit) == input.limit
                &&& input.limit is None ==> limit == 100
            },
            NetworkCallView::GetRequest { session_id: s, request_id } => {
                &&& input.operation == NetworkOperation::GetRequest
                &&& s == session_id
                &&& input.request_id matches Some(id) && id@ == request_id
            },
            NetworkCallView::GetResponseBody {
                session_id: s,
                target_id,
                request_id,
                offset,
                max_body_bytes,
            } => {
                &&& input.operation == NetworkOperation::GetResponseBody
                &&& s == session_id
                &&& target_id == input.target_id.deep_view()
                &&& input.request_id matches Some(id) && id@ == request_id
                &&& offset == if input.offset is Some {
                    input.offset->0
                } else {
                    0
                }
                &&& max_body_bytes <= 1_048_576
                &&& input.max_body_bytes is Some ==> Some(max_body_bytes) == input.max_body_bytes
                &&& input.max_body_bytes is None ==> max_body_bytes == 65_536
            },
            NetworkCallView::GetRequestPostData { session_id: s, target_id, request_id } => {
                &&& input.operation == NetworkOperation::GetRequestPostData
                &&& s == session_id
                &&& target_id == input.target_id.deep_view()
                &&& input.request_id matches Some(id) && id@ == request_id
            },
            NetworkCallView::GetCookies { session_id: s, target_id, urls } => {
                &&& input.operation == NetworkOperation::GetCookies
                &&& s == session_id
                &&& target_id == input.target_id.deep_view()
                &&& input.urls matches Some(given) ==> urls == given.deep_view()
                &&& input.urls is None ==> urls.len() == 0
            },
            NetworkCallView::GetWebSocketFrames { session_id: s, target_id, request_id } => {
                &&& input.operation == NetworkOperation::GetWebSocketFrames
                &&& s == session_id
                &&& target_id == input.target_id.deep_view()
                &&& input.request_id matches Some(id) && id@ == request_id
            },
            NetworkCallView::WaitForNetworkIdle { session_id: s, idle_for_ms, timeout_ms } => {
                &&& input.operation == NetworkOperation::WaitForNetworkIdle
                &&& s == session_id
                &&& input.idle_for_ms is Some ==> Some(idle_for_ms) == input.idle_for_ms
                &&& input.idle_for_ms is None ==> idle_for_ms == 500
                &&& input.timeout_ms is Some ==> Some(timeout_ms) == input.timeout_ms
                &&& input.timeout_ms is None ==> timeout_ms == 10_000
            },
            NetworkCallView::HarExport { session_id: s } => input.operation
                == NetworkOperation::HarExport && s == session_id,
            NetworkCallView::ListPausedRequests { session_id: s, target_id } => input.operation
                == NetworkOperation::ListPausedRequests && s == session_id && target_id
                == input.target_id.deep_view(),
            NetworkCallView::GetControlState { session_id: s } => input.operation
                == NetworkOperation::GetControlState && s == session_id,
            _ => false,
        },
        read_call(input, session_id) is Err <==> match input.operation {
            NetworkOperation::GetRequest
            | NetworkOperation::GetRequestPostData
            | NetworkOperation::GetWebSocketFrames => input.request_id is None,
            NetworkOperation::GetResponseBody => input.request_id is None || (
            input.max_body_bytes matches Some(n) && n > 1_048_576),
            NetworkOperation::ListRequests => input.limit matches Some(n) && n > 500,
            _ => false,
        },
{
}

/// What is changed is what the input asks for, with the input's own values, in the input's
/// own session and target.
pub proof fn law_network_changes_what_is_asked(input: NetworkToolInput, session_id: u64)
    requires
        network_writes(input.operation),
    ensures
        write_call(input, session_id) matches Ok(call) ==> match call {
            NetworkCallView::HarImport { session_id: s, har } => {
                &&& input.operation == NetworkOperation::HarImport
                &&& s == session_id
                &&& input.har matches Some(given) && given.deep_view() == har
            },
            NetworkCallView::BlockUrls { session_id: s, target_id, urls } => {
                &&& input.operation == NetworkOperation::BlockUrls
                &&& s == session_id
                &&& target_id == input.target_id.deep_view()
                &&& input.urls matches Some(given) && given.deep_view() == urls
            },
            NetworkCallView::UnblockUrls { session_id: s, target_id, urls } => {
                &&& input.operation == NetworkOperation::UnblockUrls
                &&& s == session_id
                &&& target_id == input.target_id.deep_view()
                &&& input.urls matches Some(given) && given.deep_view() == urls
            },
            NetworkCallView::Command { session_id: s, target_id, command } => {
                &&& s == session_id
                &&& target_id == input.target_id.deep_view()
                &&& match command {
                    TargetCommandView::SetThrottle { .. } => input.operation
                        == NetworkOperation::SetThrottle,
                    TargetCommandView::SetOffline { offline } => input.operation
                        == NetworkOperation::SetOffline && input.offline == Some(offline),
                    TargetCommandView::SetCacheDisabled { disabled } => input.operation
                        == NetworkOperation::SetCacheDisabled && input.disabled == Some(disabled),
                    TargetCommandView::SetBypassServiceWorker { bypass } => input.operation
                        == NetworkOperation::SetBypassServiceWorker && input.disabled == Some(
                        bypass,
                    ),
                    TargetCommandView::ClearBrowserCache => input.operation
                        == NetworkOperation::ClearBrowserCache,
                    TargetCommandView::ClearBrowserCookies => input.operation
                        == NetworkOperation::ClearBrowserCookies,
                    TargetCommandView::SetCookie { params } => input.operation
                        == NetworkOperation::SetCookie && (input.cookie matches Some(given)
                        && given.deep_view() == params),
                    TargetCommandView::DeleteCookies { params } => input.operation
                        == NetworkOperation::DeleteCookies && (input.cookie matches Some(given)
                        && given.deep_view() == params),
                    TargetCommandView::SetExtraHttpHeaders { headers } => input.operation
                        == NetworkOperation::SetExtraHttpHeaders && (input.headers matches Some(
                        given,
                    ) && given.deep_view() == headers),
                    TargetCommandView::SetUserAgent { user_agent } => input.operation
                        == NetworkOperation::SetUserAgent && (input.user_agent matches Some(given)
                        && given@ == user_agent),
                    TargetCommandView::SetInterception { patterns } => input.operation
                        == NetworkOperation::SetInterception && (input.patterns matches Some(given)
                        && given.deep_view() == patterns),
                    TargetCommandView::ContinueRequest { request_id, modifications } => {
                        &&& input.operation == NetworkOperation::ContinueRequest
                        &&& input.request_id matches Some(id) && id@ == request_id
                        &&& input.modifications matches Some(given) ==> modifications
                            == given.deep_view()
                        &&& input.modifications is None ==> modifications == JsonView::Null
                    },
                    TargetCommandView::FulfillRequest { request_id, response } => {
                        &&& input.operation == NetworkOperation::FulfillRequest
                        &&& input.request_id matches Some(id) && id@ == request_id
                        &&& input.response matches Some(given) && given.deep_view() == response
                    },
                    TargetCommandView::FailRequest { request_id, error_reason } => {
                        &&& input.operation == NetworkOperation::FailRequest
                        &&& input.request_id matches Some(id) && id@ == request_id
                        &&& input.error_reason matches Some(given) && given@ == error_reason
                    },
                    _ => false,
                }
            },
            _ => false,
        },
        write_call(input, session_id) is Err <==> match input.operation {
            NetworkOperation::HarImport => input.har is None,
            NetworkOperation::BlockUrls | NetworkOperation::UnblockUrls => input.urls is None,
            NetworkOperation::SetThrottle => match input.preset {
                Some(name) => preset_of(name@) is None,
                None => input.conditions is None,
            },
            NetworkOperation::SetOffline => input.offline is None,
            NetworkOperation::SetCacheDisabled
            | NetworkOperation::SetBypassServiceWorker => input.disabled is None,
            NetworkOperation::ClearBrowserCache | NetworkOperation::ClearBrowserCookies => false,
            NetworkOperation::SetCookie | NetworkOperation::DeleteCookies => input.cookie is None,
            NetworkOperation::SetExtraHttpHeaders => input.headers is None,
            NetworkOperation::SetUserAgent => input.user_agent is None,
            NetworkOperation::SetInterception => input.patterns is None,
            NetworkOperation::ContinueRequest => input.request_id is None,
            NetworkOperation::FulfillRequest => input.request_id is None || input.response is None,
            NetworkOperation::FailRequest => input.request_id is None || input.error_reason is None,
            _ => true,
        },
{
}

/// The plan runs that reading call at once, and asks for that change first; there is no plan
/// without a session.
pub proof fn law_network_plan_is_for_that_call(
    input: NetworkToolInput,
    session_id: u64,
    read_only: bool,
)
    ensures
        input.session_id is None ==> network_plan(input, read_only) is Refused,
        input.session_id == Some(session_id) && !network_writes(input.operation) ==> match read_call(
            input,
            session_id,
        ) {
            Ok(call) => network_plan(input, read_only) matches PlanView::Run { call: c, .. } && c
                == call,
            Err(text) => network_plan(input, read_only) matches PlanView::Refused { error } && error
                == text,
        },
        input.session_id == Some(session_id) && network_writes(input.operation) ==> match write_call(
            input,
            session_id,
        ) {
            Ok(call) => planned_call(network_plan(input, false)) == Some(call),
            Err(text) => network_plan(input, false) matches PlanView::Refused { error } && error
                == text,
        },
{
}

/// Whatever is run without asking only reads.
pub proof fn law_network_only_reads_unasked(input: NetworkToolInput, read_only: bool)
    ensures
        network_plan(input, read_only) matches PlanView::Run { call, .. } ==> !(call is HarImport
            || call is BlockUrls || call is UnblockUrls || call is Command),
        network_plan(input, read_only) matches PlanView::Ask { call, .. } ==> (call is HarImport
            || call is BlockUrls || call is UnblockUrls || call is Command),
        network_plan(input, read_only) matches PlanView::LookUp { request_id, session_id, call, .. }
            ==> {
            &&& input.request_id matches Some(id) && id@ == request_id
            &&& input.session_id == Some(session_id)
            &&& call matches NetworkCallView::Command { command, .. } && (command
                is ContinueRequest || command is FulfillRequest || command is FailRequest)
        },
{
}

/// The user is asked by what will be changed: each URL that is blocked or unblocked, each
/// pattern that is intercepted, and which way a switch is thrown is told, and so is the
/// session.
pub proof fn law_network_asks_for_what_is_changed(input: NetworkToolInput, i: int)
    requires
        network_plan(input, false) is Ask,
    ensures
        network_plan(input, false) matches PlanView::Ask { inputs, title, message, .. } && {
            let name = network_operation_name(input.operation);
            let session = session_text(input.session_id->0);
            &&& title == network_ask_title(input.operation)
            &&& message == network_success(input.operation)
            &&& input.operation == NetworkOperation::SetOffline ==> inputs.len() == 1 && inputs[0]
                == name + " "@ + (session + (" offline:"@ + (if input.offline == Some(true) {
                "true"@
            } else {
                "false"@
            })))
            &&& input.operation == NetworkOperation::SetCacheDisabled ==> inputs.len() == 1
                && inputs[0] == name + " "@ + (session + (" disabled:"@ + (if input.disabled == Some(
                true,
            ) {
                "true"@
            } else {
                "false"@
            })))
            &&& input.operation == NetworkOperation::SetBypassServiceWorker ==> inputs.len() == 1
                && inputs[0] == name + " "@ + (session + (" bypass:"@ + (if input.disabled == Some(
                true,
            ) {
                "true"@
            } else {
                "false"@
            })))
            &&& input.operation == NetworkOperation::BlockUrls || input.operation
                == NetworkOperation::UnblockUrls ==> (input.urls matches Some(urls) && (urls@.len()
                > 0 ==> inputs.len() == urls@.len()) && (0 <= i < urls@.len() ==> begins_with(
                inputs[i],
                name,
            ) && occurs(inputs[i], session) && occurs(inputs[i], " url:"@ + urls@[i]@)))
            &&& input.operation == NetworkOperation::SetInterception ==> (
            input.patterns matches Some(patterns) && inputs.len() == patterns@.len() + 1
                && inputs[0] == name + " "@ + session && (0 <= i < patterns@.len() ==> inputs[i + 1]
                == name + " "@ + ("url:"@ + patterns@[i].url_pattern@)))
        },
{
    let session_id = input.session_id->0;
    let name = network_operation_name(input.operation);
    let session = session_text(session_id);
    let inputs = permission_list(name, asked_values(input, session_id));
    match input.operation {
        NetworkOperation::SetOffline => {
            let way = bool_text(number_or(input.offline, false));
            assert(session + " offline:"@ + way =~= session + (" offline:"@ + way));
        },
        NetworkOperation::SetCacheDisabled => {
            let way = bool_text(number_or(input.disabled, false));
            assert(session + " disabled:"@ + way =~= session + (" disabled:"@ + way));
        },
        NetworkOperation::SetBypassServiceWorker => {
            let way = bool_text(number_or(input.disabled, false));
            assert(session + " bypass:"@ + way =~= session + (" bypass:"@ + way));
        },
        NetworkOperation::BlockUrls | NetworkOperation::UnblockUrls => {
            let urls = input.urls->0@;
            if 0 <= i < urls.len() {
                let sent = " url:"@ + urls[i]@;
                assert(session + " url:"@ + urls[i]@ =~= session + sent);
                lemma_asked_names_session_and_rest(inputs[i], name, session, sent);
            }
        },
        _ => {},
    }
}

/// A limit that is given holds as it is, up to the highest there is; above that it is
/// refused, and the refusal tells the limit that was given.
pub proof fn law_limits_hold_as_given(limit: Option<usize>)
    ensures
        limit matches Some(n) ==> (n <= 500 <==> page_limit(limit) is Ok),
        limit matches Some(n) ==> (page_limit(limit) matches Ok(m) ==> m == n),
        limit matches Some(n) ==> (page_limit(limit) matches Err(text) ==> occurs(
            text,
            decimal(n as nat),
        )),
        limit is None ==> (page_limit(limit) matches Ok(m) && 0 < m <= 500),
        limit matches Some(n) ==> (n <= 1_048_576 <==> body_limit(limit) is Ok),
        limit matches Some(n) ==> (body_limit(limit) matches Ok(m) ==> m == n),
        limit matches Some(n) ==> (body_limit(limit) matches Err(text) ==> occurs(
            text,
            decimal(n as nat),
        )),
        limit is None ==> (body_limit(limit) matches Ok(m) && 0 < m <= 1_048_576),
{
    if let Some(n) = limit {
        if let Err(text) = page_limit(limit) {
            lemma_occurs_between(
                text,
                "limit "@,
                decimal(n as nat),
                " exceeds the maximum of 500 requests per page"@,
            );
        }
        if let Err(text) = body_limit(limit) {
            lemma_occurs_between(
                text,
                "max_body_bytes "@,
                decimal(n as nat),
                " exceeds the maximum of 1048576 bytes (1 MiB)"@,
            );
        }
    }
}

/// A preset that is named counts before conditions of one's own, of which each one given is
/// taken over and each one left out is unlimited.
pub proof fn law_conditions_are_as_given(
    preset: Option<Seq<char>>,
    custom: Option<NetworkThrottleInput>,
)
    ensures
        preset matches Some(name) ==> match preset_of(name) {
            Some(known) => wanted_conditions(preset, custom) matches Ok(wanted) && wanted
                == preset_conditions(known),
            None => wanted_conditions(preset, custom) is Err,
        },
        preset is None && custom is None ==> wanted_conditions(preset, custom) is Err,
        preset is None ==> (custom matches Some(c) ==> {
            &&& wanted_conditions(preset, custom) matches Ok(wanted)
            &&& wanted.offline <==> c.offline == Some(true)
            &&& c.latency_ms matches Some(n) ==> wanted.latency_ms == n
            &&& c.latency_ms is None ==> wanted.latency_ms == 0
            &&& c.download_throughput_bps matches Some(n) ==> wanted.download_throughput_bps == n
            &&& c.download_throughput_bps is None ==> wanted.download_throughput_bps == -1
            &&& c.upload_throughput_bps matches Some(n) ==> wanted.upload_throughput_bps == n
            &&& c.upload_throughput_bps is None ==> wanted.upload_throughput_bps == -1
            &&& wanted.connection_type == c.connection_type.deep_view()
        }),
{
}

/// Each operation has a name of its own.
#[verifier::rlimit(40)]
pub proof fn law_network_operations_are_told_by_name(a: NetworkOperation, b: NetworkOperation)
    requires
        network_operation_name(a) == network_operation_name(b),
    ensures
        a == b,
{
    reveal_strlit("list_requests");
    reveal_strlit("get_request");
    reveal_strlit("get_response_body");
    reveal_strlit("get_request_post_data");
    reveal_strlit("get_cookies");
    reveal_strlit("get_websocket_frames");
    reveal_strlit("wait_for_network_idle");
    reveal_strlit("har_export");
    reveal_strlit("har_import");
    reveal_strlit("list_paused_requests");
    reveal_strlit("get_control_state");
    reveal_strlit("set_throttle");
    reveal_strlit("set_offline");
    reveal_strlit("block_urls");
    reveal_strlit("unblock_urls");
    reveal_strlit("set_cache_disabled");
    reveal_strlit("set_bypass_service_worker");
    reveal_strlit("clear_browser_cache");
    reveal_strlit("clear_browser_cookies");
    reveal_strlit("set_cookie");
    reveal_strlit("delete_cookies");
    reveal_strlit("set_extra_http_headers");
    reveal_strlit("set_user_agent");
    reveal_strlit("set_interception");
    reveal_strlit("continue_request");
    reveal_strlit("fulfill_request");
    reveal_strlit("fail_request");
    assert("har_export"@.len() == 10);
    assert("har_import"@.len() == 10);
    assert("block_urls"@.len() == 10);
    assert("set_cookie"@.len() == 10);
    assert("har_export"@[4] == 'e');
    assert("har_import"@[4] == 'i');
    assert("block_urls"@[4] == 'k');
    assert("set_cookie"@[4] == 'c');
    assert("get_request"@.len() == 11);
    assert("get_cookies"@.len() == 11);
    assert("set_offline"@.len() == 11);
    assert("get_request"@[4] == 'r');
    assert("get_cookies"@[4] == 'c');
    assert("set_offline"@[4] == 'o');
    assert("set_throttle"@.len() == 12);
    assert("unblock_urls"@.len() == 12);
    assert("fail_request"@.len() == 12);
    assert("set_throttle"@[0] == 's');
    assert("unblock_urls"@[0] == 'u');
    assert("fail_request"@[0] == 'f');
    assert("list_requests"@.len() == 13);
    assert("delete_cookies"@.len() == 14);
    assert("set_user_agent"@.len() == 14);
    assert("delete_cookies"@[0] == 'd');
    assert("set_user_agent"@[0] == 's');
    assert("fulfill_request"@.len() == 15);
    assert("set_interception"@.len() == 16);
    assert("continue_request"@.len() == 16);
    assert("set_interception"@[0] == 's');
    assert("continue_request"@[0] == 'c');
    assert("get_response_body"@.len() == 17);
    assert("get_control_state"@.len() == 17);
    assert("get_response_body"@[4] == 'r');
    assert("get_control_state"@[4] == 'c');
    assert("set_cache_disabled"@.len() == 18);
    assert("clear_browser_cache"@.len() == 19);
    assert("get_websocket_frames"@.len() == 20);
    assert("list_paused_requests"@.len() == 20);
    assert("get_websocket_frames"@[0] == 'g');
    assert("list_paused_requests"@[0] == 'l');
    assert("get_request_post_data"@.len() == 21);
    assert("wait_for_network_idle"@.len() == 21);
    assert("clear_browser_cookies"@.len() == 21);
    assert("get_request_post_data"@[0] == 'g');
    assert("wait_for_network_idle"@[0] == 'w');
    assert("clear_browser_cookies"@[0] == 'c');
    assert("set_extra_http_headers"@.len() == 22);
    assert("set_bypass_service_worker"@.len() == 25);
}

/// The first thing that an operation needs and does not have.
pub open spec fn first_lacking(input: NetworkToolInput) -> Option<Seq<char>> {
    match input.operation {
        NetworkOperation::HarImport => Some("har"@),
        NetworkOperation::BlockUrls | NetworkOperation::UnblockUrls => Some("urls"@),
        NetworkOperation::SetOffline => Some("offline"@),
        NetworkOperation::SetCacheDisabled | NetworkOperation::SetBypassServiceWorker => Some(
            "disabled"@,
        ),
        NetworkOperation::SetCookie | NetworkOperation::DeleteCookies => Some("cookie"@),
        NetworkOperation::SetExtraHttpHeaders => Some("headers"@),
        NetworkOperation::SetUserAgent => Some("user_agent"@),
        NetworkOperation::SetInterception => Some("patterns"@),
        NetworkOperation::GetRequest
        | NetworkOperation::GetRequestPostData
        | NetworkOperation::GetWebSocketFrames
        | NetworkOperation::ContinueRequest => Some("request_id"@),
        NetworkOperation::FulfillRequest => Some(
            if input.request_id is None {
                "request_id"@
            } else {
                "response"@
            },
        ),
        NetworkOperation::FailRequest => Some(
            if input.request_id is None {
                "request_id"@
            } else {
                "error_reason"@
            },
        ),
        _ => None,
    }
}

/// A call that lacks something is told what, and for which operation; one that may not change
/// anything is told which operation that was.
pub proof fn law_network_says_what_is_missing(input: NetworkToolInput, session_id: u64)
    requires
        input.session_id == Some(session_id),
    ensures
        network_plan(input, false) matches PlanView::Refused { error } ==> (first_lacking(
            input,
        ) matches Some(lacking) ==> begins_with(error, lacking + " is required"@) && occurs(
            error,
            network_operation_name(input.operation),
        )),
        network_writes(input.operation) ==> (network_plan(input, true) matches PlanView::Refused {
            error,
        } && begins_with(error, "network."@ + network_operation_name(input.operation)
            + " is not available in read-only modes"@)),
{
    let operation = input.operation;
    let name = network_operation_name(operation);
    if let PlanView::Refused { error } = network_plan(input, false) {
        if let Some(lacking) = first_lacking(input) {
            assert(error == field_missing(lacking, name));
            let front = lacking + " is required"@;
            let rest = " is required for network "@.skip(" is required"@.len() as int);
            assert(" is required for network "@ =~= " is required"@ + rest) by {
                reveal_strlit(" is required");
                reveal_strlit(" is required for network ");
            }
            assert(error =~= front + (rest + name));
            assert(error.take(front.len() as int) =~= front);
            let nothing = Seq::<char>::empty();
            assert(error =~= (lacking + " is required for network "@) + name + nothing);
            lemma_occurs_between(error, lacking + " is required for network "@, name, nothing);
        }
    }
    if network_writes(operation) {
        let error = read_only_refusal(operation);
        let front = "network."@ + name + " is not available in read-only modes"@;
        let why =
            " is not available in read-only modes. Switch to Write or Execute mode to change the browser network state."@;
        let tail = why.skip(" is not available in read-only modes"@.len() as int);
        assert(why =~= " is not available in read-only modes"@ + tail) by {
            reveal_strlit(" is not available in read-only modes");
            reveal_strlit(
                " is not available in read-only modes. Switch to Write or Execute mode to change the browser network state.",
            );
        }
        assert(error =~= front + tail);
        assert(error.take(front.len() as int) =~= front);
    }
}

/// What is said of an operation that succeeded is said of no other.
#[verifier::rlimit(60)]
pub proof fn law_network_success_is_told_of_one_operation(operation: NetworkOperation)
    ensures
        network_success(operation) == "listed network requests"@ <==> operation == NetworkOperation::ListRequests,
        network_success(operation) == "fetched request"@ <==> operation == NetworkOperation::GetRequest,
        network_success(operation) == "fetched response body"@ <==> operation == NetworkOperation::GetResponseBody,
        network_success(operation) == "fetched request post data"@ <==> operation == NetworkOperation::GetRequestPostData,
        network_success(operation) == "fetched cookies"@ <==> operation == NetworkOperation::GetCookies,
        network_success(operation) == "fetched websocket frames"@ <==> operation == NetworkOperation::GetWebSocketFrames,
        network_success(operation) == "waited for network idle"@ <==> operation == NetworkOperation::WaitForNetworkIdle,
        network_success(operation) == "exported HAR"@ <==> operation == NetworkOperation::HarExport,
        network_success(operation) == "imported HAR"@ <==> operation == NetworkOperation::HarImport,
        network_success(operation) == "listed paused requests"@ <==> operation == NetworkOperation::ListPausedRequests,
        network_success(operation) == "read network control state"@ <==> operation == NetworkOperation::GetControlState,
        network_success(operation) == "set network throttle"@ <==> operation == NetworkOperation::SetThrottle,
        network_success(operation) == "set offline state"@ <==> operation == NetworkOperation::SetOffline,
        network_success(operation) == "blocked URLs"@ <==> operation == NetworkOperation::BlockUrls,
        network_success(operation) == "unblocked URLs"@ <==> operation == NetworkOperation::UnblockUrls,
        network_success(operation) == "toggled cache"@ <==> operation == NetworkOperation::SetCacheDisabled,
        network_success(operation) == "toggled service worker bypass"@ <==> operation == NetworkOperation::SetBypassServiceWorker,
        network_success(operation) == "cleared browser cache"@ <==> operation == NetworkOperation::ClearBrowserCache,
        network_success(operation) == "cleared browser cookies"@ <==> operation == NetworkOperation::ClearBrowserCookies,
        network_success(operation) == "set cookie"@ <==> operation == NetworkOperation::SetCookie,
        network_success(operation) == "deleted cookies"@ <==> operation == NetworkOperation::DeleteCookies,
        network_success(operation) == "set extra HTTP headers"@ <==> operation == NetworkOperation::SetExtraHttpHeaders,
        network_success(operation) == "set user agent"@ <==> operation == NetworkOperation::SetUserAgent,
        network_success(operation) == "enabled network interception"@ <==> operation == NetworkOperation::SetInterception,
        network_success(operation) == "continued request"@ <==> operation == NetworkOperation::ContinueRequest,
        network_success(operation) == "fulfilled request"@ <==> operation == NetworkOperation::FulfillRequest,
        network_success(operation) == "failed request"@ <==> operation == NetworkOperation::FailRequest,
{
    reveal_strlit("listed network requests");
    reveal_strlit("fetched request");
    reveal_strlit("fetched response body");
    reveal_strlit("fetched request post data");
    reveal_strlit("fetched cookies");
    reveal_strlit("fetched websocket frames");
    reveal_strlit("waited for network idle");
    reveal_strlit("exported HAR");
    reveal_strlit("imported HAR");
    reveal_strlit("listed paused requests");
    reveal_strlit("read network control state");
    reveal_strlit("set network throttle");
    reveal_strlit("set offline state");
    reveal_strlit("blocked URLs");
    reveal_strlit("unblocked URLs");
    reveal_strlit("toggled cache");
    reveal_strlit("toggled service worker bypass");
    reveal_strlit("cleared browser cache");
    reveal_strlit("cleared browser cookies");
    reveal_strlit("set cookie");
    reveal_strlit("deleted cookies");
    reveal_strlit("set extra HTTP headers");
    reveal_strlit("set user agent");
    reveal_strlit("enabled network interception");
    reveal_strlit("continued request");
    reveal_strlit("fulfilled request");
    reveal_strlit("failed request");
    assert("set cookie"@.len() == 10);
    assert("exported HAR"@.len() == 12);
    assert("imported HAR"@.len() == 12);
    assert("blocked URLs"@.len() == 12);
    assert("exported HAR"@[0] == 'e');
    assert("imported HAR"@[0] == 'i');
    assert("blocked URLs"@[0] == 'b');
    assert("toggled cache"@.len() == 13);
    assert("unblocked URLs"@.len() == 14);
    assert("set user agent"@.len() == 14);
    assert("failed request"@.len() == 14);
    assert("unblocked URLs"@[0] == 'u');
    assert("set user agent"@[0] == 's');
    assert("failed request"@[0] == 'f');
    assert("fetched request"@.len() == 15);
    assert("fetched cookies"@.len() == 15);
    assert("deleted cookies"@.len() == 15);
    assert("fetched request"@[0] == 'f' && "fetched request"@[8] == 'r');
    assert("fetched cookies"@[0] == 'f' && "fetched cookies"@[8] == 'c');
    assert("deleted cookies"@[0] == 'd' && "deleted cookies"@[8] == 'c');
    assert("set offline state"@.len() == 17);
    assert("continued request"@.len() == 17);
    assert("fulfilled request"@.len() == 17);
    assert("set offline state"@[0] == 's');
    assert("continued request"@[0] == 'c');
    assert("fulfilled request"@[0] == 'f');
    assert("set network throttle"@.len() == 20);
    assert("fetched response body"@.len() == 21);
    assert("cleared browser cache"@.len() == 21);
    assert("fetched response body"@[0] == 'f');
    assert("cleared browser cache"@[0] == 'c');
    assert("listed paused requests"@.len() == 22);
    assert("set extra HTTP headers"@.len() == 22);
    assert("listed paused requests"@[0] == 'l');
    assert("set extra HTTP headers"@[0] == 's');
    assert("listed network requests"@.len() == 23);
    assert("waited for network idle"@.len() == 23);
    assert("cleared browser cookies"@.len() == 23);
    assert("listed network requests"@[0] == 'l');
    assert("waited for network idle"@[0] == 'w');
    assert("cleared browser cookies"@[0] == 'c');
    assert("fetched websocket frames"@.len() == 24);
    assert("fetched request post data"@.len() == 25);
    assert("read network control state"@.len() == 26);
    assert("enabled network interception"@.len() == 28);
    assert("toggled service worker bypass"@.len() == 29);
}

/// The user is asked under a title that no other operation has.
#[verifier::rlimit(60)]
pub proof fn law_network_title_is_of_one_operation(operation: NetworkOperation)
    requires
        network_writes(operation),
    ensures
        network_ask_title(operation) == "Import HAR capture"@ <==> operation == NetworkOperation::HarImport,
        network_ask_title(operation) == "Set network throttle"@ <==> operation == NetworkOperation::SetThrottle,
        network_ask_title(operation) == "Set network offline"@ <==> operation == NetworkOperation::SetOffline,
        network_ask_title(operation) == "Block network URLs"@ <==> operation == NetworkOperation::BlockUrls,
        network_ask_title(operation) == "Unblock network URLs"@ <==> operation == NetworkOperation::UnblockUrls,
        network_ask_title(operation) == "Toggle browser cache"@ <==> operation == NetworkOperation::SetCacheDisabled,
        network_ask_title(operation) == "Toggle service worker bypass"@ <==> operation == NetworkOperation::SetBypassServiceWorker,
        network_ask_title(operation) == "Clear browser cache"@ <==> operation == NetworkOperation::ClearBrowserCache,
        network_ask_title(operation) == "Clear browser cookies"@ <==> operation == NetworkOperation::ClearBrowserCookies,
        network_ask_title(operation) == "Set browser cookie"@ <==> operation == NetworkOperation::SetCookie,
        network_ask_title(operation) == "Delete browser cookies"@ <==> operation == NetworkOperation::DeleteCookies,
        network_ask_title(operation) == "Override HTTP headers"@ <==> operation == NetworkOperation::SetExtraHttpHeaders,
        network_ask_title(operation) == "Override user agent"@ <==> operation == NetworkOperation::SetUserAgent,
        network_ask_title(operation) == "Enable network interception"@ <==> operation == NetworkOperation::SetInterception,
        network_ask_title(operation) == "Continue network request"@ <==> operation == NetworkOperation::ContinueRequest,
        network_ask_title(operation) == "Fulfill network request"@ <==> operation == NetworkOperation::FulfillRequest,
        network_ask_title(operation) == "Fail network request"@ <==> operation == NetworkOperation::FailRequest,
{
    reveal_strlit("Import HAR capture");
    reveal_strlit("Set network throttle");
    reveal_strlit("Set network offline");
    reveal_strlit("Block network URLs");
    reveal_strlit("Unblock network URLs");
    reveal_strlit("Toggle browser cache");
    reveal_strlit("Toggle service worker bypass");
    reveal_strlit("Clear browser cache");
    reveal_strlit("Clear browser cookies");
    reveal_strlit("Set browser cookie");
    reveal_strlit("Delete browser cookies");
    reveal_strlit("Override HTTP headers");
    reveal_strlit("Override user agent");
    reveal_strlit("Enable network interception");
    reveal_strlit("Continue network request");
    reveal_strlit("Fulfill network request");
    reveal_strlit("Fail network request");
    assert("Import HAR capture"@.len() == 18);
    assert("Block network URLs"@.len() == 18);
    assert("Set browser cookie"@.len() == 18);
    assert("Import HAR capture"@[0] == 'I');
    assert("Block network URLs"@[0] == 'B');
    assert("Set browser cookie"@[0] == 'S');
    assert("Set network offline"@.len() == 19);
    assert("Clear browser cache"@.len() == 19);
    assert("Override user agent"@.len() == 19);
    assert("Set network offline"@[0] == 'S');
    assert("Clear browser cache"@[0] == 'C');
    assert("Override user agent"@[0] == 'O');
    assert("Set network throttle"@.len() == 20);
    assert("Unblock network URLs"@.len() == 20);
    assert("Toggle browser cache"@.len() == 20);
    assert("Fail network request"@.len() == 20);
    assert("Set network throttle"@[0] == 'S');
    assert("Unblock network URLs"@[0] == 'U');
    assert("Toggle browser cache"@[0] == 'T');
    assert("Fail network request"@[0] == 'F');
    assert("Clear browser cookies"@.len() == 21);
    assert("Override HTTP headers"@.len() == 21);
    assert("Clear browser cookies"@[0] == 'C');
    assert("Override HTTP headers"@[0] == 'O');
    assert("Delete browser cookies"@.len() == 22);
    assert("Fulfill network request"@.len() == 23);
    assert("Continue network request"@.len() == 24);
    assert("Enable network interception"@.len() == 27);
    assert("Toggle service worker bypass"@.len() == 28);
}

} // verus!
