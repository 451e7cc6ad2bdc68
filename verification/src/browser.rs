//! Browser sessions and what is done in them.
//!
//! A session is a running browser and its targets: pages, workers and the like. An
//! operation on a target is a command that is sent over the session's connection; what
//! it comes to is known once the answer is there.

use vstd::prelude::*;
use crate::assoc::{
    assign, distinct, find, find_mut, has, law_put_all_counts, lemma_lookup_first, lookup, put,
    put_all, take, without,
};
use crate::cdp::{filter_events, last_items, selected, EventKind};
use crate::control::{
    control_json, interception_params, throttle_params, uncontrolled, unthrottled, ControlView,
    InterceptionConfig, NetworkControlState, PatternView, ThrottleConditions, ThrottleView,
};
use crate::json::{
    array, bool_in, copy_or_null, field, field_in, items_in, or_null, read_text, set_members,
    strings, text, text_array, text_field, text_in, text_or_null, u64_in, uint, uint_view, Fields,
    Json, JsonView,
};
use crate::network::{header_members, ingested, Headers, NetworkStore, RequestView};
use crate::page_script::{
    PAGE_STATE_EXPRESSION, SNAPSHOT_EXPRESSION, click_expression, click_script, evaluate_params,
    evaluate_request, evaluated, evaluated_value, evaluation_report, focus_expression, focus_script,
    focus_succeeded, is_focused, is_loaded, not_typed, page_is_loaded, report_evaluation,
    report_not_typed,
};

verus! {

// ---------------------------------------------------------------------------
// Targets and sessions

/// A target: a page, a worker, a service worker or the like.
#[derive(Debug)]
pub struct BrowserTarget {
    /// The id that the browser knows the target by.
    pub target_id: String,
    /// The id of the flattened session that commands to this target carry.
    pub session_id: String,
    /// What kind of target it is.
    pub target_type: String,
    /// The URL last known.
    pub url: String,
}

/// The model of a target.
pub struct TargetView {
    pub target_id: Seq<char>,
    pub session_id: Seq<char>,
    pub target_type: Seq<char>,
    pub url: Seq<char>,
}

impl DeepView for BrowserTarget {
    type V = TargetView;

    open spec fn deep_view(&self) -> TargetView {
        TargetView {
            target_id: self.target_id@,
            session_id: self.session_id@,
            target_type: self.target_type@,
            url: self.url@,
        }
    }
}

/// A target as a JSON object.
pub open spec fn target_json(target: TargetView) -> JsonView {
    JsonView::Object(
        Seq::empty().push(("target_id"@, JsonView::Text(target.target_id))).push(
            ("target_type"@, JsonView::Text(target.target_type)),
        ).push(("url"@, JsonView::Text(target.url))),
    )
}

impl BrowserTarget {
    /// This target as a JSON object.
    pub fn to_json(&self) -> (r: Json)
        ensures
            r.deep_view() == target_json(self.deep_view()),
    {
        Fields::new().with("target_id", text(self.target_id.as_str())).with(
            "target_type",
            text(self.target_type.as_str()),
        ).with("url", text(self.url.as_str())).object()
    }
}

/// A running browser session.
#[derive(Debug)]
pub struct BrowserSession {
    pub id: u64,
    /// Targets by target id, in the order in which they came.
    pub targets: Vec<(String, BrowserTarget)>,
    /// The target that operations go to where none is named.
    pub active_target_id: Option<String>,
    /// The requests seen so far.
    pub network_store: NetworkStore,
    /// What the session is put under.
    pub control: NetworkControlState,
}

/// The model of a session.
pub struct SessionView {
    pub id: u64,
    pub targets: Seq<(Seq<char>, TargetView)>,
    pub active_target_id: Option<Seq<char>>,
    pub network_store: Seq<(Seq<char>, RequestView)>,
    pub control: ControlView,
}

impl DeepView for BrowserSession {
    type V = SessionView;

    open spec fn deep_view(&self) -> SessionView {
        SessionView {
            id: self.id,
            targets: self.targets.deep_view(),
            active_target_id: self.active_target_id.deep_view(),
            network_store: self.network_store.deep_view(),
            control: self.control.deep_view(),
        }
    }
}

/// A session with one target, which is the active one.
pub open spec fn session_of(id: u64, target: TargetView) -> SessionView {
    SessionView {
        id,
        targets: Seq::empty().push((target.target_id, target)),
        active_target_id: Some(target.target_id),
        network_store: Seq::empty(),
        control: uncontrolled(),
    }
}

/// The target that is named, or else the active one; what is missing otherwise.
pub open spec fn resolved(session: SessionView, target_id: Option<Seq<char>>) -> Result<
    TargetView,
    Seq<char>,
> {
    let id = match target_id {
        Some(id) => Some(id),
        None => session.active_target_id,
    };
    match id {
        None => Err("no active browser target"@),
        Some(id) => match lookup(session.targets, id) {
            Some(target) => Ok(target),
            None => Err("unknown browser target"@),
        },
    }
}

/// The session once a target has come, which becomes the active one.
pub open spec fn with_target(session: SessionView, target: TargetView) -> SessionView {
    SessionView {
        targets: put(session.targets, target.target_id, target),
        active_target_id: Some(target.target_id),
        ..session
    }
}

/// The session once a target has been taken out, before the browser has closed it.
pub open spec fn without_target(session: SessionView, target_id: Seq<char>) -> SessionView {
    SessionView { targets: without(session.targets, target_id), ..session }
}

/// The session once the browser has closed a target: where it was the active one, the
/// first of those that are left is, if any.
pub open spec fn after_close(session: SessionView, target_id: Seq<char>) -> SessionView {
    if session.active_target_id == Some(target_id) {
        SessionView {
            active_target_id: if session.targets.len() > 0 {
                Some(session.targets[0].0)
            } else {
                None
            },
            ..session
        }
    } else {
        session
    }
}

/// The session with a new URL for the target that is named or else active.
pub open spec fn with_url(session: SessionView, target_id: Option<Seq<char>>, url: Seq<char>) ->
    SessionView {
    let id = match target_id {
        Some(id) => Some(id),
        None => session.active_target_id,
    };
    match id {
        Some(id) => match lookup(session.targets, id) {
            Some(target) => SessionView {
                targets: put(session.targets, id, TargetView { url, ..target }),
                ..session
            },
            None => session,
        },
        None => session,
    }
}

/// Whether targets are kept under their own ids, each once.
pub open spec fn valid_targets(session: SessionView) -> bool {
    &&& distinct(session.targets)
    &&& forall|i: int|
        0 <= i < session.targets.len() ==> (#[trigger] session.targets[i]).1.target_id
            == session.targets[i].0
}

/// A target that comes is the one that operations go to, and closing it takes it out
/// for good; other targets are found as before.
pub proof fn law_targets_come_and_go(session: SessionView, target: TargetView, other: Seq<char>)
    requires
        valid_targets(session),
        other != target.target_id,
    ensures
        resolved(with_target(session, target), None) == Ok::<TargetView, Seq<char>>(target),
        valid_targets(with_target(session, target)),
        valid_targets(without_target(session, target.target_id)),
        resolved(without_target(session, target.target_id), Some(target.target_id)) == Err::<
            TargetView,
            Seq<char>,
        >("unknown browser target"@),
        resolved(with_target(session, target), Some(other)) == resolved(session, Some(other)),
        resolved(without_target(session, target.target_id), Some(other)) == resolved(
            session,
            Some(other),
        ),
{
    let id = target.target_id;
    crate::assoc::lemma_lookup_after_put(session.targets, id, target, other);
    crate::assoc::lemma_put_keeps_distinct(session.targets, id, target);
    crate::assoc::lemma_without(session.targets, id, other);
    let more = put(session.targets, id, target);
    assert forall|i: int| 0 <= i < more.len() implies (#[trigger] more[i]).1.target_id
        == more[i].0 by {
        crate::assoc::lemma_put_entries(session.targets, id, target, i);
    }
    let fewer = without(session.targets, id);
    assert forall|i: int| 0 <= i < fewer.len() implies (#[trigger] fewer[i]).1.target_id
        == fewer[i].0 by {
        crate::assoc::lemma_without_entries(session.targets, id, i);
    }
}

impl BrowserSession {
    /// A session with one target, which is the active one.
    pub fn new(id: u64, target: BrowserTarget) -> (r: BrowserSession)
        ensures
            r.deep_view() == session_of(id, target.deep_view()),
    {
        let target_id = target.target_id.clone();
        let mut targets: Vec<(String, BrowserTarget)> = Vec::new();
        let key = target.target_id.clone();
        targets.push((key, target));
        assert(targets.deep_view() =~= Seq::empty().push((target_id@, target.deep_view())));
        BrowserSession {
            id,
            targets,
            active_target_id: Some(target_id),
            network_store: NetworkStore::new(),
            control: NetworkControlState::default(),
        }
    }

    /// The target that is named, or else the active one.
    pub fn get_target(&self, target_id: Option<&str>) -> (r: Result<&BrowserTarget, String>)
        ensures
            match resolved(self.deep_view(), target_id.deep_view()) {
                Ok(target) => r matches Ok(t) && t.deep_view() == target,
                Err(text) => r matches Err(error) && error@ == text,
            },
    {
        let id: &str = match target_id {
            Some(id) => id,
            None => match &self.active_target_id {
                Some(id) => id.as_str(),
                None => {
                    return Err("no active browser target".to_owned());
                },
            },
        };
        match find(&self.targets, id) {
            Some(target) => Ok(target),
            None => Err("unknown browser target".to_owned()),
        }
    }

    /// The flattened session of the target that is named, or else of the active one.
    pub fn resolve_target_session_id(&self, target_id: Option<&str>) -> (r: Result<String, String>)
        ensures
            match resolved(self.deep_view(), target_id.deep_view()) {
                Ok(target) => r matches Ok(id) && id@ == target.session_id,
                Err(text) => r matches Err(error) && error@ == text,
            },
    {
        match self.get_target(target_id) {
            Ok(target) => Ok(target.session_id.clone()),
            Err(error) => Err(error),
        }
    }

    /// Keeps a target that was created, as the active one; the target as JSON.
    pub fn open_target(&mut self, target: BrowserTarget) -> (r: Json)
        ensures
            final(self).deep_view() == with_target(old(self).deep_view(), target.deep_view()),
            r.deep_view() == target_json(target.deep_view()),
    {
        let json = target.to_json();
        let id = target.target_id.clone();
        self.active_target_id = Some(id.clone());
        assign(&mut self.targets, id.as_str(), target);
        json
    }

    /// Takes a target out that is to be closed; the command that closes it.
    pub fn close_target(&mut self, target_id: &str) -> (r: Result<CdpCommand, String>)
        ensures
            match lookup(old(self).deep_view().targets, target_id@) {
                Some(target) => {
                    &&& r matches Ok(command) && command@ == close_command(target.target_id)
                    &&& final(self).deep_view() == without_target(
                        old(self).deep_view(),
                        target_id@,
                    )
                },
                None => {
                    &&& r matches Err(error) && error@ == "unknown browser target"@
                    &&& final(self).deep_view() == old(self).deep_view()
                },
            },
    {
        let ghost before = self.deep_view();
        match take(&mut self.targets, target_id) {
            Some(target) => Ok(close_target_command(target.target_id.as_str())),
            None => {
                proof {
                    crate::assoc::lemma_without_absent(before.targets, target_id@);
                }
                Err("unknown browser target".to_owned())
            },
        }
    }

    /// Notes that the browser has closed a target.
    pub fn target_closed(&mut self, target_id: &str)
        ensures
            final(self).deep_view() == after_close(old(self).deep_view(), target_id@),
    {
        let was_active = match &self.active_target_id {
            Some(active) => crate::text::same(active.as_str(), target_id),
            None => false,
        };
        if was_active {
            if self.targets.len() > 0 {
                self.active_target_id = Some(self.targets[0].0.clone());
            } else {
                self.active_target_id = None;
            }
        }
    }

    /// Makes a target the active one.
    pub fn activate_target(&mut self, target_id: &str) -> (r: Result<(), String>)
        ensures
            match lookup(old(self).deep_view().targets, target_id@) {
                Some(_) => {
                    &&& r is Ok
                    &&& final(self).deep_view() == (SessionView {
                        active_target_id: Some(target_id@),
                        ..old(self).deep_view()
                    })
                },
                None => {
                    &&& r matches Err(error) && error@ == "unknown browser target"@
                    &&& final(self).deep_view() == old(self).deep_view()
                },
            },
    {
        let known = has(&self.targets, target_id);
        if !known {
            return Err("unknown browser target".to_owned());
        }
        self.active_target_id = Some(target_id.to_owned());
        Ok(())
    }

    fn update_target_url(&mut self, target_id: Option<&str>, url: &str)
        ensures
            final(self).deep_view() == with_url(
                old(self).deep_view(),
                target_id.deep_view(),
                url@,
            ),
    {
        let id: String = match target_id {
            Some(id) => id.to_owned(),
            None => match &self.active_target_id {
                Some(id) => id.clone(),
                None => {
                    return ;
                },
            },
        };
        match find_mut(&mut self.targets, id.as_str()) {
            Some(target) => {
                target.url = url.to_owned();
            },
            None => {},
        }
    }
}

// ---------------------------------------------------------------------------
// Commands

/// A command to the browser, or to one target where it names a flattened session.
#[derive(Debug)]
pub struct CdpCommand {
    pub session: Option<String>,
    pub method: String,
    pub params: Json,
}

/// The model of a command.
pub struct CommandView {
    pub session: Option<Seq<char>>,
    pub method: Seq<char>,
    pub params: JsonView,
}

impl View for CdpCommand {
    type V = CommandView;

    open spec fn view(&self) -> CommandView {
        CommandView {
            session: self.session.deep_view(),
            method: self.method@,
            params: self.params.deep_view(),
        }
    }
}

/// The object with one member.
pub open spec fn single(name: Seq<char>, value: JsonView) -> JsonView {
    JsonView::Object(Seq::empty().push((name, value)))
}

/// The object without members.
pub open spec fn no_params() -> JsonView {
    JsonView::Object(Seq::empty())
}

/// The command that closes a target.
pub open spec fn close_command(target_id: Seq<char>) -> CommandView {
    CommandView {
        session: None,
        method: "Target.closeTarget"@,
        params: single("targetId"@, JsonView::Text(target_id)),
    }
}

/// The command that closes a target.
pub fn close_target_command(target_id: &str) -> (r: CdpCommand)
    ensures
        r@ == close_command(target_id@),
{
    CdpCommand {
        session: None,
        method: "Target.closeTarget".to_owned(),
        params: Fields::new().with("targetId", text(target_id)).object(),
    }
}

/// An operation on a target.
#[derive(Debug)]
pub enum TargetCommand {
    Navigate { url: String },
    Snapshot,
    Screenshot,
    Evaluate { expression: String },
    Click { selector: String },
    /// Focuses the element to type into.
    TypeText { selector: String, text: String },
    /// Types into the element that was focused.
    InsertText { selector: String, text: String },
    SetThrottle { conditions: ThrottleConditions },
    SetOffline { offline: bool },
    SetCacheDisabled { disabled: bool },
    SetBypassServiceWorker { bypass: bool },
    SetBlockedUrls { urls: Vec<String> },
    ClearBrowserCache,
    ClearBrowserCookies,
    SetCookie { params: Json },
    DeleteCookies { params: Json },
    SetExtraHttpHeaders { headers: Headers },
    SetUserAgent { user_agent: String },
    SetInterception { config: InterceptionConfig },
    ContinueRequest { request_id: String, modifications: Json },
    FulfillRequest { request_id: String, response: Json },
    FailRequest { request_id: String, error_reason: String },
}

/// The model of an operation on a target.
pub enum TargetCommandView {
    Navigate { url: Seq<char> },
    Snapshot,
    Screenshot,
    Evaluate { expression: Seq<char> },
    Click { selector: Seq<char> },
    TypeText { selector: Seq<char>, text: Seq<char> },
    InsertText { selector: Seq<char>, text: Seq<char> },
    SetThrottle { conditions: ThrottleView },
    SetOffline { offline: bool },
    SetCacheDisabled { disabled: bool },
    SetBypassServiceWorker { bypass: bool },
    SetBlockedUrls { urls: Seq<Seq<char>> },
    ClearBrowserCache,
    ClearBrowserCookies,
    SetCookie { params: JsonView },
    DeleteCookies { params: JsonView },
    SetExtraHttpHeaders { headers: Seq<(Seq<char>, Seq<char>)> },
    SetUserAgent { user_agent: Seq<char> },
    SetInterception { patterns: Seq<PatternView> },
    ContinueRequest { request_id: Seq<char>, modifications: JsonView },
    FulfillRequest { request_id: Seq<char>, response: JsonView },
    FailRequest { request_id: Seq<char>, error_reason: Seq<char> },
}

impl DeepView for TargetCommand {
    type V = TargetCommandView;

    open spec fn deep_view(&self) -> TargetCommandView {
        match self {
            TargetCommand::Navigate { url } => TargetCommandView::Navigate { url: url@ },
            TargetCommand::Snapshot => TargetCommandView::Snapshot,
            TargetCommand::Screenshot => TargetCommandView::Screenshot,
            TargetCommand::Evaluate { expression } => TargetCommandView::Evaluate {
                expression: expression@,
            },
            TargetCommand::Click { selector } => TargetCommandView::Click { selector: selector@ },
            TargetCommand::TypeText { selector, text } => TargetCommandView::TypeText {
                selector: selector@,
                text: text@,
            },
            TargetCommand::InsertText { selector, text } => TargetCommandView::InsertText {
                selector: selector@,
                text: text@,
            },
            TargetCommand::SetThrottle { conditions } => TargetCommandView::SetThrottle {
                conditions: conditions.deep_view(),
            },
            TargetCommand::SetOffline { offline } => TargetCommandView::SetOffline {
                offline: *offline,
            },
            TargetCommand::SetCacheDisabled { disabled } => TargetCommandView::SetCacheDisabled {
                disabled: *disabled,
            },
            TargetCommand::SetBypassServiceWorker { bypass } => TargetCommandView::SetBypassServiceWorker {
                bypass: *bypass,
            },
            TargetCommand::SetBlockedUrls { urls } => TargetCommandView::SetBlockedUrls {
                urls: urls.deep_view(),
            },
            TargetCommand::ClearBrowserCache => TargetCommandView::ClearBrowserCache,
            TargetCommand::ClearBrowserCookies => TargetCommandView::ClearBrowserCookies,
            TargetCommand::SetCookie { params } => TargetCommandView::SetCookie {
                params: params.deep_view(),
            },
            TargetCommand::DeleteCookies { params } => TargetCommandView::DeleteCookies {
                params: params.deep_view(),
            },
            TargetCommand::SetExtraHttpHeaders { headers } => TargetCommandView::SetExtraHttpHeaders {
                headers: headers.deep_view(),
            },
            TargetCommand::SetUserAgent { user_agent } => TargetCommandView::SetUserAgent {
                user_agent: user_agent@,
            },
            TargetCommand::SetInterception { config } => TargetCommandView::SetInterception {
                patterns: config.deep_view(),
            },
            TargetCommand::ContinueRequest { request_id, modifications } => TargetCommandView::ContinueRequest {
                request_id: request_id@,
                modifications: modifications.deep_view(),
            },
            TargetCommand::FulfillRequest { request_id, response } => TargetCommandView::FulfillRequest {
                request_id: request_id@,
                response: response.deep_view(),
            },
            TargetCommand::FailRequest { request_id, error_reason } => TargetCommandView::FailRequest {
                request_id: request_id@,
                error_reason: error_reason@,
            },
        }
    }
}

/// The conditions that a change of the offline state puts a session under.
pub open spec fn offline_conditions(control: ControlView, offline: bool) -> ThrottleView {
    let base = match control.throttle {
        Some(conditions) => conditions,
        None => unthrottled(),
    };
    ThrottleView { offline, ..base }
}

/// The parameters that decide on a paused request: its id, and the fields given.
pub open spec fn disposition_params(request_id: Seq<char>, fields: JsonView) -> JsonView {
    let id = Seq::empty().push(("requestId"@, JsonView::Text(request_id)));
    match fields {
        JsonView::Object(members) => JsonView::Object(put_all(id, members)),
        _ => JsonView::Object(id),
    }
}

/// The method of an operation's command.
pub open spec fn method_of(command: TargetCommandView) -> Seq<char> {
    match command {
        TargetCommandView::Navigate { .. } => "Page.navigate"@,
        TargetCommandView::Snapshot => "Runtime.evaluate"@,
        TargetCommandView::Screenshot => "Page.captureScreenshot"@,
        TargetCommandView::Evaluate { .. } => "Runtime.evaluate"@,
        TargetCommandView::Click { .. } => "Runtime.evaluate"@,
        TargetCommandView::TypeText { .. } => "Runtime.evaluate"@,
        TargetCommandView::InsertText { .. } => "Input.insertText"@,
        TargetCommandView::SetThrottle { .. } => "Network.emulateNetworkConditions"@,
        TargetCommandView::SetOffline { .. } => "Network.emulateNetworkConditions"@,
        TargetCommandView::SetCacheDisabled { .. } => "Network.setCacheDisabled"@,
        TargetCommandView::SetBypassServiceWorker { .. } => "Network.setBypassServiceWorker"@,
        TargetCommandView::SetBlockedUrls { .. } => "Network.setBlockedURLs"@,
        TargetCommandView::ClearBrowserCache => "Network.clearBrowserCache"@,
        TargetCommandView::ClearBrowserCookies => "Network.clearBrowserCookies"@,
        TargetCommandView::SetCookie { .. } => "Network.setCookie"@,
        TargetCommandView::DeleteCookies { .. } => "Network.deleteCookies"@,
        TargetCommandView::SetExtraHttpHeaders { .. } => "Network.setExtraHTTPHeaders"@,
        TargetCommandView::SetUserAgent { .. } => "Network.setUserAgentOverride"@,
        TargetCommandView::SetInterception { .. } => "Fetch.enable"@,
        TargetCommandView::ContinueRequest { .. } => "Fetch.continueRequest"@,
        TargetCommandView::FulfillRequest { .. } => "Fetch.fulfillRequest"@,
        TargetCommandView::FailRequest { .. } => "Fetch.failRequest"@,
    }
}

/// The parameters of an operation's command, in a session under that control.
pub open spec fn params_of(command: TargetCommandView, control: ControlView) -> JsonView {
    match command {
        TargetCommandView::Navigate { url } => single("url"@, JsonView::Text(url)),
        TargetCommandView::Snapshot => evaluate_params(SNAPSHOT_EXPRESSION@),
        TargetCommandView::Screenshot => JsonView::Object(
            Seq::empty().push(("format"@, JsonView::Text("png"@))).push(
                ("fromSurface"@, JsonView::Bool(true)),
            ),
        ),
        TargetCommandView::Evaluate { expression } => evaluate_params(expression),
        TargetCommandView::Click { selector } => evaluate_params(click_script(selector)),
        TargetCommandView::TypeText { selector, .. } => evaluate_params(focus_script(selector)),
        TargetCommandView::InsertText { text, .. } => single("text"@, JsonView::Text(text)),
        TargetCommandView::SetThrottle { conditions } => throttle_params(conditions),
        TargetCommandView::SetOffline { offline } => throttle_params(
            offline_conditions(control, offline),
        ),
        TargetCommandView::SetCacheDisabled { disabled } => single(
            "cacheDisabled"@,
            JsonView::Bool(disabled),
        ),
        TargetCommandView::SetBypassServiceWorker { bypass } => single("bypass"@, JsonView::Bool(bypass)),
        TargetCommandView::SetBlockedUrls { urls } => single("urls"@, text_array(urls)),
        TargetCommandView::ClearBrowserCache => no_params(),
        TargetCommandView::ClearBrowserCookies => no_params(),
        TargetCommandView::SetCookie { params } => params,
        TargetCommandView::DeleteCookies { params } => params,
        TargetCommandView::SetExtraHttpHeaders { headers } => single(
            "headers"@,
            JsonView::Object(header_members(headers)),
        ),
        TargetCommandView::SetUserAgent { user_agent } => single(
            "userAgent"@,
            JsonView::Text(user_agent),
        ),
        TargetCommandView::SetInterception { patterns } => interception_params(patterns),
        TargetCommandView::ContinueRequest { request_id, modifications } => disposition_params(
            request_id,
            modifications,
        ),
        TargetCommandView::FulfillRequest { request_id, response } => disposition_params(
            request_id,
            response,
        ),
        TargetCommandView::FailRequest { request_id, error_reason } => JsonView::Object(
            Seq::empty().push(("requestId"@, JsonView::Text(request_id))).push(
                ("errorReason"@, JsonView::Text(error_reason)),
            ),
        ),
    }
}

/// The control state once an operation has succeeded.
pub open spec fn control_after(command: TargetCommandView, control: ControlView) -> ControlView {
    match command {
        TargetCommandView::SetThrottle { conditions } => ControlView {
            offline: conditions.offline,
            throttle: Some(conditions),
            ..control
        },
        TargetCommandView::SetOffline { offline } => ControlView {
            offline,
            throttle: Some(offline_conditions(control, offline)),
            ..control
        },
        TargetCommandView::SetCacheDisabled { disabled } => ControlView {
            cache_disabled: disabled,
            ..control
        },
        TargetCommandView::SetBypassServiceWorker { bypass } => ControlView {
            bypass_service_worker: bypass,
            ..control
        },
        TargetCommandView::SetBlockedUrls { urls } => ControlView {
            blocked_urls: urls,
            ..control
        },
        TargetCommandView::SetExtraHttpHeaders { headers } => ControlView {
            extra_http_headers: headers,
            ..control
        },
        TargetCommandView::SetUserAgent { user_agent } => ControlView {
            user_agent: Some(user_agent),
            ..control
        },
        TargetCommandView::SetInterception { patterns } => ControlView {
            interception: Some(patterns),
            ..control
        },
        _ => control,
    }
}

/// The session once an operation has succeeded.
pub open spec fn session_after(
    session: SessionView,
    target_id: Option<Seq<char>>,
    command: TargetCommandView,
) -> SessionView {
    match command {
        TargetCommandView::Navigate { url } => with_url(session, target_id, url),
        _ => SessionView { control: control_after(command, session.control), ..session },
    }
}

/// What a snapshot of a page is reported as.
pub open spec fn snapshot_report(target: TargetView, page: JsonView) -> JsonView {
    JsonView::Object(
        Seq::empty().push(("target_id"@, JsonView::Text(target.target_id))).push(
            (
                "url"@,
                match field(page, "url"@) {
                    Some(url) => url,
                    None => JsonView::Text(target.url),
                },
            ),
        ).push(("title"@, or_null(field(page, "title"@)))).push(
            ("text"@, or_null(field(page, "text"@))),
        ).push(
            (
                "elements"@,
                match field(page, "elements"@) {
                    Some(elements) => elements,
                    None => JsonView::Array(Seq::empty()),
                },
            ),
        ),
    )
}

/// What an operation comes to once its command is answered.
#[derive(Debug)]
pub enum CommandStep {
    /// It is done, with that value.
    Done { value: Json },
    /// Another operation follows.
    Next { command: TargetCommand },
    /// It failed.
    Failed { error: String },
}

/// Whether a step is what the answer to an operation's command makes of it, where
/// `target` is the target that it went to.
pub open spec fn is_step(
    step: CommandStep,
    command: TargetCommandView,
    target: TargetView,
    result: JsonView,
) -> bool {
    match command {
        TargetCommandView::Navigate { .. } => step matches CommandStep::Done { value }
            && value.deep_view() == JsonView::Null,
        TargetCommandView::Snapshot => step matches CommandStep::Done { value } && value.deep_view()
            == snapshot_report(target, evaluated(result)),
        TargetCommandView::Screenshot => match text_field(result, "data"@) {
            Some(data) => step matches CommandStep::Done { value } && value.deep_view()
                == JsonView::Text(data),
            None => step matches CommandStep::Failed { error } && error@
                == "Page.captureScreenshot returned no image data"@,
        },
        TargetCommandView::Evaluate { .. } => step matches CommandStep::Done { value }
            && value.deep_view() == evaluation_report(result),
        TargetCommandView::Click { .. } => step matches CommandStep::Done { value } && value.deep_view()
            == single("clicked"@, evaluated(result)),
        TargetCommandView::TypeText { selector, text } => if is_focused(evaluated(result)) {
            step matches CommandStep::Next {
                command: TargetCommand::InsertText { selector: s, text: t },
            } && s@ == selector && t@ == text
        } else {
            step matches CommandStep::Done { value } && value.deep_view() == not_typed(
                evaluated(result),
            )
        },
        TargetCommandView::InsertText { selector, text } => step matches CommandStep::Done { value }
            && value.deep_view() == JsonView::Object(
            Seq::empty().push(("typed"@, JsonView::Bool(true))).push(
                ("selector"@, JsonView::Text(selector)),
            ).push(("text"@, JsonView::Text(text))),
        ),
        _ => step matches CommandStep::Done { value } && value.deep_view() == result,
    }
}

fn disposition(request_id: &str, fields: &Json) -> (r: Json)
    ensures
        r.deep_view() == disposition_params(request_id@, fields.deep_view()),
{
    let mut members = Fields::new().with("requestId", text(request_id)).members();
    if let Some(extra) = fields.as_object() {
        set_members(&mut members, extra);
    }
    crate::json::object(members)
}

fn offline_for(control: &NetworkControlState, offline: bool) -> (r: ThrottleConditions)
    ensures
        r.deep_view() == offline_conditions(control.deep_view(), offline),
{
    let mut conditions = match &control.throttle {
        Some(conditions) => conditions.clone(),
        None => ThrottleConditions::default(),
    };
    conditions.offline = offline;
    conditions
}

fn method_name(command: &TargetCommand) -> (r: String)
    ensures
        r@ == method_of(command.deep_view()),
{
    match command {
        TargetCommand::Navigate { .. } => "Page.navigate".to_owned(),
        TargetCommand::Snapshot => "Runtime.evaluate".to_owned(),
        TargetCommand::Screenshot => "Page.captureScreenshot".to_owned(),
        TargetCommand::Evaluate { .. } => "Runtime.evaluate".to_owned(),
        TargetCommand::Click { .. } => "Runtime.evaluate".to_owned(),
        TargetCommand::TypeText { .. } => "Runtime.evaluate".to_owned(),
        TargetCommand::InsertText { .. } => "Input.insertText".to_owned(),
        TargetCommand::SetThrottle { .. } => "Network.emulateNetworkConditions".to_owned(),
        TargetCommand::SetOffline { .. } => "Network.emulateNetworkConditions".to_owned(),
        TargetCommand::SetCacheDisabled { .. } => "Network.setCacheDisabled".to_owned(),
        TargetCommand::SetBypassServiceWorker { .. } => "Network.setBypassServiceWorker".to_owned(),
        TargetCommand::SetBlockedUrls { .. } => "Network.setBlockedURLs".to_owned(),
        TargetCommand::ClearBrowserCache => "Network.clearBrowserCache".to_owned(),
        TargetCommand::ClearBrowserCookies => "Network.clearBrowserCookies".to_owned(),
        TargetCommand::SetCookie { .. } => "Network.setCookie".to_owned(),
        TargetCommand::DeleteCookies { .. } => "Network.deleteCookies".to_owned(),
        TargetCommand::SetExtraHttpHeaders { .. } => "Network.setExtraHTTPHeaders".to_owned(),
        TargetCommand::SetUserAgent { .. } => "Network.setUserAgentOverride".to_owned(),
        TargetCommand::SetInterception { .. } => "Fetch.enable".to_owned(),
        TargetCommand::ContinueRequest { .. } => "Fetch.continueRequest".to_owned(),
        TargetCommand::FulfillRequest { .. } => "Fetch.fulfillRequest".to_owned(),
        TargetCommand::FailRequest { .. } => "Fetch.failRequest".to_owned(),
    }
}

fn params_for(command: &TargetCommand, control: &NetworkControlState) -> (r: Json)
    ensures
        r.deep_view() == params_of(command.deep_view(), control.deep_view()),
{
    match command {
        TargetCommand::Navigate { url } => Fields::new().with("url", text(url.as_str())).object(),
        TargetCommand::Snapshot => evaluate_request(SNAPSHOT_EXPRESSION),
        TargetCommand::Screenshot => Fields::new().with("format", text("png")).with(
            "fromSurface",
            Json::Bool(true),
        ).object(),
        TargetCommand::Evaluate { expression } => evaluate_request(expression.as_str()),
        TargetCommand::Click { selector } => evaluate_request(
            click_expression(selector.as_str()).as_str(),
        ),
        TargetCommand::TypeText { selector, .. } => evaluate_request(
            focus_expression(selector.as_str()).as_str(),
        ),
        TargetCommand::InsertText { text: typed, .. } => Fields::new().with(
            "text",
            text(typed.as_str()),
        ).object(),
        TargetCommand::SetThrottle { conditions } => conditions.to_cdp_params(),
        TargetCommand::SetOffline { offline } => offline_for(control, *offline).to_cdp_params(),
        TargetCommand::SetCacheDisabled { disabled } => Fields::new().with(
            "cacheDisabled",
            Json::Bool(*disabled),
        ).object(),
        TargetCommand::SetBypassServiceWorker { bypass } => Fields::new().with(
            "bypass",
            Json::Bool(*bypass),
        ).object(),
        TargetCommand::SetBlockedUrls { urls } => Fields::new().with(
            "urls",
            strings(urls),
        ).object(),
        TargetCommand::ClearBrowserCache => Fields::new().object(),
        TargetCommand::ClearBrowserCookies => Fields::new().object(),
        TargetCommand::SetCookie { params } => params.clone(),
        TargetCommand::DeleteCookies { params } => params.clone(),
        TargetCommand::SetExtraHttpHeaders { headers } => Fields::new().with(
            "headers",
            headers.to_json(),
        ).object(),
        TargetCommand::SetUserAgent { user_agent } => Fields::new().with(
            "userAgent",
            text(user_agent.as_str()),
        ).object(),
        TargetCommand::SetInterception { config } => config.to_cdp_params(),
        TargetCommand::ContinueRequest { request_id, modifications } => disposition(
            request_id.as_str(),
            modifications,
        ),
        TargetCommand::FulfillRequest { request_id, response } => disposition(
            request_id.as_str(),
            response,
        ),
        TargetCommand::FailRequest { request_id, error_reason } => Fields::new().with(
            "requestId",
            text(request_id.as_str()),
        ).with("errorReason", text(error_reason.as_str())).object(),
    }
}

fn snapshot_of(target: &BrowserTarget, page: &Json) -> (r: Json)
    ensures
        r.deep_view() == snapshot_report(target.deep_view(), page.deep_view()),
{
    let url = match page.get("url") {
        Some(url) => url.clone(),
        None => text(target.url.as_str()),
    };
    let elements = match page.get("elements") {
        Some(elements) => elements.clone(),
        None => {
            let none: Vec<Json> = Vec::new();
            assert(none.deep_view() =~= Seq::empty());
            array(none)
        },
    };
    Fields::new().with("target_id", text(target.target_id.as_str())).with("url", url).with(
        "title",
        copy_or_null(page.get("title")),
    ).with("text", copy_or_null(page.get("text"))).with("elements", elements).object()
}

impl BrowserSession {
    /// The command that performs an operation on the target that is named, or else on
    /// the active one.
    pub fn prepare(&self, target_id: Option<&str>, command: &TargetCommand) -> (r: Result<
        CdpCommand,
        String,
    >)
        ensures
            match resolved(self.deep_view(), target_id.deep_view()) {
                Ok(target) => r matches Ok(c) && c@ == (CommandView {
                    session: Some(target.session_id),
                    method: method_of(command.deep_view()),
                    params: params_of(command.deep_view(), self.deep_view().control),
                }),
                Err(text) => r matches Err(error) && error@ == text,
            },
    {
        let session = match self.resolve_target_session_id(target_id) {
            Ok(session) => session,
            Err(error) => {
                return Err(error);
            },
        };
        Ok(
            CdpCommand {
                session: Some(session),
                method: method_name(command),
                params: params_for(command, &self.control),
            },
        )
    }

    fn apply_control(&mut self, command: TargetCommand)
        ensures
            final(self).deep_view() == (SessionView {
                control: control_after(command.deep_view(), old(self).deep_view().control),
                ..old(self).deep_view()
            }),
    {
        match command {
            TargetCommand::SetThrottle { conditions } => {
                self.control.offline = conditions.offline;
                self.control.throttle = Some(conditions);
            },
            TargetCommand::SetOffline { offline } => {
                let conditions = offline_for(&self.control, offline);
                self.control.offline = offline;
                self.control.throttle = Some(conditions);
            },
            TargetCommand::SetCacheDisabled { disabled } => {
                self.control.cache_disabled = disabled;
            },
            TargetCommand::SetBypassServiceWorker { bypass } => {
                self.control.bypass_service_worker = bypass;
            },
            TargetCommand::SetBlockedUrls { urls } => {
                self.control.blocked_urls = urls;
            },
            TargetCommand::SetExtraHttpHeaders { headers } => {
                self.control.extra_http_headers = headers;
            },
            TargetCommand::SetUserAgent { user_agent } => {
                self.control.user_agent = Some(user_agent);
            },
            TargetCommand::SetInterception { config } => {
                self.control.interception = Some(config);
            },
            _ => {},
        }
    }

    /// What an operation comes to, given the answer to its command, and its effect on
    /// the session.
    pub fn complete(&mut self, target_id: Option<&str>, command: TargetCommand, result: Json) -> (r:
        CommandStep)
        ensures
            match resolved(old(self).deep_view(), target_id.deep_view()) {
                Ok(target) => {
                    &&& is_step(r, command.deep_view(), target, result.deep_view())
                    &&& final(self).deep_view() == session_after(
                        old(self).deep_view(),
                        target_id.deep_view(),
                        command.deep_view(),
                    )
                },
                Err(text) => {
                    &&& r matches CommandStep::Failed { error } && error@ == text
                    &&& final(self).deep_view() == old(self).deep_view()
                },
            },
    {
        let snapshot = match self.get_target(target_id) {
            Ok(target) => match &command {
                TargetCommand::Snapshot => snapshot_of(target, &evaluated_value(&result)),
                _ => Json::Null,
            },
            Err(error) => {
                return CommandStep::Failed { error };
            },
        };
        match command {
            TargetCommand::Navigate { url } => {
                self.update_target_url(target_id, url.as_str());
                CommandStep::Done { value: Json::Null }
            },
            TargetCommand::Snapshot => CommandStep::Done { value: snapshot },
            TargetCommand::Screenshot => match read_text(result.get("data")) {
                Some(data) => CommandStep::Done { value: Json::Text(data) },
                None => CommandStep::Failed {
                    error: "Page.captureScreenshot returned no image data".to_owned(),
                },
            },
            TargetCommand::Evaluate { .. } => CommandStep::Done {
                value: report_evaluation(&result),
            },
            TargetCommand::Click { .. } => CommandStep::Done {
                value: Fields::new().with("clicked", evaluated_value(&result)).object(),
            },
            TargetCommand::TypeText { selector, text: typed } => {
                let state = evaluated_value(&result);
                if focus_succeeded(&state) {
                    CommandStep::Next {
                        command: TargetCommand::InsertText { selector, text: typed },
                    }
                } else {
                    CommandStep::Done { value: report_not_typed(&state) }
                }
            },
            TargetCommand::InsertText { selector, text: typed } => CommandStep::Done {
                value: Fields::new().with("typed", Json::Bool(true)).with(
                    "selector",
                    text(selector.as_str()),
                ).with("text", text(typed.as_str())).object(),
            },
            other => {
                self.apply_control(other);
                CommandStep::Done { value: result }
            },
        }
    }
}

// ---------------------------------------------------------------------------
// Events

/// The store once each network event of a session has been taken in, in order.
pub open spec fn ingested_all(
    requests: Seq<(Seq<char>, RequestView)>,
    events: Seq<JsonView>,
) -> Seq<(Seq<char>, RequestView)>
    decreases events.len(),
{
    if events.len() == 0 {
        requests
    } else {
        ingested(ingested_all(requests, events.drop_last()), events.last())
    }
}

/// The last hundred events of a kind and a session, under a name.
pub open spec fn events_report(
    name: Seq<char>,
    events: Seq<JsonView>,
    kind: EventKind,
    session: Seq<char>,
) -> JsonView {
    single(name, JsonView::Array(last_items(selected(events, kind, Some(session)), 100)))
}

fn report_events(name: &str, events: &Vec<Json>, kind: EventKind, session: &str) -> (r: Json)
    ensures
        r.deep_view() == events_report(name@, events.deep_view(), kind, session@),
{
    Fields::new().with(name, array(filter_events(events, kind, Some(session), 100))).object()
}

impl BrowserSession {
    /// The last console calls of a target, given what the connection has buffered.
    pub fn read_console(&self, target_id: Option<&str>, events: &Vec<Json>) -> (r: Result<
        Json,
        String,
    >)
        ensures
            match resolved(self.deep_view(), target_id.deep_view()) {
                Ok(target) => r matches Ok(value) && value.deep_view() == events_report(
                    "console"@,
                    events.deep_view(),
                    EventKind::Console,
                    target.session_id,
                ),
                Err(text) => r matches Err(error) && error@ == text,
            },
    {
        match self.resolve_target_session_id(target_id) {
            Ok(session) => Ok(
                report_events("console", events, EventKind::Console, session.as_str()),
            ),
            Err(error) => Err(error),
        }
    }

    /// The last network events of a target. The store takes in every network event of
    /// the target, not only those that are reported.
    pub fn read_network(&mut self, target_id: Option<&str>, events: &Vec<Json>) -> (r: Result<
        Json,
        String,
    >)
        ensures
            match resolved(old(self).deep_view(), target_id.deep_view()) {
                Ok(target) => {
                    &&& r matches Ok(value) && value.deep_view() == events_report(
                        "network"@,
                        events.deep_view(),
                        EventKind::Network,
                        target.session_id,
                    )
                    &&& final(self).deep_view() == (SessionView {
                        network_store: ingested_all(
                            old(self).deep_view().network_store,
                            selected(
                                events.deep_view(),
                                EventKind::Network,
                                Some(target.session_id),
                            ),
                        ),
                        ..old(self).deep_view()
                    })
                },
                Err(text) => {
                    &&& r matches Err(error) && error@ == text
                    &&& final(self).deep_view() == old(self).deep_view()
                },
            },
    {
        let session = match self.resolve_target_session_id(target_id) {
            Ok(session) => session,
            Err(error) => {
                return Err(error);
            },
        };
        let ghost before = self.deep_view();
        let ghost models = events.deep_view();
        let mut i: usize = 0;
        proof {
            assert(models.take(0) =~= Seq::empty());
        }
        while i < events.len()
            invariant
                i <= events@.len(),
                models == events.deep_view(),
                self.deep_view() == (SessionView {
                    network_store: ingested_all(
                        before.network_store,
                        selected(models.take(i as int), EventKind::Network, Some(session@)),
                    ),
                    ..before
                }),
            decreases events@.len() - i,
        {
            proof {
                let next = models.take(i + 1);
                assert(next.drop_last() =~= models.take(i as int));
                assert(next.last() == events@[i as int].deep_view());
                let done = selected(models.take(i as int), EventKind::Network, Some(session@));
                assert(done.push(next.last()).drop_last() =~= done);
            }
            if crate::cdp::event_is(&events[i], EventKind::Network)
                && crate::cdp::session_id_matches(&events[i], Some(session.as_str())) {
                self.network_store.ingest(&events[i]);
            }
            i = i + 1;
        }
        proof {
            assert(models.take(models.len() as int) =~= models);
        }
        Ok(report_events("network", events, EventKind::Network, session.as_str()))
    }

    /// The last requests of a target that were paused.
    pub fn list_paused_requests(&self, target_id: Option<&str>, events: &Vec<Json>) -> (r: Result<
        Json,
        String,
    >)
        ensures
            match resolved(self.deep_view(), target_id.deep_view()) {
                Ok(target) => r matches Ok(value) && value.deep_view() == events_report(
                    "paused_requests"@,
                    events.deep_view(),
                    EventKind::RequestPaused,
                    target.session_id,
                ),
                Err(text) => r matches Err(error) && error@ == text,
            },
    {
        match self.resolve_target_session_id(target_id) {
            Ok(session) => Ok(
                report_events(
                    "paused_requests",
                    events,
                    EventKind::RequestPaused,
                    session.as_str(),
                ),
            ),
            Err(error) => Err(error),
        }
    }
}

/// Taking in a session's events again and again keeps the store valid, so that every
/// request that was seen stays under its own id.
pub proof fn law_reading_keeps_store_valid(
    requests: Seq<(Seq<char>, RequestView)>,
    events: Seq<JsonView>,
)
    requires
        crate::network::valid_store(requests),
    ensures
        crate::network::valid_store(ingested_all(requests, events)),
        requests.len() <= ingested_all(requests, events).len(),
    decreases events.len(),
{
    if events.len() > 0 {
        law_reading_keeps_store_valid(requests, events.drop_last());
        crate::network::law_ingest_keeps_requests(
            ingested_all(requests, events.drop_last()),
            events.last(),
        );
    }
}

// ---------------------------------------------------------------------------
// Creating a target

/// How far the creation of a target has come: which command is to be sent next.
#[derive(Debug)]
pub enum TargetCreation {
    /// A blank target is to be created.
    Create { url: String },
    /// The target is to be attached to.
    Attach { url: String, target_id: String, target_type: String },
    /// A domain is to be enabled, or the page to be opened.
    SetUp { target: BrowserTarget, step: SetUpStep },
    /// The page is to be asked whether it is loaded.
    Load { target: BrowserTarget },
}

/// What is done with a target once it is attached to, in this order.
#[derive(Clone, Copy, Debug, PartialEq, Eq, Structural)]
pub enum SetUpStep {
    EnablePage,
    EnableRuntime,
    EnableLog,
    EnableNetwork,
    Navigate,
}

/// The model of how far a creation has come.
pub enum CreationView {
    Create { url: Seq<char> },
    Attach { url: Seq<char>, target_id: Seq<char>, target_type: Seq<char> },
    SetUp { target: TargetView, step: SetUpStep },
    Load { target: TargetView },
}

impl View for TargetCreation {
    type V = CreationView;

    open spec fn view(&self) -> CreationView {
        match self {
            TargetCreation::Create { url } => CreationView::Create { url: url@ },
            TargetCreation::Attach { url, target_id, target_type } => CreationView::Attach {
                url: url@,
                target_id: target_id@,
                target_type: target_type@,
            },
            TargetCreation::SetUp { target, step } => CreationView::SetUp {
                target: target.deep_view(),
                step: *step,
            },
            TargetCreation::Load { target } => CreationView::Load { target: target.deep_view() },
        }
    }
}

/// The command that is sent at a set-up step.
pub open spec fn set_up_command(target: TargetView, step: SetUpStep) -> CommandView {
    match step {
        SetUpStep::EnablePage => CommandView {
            session: Some(target.session_id),
            method: "Page.enable"@,
            params: no_params(),
        },
        SetUpStep::EnableRuntime => CommandView {
            session: Some(target.session_id),
            method: "Runtime.enable"@,
            params: no_params(),
        },
        SetUpStep::EnableLog => CommandView {
            session: Some(target.session_id),
            method: "Log.enable"@,
            params: no_params(),
        },
        SetUpStep::EnableNetwork => CommandView {
            session: Some(target.session_id),
            method: "Network.enable"@,
            params: JsonView::Object(
                Seq::empty().push(("maxTotalBufferSize"@, uint_view(50_000_000))).push(
                    ("maxResourceBufferSize"@, uint_view(10_000_000)),
                ).push(("maxPostDataSize"@, uint_view(1_000_000))),
            ),
        },
        SetUpStep::Navigate => CommandView {
            session: Some(target.session_id),
            method: "Page.navigate"@,
            params: single("url"@, JsonView::Text(target.url)),
        },
    }
}

/// The command that is sent next.
pub open spec fn creation_command(creation: CreationView) -> CommandView {
    match creation {
        CreationView::Create { .. } => CommandView {
            session: None,
            method: "Target.createTarget"@,
            params: single("url"@, JsonView::Text("about:blank"@)),
        },
        CreationView::Attach { target_id, .. } => CommandView {
            session: None,
            method: "Target.attachToTarget"@,
            params: JsonView::Object(
                Seq::empty().push(("targetId"@, JsonView::Text(target_id))).push(
                    ("flatten"@, JsonView::Bool(true)),
                ),
            ),
        },
        CreationView::SetUp { target, step } => set_up_command(target, step),
        CreationView::Load { target } => CommandView {
            session: Some(target.session_id),
            method: "Runtime.evaluate"@,
            params: evaluate_params(PAGE_STATE_EXPRESSION@),
        },
    }
}

/// How far the creation has come once the command is answered, or what was missing in
/// the answer. Asking a page whether it is loaded can be done again.
pub open spec fn creation_after(creation: CreationView, result: JsonView) -> Result<
    CreationView,
    Seq<char>,
> {
    match creation {
        CreationView::Create { url } => match text_field(result, "targetId"@) {
            Some(target_id) => Ok(
                CreationView::Attach {
                    url,
                    target_id,
                    target_type: match text_field(result, "type"@) {
                        Some(kind) => kind,
                        None => "page"@,
                    },
                },
            ),
            None => Err("Target.createTarget returned no targetId"@),
        },
        CreationView::Attach { url, target_id, target_type } => match text_field(
            result,
            "sessionId"@,
        ) {
            Some(session_id) => Ok(
                CreationView::SetUp {
                    target: TargetView { target_id, session_id, target_type, url },
                    step: SetUpStep::EnablePage,
                },
            ),
            None => Err("Target.attachToTarget returned no sessionId"@),
        },
        CreationView::SetUp { target, step } => Ok(
            match step {
                SetUpStep::EnablePage => CreationView::SetUp {
                    target,
                    step: SetUpStep::EnableRuntime,
                },
                SetUpStep::EnableRuntime => CreationView::SetUp {
                    target,
                    step: SetUpStep::EnableLog,
                },
                SetUpStep::EnableLog => CreationView::SetUp {
                    target,
                    step: SetUpStep::EnableNetwork,
                },
                SetUpStep::EnableNetwork => CreationView::SetUp {
                    target,
                    step: SetUpStep::Navigate,
                },
                SetUpStep::Navigate => CreationView::Load { target },
            },
        ),
        CreationView::Load { target } => Ok(CreationView::Load { target }),
    }
}

/// A creation whose commands are answered with an id and a session goes through every
/// step in order, and waits for a target with those ids to load.
pub proof fn law_creation_goes_through(
    url: Seq<char>,
    created: JsonView,
    attached: JsonView,
    page: JsonView,
    runtime: JsonView,
    log: JsonView,
    network: JsonView,
    navigated: JsonView,
)
    requires
        text_field(created, "targetId"@) is Some,
        text_field(attached, "sessionId"@) is Some,
    ensures
        ({
            let a = creation_after(CreationView::Create { url }, created)->Ok_0;
            let b = creation_after(a, attached)->Ok_0;
            let c = creation_after(b, page)->Ok_0;
            let d = creation_after(c, runtime)->Ok_0;
            let e = creation_after(d, log)->Ok_0;
            let f = creation_after(e, network)->Ok_0;
            let g = creation_after(f, navigated);
            let target = TargetView {
                target_id: text_field(created, "targetId"@)->0,
                session_id: text_field(attached, "sessionId"@)->0,
                target_type: match text_field(created, "type"@) {
                    Some(kind) => kind,
                    None => "page"@,
                },
                url,
            };
            &&& creation_command(b).method == "Page.enable"@
            &&& creation_command(c).method == "Runtime.enable"@
            &&& creation_command(d).method == "Log.enable"@
            &&& creation_command(e).method == "Network.enable"@
            &&& creation_command(f).method == "Page.navigate"@
            &&& g == Ok::<CreationView, Seq<char>>(CreationView::Load { target })
        }),
{
}

fn plain_command(session: &str, method: &str) -> (r: CdpCommand)
    ensures
        r@ == (CommandView { session: Some(session@), method: method@, params: no_params() }),
{
    CdpCommand {
        session: Some(session.to_owned()),
        method: method.to_owned(),
        params: Fields::new().object(),
    }
}

impl TargetCreation {
    /// The creation of a target that is to show that URL.
    pub fn new(url: &str) -> (r: TargetCreation)
        ensures
            r@ == (CreationView::Create { url: url@ }),
    {
        TargetCreation::Create { url: url.to_owned() }
    }

    /// The command that is to be sent next.
    pub fn command(&self) -> (r: CdpCommand)
        ensures
            r@ == creation_command(self@),
    {
        match self {
            TargetCreation::Create { .. } => CdpCommand {
                session: None,
                method: "Target.createTarget".to_owned(),
                params: Fields::new().with("url", text("about:blank")).object(),
            },
            TargetCreation::Attach { target_id, .. } => CdpCommand {
                session: None,
                method: "Target.attachToTarget".to_owned(),
                params: Fields::new().with("targetId", text(target_id.as_str())).with(
                    "flatten",
                    Json::Bool(true),
                ).object(),
            },
            TargetCreation::SetUp { target, step } => {
                let session = target.session_id.as_str();
                match step {
                    SetUpStep::EnablePage => plain_command(session, "Page.enable"),
                    SetUpStep::EnableRuntime => plain_command(session, "Runtime.enable"),
                    SetUpStep::EnableLog => plain_command(session, "Log.enable"),
                    SetUpStep::EnableNetwork => CdpCommand {
                        session: Some(session.to_owned()),
                        method: "Network.enable".to_owned(),
                        params: Fields::new().with("maxTotalBufferSize", uint(50_000_000)).with(
                            "maxResourceBufferSize",
                            uint(10_000_000),
                        ).with("maxPostDataSize", uint(1_000_000)).object(),
                    },
                    SetUpStep::Navigate => CdpCommand {
                        session: Some(session.to_owned()),
                        method: "Page.navigate".to_owned(),
                        params: Fields::new().with("url", text(target.url.as_str())).object(),
                    },
                }
            },
            TargetCreation::Load { target } => CdpCommand {
                session: Some(target.session_id.clone()),
                method: "Runtime.evaluate".to_owned(),
                params: evaluate_request(PAGE_STATE_EXPRESSION),
            },
        }
    }

    /// How far the creation has come once the command is answered.
    pub fn answered(self, result: &Json) -> (r: Result<TargetCreation, String>)
        ensures
            match creation_after(self@, result.deep_view()) {
                Ok(creation) => r matches Ok(c) && c@ == creation,
                Err(text) => r matches Err(error) && error@ == text,
            },
    {
        match self {
            TargetCreation::Create { url } => match read_text(result.get("targetId")) {
                Some(target_id) => {
                    let target_type = match read_text(result.get("type")) {
                        Some(kind) => kind,
                        None => "page".to_owned(),
                    };
                    Ok(TargetCreation::Attach { url, target_id, target_type })
                },
                None => Err("Target.createTarget returned no targetId".to_owned()),
            },
            TargetCreation::Attach { url, target_id, target_type } => match read_text(
                result.get("sessionId"),
            ) {
                Some(session_id) => Ok(
                    TargetCreation::SetUp {
                        target: BrowserTarget { target_id, session_id, target_type, url },
                        step: SetUpStep::EnablePage,
                    },
                ),
                None => Err("Target.attachToTarget returned no sessionId".to_owned()),
            },
            TargetCreation::SetUp { target, step } => Ok(
                match step {
                    SetUpStep::EnablePage => TargetCreation::SetUp {
                        target,
                        step: SetUpStep::EnableRuntime,
                    },
                    SetUpStep::EnableRuntime => TargetCreation::SetUp {
                        target,
                        step: SetUpStep::EnableLog,
                    },
                    SetUpStep::EnableLog => TargetCreation::SetUp {
                        target,
                        step: SetUpStep::EnableNetwork,
                    },
                    SetUpStep::EnableNetwork => TargetCreation::SetUp {
                        target,
                        step: SetUpStep::Navigate,
                    },
                    SetUpStep::Navigate => TargetCreation::Load { target },
                },
            ),
            TargetCreation::Load { target } => Ok(TargetCreation::Load { target }),
        }
    }
}

/// What to do about a page that is being loaded.
#[derive(Debug)]
pub enum LoadStep {
    /// It is loaded.
    Loaded,
    /// It took too long.
    TimedOut { error: String },
    /// Ask again after a tenth of a second.
    Wait,
}

/// What to do about a page, given the answer to the question whether it is loaded
/// (nothing where the question failed) and whether its time is up.
pub fn load_step(url: &str, result: Option<&Json>, expired: bool) -> (r: LoadStep)
    ensures
        if result.deep_view() matches Some(answer) && is_loaded(evaluated(answer)) {
            r is Loaded
        } else if expired {
            r matches LoadStep::TimedOut { error } && error@ == "timed out waiting for "@ + url@
                + " to load"@
        } else {
            r is Wait
        },
{
    if let Some(answer) = result {
        if page_is_loaded(&evaluated_value(answer)) {
            return LoadStep::Loaded;
        }
    }
    if expired {
        let mut error = "timed out waiting for ".to_owned();
        error.append(url);
        error.append(" to load");
        LoadStep::TimedOut { error }
    } else {
        LoadStep::Wait
    }
}

// ---------------------------------------------------------------------------
// All sessions

/// The running sessions.
#[derive(Debug)]
pub struct AgentBrowserApi {
    sessions: Vec<BrowserSession>,
    next_session_id: u64,
}

/// The model of the running sessions.
pub struct ApiView {
    pub sessions: Seq<SessionView>,
    pub next_session_id: u64,
}

impl View for AgentBrowserApi {
    type V = ApiView;

    closed spec fn view(&self) -> ApiView {
        ApiView { sessions: self.sessions.deep_view(), next_session_id: self.next_session_id }
    }
}

/// Where the session of that id is; the number of sessions where there is none.
pub open spec fn session_position(sessions: Seq<SessionView>, id: u64) -> int
    decreases sessions.len(),
{
    if sessions.len() == 0 || sessions[0].id == id {
        0
    } else {
        1 + session_position(sessions.drop_first(), id)
    }
}

/// The session of that id.
pub open spec fn session_with(sessions: Seq<SessionView>, id: u64) -> Option<SessionView> {
    let at = session_position(sessions, id);
    if at < sessions.len() {
        Some(sessions[at])
    } else {
        None
    }
}

/// Whether every session has an id below the next one, each its own.
pub open spec fn valid_api(api: ApiView) -> bool {
    &&& forall|i: int|
        0 <= i < api.sessions.len() ==> (#[trigger] api.sessions[i]).id < api.next_session_id
    &&& forall|i: int, j: int|
        0 <= i < j < api.sessions.len() ==> (#[trigger] api.sessions[i]).id != (
        #[trigger] api.sessions[j]).id
}

proof fn lemma_session_position(sessions: Seq<SessionView>, id: u64, at: int)
    requires
        0 <= at <= sessions.len(),
        forall|i: int| 0 <= i < at ==> (#[trigger] sessions[i]).id != id,
        at < sessions.len() ==> sessions[at].id == id,
    ensures
        session_position(sessions, id) == at,
    decreases sessions.len(),
{
    if at > 0 {
        let rest = sessions.drop_first();
        assert forall|i: int| 0 <= i < at - 1 implies (#[trigger] rest[i]).id != id by {
            assert(rest[i] == sessions[i + 1]);
        }
        assert(sessions[0].id != id);
        lemma_session_position(rest, id, at - 1);
    }
}

/// How a session ends.
#[derive(Debug)]
pub enum Teardown {
    /// The browser keeps running; each of these commands closes a target.
    CloseTargets { commands: Vec<CdpCommand> },
    /// The browser's process is ended.
    Kill,
}

/// The commands that close the targets of a session.
pub open spec fn close_commands(targets: Seq<(Seq<char>, TargetView)>) -> Seq<CommandView> {
    Seq::new(targets.len(), |i: int| close_command(targets[i].1.target_id))
}

/// A session as a JSON object.
pub open spec fn session_json(session: SessionView) -> JsonView {
    JsonView::Object(
        Seq::empty().push(("session_id"@, uint_view(session.id as int))).push(
            ("active_target_id"@, text_or_null(session.active_target_id)),
        ).push(
            (
                "targets"@,
                JsonView::Array(
                    Seq::new(session.targets.len(), |i: int| target_json(session.targets[i].1)),
                ),
            ),
        ),
    )
}

impl BrowserSession {
    /// This session as a JSON object.
    pub fn to_json(&self) -> (r: Json)
        ensures
            r.deep_view() == session_json(self.deep_view()),
    {
        let ghost models = self.targets.deep_view();
        let ghost wanted = Seq::new(models.len(), |i: int| target_json(models[i].1));
        let mut items: Vec<Json> = Vec::new();
        let mut i: usize = 0;
        while i < self.targets.len()
            invariant
                i <= self.targets@.len(),
                models == self.targets.deep_view(),
                wanted == Seq::new(models.len(), |i: int| target_json(models[i].1)),
                items.deep_view() == wanted.take(i as int),
            decreases self.targets@.len() - i,
        {
            let ghost done = items.deep_view();
            let item = self.targets[i].1.to_json();
            items.push(item);
            assert(items.deep_view() =~= done.push(item.deep_view()));
            i = i + 1;
            assert(items.deep_view() =~= wanted.take(i as int));
        }
        assert(items.deep_view() =~= wanted);
        Fields::new().with("session_id", uint(self.id)).with(
            "active_target_id",
            crate::json::optional_text(&self.active_target_id),
        ).with("targets", array(items)).object()
    }

    /// What the session is put under, as JSON.
    pub fn network_control_state(&self) -> (r: Json)
        ensures
            r.deep_view() == control_json(self.deep_view().control),
    {
        self.control.to_json()
    }

    fn closing_commands(&self) -> (r: Vec<CdpCommand>)
        ensures
            r@.len() == self.targets@.len(),
            forall|i: int|
                0 <= i < r@.len() ==> (#[trigger] r@[i])@ == close_commands(
                    self.targets.deep_view(),
                )[i],
    {
        let mut out: Vec<CdpCommand> = Vec::new();
        let mut i: usize = 0;
        while i < self.targets.len()
            invariant
                i <= self.targets@.len(),
                out@.len() == i,
                forall|j: int|
                    0 <= j < i ==> (#[trigger] out@[j])@ == close_commands(
                        self.targets.deep_view(),
                    )[j],
            decreases self.targets@.len() - i,
        {
            out.push(close_target_command(self.targets[i].1.target_id.as_str()));
            i = i + 1;
        }
        out
    }
}

impl AgentBrowserApi {
    /// No sessions.
    pub fn new() -> (r: AgentBrowserApi)
        ensures
            r@ == (ApiView { sessions: Seq::empty(), next_session_id: 0 }),
            valid_api(r@),
    {
        let r = AgentBrowserApi { sessions: Vec::new(), next_session_id: 0 };
        assert(r@.sessions =~= Seq::empty());
        r
    }

    fn position_of(&self, id: u64) -> (r: usize)
        ensures
            r == session_position(self@.sessions, id),
            r <= self.sessions@.len(),
    {
        let ghost models = self.sessions.deep_view();
        let mut i: usize = 0;
        while i < self.sessions.len()
            invariant
                i <= self.sessions@.len(),
                models == self.sessions.deep_view(),
                forall|j: int| 0 <= j < i ==> (#[trigger] models[j]).id != id,
            decreases self.sessions@.len() - i,
        {
            assert(models[i as int] == self.sessions@[i as int].deep_view());
            if self.sessions[i].id == id {
                proof {
                    lemma_session_position(models, id, i as int);
                }
                return i;
            }
            i = i + 1;
        }
        proof {
            lemma_session_position(models, id, i as int);
        }
        i
    }

    /// The running sessions as JSON.
    pub fn list_sessions(&self) -> (r: Vec<Json>)
        ensures
            r.deep_view() == Seq::new(
                self@.sessions.len(),
                |i: int| session_json(self@.sessions[i]),
            ),
    {
        let ghost models = self.sessions.deep_view();
        let ghost wanted = Seq::new(models.len(), |i: int| session_json(models[i]));
        let mut items: Vec<Json> = Vec::new();
        let mut i: usize = 0;
        while i < self.sessions.len()
            invariant
                i <= self.sessions@.len(),
                models == self.sessions.deep_view(),
                wanted == Seq::new(models.len(), |i: int| session_json(models[i])),
                items.deep_view() == wanted.take(i as int),
            decreases self.sessions@.len() - i,
        {
            let ghost done = items.deep_view();
            let item = self.sessions[i].to_json();
            items.push(item);
            assert(items.deep_view() =~= done.push(item.deep_view()));
            i = i + 1;
            assert(items.deep_view() =~= wanted.take(i as int));
        }
        assert(items.deep_view() =~= wanted);
        items
    }

    /// Keeps a session whose first target was created; its id.
    pub fn start_session(&mut self, target: BrowserTarget) -> (r: u64)
        ensures
            r == old(self)@.next_session_id,
            final(self)@ == (ApiView {
                sessions: old(self)@.sessions.push(session_of(r, target.deep_view())),
                next_session_id: ((r + 1) % 0x1_0000_0000_0000_0000) as u64,
            }),
            valid_api(old(self)@) && r < u64::MAX ==> valid_api(final(self)@),
    {
        let ghost before = self@.sessions;
        let id = self.next_session_id;
        self.next_session_id = id.wrapping_add(1);
        let session = BrowserSession::new(id, target);
        self.sessions.push(session);
        proof {
            assert(self@.sessions =~= before.push(session.deep_view()));
            assert(before.push(session.deep_view()) == before.push(
                session_of(id, target.deep_view()),
            ));
        }
        id
    }

    /// The session of that id.
    pub fn session(&self, id: u64) -> (r: Result<&BrowserSession, String>)
        ensures
            match session_with(self@.sessions, id) {
                Some(session) => r matches Ok(s) && s.deep_view() == session,
                None => r matches Err(error) && error@ == "unknown browser session"@,
            },
    {
        let at = self.position_of(id);
        if at < self.sessions.len() {
            let session = &self.sessions[at];
            assert(self@.sessions[at as int] == session.deep_view());
            Ok(session)
        } else {
            Err("unknown browser session".to_owned())
        }
    }

    /// The session of that id, to be changed.
    pub fn session_mut(&mut self, id: u64) -> (r: Result<&mut BrowserSession, String>)
        ensures
            match r {
                Ok(session) => {
                    &&& session_with(old(self)@.sessions, id) == Some(session.deep_view())
                    &&& final(self)@ == (ApiView {
                        sessions: old(self)@.sessions.update(
                            session_position(old(self)@.sessions, id),
                            final(session).deep_view(),
                        ),
                        ..old(self)@
                    })
                },
                Err(error) => {
                    &&& session_with(old(self)@.sessions, id) is None
                    &&& error@ == "unknown browser session"@
                    &&& *final(self) == *old(self)
                },
            },
    {
        let at = self.position_of(id);
        if at < self.sessions.len() {
            let ghost before = self.sessions.deep_view();
            let ghost concrete = self.sessions@;
            proof {
                assert(before[at as int] == concrete[at as int].deep_view());
                assert forall|after: Vec<BrowserSession>, session: BrowserSession|
                    after@ == concrete.update(at as int, session) implies #[trigger] after.deep_view()
                    == before.update(at as int, #[trigger] session.deep_view()) by {
                    assert(after.deep_view() =~= before.update(at as int, session.deep_view()));
                }
            }
            Ok(&mut self.sessions[at])
        } else {
            Err("unknown browser session".to_owned())
        }
    }

    /// Takes a session out; how it is to be ended.
    pub fn stop_session(&mut self, id: u64, keep_open: bool) -> (r: Result<Teardown, String>)
        ensures
            match session_with(old(self)@.sessions, id) {
                Some(session) => {
                    &&& final(self)@ == (ApiView {
                        sessions: old(self)@.sessions.remove(
                            session_position(old(self)@.sessions, id),
                        ),
                        ..old(self)@
                    })
                    &&& if keep_open {
                        r matches Ok(Teardown::CloseTargets { commands }) && commands@.len()
                            == session.targets.len() && forall|i: int|
                            0 <= i < commands@.len() ==> (#[trigger] commands@[i])@
                                == close_commands(session.targets)[i]
                    } else {
                        r matches Ok(Teardown::Kill)
                    }
                },
                None => {
                    &&& r matches Err(error) && error@ == "unknown browser session"@
                    &&& final(self)@ == old(self)@
                },
            },
    {
        let at = self.position_of(id);
        if at < self.sessions.len() {
            let ghost before = self.sessions.deep_view();
            let session = self.sessions.remove(at);
            proof {
                assert(before[at as int] == session.deep_view());
                assert(self.sessions.deep_view() =~= before.remove(at as int));
            }
            if keep_open {
                Ok(Teardown::CloseTargets { commands: session.closing_commands() })
            } else {
                Ok(Teardown::Kill)
            }
        } else {
            Err("unknown browser session".to_owned())
        }
    }
}

/// A session that was started is found under its id, and no other session is changed
/// by that; a session that was stopped is found no more.
pub proof fn law_sessions_are_kept(api: ApiView, target: TargetView, other: u64)
    requires
        valid_api(api),
        other < api.next_session_id,
    ensures
        session_with(
            api.sessions.push(session_of(api.next_session_id, target)),
            api.next_session_id,
        ) == Some(session_of(api.next_session_id, target)),
        session_with(api.sessions.push(session_of(api.next_session_id, target)), other)
            == session_with(api.sessions, other),
        session_position(api.sessions, other) < api.sessions.len() ==> session_with(
            api.sessions.remove(session_position(api.sessions, other)),
            other,
        ) is None,
{
    let id = api.next_session_id;
    let more = api.sessions.push(session_of(id, target));
    assert forall|i: int| 0 <= i < api.sessions.len() implies (#[trigger] more[i]).id != id by {
        assert(more[i] == api.sessions[i]);
    }
    lemma_session_position(more, id, api.sessions.len() as int);
    lemma_session_found(api.sessions, other);
    let at = session_position(api.sessions, other);
    assert forall|i: int| 0 <= i < at implies (#[trigger] more[i]).id != other by {
        assert(more[i] == api.sessions[i]);
    }
    if at < api.sessions.len() {
        assert(more[at] == api.sessions[at]);
        lemma_session_position(more, other, at);
        let fewer = api.sessions.remove(at);
        assert forall|i: int| 0 <= i < fewer.len() implies (#[trigger] fewer[i]).id != other by {
            if i < at {
                assert(fewer[i] == api.sessions[i]);
            } else {
                assert(fewer[i] == api.sessions[i + 1]);
                assert(api.sessions[at].id != api.sessions[i + 1].id);
            }
        }
        lemma_session_position(fewer, other, fewer.len() as int);
    } else {
        assert(more[at].id == id);
        lemma_session_position(more, other, more.len() as int);
    }
}

proof fn lemma_session_found(sessions: Seq<SessionView>, id: u64)
    ensures
        ({
            let at = session_position(sessions, id);
            &&& 0 <= at <= sessions.len()
            &&& forall|i: int| 0 <= i < at ==> (#[trigger] sessions[i]).id != id
            &&& at < sessions.len() ==> sessions[at].id == id
        }),
    decreases sessions.len(),
{
    if sessions.len() > 0 && sessions[0].id != id {
        let rest = sessions.drop_first();
        lemma_session_found(rest, id);
        let at = session_position(rest, id);
        assert forall|i: int| 0 <= i < at + 1 implies (#[trigger] sessions[i]).id != id by {
            if i > 0 {
                assert(rest[i - 1] == sessions[i]);
            }
        }
    }
}

// ---------------------------------------------------------------------------
// What the commands say

/// Each operation is a command of its own, and says under the names of the protocol what it
/// was asked to do.
pub proof fn law_commands_say_what_is_asked(command: TargetCommandView, control: ControlView)
    ensures
        match command {
            TargetCommandView::Navigate { url } => method_of(command) == "Page.navigate"@
                && text_in(field(params_of(command, control), "url"@)) == Some(url),
            TargetCommandView::Snapshot => method_of(command) == "Runtime.evaluate"@ && text_in(
                field(params_of(command, control), "expression"@),
            ) == Some(SNAPSHOT_EXPRESSION@),
            TargetCommandView::Screenshot => method_of(command) == "Page.captureScreenshot"@
                && text_in(field(params_of(command, control), "format"@)) == Some("png"@)
                && bool_in(field(params_of(command, control), "fromSurface"@)) == Some(true),
            TargetCommandView::Evaluate { expression } => method_of(command)
                == "Runtime.evaluate"@ && text_in(
                field(params_of(command, control), "expression"@),
            ) == Some(expression),
            TargetCommandView::Click { selector } => method_of(command) == "Runtime.evaluate"@
                && text_in(field(params_of(command, control), "expression"@)) == Some(
                click_script(selector),
            ),
            TargetCommandView::TypeText { selector, .. } => method_of(command)
                == "Runtime.evaluate"@ && text_in(
                field(params_of(command, control), "expression"@),
            ) == Some(focus_script(selector)),
            TargetCommandView::InsertText { text, .. } => method_of(command) == "Input.insertText"@
                && text_in(field(params_of(command, control), "text"@)) == Some(text),
            TargetCommandView::SetCacheDisabled { disabled } => method_of(command)
                == "Network.setCacheDisabled"@ && bool_in(
                field(params_of(command, control), "cacheDisabled"@),
            ) == Some(disabled),
            TargetCommandView::SetBypassServiceWorker { bypass } => method_of(command)
                == "Network.setBypassServiceWorker"@ && bool_in(
                field(params_of(command, control), "bypass"@),
            ) == Some(bypass),
            TargetCommandView::SetBlockedUrls { urls } => method_of(command)
                == "Network.setBlockedURLs"@ && (items_in(
                field(params_of(command, control), "urls"@),
            ) matches Some(items) && items.len() == urls.len() && forall|i: int|
                0 <= i < urls.len() ==> #[trigger] items[i] == JsonView::Text(urls[i])),
            TargetCommandView::ClearBrowserCache => method_of(command)
                == "Network.clearBrowserCache"@,
            TargetCommandView::ClearBrowserCookies => method_of(command)
                == "Network.clearBrowserCookies"@,
            TargetCommandView::SetCookie { params } => method_of(command) == "Network.setCookie"@
                && params_of(command, control) == params,
            TargetCommandView::DeleteCookies { params } => method_of(command)
                == "Network.deleteCookies"@ && params_of(command, control) == params,
            TargetCommandView::SetExtraHttpHeaders { headers } => method_of(command)
                == "Network.setExtraHTTPHeaders"@ && field(
                params_of(command, control),
                "headers"@,
            ) == Some(JsonView::Object(header_members(headers))),
            TargetCommandView::SetUserAgent { user_agent } => method_of(command)
                == "Network.setUserAgentOverride"@ && text_in(
                field(params_of(command, control), "userAgent"@),
            ) == Some(user_agent),
            TargetCommandView::ContinueRequest { .. } => method_of(command)
                == "Fetch.continueRequest"@,
            TargetCommandView::FulfillRequest { .. } => method_of(command)
                == "Fetch.fulfillRequest"@,
            TargetCommandView::FailRequest { request_id, error_reason } => method_of(command)
                == "Fetch.failRequest"@ && text_in(
                field(params_of(command, control), "requestId"@),
            ) == Some(request_id) && text_in(field(params_of(command, control), "errorReason"@))
                == Some(error_reason),
            TargetCommandView::SetThrottle { .. } => method_of(command)
                == "Network.emulateNetworkConditions"@,
            TargetCommandView::SetOffline { .. } => method_of(command)
                == "Network.emulateNetworkConditions"@,
            TargetCommandView::SetInterception { .. } => method_of(command) == "Fetch.enable"@,
        },
{
    let params = params_of(command, control);
    if let JsonView::Object(members) = params {
        reveal_strlit("requestId");
        reveal_strlit("errorReason");
        assert("requestId"@.len() == 9 && "errorReason"@.len() == 11);
        match command {
            TargetCommandView::FailRequest { .. } => {
                assert(members[0].0 == "requestId"@ && members[1].0 == "errorReason"@);
                lemma_lookup_first(members, 0);
                lemma_lookup_first(members, 1);
            },
            TargetCommandView::Screenshot => {
                reveal_strlit("format");
                reveal_strlit("fromSurface");
                assert("format"@.len() == 6 && "fromSurface"@.len() == 11);
                assert(members[0].0 == "format"@ && members[1].0 == "fromSurface"@);
                lemma_lookup_first(members, 0);
                lemma_lookup_first(members, 1);
            },
            TargetCommandView::ClearBrowserCache => {},
            TargetCommandView::ClearBrowserCookies => {},
            TargetCommandView::SetCookie { .. } => {},
            TargetCommandView::DeleteCookies { .. } => {},
            _ => {
                if members.len() > 0 {
                    lemma_lookup_first(members, 0);
                }
            },
        }
    }
}

/// The text that is inserted is the very text that was to be typed, whatever the selector,
/// and the one that the report names. Two insertions of different texts differ in what they
/// send.
pub proof fn law_typed_text_is_sent_and_reported(
    step: CommandStep,
    selector: Seq<char>,
    text: Seq<char>,
    target: TargetView,
    result: JsonView,
    control: ControlView,
    other: TargetCommandView,
)
    ensures
        text_in(
            field(params_of(TargetCommandView::InsertText { selector, text }, control), "text"@),
        ) == Some(text),
        other matches TargetCommandView::InsertText { text: another, .. } ==> (another != text
            <==> params_of(other, control) != params_of(
            TargetCommandView::InsertText { selector, text },
            control,
        )),
        is_step(step, TargetCommandView::InsertText { selector, text }, target, result) ==> {
            &&& step matches CommandStep::Done { value }
            &&& bool_in(field(value.deep_view(), "typed"@)) == Some(true)
            &&& text_in(field(value.deep_view(), "text"@)) == Some(text)
            &&& text_in(field(value.deep_view(), "selector"@)) == Some(selector)
        },
        is_step(step, TargetCommandView::TypeText { selector, text }, target, result) ==> {
            &&& step matches CommandStep::Next { command: next } ==> next.deep_view() == (
            TargetCommandView::InsertText { selector, text })
            &&& step matches CommandStep::Done { value } ==> bool_in(
                field(value.deep_view(), "typed"@),
            ) == Some(false)
            &&& !(step is Failed)
            &&& step is Next <==> bool_in(
                field_in(field_in(field(result, "result"@), "value"@), "focused"@),
            ) == Some(true)
        },
{
    reveal_strlit("typed");
    reveal_strlit("selector");
    reveal_strlit("text");
    assert("typed"@.len() == 5 && "selector"@.len() == 8 && "text"@.len() == 4);
    let sent = params_of(TargetCommandView::InsertText { selector, text }, control);
    lemma_lookup_first(sent->Object_0, 0);
    if let TargetCommandView::InsertText { text: another, .. } = other {
        lemma_lookup_first(params_of(other, control)->Object_0, 0);
    }
    if let CommandStep::Done { value } = step {
        if let JsonView::Object(members) = value.deep_view() {
            if is_step(step, TargetCommandView::InsertText { selector, text }, target, result) {
                assert(members[0].0 == "typed"@ && members[1].0 == "selector"@ && members[2].0
                    == "text"@);
                lemma_lookup_first(members, 0);
                lemma_lookup_first(members, 1);
                lemma_lookup_first(members, 2);
            }
            if is_step(step, TargetCommandView::TypeText { selector, text }, target, result) {
                lemma_lookup_first(members, 0);
            }
        }
    }
}

/// A snapshot tells whose page it is of, and what the page said of its URL, title, text and
/// elements. Where the page said nothing of its URL it is the last that is known.
pub proof fn law_snapshot_tells_of_the_page(target: TargetView, page: JsonView)
    ensures
        ({
            let report = snapshot_report(target, page);
            &&& text_in(field(report, "target_id"@)) == Some(target.target_id)
            &&& field(page, "url"@) matches Some(url) ==> field(report, "url"@) == Some(url)
            &&& field(page, "url"@) is None ==> text_in(field(report, "url"@)) == Some(target.url)
            &&& field(page, "title"@) matches Some(title) ==> field(report, "title"@) == Some(title)
            &&& field(page, "text"@) matches Some(text) ==> field(report, "text"@) == Some(text)
            &&& field(page, "elements"@) matches Some(elements) ==> field(report, "elements"@)
                == Some(elements)
            &&& field(page, "elements"@) is None ==> items_in(field(report, "elements"@)) == Some(
                Seq::<JsonView>::empty(),
            )
        }),
{
    reveal_strlit("target_id");
    reveal_strlit("url");
    reveal_strlit("title");
    reveal_strlit("text");
    reveal_strlit("elements");
    assert("target_id"@.len() == 9 && "url"@.len() == 3 && "title"@.len() == 5 && "text"@.len() == 4
        && "elements"@.len() == 8);
    if let JsonView::Object(members) = snapshot_report(target, page) {
        assert(members[0].0 == "target_id"@ && members[1].0 == "url"@ && members[2].0 == "title"@
            && members[3].0 == "text"@ && members[4].0 == "elements"@);
        lemma_lookup_first(members, 0);
        lemma_lookup_first(members, 1);
        lemma_lookup_first(members, 2);
        lemma_lookup_first(members, 3);
        lemma_lookup_first(members, 4);
    }
}

/// What an operation comes to: a screenshot gives the image data, a click says what the page
/// answered, and an operation on the network gives the answer as it is.
pub proof fn law_answers_are_handed_on(
    step: CommandStep,
    command: TargetCommandView,
    target: TargetView,
    result: JsonView,
)
    requires
        is_step(step, command, target, result),
    ensures
        command is Navigate ==> step matches CommandStep::Done { .. },
        command is Screenshot ==> (text_in(field(result, "data"@)) matches Some(data) ==> step
            matches CommandStep::Done { value } && value.deep_view() == JsonView::Text(data)),
        command is Screenshot && field(result, "data"@) is None ==> step is Failed,
        command is Click ==> (field_in(field(result, "result"@), "value"@) matches Some(answer)
            ==> step matches CommandStep::Done { value } && field(value.deep_view(), "clicked"@)
            == Some(answer)),
        command is SetThrottle || command is SetOffline || command is SetCacheDisabled
            || command is SetBypassServiceWorker || command is SetBlockedUrls
            || command is ClearBrowserCache || command is ClearBrowserCookies
            || command is SetCookie || command is DeleteCookies || command is SetExtraHttpHeaders
            || command is SetUserAgent || command is SetInterception || command is ContinueRequest
            || command is FulfillRequest || command is FailRequest ==> (step
            matches CommandStep::Done { value } && value.deep_view() == result),
{
    if let CommandStep::Done { value } = step {
        if command is Click {
            lemma_lookup_first(value.deep_view()->Object_0, 0);
        }
    }
}

/// A request that is decided on is named by its id, unless what is sent names another, and
/// what is sent goes along member by member.
pub proof fn law_decisions_name_the_request(
    request_id: Seq<char>,
    fields: Seq<(Seq<char>, JsonView)>,
    control: ControlView,
    i: int,
)
    requires
        0 <= i < fields.len(),
        distinct(fields),
    ensures
        ({
            let params = params_of(
                TargetCommandView::ContinueRequest {
                    request_id,
                    modifications: JsonView::Object(fields),
                },
                control,
            );
            &&& params == params_of(
                TargetCommandView::FulfillRequest {
                    request_id,
                    response: JsonView::Object(fields),
                },
                control,
            )
            &&& field(params, fields[i].0) == Some(fields[i].1)
            &&& lookup(fields, "requestId"@) is None ==> text_in(field(params, "requestId"@))
                == Some(request_id)
        }),
{
    let id = Seq::empty().push(("requestId"@, JsonView::Text(request_id)));
    lemma_lookup_first(id, 0);
    law_put_all_counts(id, fields, fields[i].0);
    law_put_all_counts(id, fields, "requestId"@);
    lemma_lookup_first(fields, i);
}

/// Where nothing that could go along is given, the id goes alone.
pub proof fn law_decision_without_fields_is_the_id(
    request_id: Seq<char>,
    fields: JsonView,
    control: ControlView,
)
    requires
        !(fields is Object),
    ensures
        text_in(
            field(
                params_of(
                    TargetCommandView::ContinueRequest { request_id, modifications: fields },
                    control,
                ),
                "requestId"@,
            ),
        ) == Some(request_id),
{
    let id = Seq::empty().push(("requestId"@, JsonView::Text(request_id)));
    lemma_lookup_first(id, 0);
}

/// Going offline or online keeps the rest of the conditions, and says so to the browser;
/// throttling takes over what is given.
pub proof fn law_offline_keeps_the_conditions(
    control: ControlView,
    offline: bool,
    conditions: ThrottleView,
)
    ensures
        ({
            let after = control_after(TargetCommandView::SetOffline { offline }, control);
            &&& after.offline == offline
            &&& after.throttle matches Some(now) && now.offline == offline && params_of(
                TargetCommandView::SetOffline { offline },
                control,
            ) == params_of(TargetCommandView::SetThrottle { conditions: now }, control) && (
            control.throttle matches Some(before) ==> now.latency_ms == before.latency_ms
                && now.download_throughput_bps == before.download_throughput_bps
                && now.upload_throughput_bps == before.upload_throughput_bps
                && now.connection_type == before.connection_type)
        }),
        ({
            let after = control_after(TargetCommandView::SetThrottle { conditions }, control);
            &&& after.offline == conditions.offline
            &&& after.throttle == Some(conditions)
        }),
{
}

/// An operation sets what it is about, and leaves the rest of what the session is put under
/// as it was.
pub proof fn law_operations_set_what_they_are_about(
    command: TargetCommandView,
    control: ControlView,
)
    ensures
        ({
            let after = control_after(command, control);
            &&& if command is SetThrottle || command is SetOffline {
                true
            } else {
                after.offline == control.offline && after.throttle == control.throttle
            }
            &&& if let TargetCommandView::SetCacheDisabled { disabled } = command {
                after.cache_disabled == disabled
            } else {
                after.cache_disabled == control.cache_disabled
            }
            &&& if let TargetCommandView::SetBypassServiceWorker { bypass } = command {
                after.bypass_service_worker == bypass
            } else {
                after.bypass_service_worker == control.bypass_service_worker
            }
            &&& if let TargetCommandView::SetBlockedUrls { urls } = command {
                after.blocked_urls == urls
            } else {
                after.blocked_urls == control.blocked_urls
            }
            &&& if let TargetCommandView::SetExtraHttpHeaders { headers } = command {
                after.extra_http_headers == headers
            } else {
                after.extra_http_headers == control.extra_http_headers
            }
            &&& if let TargetCommandView::SetUserAgent { user_agent } = command {
                after.user_agent == Some(user_agent)
            } else {
                after.user_agent == control.user_agent
            }
            &&& if let TargetCommandView::SetInterception { patterns } = command {
                after.interception == Some(patterns)
            } else {
                after.interception == control.interception
            }
        }),
{
}

/// A page that was navigated is known by its new URL and is otherwise the same; other
/// targets, the recorded requests and the active target stay as they were. No other
/// operation touches the targets.
pub proof fn law_navigation_changes_the_url(
    session: SessionView,
    target_id: Option<Seq<char>>,
    url: Seq<char>,
    other: Seq<char>,
    command: TargetCommandView,
)
    requires
        valid_targets(session),
    ensures
        ({
            let after = session_after(session, target_id, TargetCommandView::Navigate { url });
            &&& after.id == session.id
            &&& after.active_target_id == session.active_target_id
            &&& after.network_store == session.network_store
            &&& after.control == session.control
            &&& resolved(session, target_id) matches Ok(before) ==> {
                &&& resolved(after, target_id) matches Ok(now) && now.url == url && now.target_id
                    == before.target_id && now.session_id == before.session_id && now.target_type
                    == before.target_type
                &&& other != before.target_id ==> resolved(after, Some(other)) == resolved(
                    session,
                    Some(other),
                )
            }
            &&& resolved(session, target_id) is Err ==> after == session
        }),
        !(command is Navigate) ==> {
            let after = session_after(session, target_id, command);
            &&& after.targets == session.targets
            &&& after.id == session.id
            &&& after.active_target_id == session.active_target_id
            &&& after.network_store == session.network_store
            &&& after.control == control_after(command, session.control)
        },
{
    if let Ok(before) = resolved(session, target_id) {
        let id = match target_id {
            Some(id) => id,
            None => session.active_target_id->0,
        };
        let now = TargetView { url, ..before };
        crate::assoc::lemma_lookup_after_put(session.targets, id, now, other);
        crate::assoc::lemma_lookup_after_put(session.targets, id, now, id);
        crate::assoc::lemma_lookup_entry(session.targets, id);
    }
}

/// A target is written with its id, kind and URL, and a session with its id, its active
/// target and its targets in order.
pub proof fn law_sessions_are_written_by_name(session: SessionView, i: int)
    requires
        0 <= i < session.targets.len(),
    ensures
        u64_in(field(session_json(session), "session_id"@)) == Some(session.id),
        session.active_target_id matches Some(id) ==> text_in(
            field(session_json(session), "active_target_id"@),
        ) == Some(id),
        items_in(field(session_json(session), "targets"@)) matches Some(items) && items.len()
            == session.targets.len() && ({
            let target = session.targets[i].1;
            &&& text_in(field(items[i], "target_id"@)) == Some(target.target_id)
            &&& text_in(field(items[i], "target_type"@)) == Some(target.target_type)
            &&& text_in(field(items[i], "url"@)) == Some(target.url)
        }),
{
    reveal_strlit("session_id");
    reveal_strlit("active_target_id");
    reveal_strlit("targets");
    reveal_strlit("target_id");
    reveal_strlit("target_type");
    reveal_strlit("url");
    assert("session_id"@.len() == 10 && "active_target_id"@.len() == 16 && "targets"@.len() == 7);
    assert("target_id"@.len() == 9 && "target_type"@.len() == 11 && "url"@.len() == 3);
    if let JsonView::Object(members) = session_json(session) {
        assert(members[0].0 == "session_id"@ && members[1].0 == "active_target_id"@ && members[2].0
            == "targets"@);
        lemma_lookup_first(members, 0);
        lemma_lookup_first(members, 1);
        lemma_lookup_first(members, 2);
    }
    if let JsonView::Object(members) = target_json(session.targets[i].1) {
        assert(members[0].0 == "target_id"@ && members[1].0 == "target_type"@ && members[2].0
            == "url"@);
        lemma_lookup_first(members, 0);
        lemma_lookup_first(members, 1);
        lemma_lookup_first(members, 2);
    }
}

/// A session that is taken down closes each of its targets, by its id, over the connection
/// of the browser.
pub proof fn law_targets_are_closed_by_id(targets: Seq<(Seq<char>, TargetView)>, i: int)
    requires
        0 <= i < targets.len(),
    ensures
        close_commands(targets).len() == targets.len(),
        close_commands(targets)[i].session is None,
        close_commands(targets)[i].method == "Target.closeTarget"@,
        text_in(field(close_commands(targets)[i].params, "targetId"@)) == Some(
            targets[i].1.target_id,
        ),
{
    lemma_lookup_first(close_command(targets[i].1.target_id).params->Object_0, 0);
}

/// A target is created blank, attached to by its id and over the session of its own from
/// there on, and only shows its URL once it is set up.
pub proof fn law_creation_commands(creation: CreationView)
    ensures
        ({
            let command = creation_command(creation);
            match creation {
                CreationView::Create { .. } => {
                    &&& command.session is None
                    &&& command.method == "Target.createTarget"@
                    &&& text_in(field(command.params, "url"@)) == Some("about:blank"@)
                },
                CreationView::Attach { target_id, .. } => {
                    &&& command.session is None
                    &&& command.method == "Target.attachToTarget"@
                    &&& text_in(field(command.params, "targetId"@)) == Some(target_id)
                    &&& bool_in(field(command.params, "flatten"@)) == Some(true)
                },
                CreationView::SetUp { target, step } => {
                    &&& command.session == Some(target.session_id)
                    &&& step == SetUpStep::Navigate ==> command.method == "Page.navigate"@
                        && text_in(field(command.params, "url"@)) == Some(target.url)
                },
                CreationView::Load { target } => {
                    &&& command.session == Some(target.session_id)
                    &&& command.method == "Runtime.evaluate"@
                    &&& text_in(field(command.params, "expression"@)) == Some(
                        PAGE_STATE_EXPRESSION@,
                    )
                },
            }
        }),
{
    reveal_strlit("targetId");
    reveal_strlit("flatten");
    assert("targetId"@.len() == 8 && "flatten"@.len() == 7);
    if let JsonView::Object(members) = creation_command(creation).params {
        if members.len() > 0 {
            lemma_lookup_first(members, 0);
        }
        if creation is Attach {
            assert(members[0].0 == "targetId"@ && members[1].0 == "flatten"@);
            lemma_lookup_first(members, 1);
        }
    }
}

/// Once a target is closed that was the active one, the first that is left is active, if any;
/// where another was active, it stays. Nothing else changes.
pub proof fn law_closing_hands_on_the_active_target(session: SessionView, target_id: Seq<char>)
    ensures
        ({
            let after = after_close(session, target_id);
            &&& after.id == session.id
            &&& after.targets == session.targets
            &&& after.network_store == session.network_store
            &&& after.control == session.control
            &&& session.active_target_id != Some(target_id) ==> after.active_target_id
                == session.active_target_id
            &&& session.active_target_id == Some(target_id) && session.targets.len() > 0
                ==> after.active_target_id == Some(session.targets[0].0)
            &&& session.active_target_id == Some(target_id) && session.targets.len() == 0
                ==> after.active_target_id is None
        }),
{
}

/// The events that are reported are of the kind and the session that are asked for; where there
/// are too many, the last hundred.
pub proof fn law_last_events_are_reported(
    name: Seq<char>,
    events: Seq<JsonView>,
    kind: EventKind,
    session: Seq<char>,
)
    ensures
        items_in(field(events_report(name, events, kind, session), name)) matches Some(items)
            && items.len() <= 100 && (selected(events, kind, Some(session)).len() <= 100 ==> items
            == selected(events, kind, Some(session))) && (selected(events, kind, Some(session)).len()
            > 100 ==> items.len() == 100 && items.last() == selected(
            events,
            kind,
            Some(session),
        ).last()),
{
    lemma_lookup_first(events_report(name, events, kind, session)->Object_0, 0);
}

/// A new session has its one target, which is active; nothing was recorded in it, and it is not
/// throttled, overridden or intercepted in any way.
pub proof fn law_new_session_is_untouched(id: u64, target: TargetView)
    ensures
        ({
            let session = session_of(id, target);
            &&& session.id == id
            &&& valid_targets(session)
            &&& resolved(session, None) == Ok::<TargetView, Seq<char>>(target)
            &&& resolved(session, Some(target.target_id)) == Ok::<TargetView, Seq<char>>(target)
            &&& session.targets.len() == 1
            &&& session.network_store.len() == 0
            &&& !session.control.offline
            &&& session.control.throttle is None
            &&& !session.control.cache_disabled
            &&& !session.control.bypass_service_worker
            &&& session.control.blocked_urls.len() == 0
            &&& session.control.extra_http_headers.len() == 0
            &&& session.control.user_agent is None
            &&& session.control.interception is None
        }),
{
    lemma_lookup_first(session_of(id, target).targets, 0);
}

/// A target that is named counts before the active one; without either there is none.
pub proof fn law_named_target_counts(session: SessionView, target_id: Seq<char>)
    ensures
        lookup(session.targets, target_id) matches Some(target) ==> resolved(
            session,
            Some(target_id),
        ) == Ok::<TargetView, Seq<char>>(target),
        lookup(session.targets, target_id) is None ==> resolved(session, Some(target_id)) is Err,
        session.active_target_id == Some(target_id) ==> resolved(session, None) == resolved(
            session,
            Some(target_id),
        ),
        session.active_target_id is None ==> resolved(session, None) is Err,
{
}

/// What the network records is bounded, under the names of the protocol.
pub proof fn law_network_is_recorded_within_bounds(target: TargetView)
    ensures
        ({
            let params = set_up_command(target, SetUpStep::EnableNetwork).params;
            &&& u64_in(field(params, "maxTotalBufferSize"@)) == Some(50_000_000u64)
            &&& u64_in(field(params, "maxResourceBufferSize"@)) == Some(10_000_000u64)
            &&& u64_in(field(params, "maxPostDataSize"@)) == Some(1_000_000u64)
        }),
{
    reveal_strlit("maxTotalBufferSize");
    reveal_strlit("maxResourceBufferSize");
    reveal_strlit("maxPostDataSize");
    assert("maxTotalBufferSize"@.len() == 18 && "maxResourceBufferSize"@.len() == 21
        && "maxPostDataSize"@.len() == 15);
    let members = set_up_command(target, SetUpStep::EnableNetwork).params->Object_0;
    assert(members[0].0 == "maxTotalBufferSize"@ && members[1].0 == "maxResourceBufferSize"@
        && members[2].0 == "maxPostDataSize"@);
    lemma_lookup_first(members, 0);
    lemma_lookup_first(members, 1);
    lemma_lookup_first(members, 2);
}

/// An answer that gives an id or a session is taken over as it is, and one that does not is an
/// error; a page whose kind is not told is a page.
pub proof fn law_answers_name_the_target(
    url: Seq<char>,
    target_id: Seq<char>,
    target_type: Seq<char>,
    result: JsonView,
)
    ensures
        text_in(field(result, "targetId"@)) matches Some(id) ==> (creation_after(
            CreationView::Create { url },
            result,
        ) matches Ok(CreationView::Attach { url: u, target_id: t, target_type: kind }) && u == url
            && t == id && (text_in(field(result, "type"@)) matches Some(given) ==> kind == given)
            && (field(result, "type"@) is None ==> kind == "page"@)),
        field(result, "targetId"@) is None ==> creation_after(CreationView::Create { url }, result)
            is Err,
        text_in(field(result, "sessionId"@)) matches Some(id) ==> (creation_after(
            CreationView::Attach { url, target_id, target_type },
            result,
        ) matches Ok(CreationView::SetUp { target, .. }) && target.session_id == id
            && target.target_id == target_id && target.target_type == target_type && target.url
            == url),
        field(result, "sessionId"@) is None ==> creation_after(
            CreationView::Attach { url, target_id, target_type },
            result,
        ) is Err,
{
}

} // verus!
