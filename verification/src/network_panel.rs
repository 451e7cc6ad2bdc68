//! The panel that shows a browser session's requests.

use vstd::prelude::*;
use crate::browser::TargetCommand;
use crate::control::{
    control_json, law_conditions_are_shown_by_name, law_control_is_shown_by_name,
    preset_conditions, ThrottlePreset,
};
use crate::digits::{decimal, decimal_text, lemma_decimal_injective};
use crate::json::{
    bool_in, copy_or_null, field, field_in, find_with, first_with, get_in, items_in, members_in,
    or_null, read_bool, read_text, read_u64, text_field, text_field_in, text_in, u32_field,
    u32_field_in, u64_in, Json, JsonView,
};
use crate::order::{in_order, lemma_sorted_pairs_unique, sorted};
use crate::text::{
    begins_with, contains, is_blank, join, joined, lowercase, occurs, same, texts, to_lowercase, trim, trimmed,
};

verus! {

// ---------------------------------------------------------------------------
// Labels

/// Whether the control state says that the session is offline.
pub open spec fn is_offline(control: JsonView) -> bool {
    bool_in(field(control, "offline"@)) == Some(true)
}

/// The latency in the control state.
pub open spec fn latency_in(control: JsonView) -> Option<u64> {
    u64_in(field_in(field(control, "throttle"@), "latency_ms"@))
}

/// What the throttle is called. A latency of zero is no throttling: leaving the offline
/// state writes it down though nothing is throttled.
pub open spec fn throttle_name(control: JsonView) -> Seq<char> {
    if is_offline(control) {
        "Offline"@
    } else {
        match latency_in(control) {
            Some(latency) => if latency == 2_000 {
                "Slow 3G"@
            } else if latency == 563 {
                "Fast 3G"@
            } else if latency == 0 {
                "Online"@
            } else {
                "Custom"@
            },
            None => "Online"@,
        }
    }
}

/// The preset after the one that the control state shows.
pub open spec fn preset_after(control: JsonView) -> ThrottlePreset {
    if is_offline(control) {
        ThrottlePreset::Online
    } else if latency_in(control) == Some(2_000u64) {
        ThrottlePreset::Fast3G
    } else if latency_in(control) == Some(563u64) {
        ThrottlePreset::Offline
    } else {
        ThrottlePreset::Slow3G
    }
}

/// What the offline toggle is called: as the throttle is, so that the two never
/// contradict each other.
pub open spec fn offline_name(offline: bool) -> Seq<char> {
    if offline {
        "Offline"@
    } else {
        "Online"@
    }
}

/// The throttle is called offline exactly where the offline toggle is.
pub proof fn law_labels_agree(control: JsonView)
    ensures
        throttle_name(control) == "Offline"@ <==> offline_name(is_offline(control)) == "Offline"@,
{
    reveal_strlit("Offline");
    reveal_strlit("Online");
    reveal_strlit("Slow 3G");
    reveal_strlit("Fast 3G");
    reveal_strlit("Custom");
    assert("Offline"@.len() == 7 && "Online"@.len() == 6 && "Custom"@.len() == 6);
    assert("Offline"@[0] == 'O' && "Slow 3G"@[0] == 'S' && "Fast 3G"@[0] == 'F');
}

/// Cycling through the presets from an unthrottled session goes to slow, fast, offline
/// and back to online: each preset's conditions, once they are set, lead to the next.
pub proof fn law_presets_cycle(control: crate::control::ControlView, preset: ThrottlePreset)
    requires
        control.throttle == Some(preset_conditions(preset)),
        control.offline == preset_conditions(preset).offline,
    ensures
        preset_after(crate::control::control_json(control)) == (match preset {
            ThrottlePreset::Online => ThrottlePreset::Slow3G,
            ThrottlePreset::Slow3G => ThrottlePreset::Fast3G,
            ThrottlePreset::Fast3G => ThrottlePreset::Offline,
            ThrottlePreset::Offline => ThrottlePreset::Online,
        }),
{
    let shown = crate::control::control_json(control);
    if let JsonView::Object(members) = shown {
        reveal_strlit("offline");
        reveal_strlit("throttle");
        assert(members[0].0 == "offline"@ && members[1].0 == "throttle"@);
        assert("offline"@.len() != "throttle"@.len());
        crate::assoc::lemma_lookup_first(members, 0);
        crate::assoc::lemma_lookup_first(members, 1);
        if let JsonView::Object(inner) = members[1].1 {
            reveal_strlit("latency_ms");
            assert(inner[0].0 == "offline"@ && inner[1].0 == "latency_ms"@);
            assert("offline"@.len() != "latency_ms"@.len());
            crate::assoc::lemma_lookup_first(inner, 1);
        }
    }
}

fn offline_in(control: &Json) -> (r: bool)
    ensures
        r == is_offline(control.deep_view()),
{
    match read_bool(control.get("offline")) {
        Some(offline) => offline,
        None => false,
    }
}

/// What the throttle is called.
pub fn throttle_label(control: &Json) -> (r: &'static str)
    ensures
        r@ == throttle_name(control.deep_view()),
{
    if offline_in(control) {
        return "Offline";
    }
    match read_u64(get_in(control.get("throttle"), "latency_ms")) {
        Some(latency) => if latency == 2_000 {
            "Slow 3G"
        } else if latency == 563 {
            "Fast 3G"
        } else if latency == 0 {
            "Online"
        } else {
            "Custom"
        },
        None => "Online",
    }
}

/// The preset after the one that the control state shows.
pub fn next_throttle_preset(control: &Json) -> (r: ThrottlePreset)
    ensures
        r == preset_after(control.deep_view()),
{
    if offline_in(control) {
        return ThrottlePreset::Online;
    }
    let latency: u64 = match read_u64(get_in(control.get("throttle"), "latency_ms")) {
        Some(latency) => latency,
        None => 0,
    };
    if latency == 2_000 {
        ThrottlePreset::Fast3G
    } else if latency == 563 {
        ThrottlePreset::Offline
    } else {
        ThrottlePreset::Slow3G
    }
}

/// What the offline toggle is called.
pub fn offline_label(offline: bool) -> (r: &'static str)
    ensures
        r@ == offline_name(offline),
{
    if offline {
        "Offline"
    } else {
        "Online"
    }
}

// ---------------------------------------------------------------------------
// Headers

/// The names and values in a JSON object; a value that is no string is empty.
pub open spec fn header_pairs(members: Seq<(Seq<char>, JsonView)>) -> Seq<(Seq<char>, Seq<char>)> {
    Seq::new(
        members.len(),
        |i: int|
            (
                members[i].0,
                match members[i].1 {
                    JsonView::Text(value) => value,
                    _ => Seq::empty(),
                },
            ),
    )
}

/// One line for each pair.
pub open spec fn pair_lines(pairs: Seq<(Seq<char>, Seq<char>)>) -> Seq<Seq<char>> {
    Seq::new(pairs.len(), |i: int| pairs[i].0 + ": "@ + pairs[i].1)
}

/// Whether a text shows headers: one line for each, in order of name and value; that
/// there are none where the value is no object.
pub open spec fn shows_headers(text: Seq<char>, value: Option<JsonView>) -> bool {
    match members_in(value) {
        Some(members) => exists|pairs: Seq<(Seq<char>, Seq<char>)>|
            {
                &&& #[trigger] in_order::<(String, String)>(pairs)
                &&& pairs.to_multiset() == header_pairs(members).to_multiset()
                &&& text == joined(pair_lines(pairs), "\n"@)
            },
        None => text == "(none)"@,
    }
}

/// Headers are shown in one way.
pub proof fn law_headers_shown_in_one_way(a: Seq<char>, b: Seq<char>, value: Option<JsonView>)
    requires
        shows_headers(a, value),
        shows_headers(b, value),
    ensures
        a == b,
{
    if let Some(members) = members_in(value) {
        let given = header_pairs(members).to_multiset();
        let x = choose|pairs: Seq<(Seq<char>, Seq<char>)>|
            {
                &&& #[trigger] in_order::<(String, String)>(pairs)
                &&& pairs.to_multiset() == given
                &&& a == joined(pair_lines(pairs), "\n"@)
            };
        let y = choose|pairs: Seq<(Seq<char>, Seq<char>)>|
            {
                &&& #[trigger] in_order::<(String, String)>(pairs)
                &&& pairs.to_multiset() == given
                &&& b == joined(pair_lines(pairs), "\n"@)
            };
        lemma_sorted_pairs_unique(x, y);
    }
}

/// Headers as text.
pub fn headers_text(value: Option<&Json>) -> (r: String)
    ensures
        shows_headers(r@, value.deep_view()),
{
    let members = match value {
        Some(value) => match value.as_object() {
            Some(members) => members,
            None => {
                return "(none)".to_owned();
            },
        },
        None => {
            return "(none)".to_owned();
        },
    };
    let ghost wanted = header_pairs(members.deep_view());
    let mut pairs: Vec<(String, String)> = Vec::new();
    let mut i: usize = 0;
    while i < members.len()
        invariant
            i <= members@.len(),
            wanted == header_pairs(members.deep_view()),
            pairs.deep_view() == wanted.take(i as int),
        decreases members@.len() - i,
    {
        let ghost done = pairs.deep_view();
        let text = match members[i].1.as_str() {
            Some(text) => text.to_owned(),
            None => {
                let empty = String::new();
                assert(empty@ =~= Seq::<char>::empty());
                empty
            },
        };
        let name = members[i].0.clone();
        pairs.push((name, text));
        proof {
            assert(pairs.deep_view() =~= done.push((name@, text@)));
            assert(members.deep_view()[i as int] == (
                members@[i as int].0@,
                members@[i as int].1.deep_view(),
            ));
        }
        i = i + 1;
        assert(pairs.deep_view() =~= wanted.take(i as int));
    }
    assert(pairs.deep_view() =~= wanted);
    let ordered = sorted(pairs);
    let ghost models = ordered.deep_view();
    let mut lines: Vec<String> = Vec::new();
    let mut k: usize = 0;
    while k < ordered.len()
        invariant
            k <= ordered@.len(),
            models == ordered.deep_view(),
            texts(lines@) == pair_lines(models).take(k as int),
        decreases ordered@.len() - k,
    {
        let ghost done = texts(lines@);
        let mut line = ordered[k].0.clone();
        line.append(": ");
        line.append(ordered[k].1.as_str());
        lines.push(line);
        proof {
            assert(texts(lines@) =~= done.push(line@));
            assert(models[k as int] == (ordered@[k as int].0@, ordered@[k as int].1@));
        }
        k = k + 1;
        assert(texts(lines@) =~= pair_lines(models).take(k as int));
    }
    assert(texts(lines@) =~= pair_lines(models));
    let r = join(&lines, "\n");
    assert(in_order::<(String, String)>(models));
    r
}

// ---------------------------------------------------------------------------
// Rows

/// A request as a row of the list.
#[derive(Debug)]
pub struct RequestRow {
    pub request_id: String,
    pub url: String,
    pub method: String,
    pub status: Option<u32>,
    pub resource_type: Option<String>,
    pub failed: bool,
}

/// The model of a row.
pub struct RowView {
    pub request_id: Seq<char>,
    pub url: Seq<char>,
    pub method: Seq<char>,
    pub status: Option<u32>,
    pub resource_type: Option<Seq<char>>,
    pub failed: bool,
}

impl View for RequestRow {
    type V = RowView;

    open spec fn view(&self) -> RowView {
        RowView {
            request_id: self.request_id@,
            url: self.url@,
            method: self.method@,
            status: self.status,
            resource_type: self.resource_type.deep_view(),
            failed: self.failed,
        }
    }
}

/// The text under a name, or the empty text.
pub open spec fn text_or_empty(value: JsonView, name: Seq<char>) -> Seq<char> {
    match text_field(value, name) {
        Some(text) => text,
        None => Seq::empty(),
    }
}

/// The row of a request. It counts as failed where a reason for that is written down,
/// whatever it says.
pub open spec fn row_of(value: JsonView) -> RowView {
    RowView {
        request_id: text_or_empty(value, "request_id"@),
        url: text_or_empty(value, "url"@),
        method: text_or_empty(value, "method"@),
        status: u32_field_in(Some(value), "status"@),
        resource_type: text_field(value, "resource_type"@),
        failed: field(value, "failure_reason"@) is Some || field(value, "blocked_reason"@) is Some,
    }
}

/// What a row shows as its status.
pub open spec fn status_shown(row: RowView) -> Seq<char> {
    match row.status {
        Some(status) => decimal(status as nat),
        None => if row.failed {
            "ERR"@
        } else {
            "…"@
        },
    }
}

fn string_or_empty(value: &Json, name: &str) -> (r: String)
    ensures
        r@ == text_or_empty(value.deep_view(), name@),
{
    match read_text(value.get(name)) {
        Some(text) => text,
        None => {
            let empty = String::new();
            assert(empty@ =~= Seq::<char>::empty());
            empty
        },
    }
}

impl RequestRow {
    /// The row of a request.
    pub fn from_value(value: &Json) -> (r: RequestRow)
        ensures
            r@ == row_of(value.deep_view()),
    {
        RequestRow {
            request_id: string_or_empty(value, "request_id"),
            url: string_or_empty(value, "url"),
            method: string_or_empty(value, "method"),
            status: u32_field(Some(value), "status"),
            resource_type: read_text(value.get("resource_type")),
            failed: value.get("failure_reason").is_some() || value.get("blocked_reason").is_some(),
        }
    }

    /// What the row shows as its status.
    pub fn status_text(&self) -> (r: String)
        ensures
            r@ == status_shown(self@),
    {
        match self.status {
            Some(status) => decimal_text(status as u64),
            None => if self.failed {
                "ERR".to_owned()
            } else {
                "…".to_owned()
            },
        }
    }
}

// ---------------------------------------------------------------------------
// Snapshots

/// What the panel is told of a session.
#[derive(Debug)]
pub struct NetworkSnapshot {
    pub session_id: u64,
    pub driven_by: String,
    pub requests: Vec<Json>,
    pub control: Json,
}

/// The session that the panel shows, the first of all, and who drives it.
pub open spec fn shown_session(sessions: Seq<JsonView>) -> Option<(u64, Seq<char>)> {
    if sessions.len() == 0 {
        None
    } else {
        match u64_in(field(sessions[0], "session_id"@)) {
            Some(id) => Some(
                (
                    id,
                    match text_field(sessions[0], "driven_by"@) {
                        Some(driver) => driver,
                        None => "idle"@,
                    },
                ),
            ),
            None => None,
        }
    }
}

/// The session that the panel shows and who drives it.
pub fn session_to_show(sessions: &Vec<Json>) -> (r: Option<(u64, String)>)
    ensures
        r.deep_view() == shown_session(sessions.deep_view()),
{
    if sessions.len() == 0 {
        return None;
    }
    assert(sessions.deep_view()[0] == sessions@[0].deep_view());
    match read_u64(sessions[0].get("session_id")) {
        Some(id) => {
            let driver = match read_text(sessions[0].get("driven_by")) {
                Some(driver) => driver,
                None => "idle".to_owned(),
            };
            Some((id, driver))
        },
        None => None,
    }
}

/// The requests in a listing.
pub open spec fn listed_requests(listing: JsonView) -> Seq<JsonView> {
    match items_in(field(listing, "requests"@)) {
        Some(items) => items,
        None => Seq::empty(),
    }
}

fn requests_in(listing: &Json) -> (r: Vec<Json>)
    ensures
        r.deep_view() == listed_requests(listing.deep_view()),
{
    let mut out: Vec<Json> = Vec::new();
    assert(out.deep_view() =~= Seq::empty());
    if let Some(list) = listing.get("requests") {
        if let Some(items) = list.as_array() {
            let ghost models = items.deep_view();
            let mut i: usize = 0;
            while i < items.len()
                invariant
                    i <= items@.len(),
                    models == items.deep_view(),
                    out.deep_view() == models.take(i as int),
                decreases items@.len() - i,
            {
                let ghost done = out.deep_view();
                let item = items[i].clone();
                out.push(item);
                assert(out.deep_view() =~= done.push(item.deep_view()));
                i = i + 1;
                assert(out.deep_view() =~= models.take(i as int));
            }
            assert(out.deep_view() =~= models);
        }
    }
    out
}

/// What the panel is told, given the listing of requests and the control state of the
/// session; nothing where either could not be had.
pub fn snapshot_of(
    session_id: u64,
    driven_by: String,
    listing: Result<Json, String>,
    control: Result<Json, String>,
) -> (r: Option<NetworkSnapshot>)
    ensures
        match (listing, control) {
            (Ok(listing), Ok(control)) => r matches Some(snapshot) && snapshot.session_id
                == session_id && snapshot.driven_by@ == driven_by@ && snapshot.requests.deep_view()
                == listed_requests(listing.deep_view()) && snapshot.control.deep_view()
                == control.deep_view(),
            _ => r is None,
        },
{
    match listing {
        Ok(listing) => match control {
            Ok(control) => Some(
                NetworkSnapshot { session_id, driven_by, requests: requests_in(&listing), control },
            ),
            Err(_) => None,
        },
        Err(_) => None,
    }
}

// ---------------------------------------------------------------------------
// The panel

/// The tabs of the detail pane.
#[derive(Clone, Copy, Debug, PartialEq, Eq, Structural)]
pub enum DetailTab {
    Headers,
    Response,
    Timing,
    Initiator,
    Cookies,
}

/// What a tab is called.
pub open spec fn tab_name(tab: DetailTab) -> Seq<char> {
    match tab {
        DetailTab::Headers => "Headers"@,
        DetailTab::Response => "Response"@,
        DetailTab::Timing => "Timing"@,
        DetailTab::Initiator => "Initiator"@,
        DetailTab::Cookies => "Cookies"@,
    }
}

impl DetailTab {
    /// All tabs, in order.
    pub fn all() -> (r: [DetailTab; 5])
        ensures
            r@ =~= seq![
                DetailTab::Headers,
                DetailTab::Response,
                DetailTab::Timing,
                DetailTab::Initiator,
                DetailTab::Cookies,
            ],
    {
        [
            DetailTab::Headers,
            DetailTab::Response,
            DetailTab::Timing,
            DetailTab::Initiator,
            DetailTab::Cookies,
        ]
    }

    /// What the tab is called.
    pub fn label(self) -> (r: &'static str)
        ensures
            r@ == tab_name(self),
    {
        match self {
            DetailTab::Headers => "Headers",
            DetailTab::Response => "Response",
            DetailTab::Timing => "Timing",
            DetailTab::Initiator => "Initiator",
            DetailTab::Cookies => "Cookies",
        }
    }
}

/// The state of the panel.
#[derive(Debug)]
pub struct NetworkPanel {
    pub session_id: Option<u64>,
    pub requests: Vec<Json>,
    pub control: Json,
    pub driven_by: String,
    /// Whether the panel follows the session.
    pub record: bool,
    /// Shown, and without effect so far.
    pub preserve_log: bool,
    pub selected_request_id: Option<String>,
    pub response_body: Option<String>,
    pub detail_tab: DetailTab,
    /// How many rows the list was laid out for.
    pub item_count: usize,
}

/// The model of the panel.
pub struct PanelView {
    pub session_id: Option<u64>,
    pub requests: Seq<JsonView>,
    pub control: JsonView,
    pub driven_by: Seq<char>,
    pub record: bool,
    pub preserve_log: bool,
    pub selected_request_id: Option<Seq<char>>,
    pub response_body: Option<Seq<char>>,
    pub detail_tab: DetailTab,
    pub item_count: int,
}

impl View for NetworkPanel {
    type V = PanelView;

    open spec fn view(&self) -> PanelView {
        PanelView {
            session_id: self.session_id,
            requests: self.requests.deep_view(),
            control: self.control.deep_view(),
            driven_by: self.driven_by@,
            record: self.record,
            preserve_log: self.preserve_log,
            selected_request_id: self.selected_request_id.deep_view(),
            response_body: self.response_body.deep_view(),
            detail_tab: self.detail_tab,
            item_count: self.item_count as int,
        }
    }
}

/// The panel before it is told anything.
pub open spec fn blank_panel() -> PanelView {
    PanelView {
        session_id: None,
        requests: Seq::empty(),
        control: JsonView::Null,
        driven_by: "idle"@,
        record: true,
        preserve_log: false,
        selected_request_id: None,
        response_body: None,
        detail_tab: DetailTab::Headers,
        item_count: 0,
    }
}

/// Whether a request is shown under a filter, where the filter and, as far as the
/// request has them, its URL and its method are given in lower case.
pub open spec fn shown_lowered(
    filter: Seq<char>,
    url: Option<Seq<char>>,
    method: Option<Seq<char>>,
) -> bool {
    ||| filter.len() == 0
    ||| url matches Some(url) && occurs(url, filter)
    ||| method matches Some(method) && occurs(method, filter)
}

/// A text in lower case, if there is one.
pub open spec fn lowered(text: Option<Seq<char>>) -> Option<Seq<char>> {
    match text {
        Some(text) => Some(lowercase(text)),
        None => None,
    }
}

/// Whether a request is shown under a filter: the filter is empty or stands in the URL
/// or the method, whatever the case.
pub open spec fn is_shown(value: JsonView, filter: Seq<char>) -> bool {
    shown_lowered(
        lowercase(filter),
        lowered(text_field(value, "url"@)),
        lowered(text_field(value, "method"@)),
    )
}

/// The requests that are shown under a filter, in order.
pub open spec fn shown_requests(requests: Seq<JsonView>, filter: Seq<char>) -> Seq<JsonView>
    decreases requests.len(),
{
    if requests.len() == 0 {
        Seq::empty()
    } else {
        let rest = shown_requests(requests.drop_last(), filter);
        if is_shown(requests.last(), filter) {
            rest.push(requests.last())
        } else {
            rest
        }
    }
}

/// The panel once it is told of a session. It takes nothing in while it does not record.
pub open spec fn panel_after(panel: PanelView, snapshot: NetworkSnapshot, filter: Seq<char>) ->
    PanelView {
    if !panel.record {
        panel
    } else {
        PanelView {
            session_id: Some(snapshot.session_id),
            requests: snapshot.requests.deep_view(),
            control: snapshot.control.deep_view(),
            driven_by: snapshot.driven_by@,
            item_count: shown_requests(snapshot.requests.deep_view(), filter).len() as int,
            ..panel
        }
    }
}

/// The first request of that id.
pub open spec fn request_with_id(requests: Seq<JsonView>, id: Seq<char>) -> Option<JsonView> {
    first_with(requests, "request_id"@, id)
}

/// Whether a request is shown under a filter, given in lower case what is compared.
pub fn is_shown_lowered(filter: &str, url: Option<&str>, method: Option<&str>) -> (r: bool)
    ensures
        r == shown_lowered(filter@, url.deep_view(), method.deep_view()),
{
    if is_blank(filter) {
        return true;
    }
    if let Some(url) = url {
        if contains(url, filter) {
            return true;
        }
    }
    match method {
        Some(method) => contains(method, filter),
        None => false,
    }
}

fn lowered_text(value: &Json, name: &str) -> (r: Option<String>)
    ensures
        r.deep_view() == lowered(text_field(value.deep_view(), name@)),
{
    match read_text(value.get(name)) {
        Some(text) => Some(to_lowercase(text.as_str())),
        None => None,
    }
}

fn as_text(s: &Option<String>) -> (r: Option<&str>)
    ensures
        r.deep_view() == s.deep_view(),
{
    match s {
        Some(s) => Some(s.as_str()),
        None => None,
    }
}

/// What a detail tab shows: a text, followed by a value that is to be written out over
/// several lines, if there is one.
#[derive(Debug)]
pub struct DetailBody {
    pub text: String,
    pub value: Option<Json>,
}

/// What the cookies tab shows: the cookie that the response sets, under either spelling
/// of the header.
pub open spec fn cookie_text(request: JsonView) -> Seq<char> {
    let headers = field(request, "response_headers"@);
    let header = match field_in(headers, "set-cookie"@) {
        Some(value) => Some(value),
        None => field_in(headers, "Set-Cookie"@),
    };
    "Set-Cookie: "@ + (match text_in(header) {
        Some(cookie) => cookie,
        None => "(none)"@,
    })
}

/// Whether a body is what a tab shows of a request.
pub open spec fn is_detail(
    body: DetailBody,
    tab: DetailTab,
    request: JsonView,
    response: Option<Seq<char>>,
) -> bool {
    match tab {
        DetailTab::Headers => {
            &&& body.value is None
            &&& exists|sent: Seq<char>, received: Seq<char>|
                {
                    &&& #[trigger] shows_headers(sent, field(request, "request_headers"@))
                    &&& #[trigger] shows_headers(received, field(request, "response_headers"@))
                    &&& body.text@ == "Request headers:\n"@ + sent + "\n\nResponse headers:\n"@
                        + received
                }
        },
        DetailTab::Response => {
            &&& body.value is None
            &&& body.text@ == (match response {
                Some(text) => text,
                None => "Loading response body…"@,
            })
        },
        DetailTab::Timing => {
            &&& body.text@ == Seq::<char>::empty()
            &&& body.value matches Some(value) && value.deep_view() == or_null(
                field(request, "timing"@),
            )
        },
        DetailTab::Initiator => {
            &&& body.text@ == "initiator: "@ + (match text_field(request, "initiator"@) {
                Some(kind) => kind,
                None => "unknown"@,
            }) + "\nstack: "@
            &&& body.value matches Some(value) && value.deep_view() == or_null(
                field(request, "initiator_stack"@),
            )
        },
        DetailTab::Cookies => {
            &&& body.value is None
            &&& body.text@ == cookie_text(request)
        },
    }
}

/// Who drives the session, as the toolbar shows it.
pub open spec fn driver_shown(driven_by: Seq<char>) -> Seq<char> {
    "driven by: "@ + (if driven_by == "human"@ {
        "Human"@
    } else if driven_by == "agent"@ {
        "Agent"@
    } else {
        "Idle"@
    })
}

impl NetworkPanel {
    /// The panel before it is told anything.
    pub fn new() -> (r: NetworkPanel)
        ensures
            r@ == blank_panel(),
    {
        let r = NetworkPanel {
            session_id: None,
            requests: Vec::new(),
            control: Json::Null,
            driven_by: "idle".to_owned(),
            record: true,
            preserve_log: false,
            selected_request_id: None,
            response_body: None,
            detail_tab: DetailTab::Headers,
            item_count: 0,
        };
        assert(r@.requests =~= Seq::empty());
        r
    }

    /// The requests that are shown under a filter, in order.
    pub fn visible_requests(&self, filter: &str) -> (r: Vec<&Json>)
        ensures
            r.deep_view() == shown_requests(self@.requests, filter@),
    {
        let wanted = to_lowercase(filter);
        let ghost models = self.requests.deep_view();
        let mut out: Vec<&Json> = Vec::new();
        let mut i: usize = 0;
        proof {
            assert(models.take(0) =~= Seq::empty());
            assert(out.deep_view() =~= Seq::empty());
        }
        while i < self.requests.len()
            invariant
                i <= self.requests@.len(),
                models == self.requests.deep_view(),
                wanted@ == lowercase(filter@),
                out.deep_view() == shown_requests(models.take(i as int), filter@),
            decreases self.requests@.len() - i,
        {
            let ghost done = out.deep_view();
            let request = &self.requests[i];
            let url = lowered_text(request, "url");
            let method = lowered_text(request, "method");
            proof {
                let next = models.take(i + 1);
                assert(next.drop_last() =~= models.take(i as int));
                assert(next.last() == request.deep_view());
            }
            if is_shown_lowered(wanted.as_str(), as_text(&url), as_text(&method)) {
                out.push(request);
                assert(out.deep_view() =~= done.push(request.deep_view()));
            }
            i = i + 1;
        }
        assert(models.take(models.len() as int) =~= models);
        out
    }

    /// Takes a snapshot in; whether the panel has to be drawn anew.
    pub fn apply_snapshot(&mut self, snapshot: NetworkSnapshot, filter: &str) -> (r: bool)
        ensures
            r == old(self)@.record,
            final(self)@ == panel_after(old(self)@, snapshot, filter@),
    {
        if !self.record {
            return false;
        }
        self.session_id = Some(snapshot.session_id);
        self.driven_by = snapshot.driven_by;
        self.control = snapshot.control;
        self.requests = snapshot.requests;
        self.item_count = self.visible_requests(filter).len();
        true
    }

    /// The request that is selected.
    pub fn selected_request(&self) -> (r: Option<&Json>)
        ensures
            r.deep_view() == (match self@.selected_request_id {
                Some(id) => request_with_id(self@.requests, id),
                None => None,
            }),
    {
        let id = match &self.selected_request_id {
            Some(id) => id,
            None => {
                return None;
            },
        };
        find_with(&self.requests, "request_id", id.as_str())
    }

    /// Starts or stops recording.
    pub fn toggle_record(&mut self)
        ensures
            final(self)@ == (PanelView { record: !old(self)@.record, ..old(self)@ }),
    {
        self.record = !self.record;
    }

    /// Sets or clears the mark that the log is preserved.
    pub fn toggle_preserve_log(&mut self)
        ensures
            final(self)@ == (PanelView { preserve_log: !old(self)@.preserve_log, ..old(self)@ }),
    {
        self.preserve_log = !self.preserve_log;
    }

    /// The session whose requests are to be cleared.
    pub fn clear_requests(&self) -> (r: Option<u64>)
        ensures
            r == self@.session_id,
    {
        self.session_id
    }

    /// Notes that the requests were cleared.
    pub fn requests_cleared(&mut self)
        ensures
            final(self)@ == (PanelView { requests: Seq::empty(), item_count: 0, ..old(self)@ }),
    {
        self.requests = Vec::new();
        self.item_count = 0;
        assert(self@.requests =~= Seq::empty());
    }

    /// The session and the operation that go on to the next throttle preset.
    pub fn cycle_throttle(&self) -> (r: Option<(u64, TargetCommand)>)
        ensures
            match self@.session_id {
                Some(id) => r matches Some((session, TargetCommand::SetThrottle { conditions }))
                    && session == id && conditions.deep_view() == preset_conditions(
                    preset_after(self@.control),
                ),
                None => r is None,
            },
    {
        match self.session_id {
            Some(id) => {
                let conditions = next_throttle_preset(&self.control).conditions();
                Some((id, TargetCommand::SetThrottle { conditions }))
            },
            None => None,
        }
    }

    /// The session and the operation that change the offline state.
    pub fn toggle_offline(&self) -> (r: Option<(u64, TargetCommand)>)
        ensures
            match self@.session_id {
                Some(id) => r matches Some((session, TargetCommand::SetOffline { offline }))
                    && session == id && offline == !is_offline(self@.control),
                None => r is None,
            },
    {
        match self.session_id {
            Some(id) => Some(
                (id, TargetCommand::SetOffline { offline: !offline_in(&self.control) }),
            ),
            None => None,
        }
    }

    /// The session and the URL pattern to block: what was typed, without white space at
    /// either end, unless nothing is left.
    pub fn block_url(&self, typed: &str) -> (r: Option<(u64, String)>)
        ensures
            match self@.session_id {
                Some(id) => if trimmed(typed@).len() == 0 {
                    r is None
                } else {
                    r matches Some(action) && action.0 == id && action.1@ == trimmed(typed@)
                },
                None => r is None,
            },
    {
        match self.session_id {
            Some(id) => {
                let url = trim(typed);
                if is_blank(url.as_str()) {
                    None
                } else {
                    Some((id, url))
                }
            },
            None => None,
        }
    }

    /// Selects a request; the session that its response body is to be fetched from.
    pub fn select_request(&mut self, request_id: &str) -> (r: Option<u64>)
        ensures
            r == old(self)@.session_id,
            final(self)@ == (PanelView {
                selected_request_id: Some(request_id@),
                response_body: None,
                ..old(self)@
            }),
    {
        self.selected_request_id = Some(request_id.to_owned());
        self.response_body = None;
        self.session_id
    }

    /// Takes a response body in that was fetched, or that could not be.
    pub fn body_fetched(&mut self, body: Option<&Json>)
        ensures
            final(self)@ == (PanelView {
                response_body: text_field_in(body.deep_view(), "body"@),
                ..old(self)@
            }),
    {
        self.response_body = read_text(get_in(body, "body"));
    }

    /// Turns to another tab.
    pub fn select_tab(&mut self, tab: DetailTab)
        ensures
            final(self)@ == (PanelView { detail_tab: tab, ..old(self)@ }),
    {
        self.detail_tab = tab;
    }

    /// Whether a row is the selected one.
    pub fn is_selected(&self, row: &RequestRow) -> (r: bool)
        ensures
            r == (self@.selected_request_id == Some(row@.request_id)),
    {
        match &self.selected_request_id {
            Some(id) => same(id.as_str(), row.request_id.as_str()),
            None => false,
        }
    }

    /// What the current tab shows of a request.
    pub fn detail_body(&self, request: &Json) -> (r: DetailBody)
        ensures
            is_detail(r, self@.detail_tab, request.deep_view(), self@.response_body),
    {
        match self.detail_tab {
            DetailTab::Headers => {
                let sent = headers_text(request.get("request_headers"));
                let received = headers_text(request.get("response_headers"));
                let mut text = "Request headers:\n".to_owned();
                text.append(sent.as_str());
                text.append("\n\nResponse headers:\n");
                text.append(received.as_str());
                assert(shows_headers(sent@, field(request.deep_view(), "request_headers"@)));
                assert(shows_headers(received@, field(request.deep_view(), "response_headers"@)));
                DetailBody { text, value: None }
            },
            DetailTab::Response => {
                let text = match &self.response_body {
                    Some(body) => body.clone(),
                    None => "Loading response body…".to_owned(),
                };
                DetailBody { text, value: None }
            },
            DetailTab::Timing => {
                let text = String::new();
                assert(text@ =~= Seq::<char>::empty());
                DetailBody { text, value: Some(copy_or_null(request.get("timing"))) }
            },
            DetailTab::Initiator => {
                let mut text = "initiator: ".to_owned();
                match read_text(request.get("initiator")) {
                    Some(kind) => {
                        text.append(kind.as_str());
                    },
                    None => {
                        text.append("unknown");
                    },
                }
                text.append("\nstack: ");
                DetailBody { text, value: Some(copy_or_null(request.get("initiator_stack"))) }
            },
            DetailTab::Cookies => {
                let headers = request.get("response_headers");
                let header = match get_in(headers, "set-cookie") {
                    Some(value) => Some(value),
                    None => get_in(headers, "Set-Cookie"),
                };
                let mut text = "Set-Cookie: ".to_owned();
                match read_text(header) {
                    Some(cookie) => {
                        text.append(cookie.as_str());
                    },
                    None => {
                        text.append("(none)");
                    },
                }
                DetailBody { text, value: None }
            },
        }
    }

    /// Who drives the session, as the toolbar shows it.
    pub fn driver_label(&self) -> (r: String)
        ensures
            r@ == driver_shown(self@.driven_by),
    {
        let mut out = "driven by: ".to_owned();
        if same(self.driven_by.as_str(), "human") {
            out.append("Human");
        } else if same(self.driven_by.as_str(), "agent") {
            out.append("Agent");
        } else {
            out.append("Idle");
        }
        out
    }

    /// What the record button is called: what it would do.
    pub fn record_label(&self) -> (r: &'static str)
        ensures
            r@ == (if self@.record {
                "Pause"@
            } else {
                "Record"@
            }),
    {
        if self.record {
            "Pause"
        } else {
            "Record"
        }
    }

    /// What the preserve button is called: the state it is in.
    pub fn preserve_label(&self) -> (r: &'static str)
        ensures
            r@ == (if self@.preserve_log {
                "Preserve On"@
            } else {
                "Preserve Off"@
            }),
    {
        if self.preserve_log {
            "Preserve On"
        } else {
            "Preserve Off"
        }
    }

    /// What the list says in place of rows while there is no session.
    pub fn list_placeholder(&self) -> (r: Option<&'static str>)
        ensures
            r.deep_view() == (if self@.session_id is None {
                Some("No browser session in this window — start one with the browser tool"@)
            } else {
                None
            }),
    {
        match self.session_id {
            None => Some("No browser session in this window — start one with the browser tool"),
            Some(_) => None,
        }
    }

    /// Whether the toolbar shows the session as offline.
    pub fn offline(&self) -> (r: bool)
        ensures
            r == is_offline(self@.control),
    {
        offline_in(&self.control)
    }
}

// ---------------------------------------------------------------------------
// What is shown

/// A session under a preset shows the name of that preset.
pub proof fn law_preset_is_shown_by_name(
    control: crate::control::ControlView,
    preset: ThrottlePreset,
)
    requires
        control.throttle == Some(preset_conditions(preset)),
        control.offline == preset_conditions(preset).offline,
    ensures
        throttle_name(control_json(control)) == (match preset {
            ThrottlePreset::Online => "Online"@,
            ThrottlePreset::Slow3G => "Slow 3G"@,
            ThrottlePreset::Fast3G => "Fast 3G"@,
            ThrottlePreset::Offline => "Offline"@,
        }),
        is_offline(control_json(control)) <==> preset == ThrottlePreset::Offline,
{
    law_control_is_shown_by_name(control);
    law_conditions_are_shown_by_name(preset_conditions(preset));
}

/// A row holds what the request says under the names of the row's own parts, and counts as
/// failed where a reason is written down.
pub proof fn law_row_is_read_by_name(value: JsonView)
    ensures
        text_in(field(value, "request_id"@)) matches Some(t) ==> row_of(value).request_id == t,
        text_in(field(value, "url"@)) matches Some(t) ==> row_of(value).url == t,
        text_in(field(value, "method"@)) matches Some(t) ==> row_of(value).method == t,
        u64_in(field(value, "status"@)) matches Some(n) ==> n <= u32::MAX ==> row_of(value).status
            == Some(n as u32),
        field(value, "status"@) is None ==> row_of(value).status is None,
        row_of(value).resource_type == text_in(field(value, "resource_type"@)),
        field(value, "failure_reason"@) is Some ==> row_of(value).failed,
        field(value, "blocked_reason"@) is Some ==> row_of(value).failed,
        field(value, "failure_reason"@) is None && field(value, "blocked_reason"@) is None
            ==> !row_of(value).failed,
{
}

/// A row with a status shows that status, and no other; one without shows whether it failed.
pub proof fn law_status_is_shown(row: RowView, other: RowView)
    ensures
        row.status is Some && other.status is Some && status_shown(row) == status_shown(other)
            ==> row.status == other.status,
        row.status is None && row.failed ==> status_shown(row) == "ERR"@,
        row.status is None && !row.failed ==> status_shown(row) == "…"@,
{
    if row.status is Some && other.status is Some && status_shown(row) == status_shown(other) {
        lemma_decimal_injective(row.status->0 as nat, other.status->0 as nat);
    }
}

/// A request is shown where the filter is empty or stands in its URL or its method, whatever
/// the case; a request whose URL and method hold nothing of it is not shown.
pub proof fn law_filter_is_by_url_or_method(
    value: JsonView,
    filter: Seq<char>,
    url: Seq<char>,
    method: Seq<char>,
)
    requires
        text_in(field(value, "url"@)) == Some(url),
        text_in(field(value, "method"@)) == Some(method),
    ensures
        lowercase(filter).len() == 0 ==> is_shown(value, filter),
        occurs(lowercase(url), lowercase(filter)) ==> is_shown(value, filter),
        occurs(lowercase(method), lowercase(filter)) ==> is_shown(value, filter),
        is_shown(value, filter) ==> lowercase(filter).len() == 0 || occurs(
            lowercase(url),
            lowercase(filter),
        ) || occurs(lowercase(method), lowercase(filter)),
{
}

/// The requests that are shown are shown in order, and no other.
pub proof fn law_requests_are_shown_in_order(
    requests: Seq<JsonView>,
    request: JsonView,
    filter: Seq<char>,
)
    ensures
        shown_requests(Seq::empty(), filter) == Seq::<JsonView>::empty(),
        is_shown(request, filter) ==> shown_requests(requests.push(request), filter)
            == shown_requests(requests, filter).push(request),
        !is_shown(request, filter) ==> shown_requests(requests.push(request), filter)
            == shown_requests(requests, filter),
{
    assert(requests.push(request).drop_last() =~= requests);
}

/// The panel shows what it is told while it records, and stands still while it does not. The
/// user's own choices stay as they are either way.
pub proof fn law_panel_takes_over_what_it_is_told(
    panel: PanelView,
    snapshot: NetworkSnapshot,
    filter: Seq<char>,
)
    ensures
        ({
            let after = panel_after(panel, snapshot, filter);
            &&& after.record == panel.record
            &&& after.preserve_log == panel.preserve_log
            &&& after.selected_request_id == panel.selected_request_id
            &&& after.response_body == panel.response_body
            &&& after.detail_tab == panel.detail_tab
            &&& !panel.record ==> after == panel
            &&& panel.record ==> {
                &&& after.session_id == Some(snapshot.session_id)
                &&& after.requests == snapshot.requests.deep_view()
                &&& after.control == snapshot.control.deep_view()
                &&& after.driven_by == snapshot.driven_by@
                &&& after.item_count == shown_requests(after.requests, filter).len()
            }
        }),
{
}

/// The session that is shown is the first, and nobody drives it where nobody is named.
pub proof fn law_first_session_is_shown(sessions: Seq<JsonView>, id: u64)
    requires
        sessions.len() > 0,
        u64_in(field(sessions[0], "session_id"@)) == Some(id),
    ensures
        shown_session(sessions) matches Some(shown) && shown.0 == id && (text_in(
            field(sessions[0], "driven_by"@),
        ) matches Some(driver) ==> shown.1 == driver) && (field(sessions[0], "driven_by"@) is None
            ==> shown.1 == "idle"@),
        shown_session(Seq::empty()) is None,
{
}

/// The cookie of a response is shown, under either spelling of its header.
pub proof fn law_cookie_is_shown(request: JsonView, headers: JsonView, cookie: Seq<char>)
    requires
        field(request, "response_headers"@) == Some(headers),
    ensures
        field(headers, "set-cookie"@) == Some(JsonView::Text(cookie)) ==> cookie_text(request)
            == "Set-Cookie: "@ + cookie,
        field(headers, "set-cookie"@) is None && field(headers, "Set-Cookie"@) == Some(
            JsonView::Text(cookie),
        ) ==> cookie_text(request) == "Set-Cookie: "@ + cookie,
        field(headers, "set-cookie"@) is None && field(headers, "Set-Cookie"@) is None
            ==> cookie_text(request) == "Set-Cookie: "@ + "(none)"@,
{
}

/// The toolbar tells a human from an agent, and both from nobody.
pub proof fn law_drivers_are_told_apart(driven_by: Seq<char>)
    ensures
        driver_shown(driven_by) == driver_shown("human"@) <==> driven_by == "human"@,
        driver_shown(driven_by) == driver_shown("agent"@) <==> driven_by == "agent"@,
        driver_shown("human"@) == "driven by: "@ + "Human"@,
        driver_shown("agent"@) == "driven by: "@ + "Agent"@,
{
    reveal_strlit("human");
    reveal_strlit("agent");
    reveal_strlit("Human");
    reveal_strlit("Agent");
    reveal_strlit("Idle");
    reveal_strlit("driven by: ");
    assert("human"@[0] == 'h' && "agent"@[0] == 'a');
    let front = "driven by: "@;
    assert((front + "Human"@)[11] == 'H');
    assert((front + "Agent"@)[11] == 'A');
    assert((front + "Idle"@)[11] == 'I');
}

/// Each tab shows the part of the request that it is named after.
pub proof fn law_tabs_show_their_part(
    body: DetailBody,
    tab: DetailTab,
    request: JsonView,
    response: Option<Seq<char>>,
)
    requires
        is_detail(body, tab, request, response),
    ensures
        tab == DetailTab::Response ==> (response matches Some(text) ==> body.text@ == text),
        tab == DetailTab::Timing ==> (field(request, "timing"@) matches Some(timing)
            ==> body.value matches Some(value) && value.deep_view() == timing),
        tab == DetailTab::Initiator ==> (field(request, "initiator_stack"@) matches Some(stack)
            ==> body.value matches Some(value) && value.deep_view() == stack),
        tab == DetailTab::Initiator ==> (text_in(field(request, "initiator"@)) matches Some(kind)
            ==> begins_with(body.text@, "initiator: "@ + kind)),
        tab == DetailTab::Cookies ==> body.text@ == cookie_text(request),
        tab == DetailTab::Headers && field(request, "request_headers"@) is None && field(
            request,
            "response_headers"@,
        ) is None ==> body.text@ == "Request headers:\n"@ + "(none)"@ + "\n\nResponse headers:\n"@
            + "(none)"@,
{
    if tab == DetailTab::Initiator {
        if let Some(kind) = text_in(field(request, "initiator"@)) {
            let front = "initiator: "@ + kind;
            assert(body.text@.take(front.len() as int) =~= front);
        }
    }
}

/// Headers are shown as name and value, one on each line, a single header as that line
/// alone.
pub proof fn law_single_header_is_a_line(text: Seq<char>, name: Seq<char>, value: Seq<char>)
    requires
        shows_headers(text, Some(JsonView::Object(seq![(name, JsonView::Text(value))]))),
    ensures
        text == name + ": "@ + value,
{
    let members = seq![(name, JsonView::Text(value))];
    let given = header_pairs(members);
    assert(given =~= seq![(name, value)]);
    let pairs = choose|pairs: Seq<(Seq<char>, Seq<char>)>|
        {
            &&& #[trigger] in_order::<(String, String)>(pairs)
            &&& pairs.to_multiset() == header_pairs(members).to_multiset()
            &&& text == joined(pair_lines(pairs), "\n"@)
        };
    broadcast use vstd::seq_lib::group_to_multiset_ensures;

    assert(pairs.to_multiset().len() == pairs.len());
    assert(given.to_multiset().len() == given.len());
    assert(pairs.len() == given.len());
    assert(pairs.to_multiset().count(pairs[0]) > 0);
    assert(given.to_multiset().count(pairs[0]) > 0);
    assert(given.contains(pairs[0]));
    assert(pair_lines(pairs) =~= seq![name + ": "@ + value]);
}

/// The requests of a listing are its member of that name, and a request is found among them by
/// its id.
pub proof fn law_requests_are_found_by_id(listing: JsonView, requests: Seq<JsonView>, id: Seq<char>)
    ensures
        field(listing, "requests"@) == Some(JsonView::Array(requests)) ==> listed_requests(listing)
            == requests,
        field(listing, "requests"@) is None ==> listed_requests(listing).len() == 0,
        request_with_id(requests, id) matches Some(found) ==> requests.contains(found) && text_in(
            field(found, "request_id"@),
        ) == Some(id),
        request_with_id(requests, id) is None ==> forall|i: int|
            0 <= i < requests.len() ==> text_in(field(#[trigger] requests[i], "request_id"@))
                != Some(id),
{
    crate::json::law_first_item_is_found(requests, "request_id"@, id);
}

/// The panel starts with nothing to show: it records, and nothing is selected.
pub proof fn law_panel_starts_blank()
    ensures
        blank_panel().session_id is None,
        blank_panel().requests.len() == 0,
        blank_panel().control == JsonView::Null,
        blank_panel().record,
        !blank_panel().preserve_log,
        blank_panel().selected_request_id is None,
        blank_panel().response_body is None,
        blank_panel().item_count == 0,
{
}

/// Each tab has a name of its own.
pub proof fn law_tabs_have_names_of_their_own(a: DetailTab, b: DetailTab)
    requires
        tab_name(a) == tab_name(b),
    ensures
        a == b,
{
    reveal_strlit("Headers");
    reveal_strlit("Response");
    reveal_strlit("Timing");
    reveal_strlit("Initiator");
    reveal_strlit("Cookies");
    assert("Headers"@[0] == 'H' && "Response"@[0] == 'R' && "Timing"@[0] == 'T' && "Initiator"@[0]
        == 'I' && "Cookies"@[0] == 'C');
}

/// Conditions that are no preset's are shown as custom, and where there are none the session is
/// online.
pub proof fn law_other_conditions_are_custom(control: crate::control::ControlView, latency: u32)
    requires
        !control.offline,
        control.throttle matches Some(conditions) ==> conditions.latency_ms == latency,
    ensures
        control.throttle is None ==> throttle_name(control_json(control)) == "Online"@,
        control.throttle is Some && latency == 0 ==> throttle_name(control_json(control))
            == "Online"@,
        control.throttle is Some && latency != 0 && latency != 563 && latency != 2_000
            ==> throttle_name(control_json(control)) == "Custom"@,
{
    law_control_is_shown_by_name(control);
    if let Some(conditions) = control.throttle {
        law_conditions_are_shown_by_name(conditions);
    }
}

/// The headers tab shows what was sent before what was received, each under its heading.
pub proof fn law_headers_tab_shows_both_sides(
    body: DetailBody,
    request: JsonView,
    response: Option<Seq<char>>,
    sent: Seq<char>,
    received: Seq<char>,
)
    requires
        is_detail(body, DetailTab::Headers, request, response),
        shows_headers(sent, field(request, "request_headers"@)),
        shows_headers(received, field(request, "response_headers"@)),
    ensures
        body.text@ == "Request headers:\n"@ + sent + "\n\nResponse headers:\n"@ + received,
{
    let (a, b) = choose|a: Seq<char>, b: Seq<char>|
        {
            &&& #[trigger] shows_headers(a, field(request, "request_headers"@))
            &&& #[trigger] shows_headers(b, field(request, "response_headers"@))
            &&& body.text@ == "Request headers:\n"@ + a + "\n\nResponse headers:\n"@ + b
        };
    law_headers_shown_in_one_way(a, sent, field(request, "request_headers"@));
    law_headers_shown_in_one_way(b, received, field(request, "response_headers"@));
}

} // verus!
