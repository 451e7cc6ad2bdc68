//! Network conditions that a session is put under: throttling, blocking, overrides
//! and interception.

use vstd::prelude::*;
use crate::assoc::{lemma_lookup_entry, lemma_lookup_first};
use crate::json::{
    array, bool_in, field, items_in, optional_text, strings, text, text_array, text_in,
    text_or_null, u64_in, uint, uint_view, Fields, Json, JsonView,
};
use crate::network::{header_members, Headers};
use crate::number::{int_number, Number};
use crate::text::{ascii_lower_text, chars_of, same, to_ascii_lower};

verus! {

// ---------------------------------------------------------------------------
// Throttling

/// Network conditions, as CDP `Network.emulateNetworkConditions` takes them. A
/// throughput of -1 is unlimited.
#[derive(Debug, PartialEq)]
pub struct ThrottleConditions {
    pub offline: bool,
    pub latency_ms: u32,
    pub download_throughput_bps: i64,
    pub upload_throughput_bps: i64,
    pub connection_type: Option<String>,
}

/// The model of network conditions.
pub struct ThrottleView {
    pub offline: bool,
    pub latency_ms: u32,
    pub download_throughput_bps: int,
    pub upload_throughput_bps: int,
    pub connection_type: Option<Seq<char>>,
}

impl DeepView for ThrottleConditions {
    type V = ThrottleView;

    open spec fn deep_view(&self) -> ThrottleView {
        ThrottleView {
            offline: self.offline,
            latency_ms: self.latency_ms,
            download_throughput_bps: self.download_throughput_bps as int,
            upload_throughput_bps: self.upload_throughput_bps as int,
            connection_type: self.connection_type.deep_view(),
        }
    }
}

/// No throttling at all.
pub open spec fn unthrottled() -> ThrottleView {
    ThrottleView {
        offline: false,
        latency_ms: 0,
        download_throughput_bps: -1,
        upload_throughput_bps: -1,
        connection_type: None,
    }
}

impl Default for ThrottleConditions {
    fn default() -> (r: ThrottleConditions)
        ensures
            r.deep_view() == unthrottled(),
    {
        ThrottleConditions {
            offline: false,
            latency_ms: 0,
            download_throughput_bps: -1,
            upload_throughput_bps: -1,
            connection_type: None,
        }
    }
}

impl Clone for ThrottleConditions {
    fn clone(&self) -> (r: ThrottleConditions)
        ensures
            r.deep_view() == self.deep_view(),
    {
        ThrottleConditions {
            offline: self.offline,
            latency_ms: self.latency_ms,
            download_throughput_bps: self.download_throughput_bps,
            upload_throughput_bps: self.upload_throughput_bps,
            connection_type: match &self.connection_type {
                Some(kind) => Some(kind.clone()),
                None => None,
            },
        }
    }
}

/// The parameters of `Network.emulateNetworkConditions`.
pub open spec fn throttle_params(c: ThrottleView) -> JsonView {
    let members = Seq::empty().push(("offline"@, JsonView::Bool(c.offline))).push(
        ("latency"@, uint_view(c.latency_ms as int)),
    ).push(
        ("downloadThroughput"@, JsonView::Number(int_number(c.download_throughput_bps))),
    ).push(("uploadThroughput"@, JsonView::Number(int_number(c.upload_throughput_bps))));
    JsonView::Object(
        match c.connection_type {
            Some(kind) => members.push(("connectionType"@, JsonView::Text(kind))),
            None => members,
        },
    )
}

/// Network conditions as a JSON object.
pub open spec fn throttle_json(c: ThrottleView) -> JsonView {
    JsonView::Object(
        Seq::empty().push(("offline"@, JsonView::Bool(c.offline))).push(
            ("latency_ms"@, uint_view(c.latency_ms as int)),
        ).push(
            ("download_throughput_bps"@, JsonView::Number(int_number(c.download_throughput_bps))),
        ).push(
            ("upload_throughput_bps"@, JsonView::Number(int_number(c.upload_throughput_bps))),
        ).push(("connection_type"@, text_or_null(c.connection_type))),
    )
}

impl ThrottleConditions {
    /// The parameters of `Network.emulateNetworkConditions`.
    pub fn to_cdp_params(&self) -> (r: Json)
        ensures
            r.deep_view() == throttle_params(self.deep_view()),
    {
        let fields = Fields::new().with("offline", Json::Bool(self.offline)).with(
            "latency",
            uint(self.latency_ms as u64),
        ).with(
            "downloadThroughput",
            Json::Number(Number::of_int(self.download_throughput_bps)),
        ).with("uploadThroughput", Json::Number(Number::of_int(self.upload_throughput_bps)));
        match &self.connection_type {
            Some(kind) => fields.with("connectionType", text(kind.as_str())).object(),
            None => fields.object(),
        }
    }

    /// These conditions as a JSON object.
    pub fn to_json(&self) -> (r: Json)
        ensures
            r.deep_view() == throttle_json(self.deep_view()),
    {
        Fields::new().with("offline", Json::Bool(self.offline)).with(
            "latency_ms",
            uint(self.latency_ms as u64),
        ).with(
            "download_throughput_bps",
            Json::Number(Number::of_int(self.download_throughput_bps)),
        ).with(
            "upload_throughput_bps",
            Json::Number(Number::of_int(self.upload_throughput_bps)),
        ).with("connection_type", optional_text(&self.connection_type)).object()
    }
}

/// Named network conditions.
#[derive(Clone, Copy, Debug, PartialEq, Eq, Structural)]
pub enum ThrottlePreset {
    Online,
    Offline,
    Slow3G,
    Fast3G,
}

/// The conditions that a preset stands for.
pub open spec fn preset_conditions(preset: ThrottlePreset) -> ThrottleView {
    match preset {
        ThrottlePreset::Online => unthrottled(),
        ThrottlePreset::Offline => ThrottleView { offline: true, ..unthrottled() },
        ThrottlePreset::Slow3G => ThrottleView {
            offline: false,
            latency_ms: 2_000,
            download_throughput_bps: 50_000,
            upload_throughput_bps: 50_000,
            connection_type: Some("cellular3g"@),
        },
        ThrottlePreset::Fast3G => ThrottleView {
            offline: false,
            latency_ms: 563,
            download_throughput_bps: 1_474_560,
            upload_throughput_bps: 563_200,
            connection_type: Some("cellular3g"@),
        },
    }
}

/// The text with a dash for each underscore.
pub open spec fn dashed(s: Seq<char>) -> Seq<char> {
    Seq::new(
        s.len(),
        |i: int|
            if s[i] == '_' {
                '-'
            } else {
                s[i]
            },
    )
}

/// The preset of that name; the case of ASCII letters does not matter, and an
/// underscore stands for a dash.
pub open spec fn preset_of(name: Seq<char>) -> Option<ThrottlePreset> {
    let plain = dashed(ascii_lower_text(name));
    if plain == "online"@ || plain == "none"@ {
        Some(ThrottlePreset::Online)
    } else if plain == "offline"@ {
        Some(ThrottlePreset::Offline)
    } else if plain == "slow-3g"@ {
        Some(ThrottlePreset::Slow3G)
    } else if plain == "fast-3g"@ {
        Some(ThrottlePreset::Fast3G)
    } else {
        None
    }
}

fn to_dashed(s: &str) -> (r: String)
    ensures
        r@ == dashed(s@),
{
    let chars = chars_of(s);
    let mut out = String::new();
    let mut i: usize = 0;
    while i < chars.len()
        invariant
            i <= chars@.len(),
            chars@ == s@,
            out@ == dashed(s@).take(i as int),
        decreases chars@.len() - i,
    {
        if chars[i] == '_' {
            out.push('-');
        } else {
            out.push(chars[i]);
        }
        i = i + 1;
        assert(out@ =~= dashed(s@).take(i as int));
    }
    assert(out@ =~= dashed(s@));
    out
}

impl ThrottlePreset {
    /// The conditions that this preset stands for.
    pub fn conditions(self) -> (r: ThrottleConditions)
        ensures
            r.deep_view() == preset_conditions(self),
    {
        match self {
            ThrottlePreset::Online => ThrottleConditions::default(),
            ThrottlePreset::Offline => {
                let mut conditions = ThrottleConditions::default();
                conditions.offline = true;
                conditions
            },
            ThrottlePreset::Slow3G => ThrottleConditions {
                offline: false,
                latency_ms: 2_000,
                download_throughput_bps: 50_000,
                upload_throughput_bps: 50_000,
                connection_type: Some("cellular3g".to_owned()),
            },
            ThrottlePreset::Fast3G => ThrottleConditions {
                offline: false,
                latency_ms: 563,
                download_throughput_bps: 1_474_560,
                upload_throughput_bps: 563_200,
                connection_type: Some("cellular3g".to_owned()),
            },
        }
    }

    /// The preset of that name.
    pub fn parse(name: &str) -> (r: Option<ThrottlePreset>)
        ensures
            r == preset_of(name@),
    {
        let lower = to_ascii_lower(name);
        let plain = to_dashed(lower.as_str());
        if same(plain.as_str(), "online") || same(plain.as_str(), "none") {
            Some(ThrottlePreset::Online)
        } else if same(plain.as_str(), "offline") {
            Some(ThrottlePreset::Offline)
        } else if same(plain.as_str(), "slow-3g") {
            Some(ThrottlePreset::Slow3G)
        } else if same(plain.as_str(), "fast-3g") {
            Some(ThrottlePreset::Fast3G)
        } else {
            None
        }
    }
}

// ---------------------------------------------------------------------------
// Interception

/// One CDP `Fetch` request pattern: a URL pattern and the stage to pause at.
#[derive(Debug, PartialEq)]
pub struct InterceptionPattern {
    pub url_pattern: String,
    pub request_stage: Option<String>,
}

/// The model of a request pattern.
pub struct PatternView {
    pub url_pattern: Seq<char>,
    pub request_stage: Option<Seq<char>>,
}

impl DeepView for InterceptionPattern {
    type V = PatternView;

    open spec fn deep_view(&self) -> PatternView {
        PatternView {
            url_pattern: self.url_pattern@,
            request_stage: self.request_stage.deep_view(),
        }
    }
}

impl Clone for InterceptionPattern {
    fn clone(&self) -> (r: InterceptionPattern)
        ensures
            r.deep_view() == self.deep_view(),
    {
        InterceptionPattern {
            url_pattern: self.url_pattern.clone(),
            request_stage: match &self.request_stage {
                Some(stage) => Some(stage.clone()),
                None => None,
            },
        }
    }
}

/// An entry of the patterns of `Fetch.enable`.
pub open spec fn pattern_params(p: PatternView) -> JsonView {
    let members = Seq::empty().push(("urlPattern"@, JsonView::Text(p.url_pattern)));
    JsonView::Object(
        match p.request_stage {
            Some(stage) => members.push(("requestStage"@, JsonView::Text(stage))),
            None => members,
        },
    )
}

/// A request pattern as a JSON object.
pub open spec fn pattern_json(p: PatternView) -> JsonView {
    JsonView::Object(
        Seq::empty().push(("url_pattern"@, JsonView::Text(p.url_pattern))).push(
            ("request_stage"@, text_or_null(p.request_stage)),
        ),
    )
}

impl InterceptionPattern {
    /// An entry of the patterns of `Fetch.enable`.
    pub fn to_cdp_params(&self) -> (r: Json)
        ensures
            r.deep_view() == pattern_params(self.deep_view()),
    {
        let fields = Fields::new().with("urlPattern", text(self.url_pattern.as_str()));
        match &self.request_stage {
            Some(stage) => fields.with("requestStage", text(stage.as_str())).object(),
            None => fields.object(),
        }
    }

    /// This pattern as a JSON object.
    pub fn to_json(&self) -> (r: Json)
        ensures
            r.deep_view() == pattern_json(self.deep_view()),
    {
        Fields::new().with("url_pattern", text(self.url_pattern.as_str())).with(
            "request_stage",
            optional_text(&self.request_stage),
        ).object()
    }
}

/// What a session intercepts.
#[derive(Debug, PartialEq)]
pub struct InterceptionConfig {
    pub patterns: Vec<InterceptionPattern>,
}

impl DeepView for InterceptionConfig {
    type V = Seq<PatternView>;

    open spec fn deep_view(&self) -> Seq<PatternView> {
        self.patterns.deep_view()
    }
}

impl Default for InterceptionConfig {
    fn default() -> (r: InterceptionConfig)
        ensures
            r.deep_view() == Seq::<PatternView>::empty(),
    {
        let r = InterceptionConfig { patterns: Vec::new() };
        assert(r.deep_view() =~= Seq::empty());
        r
    }
}

/// The parameters of `Fetch.enable`.
pub open spec fn interception_params(patterns: Seq<PatternView>) -> JsonView {
    JsonView::Object(
        Seq::empty().push(
            (
                "patterns"@,
                JsonView::Array(Seq::new(patterns.len(), |i: int| pattern_params(patterns[i]))),
            ),
        ),
    )
}

/// What a session intercepts, as a JSON object.
pub open spec fn interception_json(patterns: Seq<PatternView>) -> JsonView {
    JsonView::Object(
        Seq::empty().push(
            (
                "patterns"@,
                JsonView::Array(Seq::new(patterns.len(), |i: int| pattern_json(patterns[i]))),
            ),
        ),
    )
}

impl InterceptionConfig {
    /// The parameters of `Fetch.enable`.
    pub fn to_cdp_params(&self) -> (r: Json)
        ensures
            r.deep_view() == interception_params(self.deep_view()),
    {
        let ghost wanted = Seq::new(
            self.patterns@.len(),
            |i: int| pattern_params(self.deep_view()[i]),
        );
        let mut items: Vec<Json> = Vec::new();
        let mut i: usize = 0;
        while i < self.patterns.len()
            invariant
                i <= self.patterns@.len(),
                wanted == Seq::new(
                    self.patterns@.len(),
                    |i: int| pattern_params(self.deep_view()[i]),
                ),
                items.deep_view() == wanted.take(i as int),
            decreases self.patterns@.len() - i,
        {
            let ghost done = items.deep_view();
            let item = self.patterns[i].to_cdp_params();
            items.push(item);
            assert(items.deep_view() =~= done.push(item.deep_view()));
            i = i + 1;
            assert(items.deep_view() =~= wanted.take(i as int));
        }
        assert(items.deep_view() =~= wanted);
        Fields::new().with("patterns", array(items)).object()
    }

    /// This configuration as a JSON object.
    pub fn to_json(&self) -> (r: Json)
        ensures
            r.deep_view() == interception_json(self.deep_view()),
    {
        let ghost wanted = Seq::new(
            self.patterns@.len(),
            |i: int| pattern_json(self.deep_view()[i]),
        );
        let mut items: Vec<Json> = Vec::new();
        let mut i: usize = 0;
        while i < self.patterns.len()
            invariant
                i <= self.patterns@.len(),
                wanted == Seq::new(
                    self.patterns@.len(),
                    |i: int| pattern_json(self.deep_view()[i]),
                ),
                items.deep_view() == wanted.take(i as int),
            decreases self.patterns@.len() - i,
        {
            let ghost done = items.deep_view();
            let item = self.patterns[i].to_json();
            items.push(item);
            assert(items.deep_view() =~= done.push(item.deep_view()));
            i = i + 1;
            assert(items.deep_view() =~= wanted.take(i as int));
        }
        assert(items.deep_view() =~= wanted);
        Fields::new().with("patterns", array(items)).object()
    }
}

// ---------------------------------------------------------------------------
// Control state

/// What a session is put under, so that panel and agent can show what is changed.
#[derive(Debug)]
pub struct NetworkControlState {
    pub offline: bool,
    pub throttle: Option<ThrottleConditions>,
    pub cache_disabled: bool,
    pub bypass_service_worker: bool,
    pub blocked_urls: Vec<String>,
    pub extra_http_headers: Headers,
    pub user_agent: Option<String>,
    pub interception: Option<InterceptionConfig>,
}

/// The model of a control state.
pub struct ControlView {
    pub offline: bool,
    pub throttle: Option<ThrottleView>,
    pub cache_disabled: bool,
    pub bypass_service_worker: bool,
    pub blocked_urls: Seq<Seq<char>>,
    pub extra_http_headers: Seq<(Seq<char>, Seq<char>)>,
    pub user_agent: Option<Seq<char>>,
    pub interception: Option<Seq<PatternView>>,
}

impl DeepView for NetworkControlState {
    type V = ControlView;

    open spec fn deep_view(&self) -> ControlView {
        ControlView {
            offline: self.offline,
            throttle: self.throttle.deep_view(),
            cache_disabled: self.cache_disabled,
            bypass_service_worker: self.bypass_service_worker,
            blocked_urls: self.blocked_urls.deep_view(),
            extra_http_headers: self.extra_http_headers.deep_view(),
            user_agent: self.user_agent.deep_view(),
            interception: self.interception.deep_view(),
        }
    }
}

/// The state of a session that nothing was changed in.
pub open spec fn uncontrolled() -> ControlView {
    ControlView {
        offline: false,
        throttle: None,
        cache_disabled: false,
        bypass_service_worker: false,
        blocked_urls: Seq::empty(),
        extra_http_headers: Seq::empty(),
        user_agent: None,
        interception: None,
    }
}

impl Default for NetworkControlState {
    fn default() -> (r: NetworkControlState)
        ensures
            r.deep_view() == uncontrolled(),
    {
        let r = NetworkControlState {
            offline: false,
            throttle: None,
            cache_disabled: false,
            bypass_service_worker: false,
            blocked_urls: Vec::new(),
            extra_http_headers: Headers::new(),
            user_agent: None,
            interception: None,
        };
        assert(r.blocked_urls.deep_view() =~= Seq::empty());
        r
    }
}

/// A control state as a JSON object.
pub open spec fn control_json(c: ControlView) -> JsonView {
    JsonView::Object(
        Seq::empty().push(("offline"@, JsonView::Bool(c.offline))).push(
            (
                "throttle"@,
                match c.throttle {
                    Some(conditions) => throttle_json(conditions),
                    None => JsonView::Null,
                },
            ),
        ).push(("cache_disabled"@, JsonView::Bool(c.cache_disabled))).push(
            ("bypass_service_worker"@, JsonView::Bool(c.bypass_service_worker)),
        ).push(("blocked_urls"@, text_array(c.blocked_urls))).push(
            ("extra_http_headers"@, JsonView::Object(header_members(c.extra_http_headers))),
        ).push(("user_agent"@, text_or_null(c.user_agent))).push(
            (
                "interception"@,
                match c.interception {
                    Some(patterns) => interception_json(patterns),
                    None => JsonView::Null,
                },
            ),
        ),
    )
}

impl NetworkControlState {
    /// This state as a JSON object.
    pub fn to_json(&self) -> (r: Json)
        ensures
            r.deep_view() == control_json(self.deep_view()),
    {
        let throttle = match &self.throttle {
            Some(conditions) => conditions.to_json(),
            None => Json::Null,
        };
        let interception = match &self.interception {
            Some(config) => config.to_json(),
            None => Json::Null,
        };
        Fields::new().with("offline", Json::Bool(self.offline)).with("throttle", throttle).with(
            "cache_disabled",
            Json::Bool(self.cache_disabled),
        ).with("bypass_service_worker", Json::Bool(self.bypass_service_worker)).with(
            "blocked_urls",
            strings(&self.blocked_urls),
        ).with("extra_http_headers", self.extra_http_headers.to_json()).with(
            "user_agent",
            optional_text(&self.user_agent),
        ).with("interception", interception).object()
    }
}

// ---------------------------------------------------------------------------
// The names in what is sent and shown

/// Network conditions are sent under the names of the protocol, each figure under its own:
/// what is down does not count for what is up.
pub proof fn law_conditions_are_sent_by_name(c: ThrottleView)
    ensures
        bool_in(field(throttle_params(c), "offline"@)) == Some(c.offline),
        u64_in(field(throttle_params(c), "latency"@)) == Some(c.latency_ms as u64),
        field(throttle_params(c), "downloadThroughput"@) == Some(
            JsonView::Number(int_number(c.download_throughput_bps)),
        ),
        field(throttle_params(c), "uploadThroughput"@) == Some(
            JsonView::Number(int_number(c.upload_throughput_bps)),
        ),
        text_in(field(throttle_params(c), "connectionType"@)) == c.connection_type,
{
    reveal_strlit("offline");
    reveal_strlit("latency");
    reveal_strlit("downloadThroughput");
    reveal_strlit("uploadThroughput");
    reveal_strlit("connectionType");
    assert("offline"@[0] == 'o' && "latency"@[0] == 'l' && "downloadThroughput"@[0] == 'd'
        && "uploadThroughput"@[0] == 'u' && "connectionType"@[0] == 'c');
    if let JsonView::Object(members) = throttle_params(c) {
        assert(members[0].0 == "offline"@ && members[1].0 == "latency"@ && members[2].0
            == "downloadThroughput"@ && members[3].0 == "uploadThroughput"@);
        lemma_lookup_first(members, 0);
        lemma_lookup_first(members, 1);
        lemma_lookup_first(members, 2);
        lemma_lookup_first(members, 3);
        if c.connection_type is Some {
            assert(members[4].0 == "connectionType"@);
            lemma_lookup_first(members, 4);
        } else {
            lemma_lookup_entry(members, "connectionType"@);
        }
    }
}

/// Network conditions are shown under their names.
pub proof fn law_conditions_are_shown_by_name(c: ThrottleView)
    ensures
        bool_in(field(throttle_json(c), "offline"@)) == Some(c.offline),
        u64_in(field(throttle_json(c), "latency_ms"@)) == Some(c.latency_ms as u64),
        field(throttle_json(c), "download_throughput_bps"@) == Some(
            JsonView::Number(int_number(c.download_throughput_bps)),
        ),
        field(throttle_json(c), "upload_throughput_bps"@) == Some(
            JsonView::Number(int_number(c.upload_throughput_bps)),
        ),
        text_in(field(throttle_json(c), "connection_type"@)) == c.connection_type,
{
    reveal_strlit("offline");
    reveal_strlit("latency_ms");
    reveal_strlit("download_throughput_bps");
    reveal_strlit("upload_throughput_bps");
    reveal_strlit("connection_type");
    assert("offline"@[0] == 'o' && "latency_ms"@[0] == 'l' && "download_throughput_bps"@[0] == 'd'
        && "upload_throughput_bps"@[0] == 'u' && "connection_type"@[0] == 'c');
    if let JsonView::Object(members) = throttle_json(c) {
        assert(members[0].0 == "offline"@ && members[1].0 == "latency_ms"@ && members[2].0
            == "download_throughput_bps"@ && members[3].0 == "upload_throughput_bps"@
            && members[4].0 == "connection_type"@);
        lemma_lookup_first(members, 0);
        lemma_lookup_first(members, 1);
        lemma_lookup_first(members, 2);
        lemma_lookup_first(members, 3);
        lemma_lookup_first(members, 4);
    }
}

/// The presets are what their names say: one is offline and the others are not, the online
/// ones are not slowed down, and the slow one is slower than the fast one in every way.
pub proof fn law_presets_are_what_they_say(preset: ThrottlePreset)
    ensures
        preset_conditions(preset).offline <==> preset == ThrottlePreset::Offline,
        preset == ThrottlePreset::Online || preset == ThrottlePreset::Offline ==> {
            &&& preset_conditions(preset).latency_ms == 0
            &&& preset_conditions(preset).download_throughput_bps < 0
            &&& preset_conditions(preset).upload_throughput_bps < 0
            &&& preset_conditions(preset).connection_type is None
        },
        ({
            let slow = preset_conditions(ThrottlePreset::Slow3G);
            let fast = preset_conditions(ThrottlePreset::Fast3G);
            &&& slow.latency_ms > fast.latency_ms > 0
            &&& 0 < slow.download_throughput_bps < fast.download_throughput_bps
            &&& 0 < slow.upload_throughput_bps < fast.upload_throughput_bps
            &&& slow.connection_type == Some("cellular3g"@)
            &&& fast.connection_type == Some("cellular3g"@)
        }),
{
}

/// A preset is found by its name however the name is cased, and with underscores for
/// dashes.
pub proof fn law_presets_are_found_by_name(name: Seq<char>)
    ensures
        name == "online"@ || name == "none"@ ==> preset_of(name) == Some(ThrottlePreset::Online),
        name == "offline"@ ==> preset_of(name) == Some(ThrottlePreset::Offline),
        name == "slow-3g"@ ==> preset_of(name) == Some(ThrottlePreset::Slow3G),
        name == "fast-3g"@ ==> preset_of(name) == Some(ThrottlePreset::Fast3G),
        preset_of(dashed(name)) == preset_of(name),
        preset_of(ascii_lower_text(name)) == preset_of(name),
{
    reveal_strlit("online");
    reveal_strlit("none");
    reveal_strlit("offline");
    reveal_strlit("slow-3g");
    reveal_strlit("fast-3g");
    assert("online"@[1] == 'n' && "offline"@[1] == 'f' && "none"@[0] == 'n' && "slow-3g"@[0] == 's'
        && "fast-3g"@[0] == 'f');
    if name == "online"@ || name == "none"@ || name == "offline"@ || name == "slow-3g"@ || name
        == "fast-3g"@ {
        assert(dashed(ascii_lower_text(name)) =~= name);
    }
    assert(dashed(ascii_lower_text(dashed(name))) =~= dashed(ascii_lower_text(name)));
    assert(ascii_lower_text(ascii_lower_text(name)) =~= ascii_lower_text(name));
}

/// What is intercepted is sent pattern by pattern, in order, each with its URL pattern and
/// its stage where it has one.
pub proof fn law_patterns_are_sent_one_by_one(patterns: Seq<PatternView>, i: int)
    requires
        0 <= i < patterns.len(),
    ensures
        items_in(field(interception_params(patterns), "patterns"@)) matches Some(items)
            && items.len() == patterns.len() && text_in(field(items[i], "urlPattern"@)) == Some(
            patterns[i].url_pattern,
        ) && text_in(field(items[i], "requestStage"@)) == patterns[i].request_stage,
        items_in(field(interception_json(patterns), "patterns"@)) matches Some(items)
            && items.len() == patterns.len() && text_in(field(items[i], "url_pattern"@)) == Some(
            patterns[i].url_pattern,
        ) && text_in(field(items[i], "request_stage"@)) == patterns[i].request_stage,
{
    reveal_strlit("urlPattern");
    reveal_strlit("requestStage");
    reveal_strlit("url_pattern");
    reveal_strlit("request_stage");
    assert("urlPattern"@[0] == 'u' && "requestStage"@[0] == 'r' && "url_pattern"@[0] == 'u'
        && "request_stage"@[0] == 'r');
    lemma_lookup_first(interception_params(patterns)->Object_0, 0);
    lemma_lookup_first(interception_json(patterns)->Object_0, 0);
    if let JsonView::Object(members) = pattern_params(patterns[i]) {
        assert(members[0].0 == "urlPattern"@);
        lemma_lookup_first(members, 0);
        if patterns[i].request_stage is Some {
            assert(members[1].0 == "requestStage"@);
            lemma_lookup_first(members, 1);
        } else {
            lemma_lookup_entry(members, "requestStage"@);
        }
    }
    if let JsonView::Object(members) = pattern_json(patterns[i]) {
        assert(members[0].0 == "url_pattern"@ && members[1].0 == "request_stage"@);
        lemma_lookup_first(members, 0);
        lemma_lookup_first(members, 1);
    }
}

/// What a session is put under is shown thing by thing, each under its name.
pub proof fn law_control_is_shown_by_name(c: ControlView)
    ensures
        bool_in(field(control_json(c), "offline"@)) == Some(c.offline),
        bool_in(field(control_json(c), "cache_disabled"@)) == Some(c.cache_disabled),
        bool_in(field(control_json(c), "bypass_service_worker"@)) == Some(c.bypass_service_worker),
        text_in(field(control_json(c), "user_agent"@)) == c.user_agent,
        c.throttle matches Some(conditions) ==> field(control_json(c), "throttle"@) == Some(
            throttle_json(conditions),
        ),
        c.throttle is None ==> field(control_json(c), "throttle"@) == Some(JsonView::Null),
        c.interception matches Some(patterns) ==> field(control_json(c), "interception"@) == Some(
            interception_json(patterns),
        ),
        c.interception is None ==> field(control_json(c), "interception"@) == Some(JsonView::Null),
        items_in(field(control_json(c), "blocked_urls"@)) matches Some(items) && items.len()
            == c.blocked_urls.len() && forall|i: int|
            0 <= i < items.len() ==> #[trigger] items[i] == JsonView::Text(c.blocked_urls[i]),
        field(control_json(c), "extra_http_headers"@) == Some(
            JsonView::Object(header_members(c.extra_http_headers)),
        ),
{
    reveal_strlit("offline");
    reveal_strlit("throttle");
    reveal_strlit("cache_disabled");
    reveal_strlit("bypass_service_worker");
    reveal_strlit("blocked_urls");
    reveal_strlit("extra_http_headers");
    reveal_strlit("user_agent");
    reveal_strlit("interception");
    assert("offline"@.len() == 7 && "throttle"@.len() == 8 && "cache_disabled"@.len() == 14
        && "bypass_service_worker"@.len() == 21 && "blocked_urls"@[0] == 'b'
        && "extra_http_headers"@.len() == 18 && "user_agent"@.len() == 10 && "interception"@[0]
        == 'i' && "blocked_urls"@.len() == 12 && "interception"@.len() == 12);
    if let JsonView::Object(members) = control_json(c) {
        assert(members[0].0 == "offline"@ && members[1].0 == "throttle"@ && members[2].0
            == "cache_disabled"@ && members[3].0 == "bypass_service_worker"@ && members[4].0
            == "blocked_urls"@ && members[5].0 == "extra_http_headers"@ && members[6].0
            == "user_agent"@ && members[7].0 == "interception"@);
        lemma_lookup_first(members, 0);
        lemma_lookup_first(members, 1);
        lemma_lookup_first(members, 2);
        lemma_lookup_first(members, 3);
        lemma_lookup_first(members, 4);
        lemma_lookup_first(members, 5);
        lemma_lookup_first(members, 6);
        lemma_lookup_first(members, 7);
    }
}

} // verus!
