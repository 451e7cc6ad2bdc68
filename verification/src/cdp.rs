//! The Chrome DevTools protocol (CDP) over one browser-level connection.
//!
//! A command carries an id of its own and, where it is for one target, the target's
//! session. What arrives is either the answer to a command or an event; events are
//! kept by session, the oldest making way for new ones.

use vstd::prelude::*;
use crate::assoc::{
    assign, find_mut, has, lemma_lookup_after_put, lemma_lookup_entry, lemma_lookup_first,
    lemma_put_twice, lookup, put,
};
use crate::digits::{signed_decimal, signed_decimal_text};
use crate::json::{
    copy_or_null, field, i64_in, or_null, read_text, read_u64, text, text_field, text_in, u64_in,
    uint, uint_view, Fields, Json, JsonView,
};
use crate::text::{begins_with, lemma_occurs_between, occurs, occurs_at, same, starts_with};

verus! {

// ---------------------------------------------------------------------------
// Errors

/// An error of the protocol or of the connection.
#[derive(Debug)]
pub enum CdpError {
    Protocol { code: i64, message: String },
    Other { message: String },
}

/// The model of an error.
pub enum CdpErrorView {
    Protocol { code: int, message: Seq<char> },
    Other { message: Seq<char> },
}

impl View for CdpError {
    type V = CdpErrorView;

    open spec fn view(&self) -> CdpErrorView {
        match self {
            CdpError::Protocol { code, message } => CdpErrorView::Protocol {
                code: *code as int,
                message: message@,
            },
            CdpError::Other { message } => CdpErrorView::Other { message: message@ },
        }
    }
}

/// An error as a text.
pub open spec fn cdp_error_text(error: CdpErrorView) -> Seq<char> {
    match error {
        CdpErrorView::Protocol { code, message } => "CDP error "@ + signed_decimal(code) + ": "@
            + message,
        CdpErrorView::Other { message } => message,
    }
}

impl CdpError {
    /// This error as a text.
    pub fn text(&self) -> (r: String)
        ensures
            r@ == cdp_error_text(self@),
    {
        match self {
            CdpError::Protocol { code, message } => {
                let mut out = "CDP error ".to_owned();
                out.append(signed_decimal_text(*code).as_str());
                out.append(": ");
                out.append(message.as_str());
                out
            },
            CdpError::Other { message } => message.clone(),
        }
    }
}

// ---------------------------------------------------------------------------
// The endpoint

/// What the parts of a URL are: nothing where the text is no URL, else its host and
/// its port, the latter the scheme's own where the URL gives none.
pub uninterp spec fn url_parts(url: Seq<char>) -> Option<(Option<Seq<char>>, Option<u16>)>;

/// `url::Url::parse`, with `host_str` and `port_or_known_default` of the URL that it
/// gives. They are functions of the text alone; their results go by the name
/// `url_parts`.
#[verifier::external_body]
fn parse_url(url: &str) -> (r: Option<(Option<String>, Option<u16>)>)
    ensures
        r.deep_view() == url_parts(url@),
{
    let parsed = url::Url::parse(url).ok()?;
    Some((parsed.host_str().map(|host| host.to_string()), parsed.port_or_known_default()))
}

/// Where to connect, or what is missing in the URL.
pub open spec fn endpoint_of(parts: Option<(Option<Seq<char>>, Option<u16>)>) -> Result<
    (Seq<char>, u16),
    Seq<char>,
> {
    match parts {
        None => Err("invalid CDP websocket url"@),
        Some((None, _)) => Err("CDP websocket url has no host"@),
        Some((Some(_), None)) => Err("CDP websocket url has no port"@),
        Some((Some(host), Some(port))) => Ok((host, port)),
    }
}

/// Where to connect, given the parts of the URL.
pub fn endpoint_from_parts(parts: Option<(Option<String>, Option<u16>)>) -> (r: Result<
    (String, u16),
    String,
>)
    ensures
        match endpoint_of(parts.deep_view()) {
            Ok((host, port)) => r matches Ok(at) && at.0@ == host && at.1 == port,
            Err(text) => r matches Err(error) && error@ == text,
        },
{
    match parts {
        None => Err("invalid CDP websocket url".to_owned()),
        Some((host, port)) => match host {
            None => Err("CDP websocket url has no host".to_owned()),
            Some(host) => match port {
                None => Err("CDP websocket url has no port".to_owned()),
                Some(port) => Ok((host, port)),
            },
        },
    }
}

/// Where to connect for a websocket URL.
pub fn endpoint(url: &str) -> (r: Result<(String, u16), String>)
    ensures
        match endpoint_of(url_parts(url@)) {
            Ok((host, port)) => r matches Ok(at) && at.0@ == host && at.1 == port,
            Err(text) => r matches Err(error) && error@ == text,
        },
{
    endpoint_from_parts(parse_url(url))
}

// ---------------------------------------------------------------------------
// Events

/// The kinds of events that are asked for.
#[derive(Clone, Copy, Debug, PartialEq, Eq, Structural)]
pub enum EventKind {
    /// A call of the page's console.
    Console,
    /// Anything of the network domain.
    Network,
    /// A request that waits to be decided on.
    RequestPaused,
}

/// Whether an event is of that kind.
pub open spec fn is_kind(event: JsonView, kind: EventKind) -> bool {
    match text_field(event, "method"@) {
        Some(method) => match kind {
            EventKind::Console => method == "Runtime.consoleAPICalled"@,
            EventKind::Network => begins_with(method, "Network."@),
            EventKind::RequestPaused => method == "Fetch.requestPaused"@,
        },
        None => false,
    }
}

/// Whether an event is of that session; of any where none is asked for.
pub open spec fn is_of_session(event: JsonView, session: Option<Seq<char>>) -> bool {
    match session {
        Some(id) => text_field(event, "sessionId"@) == Some(id),
        None => true,
    }
}

/// The events of that kind and session, in order.
pub open spec fn selected(
    events: Seq<JsonView>,
    kind: EventKind,
    session: Option<Seq<char>>,
) -> Seq<JsonView>
    decreases events.len(),
{
    if events.len() == 0 {
        Seq::empty()
    } else {
        let rest = selected(events.drop_last(), kind, session);
        if is_kind(events.last(), kind) && is_of_session(events.last(), session) {
            rest.push(events.last())
        } else {
            rest
        }
    }
}

/// The last `max` items, and at least the last one.
pub open spec fn last_items<T>(items: Seq<T>, max: nat) -> Seq<T> {
    let count = if max == 0 {
        1
    } else {
        max
    };
    if items.len() <= count {
        items
    } else {
        items.skip(items.len() - count)
    }
}

/// Whether an event is of that kind.
pub fn event_is(event: &Json, kind: EventKind) -> (r: bool)
    ensures
        r == is_kind(event.deep_view(), kind),
{
    match read_text(event.get("method")) {
        Some(method) => match kind {
            EventKind::Console => same(method.as_str(), "Runtime.consoleAPICalled"),
            EventKind::Network => starts_with(method.as_str(), "Network."),
            EventKind::RequestPaused => same(method.as_str(), "Fetch.requestPaused"),
        },
        None => false,
    }
}

/// Whether an event is of that session; of any where none is asked for.
pub fn session_id_matches(event: &Json, session: Option<&str>) -> (r: bool)
    ensures
        r == is_of_session(event.deep_view(), session.deep_view()),
{
    match session {
        Some(session) => match read_text(event.get("sessionId")) {
            Some(id) => same(id.as_str(), session),
            None => false,
        },
        None => true,
    }
}

proof fn lemma_selected_split(
    events: Seq<JsonView>,
    kind: EventKind,
    session: Option<Seq<char>>,
    at: int,
)
    requires
        0 <= at <= events.len(),
    ensures
        selected(events, kind, session) == selected(events.take(at), kind, session) + selected(
            events.skip(at),
            kind,
            session,
        ),
    decreases events.len() - at,
{
    let head = selected(events.take(at), kind, session);
    if at == events.len() {
        assert(events.take(at) =~= events);
        assert(events.skip(at) =~= Seq::empty());
        assert(head + Seq::empty() =~= head);
    } else {
        let fewer = events.drop_last();
        lemma_selected_split(fewer, kind, session, at);
        assert(fewer.take(at) =~= events.take(at));
        assert(fewer.skip(at) =~= events.skip(at).drop_last());
        assert(events.skip(at).last() == events.last());
        let tail = selected(fewer.skip(at), kind, session);
        assert((head + tail).push(events.last()) =~= head + tail.push(events.last()));
    }
}

/// The last `max` events of that kind and session, in order.
pub fn filter_events(events: &Vec<Json>, kind: EventKind, session: Option<&str>, max: usize) -> (r:
    Vec<Json>)
    ensures
        r.deep_view() == last_items(
            selected(events.deep_view(), kind, session.deep_view()),
            max as nat,
        ),
{
    let ghost models = events.deep_view();
    let ghost wanted = session.deep_view();
    let ghost all = selected(models, kind, wanted);
    let mut start: usize = events.len();
    let mut found: usize = 0;
    proof {
        assert(models.skip(models.len() as int) =~= Seq::empty());
    }
    while start > 0 && (found == 0 || found < max)
        invariant
            start <= events@.len(),
            models == events.deep_view(),
            wanted == session.deep_view(),
            all == selected(models, kind, wanted),
            found <= events@.len() - start,
            found == selected(models.skip(start as int), kind, wanted).len(),
            found <= (if max == 0 {
                1
            } else {
                max as int
            }),
        decreases start,
    {
        let at: usize = start - 1;
        let hit = event_is(&events[at], kind) && session_id_matches(&events[at], session);
        proof {
            let rest = models.skip(at as int);
            lemma_selected_split(rest, kind, wanted, 1);
            assert(rest.skip(1) =~= models.skip(start as int));
            assert(rest.take(1).drop_last() =~= Seq::empty());
            assert(rest.take(1).last() == models[at as int]);
            assert(models[at as int] == events@[at as int].deep_view());
            reveal_with_fuel(selected, 2);
            let one = selected(rest.take(1), kind, wanted);
            assert(one.len() == if hit {
                1int
            } else {
                0int
            });
        }
        if hit {
            found = found + 1;
        }
        start = at;
    }
    let mut out: Vec<Json> = Vec::new();
    let ghost tail = selected(models.skip(start as int), kind, wanted);
    proof {
        lemma_selected_split(models, kind, wanted, start as int);
        if start == 0 {
            assert(models.take(0) =~= Seq::empty());
            assert(Seq::<JsonView>::empty() + tail =~= tail);
        } else {
            let head = selected(models.take(start as int), kind, wanted);
            assert((head + tail).skip(head.len() as int) =~= tail);
            if head.len() == 0 {
                assert(head + tail =~= tail);
            }
        }
        assert(tail == last_items(all, max as nat));
    }
    let mut i: usize = start;
    proof {
        assert(models.subrange(start as int, start as int) =~= Seq::empty());
    }
    while i < events.len()
        invariant
            start <= i <= events@.len(),
            models == events.deep_view(),
            wanted == session.deep_view(),
            out.deep_view() == selected(models.subrange(start as int, i as int), kind, wanted),
        decreases events@.len() - i,
    {
        let ghost done = out.deep_view();
        proof {
            let next = models.subrange(start as int, i + 1);
            assert(next.drop_last() =~= models.subrange(start as int, i as int));
            assert(next.last() == events@[i as int].deep_view());
        }
        if event_is(&events[i], kind) && session_id_matches(&events[i], session) {
            let event = events[i].clone();
            out.push(event);
            assert(out.deep_view() =~= done.push(event.deep_view()));
        }
        i = i + 1;
    }
    assert(models.subrange(start as int, models.len() as int) =~= models.skip(start as int));
    out
}

/// How many events are kept for each session.
pub const MAX_BUFFERED_EVENTS_PER_SESSION: usize = 500;

/// Events by session; those of the browser itself have none.
#[derive(Debug)]
pub struct EventBuffer {
    browser: Vec<Json>,
    by_session: Vec<(String, Vec<Json>)>,
}

/// The model of a buffer; sessions stand in the order in which they first came.
pub struct BufferView {
    pub browser: Seq<JsonView>,
    pub by_session: Seq<(Seq<char>, Seq<JsonView>)>,
}

impl View for EventBuffer {
    type V = BufferView;

    closed spec fn view(&self) -> BufferView {
        BufferView {
            browser: self.browser.deep_view(),
            by_session: self.by_session.deep_view(),
        }
    }
}

/// A queue once an event has come: a full queue drops its oldest one.
pub open spec fn enqueued(queue: Seq<JsonView>, event: JsonView) -> Seq<JsonView> {
    if queue.len() >= MAX_BUFFERED_EVENTS_PER_SESSION {
        queue.drop_first().push(event)
    } else {
        queue.push(event)
    }
}

/// The queue of a session.
pub open spec fn session_queue(
    by_session: Seq<(Seq<char>, Seq<JsonView>)>,
    session: Seq<char>,
) -> Seq<JsonView> {
    match lookup(by_session, session) {
        Some(queue) => queue,
        None => Seq::empty(),
    }
}

/// A buffer once an event has come.
pub open spec fn buffered(buffer: BufferView, event: JsonView) -> BufferView {
    match text_field(event, "sessionId"@) {
        Some(session) => BufferView {
            by_session: put(
                buffer.by_session,
                session,
                enqueued(session_queue(buffer.by_session, session), event),
            ),
            ..buffer
        },
        None => BufferView { browser: enqueued(buffer.browser, event), ..buffer },
    }
}

/// The events of the sessions, session by session.
pub open spec fn session_events(by_session: Seq<(Seq<char>, Seq<JsonView>)>) -> Seq<JsonView>
    decreases by_session.len(),
{
    if by_session.len() == 0 {
        Seq::empty()
    } else {
        session_events(by_session.drop_last()) + by_session.last().1
    }
}

/// Everything that is buffered: the browser's events, then those of each session.
pub open spec fn all_events(buffer: BufferView) -> Seq<JsonView> {
    buffer.browser + session_events(buffer.by_session)
}

/// Whether no queue is over the limit.
pub open spec fn bounded(buffer: BufferView) -> bool {
    &&& buffer.browser.len() <= MAX_BUFFERED_EVENTS_PER_SESSION
    &&& forall|i: int|
        0 <= i < buffer.by_session.len() ==> (#[trigger] buffer.by_session[i]).1.len()
            <= MAX_BUFFERED_EVENTS_PER_SESSION
}

/// No queue ever grows over the limit, an event is the newest of its queue, and the
/// queues of other sessions are untouched.
pub proof fn law_buffer_is_bounded(buffer: BufferView, event: JsonView, other: Seq<char>)
    requires
        bounded(buffer),
    ensures
        bounded(buffered(buffer, event)),
        match text_field(event, "sessionId"@) {
            Some(session) => {
                let queue = session_queue(buffered(buffer, event).by_session, session);
                &&& queue.len() > 0 && queue.last() == event
                &&& other != session ==> session_queue(
                    buffered(buffer, event).by_session,
                    other,
                ) == session_queue(buffer.by_session, other)
                &&& buffered(buffer, event).browser == buffer.browser
            },
            None => {
                let queue = buffered(buffer, event).browser;
                &&& queue.len() > 0 && queue.last() == event
                &&& buffered(buffer, event).by_session == buffer.by_session
            },
        },
{
    if let Some(session) = text_field(event, "sessionId"@) {
        let queue = session_queue(buffer.by_session, session);
        let after = enqueued(queue, event);
        crate::assoc::lemma_lookup_entry(buffer.by_session, session);
        lemma_lookup_after_put(buffer.by_session, session, after, other);
        let sessions = put(buffer.by_session, session, after);
        assert forall|i: int| 0 <= i < sessions.len() implies (#[trigger] sessions[i]).1.len()
            <= MAX_BUFFERED_EVENTS_PER_SESSION by {
            crate::assoc::lemma_put_entries(buffer.by_session, session, after, i);
        }
    }
}

fn enqueue(queue: &mut Vec<Json>, event: Json)
    ensures
        final(queue).deep_view() == enqueued(old(queue).deep_view(), event.deep_view()),
{
    let ghost before = queue.deep_view();
    if queue.len() >= MAX_BUFFERED_EVENTS_PER_SESSION {
        queue.remove(0);
        assert(queue.deep_view() =~= before.drop_first());
    }
    let ghost between = queue.deep_view();
    queue.push(event);
    assert(queue.deep_view() =~= between.push(event.deep_view()));
}

fn append_copies(out: &mut Vec<Json>, queue: &Vec<Json>)
    ensures
        final(out).deep_view() == old(out).deep_view() + queue.deep_view(),
{
    let ghost before = out.deep_view();
    let ghost models = queue.deep_view();
    let mut i: usize = 0;
    assert(before + models.take(0) =~= before);
    while i < queue.len()
        invariant
            i <= queue@.len(),
            models == queue.deep_view(),
            out.deep_view() == before + models.take(i as int),
        decreases queue@.len() - i,
    {
        let ghost done = out.deep_view();
        let event = queue[i].clone();
        out.push(event);
        assert(out.deep_view() =~= done.push(event.deep_view()));
        i = i + 1;
        assert(out.deep_view() =~= before + models.take(i as int));
    }
    assert(models.take(models.len() as int) =~= models);
}

impl EventBuffer {
    /// A buffer without events.
    pub fn new() -> (r: EventBuffer)
        ensures
            r@ == (BufferView { browser: Seq::empty(), by_session: Seq::empty() }),
            bounded(r@),
    {
        let r = EventBuffer { browser: Vec::new(), by_session: Vec::new() };
        assert(r@.browser =~= Seq::empty());
        assert(r@.by_session =~= Seq::empty());
        r
    }

    /// Keeps an event.
    pub fn push(&mut self, event: Json)
        ensures
            final(self)@ == buffered(old(self)@, event.deep_view()),
    {
        let ghost before = self@;
        match read_text(event.get("sessionId")) {
            Some(session) => {
                let none: Vec<Json> = Vec::new();
                proof {
                    let empty = Seq::<JsonView>::empty();
                    assert(none.deep_view() =~= empty);
                    lemma_lookup_after_put(before.by_session, session@, empty, session@);
                    lemma_put_twice(
                        before.by_session,
                        session@,
                        empty,
                        enqueued(empty, event.deep_view()),
                    );
                }
                let known = has(&self.by_session, session.as_str());
                if !known {
                    assign(&mut self.by_session, session.as_str(), none);
                }
                match find_mut(&mut self.by_session, session.as_str()) {
                    Some(queue) => {
                        enqueue(queue, event);
                    },
                    None => {},
                }
            },
            None => {
                enqueue(&mut self.browser, event);
            },
        }
    }

    /// Everything that is buffered.
    pub fn recent_events(&self) -> (r: Vec<Json>)
        ensures
            r.deep_view() == all_events(self@),
    {
        let mut out: Vec<Json> = Vec::new();
        assert(out.deep_view() =~= Seq::empty());
        append_copies(&mut out, &self.browser);
        let ghost sessions = self.by_session.deep_view();
        let mut i: usize = 0;
        proof {
            assert(sessions.take(0) =~= Seq::empty());
            assert(Seq::<JsonView>::empty() + self@.browser =~= self@.browser);
            assert(self@.browser + Seq::<JsonView>::empty() =~= self@.browser);
        }
        while i < self.by_session.len()
            invariant
                i <= self.by_session@.len(),
                sessions == self.by_session.deep_view(),
                out.deep_view() == self@.browser + session_events(sessions.take(i as int)),
            decreases self.by_session@.len() - i,
        {
            append_copies(&mut out, &self.by_session[i].1);
            proof {
                let next = sessions.take(i + 1);
                assert(next.drop_last() =~= sessions.take(i as int));
                let done = session_events(sessions.take(i as int));
                let queue = self.by_session@[i as int].1.deep_view();
                assert(next.last().1 == queue);
                assert(self@.browser + (done + queue) =~= (self@.browser + done) + queue);
            }
            i = i + 1;
        }
        assert(sessions.take(sessions.len() as int) =~= sessions);
        out
    }
}

// ---------------------------------------------------------------------------
// Commands and answers

/// A command as it is sent.
pub open spec fn command_json(
    id: u64,
    session: Option<Seq<char>>,
    method: Seq<char>,
    params: JsonView,
) -> JsonView {
    let members = Seq::empty().push(("id"@, uint_view(id as int))).push(
        ("method"@, JsonView::Text(method)),
    ).push(("params"@, params));
    JsonView::Object(
        match session {
            Some(session) => members.push(("sessionId"@, JsonView::Text(session))),
            None => members,
        },
    )
}

/// What the answer to a command says: its result, or the error in it.
pub open spec fn answer_of(message: JsonView) -> Result<JsonView, CdpErrorView> {
    match field(message, "error"@) {
        Some(error) => Err(
            CdpErrorView::Protocol {
                code: match i64_in(field(error, "code"@)) {
                    Some(code) => code as int,
                    None => -1,
                },
                message: match text_field(error, "message"@) {
                    Some(text) => text,
                    None => "unknown CDP error"@,
                },
            },
        ),
        None => Ok(or_null(field(message, "result"@))),
    }
}

/// What becomes of a message that arrived.
#[derive(Debug)]
pub enum Incoming {
    /// It answers the command of that id, which was waiting.
    Answer { id: u64, result: Result<Json, CdpError> },
    /// It is an event, which is kept.
    Event,
    /// Nobody waits for it.
    Ignored,
}

/// The state of a connection: the next command's id, the commands that wait for an
/// answer, and the events that came.
#[derive(Debug)]
pub struct CdpClient {
    next_id: u64,
    pending: Vec<u64>,
    events: EventBuffer,
}

/// The model of a connection.
pub struct ConnectionView {
    pub next_id: u64,
    pub pending: Set<u64>,
    pub events: BufferView,
}

impl View for CdpClient {
    type V = ConnectionView;

    closed spec fn view(&self) -> ConnectionView {
        ConnectionView {
            next_id: self.next_id,
            pending: self.pending@.to_set(),
            events: self.events@,
        }
    }
}

/// A connection once a message has arrived. The answer to a waiting command ends the
/// wait; what has no id but a method is an event.
pub open spec fn received(connection: ConnectionView, message: JsonView) -> ConnectionView {
    match u64_in(field(message, "id"@)) {
        Some(id) => ConnectionView { pending: connection.pending.remove(id), ..connection },
        None => if field(message, "method"@) is Some {
            ConnectionView { events: buffered(connection.events, message), ..connection }
        } else {
            connection
        },
    }
}

fn drop_number(numbers: &mut Vec<u64>, number: u64) -> (r: bool)
    ensures
        r == old(numbers)@.to_set().contains(number),
        final(numbers)@.to_set() == old(numbers)@.to_set().remove(number),
{
    let ghost before = numbers@;
    let mut kept: Vec<u64> = Vec::new();
    let mut found = false;
    let mut i: usize = 0;
    while i < numbers.len()
        invariant
            i <= numbers@.len(),
            numbers@ == before,
            found == before.take(i as int).contains(number),
            forall|n: u64| #[trigger]
                kept@.contains(n) <==> n != number && before.take(i as int).contains(n),
        decreases numbers@.len() - i,
    {
        let next: u64 = numbers[i];
        let ghost done = kept@;
        proof {
            let old_part = before.take(i as int);
            let new_part = before.take(i + 1);
            assert(new_part =~= old_part.push(next));
            assert forall|n: u64| #[trigger] new_part.contains(n) <==> old_part.contains(n) || n
                == next by {
                if new_part.contains(n) {
                    let j = choose|j: int| 0 <= j < new_part.len() && new_part[j] == n;
                    if j < old_part.len() {
                        assert(old_part[j] == n);
                    }
                }
                if old_part.contains(n) {
                    let j = choose|j: int| 0 <= j < old_part.len() && old_part[j] == n;
                    assert(new_part[j] == n);
                }
                if n == next {
                    assert(new_part[i as int] == n);
                }
            }
        }
        if next == number {
            found = true;
        } else {
            kept.push(next);
            proof {
                assert forall|n: u64| #[trigger] kept@.contains(n) <==> done.contains(n) || n
                    == next by {
                    if kept@.contains(n) {
                        let j = choose|j: int| 0 <= j < kept@.len() && kept@[j] == n;
                        if j < done.len() {
                            assert(done[j] == n);
                        }
                    }
                    if done.contains(n) {
                        let j = choose|j: int| 0 <= j < done.len() && done[j] == n;
                        assert(kept@[j] == n);
                    }
                    if n == next {
                        assert(kept@[kept@.len() - 1] == n);
                    }
                }
            }
        }
        i = i + 1;
    }
    proof {
        assert(before.take(before.len() as int) =~= before);
        assert(kept@.to_set() =~= before.to_set().remove(number));
    }
    *numbers = kept;
    found
}

impl CdpClient {
    /// A connection over which nothing was sent yet.
    pub fn new() -> (r: CdpClient)
        ensures
            r@ == (ConnectionView {
                next_id: 0,
                pending: Set::empty(),
                events: BufferView { browser: Seq::empty(), by_session: Seq::empty() },
            }),
    {
        let r = CdpClient { next_id: 0, pending: Vec::new(), events: EventBuffer::new() };
        assert(r@.pending =~= Set::empty());
        r
    }

    /// Makes a command, which then waits for its answer; its id and what to send.
    pub fn send_command_with_session(
        &mut self,
        session: Option<&str>,
        method: &str,
        params: Json,
    ) -> (r: (u64, Json))
        ensures
            r.0 == old(self)@.next_id,
            r.1.deep_view() == command_json(
                r.0,
                session.deep_view(),
                method@,
                params.deep_view(),
            ),
            final(self)@ == (ConnectionView {
                next_id: ((old(self)@.next_id + 1) % 0x1_0000_0000_0000_0000) as u64,
                pending: old(self)@.pending.insert(r.0),
                ..old(self)@
            }),
    {
        let ghost before = self.pending@;
        let id = self.next_id;
        self.next_id = id.wrapping_add(1);
        self.pending.push(id);
        proof {
            assert(before.push(id).to_set() =~= before.to_set().insert(id)) by {
                assert forall|n: u64| #[trigger] before.push(id).contains(n) <==> before.contains(
                    n,
                ) || n == id by {
                    if before.push(id).contains(n) {
                        let j = choose|j: int|
                            0 <= j < before.push(id).len() && before.push(id)[j] == n;
                        if j < before.len() {
                            assert(before[j] == n);
                        }
                    }
                    if before.contains(n) {
                        let j = choose|j: int| 0 <= j < before.len() && before[j] == n;
                        assert(before.push(id)[j] == n);
                    }
                    if n == id {
                        assert(before.push(id)[before.len() as int] == n);
                    }
                }
            }
        }
        let fields = Fields::new().with("id", uint(id)).with("method", text(method)).with(
            "params",
            params,
        );
        match session {
            Some(session) => (id, fields.with("sessionId", text(session)).object()),
            None => (id, fields.object()),
        }
    }

    /// Makes a command for the browser itself, which then waits for its answer; its id and
    /// what to send.
    pub fn send_command(&mut self, method: &str, params: Json) -> (r: (u64, Json))
        ensures
            r.0 == old(self)@.next_id,
            r.1.deep_view() == command_json(r.0, None, method@, params.deep_view()),
            final(self)@ == (ConnectionView {
                next_id: ((old(self)@.next_id + 1) % 0x1_0000_0000_0000_0000) as u64,
                pending: old(self)@.pending.insert(r.0),
                ..old(self)@
            }),
    {
        self.send_command_with_session(None, method, params)
    }

    /// Gives a command up that could not be sent; what its sender is told.
    pub fn abandon(&mut self, id: u64) -> (r: CdpError)
        ensures
            final(self)@ == (ConnectionView {
                pending: old(self)@.pending.remove(id),
                ..old(self)@
            }),
            r@ == (CdpErrorView::Other {
                message: "failed to send CDP command: connection closed"@,
            }),
    {
        drop_number(&mut self.pending, id);
        CdpError::Other { message: "failed to send CDP command: connection closed".to_owned() }
    }

    /// Takes a message that arrived.
    pub fn receive(&mut self, message: Json) -> (r: Incoming)
        ensures
            final(self)@ == received(old(self)@, message.deep_view()),
            match u64_in(field(message.deep_view(), "id"@)) {
                Some(id) => if old(self)@.pending.contains(id) {
                    r matches Incoming::Answer { id: answered, result } && answered == id
                        && match answer_of(message.deep_view()) {
                        Ok(value) => result matches Ok(v) && v.deep_view() == value,
                        Err(error) => result matches Err(e) && e@ == error,
                    }
                } else {
                    r is Ignored
                },
                None => if field(message.deep_view(), "method"@) is Some {
                    r is Event
                } else {
                    r is Ignored
                },
            },
    {
        match read_u64(message.get("id")) {
            Some(id) => {
                if !drop_number(&mut self.pending, id) {
                    return Incoming::Ignored;
                }
                let result = match message.get("error") {
                    Some(error) => {
                        let code: i64 = match error.get("code") {
                            Some(code) => match code.as_i64() {
                                Some(code) => code,
                                None => -1,
                            },
                            None => -1,
                        };
                        let message = match read_text(error.get("message")) {
                            Some(text) => text,
                            None => "unknown CDP error".to_owned(),
                        };
                        Err(CdpError::Protocol { code, message })
                    },
                    None => Ok(copy_or_null(message.get("result"))),
                };
                Incoming::Answer { id, result }
            },
            None => {
                if message.get("method").is_some() {
                    self.events.push(message);
                    Incoming::Event
                } else {
                    Incoming::Ignored
                }
            },
        }
    }

    /// Ends the connection: the commands that were waiting, each to be told that the
    /// connection is closed.
    pub fn close(&mut self) -> (r: Vec<u64>)
        ensures
            r@.to_set() == old(self)@.pending,
            final(self)@ == (ConnectionView { pending: Set::empty(), ..old(self)@ }),
    {
        let mut waiting: Vec<u64> = Vec::new();
        std::mem::swap(&mut waiting, &mut self.pending);
        assert(self.pending@.to_set() =~= Set::empty());
        waiting
    }

    /// Everything that is buffered, without taking it out.
    pub fn recent_events(&self) -> (r: Vec<Json>)
        ensures
            r.deep_view() == all_events(self@.events),
    {
        self.events.recent_events()
    }
}

/// What a command is told whose answer the end of the connection cut off.
pub fn connection_closed() -> (r: CdpError)
    ensures
        r@ == (CdpErrorView::Other { message: "CDP connection closed"@ }),
{
    CdpError::Other { message: "CDP connection closed".to_owned() }
}

/// A command is answered at most once: after its answer its id is not waited for, and
/// an event or an answer to another command leaves it waiting.
pub proof fn law_answered_once(connection: ConnectionView, message: JsonView, id: u64)
    ensures
        u64_in(field(message, "id"@)) == Some(id) ==> !received(
            connection,
            message,
        ).pending.contains(id),
        u64_in(field(message, "id"@)) != Some(id) ==> received(connection, message).pending.contains(
            id,
        ) == connection.pending.contains(id),
{
}

// ---------------------------------------------------------------------------
// What is asked for and what comes

/// There is somewhere to connect to exactly where a URL has both a host and a port, and it
/// is there.
pub proof fn law_endpoint_is_host_and_port(host: Option<Seq<char>>, port: Option<u16>)
    ensures
        endpoint_of(Some((host, port))) is Ok <==> host is Some && port is Some,
        endpoint_of(Some((host, port))) matches Ok((h, p)) ==> Some(h) == host && Some(p) == port,
        endpoint_of(None) is Err,
{
}

/// An event of the console says `Runtime.consoleAPICalled` for its method, a request that
/// waits says `Fetch.requestPaused`, and one of the network begins with `Network.`; what has
/// no method is of no kind. No event is of two kinds.
pub proof fn law_events_are_told_by_method(event: JsonView, kind: EventKind, other: EventKind)
    ensures
        text_in(field(event, "method"@)) matches Some(method) ==> {
            &&& is_kind(event, EventKind::Console) <==> method == "Runtime.consoleAPICalled"@
            &&& is_kind(event, EventKind::Network) <==> begins_with(method, "Network."@)
            &&& is_kind(event, EventKind::RequestPaused) <==> method == "Fetch.requestPaused"@
        },
        field(event, "method"@) is None ==> !is_kind(event, kind),
        is_kind(event, kind) && is_kind(event, other) ==> kind == other,
{
    reveal_strlit("Runtime.consoleAPICalled");
    reveal_strlit("Fetch.requestPaused");
    reveal_strlit("Network.");
    let console = "Runtime.consoleAPICalled"@;
    let paused = "Fetch.requestPaused"@;
    assert(console[0] == 'R' && paused[0] == 'F' && "Network."@[0] == 'N');
    assert(begins_with(console, "Network."@) ==> console.take(8)[0] == console[0]);
    assert(begins_with(paused, "Network."@) ==> paused.take(8)[0] == paused[0]);
}

/// An event that comes is selected where it is of the kind and of the session that is asked
/// for, behind those that came before it, and is otherwise left out.
pub proof fn law_events_are_selected_in_order(
    events: Seq<JsonView>,
    event: JsonView,
    kind: EventKind,
    session: Seq<char>,
)
    ensures
        selected(Seq::empty(), kind, Some(session)) == Seq::<JsonView>::empty(),
        selected(events.push(event), kind, None) == if is_kind(event, kind) {
            selected(events, kind, None).push(event)
        } else {
            selected(events, kind, None)
        },
        selected(events.push(event), kind, Some(session)) == if is_kind(event, kind) && text_in(
            field(event, "sessionId"@),
        ) == Some(session) {
            selected(events, kind, Some(session)).push(event)
        } else {
            selected(events, kind, Some(session))
        },
{
    assert(events.push(event).drop_last() =~= events);
}

/// Of many items the last are kept, in order, as many as asked for and at least one.
pub proof fn law_last_items_are_the_last<T>(items: Seq<T>, max: nat, i: int)
    ensures
        last_items(items, max).len() <= items.len(),
        last_items(items, max).len() <= max || last_items(items, max).len() == 1,
        items.len() > 0 && last_items(items, max).len() < items.len() ==> last_items(
            items,
            max,
        ).len() >= max,
        items.len() > 0 ==> last_items(items, max).len() > 0,
        1 <= i <= last_items(items, max).len() ==> last_items(items, max)[last_items(
            items,
            max,
        ).len() - i] == items[items.len() - i],
{
}

/// A queue that is not full keeps all it has; a full one gives up its oldest event alone.
pub proof fn law_oldest_event_makes_way(queue: Seq<JsonView>, event: JsonView, i: int)
    requires
        0 <= i < queue.len(),
    ensures
        queue.len() < 500 ==> enqueued(queue, event).len() == queue.len() + 1 && enqueued(
            queue,
            event,
        )[i] == queue[i],
        queue.len() == 500 ==> enqueued(queue, event).len() == 500 && (i > 0 ==> enqueued(
            queue,
            event,
        )[i - 1] == queue[i]),
        enqueued(queue, event).last() == event,
{
}

/// Every event that is kept is among all the events: those of the browser and those of each
/// session.
pub proof fn law_all_events_are_there(buffer: BufferView, at: int, i: int)
    requires
        0 <= at < buffer.by_session.len(),
        0 <= i < buffer.by_session[at].1.len(),
    ensures
        all_events(buffer).contains(buffer.by_session[at].1[i]),
        forall|j: int|
            0 <= j < buffer.browser.len() ==> #[trigger] all_events(buffer)[j] == buffer.browser[j],
{
    lemma_session_events(buffer.by_session, at, i);
    let rest = session_events(buffer.by_session);
    let k = choose|k: int| 0 <= k < rest.len() && rest[k] == buffer.by_session[at].1[i];
    assert(all_events(buffer)[buffer.browser.len() + k] == rest[k]);
}

proof fn lemma_session_events(by_session: Seq<(Seq<char>, Seq<JsonView>)>, at: int, i: int)
    requires
        0 <= at < by_session.len(),
        0 <= i < by_session[at].1.len(),
    ensures
        session_events(by_session).contains(by_session[at].1[i]),
    decreases by_session.len(),
{
    let front = session_events(by_session.drop_last());
    if at == by_session.len() - 1 {
        assert(session_events(by_session)[front.len() + i] == by_session[at].1[i]);
    } else {
        lemma_session_events(by_session.drop_last(), at, i);
        let k = choose|k: int| 0 <= k < front.len() && front[k] == by_session[at].1[i];
        assert(session_events(by_session)[k] == front[k]);
    }
}

/// A command is written with its id, its method and its parameters, and with the session it
/// is for where it is for one.
pub proof fn law_commands_are_written_by_name(
    id: u64,
    session: Option<Seq<char>>,
    method: Seq<char>,
    params: JsonView,
)
    ensures
        u64_in(field(command_json(id, session, method, params), "id"@)) == Some(id),
        text_in(field(command_json(id, session, method, params), "method"@)) == Some(method),
        field(command_json(id, session, method, params), "params"@) == Some(params),
        text_in(field(command_json(id, session, method, params), "sessionId"@)) == session,
{
    reveal_strlit("id");
    reveal_strlit("method");
    reveal_strlit("params");
    reveal_strlit("sessionId");
    assert("id"@[0] == 'i' && "method"@[0] == 'm' && "params"@[0] == 'p' && "sessionId"@[0] == 's');
    if let JsonView::Object(members) = command_json(id, session, method, params) {
        assert(members[0].0 == "id"@ && members[1].0 == "method"@ && members[2].0 == "params"@);
        lemma_lookup_first(members, 0);
        lemma_lookup_first(members, 1);
        lemma_lookup_first(members, 2);
        if session is Some {
            assert(members[3].0 == "sessionId"@);
            lemma_lookup_first(members, 3);
        } else {
            lemma_lookup_entry(members, "sessionId"@);
        }
    }
}

/// An answer without an error gives its result, and one with an error gives that error, by
/// its code and message.
pub proof fn law_answers_are_read_by_name(message: JsonView)
    ensures
        field(message, "error"@) is None ==> (field(message, "result"@) matches Some(result)
            ==> answer_of(message) matches Ok(value) && value == result),
        field(message, "error"@) is None && field(message, "result"@) is None ==> (answer_of(
            message,
        ) matches Ok(value) && value == JsonView::Null),
        field(message, "error"@) matches Some(error) ==> {
            &&& answer_of(message) matches Err(CdpErrorView::Protocol { code, message: said })
            &&& i64_in(field(error, "code"@)) matches Some(n) ==> code == n
            &&& field(error, "code"@) is None ==> code == -1
            &&& text_in(field(error, "message"@)) matches Some(text) ==> said == text
        },
{
}

/// What arrives without an id but with a method is an event and is kept; an answer is not
/// kept as an event, and nothing that arrives changes which id comes next.
pub proof fn law_events_are_kept_and_answers_are_not(connection: ConnectionView, message: JsonView)
    ensures
        received(connection, message).next_id == connection.next_id,
        u64_in(field(message, "id"@)) is Some ==> received(connection, message).events
            == connection.events,
        field(message, "id"@) is None ==> received(connection, message).pending
            == connection.pending,
        field(message, "id"@) is None && field(message, "method"@) is Some && field(
            message,
            "sessionId"@,
        ) is None ==> {
            let queue = received(connection, message).events.browser;
            queue.len() > 0 && queue.last() == message
        },
        field(message, "id"@) is None && field(message, "method"@) is None ==> received(
            connection,
            message,
        ) == connection,
{
}

/// An error of the protocol is told with its code and its message, and any other as it is.
pub proof fn law_error_tells_code_and_message(error: CdpErrorView)
    ensures
        error matches CdpErrorView::Protocol { code, message } ==> {
            &&& occurs(cdp_error_text(error), signed_decimal(code))
            &&& occurs(cdp_error_text(error), ": "@ + message)
        },
        error matches CdpErrorView::Other { message } ==> cdp_error_text(error) == message,
{
    if let CdpErrorView::Protocol { code, message } = error {
        let text = cdp_error_text(error);
        let digits = signed_decimal(code);
        let front = "CDP error "@;
        let said = ": "@ + message;
        assert(text =~= front + digits + said);
        lemma_occurs_between(text, front, digits, said);
        assert(text =~= (front + digits) + said + Seq::<char>::empty());
        lemma_occurs_between(text, front + digits, said, Seq::empty());
    }
}

/// A URL that lacks its host is told so, and one that lacks its port is told that; one that is
/// no URL is told neither.
pub proof fn law_endpoint_error_names_what_is_missing(host: Seq<char>, port: Option<u16>)
    ensures
        endpoint_of(Some((None, port))) matches Err(error) && occurs(error, "no host"@),
        endpoint_of(Some((Some(host), None))) matches Err(error) && occurs(error, "no port"@),
        endpoint_of(None) matches Err(error) && begins_with(error, "invalid"@),
{
    reveal_strlit("no host");
    reveal_strlit("no port");
    reveal_strlit("invalid");
    let text = "CDP websocket url has no host"@;
    reveal_strlit("CDP websocket url has no host");
    assert(text.subrange(22, 29) =~= "no host"@);
    assert(occurs_at(text, "no host"@, 22));
    let text = "CDP websocket url has no port"@;
    reveal_strlit("CDP websocket url has no port");
    assert(text.subrange(22, 29) =~= "no port"@);
    assert(occurs_at(text, "no port"@, 22));
    let text = "invalid CDP websocket url"@;
    reveal_strlit("invalid CDP websocket url");
    assert(text.take(7) =~= "invalid"@);
}

} // verus!
