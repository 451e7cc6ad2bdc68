//! The local bus that carries thread content between running instances.
//!
//! One process is the hub and the others connect to it as clients. The hub gives
//! every operation a sequence number and sends it to all clients, the one it came
//! from included; each instance drops its own echoes, so all of them apply the same
//! operations in the same order.

use vstd::prelude::*;
use crate::digits::{decimal, decimal_text};
use crate::ids::{is_id_text, new_id};
use crate::message::UserMessage;
use crate::text::same;

verus! {

// ---------------------------------------------------------------------------
// Operations

/// A part of a streamed answer.
#[derive(Debug)]
pub enum ThreadSyncStreamEvent {
    Text(String),
    Thinking { text: String, signature: Option<String> },
    Stop(String),
}

/// An operation on the shared log of threads. `client_id` is the process it comes
/// from, `op_id` is its own.
#[derive(Debug)]
pub enum ThreadSyncMessage {
    Stream {
        session_id: String,
        client_id: String,
        op_id: String,
        event: ThreadSyncStreamEvent,
    },
    /// A user message appended to a thread.
    UserMessage { session_id: String, client_id: String, op_id: String, message: UserMessage },
    /// A turn is in the thread's saved form.
    TurnComplete { session_id: String, client_id: String, op_id: String },
    /// A message from one thread to another.
    AgentMessage {
        from_session: String,
        to_session: String,
        client_id: String,
        op_id: String,
        body: String,
    },
    /// A thread has a new title.
    TitleChanged { session_id: String, client_id: String, op_id: String, title: String },
}

/// The process that an operation comes from.
pub open spec fn author(message: ThreadSyncMessage) -> Seq<char> {
    match message {
        ThreadSyncMessage::Stream { client_id, .. } => client_id@,
        ThreadSyncMessage::UserMessage { client_id, .. } => client_id@,
        ThreadSyncMessage::TurnComplete { client_id, .. } => client_id@,
        ThreadSyncMessage::AgentMessage { client_id, .. } => client_id@,
        ThreadSyncMessage::TitleChanged { client_id, .. } => client_id@,
    }
}

impl ThreadSyncMessage {
    /// The process that the operation comes from.
    pub fn client_id(&self) -> (r: &str)
        ensures
            r@ == author(*self),
    {
        match self {
            ThreadSyncMessage::Stream { client_id, .. } => client_id.as_str(),
            ThreadSyncMessage::UserMessage { client_id, .. } => client_id.as_str(),
            ThreadSyncMessage::TurnComplete { client_id, .. } => client_id.as_str(),
            ThreadSyncMessage::AgentMessage { client_id, .. } => client_id.as_str(),
            ThreadSyncMessage::TitleChanged { client_id, .. } => client_id.as_str(),
        }
    }
}

/// An operation and the number that the hub gave it.
#[derive(Debug)]
pub struct ThreadSyncEnvelope {
    pub seq: u64,
    pub message: ThreadSyncMessage,
}

/// What an instance is told.
#[derive(Debug)]
pub enum ThreadSyncBusEvent {
    Message(ThreadSyncEnvelope),
}

// ---------------------------------------------------------------------------
// An instance

/// An instance's end of the bus.
#[derive(Debug)]
pub struct ThreadSyncBus {
    client_id: String,
}

impl ThreadSyncBus {
    /// The id that this instance's operations carry.
    pub closed spec fn identity(&self) -> Seq<char> {
        self.client_id@
    }

    /// An instance with a new random id.
    pub fn new() -> (r: ThreadSyncBus)
        ensures
            is_id_text(r.identity()),
    {
        ThreadSyncBus { client_id: new_id() }
    }

    /// An instance with that id.
    pub fn with_id(client_id: String) -> (r: ThreadSyncBus)
        ensures
            r.identity() == client_id@,
    {
        ThreadSyncBus { client_id }
    }

    /// The operation that publishes a part of a streamed answer.
    pub fn broadcast_stream(&self, session_id: String, event: ThreadSyncStreamEvent) -> (r:
        ThreadSyncMessage)
        ensures
            r matches ThreadSyncMessage::Stream { session_id: s, client_id, op_id, event: e } && s
                == session_id && client_id@ == self.identity() && is_id_text(op_id@) && e == event,
    {
        ThreadSyncMessage::Stream {
            session_id,
            client_id: self.client_id.clone(),
            op_id: new_id(),
            event,
        }
    }

    /// The operation that publishes a user message.
    pub fn broadcast_user_message(&self, session_id: String, message: UserMessage) -> (r:
        ThreadSyncMessage)
        ensures
            r matches ThreadSyncMessage::UserMessage { session_id: s, client_id, op_id, message: m }
                && s == session_id && client_id@ == self.identity() && is_id_text(op_id@) && m
                == message,
    {
        ThreadSyncMessage::UserMessage {
            session_id,
            client_id: self.client_id.clone(),
            op_id: new_id(),
            message,
        }
    }

    /// The operation that publishes the end of a turn.
    pub fn broadcast_turn_complete(&self, session_id: String) -> (r: ThreadSyncMessage)
        ensures
            r matches ThreadSyncMessage::TurnComplete { session_id: s, client_id, op_id } && s
                == session_id && client_id@ == self.identity() && is_id_text(op_id@),
    {
        ThreadSyncMessage::TurnComplete {
            session_id,
            client_id: self.client_id.clone(),
            op_id: new_id(),
        }
    }

    /// The operation that publishes a message from one thread to another.
    pub fn broadcast_agent_message(
        &self,
        from_session: String,
        to_session: String,
        body: String,
    ) -> (r: ThreadSyncMessage)
        ensures
            r matches ThreadSyncMessage::AgentMessage {
                from_session: f,
                to_session: t,
                client_id,
                op_id,
                body: b,
            } && f == from_session && t == to_session && client_id@ == self.identity()
                && is_id_text(op_id@) && b == body,
    {
        ThreadSyncMessage::AgentMessage {
            from_session,
            to_session,
            client_id: self.client_id.clone(),
            op_id: new_id(),
            body,
        }
    }

    /// The operation that publishes a thread's new title.
    pub fn broadcast_title_changed(&self, session_id: String, title: String) -> (r:
        ThreadSyncMessage)
        ensures
            r matches ThreadSyncMessage::TitleChanged { session_id: s, client_id, op_id, title: t }
                && s == session_id && client_id@ == self.identity() && is_id_text(op_id@) && t
                == title,
    {
        ThreadSyncMessage::TitleChanged {
            session_id,
            client_id: self.client_id.clone(),
            op_id: new_id(),
            title,
        }
    }

    /// What an envelope that arrives is passed on as. An echo of this instance's own
    /// operation is dropped: it was applied when it was made.
    pub fn receive(&self, envelope: ThreadSyncEnvelope) -> (r: Option<ThreadSyncBusEvent>)
        ensures
            r == (if author(envelope.message) == self.identity() {
                None
            } else {
                Some(ThreadSyncBusEvent::Message(envelope))
            }),
    {
        if same(envelope.message.client_id(), self.client_id.as_str()) {
            None
        } else {
            Some(ThreadSyncBusEvent::Message(envelope))
        }
    }
}

// ---------------------------------------------------------------------------
// The hub

/// The state of the hub: the shared secret, the next sequence number, and the
/// clients that have shown that they know the secret.
#[derive(Debug)]
pub struct ThreadSyncHub {
    secret: String,
    next_seq: u64,
    next_client_id: u64,
    clients: Vec<u64>,
}

/// The model of the hub.
pub struct HubView {
    pub secret: Seq<char>,
    pub next_seq: int,
    pub next_client_id: int,
    pub clients: Seq<u64>,
}

impl View for ThreadSyncHub {
    type V = HubView;

    closed spec fn view(&self) -> HubView {
        HubView {
            secret: self.secret@,
            next_seq: self.next_seq as int,
            next_client_id: self.next_client_id as int,
            clients: self.clients@,
        }
    }
}

/// The number after `n`; after the last one the numbers begin anew.
pub open spec fn number_after(n: int) -> int {
    (n + 1) % 0x1_0000_0000_0000_0000
}

/// The hub once it has numbered an operation.
pub open spec fn hub_after_publish(hub: HubView) -> HubView {
    HubView { next_seq: number_after(hub.next_seq), ..hub }
}

/// The hub once it has let a client in.
pub open spec fn hub_after_welcome(hub: HubView) -> HubView {
    HubView {
        next_client_id: number_after(hub.next_client_id),
        clients: hub.clients.push(hub.next_client_id as u64),
        ..hub
    }
}

/// Whether every client that was let in has a number below the next one, each its own.
pub open spec fn valid_hub(hub: HubView) -> bool {
    &&& forall|i: int| 0 <= i < hub.clients.len() ==> #[trigger] hub.clients[i] < hub.next_client_id
    &&& forall|i: int, j: int|
        0 <= i < j < hub.clients.len() ==> #[trigger] hub.clients[i] != #[trigger] hub.clients[j]
}

/// An operation that the hub has numbered, and who it goes to.
#[derive(Debug)]
pub struct Delivery {
    pub envelope: ThreadSyncEnvelope,
    /// Whether the hub's own instance is told.
    pub local: bool,
    /// The clients that are told.
    pub clients: Vec<u64>,
}

fn copied(numbers: &Vec<u64>) -> (r: Vec<u64>)
    ensures
        r@ == numbers@,
{
    let mut out: Vec<u64> = Vec::new();
    let mut i: usize = 0;
    while i < numbers.len()
        invariant
            i <= numbers@.len(),
            out@ == numbers@.take(i as int),
        decreases numbers@.len() - i,
    {
        out.push(numbers[i]);
        i = i + 1;
        assert(out@ =~= numbers@.take(i as int));
    }
    assert(out@ =~= numbers@);
    out
}

impl ThreadSyncHub {
    /// A hub without clients.
    pub fn new(secret: String) -> (r: ThreadSyncHub)
        ensures
            r@ == (HubView {
                secret: secret@,
                next_seq: 0,
                next_client_id: 0,
                clients: Seq::empty(),
            }),
            valid_hub(r@),
    {
        let r = ThreadSyncHub { secret, next_seq: 0, next_client_id: 0, clients: Vec::new() };
        assert(r@.clients =~= Seq::empty());
        r
    }

    /// Lets a client in that says the shared secret; its number.
    pub fn welcome(&mut self, secret: &str) -> (r: Option<u64>)
        ensures
            if secret@ == old(self)@.secret {
                &&& r == Some(old(self)@.next_client_id as u64)
                &&& final(self)@ == hub_after_welcome(old(self)@)
            } else {
                &&& r is None
                &&& final(self)@ == old(self)@
            },
    {
        if !same(secret, self.secret.as_str()) {
            return None;
        }
        let ghost before = self@;
        let number = self.next_client_id;
        self.next_client_id = number.wrapping_add(1);
        self.clients.push(number);
        proof {
            assert(self@.clients =~= before.clients.push(number));
        }
        Some(number)
    }

    /// Numbers an operation of the hub's own instance. It goes to every client; the
    /// instance itself has applied it.
    pub fn publish(&mut self, message: ThreadSyncMessage) -> (r: Delivery)
        ensures
            final(self)@ == hub_after_publish(old(self)@),
            r.envelope.seq == old(self)@.next_seq,
            r.envelope.message == message,
            !r.local,
            r.clients@ == old(self)@.clients,
    {
        let seq = self.next_seq;
        self.next_seq = seq.wrapping_add(1);
        Delivery {
            envelope: ThreadSyncEnvelope { seq, message },
            local: false,
            clients: copied(&self.clients),
        }
    }

    /// Numbers an operation of a client. It goes to the hub's own instance and to
    /// every client, the one it came from included.
    pub fn relay(&mut self, message: ThreadSyncMessage) -> (r: Delivery)
        ensures
            final(self)@ == hub_after_publish(old(self)@),
            r.envelope.seq == old(self)@.next_seq,
            r.envelope.message == message,
            r.local,
            r.clients@ == old(self)@.clients,
    {
        let seq = self.next_seq;
        self.next_seq = seq.wrapping_add(1);
        Delivery {
            envelope: ThreadSyncEnvelope { seq, message },
            local: true,
            clients: copied(&self.clients),
        }
    }
}

/// The hub after `count` operations.
pub open spec fn hub_after(hub: HubView, count: nat) -> HubView
    decreases count,
{
    if count == 0 {
        hub
    } else {
        hub_after_publish(hub_after(hub, (count - 1) as nat))
    }
}

/// Operations are numbered one after the other, whichever instance they come from,
/// so later operations have larger numbers until the numbers begin anew. The clients
/// that they go to are the same.
pub proof fn law_operations_are_totally_ordered(hub: HubView, earlier: nat, later: nat)
    requires
        0 <= hub.next_seq,
        earlier < later,
        hub.next_seq + later < 0x1_0000_0000_0000_0000,
    ensures
        hub_after(hub, earlier).next_seq == hub.next_seq + earlier,
        hub_after(hub, earlier).next_seq < hub_after(hub, later).next_seq,
        hub_after(hub, later).clients == hub.clients,
    decreases later,
{
    lemma_hub_after(hub, earlier);
    lemma_hub_after(hub, later);
}

proof fn lemma_hub_after(hub: HubView, count: nat)
    requires
        0 <= hub.next_seq,
        hub.next_seq + count < 0x1_0000_0000_0000_0000,
    ensures
        hub_after(hub, count) == (HubView { next_seq: hub.next_seq + count, ..hub }),
    decreases count,
{
    if count > 0 {
        lemma_hub_after(hub, (count - 1) as nat);
    }
}

/// Letting a client in keeps the clients' numbers distinct, up to the last number.
pub proof fn law_clients_have_their_own_numbers(hub: HubView)
    requires
        valid_hub(hub),
        0 <= hub.next_client_id < 0xffff_ffff_ffff_ffff,
    ensures
        valid_hub(hub_after_welcome(hub)),
        valid_hub(hub_after_publish(hub)),
{
    let after = hub_after_welcome(hub);
    assert forall|i: int| 0 <= i < after.clients.len() implies #[trigger] after.clients[i]
        < after.next_client_id by {
        if i < hub.clients.len() {
            assert(after.clients[i] == hub.clients[i]);
        }
    }
    assert forall|i: int, j: int| 0 <= i < j < after.clients.len() implies #[trigger] after.clients[i]
        != #[trigger] after.clients[j] by {
        assert(after.clients[i] == hub.clients[i]);
        if j < hub.clients.len() {
            assert(after.clients[j] == hub.clients[j]);
        }
    }
}

// ---------------------------------------------------------------------------
// Frames

/// The most bytes that a frame may hold.
pub const MAX_FRAME_LEN: usize = 16_777_216;

/// A number's four bytes, lowest first.
pub open spec fn little_endian(n: int) -> Seq<u8> {
    seq![
        (n % 256) as u8,
        ((n / 256) % 256) as u8,
        ((n / 65536) % 256) as u8,
        ((n / 16777216) % 256) as u8,
    ]
}

/// The number that four bytes stand for, lowest first.
pub open spec fn from_little_endian(bytes: Seq<u8>) -> int {
    bytes[0] + 256 * bytes[1] + 65536 * bytes[2] + 16777216 * bytes[3]
}

/// A frame: the length of the payload in four bytes, then the payload.
pub open spec fn frame(payload: Seq<u8>) -> Seq<u8> {
    little_endian(payload.len() as int) + payload
}

/// What a frame's header says: how many bytes follow, or that they are too many.
pub open spec fn announced(header: Seq<u8>) -> Result<int, Seq<char>> {
    let length = from_little_endian(header);
    if length > MAX_FRAME_LEN {
        Err("sync frame too large: "@ + decimal(length as nat) + " bytes"@)
    } else {
        Ok(length)
    }
}

/// The frame of a payload. Of the length the lowest four bytes are written.
pub fn encode_frame(payload: &Vec<u8>) -> (r: Vec<u8>)
    ensures
        r@ == frame(payload@),
{
    let length: usize = payload.len();
    let mut out: Vec<u8> = Vec::new();
    out.push((length % 256) as u8);
    out.push(((length / 256) % 256) as u8);
    out.push(((length / 65536) % 256) as u8);
    out.push(((length / 16777216) % 256) as u8);
    assert(out@ =~= little_endian(length as int));
    let mut i: usize = 0;
    while i < payload.len()
        invariant
            i <= payload@.len(),
            length == payload@.len(),
            out@ == little_endian(length as int) + payload@.take(i as int),
        decreases payload@.len() - i,
    {
        out.push(payload[i]);
        i = i + 1;
        assert(out@ =~= little_endian(length as int) + payload@.take(i as int));
    }
    assert(payload@.take(payload@.len() as int) =~= payload@);
    out
}

/// How many bytes follow a frame's header; an error where they are too many.
pub fn frame_len(header: [u8; 4]) -> (r: Result<usize, String>)
    ensures
        match announced(header@) {
            Ok(length) => r matches Ok(n) && n == length,
            Err(text) => r matches Err(error) && error@ == text,
        },
{
    let length: u64 = header[0] as u64 + 256 * (header[1] as u64) + 65536 * (header[2] as u64)
        + 16777216 * (header[3] as u64);
    if length > MAX_FRAME_LEN as u64 {
        let mut error = "sync frame too large: ".to_owned();
        error.append(decimal_text(length).as_str());
        error.append(" bytes");
        Err(error)
    } else {
        Ok(length as usize)
    }
}

/// Reading a frame gives back the payload that was written, wherever the payload is
/// not too large; and one too large by up to four bytes' range is announced as such.
pub proof fn law_frame_round_trip(payload: Seq<u8>)
    ensures
        payload.len() <= MAX_FRAME_LEN ==> announced(frame(payload).take(4)) == Ok::<
            int,
            Seq<char>,
        >(payload.len() as int),
        frame(payload).skip(4) == payload,
        MAX_FRAME_LEN < payload.len() < 0x1_0000_0000 ==> announced(frame(payload).take(4)) is Err,
{
    let n = payload.len() as int;
    assert(frame(payload).take(4) =~= little_endian(n));
    assert(frame(payload).skip(4) =~= payload);
    if n < 0x1_0000_0000 {
        assert(from_little_endian(little_endian(n)) == n) by {
            let b = little_endian(n);
            assert(b[0] == n % 256);
            assert(b[1] == (n / 256) % 256);
            assert(b[2] == (n / 65536) % 256);
            assert(b[3] == (n / 16777216) % 256);
        }
    }
}

// ---------------------------------------------------------------------------
// Taking a role

/// What the control file holds: the hub's port and the shared secret.
#[derive(Debug)]
pub struct ControlFile {
    pub port: u16,
    pub secret: String,
}

/// The model of a control file.
pub struct ControlView {
    pub port: u16,
    pub secret: Seq<char>,
}

impl View for ControlFile {
    type V = ControlView;

    open spec fn view(&self) -> ControlView {
        ControlView { port: self.port, secret: self.secret@ }
    }
}

/// How creating the control file went.
#[derive(Debug)]
pub enum Claim {
    Created,
    AlreadyExists,
    Failed { error: String },
}

/// What to do next on the way to a role.
#[derive(Debug)]
pub enum RoleStep {
    /// Write this into the control file that was created.
    WriteControl { control: ControlFile },
    /// Read the control file that is there.
    ReadControl,
    /// Connect to the hub that the control file names.
    Connect { control: ControlFile },
    /// Remove the control file and start again.
    RemoveAndRetry,
    /// Remove the control file and give up.
    RemoveAndFail { error: String },
    /// Be the hub.
    Hub { secret: String },
    /// Be a client of the hub.
    Client { secret: String },
    /// Give up.
    Fail { error: String },
}

impl ControlFile {
    /// What a process that listens on that port would write: with a new secret.
    pub fn for_port(port: u16) -> (r: ControlFile)
        ensures
            r.port == port,
            is_id_text(r.secret@),
    {
        ControlFile { port, secret: new_id() }
    }
}

/// What follows the attempt to create the control file, which only one process can.
pub fn after_claim(claim: Claim, own: ControlFile) -> (r: RoleStep)
    ensures
        r == (match claim {
            Claim::Created => RoleStep::WriteControl { control: own },
            Claim::AlreadyExists => RoleStep::ReadControl,
            Claim::Failed { error } => RoleStep::Fail { error },
        }),
{
    match claim {
        Claim::Created => RoleStep::WriteControl { control: own },
        Claim::AlreadyExists => RoleStep::ReadControl,
        Claim::Failed { error } => RoleStep::Fail { error },
    }
}

/// What follows writing the control file.
pub fn after_write(written: Result<(), String>, own: ControlFile) -> (r: RoleStep)
    ensures
        r == (match written {
            Ok(_) => RoleStep::Hub { secret: own.secret },
            Err(error) => RoleStep::RemoveAndFail { error },
        }),
{
    match written {
        Ok(_) => RoleStep::Hub { secret: own.secret },
        Err(error) => RoleStep::RemoveAndFail { error },
    }
}

/// What follows reading a control file that was there; nothing where it could not be
/// read or understood.
pub fn after_read(found: Option<ControlFile>) -> (r: RoleStep)
    ensures
        r == (match found {
            Some(control) => RoleStep::Connect { control },
            None => RoleStep::RemoveAndRetry,
        }),
{
    match found {
        Some(control) => RoleStep::Connect { control },
        None => RoleStep::RemoveAndRetry,
    }
}

/// What follows the attempt to connect: a hub that does not answer is gone, and its
/// control file is stale.
pub fn after_connect(connected: bool, control: ControlFile) -> (r: RoleStep)
    ensures
        r == (if connected {
            RoleStep::Client { secret: control.secret }
        } else {
            RoleStep::RemoveAndRetry
        }),
{
    if connected {
        RoleStep::Client { secret: control.secret }
    } else {
        RoleStep::RemoveAndRetry
    }
}

/// The header of a frame says how many bytes follow, lowest byte first, and they follow as
/// they are. A header that says more than is allowed is refused, and no other.
pub proof fn law_header_says_the_length(payload: Seq<u8>, a: u8, b: u8, c: u8, d: u8)
    requires
        payload.len() < 0x1_0000_0000,
    ensures
        frame(payload).len() == payload.len() + 4,
        frame(payload).skip(4) == payload,
        frame(payload)[0] + 256 * frame(payload)[1] + 65536 * frame(payload)[2] + 16777216 * frame(
            payload,
        )[3] == payload.len(),
        announced(seq![a, b, c, d]) matches Ok(n) ==> n == a + 256 * b + 65536 * c + 16777216 * d,
        announced(seq![a, b, c, d]) is Err <==> a + 256 * b + 65536 * c + 16777216 * d > 16777216,
{
    let n = payload.len() as int;
    assert(frame(payload).skip(4) =~= payload);
    assert(n % 256 + 256 * ((n / 256) % 256) + 65536 * ((n / 65536) % 256) + 16777216 * ((n
        / 16777216) % 256) == n);
}

/// A client that is let in gets a number that no other has had and is told of what comes from
/// there on; nothing is numbered by that, and the secret stays.
pub proof fn law_client_is_let_in(hub: HubView)
    requires
        valid_hub(hub),
        0 <= hub.next_client_id < 0xffff_ffff_ffff_ffff,
    ensures
        ({
            let after = hub_after_welcome(hub);
            &&& after.clients.len() == hub.clients.len() + 1
            &&& after.clients.last() == hub.next_client_id
            &&& after.clients.drop_last() == hub.clients
            &&& !hub.clients.contains(after.clients.last())
            &&& after.next_seq == hub.next_seq
            &&& after.secret == hub.secret
            &&& after.next_client_id == hub.next_client_id + 1
        }),
        hub_after_publish(hub).secret == hub.secret,
        hub_after_publish(hub).next_client_id == hub.next_client_id,
{
    assert(hub_after_welcome(hub).clients.drop_last() =~= hub.clients);
}

/// Whichever operation it is, its author is the process whose id it carries.
pub proof fn law_author_is_the_process_it_carries(message: ThreadSyncMessage)
    ensures
        message matches ThreadSyncMessage::Stream { client_id, .. } ==> author(message)
            == client_id@,
        message matches ThreadSyncMessage::UserMessage { client_id, .. } ==> author(message)
            == client_id@,
        message matches ThreadSyncMessage::TurnComplete { client_id, .. } ==> author(message)
            == client_id@,
        message matches ThreadSyncMessage::AgentMessage { client_id, .. } ==> author(message)
            == client_id@,
        message matches ThreadSyncMessage::TitleChanged { client_id, .. } ==> author(message)
            == client_id@,
{
}

} // verus!
