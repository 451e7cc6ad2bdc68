//! When two threads are the same conversation, and how diverged copies are merged.

use vstd::prelude::*;
use std::sync::Arc;
use crate::digits::{hex, hex_text};
use crate::json::JsonView;
use crate::lists::same_lists;
use crate::message::{
    AgentContentView, AgentMessageContent, AgentMessageView, CompactionInfo, CompactionView,
    Message, MessageView, ResultContentView, ToolResult, ToolResultContent, ToolResultView,
    UserContentView, UserMessageContent, UserMessageView,
};
use crate::text::is_blank;

verus! {

// ---------------------------------------------------------------------------
// The key of a conversation

/// The text of blocks that the user wrote: texts as they are, mentions after a space,
/// and nothing of images.
pub open spec fn user_text(content: Seq<UserContentView>) -> Seq<char>
    decreases content.len(),
{
    if content.len() == 0 {
        Seq::empty()
    } else {
        let rest = user_text(content.drop_last());
        match content.last() {
            UserContentView::Text(text) => rest + text,
            UserContentView::Mention { content, .. } => rest.push(' ') + content,
            UserContentView::Image(_) => rest,
        }
    }
}

/// The text of the first message of the user; empty where there is none.
pub open spec fn first_user_text(messages: Seq<MessageView>) -> Seq<char>
    decreases messages.len(),
{
    if messages.len() == 0 {
        Seq::empty()
    } else {
        match messages[0] {
            MessageView::User(user) => user_text(user.content),
            _ => first_user_text(messages.drop_first()),
        }
    }
}

/// The 64-bit FNV-1a hash of bytes.
pub open spec fn fnv1a(bytes: Seq<u8>) -> u64
    decreases bytes.len(),
{
    if bytes.len() == 0 {
        0xcbf2_9ce4_8422_2325
    } else {
        let mixed: u64 = fnv1a(bytes.drop_last()) ^ (bytes.last() as u64);
        ((mixed as int * 0x0000_0100_0000_01b3) % 0x1_0000_0000_0000_0000) as u64
    }
}

/// What a conversation is known by: the workspace that it belongs to, or else its
/// folders, and what the user asked first. Nothing where all of that is empty.
pub open spec fn dedup_key(
    workspace_id: Option<Seq<char>>,
    folders: Seq<char>,
    messages: Seq<MessageView>,
) -> Option<Seq<char>> {
    let group = match workspace_id {
        Some(id) => id,
        None => folders,
    };
    let asked = first_user_text(messages);
    if group.len() == 0 && asked.len() == 0 {
        None
    } else {
        Some(hex(fnv1a(vstd::utf8::encode_utf8(group + seq!['\0'] + asked)) as nat, 16))
    }
}

/// Titles, ids and later messages do not matter: what belongs to the same workspace and
/// began with the same request has the same key.
pub proof fn law_same_start_same_key(
    workspace_id: Option<Seq<char>>,
    folders: Seq<char>,
    a: Seq<MessageView>,
    b: Seq<MessageView>,
)
    requires
        first_user_text(a) == first_user_text(b),
    ensures
        dedup_key(workspace_id, folders, a) == dedup_key(workspace_id, folders, b),
{
}

fn user_message_text(content: &Vec<UserMessageContent>) -> (r: String)
    ensures
        r@ == user_text(content.deep_view()),
{
    let ghost models = content.deep_view();
    let mut text = String::new();
    let mut i: usize = 0;
    proof {
        assert(models.take(0) =~= Seq::empty());
        assert(text@ =~= Seq::<char>::empty());
    }
    while i < content.len()
        invariant
            i <= content@.len(),
            models == content.deep_view(),
            text@ == user_text(models.take(i as int)),
        decreases content@.len() - i,
    {
        proof {
            let next = models.take(i + 1);
            assert(next.drop_last() =~= models.take(i as int));
            assert(next.last() == content@[i as int].deep_view());
        }
        match &content[i] {
            UserMessageContent::Text(part) => {
                text.append(part.as_str());
            },
            UserMessageContent::Mention { uri, content } => {
                text.push(' ');
                text.append(content.as_str());
            },
            UserMessageContent::Image(_) => {},
        }
        i = i + 1;
    }
    assert(models.take(models.len() as int) =~= models);
    text
}

/// The text of the first message of the user.
pub fn first_user_message_text(messages: &Vec<Arc<Message>>) -> (r: String)
    ensures
        r@ == first_user_text(messages.deep_view()),
{
    let ghost models = messages.deep_view();
    let mut i: usize = 0;
    assert(models.skip(0) =~= models);
    while i < messages.len()
        invariant
            i <= messages@.len(),
            models == messages.deep_view(),
            first_user_text(models) == first_user_text(models.skip(i as int)),
        decreases messages@.len() - i,
    {
        proof {
            let rest = models.skip(i as int);
            assert(rest[0] == messages@[i as int].deep_view());
            assert(rest.drop_first() =~= models.skip(i + 1));
        }
        if let Message::User(user) = &*messages[i] {
            return user_message_text(&user.content);
        }
        i = i + 1;
    }
    let r = String::new();
    assert(r@ =~= Seq::<char>::empty());
    r
}

/// The 64-bit FNV-1a hash of a text's UTF-8 bytes.
pub fn fnv1a_64(input: &str) -> (r: u64)
    ensures
        r == fnv1a(vstd::utf8::encode_utf8(input@)),
{
    let bytes: &[u8] = input.as_bytes();
    let mut hash: u64 = 0xcbf2_9ce4_8422_2325;
    let mut i: usize = 0;
    assert(bytes@.take(0) =~= Seq::<u8>::empty());
    while i < bytes.len()
        invariant
            i <= bytes@.len(),
            hash == fnv1a(bytes@.take(i as int)),
        decreases bytes@.len() - i,
    {
        let mixed: u64 = hash ^ (bytes[i] as u64);
        hash = mixed.wrapping_mul(0x0000_0100_0000_01b3);
        proof {
            let next = bytes@.take(i + 1);
            assert(next.drop_last() =~= bytes@.take(i as int));
            assert(next.last() == bytes@[i as int]);
        }
        i = i + 1;
    }
    assert(bytes@.take(bytes@.len() as int) =~= bytes@);
    hash
}

/// What a conversation is known by; `folders` is the list of its folders as text, empty
/// where there are none.
pub fn thread_dedup_key(workspace_id: Option<&str>, folders: &str, messages: &Vec<Arc<Message>>) -> (r:
    Option<String>)
    ensures
        r.deep_view() == dedup_key(workspace_id.deep_view(), folders@, messages.deep_view()),
{
    let group: &str = match workspace_id {
        Some(id) => id,
        None => folders,
    };
    let asked = first_user_message_text(messages);
    if is_blank(group) && is_blank(asked.as_str()) {
        return None;
    }
    let mut whole = group.to_owned();
    whole.push('\0');
    whole.append(asked.as_str());
    proof {
        assert(group@.push('\0') + asked@ =~= group@ + seq!['\0'] + asked@);
    }
    Some(hex_text(fnv1a_64(whole.as_str()), 16))
}

// ---------------------------------------------------------------------------
// Signatures

/// The parts of a block that the user wrote.
pub open spec fn user_part(block: UserContentView) -> Seq<char> {
    match block {
        UserContentView::Text(text) => text,
        UserContentView::Mention { content, .. } => content,
        UserContentView::Image(_) => "<image>"@,
    }
}

/// The parts of blocks that the agent wrote.
pub open spec fn agent_parts(content: Seq<AgentContentView>) -> Seq<Seq<char>>
    decreases content.len(),
{
    if content.len() == 0 {
        Seq::empty()
    } else {
        let rest = agent_parts(content.drop_last());
        match content.last() {
            AgentContentView::Text(text) => rest.push(text),
            AgentContentView::Thinking { text, .. } => rest.push(text),
            AgentContentView::RedactedThinking(_) => rest.push("<redacted>"@),
            AgentContentView::ToolUse(tool) => rest.push("tool:"@ + tool.name).push(
                "input:"@ + tool.raw_input,
            ),
        }
    }
}

/// The part of one piece of a tool result.
pub open spec fn result_part(piece: ResultContentView) -> Seq<char> {
    match piece {
        ResultContentView::Text(text) => text,
        ResultContentView::Image(_) => "<image>"@,
    }
}

/// The parts of one tool result.
pub open spec fn tool_result_parts(result: ToolResultView) -> Seq<Seq<char>> {
    Seq::empty().push("result:"@ + result.tool_name) + Seq::new(
        result.content.len(),
        |i: int| result_part(result.content[i]),
    )
}

/// The parts of tool results.
pub open spec fn result_parts(results: Seq<(Seq<char>, ToolResultView)>) -> Seq<Seq<char>>
    decreases results.len(),
{
    if results.len() == 0 {
        Seq::empty()
    } else {
        result_parts(results.drop_last()) + tool_result_parts(results.last().1)
    }
}

/// What a message says, whatever its id: two messages with the same signature are the
/// same turn of a conversation.
pub open spec fn signature(message: MessageView) -> Seq<Seq<char>> {
    match message {
        MessageView::User(user) => Seq::empty().push("user"@) + Seq::new(
            user.content.len(),
            |i: int| user_part(user.content[i]),
        ),
        MessageView::Agent(agent) => Seq::empty().push("agent"@) + agent_parts(agent.content)
            + result_parts(agent.tool_results),
        MessageView::Resume => Seq::empty().push("resume"@),
        MessageView::Compaction(info) => Seq::empty().push("compaction"@).push(
            match info {
                CompactionView::Summary(text) => text,
                CompactionView::ProviderNative(_) => "provider-native"@,
            },
        ),
    }
}

/// The id of a message of the user does not matter to its signature.
pub proof fn law_signature_ignores_ids(a: UserMessageView, b: UserMessageView)
    requires
        a.content == b.content,
    ensures
        signature(MessageView::User(a)) == signature(MessageView::User(b)),
{
}

fn push_part(parts: &mut Vec<String>, part: String)
    ensures
        final(parts).deep_view() == old(parts).deep_view().push(part@),
{
    let ghost before = parts.deep_view();
    parts.push(part);
    assert(parts.deep_view() =~= before.push(part@));
}

fn push_labelled(parts: &mut Vec<String>, label: &str, text: &str)
    ensures
        final(parts).deep_view() == old(parts).deep_view().push(label@ + text@),
{
    let mut part = label.to_owned();
    part.append(text);
    push_part(parts, part);
}

fn push_user_parts(parts: &mut Vec<String>, content: &Vec<UserMessageContent>)
    ensures
        final(parts).deep_view() == old(parts).deep_view() + Seq::new(
            content.deep_view().len(),
            |i: int| user_part(content.deep_view()[i]),
        ),
{
    let ghost before = parts.deep_view();
    let ghost models = content.deep_view();
    let ghost wanted = Seq::new(models.len(), |i: int| user_part(models[i]));
    let mut i: usize = 0;
    assert(before + wanted.take(0) =~= before);
    while i < content.len()
        invariant
            i <= content@.len(),
            models == content.deep_view(),
            wanted == Seq::new(models.len(), |i: int| user_part(models[i])),
            parts.deep_view() == before + wanted.take(i as int),
        decreases content@.len() - i,
    {
        assert(models[i as int] == content@[i as int].deep_view());
        match &content[i] {
            UserMessageContent::Text(text) => {
                push_part(parts, text.clone());
            },
            UserMessageContent::Mention { uri, content } => {
                push_part(parts, content.clone());
            },
            UserMessageContent::Image(_) => {
                push_part(parts, "<image>".to_owned());
            },
        }
        i = i + 1;
        assert(parts.deep_view() =~= before + wanted.take(i as int));
    }
    assert(wanted.take(wanted.len() as int) =~= wanted);
}

fn push_agent_parts(parts: &mut Vec<String>, content: &Vec<AgentMessageContent>)
    ensures
        final(parts).deep_view() == old(parts).deep_view() + agent_parts(content.deep_view()),
{
    let ghost before = parts.deep_view();
    let ghost models = content.deep_view();
    let mut i: usize = 0;
    proof {
        assert(models.take(0) =~= Seq::empty());
        assert(before + agent_parts(models.take(0)) =~= before);
    }
    while i < content.len()
        invariant
            i <= content@.len(),
            models == content.deep_view(),
            parts.deep_view() == before + agent_parts(models.take(i as int)),
        decreases content@.len() - i,
    {
        let ghost done = agent_parts(models.take(i as int));
        proof {
            let next = models.take(i + 1);
            assert(next.drop_last() =~= models.take(i as int));
            assert(next.last() == content@[i as int].deep_view());
        }
        match &content[i] {
            AgentMessageContent::Text(text) => {
                push_part(parts, text.clone());
            },
            AgentMessageContent::Thinking { text, signature } => {
                push_part(parts, text.clone());
            },
            AgentMessageContent::RedactedThinking(_) => {
                push_part(parts, "<redacted>".to_owned());
            },
            AgentMessageContent::ToolUse(tool) => {
                push_labelled(parts, "tool:", tool.name.as_str());
                push_labelled(parts, "input:", tool.raw_input.as_str());
            },
        }
        i = i + 1;
        assert(parts.deep_view() =~= before + agent_parts(models.take(i as int)));
    }
    assert(models.take(models.len() as int) =~= models);
}

fn push_tool_result(parts: &mut Vec<String>, result: &ToolResult)
    ensures
        final(parts).deep_view() == old(parts).deep_view() + tool_result_parts(result.deep_view()),
{
    let ghost before = parts.deep_view();
    let ghost models = result.content.deep_view();
    let ghost pieces = Seq::new(models.len(), |i: int| result_part(models[i]));
    let ghost label = "result:"@ + result.tool_name@;
    push_labelled(parts, "result:", result.tool_name.as_str());
    let mut i: usize = 0;
    assert(parts.deep_view() =~= before.push(label) + pieces.take(0));
    while i < result.content.len()
        invariant
            i <= result.content@.len(),
            models == result.content.deep_view(),
            pieces == Seq::new(models.len(), |i: int| result_part(models[i])),
            parts.deep_view() == before.push(label) + pieces.take(i as int),
        decreases result.content@.len() - i,
    {
        assert(models[i as int] == result.content@[i as int].deep_view());
        match &result.content[i] {
            ToolResultContent::Text(text) => {
                push_part(parts, text.clone());
            },
            ToolResultContent::Image(_) => {
                push_part(parts, "<image>".to_owned());
            },
        }
        i = i + 1;
        assert(parts.deep_view() =~= before.push(label) + pieces.take(i as int));
    }
    proof {
        assert(pieces.take(pieces.len() as int) =~= pieces);
        assert(before.push(label) + pieces =~= before + (Seq::empty().push(label) + pieces));
    }
}

fn push_results(parts: &mut Vec<String>, results: &Vec<(String, ToolResult)>)
    ensures
        final(parts).deep_view() == old(parts).deep_view() + result_parts(results.deep_view()),
{
    let ghost before = parts.deep_view();
    let ghost models = results.deep_view();
    let mut i: usize = 0;
    proof {
        assert(models.take(0) =~= Seq::empty());
        assert(before + result_parts(models.take(0)) =~= before);
    }
    while i < results.len()
        invariant
            i <= results@.len(),
            models == results.deep_view(),
            parts.deep_view() == before + result_parts(models.take(i as int)),
        decreases results@.len() - i,
    {
        push_tool_result(parts, &results[i].1);
        proof {
            let next = models.take(i + 1);
            let done = result_parts(models.take(i as int));
            let more = tool_result_parts(results@[i as int].1.deep_view());
            assert(next.drop_last() =~= models.take(i as int));
            assert(next.last().1 == results@[i as int].1.deep_view());
            assert((before + done) + more =~= before + (done + more));
        }
        i = i + 1;
    }
    assert(models.take(models.len() as int) =~= models);
}

/// What a message says, whatever its id.
pub fn message_signature(message: &Message) -> (r: Vec<String>)
    ensures
        r.deep_view() == signature(message.deep_view()),
{
    let mut parts: Vec<String> = Vec::new();
    assert(parts.deep_view() =~= Seq::empty());
    match message {
        Message::User(user) => {
            push_part(&mut parts, "user".to_owned());
            push_user_parts(&mut parts, &user.content);
        },
        Message::Agent(agent) => {
            push_part(&mut parts, "agent".to_owned());
            push_agent_parts(&mut parts, &agent.content);
            push_results(&mut parts, &agent.tool_results);
        },
        Message::Resume => {
            push_part(&mut parts, "resume".to_owned());
        },
        Message::Compaction(info) => {
            push_part(&mut parts, "compaction".to_owned());
            match info {
                CompactionInfo::Summary(text) => {
                    push_part(&mut parts, text.clone());
                },
                CompactionInfo::ProviderNative(_) => {
                    push_part(&mut parts, "provider-native".to_owned());
                },
            }
        },
    }
    parts
}

// ---------------------------------------------------------------------------
// Merging

/// How many messages two threads begin with in common, compared by what they say.
pub open spec fn common_prefix(left: Seq<MessageView>, right: Seq<MessageView>) -> nat
    decreases left.len(),
{
    if left.len() == 0 || right.len() == 0 || signature(left[0]) != signature(right[0]) {
        0
    } else {
        1 + common_prefix(left.drop_first(), right.drop_first())
    }
}

/// The messages of one thread followed by what another has after their common start.
pub open spec fn merged(base: Seq<MessageView>, other: Seq<MessageView>) -> Seq<MessageView> {
    base + other.skip(common_prefix(base, other) as int)
}

/// The messages of a thread with those of each other thread merged in, in turn.
pub open spec fn merged_all(lists: Seq<Seq<MessageView>>) -> Seq<MessageView>
    decreases lists.len(),
{
    if lists.len() == 0 {
        Seq::empty()
    } else if lists.len() == 1 {
        lists[0]
    } else {
        merged(merged_all(lists.drop_last()), lists.last())
    }
}

proof fn lemma_common_prefix(left: Seq<MessageView>, right: Seq<MessageView>)
    ensures
        common_prefix(left, right) <= left.len(),
        common_prefix(left, right) <= right.len(),
        forall|i: int|
            0 <= i < common_prefix(left, right) ==> signature(#[trigger] left[i]) == signature(
                right[i],
            ),
        common_prefix(left, right) < left.len() && common_prefix(left, right) < right.len()
            ==> signature(left[common_prefix(left, right) as int]) != signature(
            right[common_prefix(left, right) as int],
        ),
    decreases left.len(),
{
    if left.len() > 0 && right.len() > 0 && signature(left[0]) == signature(right[0]) {
        let l = left.drop_first();
        let r = right.drop_first();
        lemma_common_prefix(l, r);
        let n = common_prefix(l, r);
        assert forall|i: int| 0 <= i < n + 1 implies signature(#[trigger] left[i]) == signature(
            right[i],
        ) by {
            if i > 0 {
                assert(left[i] == l[i - 1]);
                assert(right[i] == r[i - 1]);
            }
        }
        if n < l.len() && n < r.len() {
            assert(l[n as int] == left[n as int + 1]);
            assert(r[n as int] == right[n as int + 1]);
        }
    }
}

/// Whether somewhere in the messages the same is said.
pub open spec fn says(messages: Seq<MessageView>, message: MessageView) -> bool {
    exists|i: int|
        0 <= i < messages.len() && signature(#[trigger] messages[i]) == signature(message)
}

/// Merging drops nothing: the thread's own messages come first, as they were; whatever
/// the other thread says is said in the merged one; and what the other thread alone has
/// follows in its order.
pub proof fn law_merge_is_lossless(base: Seq<MessageView>, other: Seq<MessageView>)
    ensures
        merged(base, other).len() >= base.len(),
        merged(base, other).take(base.len() as int) == base,
        merged(base, other).skip(base.len() as int) == other.skip(
            common_prefix(base, other) as int,
        ),
        forall|i: int| 0 <= i < other.len() ==> says(merged(base, other), #[trigger] other[i]),
{
    lemma_common_prefix(base, other);
    let n = common_prefix(base, other) as int;
    let all = merged(base, other);
    assert(all.take(base.len() as int) =~= base);
    assert(all.skip(base.len() as int) =~= other.skip(n));
    assert forall|i: int| 0 <= i < other.len() implies says(all, #[trigger] other[i]) by {
        if i < n {
            assert(all[i] == base[i]);
            assert(signature(all[i]) == signature(other[i]));
        } else {
            assert(all[base.len() + i - n] == other[i]);
        }
    }
}

/// A thread that is a mere beginning of another adds nothing to it.
pub proof fn law_prefix_adds_nothing(base: Seq<MessageView>, other: Seq<MessageView>)
    requires
        other.len() <= base.len(),
        forall|i: int|
            0 <= i < other.len() ==> signature(#[trigger] base[i]) == signature(other[i]),
    ensures
        merged(base, other) == base,
{
    lemma_common_prefix(base, other);
    let n = common_prefix(base, other) as int;
    if n < other.len() {
        assert(signature(base[n]) == signature(other[n]));
    }
    assert(other.skip(n) =~= Seq::empty());
    assert(base + Seq::<MessageView>::empty() =~= base);
}

/// Merging several threads drops nothing of any of them.
pub proof fn law_merge_all_is_lossless(lists: Seq<Seq<MessageView>>, which: int, at: int)
    requires
        0 <= which < lists.len(),
        0 <= at < lists[which].len(),
    ensures
        says(merged_all(lists), lists[which][at]),
    decreases lists.len(),
{
    if lists.len() == 1 {
        assert(merged_all(lists)[at] == lists[which][at]);
    } else {
        let fewer = lists.drop_last();
        let base = merged_all(fewer);
        let all = merged(base, lists.last());
        law_merge_is_lossless(base, lists.last());
        if which < fewer.len() {
            assert(fewer[which] == lists[which]);
            law_merge_all_is_lossless(fewer, which, at);
            let i = choose|i: int|
                0 <= i < base.len() && signature(#[trigger] base[i]) == signature(
                    lists[which][at],
                );
            assert(all[i] == base[i]);
        } else {
            assert(lists.last()[at] == lists[which][at]);
        }
    }
}

/// How many messages two threads begin with in common.
pub fn common_message_prefix_len(left: &Vec<Arc<Message>>, right: &Vec<Arc<Message>>) -> (r: usize)
    ensures
        r == common_prefix(left.deep_view(), right.deep_view()),
        r <= left@.len(),
        r <= right@.len(),
{
    let ghost l = left.deep_view();
    let ghost r = right.deep_view();
    let mut i: usize = 0;
    proof {
        assert(l.skip(0) =~= l);
        assert(r.skip(0) =~= r);
    }
    while i < left.len() && i < right.len()
        invariant
            i <= left@.len(),
            i <= right@.len(),
            l == left.deep_view(),
            r == right.deep_view(),
            common_prefix(l, r) == i + common_prefix(l.skip(i as int), r.skip(i as int)),
        decreases left@.len() - i,
    {
        let a = message_signature(&*left[i]);
        let b = message_signature(&*right[i]);
        proof {
            let ls = l.skip(i as int);
            let rs = r.skip(i as int);
            assert(ls[0] == left@[i as int].deep_view());
            assert(rs[0] == right@[i as int].deep_view());
            assert(ls.drop_first() =~= l.skip(i + 1));
            assert(rs.drop_first() =~= r.skip(i + 1));
        }
        if !same_lists(&a, &b) {
            return i;
        }
        i = i + 1;
    }
    i
}

/// `Arc::clone`: another handle on the same message.
#[verifier::external_body]
pub(crate) fn share(message: &Arc<Message>) -> (r: Arc<Message>)
    ensures
        r == *message,
{
    Arc::clone(message)
}

/// Merges another thread's messages into these.
pub fn merge_messages(base: &mut Vec<Arc<Message>>, other: &Vec<Arc<Message>>)
    ensures
        final(base).deep_view() == merged(old(base).deep_view(), other.deep_view()),
{
    let start = common_message_prefix_len(base, other);
    let ghost before = base.deep_view();
    let ghost models = other.deep_view();
    let mut i: usize = start;
    assert(before + models.subrange(start as int, start as int) =~= before);
    while i < other.len()
        invariant
            start <= i <= other@.len(),
            models == other.deep_view(),
            base.deep_view() == before + models.subrange(start as int, i as int),
        decreases other@.len() - i,
    {
        let ghost done = base.deep_view();
        let message = share(&other[i]);
        base.push(message);
        assert(base.deep_view() =~= done.push(message.deep_view()));
        assert(models[i as int] == other@[i as int].deep_view());
        i = i + 1;
        assert(base.deep_view() =~= before + models.subrange(start as int, i as int));
    }
    assert(models.subrange(start as int, models.len() as int) =~= models.skip(start as int));
}

// ---------------------------------------------------------------------------
// What signatures and keys tell apart

/// Whether two blocks of the user say different things.
pub open spec fn blocks_differ(a: UserContentView, b: UserContentView) -> bool {
    match (a, b) {
        (UserContentView::Text(x), UserContentView::Text(y)) => x != y,
        (
            UserContentView::Mention { content: x, .. },
            UserContentView::Mention { content: y, .. },
        ) => x != y,
        (UserContentView::Text(x), UserContentView::Mention { content: y, .. }) => x != y,
        (UserContentView::Mention { content: x, .. }, UserContentView::Text(y)) => x != y,
        _ => false,
    }
}

/// Messages of the user that differ in the text of a block or of a mention are two turns
/// of a conversation, and so are messages of different length. The URI of a mention and
/// the data of an image do not matter.
pub proof fn law_signature_tells_user_messages_apart(a: UserMessageView, b: UserMessageView, i: int)
    ensures
        a.content.len() != b.content.len() ==> signature(MessageView::User(a)) != signature(
            MessageView::User(b),
        ),
        a.content.len() == b.content.len() && 0 <= i < a.content.len() && blocks_differ(
            a.content[i],
            b.content[i],
        ) ==> signature(MessageView::User(a)) != signature(MessageView::User(b)),
        a.content.len() == b.content.len() && (forall|k: int|
            0 <= k < a.content.len() ==> match (#[trigger] a.content[k], b.content[k]) {
                (UserContentView::Text(x), UserContentView::Text(y)) => x == y,
                (
                    UserContentView::Mention { content: x, .. },
                    UserContentView::Mention { content: y, .. },
                ) => x == y,
                (UserContentView::Image(_), UserContentView::Image(_)) => true,
                _ => false,
            }) ==> signature(MessageView::User(a)) == signature(MessageView::User(b)),
{
    let sa = signature(MessageView::User(a));
    let sb = signature(MessageView::User(b));
    assert(sa.len() == a.content.len() + 1);
    assert(sb.len() == b.content.len() + 1);
    if a.content.len() == b.content.len() {
        if 0 <= i < a.content.len() {
            assert(sa[i + 1] == user_part(a.content[i]));
            assert(sb[i + 1] == user_part(b.content[i]));
        }
        if forall|k: int|
            0 <= k < a.content.len() ==> match (#[trigger] a.content[k], b.content[k]) {
                (UserContentView::Text(x), UserContentView::Text(y)) => x == y,
                (
                    UserContentView::Mention { content: x, .. },
                    UserContentView::Mention { content: y, .. },
                ) => x == y,
                (UserContentView::Image(_), UserContentView::Image(_)) => true,
                _ => false,
            } {
            assert forall|k: int| 0 <= k < sa.len() implies sa[k] == sb[k] by {
                if k > 0 {
                    assert(sa[k] == user_part(a.content[k - 1]));
                    assert(sb[k] == user_part(b.content[k - 1]));
                }
            }
            assert(sa =~= sb);
        }
    }
}

/// Messages of different kinds are never the same turn.
pub proof fn law_signature_tells_kinds_apart(a: MessageView, b: MessageView)
    requires
        signature(a) == signature(b),
    ensures
        a is User == b is User,
        a is Agent == b is Agent,
        a is Resume == b is Resume,
        a is Compaction == b is Compaction,
        (a matches MessageView::Compaction(CompactionView::Summary(x)) ==> b matches MessageView::Compaction(
            CompactionView::Summary(y),
        ) ==> x == y),
{
    reveal_strlit("user");
    reveal_strlit("agent");
    reveal_strlit("resume");
    reveal_strlit("compaction");
    assert("user"@.len() == 4 && "agent"@.len() == 5);
    assert("resume"@.len() == 6 && "compaction"@.len() == 10);
    lemma_first_part(a);
    lemma_first_part(b);
    assert(signature(a)[0].len() == signature(b)[0].len());
    if a is Compaction && b is Compaction {
        assert(signature(a)[1] == signature(b)[1]);
    }
}

proof fn lemma_first_part(message: MessageView)
    ensures
        signature(message).len() > 0,
        signature(message)[0] == match message {
            MessageView::User(_) => "user"@,
            MessageView::Agent(_) => "agent"@,
            MessageView::Resume => "resume"@,
            MessageView::Compaction(_) => "compaction"@,
        },
{
}

/// Whether two blocks of the agent are of one kind.
pub open spec fn same_kind(a: AgentContentView, b: AgentContentView) -> bool {
    &&& a is Text == b is Text
    &&& a is Thinking == b is Thinking
    &&& a is RedactedThinking == b is RedactedThinking
}

/// Whether two blocks of the agent, of one kind, say the same: the same text or thought,
/// or a call of the same tool with the same input.
pub open spec fn blocks_agree(a: AgentContentView, b: AgentContentView) -> bool {
    match (a, b) {
        (AgentContentView::Text(x), AgentContentView::Text(y)) => x == y,
        (
            AgentContentView::Thinking { text: x, .. },
            AgentContentView::Thinking { text: y, .. },
        ) => x == y,
        (AgentContentView::RedactedThinking(_), AgentContentView::RedactedThinking(_)) => true,
        (AgentContentView::ToolUse(x), AgentContentView::ToolUse(y)) => x.name == y.name
            && x.raw_input == y.raw_input,
        _ => false,
    }
}

proof fn lemma_agent_parts(a: Seq<AgentContentView>, b: Seq<AgentContentView>)
    requires
        a.len() == b.len(),
        forall|k: int| 0 <= k < a.len() ==> same_kind(#[trigger] a[k], b[k]),
    ensures
        agent_parts(a).len() == agent_parts(b).len(),
        agent_parts(a) == agent_parts(b) <==> forall|k: int|
            0 <= k < a.len() ==> blocks_agree(#[trigger] a[k], b[k]),
    decreases a.len(),
{
    if a.len() > 0 {
        let (ra, rb) = (a.drop_last(), b.drop_last());
        let (la, lb) = (a[a.len() - 1], b[b.len() - 1]);
        assert forall|k: int| 0 <= k < ra.len() implies same_kind(#[trigger] ra[k], rb[k]) by {
            assert(ra[k] == a[k] && rb[k] == b[k]);
        }
        lemma_agent_parts(ra, rb);
        assert(same_kind(la, lb));
        let (pa, pb) = (agent_parts(a), agent_parts(b));
        let (qa, qb) = (agent_parts(ra), agent_parts(rb));
        let n = qa.len() as int;
        assert(pa.take(n) =~= qa);
        assert(pb.take(n) =~= qb);
        if pa == pb {
            assert(qa == qb);
            assert(pa[n] == pb[n]);
            if la is ToolUse {
                let (x, y) = (la->ToolUse_0, lb->ToolUse_0);
                assert(pa[n + 1] == pb[n + 1]);
                assert(("tool:"@ + x.name).skip("tool:"@.len() as int) =~= x.name);
                assert(("tool:"@ + y.name).skip("tool:"@.len() as int) =~= y.name);
                assert(("input:"@ + x.raw_input).skip("input:"@.len() as int) =~= x.raw_input);
                assert(("input:"@ + y.raw_input).skip("input:"@.len() as int) =~= y.raw_input);
            }
            assert(blocks_agree(la, lb));
            assert forall|k: int| 0 <= k < a.len() implies blocks_agree(#[trigger] a[k], b[k]) by {
                if k < ra.len() {
                    assert(ra[k] == a[k] && rb[k] == b[k]);
                    assert(blocks_agree(ra[k], rb[k]));
                }
            }
        }
        if forall|k: int| 0 <= k < a.len() ==> blocks_agree(#[trigger] a[k], b[k]) {
            assert forall|k: int| 0 <= k < ra.len() implies blocks_agree(#[trigger] ra[k], rb[k]) by {
                assert(ra[k] == a[k] && rb[k] == b[k]);
                assert(blocks_agree(a[k], b[k]));
            }
            assert(blocks_agree(la, lb));
            assert(pa =~= pb);
        }
    } else {
        assert(agent_parts(a) =~= agent_parts(b));
    }
}

/// Answers of the agent whose blocks are of the same kinds are the same turn only where
/// each text, each thought, and the tool and the input of each call are the same; and with
/// the same tool results that is enough.
pub proof fn law_signature_tells_answers_apart(
    a: AgentMessageView,
    b: AgentMessageView,
)
    requires
        a.content.len() == b.content.len(),
        forall|k: int| 0 <= k < a.content.len() ==> same_kind(#[trigger] a.content[k], b.content[k]),
    ensures
        signature(MessageView::Agent(a)) == signature(MessageView::Agent(b)) ==> forall|k: int|
            0 <= k < a.content.len() ==> blocks_agree(#[trigger] a.content[k], b.content[k]),
        (forall|k: int|
            0 <= k < a.content.len() ==> blocks_agree(#[trigger] a.content[k], b.content[k]))
            && a.tool_results == b.tool_results ==> signature(MessageView::Agent(a)) == signature(
            MessageView::Agent(b),
        ),
        signature(MessageView::Agent(a)) == signature(MessageView::Agent(b)) ==> result_parts(
            a.tool_results,
        ) == result_parts(b.tool_results),
{
    lemma_agent_parts(a.content, b.content);
    let (sa, sb) = (signature(MessageView::Agent(a)), signature(MessageView::Agent(b)));
    let (pa, pb) = (agent_parts(a.content), agent_parts(b.content));
    let n = pa.len() as int;
    assert(sa.subrange(1, n + 1) =~= pa);
    assert(sb.subrange(1, n + 1) =~= pb);
    assert(sa.skip(n + 1) =~= result_parts(a.tool_results));
    assert(sb.skip(n + 1) =~= result_parts(b.tool_results));
}

/// Results of tools with as many pieces are the same only where the tool and the text of
/// each piece are the same, and so are lists of them; nothing else of a result matters.
pub proof fn law_results_tell_tools_and_texts(
    a: Seq<(Seq<char>, ToolResultView)>,
    b: Seq<(Seq<char>, ToolResultView)>,
)
    requires
        a.len() == b.len(),
        forall|k: int|
            0 <= k < a.len() ==> (#[trigger] a[k]).1.content.len() == b[k].1.content.len(),
    ensures
        result_parts(a).len() == result_parts(b).len(),
        result_parts(a) == result_parts(b) ==> forall|k: int, m: int|
            0 <= k < a.len() ==> {
                &&& (#[trigger] a[k]).1.tool_name == b[k].1.tool_name
                &&& 0 <= m < a[k].1.content.len() ==> match (
                    #[trigger] a[k].1.content[m],
                    b[k].1.content[m],
                ) {
                    (ResultContentView::Text(x), ResultContentView::Text(y)) => x == y,
                    _ => true,
                }
            },
    decreases a.len(),
{
    if a.len() > 0 {
        let (ra, rb) = (a.drop_last(), b.drop_last());
        let last = a.len() - 1;
        assert forall|k: int| 0 <= k < ra.len() implies (#[trigger] ra[k]).1.content.len()
            == rb[k].1.content.len() by {
            assert(ra[k] == a[k] && rb[k] == b[k]);
        }
        law_results_tell_tools_and_texts(ra, rb);
        let (x, y) = (a[last].1, b[last].1);
        let (pa, pb) = (result_parts(a), result_parts(b));
        let n = result_parts(ra).len() as int;
        assert(a[last].1.content.len() == b[last].1.content.len());
        assert(pa.take(n) =~= result_parts(ra));
        assert(pb.take(n) =~= result_parts(rb));
        assert(pa.skip(n) =~= tool_result_parts(x));
        assert(pb.skip(n) =~= tool_result_parts(y));
        if pa == pb {
            assert(pa[n] == "result:"@ + x.tool_name);
            assert(pb[n] == "result:"@ + y.tool_name);
            assert(("result:"@ + x.tool_name).skip("result:"@.len() as int) =~= x.tool_name);
            assert(("result:"@ + y.tool_name).skip("result:"@.len() as int) =~= y.tool_name);
            assert forall|k: int, m: int| 0 <= k < a.len() implies {
                &&& (#[trigger] a[k]).1.tool_name == b[k].1.tool_name
                &&& 0 <= m < a[k].1.content.len() ==> match (
                    #[trigger] a[k].1.content[m],
                    b[k].1.content[m],
                ) {
                    (ResultContentView::Text(x), ResultContentView::Text(y)) => x == y,
                    _ => true,
                }
            } by {
                if k < last {
                    assert(ra[k] == a[k] && rb[k] == b[k]);
                    assert(ra[k].1.tool_name == rb[k].1.tool_name);
                    if 0 <= m < a[k].1.content.len() {
                        assert(ra[k].1.content[m] == a[k].1.content[m]);
                    }
                } else if 0 <= m < x.content.len() {
                    assert(pa[n + 1 + m] == result_part(x.content[m]));
                    assert(pb[n + 1 + m] == result_part(y.content[m]));
                }
            }
        }
    }
}

/// Where two threads have, at one place, messages of the user that say different things,
/// the merged thread holds both.
pub proof fn law_merge_holds_both_of_two_turns(
    base: Seq<MessageView>,
    other: Seq<MessageView>,
    k: int,
    i: int,
)
    requires
        0 <= k < base.len(),
        k < other.len(),
        base[k] is User,
        other[k] is User,
        base[k]->User_0.content.len() == other[k]->User_0.content.len(),
        0 <= i < base[k]->User_0.content.len(),
        blocks_differ(base[k]->User_0.content[i], other[k]->User_0.content[i]),
    ensures
        merged(base, other)[k] == base[k],
        exists|j: int|
            base.len() <= j < merged(base, other).len() && #[trigger] merged(base, other)[j]
                == other[k],
        merged(base, other).len() >= base.len() + (other.len() - k),
{
    law_signature_tells_user_messages_apart(base[k]->User_0, other[k]->User_0, i);
    lemma_common_prefix(base, other);
    let n = common_prefix(base, other) as int;
    if n > k {
        assert(signature(base[k]) == signature(other[k]));
    }
    assert(merged(base, other)[base.len() + k - n] == other[k]);
}

/// What follows in another thread after what is said in both comes after all of this
/// thread, whole and in order.
pub proof fn law_merge_appends_what_is_new(
    start: Seq<MessageView>,
    again: Seq<MessageView>,
    mine: Seq<MessageView>,
    theirs: Seq<MessageView>,
)
    requires
        start.len() == again.len(),
        forall|i: int| 0 <= i < start.len() ==> signature(#[trigger] start[i]) == signature(again[i]),
        mine.len() == 0 || theirs.len() == 0 || signature(mine[0]) != signature(theirs[0]),
    ensures
        merged(start + mine, again + theirs) == start + mine + theirs,
    decreases start.len(),
{
    let (base, other) = (start + mine, again + theirs);
    lemma_common_prefix(base, other);
    let n = common_prefix(base, other) as int;
    let m = start.len() as int;
    if n < m {
        assert(base[n] == start[n] && other[n] == again[n]);
        assert(signature(start[n]) == signature(again[n]));
    }
    if n > m {
        assert(base[m] == mine[0] && other[m] == theirs[0]);
        assert(signature(base[m]) == signature(other[m]));
    }
    assert(other.skip(m) =~= theirs);
    assert(merged(base, other) =~= start + mine + theirs);
}

/// What the user wrote is read block by block: a text as it is, a mention after a space,
/// an image as nothing.
pub proof fn law_user_text_is_read_block_by_block(
    before: Seq<UserContentView>,
    text: Seq<char>,
    uri: JsonView,
    image: JsonView,
)
    ensures
        user_text(Seq::empty()) == Seq::<char>::empty(),
        user_text(before.push(UserContentView::Text(text))) == user_text(before) + text,
        user_text(before.push(UserContentView::Mention { uri, content: text })) == user_text(before)
            + seq![' '] + text,
        user_text(before.push(UserContentView::Image(image))) == user_text(before),
{
    let a = before.push(UserContentView::Text(text));
    let b = before.push(UserContentView::Mention { uri, content: text });
    let c = before.push(UserContentView::Image(image));
    assert(a.drop_last() =~= before);
    assert(b.drop_last() =~= before);
    assert(c.drop_last() =~= before);
    assert(user_text(before).push(' ') =~= user_text(before) + seq![' ']);
}

/// The request that a thread began with is its first message of the user, whatever comes
/// before and after it.
pub proof fn law_first_request_is_the_first_of_the_user(
    before: Seq<MessageView>,
    first: UserMessageView,
    after: Seq<MessageView>,
)
    requires
        forall|i: int| 0 <= i < before.len() ==> !(#[trigger] before[i] is User),
    ensures
        first_user_text(before) == Seq::<char>::empty(),
        first_user_text(before.push(MessageView::User(first)) + after) == user_text(first.content),
    decreases before.len(),
{
    let all = before.push(MessageView::User(first)) + after;
    if before.len() == 0 {
        assert(all[0] == MessageView::User(first));
    } else {
        let rest = before.drop_first();
        assert(!(before[0] is User));
        assert forall|i: int| 0 <= i < rest.len() implies !(#[trigger] rest[i] is User) by {
            assert(rest[i] == before[i + 1]);
        }
        law_first_request_is_the_first_of_the_user(rest, first, after);
        assert(all[0] == before[0]);
        assert(all.drop_first() =~= rest.push(MessageView::User(first)) + after);
    }
}

/// A thread has no key exactly where it belongs nowhere and asks for nothing. A workspace
/// counts before the folders, and without one the folders stand for it.
pub proof fn law_key_is_of_workspace_and_request(
    id: Seq<char>,
    folders: Seq<char>,
    others: Seq<char>,
    messages: Seq<MessageView>,
)
    ensures
        dedup_key(Some(id), folders, messages) == dedup_key(Some(id), others, messages),
        dedup_key(None, id, messages) == dedup_key(Some(id), folders, messages),
        dedup_key(Some(id), folders, messages) is None <==> id.len() == 0 && first_user_text(
            messages,
        ).len() == 0,
        dedup_key(Some(id), folders, messages) matches Some(key) ==> key.len() == 16 && key == hex(
            fnv1a(
                vstd::utf8::encode_utf8(id + seq!['\0'] + first_user_text(messages)),
            ) as nat,
            16,
        ),
{
    if let Some(key) = dedup_key(Some(id), folders, messages) {
        let hash = fnv1a(vstd::utf8::encode_utf8(id + seq!['\0'] + first_user_text(messages)));
        crate::digits::lemma_hex_tells_lower_part(hash as nat, 0, 16);
    }
}

/// The hash takes the bytes one after the other: each is mixed in by exclusive or before the
/// multiplication, modulo two to the sixty-fourth, and nothing hashes to the offset.
pub proof fn law_hash_takes_bytes_one_by_one(bytes: Seq<u8>, byte: u8)
    ensures
        fnv1a(Seq::empty()) == 14695981039346656037,
        ({
            let mixed: u64 = fnv1a(bytes) ^ (byte as u64);
            (fnv1a(bytes.push(byte)) - mixed as int * 1099511628211) % 18446744073709551616 == 0
        }),
{
    assert(bytes.push(byte).drop_last() =~= bytes);
    let mixed: u64 = fnv1a(bytes) ^ (byte as u64);
    let product = mixed as int * 1099511628211;
    assert((product % 18446744073709551616 - product) % 18446744073709551616 == 0);
}

} // verus!
