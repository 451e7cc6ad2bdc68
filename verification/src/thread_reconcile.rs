//! Bringing diverged copies of one conversation together.
//!
//! Threads that are known by the same key are one conversation. The oldest of them gets
//! the messages of all of them; the others are not deleted but made to point to it, so
//! that a merge can be taken back by clearing the pointers.

use vstd::prelude::*;
use crate::models::outcome;
use crate::lists::holds;
use crate::order::{
    before, comes_before, in_order, lemma_before_asymmetric, lemma_not_after_transitive, sorted,
    Ranked,
};
use crate::text::{copy_text, same};
use crate::thread_blob::{blob_text, read_blob, write_blob, BlobError, BlobErrorView, DataType};
use crate::thread_table::{
    MAX_HOPS, is_optional_before, lemma_optional_before, lemma_position, lemma_row_is_found, opened,
    optional_before, position_of, unique_ids, RowView, TableError, TableErrorView, ThreadRow,
    ThreadsDatabase,
};
use crate::time::{
    earlier, latest, latest_of, law_none_is_later_than_the_latest, parsed_time, time_text,
    Timestamp,
};

verus! {

/// What is known of one copy of a conversation.
#[derive(Debug)]
pub struct DuplicateThread {
    pub id: String,
    pub created_at: Option<String>,
    pub updated_at: String,
    pub data_type: DataType,
    pub data: Vec<u8>,
}

/// The model of a `DuplicateThread`.
pub struct MemberView {
    pub id: Seq<char>,
    pub created_at: Option<Seq<char>>,
    pub updated_at: Seq<char>,
    pub data_type: DataType,
    pub data: Seq<u8>,
}

impl DeepView for DuplicateThread {
    type V = MemberView;

    open spec fn deep_view(&self) -> MemberView {
        MemberView {
            id: self.id@,
            created_at: self.created_at.deep_view(),
            updated_at: self.updated_at@,
            data_type: self.data_type,
            data: self.data@,
        }
    }
}

/// The copies of one conversation.
#[derive(Debug)]
pub struct DuplicateGroup {
    /// What the conversation is known by.
    pub key: String,
    /// The copy that the others are merged into.
    pub canonical: DuplicateThread,
    /// The others, in the order in which they are merged.
    pub others: Vec<DuplicateThread>,
}

/// The model of a `DuplicateGroup`: its key, and its copies with the canonical one first.
pub struct GroupView {
    pub key: Seq<char>,
    pub members: Seq<MemberView>,
}

impl DeepView for DuplicateGroup {
    type V = GroupView;

    open spec fn deep_view(&self) -> GroupView {
        GroupView {
            key: self.key@,
            members: Seq::empty().push(self.canonical.deep_view()) + self.others.deep_view(),
        }
    }
}

/// What a pass over the table did.
#[derive(Debug, PartialEq, Eq)]
pub struct ThreadReconcileSummary {
    /// How many conversations had more than one copy.
    pub duplicate_groups: usize,
    /// How many threads were merged into another.
    pub merged_threads: usize,
    /// The ids of those threads.
    pub merged_session_ids: Vec<String>,
}

// ---------------------------------------------------------------------------
// Finding the copies

/// What is known of a row as a copy of a conversation.
pub open spec fn member_of(row: RowView) -> MemberView {
    MemberView {
        id: row.id,
        created_at: row.created_at,
        updated_at: row.updated_at,
        data_type: row.data_type,
        data: row.data,
    }
}

/// Whether a row is a copy of the conversation known by that key. A thread that was
/// merged into another no longer is.
pub open spec fn is_copy(row: RowView, key: Seq<char>) -> bool {
    row.dedup_key == Some(key) && row.merged_into is None
}

/// The copies of the conversation known by that key, in the order of the table.
pub open spec fn copies(rows: Seq<RowView>, key: Seq<char>) -> Seq<MemberView>
    decreases rows.len(),
{
    if rows.len() == 0 {
        Seq::empty()
    } else if is_copy(rows.last(), key) {
        copies(rows.drop_last(), key).push(member_of(rows.last()))
    } else {
        copies(rows.drop_last(), key)
    }
}

/// The keys of conversations, each where it first stands in the table.
pub open spec fn keys_in(rows: Seq<RowView>) -> Seq<Seq<char>>
    decreases rows.len(),
{
    if rows.len() == 0 {
        Seq::empty()
    } else {
        let rest = keys_in(rows.drop_last());
        match rows.last().dedup_key {
            Some(key) => if rows.last().merged_into is None && !rest.contains(key) {
                rest.push(key)
            } else {
                rest
            },
            None => rest,
        }
    }
}

/// Those of the keys whose conversation has more than one copy.
pub open spec fn with_copies(rows: Seq<RowView>, keys: Seq<Seq<char>>) -> Seq<Seq<char>>
    decreases keys.len(),
{
    if keys.len() == 0 {
        Seq::empty()
    } else {
        let rest = with_copies(rows, keys.drop_last());
        if copies(rows, keys.last()).len() >= 2 {
            rest.push(keys.last())
        } else {
            rest
        }
    }
}

/// The keys of conversations with more than one copy.
pub open spec fn duplicate_keys(rows: Seq<RowView>) -> Seq<Seq<char>> {
    with_copies(rows, keys_in(rows))
}

/// Whether a copy is older than another; of those created at one time, the one with the
/// smaller id.
pub open spec fn older(a: MemberView, b: MemberView) -> bool {
    optional_before(a.created_at, b.created_at) || (a.created_at == b.created_at && before(
        a.id,
        b.id,
    ))
}

impl Ranked for DuplicateThread {
    open spec fn ranks_before(a: MemberView, b: MemberView) -> bool {
        older(a, b)
    }

    proof fn ranks_asymmetric(a: MemberView, b: MemberView) {
        lemma_optional_before(a.created_at, b.created_at, None);
        lemma_optional_before(a.created_at, a.created_at, None);
        lemma_before_asymmetric(a.id, b.id);
    }

    proof fn ranks_transitive(a: MemberView, b: MemberView, c: MemberView) {
        lemma_optional_before(a.created_at, b.created_at, c.created_at);
        lemma_optional_before(b.created_at, c.created_at, a.created_at);
        lemma_optional_before(c.created_at, a.created_at, b.created_at);
        lemma_optional_before(b.created_at, a.created_at, c.created_at);
        lemma_optional_before(c.created_at, b.created_at, a.created_at);
        if c.created_at == a.created_at && a.created_at == b.created_at {
            if !before(b.id, a.id) && !before(c.id, b.id) {
                lemma_not_after_transitive(a.id, b.id, c.id);
            }
        }
    }

    fn comes_first(&self, other: &Self) -> (r: bool) {
        proof {
            lemma_optional_before(
                self.created_at.deep_view(),
                other.created_at.deep_view(),
                None,
            );
        }
        if is_optional_before(&self.created_at, &other.created_at) {
            return true;
        }
        if is_optional_before(&other.created_at, &self.created_at) {
            return false;
        }
        comes_before(self.id.as_str(), other.id.as_str())
    }
}

/// Whether a group holds all copies of the conversation known by its key, each once,
/// the oldest first.
pub open spec fn is_group(rows: Seq<RowView>, group: GroupView) -> bool {
    &&& group.members.to_multiset() == copies(rows, group.key).to_multiset()
    &&& in_order::<DuplicateThread>(group.members)
}

/// Whether the groups are those of all conversations with more than one copy.
pub open spec fn are_groups(rows: Seq<RowView>, groups: Seq<GroupView>) -> bool {
    &&& Seq::new(groups.len(), |g: int| groups[g].key) == duplicate_keys(rows)
    &&& forall|g: int| 0 <= g < groups.len() ==> is_group(rows, #[trigger] groups[g])
}

fn copies_of(rows: &Vec<ThreadRow>, key: &str) -> (r: Vec<DuplicateThread>)
    ensures
        r.deep_view() == copies(rows.deep_view(), key@),
{
    let ghost models = rows.deep_view();
    let mut out: Vec<DuplicateThread> = Vec::new();
    let mut i: usize = 0;
    proof {
        assert(models.take(0) =~= Seq::empty());
        assert(out.deep_view() =~= Seq::empty());
    }
    while i < rows.len()
        invariant
            i <= rows@.len(),
            models == rows.deep_view(),
            out.deep_view() == copies(models.take(i as int), key@),
        decreases rows@.len() - i,
    {
        let ghost done = out.deep_view();
        let row: &ThreadRow = &rows[i];
        proof {
            let next = models.take(i + 1);
            assert(next.drop_last() =~= models.take(i as int));
            assert(next.last() == row.deep_view());
        }
        let known = match &row.dedup_key {
            Some(own) => same(own.as_str(), key),
            None => false,
        };
        if known && row.merged_into.is_none() {
            let member = DuplicateThread {
                id: row.id.clone(),
                created_at: copy_text(&row.created_at),
                updated_at: row.updated_at.clone(),
                data_type: row.data_type,
                data: row.data.clone(),
            };
            assert(member.data@ =~= row.data@);
            out.push(member);
            assert(out.deep_view() =~= done.push(member.deep_view()));
        }
        i = i + 1;
    }
    assert(models.take(models.len() as int) =~= models);
    out
}

fn read_keys(rows: &Vec<ThreadRow>) -> (r: Vec<String>)
    ensures
        r.deep_view() == keys_in(rows.deep_view()),
{
    let ghost models = rows.deep_view();
    let mut keys: Vec<String> = Vec::new();
    let mut i: usize = 0;
    proof {
        assert(models.take(0) =~= Seq::empty());
        assert(keys.deep_view() =~= Seq::empty());
    }
    while i < rows.len()
        invariant
            i <= rows@.len(),
            models == rows.deep_view(),
            keys.deep_view() == keys_in(models.take(i as int)),
        decreases rows@.len() - i,
    {
        let ghost done = keys.deep_view();
        let row: &ThreadRow = &rows[i];
        proof {
            let next = models.take(i + 1);
            assert(next.drop_last() =~= models.take(i as int));
            assert(next.last() == row.deep_view());
        }
        if let Some(key) = &row.dedup_key {
            if row.merged_into.is_none() && !holds(&keys, key.as_str()) {
                keys.push(key.clone());
                assert(keys.deep_view() =~= done.push(key@));
            }
        }
        i = i + 1;
    }
    assert(models.take(models.len() as int) =~= models);
    keys
}

impl ThreadsDatabase {
    /// The copies of each conversation that has more than one.
    pub fn duplicate_groups(&self) -> (r: Vec<DuplicateGroup>)
        ensures
            are_groups(self.deep_view(), r.deep_view()),
    {
        let rows = self.rows();
        let ghost models = rows.deep_view();
        let keys = read_keys(rows);
        let ghost names = keys.deep_view();
        let mut groups: Vec<DuplicateGroup> = Vec::new();
        let mut i: usize = 0;
        proof {
            assert(names.take(0) =~= Seq::empty());
            assert(Seq::new(groups.deep_view().len(), |g: int| groups.deep_view()[g].key)
                =~= Seq::empty());
        }
        while i < keys.len()
            invariant
                i <= keys@.len(),
                names == keys.deep_view(),
                models == rows.deep_view(),
                Seq::new(groups.deep_view().len(), |g: int| groups.deep_view()[g].key)
                    == with_copies(models, names.take(i as int)),
                forall|g: int|
                    0 <= g < groups.deep_view().len() ==> is_group(
                        models,
                        #[trigger] groups.deep_view()[g],
                    ),
            decreases keys@.len() - i,
        {
            let ghost done = groups.deep_view();
            proof {
                let next = names.take(i + 1);
                assert(next.drop_last() =~= names.take(i as int));
                assert(next.last() == keys@[i as int]@);
            }
            let found = copies_of(rows, keys[i].as_str());
            assert(found.deep_view().len() == found@.len());
            if found.len() >= 2 {
                let mut members = sorted(found);
                let ghost all = members.deep_view();
                let canonical = members.remove(0);
                let group = DuplicateGroup { key: keys[i].clone(), canonical, others: members };
                proof {
                    assert(members.deep_view() =~= all.drop_first());
                    assert(all[0] == canonical.deep_view());
                    assert(group.deep_view().members =~= all);
                }
                groups.push(group);
                proof {
                    let after = groups.deep_view();
                    assert(after =~= done.push(group.deep_view()));
                    assert(Seq::new(after.len(), |g: int| after[g].key) =~= Seq::new(
                        done.len(),
                        |g: int| done[g].key,
                    ).push(group.key@));
                    assert forall|g: int| 0 <= g < after.len() implies is_group(
                        models,
                        #[trigger] after[g],
                    ) by {
                        if g < done.len() {
                            assert(after[g] == done[g]);
                        }
                    }
                }
            }
            i = i + 1;
        }
        assert(names.take(names.len() as int) =~= names);
        groups
    }
}

// ---------------------------------------------------------------------------
// Reading the copies

/// The texts of copies, or why the first that cannot be had cannot be had.
pub open spec fn member_texts(members: Seq<MemberView>) -> Result<Seq<Seq<char>>, BlobErrorView>
    decreases members.len(),
{
    if members.len() == 0 {
        Ok(Seq::empty())
    } else {
        match member_texts(members.drop_last()) {
            Ok(texts) => match blob_text(members.last().data_type, members.last().data) {
                Ok(text) => Ok(texts.push(text)),
                Err(error) => Err(error),
            },
            Err(error) => Err(error),
        }
    }
}

/// The times at which copies were last updated, or what is said of the first that is none.
pub open spec fn member_times(members: Seq<MemberView>) -> Result<Seq<(i64, u32)>, Seq<char>>
    decreases members.len(),
{
    if members.len() == 0 {
        Ok(Seq::empty())
    } else {
        match member_times(members.drop_last()) {
            Ok(times) => match parsed_time(members.last().updated_at) {
                Ok(time) => Ok(times.push(time)),
                Err(error) => Err(error),
            },
            Err(error) => Err(error),
        }
    }
}

proof fn lemma_times_fail(members: Seq<MemberView>, n: int)
    requires
        0 <= n <= members.len(),
        member_times(members.take(n)) is Err,
    ensures
        member_times(members) == member_times(members.take(n)),
    decreases members.len() - n,
{
    if n < members.len() {
        assert(members.take(n + 1).drop_last() =~= members.take(n));
        lemma_times_fail(members, n + 1);
    } else {
        assert(members.take(n) =~= members);
    }
}

proof fn lemma_texts_fail(members: Seq<MemberView>, n: int)
    requires
        0 <= n <= members.len(),
        member_texts(members.take(n)) is Err,
    ensures
        member_texts(members) == member_texts(members.take(n)),
    decreases members.len() - n,
{
    if n < members.len() {
        assert(members.take(n + 1).drop_last() =~= members.take(n));
        lemma_texts_fail(members, n + 1);
    } else {
        assert(members.take(n) =~= members);
    }
}

impl DuplicateGroup {
    /// The texts of the copies, that of the canonical one first.
    pub fn texts(&self) -> (r: Result<Vec<String>, BlobError>)
        ensures
            outcome(r) == member_texts(self.deep_view().members),
    {
        let ghost members = self.deep_view().members;
        let mut texts: Vec<String> = Vec::new();
        proof {
            reveal_with_fuel(member_texts, 2);
            assert(texts.deep_view() =~= Seq::empty());
            assert(members.take(1).drop_last() =~= Seq::empty());
            assert(members.take(1).last() == self.canonical.deep_view());
        }
        match read_blob(self.canonical.data_type, &self.canonical.data) {
            Ok(text) => {
                texts.push(text);
                assert(texts.deep_view() =~= Seq::empty().push(text@));
            },
            Err(error) => {
                proof {
                    lemma_texts_fail(members, 1);
                }
                return Err(error);
            },
        }
        let mut i: usize = 0;
        while i < self.others.len()
            invariant
                i <= self.others@.len(),
                members == self.deep_view().members,
                member_texts(members.take(i + 1)) == Ok::<Seq<Seq<char>>, BlobErrorView>(
                    texts.deep_view(),
                ),
            decreases self.others@.len() - i,
        {
            let ghost done = texts.deep_view();
            proof {
                let next = members.take(i + 2);
                assert(next.drop_last() =~= members.take(i + 1));
                assert(next.last() == self.others@[i as int].deep_view());
            }
            match read_blob(self.others[i].data_type, &self.others[i].data) {
                Ok(text) => {
                    texts.push(text);
                    assert(texts.deep_view() =~= done.push(text@));
                },
                Err(error) => {
                    proof {
                        lemma_texts_fail(members, i + 2);
                    }
                    return Err(error);
                },
            }
            i = i + 1;
        }
        assert(members.take(members.len() as int) =~= members);
        Ok(texts)
    }

    fn times(&self) -> (r: Result<Vec<Timestamp>, String>)
        ensures
            outcome(r) == member_times(self.deep_view().members),
            r matches Ok(times) ==> times@.len() > 0,
    {
        let ghost members = self.deep_view().members;
        let mut times: Vec<Timestamp> = Vec::new();
        proof {
            reveal_with_fuel(member_times, 2);
            assert(times.deep_view() =~= Seq::empty());
            assert(members.take(1).drop_last() =~= Seq::empty());
            assert(members.take(1).last() == self.canonical.deep_view());
        }
        match Timestamp::parse(self.canonical.updated_at.as_str()) {
            Ok(time) => {
                times.push(time);
                assert(times.deep_view() =~= Seq::empty().push(time.deep_view()));
            },
            Err(error) => {
                proof {
                    lemma_times_fail(members, 1);
                }
                return Err(error);
            },
        }
        let mut i: usize = 0;
        while i < self.others.len()
            invariant
                i <= self.others@.len(),
                times@.len() == i + 1,
                members == self.deep_view().members,
                member_times(members.take(i + 1)) == Ok::<Seq<(i64, u32)>, Seq<char>>(
                    times.deep_view(),
                ),
            decreases self.others@.len() - i,
        {
            let ghost done = times.deep_view();
            proof {
                let next = members.take(i + 2);
                assert(next.drop_last() =~= members.take(i + 1));
                assert(next.last() == self.others@[i as int].deep_view());
            }
            match Timestamp::parse(self.others[i].updated_at.as_str()) {
                Ok(time) => {
                    times.push(time);
                    assert(times.deep_view() =~= done.push(time.deep_view()));
                },
                Err(error) => {
                    proof {
                        lemma_times_fail(members, i + 2);
                    }
                    return Err(error);
                },
            }
            i = i + 1;
        }
        assert(members.take(members.len() as int) =~= members);
        Ok(times)
    }
}

// ---------------------------------------------------------------------------
// Merging

/// Whether a thread is one of the copies that are merged into the canonical one.
pub open spec fn is_loser(group: GroupView, id: Seq<char>) -> bool {
    exists|k: int| 1 <= k < group.members.len() && (#[trigger] group.members[k]).id == id
}

/// A row after the copies in a group were merged: the canonical one has the merged data
/// and the time of the latest update, and the others point to it.
pub open spec fn merged_row(
    row: RowView,
    group: GroupView,
    data: Seq<u8>,
    updated_at: Seq<char>,
) -> RowView {
    let canonical = group.members[0].id;
    let changed = if row.id == canonical {
        RowView { data, data_type: DataType::Zstd, updated_at, ..row }
    } else {
        row
    };
    if is_loser(group, row.id) {
        RowView { merged_into: Some(canonical), ..changed }
    } else {
        changed
    }
}

/// The rows after the copies in a group were merged.
pub open spec fn merged_rows(
    rows: Seq<RowView>,
    group: GroupView,
    data: Seq<u8>,
    updated_at: Seq<char>,
) -> Seq<RowView> {
    Seq::new(rows.len(), |i: int| merged_row(rows[i], group, data, updated_at))
}

/// The text of the time at which the copies in a group were last updated.
pub open spec fn latest_update(group: GroupView) -> Seq<char> {
    time_text(latest(member_times(group.members)->Ok_0))
}

/// The rows after the copies in each group were merged.
pub open spec fn reconciled(
    rows: Seq<RowView>,
    groups: Seq<GroupView>,
    blobs: Seq<Seq<u8>>,
) -> Seq<RowView>
    decreases groups.len(),
{
    if groups.len() == 0 {
        rows
    } else {
        merged_rows(
            reconciled(rows, groups.drop_last(), blobs.drop_last()),
            groups.last(),
            blobs.last(),
            latest_update(groups.last()),
        )
    }
}

/// The ids of the threads that are merged into another.
pub open spec fn losers(groups: Seq<GroupView>) -> Seq<Seq<char>>
    decreases groups.len(),
{
    if groups.len() == 0 {
        Seq::empty()
    } else {
        let members = groups.last().members;
        losers(groups.drop_last()) + Seq::new(
            (members.len() - 1) as nat,
            |k: int| members[k + 1].id,
        )
    }
}

/// What a pass did.
pub open spec fn is_summary(summary: ThreadReconcileSummary, groups: Seq<GroupView>) -> bool {
    &&& summary.duplicate_groups == groups.len()
    &&& summary.merged_session_ids.deep_view() == losers(groups)
    &&& summary.merged_threads == losers(groups).len()
}

proof fn lemma_same_ids(rows: Seq<RowView>, after: Seq<RowView>)
    requires
        unique_ids(rows),
        after.len() == rows.len(),
        forall|i: int| 0 <= i < rows.len() ==> (#[trigger] after[i]).id == rows[i].id,
    ensures
        unique_ids(after),
{
    assert forall|i: int, j: int| 0 <= i < j < after.len() implies (#[trigger] after[i]).id != (
    #[trigger] after[j]).id by {
        assert(rows[i].id != rows[j].id);
    }
}

fn point_to(rows: &mut Vec<ThreadRow>, id: &str, canonical: &str)
    requires
        unique_ids(old(rows).deep_view()),
    ensures
        final(rows).deep_view() == Seq::new(
            old(rows).deep_view().len(),
            |i: int|
                if old(rows).deep_view()[i].id == id@ {
                    RowView { merged_into: Some(canonical@), ..old(rows).deep_view()[i] }
                } else {
                    old(rows).deep_view()[i]
                },
        ),
{
    let ghost models = rows.deep_view();
    let ghost rows_before = rows@;
    let at = position_of(rows, id);
    proof {
        lemma_position(models, id@);
        assert forall|i: int| 0 <= i < models.len() && i != at implies (#[trigger] models[i]).id
            != id@ by {
            if i > at {
                assert(models[at as int].id != models[i].id);
            }
        }
    }
    if at < rows.len() {
        let row = &mut rows[at];
        row.merged_into = Some(canonical.to_owned());
        proof {
            assert(rows_before[at as int].deep_view() == models[at as int]);
            assert forall|i: int| 0 <= i < models.len() && i != at implies #[trigger] rows@[i]
                == rows_before[i] by {}
        }
    }
    proof {
        assert(rows.deep_view() =~= Seq::new(
            models.len(),
            |i: int|
                if models[i].id == id@ {
                    RowView { merged_into: Some(canonical@), ..models[i] }
                } else {
                    models[i]
                },
        )) by {
            assert forall|i: int| 0 <= i < models.len() implies #[trigger] rows.deep_view()[i] == (
            if models[i].id == id@ {
                RowView { merged_into: Some(canonical@), ..models[i] }
            } else {
                models[i]
            }) by {
                assert(rows.deep_view()[i] == rows@[i].deep_view());
                assert(models[i] == rows_before[i].deep_view());
            }
        }
    }
}

/// A group with so many of its copies.
spec fn first_copies(group: GroupView, count: int) -> GroupView {
    GroupView { key: group.key, members: group.members.take(count) }
}

proof fn lemma_one_more_loser(group: GroupView, count: int, id: Seq<char>)
    requires
        1 <= count < group.members.len(),
    ensures
        is_loser(first_copies(group, count + 1), id) <==> is_loser(first_copies(group, count), id)
            || group.members[count].id == id,
{
    let fewer = first_copies(group, count);
    let more = first_copies(group, count + 1);
    if is_loser(fewer, id) {
        let k = choose|k: int|
            1 <= k < fewer.members.len() && (#[trigger] fewer.members[k]).id == id;
        assert(more.members[k].id == id);
    }
    if group.members[count].id == id {
        assert(more.members[count].id == id);
    }
    if is_loser(more, id) {
        let k = choose|k: int|
            1 <= k < more.members.len() && (#[trigger] more.members[k]).id == id;
        if k < count {
            assert(fewer.members[k].id == id);
        }
    }
}

fn merge_into_canonical(
    rows: &mut Vec<ThreadRow>,
    group: &DuplicateGroup,
    data: Vec<u8>,
    updated_at: String,
)
    requires
        unique_ids(old(rows).deep_view()),
    ensures
        final(rows).deep_view() == merged_rows(
            old(rows).deep_view(),
            group.deep_view(),
            data@,
            updated_at@,
        ),
        unique_ids(final(rows).deep_view()),
{
    let ghost models = rows.deep_view();
    let ghost whole = group.deep_view();
    let ghost bytes = data@;
    let ghost time = updated_at@;
    let ghost rows_before = rows@;
    let canonical = group.canonical.id.as_str();
    let at = position_of(rows, canonical);
    proof {
        lemma_position(models, canonical@);
        assert forall|i: int| 0 <= i < models.len() && i != at implies (#[trigger] models[i]).id
            != canonical@ by {
            if i > at {
                assert(models[at as int].id != models[i].id);
            }
        }
    }
    if at < rows.len() {
        let row = &mut rows[at];
        row.data = data;
        row.data_type = DataType::Zstd;
        row.updated_at = updated_at;
        proof {
            assert(rows_before[at as int].deep_view() == models[at as int]);
        }
    }
    proof {
        let first = first_copies(whole, 1);
        assert(first.members[0].id == canonical@);
        assert forall|i: int| 0 <= i < models.len() implies #[trigger] rows.deep_view()[i]
            == merged_row(models[i], first, bytes, time) by {
            assert(rows.deep_view()[i] == rows@[i].deep_view());
            assert(models[i] == rows_before[i].deep_view());
            assert(!is_loser(first, models[i].id));
        }
        assert(rows.deep_view() =~= merged_rows(models, first, bytes, time));
        lemma_same_ids(models, rows.deep_view());
    }
    let mut i: usize = 0;
    while i < group.others.len()
        invariant
            i <= group.others@.len(),
            unique_ids(models),
            unique_ids(rows.deep_view()),
            whole == group.deep_view(),
            canonical@ == whole.members[0].id,
            rows.deep_view() == merged_rows(models, first_copies(whole, i + 1), bytes, time),
        decreases group.others@.len() - i,
    {
        let ghost between = rows.deep_view();
        let loser = group.others[i].id.as_str();
        point_to(rows, loser, canonical);
        proof {
            let fewer = first_copies(whole, i + 1);
            let more = first_copies(whole, i + 2);
            assert(whole.members[i + 1].id == loser@);
            assert forall|j: int| 0 <= j < models.len() implies #[trigger] rows.deep_view()[j]
                == merged_row(models[j], more, bytes, time) by {
                lemma_one_more_loser(whole, i + 1, models[j].id);
                assert(between[j] == merged_row(models[j], fewer, bytes, time));
            }
            assert(rows.deep_view() =~= merged_rows(models, more, bytes, time));
            lemma_same_ids(models, rows.deep_view());
        }
        i = i + 1;
    }
    assert(whole.members.take(whole.members.len() as int) =~= whole.members);
}

/// What is said of the first time in the copies of groups that is none.
pub open spec fn unreadable_time(groups: Seq<GroupView>) -> Option<Seq<char>>
    decreases groups.len(),
{
    if groups.len() == 0 {
        None
    } else {
        match unreadable_time(groups.drop_last()) {
            Some(text) => Some(text),
            None => match member_times(groups.last().members) {
                Ok(_) => None,
                Err(text) => Some(text),
            },
        }
    }
}

proof fn lemma_unreadable_time(groups: Seq<GroupView>, n: int)
    requires
        0 <= n <= groups.len(),
        unreadable_time(groups.take(n)) is Some,
    ensures
        unreadable_time(groups) == unreadable_time(groups.take(n)),
    decreases groups.len() - n,
{
    if n < groups.len() {
        assert(groups.take(n + 1).drop_last() =~= groups.take(n));
        lemma_unreadable_time(groups, n + 1);
    } else {
        assert(groups.take(n) =~= groups);
    }
}

fn latest_updates(groups: &Vec<DuplicateGroup>) -> (r: Result<Vec<String>, String>)
    ensures
        match unreadable_time(groups.deep_view()) {
            Some(text) => r matches Err(t) && t@ == text,
            None => r matches Ok(updates) && updates.deep_view() == Seq::new(
                groups@.len(),
                |g: int| latest_update(groups.deep_view()[g]),
            ),
        },
{
    let ghost models = groups.deep_view();
    let ghost wanted = Seq::new(groups@.len(), |g: int| latest_update(models[g]));
    let mut updates: Vec<String> = Vec::new();
    let mut i: usize = 0;
    proof {
        assert(models.take(0) =~= Seq::empty());
        assert(updates.deep_view() =~= wanted.take(0));
    }
    while i < groups.len()
        invariant
            i <= groups@.len(),
            models == groups.deep_view(),
            wanted == Seq::new(groups@.len(), |g: int| latest_update(models[g])),
            unreadable_time(models.take(i as int)) is None,
            updates.deep_view() == wanted.take(i as int),
        decreases groups@.len() - i,
    {
        let ghost done = updates.deep_view();
        proof {
            let next = models.take(i + 1);
            assert(next.drop_last() =~= models.take(i as int));
            assert(next.last() == groups@[i as int].deep_view());
            assert(models[i as int] == groups@[i as int].deep_view());
        }
        match groups[i].times() {
            Ok(times) => {
                let update = latest_of(&times).to_text();
                updates.push(update);
                assert(updates.deep_view() =~= done.push(update@));
            },
            Err(text) => {
                proof {
                    lemma_unreadable_time(models, i + 1);
                }
                return Err(text);
            },
        }
        i = i + 1;
        assert(updates.deep_view() =~= wanted.take(i as int));
    }
    proof {
        assert(models.take(models.len() as int) =~= models);
        assert(wanted.take(wanted.len() as int) =~= wanted);
    }
    Ok(updates)
}

fn loser_ids(groups: &Vec<DuplicateGroup>) -> (r: Vec<String>)
    ensures
        r.deep_view() == losers(groups.deep_view()),
{
    let ghost models = groups.deep_view();
    let mut ids: Vec<String> = Vec::new();
    let mut i: usize = 0;
    proof {
        assert(models.take(0) =~= Seq::empty());
        assert(ids.deep_view() =~= Seq::empty());
    }
    while i < groups.len()
        invariant
            i <= groups@.len(),
            models == groups.deep_view(),
            ids.deep_view() == losers(models.take(i as int)),
        decreases groups@.len() - i,
    {
        let ghost done = ids.deep_view();
        let group: &DuplicateGroup = &groups[i];
        let ghost members = group.deep_view().members;
        let ghost more = Seq::new((members.len() - 1) as nat, |k: int| members[k + 1].id);
        let mut k: usize = 0;
        assert(done + more.take(0) =~= done);
        while k < group.others.len()
            invariant
                k <= group.others@.len(),
                members == group.deep_view().members,
                more == Seq::new((members.len() - 1) as nat, |k: int| members[k + 1].id),
                ids.deep_view() == done + more.take(k as int),
            decreases group.others@.len() - k,
        {
            let ghost so_far = ids.deep_view();
            let id = group.others[k].id.clone();
            ids.push(id);
            proof {
                assert(ids.deep_view() =~= so_far.push(id@));
                assert(members[k + 1] == group.others@[k as int].deep_view());
                assert(ids.deep_view() =~= done + more.take(k + 1));
            }
            k = k + 1;
        }
        proof {
            assert(more.take(more.len() as int) =~= more);
            let next = models.take(i + 1);
            assert(next.drop_last() =~= models.take(i as int));
            assert(next.last() == group.deep_view());
        }
        i = i + 1;
    }
    assert(models.take(models.len() as int) =~= models);
    ids
}

proof fn lemma_reconciled_unique(
    rows: Seq<RowView>,
    groups: Seq<GroupView>,
    blobs: Seq<Seq<u8>>,
)
    requires
        unique_ids(rows),
    ensures
        reconciled(rows, groups, blobs).len() == rows.len(),
        forall|i: int|
            0 <= i < rows.len() ==> (#[trigger] reconciled(rows, groups, blobs)[i]).id
                == rows[i].id,
        unique_ids(reconciled(rows, groups, blobs)),
    decreases groups.len(),
{
    if groups.len() > 0 {
        lemma_reconciled_unique(rows, groups.drop_last(), blobs.drop_last());
        let sofar = reconciled(rows, groups.drop_last(), blobs.drop_last());
        assert forall|i: int| 0 <= i < rows.len() implies (#[trigger] reconciled(
            rows,
            groups,
            blobs,
        )[i]).id == rows[i].id by {
            assert(sofar[i].id == rows[i].id);
        }
        lemma_same_ids(rows, reconciled(rows, groups, blobs));
    }
}

impl ThreadsDatabase {
    /// Merges the copies in each group, `blobs` being the compressed texts of the merged
    /// threads, one for each group. Where a time at which a copy was updated is none,
    /// nothing changes at all.
    pub fn merge_duplicates(&mut self, groups: &Vec<DuplicateGroup>, blobs: &Vec<Vec<u8>>) -> (r:
        Result<ThreadReconcileSummary, TableError>)
        requires
            groups@.len() == blobs@.len(),
        ensures
            match unreadable_time(groups.deep_view()) {
                None => {
                    &&& r matches Ok(summary) && is_summary(summary, groups.deep_view())
                    &&& final(self).deep_view() == reconciled(
                        old(self).deep_view(),
                        groups.deep_view(),
                        blobs.deep_view(),
                    )
                },
                Some(text) => {
                    &&& r matches Err(error) && error.deep_view() == TableErrorView::BadTime(text)
                    &&& final(self).deep_view() == old(self).deep_view()
                },
            },
    {
        let ghost models = groups.deep_view();
        let ghost data = blobs.deep_view();
        let updates = match latest_updates(groups) {
            Ok(updates) => updates,
            Err(text) => {
                return Err(TableError::BadTime(text));
            },
        };
        let ghost times = updates.deep_view();
        let mut rows = self.take_rows();
        let ghost start = rows.deep_view();
        let mut i: usize = 0;
        proof {
            assert(times.len() == updates@.len());
            assert(models.take(0) =~= Seq::empty());
            assert(reconciled(start, models.take(0), data.take(0)) == start);
        }
        while i < groups.len()
            invariant
                i <= groups@.len(),
                models == groups.deep_view(),
                data == blobs.deep_view(),
                times == updates.deep_view(),
                times == Seq::new(groups@.len(), |g: int| latest_update(models[g])),
                groups@.len() == blobs@.len(),
                groups@.len() == updates@.len(),
                unique_ids(rows.deep_view()),
                rows.deep_view() == reconciled(start, models.take(i as int), data.take(i as int)),
            decreases groups@.len() - i,
        {
            let blob = blobs[i].clone();
            proof {
                let next = models.take(i + 1);
                assert(next.drop_last() =~= models.take(i as int));
                assert(data.take(i + 1).drop_last() =~= data.take(i as int));
                assert(next.last() == groups@[i as int].deep_view());
                assert(next.last() == models[i as int]);
                assert(blob@ =~= blobs@[i as int]@);
                assert(blobs@[i as int].deep_view() =~= blobs@[i as int]@);
                assert(data.take(i + 1).last() == blob@);
                assert(updates@[i as int]@ == times[i as int]);
            }
            merge_into_canonical(&mut rows, &groups[i], blob, updates[i].clone());
            i = i + 1;
        }
        proof {
            assert(models.take(models.len() as int) =~= models);
            assert(data.take(data.len() as int) =~= data);
        }
        self.put_rows(rows);
        let merged_session_ids = loser_ids(groups);
        Ok(
            ThreadReconcileSummary {
                duplicate_groups: groups.len(),
                merged_threads: merged_session_ids.len(),
                merged_session_ids,
            },
        )
    }

    /// Merges the copies in each group, `merged` being the texts of the merged threads,
    /// one for each group. Where a time at which a copy was updated is none, nothing
    /// changes at all.
    pub fn finish_reconcile(&mut self, groups: &Vec<DuplicateGroup>, merged: &Vec<String>) -> (r:
        Result<ThreadReconcileSummary, TableError>)
        requires
            groups@.len() == merged@.len(),
        ensures
            match unreadable_time(groups.deep_view()) {
                None => {
                    &&& r matches Ok(summary) && is_summary(summary, groups.deep_view())
                    &&& exists|blobs: Seq<Seq<u8>>|
                        {
                            &&& blobs.len() == merged@.len()
                            &&& forall|i: int|
                                0 <= i < blobs.len() ==> blob_text(
                                    DataType::Zstd,
                                    #[trigger] blobs[i],
                                ) == Ok::<Seq<char>, BlobErrorView>(merged@[i]@)
                            &&& final(self).deep_view() == #[trigger] reconciled(
                                old(self).deep_view(),
                                groups.deep_view(),
                                blobs,
                            )
                        }
                },
                Some(text) => {
                    &&& r matches Err(error) && error.deep_view() == TableErrorView::BadTime(text)
                    &&& final(self).deep_view() == old(self).deep_view()
                },
            },
    {
        let mut blobs: Vec<Vec<u8>> = Vec::new();
        let mut i: usize = 0;
        while i < merged.len()
            invariant
                i <= merged@.len(),
                blobs@.len() == i,
                forall|j: int|
                    0 <= j < i ==> blob_text(DataType::Zstd, (#[trigger] blobs@[j])@) == Ok::<
                        Seq<char>,
                        BlobErrorView,
                    >(merged@[j]@),
            decreases merged@.len() - i,
        {
            match write_blob(merged[i].as_str()) {
                Ok(blob) => {
                    blobs.push(blob);
                },
                Err(error) => {
                    return Err(TableError::Blob(error));
                },
            }
            i = i + 1;
        }
        proof {
            let data = blobs.deep_view();
            assert forall|j: int| 0 <= j < data.len() implies blob_text(
                DataType::Zstd,
                #[trigger] data[j],
            ) == Ok::<Seq<char>, BlobErrorView>(merged@[j]@) by {
                assert(data[j] =~= blobs@[j]@);
            }
        }
        self.merge_duplicates(groups, &blobs)
    }
}

// ---------------------------------------------------------------------------
// What holds of a pass

/// Whether a thread is one of the copies in a group.
pub open spec fn is_member(group: GroupView, id: Seq<char>) -> bool {
    exists|k: int| 0 <= k < group.members.len() && (#[trigger] group.members[k]).id == id
}

/// A pass deletes nothing and moves nothing: every row stays in its place, with its id,
/// its parent, its folders, its workspace, its title, its key and when it was created. A
/// thread that is no copy stays as it is. Of a copy that is merged into another only the
/// pointer changes, so that clearing it takes the merge back.
pub proof fn law_reconcile_deletes_nothing(
    rows: Seq<RowView>,
    groups: Seq<GroupView>,
    blobs: Seq<Seq<u8>>,
    i: int,
)
    requires
        0 <= i < rows.len(),
        groups.len() == blobs.len(),
        forall|g: int| 0 <= g < groups.len() ==> (#[trigger] groups[g]).members.len() > 0,
    ensures
        reconciled(rows, groups, blobs).len() == rows.len(),
        ({
            let after = reconciled(rows, groups, blobs)[i];
            &&& after == (RowView {
                data: after.data,
                data_type: after.data_type,
                updated_at: after.updated_at,
                merged_into: after.merged_into,
                ..rows[i]
            })
            &&& (forall|g: int|
                0 <= g < groups.len() ==> !is_member(#[trigger] groups[g], rows[i].id))
                ==> after == rows[i]
            &&& (forall|g: int|
                0 <= g < groups.len() ==> (#[trigger] groups[g]).members[0].id != rows[i].id)
                ==> after == (RowView { merged_into: after.merged_into, ..rows[i] })
        }),
    decreases groups.len(),
{
    if groups.len() > 0 {
        let fewer = groups.drop_last();
        assert forall|g: int| 0 <= g < fewer.len() implies (#[trigger] fewer[g]).members.len() > 0 by {
            assert(groups[g] == fewer[g]);
        }
        law_reconcile_deletes_nothing(rows, fewer, blobs.drop_last(), i);
        let before = reconciled(rows, fewer, blobs.drop_last())[i];
        let group = groups.last();
        assert(reconciled(rows, groups, blobs)[i] == merged_row(
            before,
            group,
            blobs.last(),
            latest_update(group),
        ));
        assert(group == groups[groups.len() - 1]);
        assert(forall|g: int| 0 <= g < fewer.len() ==> groups[g] == #[trigger] fewer[g]);
        if forall|g: int| 0 <= g < groups.len() ==> !is_member(#[trigger] groups[g], rows[i].id) {
            assert forall|g: int| 0 <= g < fewer.len() implies !is_member(
                #[trigger] fewer[g],
                rows[i].id,
            ) by {
                assert(groups[g] == fewer[g]);
            }
            assert(!is_member(group, rows[i].id));
            if is_loser(group, rows[i].id) {
                let k = choose|k: int|
                    1 <= k < group.members.len() && (#[trigger] group.members[k]).id == rows[i].id;
                assert(is_member(group, rows[i].id));
            }
            if group.members.len() > 0 && group.members[0].id == rows[i].id {
                assert(is_member(group, rows[i].id));
            }
        }
        if forall|g: int|
            0 <= g < groups.len() ==> (#[trigger] groups[g]).members[0].id != rows[i].id {
            assert forall|g: int| 0 <= g < fewer.len() implies (#[trigger] fewer[g]).members[0].id
                != rows[i].id by {
                assert(groups[g] == fewer[g]);
            }
        }
    }
}

proof fn lemma_copy_has_a_row(rows: Seq<RowView>, key: Seq<char>, m: int)
    requires
        0 <= m < copies(rows, key).len(),
    ensures
        exists|i: int|
            0 <= i < rows.len() && is_copy(#[trigger] rows[i], key) && member_of(rows[i])
                == copies(rows, key)[m],
    decreases rows.len(),
{
    let rest = rows.drop_last();
    if m < copies(rest, key).len() {
        lemma_copy_has_a_row(rest, key, m);
        let i = choose|i: int|
            0 <= i < rest.len() && is_copy(#[trigger] rest[i], key) && member_of(rest[i])
                == copies(rest, key)[m];
        assert(rows[i] == rest[i]);
    } else {
        assert(is_copy(rows[rows.len() - 1], key));
    }
}

proof fn lemma_row_is_among_copies(rows: Seq<RowView>, key: Seq<char>, i: int)
    requires
        0 <= i < rows.len(),
        is_copy(rows[i], key),
    ensures
        copies(rows, key).contains(member_of(rows[i])),
    decreases rows.len(),
{
    let rest = rows.drop_last();
    let all = copies(rows, key);
    if i < rest.len() {
        assert(rest[i] == rows[i]);
        lemma_row_is_among_copies(rest, key, i);
        let m = choose|m: int|
            0 <= m < copies(rest, key).len() && copies(rest, key)[m] == member_of(rows[i]);
        assert(all[m] == member_of(rows[i]));
    } else {
        assert(all[all.len() - 1] == member_of(rows[i]));
    }
}

proof fn lemma_copies_are_distinct(rows: Seq<RowView>, key: Seq<char>)
    requires
        unique_ids(rows),
    ensures
        copies(rows, key).no_duplicates(),
    decreases rows.len(),
{
    if rows.len() > 0 {
        let rest = rows.drop_last();
        lemma_copies_are_distinct(rest, key);
        let all = copies(rows, key);
        let some = copies(rest, key);
        assert forall|a: int, b: int| 0 <= a < all.len() && 0 <= b < all.len() && a != b implies all[a]
            != all[b] by {
            if a < some.len() && b < some.len() {
                assert(some[a] != some[b]);
            } else {
                let c = if a < some.len() {
                    a
                } else {
                    b
                };
                lemma_copy_has_a_row(rest, key, c);
                let i = choose|i: int|
                    0 <= i < rest.len() && is_copy(#[trigger] rest[i], key) && member_of(rest[i])
                        == some[c];
                assert(rows[i].id != rows[rows.len() - 1].id);
            }
        }
    }
}

/// The copies in a group are those of the table, each once.
proof fn lemma_group(rows: Seq<RowView>, group: GroupView)
    requires
        unique_ids(rows),
        is_group(rows, group),
    ensures
        group.members.len() == copies(rows, group.key).len(),
        group.members.no_duplicates(),
        forall|k: int|
            0 <= k < group.members.len() ==> copies(rows, group.key).contains(
                #[trigger] group.members[k],
            ),
        forall|m: MemberView| #[trigger]
            copies(rows, group.key).contains(m) ==> group.members.contains(m),
{
    broadcast use vstd::seq_lib::group_to_multiset_ensures;

    let all = copies(rows, group.key);
    lemma_copies_are_distinct(rows, group.key);
    all.lemma_multiset_has_no_duplicates();
    group.members.lemma_multiset_has_no_duplicates_conv();
    assert(group.members.len() == group.members.to_multiset().len());
    assert(all.len() == all.to_multiset().len());
    assert forall|k: int| 0 <= k < group.members.len() implies all.contains(
        #[trigger] group.members[k],
    ) by {
        assert(group.members.contains(group.members[k]));
        assert(group.members.to_multiset().count(group.members[k]) > 0);
        assert(all.to_multiset().count(group.members[k]) > 0);
    }
    assert forall|m: MemberView| #[trigger] all.contains(m) implies group.members.contains(m) by {
        assert(all.to_multiset().count(m) > 0);
        assert(group.members.to_multiset().count(m) > 0);
    }
}

/// The row of a copy in a group.
proof fn lemma_member_has_a_row(rows: Seq<RowView>, group: GroupView, k: int)
    requires
        unique_ids(rows),
        is_group(rows, group),
        0 <= k < group.members.len(),
    ensures
        exists|i: int|
            0 <= i < rows.len() && is_copy(#[trigger] rows[i], group.key) && member_of(rows[i])
                == group.members[k],
{
    lemma_group(rows, group);
    let all = copies(rows, group.key);
    assert(all.contains(group.members[k]));
    let m = choose|m: int| 0 <= m < all.len() && all[m] == group.members[k];
    lemma_copy_has_a_row(rows, group.key, m);
}

proof fn lemma_same_row(rows: Seq<RowView>, i: int, j: int)
    requires
        unique_ids(rows),
        0 <= i < rows.len(),
        0 <= j < rows.len(),
        rows[i].id == rows[j].id,
    ensures
        i == j,
{
    if i < j {
        assert(rows[i].id != rows[j].id);
    } else if j < i {
        assert(rows[j].id != rows[i].id);
    }
}

/// No copy in a group is the canonical one and another at once.
proof fn lemma_canonical_is_no_loser(rows: Seq<RowView>, group: GroupView)
    requires
        unique_ids(rows),
        is_group(rows, group),
        group.members.len() > 0,
    ensures
        !is_loser(group, group.members[0].id),
{
    if is_loser(group, group.members[0].id) {
        let k = choose|k: int|
            1 <= k < group.members.len() && (#[trigger] group.members[k]).id
                == group.members[0].id;
        lemma_group(rows, group);
        lemma_member_has_a_row(rows, group, 0);
        lemma_member_has_a_row(rows, group, k);
        let i = choose|i: int|
            0 <= i < rows.len() && is_copy(#[trigger] rows[i], group.key) && member_of(rows[i])
                == group.members[0];
        let j = choose|j: int|
            0 <= j < rows.len() && is_copy(#[trigger] rows[j], group.key) && member_of(rows[j])
                == group.members[k];
        lemma_same_row(rows, i, j);
        assert(group.members[0] != group.members[k]);
    }
}

proof fn lemma_keys_are_distinct(rows: Seq<RowView>)
    ensures
        keys_in(rows).no_duplicates(),
    decreases rows.len(),
{
    if rows.len() > 0 {
        lemma_keys_are_distinct(rows.drop_last());
    }
}

proof fn lemma_with_copies(rows: Seq<RowView>, keys: Seq<Seq<char>>)
    ensures
        keys.no_duplicates() ==> with_copies(rows, keys).no_duplicates(),
        forall|key: Seq<char>| #[trigger]
            with_copies(rows, keys).contains(key) <==> keys.contains(key) && copies(
                rows,
                key,
            ).len() >= 2,
    decreases keys.len(),
{
    if keys.len() > 0 {
        let fewer = keys.drop_last();
        lemma_with_copies(rows, fewer);
        let rest = with_copies(rows, fewer);
        let all = with_copies(rows, keys);
        assert forall|key: Seq<char>| #[trigger]
            all.contains(key) <==> keys.contains(key) && copies(rows, key).len() >= 2 by {
            if all.contains(key) {
                let m = choose|m: int| 0 <= m < all.len() && all[m] == key;
                if m < rest.len() {
                    assert(rest.contains(rest[m]));
                    let n = choose|n: int| 0 <= n < fewer.len() && fewer[n] == key;
                    assert(keys[n] == key);
                } else {
                    assert(keys[keys.len() - 1] == key);
                }
            }
            if keys.contains(key) && copies(rows, key).len() >= 2 {
                let n = choose|n: int| 0 <= n < keys.len() && keys[n] == key;
                if n < fewer.len() {
                    assert(fewer[n] == key);
                    assert(rest.contains(key));
                    let m = choose|m: int| 0 <= m < rest.len() && rest[m] == key;
                    assert(all[m] == key);
                } else {
                    assert(all[all.len() - 1] == key);
                }
            }
        }
        if keys.no_duplicates() {
            assert forall|a: int, b: int| 0 <= a < fewer.len() && 0 <= b < fewer.len() && a
                != b implies fewer[a] != fewer[b] by {
                assert(keys[a] != keys[b]);
            }
            assert(fewer.no_duplicates());
            assert forall|a: int, b: int| 0 <= a < all.len() && 0 <= b < all.len() && a
                != b implies all[a] != all[b] by {
                if a < rest.len() && b < rest.len() {
                    assert(rest[a] != rest[b]);
                } else {
                    let c = if a < rest.len() {
                        a
                    } else {
                        b
                    };
                    assert(rest.contains(rest[c]));
                    let n = choose|n: int| 0 <= n < fewer.len() && fewer[n] == rest[c];
                    assert(keys[n] != keys[keys.len() - 1]);
                }
            }
        }
    }
}

proof fn lemma_key_is_in(rows: Seq<RowView>, i: int, key: Seq<char>)
    requires
        0 <= i < rows.len(),
        is_copy(rows[i], key),
    ensures
        keys_in(rows).contains(key),
    decreases rows.len(),
{
    let rest = rows.drop_last();
    if i < rest.len() {
        assert(rest[i] == rows[i]);
        lemma_key_is_in(rest, i, key);
        let m = choose|m: int| 0 <= m < keys_in(rest).len() && keys_in(rest)[m] == key;
        assert(keys_in(rows)[m] == key);
    } else if !keys_in(rest).contains(key) {
        assert(keys_in(rows)[keys_in(rows).len() - 1] == key);
    }
}

proof fn lemma_groups_differ(rows: Seq<RowView>, groups: Seq<GroupView>, g: int, h: int)
    requires
        are_groups(rows, groups),
        0 <= g < groups.len(),
        0 <= h < groups.len(),
        g != h,
    ensures
        groups[g].key != groups[h].key,
        copies(rows, groups[g].key).len() >= 2,
{
    lemma_keys_are_distinct(rows);
    lemma_with_copies(rows, keys_in(rows));
    let keys = duplicate_keys(rows);
    assert(keys[g] == groups[g].key);
    assert(keys[h] == groups[h].key);
    assert(keys.contains(keys[g]));
}

proof fn lemma_groups_have_copies(rows: Seq<RowView>, groups: Seq<GroupView>, g: int)
    requires
        are_groups(rows, groups),
        0 <= g < groups.len(),
    ensures
        copies(rows, groups[g].key).len() >= 2,
{
    lemma_with_copies(rows, keys_in(rows));
    let keys = duplicate_keys(rows);
    assert(keys[g] == groups[g].key);
    assert(keys.contains(keys[g]));
}

/// A copy in one group is in no other.
proof fn lemma_in_one_group(
    rows: Seq<RowView>,
    groups: Seq<GroupView>,
    g: int,
    h: int,
    i: int,
)
    requires
        unique_ids(rows),
        are_groups(rows, groups),
        0 <= g < groups.len(),
        0 <= h < groups.len(),
        g != h,
        0 <= i < rows.len(),
        is_copy(rows[i], groups[g].key),
    ensures
        !is_member(groups[h], rows[i].id),
{
    lemma_groups_differ(rows, groups, g, h);
    if is_member(groups[h], rows[i].id) {
        let k = choose|k: int|
            0 <= k < groups[h].members.len() && (#[trigger] groups[h].members[k]).id == rows[i].id;
        lemma_member_has_a_row(rows, groups[h], k);
        let j = choose|j: int|
            0 <= j < rows.len() && is_copy(#[trigger] rows[j], groups[h].key) && member_of(rows[j])
                == groups[h].members[k];
        lemma_same_row(rows, i, j);
    }
}

/// What becomes of a copy in a pass is what becomes of it in its own group.
proof fn lemma_reconciled_row(
    rows: Seq<RowView>,
    groups: Seq<GroupView>,
    blobs: Seq<Seq<u8>>,
    g: int,
    i: int,
    n: int,
)
    requires
        unique_ids(rows),
        are_groups(rows, groups),
        groups.len() == blobs.len(),
        0 <= g < groups.len(),
        0 <= i < rows.len(),
        is_copy(rows[i], groups[g].key),
        0 <= n <= groups.len(),
    ensures
        reconciled(rows, groups.take(n), blobs.take(n)).len() == rows.len(),
        reconciled(rows, groups.take(n), blobs.take(n))[i] == if n > g {
            merged_row(rows[i], groups[g], blobs[g], latest_update(groups[g]))
        } else {
            rows[i]
        },
    decreases n,
{
    if n > 0 {
        lemma_reconciled_row(rows, groups, blobs, g, i, n - 1);
        assert(groups.take(n).drop_last() =~= groups.take(n - 1));
        assert(blobs.take(n).drop_last() =~= blobs.take(n - 1));
        if n - 1 != g {
            let other = groups[n - 1];
            lemma_in_one_group(rows, groups, g, n - 1, i);
            lemma_groups_have_copies(rows, groups, n - 1);
            lemma_group(rows, other);
            assert(!is_loser(other, rows[i].id)) by {
                if is_loser(other, rows[i].id) {
                    let k = choose|k: int|
                        1 <= k < other.members.len() && (#[trigger] other.members[k]).id
                            == rows[i].id;
                    assert(is_member(other, rows[i].id));
                }
            }
            assert(other.members[0].id != rows[i].id) by {
                if other.members[0].id == rows[i].id {
                    assert(is_member(other, rows[i].id));
                }
            }
        }
    }
}

/// After a pass, each copy of a conversation opens the canonical one, which holds the
/// merged text.
pub proof fn law_copies_open_the_merged_thread(
    rows: Seq<RowView>,
    groups: Seq<GroupView>,
    blobs: Seq<Seq<u8>>,
    g: int,
    k: int,
)
    requires
        unique_ids(rows),
        are_groups(rows, groups),
        groups.len() == blobs.len(),
        0 <= g < groups.len(),
        0 <= k < groups[g].members.len(),
    ensures
        opened(
            reconciled(rows, groups, blobs),
            groups[g].members[k].id,
            MAX_HOPS as nat,
        ) matches Some(row) && row.id == groups[g].members[0].id && row.data == blobs[g]
            && row.data_type == DataType::Zstd && row.updated_at == latest_update(groups[g]),
{
    let group = groups[g];
    let after = reconciled(rows, groups, blobs);
    lemma_reconciled_unique(rows, groups, blobs);
    lemma_canonical_is_no_loser(rows, group);
    lemma_member_has_a_row(rows, group, 0);
    lemma_member_has_a_row(rows, group, k);
    let first = choose|i: int|
        0 <= i < rows.len() && is_copy(#[trigger] rows[i], group.key) && member_of(rows[i])
            == group.members[0];
    let i = choose|i: int|
        0 <= i < rows.len() && is_copy(#[trigger] rows[i], group.key) && member_of(rows[i])
            == group.members[k];
    assert(groups.take(groups.len() as int) =~= groups);
    assert(blobs.take(blobs.len() as int) =~= blobs);
    lemma_reconciled_row(rows, groups, blobs, g, first, groups.len() as int);
    lemma_reconciled_row(rows, groups, blobs, g, i, groups.len() as int);
    lemma_row_is_found(after, first);
    lemma_row_is_found(after, i);
    reveal_with_fuel(opened, 3);
    if k > 0 {
        assert(is_loser(group, rows[i].id));
    } else {
        lemma_same_row(rows, first, i);
    }
}

/// The canonical copy is the oldest: no copy of the conversation is older.
pub proof fn law_canonical_is_oldest(rows: Seq<RowView>, group: GroupView, i: int)
    requires
        unique_ids(rows),
        is_group(rows, group),
        0 <= i < rows.len(),
        is_copy(rows[i], group.key),
    ensures
        group.members.len() > 0,
        !older(member_of(rows[i]), group.members[0]),
{
    lemma_group(rows, group);
    lemma_row_is_among_copies(rows, group.key, i);
    let k = choose|k: int|
        0 <= k < group.members.len() && group.members[k] == member_of(rows[i]);
    if k == 0 {
        <DuplicateThread as Ranked>::ranks_asymmetric(group.members[0], group.members[0]);
    } else {
        assert(!<DuplicateThread as Ranked>::ranks_before(group.members[k], group.members[0]));
    }
}

/// Only copies of one conversation are merged: whatever is in a group was known by its
/// key.
pub proof fn law_only_copies_are_merged(rows: Seq<RowView>, group: GroupView, i: int)
    requires
        unique_ids(rows),
        is_group(rows, group),
        0 <= i < rows.len(),
        is_member(group, rows[i].id),
    ensures
        rows[i].dedup_key == Some(group.key),
        rows[i].merged_into is None,
{
    let k = choose|k: int|
        0 <= k < group.members.len() && (#[trigger] group.members[k]).id == rows[i].id;
    lemma_member_has_a_row(rows, group, k);
    let j = choose|j: int|
        0 <= j < rows.len() && is_copy(#[trigger] rows[j], group.key) && member_of(rows[j])
            == group.members[k];
    lemma_same_row(rows, i, j);
}

proof fn lemma_two_copies(rows: Seq<RowView>, key: Seq<char>)
    requires
        copies(rows, key).len() >= 2,
    ensures
        exists|i: int, j: int|
            0 <= i < j < rows.len() && is_copy(#[trigger] rows[i], key) && is_copy(
                #[trigger] rows[j],
                key,
            ),
    decreases rows.len(),
{
    let rest = rows.drop_last();
    if copies(rest, key).len() >= 2 {
        lemma_two_copies(rest, key);
        let (i, j) = choose|i: int, j: int|
            0 <= i < j < rest.len() && is_copy(#[trigger] rest[i], key) && is_copy(
                #[trigger] rest[j],
                key,
            );
        assert(rows[i] == rest[i] && rows[j] == rest[j]);
    } else {
        lemma_copy_has_a_row(rest, key, 0);
        let i = choose|i: int|
            0 <= i < rest.len() && is_copy(#[trigger] rest[i], key) && member_of(rest[i])
                == copies(rest, key)[0];
        assert(rows[i] == rest[i]);
        assert(is_copy(rows[rows.len() - 1], key));
    }
}

proof fn lemma_two_rows_are_two_copies(rows: Seq<RowView>, key: Seq<char>, i: int, j: int)
    requires
        unique_ids(rows),
        0 <= i < j < rows.len(),
        is_copy(rows[i], key),
        is_copy(rows[j], key),
    ensures
        copies(rows, key).len() >= 2,
{
    lemma_row_is_among_copies(rows, key, i);
    lemma_row_is_among_copies(rows, key, j);
    let all = copies(rows, key);
    let a = choose|a: int| 0 <= a < all.len() && all[a] == member_of(rows[i]);
    let b = choose|b: int| 0 <= b < all.len() && all[b] == member_of(rows[j]);
    assert(a != b) by {
        if a == b {
            lemma_same_row(rows, i, j);
        }
    }
}

/// After a pass no conversation has more than one copy, so a second pass finds nothing
/// to do.
pub proof fn law_reconcile_leaves_one_copy(
    rows: Seq<RowView>,
    groups: Seq<GroupView>,
    blobs: Seq<Seq<u8>>,
    key: Seq<char>,
)
    requires
        unique_ids(rows),
        are_groups(rows, groups),
        groups.len() == blobs.len(),
    ensures
        copies(reconciled(rows, groups, blobs), key).len() <= 1,
        duplicate_keys(reconciled(rows, groups, blobs)) == Seq::<Seq<char>>::empty(),
{
    lemma_one_copy(rows, groups, blobs, key);
    let after = reconciled(rows, groups, blobs);
    lemma_with_copies(after, keys_in(after));
    let left = duplicate_keys(after);
    if left.len() > 0 {
        assert(left.contains(left[0]));
        lemma_one_copy(rows, groups, blobs, left[0]);
    }
    assert(left =~= Seq::empty());
}

/// A pass right after a pass finds nothing to merge: there are no groups, so no time
/// that could not be read, no row changes, and the summary is empty.
pub proof fn law_second_pass_is_idle(
    rows: Seq<RowView>,
    groups: Seq<GroupView>,
    blobs: Seq<Seq<u8>>,
    again: Seq<GroupView>,
    more: Seq<Seq<u8>>,
    summary: ThreadReconcileSummary,
)
    requires
        unique_ids(rows),
        are_groups(rows, groups),
        groups.len() == blobs.len(),
        are_groups(reconciled(rows, groups, blobs), again),
        is_summary(summary, again),
    ensures
        again == Seq::<GroupView>::empty(),
        unreadable_time(again) is None,
        reconciled(reconciled(rows, groups, blobs), again, more) == reconciled(rows, groups, blobs),
        summary.duplicate_groups == 0,
        summary.merged_threads == 0,
        summary.merged_session_ids@.len() == 0,
{
    law_reconcile_leaves_one_copy(rows, groups, blobs, Seq::empty());
    let keys = Seq::new(again.len(), |g: int| again[g].key);
    assert(keys.len() == 0);
    assert(again =~= Seq::empty());
    assert(summary.merged_session_ids.deep_view().len() == 0);
}

proof fn lemma_one_copy(
    rows: Seq<RowView>,
    groups: Seq<GroupView>,
    blobs: Seq<Seq<u8>>,
    key: Seq<char>,
)
    requires
        unique_ids(rows),
        are_groups(rows, groups),
        groups.len() == blobs.len(),
    ensures
        copies(reconciled(rows, groups, blobs), key).len() <= 1,
{
    let after = reconciled(rows, groups, blobs);
    lemma_reconciled_unique(rows, groups, blobs);
    if copies(after, key).len() >= 2 {
        lemma_two_copies(after, key);
        let (i, j) = choose|i: int, j: int|
            0 <= i < j < after.len() && is_copy(#[trigger] after[i], key) && is_copy(
                #[trigger] after[j],
                key,
            );
        lemma_copy_was_a_copy(rows, groups, blobs, i, key);
        lemma_copy_was_a_copy(rows, groups, blobs, j, key);
        lemma_two_rows_are_two_copies(rows, key, i, j);
        lemma_key_is_in(rows, i, key);
        lemma_with_copies(rows, keys_in(rows));
        assert(duplicate_keys(rows).contains(key));
        let g = choose|g: int| 0 <= g < duplicate_keys(rows).len() && duplicate_keys(rows)[g] == key;
        let group = groups[g];
        assert(Seq::new(groups.len(), |g: int| groups[g].key)[g] == key);
        assert(groups.take(groups.len() as int) =~= groups);
        assert(blobs.take(blobs.len() as int) =~= blobs);
        lemma_group(rows, group);
        lemma_row_is_among_copies(rows, key, i);
        lemma_row_is_among_copies(rows, key, j);
        lemma_reconciled_row(rows, groups, blobs, g, i, groups.len() as int);
        lemma_reconciled_row(rows, groups, blobs, g, j, groups.len() as int);
        let a = choose|a: int| 0 <= a < group.members.len() && group.members[a] == member_of(rows[i]);
        let b = choose|b: int| 0 <= b < group.members.len() && group.members[b] == member_of(rows[j]);
        if a == b {
            lemma_same_row(rows, i, j);
        } else if a > 0 {
            assert(group.members[a].id == rows[i].id);
            assert(is_loser(group, rows[i].id));
        } else {
            assert(group.members[b].id == rows[j].id);
            assert(is_loser(group, rows[j].id));
        }
    }
}

proof fn lemma_copy_was_a_copy(
    rows: Seq<RowView>,
    groups: Seq<GroupView>,
    blobs: Seq<Seq<u8>>,
    i: int,
    key: Seq<char>,
)
    requires
        0 <= i < rows.len(),
        reconciled(rows, groups, blobs).len() == rows.len(),
        is_copy(reconciled(rows, groups, blobs)[i], key),
    ensures
        is_copy(rows[i], key),
    decreases groups.len(),
{
    if groups.len() > 0 {
        lemma_copy_was_a_copy(rows, groups.drop_last(), blobs.drop_last(), i, key);
    }
}

proof fn lemma_copies_counted(rows: Seq<RowView>, key: Seq<char>, i: int, j: int)
    requires
        0 <= i < rows.len(),
        is_copy(rows[i], key),
        0 <= j < rows.len(),
        is_copy(rows[j], key),
    ensures
        copies(rows, key).len() >= 1,
        i != j ==> copies(rows, key).len() >= 2,
        keys_in(rows).contains(key),
    decreases rows.len(),
{
    let rest = rows.drop_last();
    let last = rows.len() - 1;
    let known = keys_in(rest);
    if i < last {
        assert(rest[i] == rows[i]);
        let k = if j < last {
            j
        } else {
            i
        };
        assert(rest[k] == rows[k]);
        lemma_copies_counted(rest, key, i, k);
        let at = choose|at: int| 0 <= at < known.len() && known[at] == key;
        assert(keys_in(rows)[at] == key);
    } else if j < last {
        assert(rest[j] == rows[j]);
        lemma_copies_counted(rest, key, j, j);
        let at = choose|at: int| 0 <= at < known.len() && known[at] == key;
        assert(keys_in(rows)[at] == key);
    } else {
        if known.contains(key) {
            let at = choose|at: int| 0 <= at < known.len() && known[at] == key;
            assert(keys_in(rows)[at] == key);
        } else {
            assert(keys_in(rows).last() == key);
        }
    }
}

/// Two threads that are known by one key and were not merged are found to be copies, so a
/// pass has a group for them; and a group has at least two copies.
pub proof fn law_two_copies_are_found(
    rows: Seq<RowView>,
    groups: Seq<GroupView>,
    i: int,
    j: int,
    g: int,
)
    requires
        are_groups(rows, groups),
        0 <= i < j < rows.len(),
        rows[i].dedup_key is Some,
        rows[i].dedup_key == rows[j].dedup_key,
        rows[i].merged_into is None,
        rows[j].merged_into is None,
    ensures
        exists|g: int| 0 <= g < groups.len() && Some((#[trigger] groups[g]).key) == rows[i].dedup_key,
        0 <= g < groups.len() ==> groups[g].members.len() >= 2,
{
    let key = rows[i].dedup_key->0;
    lemma_copies_counted(rows, key, i, j);
    lemma_with_copies(rows, keys_in(rows));
    let keys = duplicate_keys(rows);
    assert(keys.contains(key));
    let at = choose|at: int| 0 <= at < keys.len() && keys[at] == key;
    assert(keys.len() == groups.len());
    assert(Seq::new(groups.len(), |g: int| groups[g].key)[at] == groups[at].key);
    if 0 <= g < groups.len() {
        assert(Seq::new(groups.len(), |g: int| groups[g].key)[g] == groups[g].key);
        assert(keys.contains(groups[g].key));
        assert(is_group(rows, groups[g]));
        broadcast use vstd::seq_lib::group_to_multiset_ensures;

        assert(groups[g].members.to_multiset().len() == groups[g].members.len());
        assert(copies(rows, groups[g].key).to_multiset().len() == copies(
            rows,
            groups[g].key,
        ).len());
    }
}

/// A copy is what its row says: the row's id, times and data.
pub proof fn law_copy_is_what_its_row_says(row: RowView)
    ensures
        member_of(row).id == row.id,
        member_of(row).created_at == row.created_at,
        member_of(row).updated_at == row.updated_at,
        member_of(row).data_type == row.data_type,
        member_of(row).data == row.data,
{
}

/// Of two copies the one that was created earlier is older; one of unknown age is older than
/// one of known age, and of two of the same age the one with the smaller id.
pub proof fn law_created_earlier_is_older(a: MemberView, b: MemberView)
    ensures
        a.created_at matches Some(x) ==> (b.created_at matches Some(y) ==> (before(x, y) ==> older(
            a,
            b,
        ) && !older(b, a))),
        a.created_at is None && b.created_at is Some ==> older(a, b) && !older(b, a),
        a.created_at == b.created_at ==> (older(a, b) <==> before(a.id, b.id)),
{
    if let (Some(x), Some(y)) = (a.created_at, b.created_at) {
        lemma_before_asymmetric(x, y);
        lemma_before_asymmetric(y, x);
    }
}

proof fn lemma_times_one_by_one(members: Seq<MemberView>, i: int)
    requires
        member_times(members) is Ok,
        0 <= i < members.len(),
    ensures
        member_times(members)->Ok_0.len() == members.len(),
        parsed_time(members[i].updated_at) == Ok::<(i64, u32), Seq<char>>(
            member_times(members)->Ok_0[i],
        ),
    decreases members.len(),
{
    let rest = members.drop_last();
    if rest.len() > 0 {
        lemma_times_one_by_one(rest, if i < rest.len() {
            i
        } else {
            0
        });
    } else {
        reveal_with_fuel(member_times, 2);
    }
    if i < rest.len() {
        assert(rest[i] == members[i]);
    } else {
        assert(members[i] == members.last());
    }
}

/// The copies in a group were last updated when the one updated last was: at the time of one
/// of them, and none of them later.
pub proof fn law_group_is_as_late_as_its_latest(group: GroupView, i: int)
    requires
        member_times(group.members) is Ok,
        0 <= i < group.members.len(),
    ensures
        exists|k: int|
            0 <= k < group.members.len() && {
                &&& parsed_time((#[trigger] group.members[k]).updated_at) matches Ok(time)
                &&& latest_update(group) == time_text(time)
                &&& parsed_time(group.members[i].updated_at) matches Ok(other) && !earlier(
                    time,
                    other,
                )
            },
{
    let times = member_times(group.members)->Ok_0;
    lemma_times_one_by_one(group.members, i);
    law_none_is_later_than_the_latest(times);
    let k = choose|k: int| 0 <= k < times.len() && times[k] == latest(times);
    lemma_times_one_by_one(group.members, k);
    assert(!earlier(latest(times), times[i]));
    assert(parsed_time(group.members[k].updated_at) == Ok::<(i64, u32), Seq<char>>(times[k]));
}

/// The texts of copies are read one by one, in order.
pub proof fn law_texts_are_read_one_by_one(members: Seq<MemberView>, i: int)
    requires
        member_texts(members) is Ok,
        0 <= i < members.len(),
    ensures
        member_texts(members)->Ok_0.len() == members.len(),
        blob_text(members[i].data_type, members[i].data) == Ok::<Seq<char>, BlobErrorView>(
            member_texts(members)->Ok_0[i],
        ),
    decreases members.len(),
{
    let rest = members.drop_last();
    if rest.len() > 0 {
        law_texts_are_read_one_by_one(rest, if i < rest.len() {
            i
        } else {
            0
        });
    } else {
        reveal_with_fuel(member_texts, 2);
    }
    if i < rest.len() {
        assert(rest[i] == members[i]);
    } else {
        assert(members[i] == members.last());
    }
}

/// What is reported as merged is each copy but the first of its group.
pub proof fn law_all_but_the_canonical_are_reported(
    groups: Seq<GroupView>,
    summary: ThreadReconcileSummary,
    g: int,
    k: int,
)
    requires
        is_summary(summary, groups),
        0 <= g < groups.len(),
        0 <= k < groups[g].members.len(),
    ensures
        summary.duplicate_groups == groups.len(),
        summary.merged_threads == summary.merged_session_ids@.len(),
        k > 0 ==> summary.merged_session_ids.deep_view().contains(groups[g].members[k].id),
        groups.len() == 1 ==> summary.merged_threads == groups[0].members.len() - 1,
{
    if k > 0 {
        lemma_loser_is_listed(groups, g, k);
    }
    assert(summary.merged_session_ids.deep_view().len() == summary.merged_session_ids@.len());
    if groups.len() == 1 {
        reveal_with_fuel(losers, 2);
        assert(groups.drop_last() =~= Seq::empty());
    }
}

proof fn lemma_loser_is_listed(groups: Seq<GroupView>, g: int, k: int)
    requires
        0 <= g < groups.len(),
        0 < k < groups[g].members.len(),
    ensures
        losers(groups).contains(groups[g].members[k].id),
    decreases groups.len(),
{
    let front = losers(groups.drop_last());
    if g == groups.len() - 1 {
        assert(losers(groups)[front.len() + k - 1] == groups[g].members[k].id);
    } else {
        lemma_loser_is_listed(groups.drop_last(), g, k);
        let at = choose|at: int| 0 <= at < front.len() && front[at] == groups[g].members[k].id;
        assert(losers(groups)[at] == front[at]);
    }
}

} // verus!
