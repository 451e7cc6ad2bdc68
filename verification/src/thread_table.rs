//! The table of stored threads.
//!
//! Threads are kept one row each. A thread that was merged into another stays in the
//! table and points to that one; it is no longer listed, and opening it opens the other.

use vstd::prelude::*;
use crate::models::outcome;
use crate::order::{
    before, comes_before, in_order, lemma_before_asymmetric, lemma_before_total,
    lemma_not_after_transitive, sorted, Ranked,
};
use crate::text::{copy_text, same};
use crate::thread_blob::{blob_text, read_blob, write_blob, BlobError, BlobErrorView, DataType};
use crate::thread_merge::{dedup_key, thread_dedup_key};
use crate::threads::{DbThread, ThreadView};
use crate::time::{parsed_time, time_text, Timestamp};

verus! {

/// A row of the table.
#[derive(Debug)]
pub struct ThreadRow {
    pub id: String,
    /// The thread that this thread is a subagent's of.
    pub parent_id: Option<String>,
    /// The folders that the thread was created for, as text.
    pub folder_paths: Option<String>,
    pub folder_paths_order: Option<String>,
    pub workspace_id: Option<String>,
    pub summary: String,
    pub updated_at: String,
    pub created_at: Option<String>,
    pub data_type: DataType,
    pub data: Vec<u8>,
    /// What the conversation is known by.
    pub dedup_key: Option<String>,
    /// The thread that this one was merged into.
    pub merged_into: Option<String>,
}

/// The model of a row.
pub struct RowView {
    pub id: Seq<char>,
    pub parent_id: Option<Seq<char>>,
    pub folder_paths: Option<Seq<char>>,
    pub folder_paths_order: Option<Seq<char>>,
    pub workspace_id: Option<Seq<char>>,
    pub summary: Seq<char>,
    pub updated_at: Seq<char>,
    pub created_at: Option<Seq<char>>,
    pub data_type: DataType,
    pub data: Seq<u8>,
    pub dedup_key: Option<Seq<char>>,
    pub merged_into: Option<Seq<char>>,
}

impl DeepView for ThreadRow {
    type V = RowView;

    open spec fn deep_view(&self) -> RowView {
        RowView {
            id: self.id@,
            parent_id: self.parent_id.deep_view(),
            folder_paths: self.folder_paths.deep_view(),
            folder_paths_order: self.folder_paths_order.deep_view(),
            workspace_id: self.workspace_id.deep_view(),
            summary: self.summary@,
            updated_at: self.updated_at@,
            created_at: self.created_at.deep_view(),
            data_type: self.data_type,
            data: self.data@,
            dedup_key: self.dedup_key.deep_view(),
            merged_into: self.merged_into.deep_view(),
        }
    }
}

/// Folders as they are written to the table.
#[derive(Debug)]
pub struct FolderPaths {
    pub paths: String,
    pub order: String,
}

impl DeepView for FolderPaths {
    type V = (Seq<char>, Seq<char>);

    open spec fn deep_view(&self) -> (Seq<char>, Seq<char>) {
        (self.paths@, self.order@)
    }
}

/// Whether no id stands twice.
pub open spec fn unique_ids(rows: Seq<RowView>) -> bool {
    forall|i: int, j: int|
        0 <= i < j < rows.len() ==> (#[trigger] rows[i]).id != (#[trigger] rows[j]).id
}

/// Where the first row of that id is; the number of rows where there is none.
pub open spec fn position(rows: Seq<RowView>, id: Seq<char>) -> nat
    decreases rows.len(),
{
    if rows.len() == 0 || rows[0].id == id {
        0
    } else {
        1 + position(rows.drop_first(), id)
    }
}

/// The row of that id.
pub open spec fn row_of(rows: Seq<RowView>, id: Seq<char>) -> Option<RowView> {
    if position(rows, id) < rows.len() {
        Some(rows[position(rows, id) as int])
    } else {
        None
    }
}

/// A row stands where its id was first found.
pub proof fn lemma_position(rows: Seq<RowView>, id: Seq<char>)
    ensures
        position(rows, id) <= rows.len(),
        forall|i: int| 0 <= i < position(rows, id) ==> (#[trigger] rows[i]).id != id,
        position(rows, id) < rows.len() ==> rows[position(rows, id) as int].id == id,
    decreases rows.len(),
{
    if rows.len() > 0 && rows[0].id != id {
        let rest = rows.drop_first();
        lemma_position(rest, id);
        assert forall|i: int| 0 <= i < position(rows, id) implies (#[trigger] rows[i]).id != id by {
            if i > 0 {
                assert(rows[i] == rest[i - 1]);
            }
        }
        if position(rest, id) < rest.len() {
            assert(rest[position(rest, id) as int] == rows[position(rows, id) as int]);
        }
    }
}

/// In a table without two rows of one id, each row is found by its id.
pub proof fn lemma_row_is_found(rows: Seq<RowView>, i: int)
    requires
        unique_ids(rows),
        0 <= i < rows.len(),
    ensures
        position(rows, rows[i].id) == i,
        row_of(rows, rows[i].id) == Some(rows[i]),
{
    lemma_position(rows, rows[i].id);
    let p = position(rows, rows[i].id) as int;
    if p < i {
        assert(rows[p].id != rows[i].id);
    } else if p > i {
        assert(rows[i].id != rows[i].id);
    }
}

/// The table of stored threads: no two rows have the same id.
#[derive(Debug)]
pub struct ThreadsDatabase {
    rows: Vec<ThreadRow>,
}

impl DeepView for ThreadsDatabase {
    type V = Seq<RowView>;

    closed spec fn deep_view(&self) -> Seq<RowView> {
        self.rows.deep_view()
    }
}

pub(crate) fn position_of(rows: &Vec<ThreadRow>, id: &str) -> (r: usize)
    ensures
        r == position(rows.deep_view(), id@),
{
    let ghost models = rows.deep_view();
    let mut i: usize = 0;
    assert(models.skip(0) =~= models);
    while i < rows.len()
        invariant
            i <= rows@.len(),
            models == rows.deep_view(),
            position(models, id@) == i + position(models.skip(i as int), id@),
        decreases rows@.len() - i,
    {
        proof {
            let rest = models.skip(i as int);
            assert(rest[0] == rows@[i as int].deep_view());
            assert(rest.drop_first() =~= models.skip(i + 1));
        }
        if same(rows[i].id.as_str(), id) {
            return i;
        }
        i = i + 1;
    }
    i
}

/// Why something could not be done with the table.
#[derive(Debug, PartialEq, Eq)]
pub enum TableError {
    /// A time in the table is no RFC 3339 text; what is said of it.
    BadTime(String),
    Blob(BlobError),
}

/// The model of a `TableError`.
pub enum TableErrorView {
    BadTime(Seq<char>),
    Blob(BlobErrorView),
}

impl DeepView for TableError {
    type V = TableErrorView;

    open spec fn deep_view(&self) -> TableErrorView {
        match self {
            TableError::BadTime(text) => TableErrorView::BadTime(text@),
            TableError::Blob(error) => TableErrorView::Blob(error.deep_view()),
        }
    }
}

/// What is said of an error.
pub open spec fn table_error_text(error: TableErrorView) -> Seq<char> {
    match error {
        TableErrorView::BadTime(text) => text,
        TableErrorView::Blob(error) => crate::thread_blob::blob_error_text(error),
    }
}

impl TableError {
    /// What is said of this error.
    pub fn message(&self) -> (r: String)
        ensures
            r@ == table_error_text(self.deep_view()),
    {
        match self {
            TableError::BadTime(text) => text.clone(),
            TableError::Blob(error) => error.message(),
        }
    }
}

// ---------------------------------------------------------------------------
// Saving

/// The thread that a subagent's thread belongs to.
pub open spec fn parent_of(thread: ThreadView) -> Option<Seq<char>> {
    match thread.subagent_context {
        Some(context) => Some(context.0),
        None => None,
    }
}

/// The row of a thread that is saved for the first time: it was created when it was
/// last updated.
pub open spec fn new_row(
    id: Seq<char>,
    thread: ThreadView,
    folders: Option<(Seq<char>, Seq<char>)>,
    workspace_id: Option<Seq<char>>,
    data: Seq<u8>,
) -> RowView {
    RowView {
        id,
        parent_id: parent_of(thread),
        folder_paths: match folders {
            Some(folders) => Some(folders.0),
            None => None,
        },
        folder_paths_order: match folders {
            Some(folders) => Some(folders.1),
            None => None,
        },
        workspace_id,
        summary: thread.title,
        updated_at: time_text(thread.updated_at),
        created_at: Some(time_text(thread.updated_at)),
        data_type: DataType::Zstd,
        data,
        dedup_key: dedup_key(
            workspace_id,
            match folders {
                Some(folders) => folders.0,
                None => Seq::empty(),
            },
            thread.messages,
        ),
        merged_into: None,
    }
}

/// A row after its thread was saved again: when it was created and what it was merged
/// into stay, and so does its workspace where none is given.
pub open spec fn saved_again(old_row: RowView, new: RowView) -> RowView {
    RowView {
        workspace_id: if new.workspace_id is Some {
            new.workspace_id
        } else {
            old_row.workspace_id
        },
        created_at: old_row.created_at,
        merged_into: old_row.merged_into,
        ..new
    }
}

/// The rows with a thread saved.
pub open spec fn saved(rows: Seq<RowView>, new: RowView) -> Seq<RowView> {
    let at = position(rows, new.id) as int;
    if at < rows.len() {
        rows.update(at, saved_again(rows[at], new))
    } else {
        rows.push(new)
    }
}

proof fn lemma_saved_unique(rows: Seq<RowView>, new: RowView)
    requires
        unique_ids(rows),
    ensures
        unique_ids(saved(rows, new)),
{
    lemma_position(rows, new.id);
    let after = saved(rows, new);
    assert forall|i: int, j: int| 0 <= i < j < after.len() implies (#[trigger] after[i]).id != (
    #[trigger] after[j]).id by {
        if i < rows.len() {
            assert(after[i].id == rows[i].id);
        }
        if j < rows.len() {
            assert(after[j].id == rows[j].id);
        }
    }
}

/// Saving a thread touches its row alone: every other row stays as it is, and in its
/// place.
pub proof fn law_save_keeps_others(rows: Seq<RowView>, new: RowView, i: int)
    requires
        0 <= i < rows.len(),
        rows[i].id != new.id,
    ensures
        saved(rows, new).len() >= rows.len(),
        saved(rows, new)[i] == rows[i],
{
    lemma_position(rows, new.id);
}

/// A saved thread has a row, and saving it again changes neither when it was created nor
/// what it was merged into.
pub proof fn law_saved_thread_has_a_row(rows: Seq<RowView>, new: RowView)
    requires
        unique_ids(rows),
    ensures
        unique_ids(saved(rows, new)),
        match row_of(rows, new.id) {
            Some(old_row) => row_of(saved(rows, new), new.id) == Some(saved_again(old_row, new)),
            None => row_of(saved(rows, new), new.id) == Some(new),
        },
{
    lemma_saved_unique(rows, new);
    lemma_position(rows, new.id);
    let at = position(rows, new.id) as int;
    assert(saved(rows, new)[at].id == new.id);
    lemma_row_is_found(saved(rows, new), at);
}

impl ThreadsDatabase {
    #[verifier::type_invariant]
    spec fn ids_are_unique(self) -> bool {
        unique_ids(self.rows.deep_view())
    }

    /// A table without threads.
    pub fn new() -> (r: ThreadsDatabase)
        ensures
            r.deep_view() == Seq::<RowView>::empty(),
    {
        let rows: Vec<ThreadRow> = Vec::new();
        assert(rows.deep_view() =~= Seq::empty());
        ThreadsDatabase { rows }
    }

    /// The table of these rows; nothing where two have the same id.
    pub fn from_rows(rows: Vec<ThreadRow>) -> (r: Option<ThreadsDatabase>)
        ensures
            match r {
                Some(table) => unique_ids(rows.deep_view()) && table.deep_view()
                    == rows.deep_view(),
                None => !unique_ids(rows.deep_view()),
            },
    {
        let ghost models = rows.deep_view();
        let mut i: usize = 0;
        while i < rows.len()
            invariant
                i <= rows@.len(),
                models == rows.deep_view(),
                unique_ids(models.take(i as int)),
            decreases rows@.len() - i,
        {
            let at = position_of(&rows, rows[i].id.as_str());
            proof {
                lemma_position(models, rows@[i as int].id@);
                assert(models[i as int].id == rows@[i as int].id@);
            }
            if at < i {
                proof {
                    assert(models[at as int].id == models[i as int].id);
                }
                return None;
            }
            proof {
                let next = models.take(i + 1);
                assert forall|a: int, b: int| 0 <= a < b < next.len() implies (#[trigger] next[a]).id
                    != (#[trigger] next[b]).id by {
                    assert(next[a] == models[a]);
                    assert(next[b] == models[b]);
                    if b < i {
                        assert(models.take(i as int)[a] == models[a]);
                        assert(models.take(i as int)[b] == models[b]);
                    }
                }
            }
            i = i + 1;
        }
        assert(models.take(models.len() as int) =~= models);
        Some(ThreadsDatabase { rows })
    }

    /// The rows of the table.
    pub fn rows(&self) -> (r: &Vec<ThreadRow>)
        ensures
            r.deep_view() == self.deep_view(),
            unique_ids(r.deep_view()),
    {
        proof {
            use_type_invariant(self);
        }
        &self.rows
    }

    /// Saves a thread under an id, `data` being its text in compressed form.
    pub fn save_compressed(
        &mut self,
        id: &str,
        thread: &DbThread,
        data: Vec<u8>,
        folders: Option<&FolderPaths>,
        workspace_id: Option<&str>,
    )
        ensures
            final(self).deep_view() == saved(
                old(self).deep_view(),
                new_row(
                    id@,
                    thread.deep_view(),
                    folders.deep_view(),
                    workspace_id.deep_view(),
                    data@,
                ),
            ),
    {
        proof {
            use_type_invariant(&*self);
        }
        let no_folders = String::new();
        assert(no_folders@ =~= Seq::<char>::empty());
        let folders_text: &str = match folders {
            Some(folders) => folders.paths.as_str(),
            None => no_folders.as_str(),
        };
        let key = thread_dedup_key(workspace_id, folders_text, &thread.messages);
        let parent_id = match &thread.subagent_context {
            Some(context) => Some(context.parent_thread_id.clone()),
            None => None,
        };
        let (folder_paths, folder_paths_order) = match folders {
            Some(folders) => (Some(folders.paths.clone()), Some(folders.order.clone())),
            None => (None, None),
        };
        let ghost bytes = data@;
        let ghost workspace = workspace_id.deep_view();
        let workspace_id = match workspace_id {
            Some(workspace_id) => Some(workspace_id.to_owned()),
            None => None,
        };
        let updated_at = thread.updated_at.to_text();
        let mut row = ThreadRow {
            id: id.to_owned(),
            parent_id,
            folder_paths,
            folder_paths_order,
            workspace_id,
            summary: thread.title.clone(),
            updated_at: updated_at.clone(),
            created_at: Some(updated_at),
            data_type: DataType::Zstd,
            data,
            dedup_key: key,
            merged_into: None,
        };
        let ghost new = row.deep_view();
        assert(new == new_row(id@, thread.deep_view(), folders.deep_view(), workspace, bytes));
        let ghost models = self.rows.deep_view();
        let at = position_of(&self.rows, id);
        let mut rows: Vec<ThreadRow> = Vec::new();
        proof {
            assert(rows.deep_view() =~= Seq::empty());
            lemma_saved_unique(models, new);
        }
        std::mem::swap(&mut rows, &mut self.rows);
        if at < rows.len() {
            if row.workspace_id.is_none() {
                row.workspace_id = copy_text(&rows[at].workspace_id);
            }
            row.created_at = copy_text(&rows[at].created_at);
            row.merged_into = copy_text(&rows[at].merged_into);
            rows.set(at, row);
            assert(rows.deep_view() =~= saved(models, new));
        } else {
            rows.push(row);
            assert(rows.deep_view() =~= saved(models, new));
        }
        self.rows = rows;
    }

    /// Saves a thread under an id, `json` being its text.
    ///
    /// The text is kept in compressed form, and what is kept reads back as the same text.
    pub fn save_thread(
        &mut self,
        id: &str,
        thread: &DbThread,
        json: &str,
        folders: Option<&FolderPaths>,
        workspace_id: Option<&str>,
    ) -> (r: Result<(), TableError>)
        ensures
            r is Ok,
            exists|data: Seq<u8>|
                {
                    &&& blob_text(DataType::Zstd, data) == Ok::<Seq<char>, BlobErrorView>(json@)
                    &&& final(self).deep_view() == saved(
                        old(self).deep_view(),
                        #[trigger] new_row(
                            id@,
                            thread.deep_view(),
                            folders.deep_view(),
                            workspace_id.deep_view(),
                            data,
                        ),
                    )
                },
    {
        match write_blob(json) {
            Ok(data) => {
                self.save_compressed(id, thread, data, folders, workspace_id);
                Ok(())
            },
            Err(error) => Err(TableError::Blob(error)),
        }
    }
}

// ---------------------------------------------------------------------------
// Loading

/// The thread that an id opens: its own, or the one that it was merged into, and so on.
/// At most so many threads are looked at.
pub open spec fn opened(rows: Seq<RowView>, id: Seq<char>, hops: nat) -> Option<RowView>
    decreases hops,
{
    if hops == 0 {
        None
    } else {
        match row_of(rows, id) {
            Some(row) => match row.merged_into {
                Some(next) => opened(rows, next, (hops - 1) as nat),
                None => Some(row),
            },
            None => None,
        }
    }
}

/// How many threads are looked at to find the one that an id opens.
pub const MAX_HOPS: usize = 64;

/// The text that an id opens: nothing where there is no such thread.
pub open spec fn opened_text(rows: Seq<RowView>, id: Seq<char>) -> Result<
    Option<Seq<char>>,
    TableErrorView,
> {
    match opened(rows, id, MAX_HOPS as nat) {
        Some(row) => match blob_text(row.data_type, row.data) {
            Ok(text) => Ok(Some(text)),
            Err(error) => Err(TableErrorView::Blob(error)),
        },
        None => Ok(None),
    }
}

/// A thread that is saved and not merged into another opens with the text that it was
/// saved with.
pub proof fn law_saved_thread_opens(rows: Seq<RowView>, new: RowView, json: Seq<char>)
    requires
        unique_ids(rows),
        new.merged_into is None,
        blob_text(new.data_type, new.data) == Ok::<Seq<char>, BlobErrorView>(json),
        row_of(rows, new.id) matches Some(row) ==> row.merged_into is None,
    ensures
        opened(saved(rows, new), new.id, MAX_HOPS as nat) matches Some(row) && row.id == new.id,
        opened_text(saved(rows, new), new.id) == Ok::<Option<Seq<char>>, TableErrorView>(
            Some(json),
        ),
{
    law_saved_thread_has_a_row(rows, new);
}

/// When the thread of that id was last updated.
pub open spec fn last_update(rows: Seq<RowView>, id: Seq<char>) -> Result<
    Option<(i64, u32)>,
    TableErrorView,
> {
    match row_of(rows, id) {
        Some(row) => match parsed_time(row.updated_at) {
            Ok(time) => Ok(Some(time)),
            Err(error) => Err(TableErrorView::BadTime(error)),
        },
        None => Ok(None),
    }
}

impl ThreadsDatabase {
    /// The text of the thread that an id opens.
    pub fn load_thread(&self, id: &str) -> (r: Result<Option<String>, TableError>)
        ensures
            outcome(r) == opened_text(self.deep_view(), id@),
    {
        let ghost models = self.rows.deep_view();
        let mut current = id.to_owned();
        let mut left: usize = MAX_HOPS;
        while left > 0
            invariant
                models == self.rows.deep_view(),
                opened(models, id@, MAX_HOPS as nat) == opened(models, current@, left as nat),
            decreases left,
        {
            let at = position_of(&self.rows, current.as_str());
            if at >= self.rows.len() {
                return Ok(None);
            }
            proof {
                assert(models[at as int] == self.rows@[at as int].deep_view());
            }
            let row: &ThreadRow = &self.rows[at];
            match &row.merged_into {
                Some(next) => {
                    current = next.clone();
                },
                None => {
                    return match read_blob(row.data_type, &row.data) {
                        Ok(text) => Ok(Some(text)),
                        Err(error) => Err(TableError::Blob(error)),
                    };
                },
            }
            left = left - 1;
        }
        Ok(None)
    }

    /// When the thread of that id was last updated.
    pub fn thread_updated_at(&self, id: &str) -> (r: Result<Option<Timestamp>, TableError>)
        ensures
            outcome(r) == last_update(self.deep_view(), id@),
    {
        let at = position_of(&self.rows, id);
        if at >= self.rows.len() {
            return Ok(None);
        }
        proof {
            assert(self.rows.deep_view()[at as int] == self.rows@[at as int].deep_view());
        }
        match Timestamp::parse(self.rows[at].updated_at.as_str()) {
            Ok(time) => Ok(Some(time)),
            Err(error) => Err(TableError::BadTime(error)),
        }
    }
}

// ---------------------------------------------------------------------------
// Listing

/// What is listed of a thread, as it stands in the table.
#[derive(Debug)]
pub struct ListedThread {
    pub id: String,
    pub parent_id: Option<String>,
    pub folder_paths: Option<String>,
    pub folder_paths_order: Option<String>,
    pub workspace_id: Option<String>,
    pub summary: String,
    pub updated_at: String,
    pub created_at: Option<String>,
}

/// The model of a `ListedThread`.
pub struct ListedView {
    pub id: Seq<char>,
    pub parent_id: Option<Seq<char>>,
    pub folder_paths: Option<Seq<char>>,
    pub folder_paths_order: Option<Seq<char>>,
    pub workspace_id: Option<Seq<char>>,
    pub summary: Seq<char>,
    pub updated_at: Seq<char>,
    pub created_at: Option<Seq<char>>,
}

impl DeepView for ListedThread {
    type V = ListedView;

    open spec fn deep_view(&self) -> ListedView {
        ListedView {
            id: self.id@,
            parent_id: self.parent_id.deep_view(),
            folder_paths: self.folder_paths.deep_view(),
            folder_paths_order: self.folder_paths_order.deep_view(),
            workspace_id: self.workspace_id.deep_view(),
            summary: self.summary@,
            updated_at: self.updated_at@,
            created_at: self.created_at.deep_view(),
        }
    }
}

/// What is listed of a thread.
#[derive(Debug)]
pub struct DbThreadMetadata {
    pub id: String,
    pub parent_session_id: Option<String>,
    pub title: String,
    pub updated_at: Timestamp,
    pub created_at: Option<Timestamp>,
    /// The folders that the thread was created for.
    pub folder_paths: Option<FolderPaths>,
    /// The workspace that the thread belongs to.
    pub workspace_id: Option<String>,
}

/// The model of a `DbThreadMetadata`.
pub struct MetadataView {
    pub id: Seq<char>,
    pub parent_session_id: Option<Seq<char>>,
    pub title: Seq<char>,
    pub updated_at: (i64, u32),
    pub created_at: Option<(i64, u32)>,
    pub folder_paths: Option<(Seq<char>, Seq<char>)>,
    pub workspace_id: Option<Seq<char>>,
}

impl DeepView for DbThreadMetadata {
    type V = MetadataView;

    open spec fn deep_view(&self) -> MetadataView {
        MetadataView {
            id: self.id@,
            parent_session_id: self.parent_session_id.deep_view(),
            title: self.title@,
            updated_at: self.updated_at.deep_view(),
            created_at: self.created_at.deep_view(),
            folder_paths: self.folder_paths.deep_view(),
            workspace_id: self.workspace_id.deep_view(),
        }
    }
}

/// What is listed of a row.
pub open spec fn listed_of(row: RowView) -> ListedView {
    ListedView {
        id: row.id,
        parent_id: row.parent_id,
        folder_paths: row.folder_paths,
        folder_paths_order: row.folder_paths_order,
        workspace_id: row.workspace_id,
        summary: row.summary,
        updated_at: row.updated_at,
        created_at: row.created_at,
    }
}

/// What is listed, in the order of the table: threads that were merged into another are
/// not.
pub open spec fn visible(rows: Seq<RowView>) -> Seq<ListedView>
    decreases rows.len(),
{
    if rows.len() == 0 {
        Seq::empty()
    } else if rows.last().merged_into is None {
        visible(rows.drop_last()).push(listed_of(rows.last()))
    } else {
        visible(rows.drop_last())
    }
}

/// Whether an optional text comes before another; none comes before all others.
pub open spec fn optional_before(a: Option<Seq<char>>, b: Option<Seq<char>>) -> bool {
    match (a, b) {
        (Some(a), Some(b)) => before(a, b),
        (None, Some(_)) => true,
        _ => false,
    }
}

/// Whether a thread is listed before another: the one updated last comes first, and of
/// those updated at one time the one created last.
pub open spec fn listed_before(a: ListedView, b: ListedView) -> bool {
    before(b.updated_at, a.updated_at) || (a.updated_at == b.updated_at && optional_before(
        b.created_at,
        a.created_at,
    ))
}

pub proof fn lemma_optional_before(a: Option<Seq<char>>, b: Option<Seq<char>>, c: Option<Seq<char>>)
    ensures
        !(optional_before(a, b) && optional_before(b, a)),
        !optional_before(a, b) && !optional_before(b, a) ==> a == b,
        !optional_before(b, a) && !optional_before(c, b) ==> !optional_before(c, a),
{
    if a is Some && b is Some {
        lemma_before_asymmetric(a->0, b->0);
        lemma_before_total(a->0, b->0);
        if c is Some && !optional_before(b, a) && !optional_before(c, b) {
            lemma_not_after_transitive(a->0, b->0, c->0);
        }
    }
}

impl Ranked for ListedThread {
    open spec fn ranks_before(a: ListedView, b: ListedView) -> bool {
        listed_before(a, b)
    }

    proof fn ranks_asymmetric(a: ListedView, b: ListedView) {
        lemma_before_asymmetric(a.updated_at, b.updated_at);
        lemma_before_asymmetric(a.updated_at, a.updated_at);
        lemma_optional_before(a.created_at, b.created_at, None);
    }

    proof fn ranks_transitive(a: ListedView, b: ListedView, c: ListedView) {
        lemma_before_total(a.updated_at, b.updated_at);
        lemma_before_total(b.updated_at, c.updated_at);
        lemma_before_asymmetric(a.updated_at, b.updated_at);
        lemma_before_asymmetric(b.updated_at, c.updated_at);
        lemma_before_asymmetric(a.updated_at, c.updated_at);
        lemma_not_after_transitive(c.updated_at, b.updated_at, a.updated_at);
        lemma_optional_before(c.created_at, b.created_at, a.created_at);
        if before(a.updated_at, c.updated_at) {
        } else if a.updated_at == c.updated_at {
            assert(a.updated_at == b.updated_at);
        }
    }

    fn comes_first(&self, other: &Self) -> (r: bool) {
        if comes_before(other.updated_at.as_str(), self.updated_at.as_str()) {
            return true;
        }
        if !same(self.updated_at.as_str(), other.updated_at.as_str()) {
            return false;
        }
        is_optional_before(&other.created_at, &self.created_at)
    }
}

pub(crate) fn is_optional_before(a: &Option<String>, b: &Option<String>) -> (r: bool)
    ensures
        r == optional_before(a.deep_view(), b.deep_view()),
{
    match b {
        Some(b) => match a {
            Some(a) => comes_before(a.as_str(), b.as_str()),
            None => true,
        },
        None => false,
    }
}

/// The time in a text that may be missing.
pub open spec fn optional_time(text: Option<Seq<char>>) -> Result<Option<(i64, u32)>, Seq<char>> {
    match text {
        Some(text) => match parsed_time(text) {
            Ok(time) => Ok(Some(time)),
            Err(error) => Err(error),
        },
        None => Ok(None),
    }
}

/// What is known of a listed thread, or what is said of a time in it that is none.
pub open spec fn metadata_of(row: ListedView) -> Result<MetadataView, TableErrorView> {
    match optional_time(row.created_at) {
        Ok(created_at) => match parsed_time(row.updated_at) {
            Ok(updated_at) => Ok(
                MetadataView {
                    id: row.id,
                    parent_session_id: row.parent_id,
                    title: row.summary,
                    updated_at,
                    created_at,
                    folder_paths: match row.folder_paths {
                        Some(paths) => Some(
                            (
                                paths,
                                match row.folder_paths_order {
                                    Some(order) => order,
                                    None => Seq::empty(),
                                },
                            ),
                        ),
                        None => None,
                    },
                    workspace_id: row.workspace_id,
                },
            ),
            Err(error) => Err(TableErrorView::BadTime(error)),
        },
        Err(error) => Err(TableErrorView::BadTime(error)),
    }
}

/// Whether this is the list of the threads that are to be seen, each once, latest first.
/// Threads that were updated and created at the same times may stand either way.
pub open spec fn lists(order: Seq<ListedView>, rows: Seq<RowView>) -> bool {
    &&& order.to_multiset() == visible(rows).to_multiset()
    &&& in_order::<ListedThread>(order)
}

fn read_metadata(row: &ListedThread) -> (r: Result<DbThreadMetadata, TableError>)
    ensures
        outcome(r) == metadata_of(row.deep_view()),
{
    let created_at = match &row.created_at {
        Some(text) => match Timestamp::parse(text.as_str()) {
            Ok(time) => Some(time),
            Err(error) => {
                return Err(TableError::BadTime(error));
            },
        },
        None => None,
    };
    let updated_at = match Timestamp::parse(row.updated_at.as_str()) {
        Ok(time) => time,
        Err(error) => {
            return Err(TableError::BadTime(error));
        },
    };
    let folder_paths = match &row.folder_paths {
        Some(paths) => {
            let order = match &row.folder_paths_order {
                Some(order) => order.clone(),
                None => {
                    let none = String::new();
                    assert(none@ =~= Seq::<char>::empty());
                    none
                },
            };
            Some(FolderPaths { paths: paths.clone(), order })
        },
        None => None,
    };
    Ok(
        DbThreadMetadata {
            id: row.id.clone(),
            parent_session_id: copy_text(&row.parent_id),
            title: row.summary.clone(),
            updated_at,
            created_at,
            folder_paths,
            workspace_id: copy_text(&row.workspace_id),
        },
    )
}

fn visible_rows(rows: &Vec<ThreadRow>) -> (r: Vec<ListedThread>)
    ensures
        r.deep_view() == visible(rows.deep_view()),
{
    let ghost models = rows.deep_view();
    let mut out: Vec<ListedThread> = Vec::new();
    let mut i: usize = 0;
    proof {
        assert(models.take(0) =~= Seq::empty());
        assert(out.deep_view() =~= Seq::empty());
    }
    while i < rows.len()
        invariant
            i <= rows@.len(),
            models == rows.deep_view(),
            out.deep_view() == visible(models.take(i as int)),
        decreases rows@.len() - i,
    {
        let ghost done = out.deep_view();
        let row: &ThreadRow = &rows[i];
        proof {
            let next = models.take(i + 1);
            assert(next.drop_last() =~= models.take(i as int));
            assert(next.last() == row.deep_view());
        }
        if row.merged_into.is_none() {
            let listed = ListedThread {
                id: row.id.clone(),
                parent_id: copy_text(&row.parent_id),
                folder_paths: copy_text(&row.folder_paths),
                folder_paths_order: copy_text(&row.folder_paths_order),
                workspace_id: copy_text(&row.workspace_id),
                summary: row.summary.clone(),
                updated_at: row.updated_at.clone(),
                created_at: copy_text(&row.created_at),
            };
            out.push(listed);
            assert(out.deep_view() =~= done.push(listed.deep_view()));
        }
        i = i + 1;
    }
    assert(models.take(models.len() as int) =~= models);
    out
}

impl ThreadsDatabase {
    /// The threads that are to be seen, latest first. It fails where a time in one of
    /// them is none, with the first such text.
    pub fn list_threads(&self) -> (r: Result<Vec<DbThreadMetadata>, TableError>)
        ensures
            exists|order: Seq<ListedView>| #[trigger]
                lists(order, self.deep_view()) && match r {
                    Ok(list) => {
                        &&& list@.len() == order.len()
                        &&& forall|i: int|
                            0 <= i < order.len() ==> metadata_of(#[trigger] order[i]) == Ok::<
                                MetadataView,
                                TableErrorView,
                            >(list@[i].deep_view())
                    },
                    Err(error) => exists|i: int|
                        {
                            &&& 0 <= i < order.len()
                            &&& metadata_of(#[trigger] order[i]) == Err::<
                                MetadataView,
                                TableErrorView,
                            >(error.deep_view())
                            &&& forall|j: int|
                                0 <= j < i ==> metadata_of(#[trigger] order[j]) is Ok
                        },
                },
    {
        let ordered = sorted(visible_rows(&self.rows));
        let ghost order = ordered.deep_view();
        assert(lists(order, self.deep_view()));
        let mut list: Vec<DbThreadMetadata> = Vec::new();
        let mut i: usize = 0;
        while i < ordered.len()
            invariant
                i <= ordered@.len(),
                order == ordered.deep_view(),
                lists(order, self.deep_view()),
                list@.len() == i,
                forall|j: int|
                    0 <= j < i ==> metadata_of(#[trigger] order[j]) == Ok::<
                        MetadataView,
                        TableErrorView,
                    >(list@[j].deep_view()),
            decreases ordered@.len() - i,
        {
            assert(order[i as int] == ordered@[i as int].deep_view());
            match read_metadata(&ordered[i]) {
                Ok(metadata) => {
                    list.push(metadata);
                },
                Err(error) => {
                    return Err(error);
                },
            }
            i = i + 1;
        }
        Ok(list)
    }
}

/// A thread is listed unless it was merged into another.
pub proof fn law_listed_unless_merged(rows: Seq<RowView>, i: int)
    requires
        unique_ids(rows),
        0 <= i < rows.len(),
    ensures
        rows[i].merged_into is None <==> exists|k: int|
            0 <= k < visible(rows).len() && (#[trigger] visible(rows)[k]).id == rows[i].id,
    decreases rows.len(),
{
    let rest = rows.drop_last();
    let list = visible(rows);
    lemma_visible_has_a_row(rows);
    if i < rest.len() {
        assert(rest[i] == rows[i]);
        law_listed_unless_merged(rest, i);
        if rows[i].merged_into is None {
            let k = choose|k: int|
                0 <= k < visible(rest).len() && (#[trigger] visible(rest)[k]).id == rows[i].id;
            assert(list[k] == visible(rest)[k]);
        }
    } else if rows[i].merged_into is None {
        assert(list[list.len() - 1].id == rows[i].id);
    }
    if exists|k: int| 0 <= k < list.len() && (#[trigger] list[k]).id == rows[i].id {
        let k = choose|k: int| 0 <= k < list.len() && (#[trigger] list[k]).id == rows[i].id;
        let j = choose|j: int|
            0 <= j < rows.len() && (#[trigger] rows[j]).merged_into is None && listed_of(rows[j])
                == list[k];
        assert(rows[j].id == rows[i].id);
    }
}

proof fn lemma_visible_has_a_row(rows: Seq<RowView>)
    ensures
        forall|k: int|
            0 <= k < visible(rows).len() ==> exists|j: int|
                0 <= j < rows.len() && (#[trigger] rows[j]).merged_into is None && listed_of(
                    rows[j],
                ) == #[trigger] visible(rows)[k],
    decreases rows.len(),
{
    if rows.len() > 0 {
        let rest = rows.drop_last();
        lemma_visible_has_a_row(rest);
        assert forall|k: int| 0 <= k < visible(rows).len() implies exists|j: int|
            0 <= j < rows.len() && (#[trigger] rows[j]).merged_into is None && listed_of(rows[j])
                == #[trigger] visible(rows)[k] by {
            if k < visible(rest).len() {
                assert(visible(rest)[k] == visible(rows)[k]);
                let j = choose|j: int|
                    0 <= j < rest.len() && (#[trigger] rest[j]).merged_into is None && listed_of(
                        rest[j],
                    ) == visible(rest)[k];
                assert(rows[j] == rest[j]);
            } else {
                assert(rows[rows.len() - 1].merged_into is None);
            }
        }
    }
}

impl ThreadsDatabase {
    /// Takes all rows out of the table.
    pub(crate) fn take_rows(&mut self) -> (r: Vec<ThreadRow>)
        ensures
            r.deep_view() == old(self).deep_view(),
            unique_ids(r.deep_view()),
            final(self).deep_view() == Seq::<RowView>::empty(),
    {
        proof {
            use_type_invariant(&*self);
        }
        let mut rows: Vec<ThreadRow> = Vec::new();
        assert(rows.deep_view() =~= Seq::empty());
        std::mem::swap(&mut rows, &mut self.rows);
        rows
    }

    /// Makes these the rows of the table.
    pub(crate) fn put_rows(&mut self, rows: Vec<ThreadRow>)
        requires
            unique_ids(rows.deep_view()),
        ensures
            final(self).deep_view() == rows.deep_view(),
    {
        self.rows = rows;
    }
}

// ---------------------------------------------------------------------------
// What a row says of its thread

/// A row says of a thread what the thread says of itself: its title, when it was updated and
/// which thread it belongs to; the folders, their order and the workspace that it was saved
/// for; and the data as it is.
pub proof fn law_row_tells_of_its_thread(
    id: Seq<char>,
    thread: ThreadView,
    folders: Option<(Seq<char>, Seq<char>)>,
    workspace_id: Option<Seq<char>>,
    data: Seq<u8>,
)
    ensures
        ({
            let row = new_row(id, thread, folders, workspace_id, data);
            &&& row.id == id
            &&& thread.subagent_context matches Some(context) ==> row.parent_id == Some(context.0)
            &&& thread.subagent_context is None ==> row.parent_id is None
            &&& folders matches Some(folders) ==> row.folder_paths == Some(folders.0)
                && row.folder_paths_order == Some(folders.1)
            &&& folders is None ==> row.folder_paths is None && row.folder_paths_order is None
            &&& row.workspace_id == workspace_id
            &&& row.summary == thread.title
            &&& row.updated_at == time_text(thread.updated_at)
            &&& row.created_at == Some(row.updated_at)
            &&& row.data == data
            &&& row.data_type == DataType::Zstd
            &&& row.merged_into is None
        }),
{
}

/// A thread that is saved again has the new data, title, time, folders and parent; when it was
/// created and what it was merged into stay, and its workspace stays where none is given.
pub proof fn law_saved_again_keeps_when_it_was_created(old_row: RowView, new: RowView)
    ensures
        ({
            let row = saved_again(old_row, new);
            &&& row.id == new.id
            &&& row.parent_id == new.parent_id
            &&& row.folder_paths == new.folder_paths
            &&& row.folder_paths_order == new.folder_paths_order
            &&& row.summary == new.summary
            &&& row.updated_at == new.updated_at
            &&& row.data_type == new.data_type
            &&& row.data == new.data
            &&& row.dedup_key == new.dedup_key
            &&& row.created_at == old_row.created_at
            &&& row.merged_into == old_row.merged_into
            &&& new.workspace_id is Some ==> row.workspace_id == new.workspace_id
            &&& new.workspace_id is None ==> row.workspace_id == old_row.workspace_id
        }),
{
}

/// A thread that was not merged opens itself; one that was opens what the other opens.
pub proof fn law_merged_thread_opens_the_other(
    rows: Seq<RowView>,
    row: RowView,
    hops: nat,
)
    requires
        row_of(rows, row.id) == Some(row),
        hops > 0,
    ensures
        row.merged_into is None ==> opened(rows, row.id, hops) == Some(row),
        row.merged_into matches Some(next) ==> opened(rows, row.id, hops) == opened(
            rows,
            next,
            (hops - 1) as nat,
        ),
{
}

/// Whatever opens is a row of the table that was not merged into another.
pub proof fn law_opened_is_not_merged(rows: Seq<RowView>, id: Seq<char>, hops: nat)
    ensures
        opened(rows, id, hops) matches Some(row) ==> row.merged_into is None && rows.contains(row),
    decreases hops,
{
    if hops > 0 {
        lemma_position(rows, id);
        if let Some(row) = row_of(rows, id) {
            if let Some(next) = row.merged_into {
                law_opened_is_not_merged(rows, next, (hops - 1) as nat);
            }
        }
    }
}

/// What is listed of a thread is what its row says of it, and its times are those that the row
/// holds as text.
pub proof fn law_listing_tells_what_the_row_says(row: RowView)
    ensures
        metadata_of(listed_of(row)) matches Ok(listed) ==> {
            &&& listed.id == row.id
            &&& listed.parent_session_id == row.parent_id
            &&& listed.title == row.summary
            &&& parsed_time(row.updated_at) matches Ok(time) && listed.updated_at == time
            &&& row.created_at matches Some(text) ==> (parsed_time(text) matches Ok(time)
                && listed.created_at == Some(time))
            &&& row.created_at is None ==> listed.created_at is None
            &&& row.folder_paths matches Some(paths) ==> (listed.folder_paths matches Some(folders)
                && folders.0 == paths && (row.folder_paths_order matches Some(order) ==> folders.1
                == order))
            &&& row.folder_paths is None ==> listed.folder_paths is None
            &&& listed.workspace_id == row.workspace_id
        },
        metadata_of(listed_of(row)) is Err <==> parsed_time(row.updated_at) is Err || (
        row.created_at matches Some(text) && parsed_time(text) is Err),
{
}

/// Of two listed threads the one that was updated later stands first, and of two that were
/// updated at one time the one that was created later; one of unknown age stands last.
pub proof fn law_latest_is_listed_first(a: ListedView, b: ListedView)
    ensures
        before(a.updated_at, b.updated_at) ==> listed_before(b, a) && !listed_before(a, b),
        a.updated_at == b.updated_at ==> (a.created_at matches Some(x) ==> (
        b.created_at matches Some(y) ==> (before(x, y) ==> listed_before(b, a) && !listed_before(
            a,
            b,
        )))),
        a.updated_at == b.updated_at && a.created_at is Some && b.created_at is None
            ==> listed_before(a, b) && !listed_before(b, a),
{
    lemma_before_asymmetric(a.updated_at, b.updated_at);
    if let (Some(x), Some(y)) = (a.created_at, b.created_at) {
        lemma_before_asymmetric(x, y);
    }
    lemma_before_asymmetric(a.updated_at, a.updated_at);
}

/// A thread was last updated when its row says; a thread that is not there was not.
pub proof fn law_last_update_is_in_the_row(rows: Seq<RowView>, id: Seq<char>, row: RowView)
    ensures
        row_of(rows, id) == Some(row) ==> (parsed_time(row.updated_at) matches Ok(time)
            ==> last_update(rows, id) == Ok::<Option<(i64, u32)>, TableErrorView>(Some(time))),
        row_of(rows, id) == Some(row) && parsed_time(row.updated_at) is Err ==> last_update(rows, id)
            is Err,
        row_of(rows, id) is None ==> last_update(rows, id) == Ok::<
            Option<(i64, u32)>,
            TableErrorView,
        >(None),
{
}

} // verus!
