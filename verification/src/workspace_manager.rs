//! Managed workspaces: named sets of projects with an id that never changes.

use vstd::prelude::*;
use crate::ids::{
    hyphenated, id_text, is_random_id, law_ids_have_their_own_text, parse_id, parsed_id, random_id,
};
use crate::lists::{all_different, copied, same_lists};
use crate::order::{
    before, comes_before, in_order, lemma_before_asymmetric, lemma_not_after_transitive,
    lemma_one_order, lemma_sorted_texts_unique, sorted, Ranked,
};
use crate::text::{joined, same};
use crate::models::outcome;
use crate::workspace_names::{are_names, default_name, present};
use crate::time::{parsed_time, time_text, Timestamp};

verus! {

/// The id of a managed workspace. It is made once, when the workspace is created, and
/// stays when projects are added or removed. It is stored in its hyphenated form.
#[derive(Clone, Copy, Debug, PartialEq, Eq, Hash, Structural)]
pub struct ManagedWorkspaceId {
    id: u128,
}

impl DeepView for ManagedWorkspaceId {
    type V = u128;

    closed spec fn deep_view(&self) -> u128 {
        self.id
    }
}

/// Why something could not be done with managed workspaces.
#[derive(Debug, PartialEq, Eq)]
pub enum ManagerError {
    /// A key is no id; what is said of it.
    BadKey(String),
    /// The workspace is there already, or one of its projects is given twice.
    Conflict,
    /// No position is left after the last project.
    NoRoom,
}

/// The model of a `ManagerError`.
pub enum ManagerErrorView {
    BadKey(Seq<char>),
    Conflict,
    NoRoom,
}

impl DeepView for ManagerError {
    type V = ManagerErrorView;

    open spec fn deep_view(&self) -> ManagerErrorView {
        match self {
            ManagerError::BadKey(text) => ManagerErrorView::BadKey(text@),
            ManagerError::Conflict => ManagerErrorView::Conflict,
            ManagerError::NoRoom => ManagerErrorView::NoRoom,
        }
    }
}

/// What is said of an error; nothing of a row that would stand twice, of which the
/// database has its own words.
pub open spec fn manager_error_text(error: ManagerErrorView) -> Option<Seq<char>> {
    match error {
        ManagerErrorView::BadKey(text) => Some(text),
        ManagerErrorView::Conflict => None,
        ManagerErrorView::NoRoom => Some("no position is left for another project"@),
    }
}

impl ManagerError {
    /// What is said of this error; nothing of a row that would stand twice, of which the
    /// database has its own words.
    pub fn message(&self) -> (r: Option<String>)
        ensures
            r.deep_view() == manager_error_text(self.deep_view()),
    {
        match self {
            ManagerError::BadKey(text) => Some(text.clone()),
            ManagerError::Conflict => None,
            ManagerError::NoRoom => Some("no position is left for another project".to_owned()),
        }
    }
}

/// The id that a key gives.
pub open spec fn id_of(key: Seq<char>) -> Result<u128, ManagerErrorView> {
    match parsed_id(key) {
        Ok(id) => Ok(id),
        Err(text) => Err(ManagerErrorView::BadKey(text)),
    }
}

impl ManagedWorkspaceId {
    /// A new random id.
    pub fn new() -> (r: ManagedWorkspaceId)
        ensures
            is_random_id(r.deep_view()),
    {
        ManagedWorkspaceId { id: random_id() }
    }

    /// The hyphenated form of the id, which gives the same id back.
    pub fn to_key_string(&self) -> (r: String)
        ensures
            r@ == hyphenated(self.deep_view()),
            id_of(r@) == Ok::<u128, ManagerErrorView>(self.deep_view()),
    {
        id_text(self.id)
    }

    /// The id that a key gives.
    pub fn from_key_string(key: &str) -> (r: Result<ManagedWorkspaceId, ManagerError>)
        ensures
            outcome(r) == id_of(key@),
    {
        match parse_id(key) {
            Ok(id) => Ok(ManagedWorkspaceId { id }),
            Err(text) => Err(ManagerError::BadKey(text)),
        }
    }

    /// The id as a number.
    pub fn as_uuid(&self) -> (r: u128)
        ensures
            r == self.deep_view(),
    {
        self.id
    }
}

// ---------------------------------------------------------------------------
// The tables

/// A row of the table of workspaces.
#[derive(Debug)]
pub struct WorkspaceRow {
    pub workspace_id: String,
    pub name: String,
    pub created_at: String,
    pub updated_at: String,
}

/// A row of the table of projects.
#[derive(Debug)]
pub struct ProjectRow {
    pub workspace_id: String,
    pub path: String,
    pub position: i64,
    pub remote_connection_id: Option<i64>,
}

/// The model of a `WorkspaceRow`.
pub struct WorkspaceRowView {
    pub workspace_id: Seq<char>,
    pub name: Seq<char>,
    pub created_at: Seq<char>,
    pub updated_at: Seq<char>,
}

/// The model of a `ProjectRow`.
pub struct ProjectRowView {
    pub workspace_id: Seq<char>,
    pub path: Seq<char>,
    pub position: i64,
    pub remote_connection_id: Option<i64>,
}

impl DeepView for WorkspaceRow {
    type V = WorkspaceRowView;

    open spec fn deep_view(&self) -> WorkspaceRowView {
        WorkspaceRowView {
            workspace_id: self.workspace_id@,
            name: self.name@,
            created_at: self.created_at@,
            updated_at: self.updated_at@,
        }
    }
}

impl DeepView for ProjectRow {
    type V = ProjectRowView;

    open spec fn deep_view(&self) -> ProjectRowView {
        ProjectRowView {
            workspace_id: self.workspace_id@,
            path: self.path@,
            position: self.position,
            remote_connection_id: self.remote_connection_id,
        }
    }
}

/// A managed workspace.
#[derive(Debug)]
pub struct ManagedWorkspace {
    pub workspace_id: ManagedWorkspaceId,
    pub name: String,
    pub created_at: Timestamp,
    pub updated_at: Timestamp,
}

/// The model of a `ManagedWorkspace`.
pub struct WorkspaceView {
    pub workspace_id: u128,
    pub name: Seq<char>,
    pub created_at: (i64, u32),
    pub updated_at: (i64, u32),
}

impl DeepView for ManagedWorkspace {
    type V = WorkspaceView;

    open spec fn deep_view(&self) -> WorkspaceView {
        WorkspaceView {
            workspace_id: self.workspace_id.deep_view(),
            name: self.name@,
            created_at: self.created_at.deep_view(),
            updated_at: self.updated_at.deep_view(),
        }
    }
}

/// A project of a managed workspace.
#[derive(Debug)]
pub struct ManagedWorkspaceProject {
    pub workspace_id: ManagedWorkspaceId,
    pub path: String,
    pub position: i64,
    pub remote_connection_id: Option<i64>,
}

/// The model of a `ManagedWorkspaceProject`.
pub struct ProjectView {
    pub workspace_id: u128,
    pub path: Seq<char>,
    pub position: i64,
    pub remote_connection_id: Option<i64>,
}

impl DeepView for ManagedWorkspaceProject {
    type V = ProjectView;

    open spec fn deep_view(&self) -> ProjectView {
        ProjectView {
            workspace_id: self.workspace_id.deep_view(),
            path: self.path@,
            position: self.position,
            remote_connection_id: self.remote_connection_id,
        }
    }
}

/// A workspace that holds the folder that is being opened.
#[derive(Debug)]
pub struct AskCandidate {
    pub workspace_id: ManagedWorkspaceId,
    pub name: String,
    pub project_count: usize,
}

impl DeepView for AskCandidate {
    type V = (u128, Seq<char>, nat);

    open spec fn deep_view(&self) -> (u128, Seq<char>, nat) {
        (self.workspace_id.deep_view(), self.name@, self.project_count as nat)
    }
}

impl Ranked for ManagedWorkspaceProject {
    open spec fn ranks_before(a: ProjectView, b: ProjectView) -> bool {
        a.position < b.position
    }

    proof fn ranks_asymmetric(a: ProjectView, b: ProjectView) {
    }

    proof fn ranks_transitive(a: ProjectView, b: ProjectView, c: ProjectView) {
    }

    fn comes_first(&self, other: &Self) -> (r: bool) {
        self.position < other.position
    }
}

impl Ranked for WorkspaceRow {
    open spec fn ranks_before(a: WorkspaceRowView, b: WorkspaceRowView) -> bool {
        before(a.name, b.name)
    }

    proof fn ranks_asymmetric(a: WorkspaceRowView, b: WorkspaceRowView) {
        lemma_before_asymmetric(a.name, b.name);
    }

    proof fn ranks_transitive(a: WorkspaceRowView, b: WorkspaceRowView, c: WorkspaceRowView) {
        lemma_not_after_transitive(a.name, b.name, c.name);
    }

    fn comes_first(&self, other: &Self) -> (r: bool) {
        comes_before(self.name.as_str(), other.name.as_str())
    }
}

/// Whether no workspace stands twice.
pub open spec fn unique_workspaces(rows: Seq<WorkspaceRowView>) -> bool {
    forall|i: int, j: int|
        0 <= i < j < rows.len() ==> (#[trigger] rows[i]).workspace_id != (
        #[trigger] rows[j]).workspace_id
}

/// Whether no project stands twice in one workspace.
pub open spec fn unique_projects(rows: Seq<ProjectRowView>) -> bool {
    forall|i: int, j: int|
        0 <= i < j < rows.len() ==> !((#[trigger] rows[i]).workspace_id == (
        #[trigger] rows[j]).workspace_id && rows[i].path == rows[j].path)
}

/// The row of that workspace.
pub open spec fn workspace_row(rows: Seq<WorkspaceRowView>, key: Seq<char>) -> Option<
    WorkspaceRowView,
>
    decreases rows.len(),
{
    if rows.len() == 0 {
        None
    } else if rows[0].workspace_id == key {
        Some(rows[0])
    } else {
        workspace_row(rows.drop_first(), key)
    }
}

/// The key of the first workspace of that name.
pub open spec fn key_of_name(rows: Seq<WorkspaceRowView>, name: Seq<char>) -> Option<Seq<char>>
    decreases rows.len(),
{
    if rows.len() == 0 {
        None
    } else if rows[0].name == name {
        Some(rows[0].workspace_id)
    } else {
        key_of_name(rows.drop_first(), name)
    }
}

/// The projects of a workspace, in the order of the table.
pub open spec fn members(rows: Seq<ProjectRowView>, id: u128) -> Seq<ProjectView>
    decreases rows.len(),
{
    if rows.len() == 0 {
        Seq::empty()
    } else {
        let rest = members(rows.drop_last(), id);
        if rows.last().workspace_id == hyphenated(id) {
            rest.push(
                ProjectView {
                    workspace_id: id,
                    path: rows.last().path,
                    position: rows.last().position,
                    remote_connection_id: rows.last().remote_connection_id,
                },
            )
        } else {
            rest
        }
    }
}

/// Whether this is the list of a workspace's projects, each once, by position. Projects
/// at one position may stand either way.
pub open spec fn lists_projects(
    list: Seq<ProjectView>,
    rows: Seq<ProjectRowView>,
    id: u128,
) -> bool {
    &&& list.to_multiset() == members(rows, id).to_multiset()
    &&& in_order::<ManagedWorkspaceProject>(list)
}

/// The paths of a workspace's projects, in the order of the table.
pub open spec fn paths_of(rows: Seq<ProjectRowView>, key: Seq<char>) -> Seq<Seq<char>>
    decreases rows.len(),
{
    if rows.len() == 0 {
        Seq::empty()
    } else {
        let rest = paths_of(rows.drop_last(), key);
        if rows.last().workspace_id == key {
            rest.push(rows.last().path)
        } else {
            rest
        }
    }
}

/// Whether a workspace holds exactly the given paths.
pub open spec fn holds_exactly(
    rows: Seq<ProjectRowView>,
    key: Seq<char>,
    paths: Seq<Seq<char>>,
) -> bool {
    paths_of(rows, key).to_multiset() == paths.to_multiset()
}

/// The first workspace among `some` of the rows that holds exactly the given paths.
pub open spec fn exact_holder(
    rows: Seq<ProjectRowView>,
    some: Seq<ProjectRowView>,
    paths: Seq<Seq<char>>,
) -> Option<Seq<char>>
    decreases some.len(),
{
    if some.len() == 0 {
        None
    } else if holds_exactly(rows, some[0].workspace_id, paths) {
        Some(some[0].workspace_id)
    } else {
        exact_holder(rows, some.drop_first(), paths)
    }
}

/// The keys of the workspaces that hold a path, in the order of the table.
pub open spec fn holders(rows: Seq<ProjectRowView>, path: Seq<char>) -> Seq<Seq<char>>
    decreases rows.len(),
{
    if rows.len() == 0 {
        Seq::empty()
    } else {
        let rest = holders(rows.drop_last(), path);
        if rows.last().path == path {
            rest.push(rows.last().workspace_id)
        } else {
            rest
        }
    }
}

/// The ids that keys give, or the error of the first that gives none.
pub open spec fn ids_of(keys: Seq<Seq<char>>) -> Result<Seq<u128>, ManagerErrorView>
    decreases keys.len(),
{
    if keys.len() == 0 {
        Ok(Seq::empty())
    } else {
        match ids_of(keys.drop_last()) {
            Ok(ids) => match id_of(keys.last()) {
                Ok(id) => Ok(ids.push(id)),
                Err(error) => Err(error),
            },
            Err(error) => Err(error),
        }
    }
}

/// Those of the workspaces that are there and have more than one project, each with its
/// name and the number of its projects.
pub open spec fn candidates(tables: TablesView, ids: Seq<u128>) -> Seq<(u128, Seq<char>, nat)>
    decreases ids.len(),
{
    if ids.len() == 0 {
        Seq::empty()
    } else {
        let rest = candidates(tables, ids.drop_last());
        let id = ids.last();
        let count = members(tables.projects, id).len();
        match workspace_row(tables.workspaces, hyphenated(id)) {
            Some(row) => if count > 1 {
                rest.push((id, row.name, count))
            } else {
                rest
            },
            None => rest,
        }
    }
}

/// The time that a text gives, or else the present.
pub open spec fn time_or(text: Seq<char>, now: (i64, u32)) -> (i64, u32) {
    match parsed_time(text) {
        Ok(time) => time,
        Err(_) => now,
    }
}

/// What is known of a workspace.
pub open spec fn workspace_of(row: WorkspaceRowView, id: u128, now: (i64, u32)) -> WorkspaceView {
    WorkspaceView {
        workspace_id: id,
        name: row.name,
        created_at: time_or(row.created_at, now),
        updated_at: time_or(row.updated_at, now),
    }
}

/// The largest position of projects.
pub open spec fn last_position(list: Seq<ProjectView>) -> i64
    recommends
        list.len() > 0,
    decreases list.len(),
{
    if list.len() <= 1 {
        list[0].position
    } else {
        let rest = last_position(list.drop_last());
        if rest < list.last().position {
            list.last().position
        } else {
            rest
        }
    }
}

/// The position after the last project; nothing where no number is left.
pub open spec fn next_position(list: Seq<ProjectView>) -> Option<i64> {
    if list.len() == 0 {
        Some(0)
    } else if last_position(list) == i64::MAX {
        None
    } else {
        Some((last_position(list) + 1) as i64)
    }
}

/// The rows of new projects, at positions from nought on.
pub open spec fn new_projects(key: Seq<char>, paths: Seq<Seq<char>>) -> Seq<ProjectRowView> {
    Seq::new(
        paths.len(),
        |i: int|
            ProjectRowView {
                workspace_id: key,
                path: paths[i],
                position: i as i64,
                remote_connection_id: None,
            },
    )
}

/// The tables after a workspace was created.
pub open spec fn created(
    tables: TablesView,
    id: u128,
    name: Seq<char>,
    paths: Seq<Seq<char>>,
    now: (i64, u32),
) -> TablesView {
    TablesView {
        workspaces: tables.workspaces.push(
            WorkspaceRowView {
                workspace_id: hyphenated(id),
                name,
                created_at: time_text(now),
                updated_at: time_text(now),
            },
        ),
        projects: tables.projects + new_projects(hyphenated(id), paths),
    }
}

/// Whether a workspace can be created: its tables stay without repetition.
pub open spec fn can_create(tables: TablesView, id: u128, paths: Seq<Seq<char>>) -> bool {
    &&& workspace_row(tables.workspaces, hyphenated(id)) is None
    &&& paths.no_duplicates()
    &&& forall|i: int|
        0 <= i < paths.len() ==> !has_project(tables.projects, hyphenated(id), #[trigger] paths[i])
}

/// Whether a workspace has a project at that path.
pub open spec fn has_project(
    rows: Seq<ProjectRowView>,
    key: Seq<char>,
    path: Seq<char>,
) -> bool {
    exists|i: int|
        0 <= i < rows.len() && (#[trigger] rows[i]).workspace_id == key && rows[i].path == path
}

/// The rows without that project.
pub open spec fn without_project(
    rows: Seq<ProjectRowView>,
    key: Seq<char>,
    path: Seq<char>,
) -> Seq<ProjectRowView>
    decreases rows.len(),
{
    if rows.len() == 0 {
        Seq::empty()
    } else {
        let rest = without_project(rows.drop_last(), key, path);
        if rows.last().workspace_id == key && rows.last().path == path {
            rest
        } else {
            rest.push(rows.last())
        }
    }
}

/// The model of the tables.
pub struct TablesView {
    pub workspaces: Seq<WorkspaceRowView>,
    pub projects: Seq<ProjectRowView>,
}

/// The one place that knows which workspaces there are. No workspace stands twice in it,
/// and no project twice in one workspace.
#[derive(Debug)]
pub struct WorkspaceManager {
    workspaces: Vec<WorkspaceRow>,
    projects: Vec<ProjectRow>,
}

impl DeepView for WorkspaceManager {
    type V = TablesView;

    closed spec fn deep_view(&self) -> TablesView {
        TablesView {
            workspaces: self.workspaces.deep_view(),
            projects: self.projects.deep_view(),
        }
    }
}

// ---------------------------------------------------------------------------
// Reading

fn find_row<'a>(rows: &'a Vec<WorkspaceRow>, key: &str) -> (r: Option<&'a WorkspaceRow>)
    ensures
        r.deep_view() == workspace_row(rows.deep_view(), key@),
{
    let ghost models = rows.deep_view();
    let mut i: usize = 0;
    assert(models.skip(0) =~= models);
    while i < rows.len()
        invariant
            i <= rows@.len(),
            models == rows.deep_view(),
            workspace_row(models, key@) == workspace_row(models.skip(i as int), key@),
        decreases rows@.len() - i,
    {
        proof {
            let rest = models.skip(i as int);
            assert(rest[0] == rows@[i as int].deep_view());
            assert(rest.drop_first() =~= models.skip(i + 1));
        }
        if same(rows[i].workspace_id.as_str(), key) {
            return Some(&rows[i]);
        }
        i = i + 1;
    }
    None
}

fn find_name<'a>(rows: &'a Vec<WorkspaceRow>, name: &str) -> (r: Option<&'a String>)
    ensures
        r.deep_view() == key_of_name(rows.deep_view(), name@),
{
    let ghost models = rows.deep_view();
    let mut i: usize = 0;
    assert(models.skip(0) =~= models);
    while i < rows.len()
        invariant
            i <= rows@.len(),
            models == rows.deep_view(),
            key_of_name(models, name@) == key_of_name(models.skip(i as int), name@),
        decreases rows@.len() - i,
    {
        proof {
            let rest = models.skip(i as int);
            assert(rest[0] == rows@[i as int].deep_view());
            assert(rest.drop_first() =~= models.skip(i + 1));
        }
        if same(rows[i].name.as_str(), name) {
            return Some(&rows[i].workspace_id);
        }
        i = i + 1;
    }
    None
}

fn find_members(rows: &Vec<ProjectRow>, id: ManagedWorkspaceId) -> (r: Vec<ManagedWorkspaceProject>)
    ensures
        r.deep_view() == members(rows.deep_view(), id.deep_view()),
{
    let ghost models = rows.deep_view();
    let key = id.to_key_string();
    let mut out: Vec<ManagedWorkspaceProject> = Vec::new();
    let mut i: usize = 0;
    proof {
        assert(models.take(0) =~= Seq::empty());
        assert(out.deep_view() =~= Seq::empty());
    }
    while i < rows.len()
        invariant
            i <= rows@.len(),
            models == rows.deep_view(),
            key@ == hyphenated(id.deep_view()),
            out.deep_view() == members(models.take(i as int), id.deep_view()),
        decreases rows@.len() - i,
    {
        let ghost done = out.deep_view();
        let row: &ProjectRow = &rows[i];
        proof {
            let next = models.take(i + 1);
            assert(next.drop_last() =~= models.take(i as int));
            assert(next.last() == row.deep_view());
        }
        if same(row.workspace_id.as_str(), key.as_str()) {
            let project = ManagedWorkspaceProject {
                workspace_id: id,
                path: row.path.clone(),
                position: row.position,
                remote_connection_id: row.remote_connection_id,
            };
            out.push(project);
            assert(out.deep_view() =~= done.push(project.deep_view()));
        }
        i = i + 1;
    }
    assert(models.take(models.len() as int) =~= models);
    out
}

fn find_paths(rows: &Vec<ProjectRow>, key: &str) -> (r: Vec<String>)
    ensures
        r.deep_view() == paths_of(rows.deep_view(), key@),
{
    let ghost models = rows.deep_view();
    let mut out: Vec<String> = Vec::new();
    let mut i: usize = 0;
    proof {
        assert(models.take(0) =~= Seq::empty());
        assert(out.deep_view() =~= Seq::empty());
    }
    while i < rows.len()
        invariant
            i <= rows@.len(),
            models == rows.deep_view(),
            out.deep_view() == paths_of(models.take(i as int), key@),
        decreases rows@.len() - i,
    {
        let ghost done = out.deep_view();
        let row: &ProjectRow = &rows[i];
        proof {
            let next = models.take(i + 1);
            assert(next.drop_last() =~= models.take(i as int));
            assert(next.last() == row.deep_view());
        }
        if same(row.workspace_id.as_str(), key) {
            out.push(row.path.clone());
            assert(out.deep_view() =~= done.push(row.path@));
        }
        i = i + 1;
    }
    assert(models.take(models.len() as int) =~= models);
    out
}

fn find_holders(rows: &Vec<ProjectRow>, path: &str) -> (r: Vec<String>)
    ensures
        r.deep_view() == holders(rows.deep_view(), path@),
{
    let ghost models = rows.deep_view();
    let mut out: Vec<String> = Vec::new();
    let mut i: usize = 0;
    proof {
        assert(models.take(0) =~= Seq::empty());
        assert(out.deep_view() =~= Seq::empty());
    }
    while i < rows.len()
        invariant
            i <= rows@.len(),
            models == rows.deep_view(),
            out.deep_view() == holders(models.take(i as int), path@),
        decreases rows@.len() - i,
    {
        let ghost done = out.deep_view();
        let row: &ProjectRow = &rows[i];
        proof {
            let next = models.take(i + 1);
            assert(next.drop_last() =~= models.take(i as int));
            assert(next.last() == row.deep_view());
        }
        if same(row.path.as_str(), path) {
            out.push(row.workspace_id.clone());
            assert(out.deep_view() =~= done.push(row.workspace_id@));
        }
        i = i + 1;
    }
    assert(models.take(models.len() as int) =~= models);
    out
}

proof fn lemma_ids_fail(keys: Seq<Seq<char>>, n: int)
    requires
        0 <= n <= keys.len(),
        ids_of(keys.take(n)) is Err,
    ensures
        ids_of(keys) == ids_of(keys.take(n)),
    decreases keys.len() - n,
{
    if n < keys.len() {
        assert(keys.take(n + 1).drop_last() =~= keys.take(n));
        lemma_ids_fail(keys, n + 1);
    } else {
        assert(keys.take(n) =~= keys);
    }
}

fn read_ids(keys: &Vec<String>) -> (r: Result<Vec<ManagedWorkspaceId>, ManagerError>)
    ensures
        outcome(r) == ids_of(keys.deep_view()),
{
    let ghost models = keys.deep_view();
    let mut ids: Vec<ManagedWorkspaceId> = Vec::new();
    let mut i: usize = 0;
    proof {
        assert(models.take(0) =~= Seq::empty());
        assert(ids.deep_view() =~= Seq::empty());
    }
    while i < keys.len()
        invariant
            i <= keys@.len(),
            models == keys.deep_view(),
            ids_of(models.take(i as int)) == Ok::<Seq<u128>, ManagerErrorView>(ids.deep_view()),
        decreases keys@.len() - i,
    {
        let ghost done = ids.deep_view();
        proof {
            let next = models.take(i + 1);
            assert(next.drop_last() =~= models.take(i as int));
            assert(next.last() == keys@[i as int]@);
        }
        match ManagedWorkspaceId::from_key_string(keys[i].as_str()) {
            Ok(id) => {
                ids.push(id);
                assert(ids.deep_view() =~= done.push(id.deep_view()));
            },
            Err(error) => {
                proof {
                    lemma_ids_fail(models, i + 1);
                }
                return Err(error);
            },
        }
        i = i + 1;
    }
    assert(models.take(models.len() as int) =~= models);
    Ok(ids)
}

/// The time that a text gives, or else the present.
pub fn parse_timestamp(text: &str, now: Timestamp) -> (r: Timestamp)
    ensures
        r.deep_view() == time_or(text@, now.deep_view()),
{
    match Timestamp::parse(text) {
        Ok(time) => time,
        Err(_) => now,
    }
}

/// Whether this is the list of all workspaces, each once, by name. Workspaces of one
/// name may stand either way.
pub open spec fn lists_workspaces(
    order: Seq<WorkspaceRowView>,
    rows: Seq<WorkspaceRowView>,
) -> bool {
    &&& order.to_multiset() == rows.to_multiset()
    &&& in_order::<WorkspaceRow>(order)
}

fn copy_rows(rows: &Vec<WorkspaceRow>) -> (r: Vec<WorkspaceRow>)
    ensures
        r.deep_view() == rows.deep_view(),
{
    let ghost models = rows.deep_view();
    let mut out: Vec<WorkspaceRow> = Vec::new();
    let mut i: usize = 0;
    assert(out.deep_view() =~= models.take(0));
    while i < rows.len()
        invariant
            i <= rows@.len(),
            models == rows.deep_view(),
            out.deep_view() == models.take(i as int),
        decreases rows@.len() - i,
    {
        let ghost done = out.deep_view();
        let row = WorkspaceRow {
            workspace_id: rows[i].workspace_id.clone(),
            name: rows[i].name.clone(),
            created_at: rows[i].created_at.clone(),
            updated_at: rows[i].updated_at.clone(),
        };
        out.push(row);
        assert(out.deep_view() =~= done.push(row.deep_view()));
        assert(row.deep_view() == models[i as int]);
        i = i + 1;
        assert(out.deep_view() =~= models.take(i as int));
    }
    assert(models.take(models.len() as int) =~= models);
    out
}

/// Which workspace a text means: the one of that id, or else the first of that name.
pub open spec fn meant(tables: TablesView, text: Seq<char>) -> Result<
    Option<u128>,
    ManagerErrorView,
> {
    let by_id = match parsed_id(text) {
        Ok(id) => workspace_row(tables.workspaces, hyphenated(id)) is Some,
        Err(_) => false,
    };
    if by_id {
        Ok(Some(parsed_id(text)->Ok_0))
    } else {
        match key_of_name(tables.workspaces, text) {
            Some(key) => match id_of(key) {
                Ok(id) => Ok(Some(id)),
                Err(error) => Err(error),
            },
            None => Ok(None),
        }
    }
}

/// The workspace that holds exactly the given paths; there is none for no path.
pub open spec fn workspace_for(tables: TablesView, paths: Seq<Seq<char>>) -> Result<
    Option<u128>,
    ManagerErrorView,
> {
    if paths.len() == 0 {
        Ok(None)
    } else {
        match exact_holder(tables.projects, tables.projects, paths) {
            Some(key) => match id_of(key) {
                Ok(id) => Ok(Some(id)),
                Err(error) => Err(error),
            },
            None => Ok(None),
        }
    }
}

impl WorkspaceManager {
    #[verifier::type_invariant]
    spec fn nothing_stands_twice(self) -> bool {
        &&& unique_workspaces(self.workspaces.deep_view())
        &&& unique_projects(self.projects.deep_view())
    }

    /// The workspace of that id; `now` stands for a time that cannot be read.
    pub fn get(&self, workspace_id: ManagedWorkspaceId, now: Timestamp) -> (r: Option<
        ManagedWorkspace,
    >)
        ensures
            r.deep_view() == match workspace_row(
                self.deep_view().workspaces,
                hyphenated(workspace_id.deep_view()),
            ) {
                Some(row) => Some(
                    workspace_of(row, workspace_id.deep_view(), now.deep_view()),
                ),
                None => None,
            },
    {
        let key = workspace_id.to_key_string();
        match find_row(&self.workspaces, key.as_str()) {
            Some(row) => Some(
                ManagedWorkspace {
                    workspace_id,
                    name: row.name.clone(),
                    created_at: parse_timestamp(row.created_at.as_str(), now),
                    updated_at: parse_timestamp(row.updated_at.as_str(), now),
                },
            ),
            None => None,
        }
    }

    /// The projects of a workspace, by position.
    pub fn projects(&self, workspace_id: ManagedWorkspaceId) -> (r: Vec<ManagedWorkspaceProject>)
        ensures
            lists_projects(
                r.deep_view(),
                self.deep_view().projects,
                workspace_id.deep_view(),
            ),
    {
        sorted(find_members(&self.projects, workspace_id))
    }

    /// The paths of a workspace's projects, by position.
    pub fn project_paths(&self, workspace_id: ManagedWorkspaceId) -> (r: Vec<String>)
        ensures
            exists|list: Seq<ProjectView>| #[trigger]
                lists_projects(list, self.deep_view().projects, workspace_id.deep_view())
                    && r.deep_view() == Seq::new(list.len(), |i: int| list[i].path),
    {
        let list = self.projects(workspace_id);
        let ghost models = list.deep_view();
        let ghost wanted = Seq::new(models.len(), |i: int| models[i].path);
        let mut out: Vec<String> = Vec::new();
        let mut i: usize = 0;
        assert(out.deep_view() =~= wanted.take(0));
        while i < list.len()
            invariant
                i <= list@.len(),
                models == list.deep_view(),
                wanted == Seq::new(models.len(), |i: int| models[i].path),
                out.deep_view() == wanted.take(i as int),
            decreases list@.len() - i,
        {
            let ghost done = out.deep_view();
            out.push(list[i].path.clone());
            assert(out.deep_view() =~= done.push(list@[i as int].path@));
            assert(models[i as int] == list@[i as int].deep_view());
            i = i + 1;
            assert(out.deep_view() =~= wanted.take(i as int));
        }
        assert(wanted.take(wanted.len() as int) =~= wanted);
        assert(lists_projects(models, self.deep_view().projects, workspace_id.deep_view()));
        out
    }

    /// The paths to open for a workspace, by position.
    pub fn open(&self, workspace_id: ManagedWorkspaceId) -> (r: Vec<String>)
        ensures
            exists|list: Seq<ProjectView>| #[trigger]
                lists_projects(list, self.deep_view().projects, workspace_id.deep_view())
                    && r.deep_view() == Seq::new(list.len(), |i: int| list[i].path),
    {
        self.project_paths(workspace_id)
    }

    /// The workspace that holds exactly the given paths.
    pub fn workspace_id_for_paths(&self, paths: &Vec<String>) -> (r: Result<
        Option<ManagedWorkspaceId>,
        ManagerError,
    >)
        ensures
            outcome(r) == workspace_for(self.deep_view(), paths.deep_view()),
    {
        assert(paths.deep_view().len() == paths@.len());
        if paths.len() == 0 {
            return Ok(None);
        }
        let target = sorted(copied(paths));
        let ghost models = self.projects.deep_view();
        let mut i: usize = 0;
        assert(models.skip(0) =~= models);
        while i < self.projects.len()
            invariant
                i <= self.projects@.len(),
                models == self.projects.deep_view(),
                paths.deep_view().len() > 0,
                target.deep_view().to_multiset() == paths.deep_view().to_multiset(),
                in_order::<String>(target.deep_view()),
                exact_holder(models, models, paths.deep_view()) == exact_holder(
                    models,
                    models.skip(i as int),
                    paths.deep_view(),
                ),
            decreases self.projects@.len() - i,
        {
            let key = self.projects[i].workspace_id.as_str();
            proof {
                let rest = models.skip(i as int);
                assert(rest[0] == self.projects@[i as int].deep_view());
                assert(rest.drop_first() =~= models.skip(i + 1));
            }
            let own = sorted(find_paths(&self.projects, key));
            proof {
                if own.deep_view().to_multiset() == target.deep_view().to_multiset() {
                    lemma_sorted_texts_unique(own.deep_view(), target.deep_view());
                }
            }
            if same_lists(&own, &target) {
                return match ManagedWorkspaceId::from_key_string(key) {
                    Ok(id) => Ok(Some(id)),
                    Err(error) => Err(error),
                };
            }
            i = i + 1;
        }
        Ok(None)
    }

    /// The workspaces that hold a path.
    pub fn workspaces_for_path(&self, path: &str) -> (r: Result<
        Vec<ManagedWorkspaceId>,
        ManagerError,
    >)
        ensures
            outcome(r) == ids_of(holders(self.deep_view().projects, path@)),
    {
        read_ids(&find_holders(&self.projects, path))
    }

    /// The workspaces with more than one project that hold a path. A folder that is the
    /// only one of a workspace is left out: to open that workspace and to open the
    /// folder alone are the same.
    pub fn ask_candidates(&self, path: &str, now: Timestamp) -> (r: Result<
        Vec<AskCandidate>,
        ManagerError,
    >)
        ensures
            outcome(r) == match ids_of(holders(self.deep_view().projects, path@)) {
                Ok(ids) => Ok(candidates(self.deep_view(), ids)),
                Err(error) => Err(error),
            },
    {
        let ids = match self.workspaces_for_path(path) {
            Ok(ids) => ids,
            Err(error) => {
                return Err(error);
            },
        };
        let ghost models = ids.deep_view();
        let mut out: Vec<AskCandidate> = Vec::new();
        let mut i: usize = 0;
        proof {
            assert(models.take(0) =~= Seq::empty());
            assert(out.deep_view() =~= Seq::empty());
        }
        while i < ids.len()
            invariant
                i <= ids@.len(),
                models == ids.deep_view(),
                out.deep_view() == candidates(self.deep_view(), models.take(i as int)),
            decreases ids@.len() - i,
        {
            let ghost done = out.deep_view();
            let id = ids[i];
            proof {
                let next = models.take(i + 1);
                assert(next.drop_last() =~= models.take(i as int));
                assert(next.last() == id.deep_view());
            }
            let list = self.projects(id);
            proof {
                broadcast use vstd::seq_lib::group_to_multiset_ensures;

                let found = members(self.deep_view().projects, id.deep_view());
                assert(list.deep_view().to_multiset().len() == found.to_multiset().len());
                assert(list.deep_view().len() == found.len());
            }
            let count: usize = list.len();
            if count > 1 {
                if let Some(workspace) = self.get(id, now) {
                    let candidate = AskCandidate {
                        workspace_id: id,
                        name: workspace.name,
                        project_count: count,
                    };
                    out.push(candidate);
                    assert(out.deep_view() =~= done.push(candidate.deep_view()));
                }
            }
            i = i + 1;
        }
        assert(models.take(models.len() as int) =~= models);
        Ok(out)
    }

    /// Which workspace a text means.
    pub fn resolve(&self, id_or_name: &str) -> (r: Result<
        Option<ManagedWorkspaceId>,
        ManagerError,
    >)
        ensures
            outcome(r) == meant(self.deep_view(), id_or_name@),
    {
        if let Ok(id) = ManagedWorkspaceId::from_key_string(id_or_name) {
            let key = id.to_key_string();
            if find_row(&self.workspaces, key.as_str()).is_some() {
                return Ok(Some(id));
            }
        }
        match find_name(&self.workspaces, id_or_name) {
            Some(key) => match ManagedWorkspaceId::from_key_string(key.as_str()) {
                Ok(id) => Ok(Some(id)),
                Err(error) => Err(error),
            },
            None => Ok(None),
        }
    }

    /// All workspaces, by name; `now` stands for a time that cannot be read. It fails
    /// where a key is no id, with the first such key.
    pub fn all(&self, now: Timestamp) -> (r: Result<Vec<ManagedWorkspace>, ManagerError>)
        ensures
            exists|order: Seq<WorkspaceRowView>| #[trigger]
                lists_workspaces(order, self.deep_view().workspaces) && match r {
                    Ok(list) => {
                        &&& list@.len() == order.len()
                        &&& forall|i: int|
                            0 <= i < order.len() ==> {
                                &&& id_of((#[trigger] order[i]).workspace_id) is Ok
                                &&& list@[i].deep_view() == workspace_of(
                                    order[i],
                                    id_of(order[i].workspace_id)->Ok_0,
                                    now.deep_view(),
                                )
                            }
                    },
                    Err(error) => exists|i: int|
                        {
                            &&& 0 <= i < order.len()
                            &&& id_of((#[trigger] order[i]).workspace_id) == Err::<
                                u128,
                                ManagerErrorView,
                            >(error.deep_view())
                            &&& forall|j: int|
                                0 <= j < i ==> id_of((#[trigger] order[j]).workspace_id) is Ok
                        },
                },
    {
        let ordered = sorted(copy_rows(&self.workspaces));
        let ghost order = ordered.deep_view();
        assert(lists_workspaces(order, self.deep_view().workspaces));
        let mut list: Vec<ManagedWorkspace> = Vec::new();
        let mut i: usize = 0;
        while i < ordered.len()
            invariant
                i <= ordered@.len(),
                order == ordered.deep_view(),
                lists_workspaces(order, self.deep_view().workspaces),
                list@.len() == i,
                forall|j: int|
                    0 <= j < i ==> {
                        &&& id_of((#[trigger] order[j]).workspace_id) is Ok
                        &&& list@[j].deep_view() == workspace_of(
                            order[j],
                            id_of(order[j].workspace_id)->Ok_0,
                            now.deep_view(),
                        )
                    },
            decreases ordered@.len() - i,
        {
            let row: &WorkspaceRow = &ordered[i];
            assert(order[i as int] == row.deep_view());
            match ManagedWorkspaceId::from_key_string(row.workspace_id.as_str()) {
                Ok(id) => {
                    list.push(
                        ManagedWorkspace {
                            workspace_id: id,
                            name: row.name.clone(),
                            created_at: parse_timestamp(row.created_at.as_str(), now),
                            updated_at: parse_timestamp(row.updated_at.as_str(), now),
                        },
                    );
                },
                Err(error) => {
                    return Err(error);
                },
            }
            i = i + 1;
        }
        Ok(list)
    }
}

// ---------------------------------------------------------------------------
// Changing

proof fn lemma_workspace_row(rows: Seq<WorkspaceRowView>, key: Seq<char>)
    ensures
        workspace_row(rows, key) is None <==> forall|i: int|
            0 <= i < rows.len() ==> (#[trigger] rows[i]).workspace_id != key,
    decreases rows.len(),
{
    if rows.len() > 0 && rows[0].workspace_id != key {
        let rest = rows.drop_first();
        lemma_workspace_row(rest, key);
        if workspace_row(rows, key) is None {
            assert forall|i: int| 0 <= i < rows.len() implies (#[trigger] rows[i]).workspace_id
                != key by {
                if i > 0 {
                    assert(rows[i] == rest[i - 1]);
                }
            }
        }
        if forall|i: int| 0 <= i < rows.len() ==> (#[trigger] rows[i]).workspace_id != key {
            assert forall|i: int| 0 <= i < rest.len() implies (#[trigger] rest[i]).workspace_id
                != key by {
                assert(rest[i] == rows[i + 1]);
            }
        }
    }
}

fn find_project(rows: &Vec<ProjectRow>, key: &str, path: &str) -> (r: bool)
    ensures
        r == has_project(rows.deep_view(), key@, path@),
{
    let ghost models = rows.deep_view();
    let mut i: usize = 0;
    while i < rows.len()
        invariant
            i <= rows@.len(),
            models == rows.deep_view(),
            forall|j: int|
                0 <= j < i ==> !((#[trigger] models[j]).workspace_id == key@ && models[j].path
                    == path@),
        decreases rows@.len() - i,
    {
        assert(models[i as int] == rows@[i as int].deep_view());
        if same(rows[i].workspace_id.as_str(), key) && same(rows[i].path.as_str(), path) {
            assert(models[i as int].workspace_id == key@);
            return true;
        }
        i = i + 1;
    }
    false
}

proof fn lemma_created_is_unique(
    rows: Seq<ProjectRowView>,
    key: Seq<char>,
    paths: Seq<Seq<char>>,
)
    requires
        unique_projects(rows),
        paths.no_duplicates(),
        forall|i: int| 0 <= i < paths.len() ==> !has_project(rows, key, #[trigger] paths[i]),
    ensures
        unique_projects(rows + new_projects(key, paths)),
{
    let all = rows + new_projects(key, paths);
    assert forall|i: int, j: int| 0 <= i < j < all.len() implies !((#[trigger] all[i]).workspace_id
        == (#[trigger] all[j]).workspace_id && all[i].path == all[j].path) by {
        if j < rows.len() {
            assert(all[i] == rows[i] && all[j] == rows[j]);
        } else {
            let b = j - rows.len();
            assert(all[j].path == paths[b]);
            if i < rows.len() {
                assert(all[i] == rows[i]);
                assert(!has_project(rows, key, paths[b]));
            } else {
                assert(all[i].path == paths[i - rows.len()]);
            }
        }
    }
}

proof fn lemma_without_is_unique(rows: Seq<ProjectRowView>, key: Seq<char>, path: Seq<char>)
    requires
        unique_projects(rows),
    ensures
        unique_projects(without_project(rows, key, path)),
        forall|i: int|
            0 <= i < without_project(rows, key, path).len() ==> rows.contains(
                #[trigger] without_project(rows, key, path)[i],
            ),
    decreases rows.len(),
{
    if rows.len() > 0 {
        let rest = rows.drop_last();
        lemma_without_is_unique(rest, key, path);
        let some = without_project(rest, key, path);
        let all = without_project(rows, key, path);
        assert forall|i: int| 0 <= i < all.len() implies rows.contains(#[trigger] all[i]) by {
            if i < some.len() {
                assert(all[i] == some[i]);
                let k = choose|k: int| 0 <= k < rest.len() && rest[k] == some[i];
                assert(rows[k] == some[i]);
            } else {
                assert(rows[rows.len() - 1] == all[i]);
            }
        }
        assert forall|i: int, j: int| 0 <= i < j < all.len() implies !((
        #[trigger] all[i]).workspace_id == (#[trigger] all[j]).workspace_id && all[i].path
            == all[j].path) by {
            assert(all[i] == some[i]);
            if j < some.len() {
                assert(all[j] == some[j]);
            } else {
                let k = choose|k: int| 0 <= k < rest.len() && rest[k] == some[i];
                assert(rows[k] == all[i]);
                assert(rows[rows.len() - 1] == all[j]);
            }
        }
    }
}

/// The tables with a project added at the end of a workspace; nothing changes where it
/// is there already.
pub open spec fn with_project(tables: TablesView, id: u128, path: Seq<char>) -> Result<
    TablesView,
    ManagerErrorView,
> {
    if has_project(tables.projects, hyphenated(id), path) {
        Ok(tables)
    } else {
        match next_position(members(tables.projects, id)) {
            Some(position) => Ok(
                TablesView {
                    projects: tables.projects.push(
                        ProjectRowView {
                            workspace_id: hyphenated(id),
                            path,
                            position,
                            remote_connection_id: None,
                        },
                    ),
                    ..tables
                },
            ),
            None => Err(ManagerErrorView::NoRoom),
        }
    }
}

/// The rows with a workspace renamed.
pub open spec fn renamed(
    rows: Seq<WorkspaceRowView>,
    id: u128,
    name: Seq<char>,
    now: (i64, u32),
) -> Seq<WorkspaceRowView> {
    Seq::new(
        rows.len(),
        |i: int|
            if rows[i].workspace_id == hyphenated(id) {
                WorkspaceRowView { name, updated_at: time_text(now), ..rows[i] }
            } else {
                rows[i]
            },
    )
}

fn find_next_position(list: &Vec<ManagedWorkspaceProject>) -> (r: Option<i64>)
    ensures
        r == next_position(list.deep_view()),
{
    let ghost models = list.deep_view();
    assert(models.len() == list@.len());
    if list.len() == 0 {
        return Some(0);
    }
    let mut last: i64 = list[0].position;
    let mut i: usize = 1;
    proof {
        assert(models.take(1)[0] == list@[0].deep_view());
    }
    while i < list.len()
        invariant
            1 <= i <= list@.len(),
            models == list.deep_view(),
            last == last_position(models.take(i as int)),
        decreases list@.len() - i,
    {
        proof {
            let next = models.take(i + 1);
            assert(next.drop_last() =~= models.take(i as int));
            assert(next.last() == list@[i as int].deep_view());
        }
        if last < list[i].position {
            last = list[i].position;
        }
        i = i + 1;
    }
    assert(models.take(models.len() as int) =~= models);
    if last == i64::MAX {
        None
    } else {
        Some(last + 1)
    }
}

impl WorkspaceManager {
    /// The manager of these tables; nothing where a workspace stands twice, or a project
    /// twice in one workspace.
    pub fn new(workspaces: Vec<WorkspaceRow>, projects: Vec<ProjectRow>) -> (r: Option<
        WorkspaceManager,
    >)
        ensures
            match r {
                Some(manager) => {
                    &&& unique_workspaces(workspaces.deep_view())
                    &&& unique_projects(projects.deep_view())
                    &&& manager.deep_view() == (TablesView {
                        workspaces: workspaces.deep_view(),
                        projects: projects.deep_view(),
                    })
                },
                None => !(unique_workspaces(workspaces.deep_view()) && unique_projects(
                    projects.deep_view(),
                )),
            },
    {
        let ghost models = workspaces.deep_view();
        let mut i: usize = 0;
        while i < workspaces.len()
            invariant
                i <= workspaces@.len(),
                models == workspaces.deep_view(),
                forall|a: int, b: int|
                    0 <= a < b < i ==> (#[trigger] models[a]).workspace_id != (
                    #[trigger] models[b]).workspace_id,
            decreases workspaces@.len() - i,
        {
            let mut j: usize = 0;
            while j < i
                invariant
                    j <= i < workspaces@.len(),
                    models == workspaces.deep_view(),
                    forall|a: int|
                        0 <= a < j ==> (#[trigger] models[a]).workspace_id
                            != models[i as int].workspace_id,
                decreases i - j,
            {
                assert(models[i as int] == workspaces@[i as int].deep_view());
                assert(models[j as int] == workspaces@[j as int].deep_view());
                if same(workspaces[i].workspace_id.as_str(), workspaces[j].workspace_id.as_str()) {
                    return None;
                }
                j = j + 1;
            }
            i = i + 1;
        }
        let ghost rows = projects.deep_view();
        let mut k: usize = 0;
        while k < projects.len()
            invariant
                k <= projects@.len(),
                rows == projects.deep_view(),
                forall|a: int, b: int|
                    0 <= a < b < k ==> !((#[trigger] rows[a]).workspace_id == (
                    #[trigger] rows[b]).workspace_id && rows[a].path == rows[b].path),
            decreases projects@.len() - k,
        {
            let mut j: usize = 0;
            while j < k
                invariant
                    j <= k < projects@.len(),
                    rows == projects.deep_view(),
                    forall|a: int|
                        0 <= a < j ==> !((#[trigger] rows[a]).workspace_id
                            == rows[k as int].workspace_id && rows[a].path == rows[k as int].path),
                decreases k - j,
            {
                assert(rows[k as int] == projects@[k as int].deep_view());
                assert(rows[j as int] == projects@[j as int].deep_view());
                if same(projects[k].workspace_id.as_str(), projects[j].workspace_id.as_str())
                    && same(projects[k].path.as_str(), projects[j].path.as_str()) {
                    return None;
                }
                j = j + 1;
            }
            k = k + 1;
        }
        Some(WorkspaceManager { workspaces, projects })
    }

    /// The default name of a workspace of these paths: their last components, with commas
    /// between.
    pub fn derive_name(project_paths: &Vec<String>) -> (r: String)
        ensures
            exists|names: Seq<Option<Seq<char>>>| #[trigger]
                are_names(names, project_paths.deep_view()) && r@ == joined(present(names), ", "@),
    {
        default_name(project_paths)
    }

    /// The rows of the tables.
    pub fn rows(&self) -> (r: (&Vec<WorkspaceRow>, &Vec<ProjectRow>))
        ensures
            r.0.deep_view() == self.deep_view().workspaces,
            r.1.deep_view() == self.deep_view().projects,
    {
        (&self.workspaces, &self.projects)
    }

    /// Creates a workspace of the given id. Nothing changes where a workspace or a
    /// project would stand twice.
    pub fn create_with_id(
        &mut self,
        workspace_id: ManagedWorkspaceId,
        name: &str,
        project_paths: &Vec<String>,
        now: Timestamp,
    ) -> (r: Result<(), ManagerError>)
        requires
            project_paths@.len() <= i64::MAX,
        ensures
            if can_create(
                old(self).deep_view(),
                workspace_id.deep_view(),
                project_paths.deep_view(),
            ) {
                &&& r is Ok
                &&& final(self).deep_view() == created(
                    old(self).deep_view(),
                    workspace_id.deep_view(),
                    name@,
                    project_paths.deep_view(),
                    now.deep_view(),
                )
            } else {
                &&& outcome(r) == Err::<(), ManagerErrorView>(ManagerErrorView::Conflict)
                &&& final(self).deep_view() == old(self).deep_view()
            },
    {
        proof {
            use_type_invariant(&*self);
            lemma_workspace_row(
                self.workspaces.deep_view(),
                hyphenated(workspace_id.deep_view()),
            );
        }
        let key = workspace_id.to_key_string();
        let ghost paths = project_paths.deep_view();
        if find_row(&self.workspaces, key.as_str()).is_some() || !all_different(project_paths) {
            return Err(ManagerError::Conflict);
        }
        let ghost before = self.projects.deep_view();
        let mut i: usize = 0;
        while i < project_paths.len()
            invariant
                i <= project_paths@.len(),
                paths == project_paths.deep_view(),
                before == self.projects.deep_view(),
                *self == *old(self),
                key@ == hyphenated(workspace_id.deep_view()),
                forall|j: int| 0 <= j < i ==> !has_project(before, key@, #[trigger] paths[j]),
            decreases project_paths@.len() - i,
        {
            assert(paths[i as int] == project_paths@[i as int]@);
            if find_project(&self.projects, key.as_str(), project_paths[i].as_str()) {
                assert(has_project(before, key@, paths[i as int]));
                return Err(ManagerError::Conflict);
            }
            i = i + 1;
        }
        let ghost rows_before = self.workspaces.deep_view();
        proof {
            lemma_created_is_unique(before, key@, paths);
        }
        let text = now.to_text();
        let row = WorkspaceRow {
            workspace_id: key.clone(),
            name: name.to_owned(),
            created_at: text.clone(),
            updated_at: text,
        };
        let mut workspaces: Vec<WorkspaceRow> = Vec::new();
        let mut projects: Vec<ProjectRow> = Vec::new();
        assert(workspaces.deep_view() =~= Seq::empty());
        assert(projects.deep_view() =~= Seq::empty());
        std::mem::swap(&mut workspaces, &mut self.workspaces);
        std::mem::swap(&mut projects, &mut self.projects);
        workspaces.push(row);
        assert(workspaces.deep_view() =~= rows_before.push(row.deep_view()));
        let ghost wanted = new_projects(key@, paths);
        let mut k: usize = 0;
        assert(projects.deep_view() =~= before + wanted.take(0));
        while k < project_paths.len()
            invariant
                k <= project_paths@.len(),
                project_paths@.len() <= i64::MAX,
                paths == project_paths.deep_view(),
                wanted == new_projects(key@, paths),
                projects.deep_view() == before + wanted.take(k as int),
            decreases project_paths@.len() - k,
        {
            let ghost done = projects.deep_view();
            let project = ProjectRow {
                workspace_id: key.clone(),
                path: project_paths[k].clone(),
                position: k as i64,
                remote_connection_id: None,
            };
            projects.push(project);
            proof {
                assert(projects.deep_view() =~= done.push(project.deep_view()));
                assert(paths[k as int] == project_paths@[k as int]@);
                assert(project.deep_view() == wanted[k as int]);
                assert(projects.deep_view() =~= before + wanted.take(k + 1));
            }
            k = k + 1;
        }
        proof {
            assert(wanted.take(wanted.len() as int) =~= wanted);
        }
        self.projects = projects;
        self.workspaces = workspaces;
        Ok(())
    }

    /// Creates a workspace under a new random id.
    pub fn create(&mut self, name: &str, project_paths: &Vec<String>, now: Timestamp) -> (r: Result<
        ManagedWorkspaceId,
        ManagerError,
    >)
        requires
            project_paths@.len() <= i64::MAX,
        ensures
            match r {
                Ok(id) => {
                    &&& is_random_id(id.deep_view())
                    &&& can_create(
                        old(self).deep_view(),
                        id.deep_view(),
                        project_paths.deep_view(),
                    )
                    &&& final(self).deep_view() == created(
                        old(self).deep_view(),
                        id.deep_view(),
                        name@,
                        project_paths.deep_view(),
                        now.deep_view(),
                    )
                },
                Err(error) => {
                    &&& error.deep_view() == ManagerErrorView::Conflict
                    &&& final(self).deep_view() == old(self).deep_view()
                    &&& exists|id: u128| #[trigger]
                        is_random_id(id) && !can_create(
                            old(self).deep_view(),
                            id,
                            project_paths.deep_view(),
                        )
                },
            },
    {
        let workspace_id = ManagedWorkspaceId::new();
        match self.create_with_id(workspace_id, name, project_paths, now) {
            Ok(_) => Ok(workspace_id),
            Err(error) => Err(error),
        }
    }

    /// Renames a workspace. Its id stays, and so do its projects.
    pub fn rename(&mut self, workspace_id: ManagedWorkspaceId, name: &str, now: Timestamp)
        ensures
            final(self).deep_view() == (TablesView {
                workspaces: renamed(
                    old(self).deep_view().workspaces,
                    workspace_id.deep_view(),
                    name@,
                    now.deep_view(),
                ),
                ..old(self).deep_view()
            }),
    {
        proof {
            use_type_invariant(&*self);
        }
        let key = workspace_id.to_key_string();
        let text = now.to_text();
        let ghost models = self.workspaces.deep_view();
        let ghost wanted = renamed(models, workspace_id.deep_view(), name@, now.deep_view());
        let mut rows: Vec<WorkspaceRow> = Vec::new();
        assert(rows.deep_view() =~= Seq::empty());
        std::mem::swap(&mut rows, &mut self.workspaces);
        let mut i: usize = 0;
        while i < rows.len()
            invariant
                i <= rows@.len(),
                rows@.len() == models.len(),
                key@ == hyphenated(workspace_id.deep_view()),
                text@ == time_text(now.deep_view()),
                wanted == renamed(models, workspace_id.deep_view(), name@, now.deep_view()),
                forall|j: int|
                    0 <= j < rows@.len() ==> (#[trigger] rows@[j]).deep_view() == if j < i {
                        wanted[j]
                    } else {
                        models[j]
                    },
            decreases rows@.len() - i,
        {
            let ghost before = rows@;
            assert(before[i as int].deep_view() == models[i as int]);
            if same(rows[i].workspace_id.as_str(), key.as_str()) {
                let new_name = name.to_owned();
                let new_time = text.clone();
                let row: &mut WorkspaceRow = &mut rows[i];
                row.name = new_name;
                row.updated_at = new_time;
            }
            assert forall|j: int| 0 <= j < rows@.len() implies (#[trigger] rows@[j]).deep_view()
                == if j < i + 1 {
                wanted[j]
            } else {
                models[j]
            } by {
                if j != i {
                    assert(rows@[j] == before[j]);
                    assert(before[j].deep_view() == if j < i {
                        wanted[j]
                    } else {
                        models[j]
                    });
                }
            }
            i = i + 1;
        }
        proof {
            assert(rows.deep_view() =~= wanted);
            assert forall|a: int, b: int| 0 <= a < b < wanted.len() implies (
            #[trigger] wanted[a]).workspace_id != (#[trigger] wanted[b]).workspace_id by {
                assert(models[a].workspace_id != models[b].workspace_id);
            }
        }
        self.workspaces = rows;
    }

    /// Adds a project at the end of a workspace. The id stays. Nothing changes where the
    /// project is there already.
    pub fn add_project(&mut self, workspace_id: ManagedWorkspaceId, path: &str) -> (r: Result<
        (),
        ManagerError,
    >)
        ensures
            match with_project(old(self).deep_view(), workspace_id.deep_view(), path@) {
                Ok(tables) => r is Ok && final(self).deep_view() == tables,
                Err(error) => {
                    &&& outcome(r) == Err::<(), ManagerErrorView>(error)
                    &&& final(self).deep_view() == old(self).deep_view()
                },
            },
    {
        proof {
            use_type_invariant(&*self);
        }
        let key = workspace_id.to_key_string();
        if find_project(&self.projects, key.as_str(), path) {
            return Ok(());
        }
        let list = find_members(&self.projects, workspace_id);
        let position = match find_next_position(&list) {
            Some(position) => position,
            None => {
                return Err(ManagerError::NoRoom);
            },
        };
        let ghost models = self.projects.deep_view();
        let mut rows: Vec<ProjectRow> = Vec::new();
        assert(rows.deep_view() =~= Seq::empty());
        std::mem::swap(&mut rows, &mut self.projects);
        let row = ProjectRow {
            workspace_id: key,
            path: path.to_owned(),
            position,
            remote_connection_id: None,
        };
        rows.push(row);
        proof {
            let after = models.push(row.deep_view());
            assert(rows.deep_view() =~= after);
            assert forall|i: int, j: int| 0 <= i < j < after.len() implies !((
            #[trigger] after[i]).workspace_id == (#[trigger] after[j]).workspace_id && after[i].path
                == after[j].path) by {
                assert(after[i] == models[i]);
                if j < models.len() {
                    assert(after[j] == models[j]);
                }
            }
        }
        self.projects = rows;
        Ok(())
    }

    /// Takes a project out of a workspace. The id stays.
    pub fn remove_project(&mut self, workspace_id: ManagedWorkspaceId, path: &str)
        ensures
            final(self).deep_view() == (TablesView {
                projects: without_project(
                    old(self).deep_view().projects,
                    hyphenated(workspace_id.deep_view()),
                    path@,
                ),
                ..old(self).deep_view()
            }),
    {
        proof {
            use_type_invariant(&*self);
        }
        let key = workspace_id.to_key_string();
        let ghost models = self.projects.deep_view();
        let mut rows: Vec<ProjectRow> = Vec::new();
        assert(rows.deep_view() =~= Seq::empty());
        std::mem::swap(&mut rows, &mut self.projects);
        let mut kept: Vec<ProjectRow> = Vec::new();
        let mut i: usize = 0;
        proof {
            assert(models.take(0) =~= Seq::empty());
            assert(kept.deep_view() =~= Seq::empty());
        }
        while i < rows.len()
            invariant
                i <= rows@.len(),
                models == rows.deep_view(),
                key@ == hyphenated(workspace_id.deep_view()),
                kept.deep_view() == without_project(models.take(i as int), key@, path@),
            decreases rows@.len() - i,
        {
            let ghost done = kept.deep_view();
            let row: &ProjectRow = &rows[i];
            proof {
                let next = models.take(i + 1);
                assert(next.drop_last() =~= models.take(i as int));
                assert(next.last() == row.deep_view());
            }
            if !(same(row.workspace_id.as_str(), key.as_str()) && same(row.path.as_str(), path)) {
                let copy = ProjectRow {
                    workspace_id: row.workspace_id.clone(),
                    path: row.path.clone(),
                    position: row.position,
                    remote_connection_id: row.remote_connection_id,
                };
                kept.push(copy);
                assert(kept.deep_view() =~= done.push(copy.deep_view()));
            }
            i = i + 1;
        }
        proof {
            assert(models.take(models.len() as int) =~= models);
            lemma_without_is_unique(models, key@, path@);
        }
        self.projects = kept;
    }
}

// ---------------------------------------------------------------------------
// What holds of workspaces

proof fn lemma_members_of_new(
    rows: Seq<ProjectRowView>,
    id: u128,
    paths: Seq<Seq<char>>,
    n: int,
)
    requires
        0 <= n <= paths.len(),
    ensures
        members(rows + new_projects(hyphenated(id), paths).take(n), id) == members(rows, id)
            + Seq::new(
            n as nat,
            |i: int|
                ProjectView {
                    workspace_id: id,
                    path: paths[i],
                    position: i as i64,
                    remote_connection_id: None,
                },
        ),
        paths_of(rows + new_projects(hyphenated(id), paths).take(n), hyphenated(id)) == paths_of(
            rows,
            hyphenated(id),
        ) + paths.take(n),
    decreases n,
{
    let new = new_projects(hyphenated(id), paths);
    if n == 0 {
        assert(rows + new.take(0) =~= rows);
        assert(members(rows, id) + Seq::<ProjectView>::empty() =~= members(rows, id));
        assert(Seq::new(
            0,
            |i: int|
                ProjectView {
                    workspace_id: id,
                    path: paths[i],
                    position: i as i64,
                    remote_connection_id: None,
                },
        ) =~= Seq::<ProjectView>::empty());
        assert(paths_of(rows, hyphenated(id)) + paths.take(0) =~= paths_of(rows, hyphenated(id)));
    } else {
        lemma_members_of_new(rows, id, paths, n - 1);
        let all = rows + new.take(n);
        assert(all.drop_last() =~= rows + new.take(n - 1));
        assert(all.last() == new[n - 1]);
        let views = |i: int|
            ProjectView {
                workspace_id: id,
                path: paths[i],
                position: i as i64,
                remote_connection_id: None,
            };
        assert(members(rows, id) + Seq::new(n as nat, views) =~= (members(rows, id) + Seq::new(
            (n - 1) as nat,
            views,
        )).push(views(n - 1)));
        assert(paths_of(rows, hyphenated(id)) + paths.take(n) =~= (paths_of(rows, hyphenated(id))
            + paths.take(n - 1)).push(paths[n - 1]));
    }
}

/// A workspace that was created under an id that nothing refers to holds its projects in
/// the order in which they were given.
pub proof fn law_created_workspace_holds_its_projects(
    tables: TablesView,
    id: u128,
    name: Seq<char>,
    paths: Seq<Seq<char>>,
    now: (i64, u32),
    list: Seq<ProjectView>,
)
    requires
        members(tables.projects, id).len() == 0,
        paths.len() <= i64::MAX,
        lists_projects(list, created(tables, id, name, paths, now).projects, id),
    ensures
        list.len() == paths.len(),
        forall|i: int|
            0 <= i < paths.len() ==> (#[trigger] list[i]).path == paths[i] && list[i].position == i,
{
    let rows = tables.projects;
    let new = new_projects(hyphenated(id), paths);
    lemma_members_of_new(rows, id, paths, paths.len() as int);
    assert(new.take(paths.len() as int) =~= new);
    let found = members(rows + new, id);
    assert(members(rows, id) =~= Seq::empty());
    assert(found =~= Seq::new(
        paths.len(),
        |i: int|
            ProjectView {
                workspace_id: id,
                path: paths[i],
                position: i as i64,
                remote_connection_id: None,
            },
    ));
    assert forall|i: int, j: int| 0 <= i < j < found.len() implies !<ManagedWorkspaceProject as Ranked>::ranks_before(#[trigger] found[j], #[trigger] found[i]) by {}
    assert forall|i: int, j: int|
        0 <= i < found.len() && 0 <= j < found.len() && #[trigger] found[i]
            != #[trigger] found[j] implies <ManagedWorkspaceProject as Ranked>::ranks_before(
        found[i],
        found[j],
    ) || <ManagedWorkspaceProject as Ranked>::ranks_before(found[j], found[i]) by {
        assert(i != j);
    }
    lemma_one_order::<ManagedWorkspaceProject>(found, list);
}

proof fn lemma_last_position(list: Seq<ProjectView>, i: int)
    requires
        0 <= i < list.len(),
    ensures
        list[i].position <= last_position(list),
    decreases list.len(),
{
    if list.len() > 1 && i < list.len() - 1 {
        lemma_last_position(list.drop_last(), i);
    }
}

/// A project that is added comes last.
pub proof fn law_added_project_comes_last(
    tables: TablesView,
    id: u128,
    path: Seq<char>,
    list: Seq<ProjectView>,
)
    requires
        !has_project(tables.projects, hyphenated(id), path),
        with_project(tables, id, path) matches Ok(after) && lists_projects(
            list,
            after.projects,
            id,
        ),
    ensures
        list.len() == members(tables.projects, id).len() + 1,
        list.last().path == path,
{
    broadcast use vstd::seq_lib::group_to_multiset_ensures;

    let after = with_project(tables, id, path)->Ok_0.projects;
    let old_list = members(tables.projects, id);
    let new_list = members(after, id);
    assert(after.drop_last() =~= tables.projects);
    let new = new_list.last();
    assert(new_list =~= old_list.push(new));
    assert(list.len() == list.to_multiset().len());
    assert(new_list.len() == new_list.to_multiset().len());
    assert(new_list.contains(new_list[new_list.len() - 1]));
    assert(new_list.to_multiset().count(new) > 0);
    assert(list.to_multiset().count(new) > 0);
    assert(list.contains(new));
    let k = choose|k: int| 0 <= k < list.len() && list[k] == new;
    let last = list.last();
    assert(list.contains(list[list.len() - 1]));
    assert(list.to_multiset().count(last) > 0);
    assert(new_list.to_multiset().count(last) > 0);
    assert(new_list.contains(last));
    let m = choose|m: int| 0 <= m < new_list.len() && new_list[m] == last;
    if m < old_list.len() {
        lemma_last_position(old_list, m);
        assert(last.position < new.position);
        assert(!<ManagedWorkspaceProject as Ranked>::ranks_before(list[list.len() - 1], list[k]));
    }
}

/// A project that was removed is gone, and every other project stays.
pub proof fn law_removed_project_is_gone(
    rows: Seq<ProjectRowView>,
    key: Seq<char>,
    path: Seq<char>,
    other_key: Seq<char>,
    other_path: Seq<char>,
)
    ensures
        has_project(without_project(rows, key, path), other_key, other_path) == (has_project(
            rows,
            other_key,
            other_path,
        ) && !(other_key == key && other_path == path)),
    decreases rows.len(),
{
    if rows.len() > 0 {
        let rest = rows.drop_last();
        law_removed_project_is_gone(rest, key, path, other_key, other_path);
        let some = without_project(rest, key, path);
        let all = without_project(rows, key, path);
        let last = rows.last();
        assert(rows[rows.len() - 1] == last);
        if has_project(rest, other_key, other_path) {
            let i = choose|i: int|
                0 <= i < rest.len() && (#[trigger] rest[i]).workspace_id == other_key
                    && rest[i].path == other_path;
            assert(rows[i] == rest[i]);
        }
        if has_project(some, other_key, other_path) {
            let i = choose|i: int|
                0 <= i < some.len() && (#[trigger] some[i]).workspace_id == other_key
                    && some[i].path == other_path;
            assert(all[i] == some[i]);
        }
        if has_project(rows, other_key, other_path) {
            let i = choose|i: int|
                0 <= i < rows.len() && (#[trigger] rows[i]).workspace_id == other_key
                    && rows[i].path == other_path;
            if i < rest.len() {
                assert(rest[i] == rows[i]);
            } else if !(other_key == key && other_path == path) {
                assert(all[all.len() - 1] == last);
            }
        }
        if has_project(all, other_key, other_path) {
            let i = choose|i: int|
                0 <= i < all.len() && (#[trigger] all[i]).workspace_id == other_key
                    && all[i].path == other_path;
            if i < some.len() {
                assert(some[i] == all[i]);
            } else {
                assert(all[i] == last);
                assert(has_project(rows, other_key, other_path));
            }
        }
    }
}

proof fn lemma_exact_holder(
    rows: Seq<ProjectRowView>,
    some: Seq<ProjectRowView>,
    paths: Seq<Seq<char>>,
    i: int,
)
    requires
        0 <= i < some.len(),
        holds_exactly(rows, some[i].workspace_id, paths),
    ensures
        exact_holder(rows, some, paths) matches Some(key) && holds_exactly(rows, key, paths),
    decreases some.len(),
{
    if !holds_exactly(rows, some[0].workspace_id, paths) {
        assert(some.drop_first()[i - 1] == some[i]);
        lemma_exact_holder(rows, some.drop_first(), paths, i - 1);
    }
}

/// A workspace that was created for some folders, under an id that nothing refers to, is
/// found by them: there is a workspace that holds exactly these.
pub proof fn law_created_workspace_is_found(
    tables: TablesView,
    id: u128,
    name: Seq<char>,
    paths: Seq<Seq<char>>,
    now: (i64, u32),
)
    requires
        paths_of(tables.projects, hyphenated(id)).len() == 0,
        paths.len() > 0,
    ensures
        ({
            let after = created(tables, id, name, paths, now).projects;
            exact_holder(after, after, paths) matches Some(key) && holds_exactly(after, key, paths)
        }),
{
    let rows = tables.projects;
    let new = new_projects(hyphenated(id), paths);
    let after = rows + new;
    lemma_members_of_new(rows, id, paths, paths.len() as int);
    assert(new.take(paths.len() as int) =~= new);
    assert(paths_of(after, hyphenated(id)) =~= paths);
    assert(after[rows.len() as int].workspace_id == hyphenated(id));
    lemma_exact_holder(after, after, paths, rows.len() as int);
}

/// Whether a key is the hyphenated form of the id that it gives.
pub open spec fn is_key(key: Seq<char>) -> bool {
    id_of(key) matches Ok(id) && key == hyphenated(id)
}

proof fn lemma_holders(rows: Seq<ProjectRowView>, path: Seq<char>, key: Seq<char>)
    ensures
        holders(rows, path).contains(key) <==> has_project(rows, key, path),
    decreases rows.len(),
{
    if rows.len() > 0 {
        let rest = rows.drop_last();
        let last = rows.last();
        lemma_holders(rest, path, key);
        assert(rows[rows.len() - 1] == last);
        if has_project(rest, key, path) {
            let i = choose|i: int|
                0 <= i < rest.len() && (#[trigger] rest[i]).workspace_id == key && rest[i].path
                    == path;
            assert(rows[i] == rest[i]);
        }
        if has_project(rows, key, path) {
            let i = choose|i: int|
                0 <= i < rows.len() && (#[trigger] rows[i]).workspace_id == key && rows[i].path
                    == path;
            if i < rest.len() {
                assert(rest[i] == rows[i]);
            }
        }
        let some = holders(rest, path);
        if last.path == path {
            let all = some.push(last.workspace_id);
            assert(all[all.len() - 1] == last.workspace_id);
            if some.contains(key) {
                let i = choose|i: int| 0 <= i < some.len() && some[i] == key;
                assert(all[i] == key);
            }
            if all.contains(key) {
                let i = choose|i: int| 0 <= i < all.len() && all[i] == key;
                if i < some.len() {
                    assert(some[i] == key);
                }
            }
        }
    }
}

proof fn lemma_ids_of_keys(keys: Seq<Seq<char>>)
    requires
        forall|i: int| 0 <= i < keys.len() ==> is_key(#[trigger] keys[i]),
    ensures
        ids_of(keys) matches Ok(ids) && ids.len() == keys.len() && forall|i: int|
            0 <= i < keys.len() ==> #[trigger] keys[i] == hyphenated(ids[i]),
    decreases keys.len(),
{
    if keys.len() > 0 {
        let rest = keys.drop_last();
        assert forall|i: int| 0 <= i < rest.len() implies is_key(#[trigger] rest[i]) by {
            assert(rest[i] == keys[i]);
        }
        lemma_ids_of_keys(rest);
        let last = keys[keys.len() - 1];
        assert(is_key(last));
        let ids = ids_of(keys)->Ok_0;
        assert forall|i: int| 0 <= i < keys.len() implies #[trigger] keys[i] == hyphenated(
            ids[i],
        ) by {
            if i < rest.len() {
                assert(rest[i] == keys[i]);
            }
        }
    }
}

proof fn lemma_candidates(tables: TablesView, ids: Seq<u128>, id: u128)
    ensures
        ({
            let found = candidates(tables, ids);
            let count = members(tables.projects, id).len();
            let row = workspace_row(tables.workspaces, hyphenated(id));
            &&& (exists|i: int| 0 <= i < found.len() && (#[trigger] found[i]).0 == id)
                <==> ids.contains(id) && row is Some && count > 1
            &&& forall|i: int|
                0 <= i < found.len() && (#[trigger] found[i]).0 == id ==> found[i] == (
                    id,
                    row->0.name,
                    count,
                )
        }),
    decreases ids.len(),
{
    if ids.len() > 0 {
        let fewer = ids.drop_last();
        let last = ids.last();
        lemma_candidates(tables, fewer, id);
        let some = candidates(tables, fewer);
        let found = candidates(tables, ids);
        assert(ids[ids.len() - 1] == last);
        if fewer.contains(id) {
            let i = choose|i: int| 0 <= i < fewer.len() && fewer[i] == id;
            assert(ids[i] == id);
        }
        if ids.contains(id) {
            let i = choose|i: int| 0 <= i < ids.len() && ids[i] == id;
            if i < fewer.len() {
                assert(fewer[i] == id);
            }
        }
        if exists|i: int| 0 <= i < some.len() && (#[trigger] some[i]).0 == id {
            let i = choose|i: int| 0 <= i < some.len() && (#[trigger] some[i]).0 == id;
            assert(found[i] == some[i]);
        }
        if exists|i: int| 0 <= i < found.len() && (#[trigger] found[i]).0 == id {
            let i = choose|i: int| 0 <= i < found.len() && (#[trigger] found[i]).0 == id;
            if i < some.len() {
                assert(some[i] == found[i]);
            }
        }
        if last == id && found.len() > some.len() {
            assert(found[found.len() - 1].0 == id);
        }
        assert forall|i: int| 0 <= i < found.len() && (#[trigger] found[i]).0 == id implies found[i]
            == (
            id,
            workspace_row(tables.workspaces, hyphenated(id))->0.name,
            members(tables.projects, id).len(),
        ) by {
            if i < some.len() {
                assert(some[i] == found[i]);
            }
        }
    }
}

proof fn lemma_member_paths(rows: Seq<ProjectRowView>, id: u128, path: Seq<char>)
    ensures
        (exists|k: int|
            0 <= k < members(rows, id).len() && (#[trigger] members(rows, id)[k]).path == path)
            <==> has_project(rows, hyphenated(id), path),
    decreases rows.len(),
{
    if rows.len() > 0 {
        let rest = rows.drop_last();
        let last = rows.last();
        let some = members(rest, id);
        let all = members(rows, id);
        lemma_member_paths(rest, id, path);
        assert(rows[rows.len() - 1] == last);
        if has_project(rest, hyphenated(id), path) {
            let i = choose|i: int|
                0 <= i < rest.len() && (#[trigger] rest[i]).workspace_id == hyphenated(id)
                    && rest[i].path == path;
            assert(rows[i] == rest[i]);
            let k = choose|k: int| 0 <= k < some.len() && (#[trigger] some[k]).path == path;
            assert(all[k] == some[k]);
        }
        if has_project(rows, hyphenated(id), path) {
            let i = choose|i: int|
                0 <= i < rows.len() && (#[trigger] rows[i]).workspace_id == hyphenated(id)
                    && rows[i].path == path;
            if i < rest.len() {
                assert(rest[i] == rows[i]);
            } else {
                assert(all[all.len() - 1].path == path);
            }
        }
        if exists|k: int| 0 <= k < all.len() && (#[trigger] all[k]).path == path {
            let k = choose|k: int| 0 <= k < all.len() && (#[trigger] all[k]).path == path;
            if k < some.len() {
                assert(some[k] == all[k]);
            }
        }
    }
}

/// A workspace is offered for a folder exactly when it is there, holds the folder and has
/// more than one project; it is offered under its name, with the number of its projects.
/// The keys under which the folder stands are hyphenated ids.
pub proof fn law_offered_when_it_holds_the_folder_and_more(
    tables: TablesView,
    path: Seq<char>,
    id: u128,
    list: Seq<ProjectView>,
)
    requires
        forall|i: int|
            0 <= i < tables.projects.len() && (#[trigger] tables.projects[i]).path == path
                ==> is_key(tables.projects[i].workspace_id),
        lists_projects(list, tables.projects, id),
    ensures
        ids_of(holders(tables.projects, path)) is Ok,
        ({
            let found = candidates(tables, ids_of(holders(tables.projects, path))->Ok_0);
            let row = workspace_row(tables.workspaces, hyphenated(id));
            &&& (exists|i: int| 0 <= i < found.len() && (#[trigger] found[i]).0 == id) <==> row
                is Some && (exists|k: int|
                0 <= k < list.len() && (#[trigger] list[k]).path == path) && list.len() > 1
            &&& forall|i: int|
                0 <= i < found.len() && (#[trigger] found[i]).0 == id ==> found[i] == (
                    id,
                    row->0.name,
                    list.len(),
                )
        }),
{
    broadcast use vstd::seq_lib::group_to_multiset_ensures;

    let rows = tables.projects;
    let keys = holders(rows, path);
    let own = members(rows, id);
    let key = hyphenated(id);
    assert forall|i: int| 0 <= i < keys.len() implies is_key(#[trigger] keys[i]) by {
        lemma_holders(rows, path, keys[i]);
        assert(keys.contains(keys[i]));
        let j = choose|j: int|
            0 <= j < rows.len() && (#[trigger] rows[j]).workspace_id == keys[i] && rows[j].path
                == path;
        assert(is_key(rows[j].workspace_id));
    }
    lemma_ids_of_keys(keys);
    let ids = ids_of(keys)->Ok_0;
    lemma_candidates(tables, ids, id);
    lemma_member_paths(rows, id, path);
    lemma_holders(rows, path, key);
    assert(list.len() == list.to_multiset().len());
    assert(own.len() == own.to_multiset().len());
    if ids.contains(id) {
        let i = choose|i: int| 0 <= i < ids.len() && ids[i] == id;
        assert(keys[i] == key);
    }
    if keys.contains(key) {
        let i = choose|i: int| 0 <= i < keys.len() && keys[i] == key;
        law_ids_have_their_own_text(ids[i], id);
    }
    if exists|k: int| 0 <= k < own.len() && (#[trigger] own[k]).path == path {
        let k = choose|k: int| 0 <= k < own.len() && (#[trigger] own[k]).path == path;
        lemma_same_items(own, list, k);
    }
    if exists|k: int| 0 <= k < list.len() && (#[trigger] list[k]).path == path {
        let k = choose|k: int| 0 <= k < list.len() && (#[trigger] list[k]).path == path;
        lemma_same_items(list, own, k);
    }
}

proof fn lemma_same_items(a: Seq<ProjectView>, b: Seq<ProjectView>, k: int)
    requires
        a.to_multiset() == b.to_multiset(),
        0 <= k < a.len(),
    ensures
        exists|m: int| 0 <= m < b.len() && #[trigger] b[m] == a[k],
{
    broadcast use vstd::seq_lib::group_to_multiset_ensures;

    assert(a.contains(a[k]));
    assert(a.to_multiset().count(a[k]) > 0);
    assert(b.to_multiset().count(a[k]) > 0);
    assert(b.contains(a[k]));
}

// ---------------------------------------------------------------------------
// What the tables say

/// A workspace has the name of its row, and was created and updated when its row says, or now
/// where the row does not say it.
pub proof fn law_workspace_is_what_its_row_says(
    row: WorkspaceRowView,
    id: u128,
    now: (i64, u32),
)
    ensures
        ({
            let workspace = workspace_of(row, id, now);
            &&& workspace.workspace_id == id
            &&& workspace.name == row.name
            &&& parsed_time(row.created_at) matches Ok(time) ==> workspace.created_at == time
            &&& parsed_time(row.created_at) is Err ==> workspace.created_at == now
            &&& parsed_time(row.updated_at) matches Ok(time) ==> workspace.updated_at == time
            &&& parsed_time(row.updated_at) is Err ==> workspace.updated_at == now
        }),
{
}

/// A workspace that is created gets one row, under its id and name, created and updated now,
/// and one project for each path; nothing else changes.
pub proof fn law_creation_adds_one_workspace(
    tables: TablesView,
    id: u128,
    name: Seq<char>,
    paths: Seq<Seq<char>>,
    now: (i64, u32),
    i: int,
)
    ensures
        ({
            let after = created(tables, id, name, paths, now);
            let row = after.workspaces.last();
            &&& after.workspaces.len() == tables.workspaces.len() + 1
            &&& after.workspaces.drop_last() == tables.workspaces
            &&& row.workspace_id == hyphenated(id)
            &&& row.name == name
            &&& row.created_at == time_text(now)
            &&& row.updated_at == time_text(now)
            &&& after.projects.len() == tables.projects.len() + paths.len()
            &&& after.projects.take(tables.projects.len() as int) == tables.projects
            &&& 0 <= i < paths.len() ==> {
                let project = after.projects[tables.projects.len() + i];
                &&& project.workspace_id == hyphenated(id)
                &&& project.path == paths[i]
                &&& i <= i64::MAX ==> project.position == i
                &&& project.remote_connection_id is None
            }
        }),
{
    let after = created(tables, id, name, paths, now);
    assert(after.workspaces.drop_last() =~= tables.workspaces);
    assert(after.projects.take(tables.projects.len() as int) =~= tables.projects);
}

/// A workspace that is renamed has the new name and was updated now; when it was created stays,
/// and so does every other workspace.
pub proof fn law_renaming_changes_one_name(
    rows: Seq<WorkspaceRowView>,
    id: u128,
    name: Seq<char>,
    now: (i64, u32),
    i: int,
)
    requires
        0 <= i < rows.len(),
    ensures
        renamed(rows, id, name, now).len() == rows.len(),
        rows[i].workspace_id != hyphenated(id) ==> renamed(rows, id, name, now)[i] == rows[i],
        rows[i].workspace_id == hyphenated(id) ==> {
            let row = renamed(rows, id, name, now)[i];
            &&& row.workspace_id == rows[i].workspace_id
            &&& row.name == name
            &&& row.updated_at == time_text(now)
            &&& row.created_at == rows[i].created_at
        },
{
}

/// The row that is found for a key has that key, and where none is found no row has it.
pub proof fn law_row_is_found_by_key(rows: Seq<WorkspaceRowView>, key: Seq<char>)
    ensures
        match workspace_row(rows, key) {
            Some(row) => row.workspace_id == key && rows.contains(row),
            None => forall|i: int| 0 <= i < rows.len() ==> (#[trigger] rows[i]).workspace_id != key,
        },
    decreases rows.len(),
{
    if rows.len() > 0 {
        let rest = rows.drop_first();
        law_row_is_found_by_key(rest, key);
        if rows[0].workspace_id != key {
            match workspace_row(rest, key) {
                Some(row) => {
                    let i = choose|i: int| 0 <= i < rest.len() && rest[i] == row;
                    assert(rows[i + 1] == row);
                },
                None => {
                    assert forall|i: int| 0 <= i < rows.len() implies (
                    #[trigger] rows[i]).workspace_id != key by {
                        if i > 0 {
                            assert(rest[i - 1] == rows[i]);
                        }
                    }
                },
            }
        } else {
            assert(rows.contains(rows[0]));
        }
    }
}

/// The key that is found for a name is that of a row with that name, and where none is found
/// no row has it.
pub proof fn law_key_is_found_by_name(rows: Seq<WorkspaceRowView>, name: Seq<char>)
    ensures
        match key_of_name(rows, name) {
            Some(key) => exists|i: int|
                0 <= i < rows.len() && (#[trigger] rows[i]).name == name && rows[i].workspace_id
                    == key && forall|j: int| 0 <= j < i ==> (#[trigger] rows[j]).name != name,
            None => forall|i: int| 0 <= i < rows.len() ==> (#[trigger] rows[i]).name != name,
        },
    decreases rows.len(),
{
    if rows.len() > 0 {
        let rest = rows.drop_first();
        law_key_is_found_by_name(rest, name);
        if rows[0].name != name {
            match key_of_name(rest, name) {
                Some(key) => {
                    let i = choose|i: int|
                        0 <= i < rest.len() && (#[trigger] rest[i]).name == name
                            && rest[i].workspace_id == key && forall|j: int|
                            0 <= j < i ==> (#[trigger] rest[j]).name != name;
                    assert(rows[i + 1] == rest[i]);
                    assert forall|j: int| 0 <= j < i + 1 implies (#[trigger] rows[j]).name
                        != name by {
                        if j > 0 {
                            assert(rest[j - 1] == rows[j]);
                        }
                    }
                },
                None => {
                    assert forall|i: int| 0 <= i < rows.len() implies (#[trigger] rows[i]).name
                        != name by {
                        if i > 0 {
                            assert(rest[i - 1] == rows[i]);
                        }
                    }
                },
            }
        }
    }
}

/// A text means the workspace of that id where there is one, and else the one of that name,
/// and otherwise none.
pub proof fn law_id_counts_before_name(tables: TablesView, text: Seq<char>, id: u128)
    ensures
        parsed_id(text) == Ok::<u128, Seq<char>>(id) && workspace_row(
            tables.workspaces,
            hyphenated(id),
        ) is Some ==> meant(tables, text) == Ok::<Option<u128>, ManagerErrorView>(Some(id)),
        parsed_id(text) is Err ==> (key_of_name(tables.workspaces, text) matches Some(key) ==> (
        parsed_id(key) matches Ok(found) ==> meant(tables, text) == Ok::<
            Option<u128>,
            ManagerErrorView,
        >(Some(found)))),
        parsed_id(text) is Err && key_of_name(tables.workspaces, text) is None ==> meant(
            tables,
            text,
        ) == Ok::<Option<u128>, ManagerErrorView>(None),
{
}

/// The projects of a workspace are those that stand under its id, in the order of the table,
/// each as its row says; and its paths are theirs.
pub proof fn law_projects_are_those_of_the_id(
    rows: Seq<ProjectRowView>,
    row: ProjectRowView,
    id: u128,
)
    ensures
        members(Seq::empty(), id).len() == 0,
        row.workspace_id != hyphenated(id) ==> members(rows.push(row), id) == members(rows, id),
        row.workspace_id == hyphenated(id) ==> {
            let list = members(rows.push(row), id);
            &&& list.len() == members(rows, id).len() + 1
            &&& list.drop_last() == members(rows, id)
            &&& list.last().workspace_id == id
            &&& list.last().path == row.path
            &&& list.last().position == row.position
            &&& list.last().remote_connection_id == row.remote_connection_id
        },
        paths_of(Seq::empty(), hyphenated(id)).len() == 0,
        paths_of(rows.push(row), hyphenated(id)) == if row.workspace_id == hyphenated(id) {
            paths_of(rows, hyphenated(id)).push(row.path)
        } else {
            paths_of(rows, hyphenated(id))
        },
{
    assert(rows.push(row).drop_last() =~= rows);
    if row.workspace_id == hyphenated(id) {
        assert(members(rows.push(row), id).drop_last() =~= members(rows, id));
    }
}

/// A project that is there is not added again; one that is added goes to the end of the table,
/// behind every project of its workspace, and nothing else changes.
pub proof fn law_project_is_added_once(tables: TablesView, id: u128, path: Seq<char>, i: int)
    ensures
        has_project(tables.projects, hyphenated(id), path) ==> with_project(tables, id, path) == Ok::<
            TablesView,
            ManagerErrorView,
        >(tables),
        !has_project(tables.projects, hyphenated(id), path) ==> (with_project(
            tables,
            id,
            path,
        ) matches Ok(after) ==> {
            let list = members(tables.projects, id);
            let row = after.projects.last();
            &&& after.workspaces == tables.workspaces
            &&& after.projects.len() == tables.projects.len() + 1
            &&& after.projects.drop_last() == tables.projects
            &&& row.workspace_id == hyphenated(id)
            &&& row.path == path
            &&& row.remote_connection_id is None
            &&& 0 <= i < list.len() ==> list[i].position < row.position
            &&& list.len() == 0 ==> row.position == 0
        }),
{
    if !has_project(tables.projects, hyphenated(id), path) {
        if let Ok(after) = with_project(tables, id, path) {
            assert(after.projects.drop_last() =~= tables.projects);
            let list = members(tables.projects, id);
            if 0 <= i < list.len() {
                lemma_last_position(list, i);
            }
        }
    }
}

proof fn lemma_holder_holds(
    rows: Seq<ProjectRowView>,
    some: Seq<ProjectRowView>,
    paths: Seq<Seq<char>>,
)
    ensures
        match exact_holder(rows, some, paths) {
            Some(key) => paths_of(rows, key).to_multiset() == paths.to_multiset(),
            None => forall|i: int|
                0 <= i < some.len() ==> paths_of(
                    rows,
                    (#[trigger] some[i]).workspace_id,
                ).to_multiset() != paths.to_multiset(),
        },
    decreases some.len(),
{
    if some.len() > 0 {
        let rest = some.drop_first();
        lemma_holder_holds(rows, rest, paths);
        if !holds_exactly(rows, some[0].workspace_id, paths) && exact_holder(rows, rest, paths)
            is None {
            assert forall|i: int| 0 <= i < some.len() implies paths_of(
                rows,
                (#[trigger] some[i]).workspace_id,
            ).to_multiset() != paths.to_multiset() by {
                if i > 0 {
                    assert(rest[i - 1] == some[i]);
                }
            }
        }
    }
}

/// The workspace that is found for folders holds each of them as often as it is named and no
/// other; where none is found, no workspace with a project does. No folder leads nowhere.
pub proof fn law_found_workspace_holds_exactly_the_folders(
    tables: TablesView,
    paths: Seq<Seq<char>>,
    i: int,
)
    ensures
        paths.len() == 0 ==> workspace_for(tables, paths) == Ok::<Option<u128>, ManagerErrorView>(
            None,
        ),
        workspace_for(tables, paths) matches Ok(Some(id)) ==> exists|key: Seq<char>|
            parsed_id(key) == Ok::<u128, Seq<char>>(id) && (#[trigger] paths_of(
                tables.projects,
                key,
            )).to_multiset() == paths.to_multiset(),
        workspace_for(tables, paths) == Ok::<Option<u128>, ManagerErrorView>(None) && paths.len() > 0
            && 0 <= i < tables.projects.len() ==> paths_of(
            tables.projects,
            tables.projects[i].workspace_id,
        ).to_multiset() != paths.to_multiset(),
{
    lemma_holder_holds(tables.projects, tables.projects, paths);
    if let Ok(Some(id)) = workspace_for(tables, paths) {
        let key = exact_holder(tables.projects, tables.projects, paths)->0;
        assert(paths_of(tables.projects, key).to_multiset() == paths.to_multiset());
    }
}

/// A workspace can be created exactly where nothing stands twice once it is.
pub proof fn law_creation_is_refused_only_for_repetition(
    tables: TablesView,
    id: u128,
    name: Seq<char>,
    paths: Seq<Seq<char>>,
    now: (i64, u32),
)
    requires
        unique_workspaces(tables.workspaces),
        unique_projects(tables.projects),
    ensures
        can_create(tables, id, paths) <==> unique_workspaces(
            created(tables, id, name, paths, now).workspaces,
        ) && unique_projects(created(tables, id, name, paths, now).projects),
{
    let after = created(tables, id, name, paths, now);
    let key = hyphenated(id);
    let (w, p) = (tables.workspaces.len() as int, tables.projects.len() as int);
    law_row_is_found_by_key(tables.workspaces, key);
    if can_create(tables, id, paths) {
        assert forall|i: int, j: int| 0 <= i < j < after.workspaces.len() implies (
        #[trigger] after.workspaces[i]).workspace_id != (
        #[trigger] after.workspaces[j]).workspace_id by {
            assert(after.workspaces[i] == tables.workspaces[i]);
            if j < w {
                assert(after.workspaces[j] == tables.workspaces[j]);
            }
        }
        assert forall|i: int, j: int| 0 <= i < j < after.projects.len() implies !((
        #[trigger] after.projects[i]).workspace_id == (#[trigger] after.projects[j]).workspace_id
            && after.projects[i].path == after.projects[j].path) by {
            if j < p {
                assert(after.projects[i] == tables.projects[i]);
                assert(after.projects[j] == tables.projects[j]);
            } else if i < p {
                assert(after.projects[i] == tables.projects[i]);
                assert(!has_project(tables.projects, key, paths[j - p]));
            } else {
                assert(paths[i - p] != paths[j - p]);
            }
        }
    } else if unique_workspaces(after.workspaces) && unique_projects(after.projects) {
        if let Some(row) = workspace_row(tables.workspaces, key) {
            let i = choose|i: int| 0 <= i < w && tables.workspaces[i] == row;
            assert(after.workspaces[i] == row);
            assert(after.workspaces[w].workspace_id == key);
        } else if !paths.no_duplicates() {
            let (i, j) = choose|i: int, j: int|
                0 <= i < paths.len() && 0 <= j < paths.len() && i != j && paths[i] == paths[j];
            let (x, y) = if i < j {
                (i, j)
            } else {
                (j, i)
            };
            assert(after.projects[p + x].path == after.projects[p + y].path);
        } else {
            let i = choose|i: int|
                0 <= i < paths.len() && has_project(tables.projects, key, #[trigger] paths[i]);
            let k = choose|k: int|
                0 <= k < p && (#[trigger] tables.projects[k]).workspace_id == key
                    && tables.projects[k].path == paths[i];
            assert(after.projects[k] == tables.projects[k]);
            assert(after.projects[p + i].path == paths[i]);
        }
        assert(false);
    }
}

} // verus!
