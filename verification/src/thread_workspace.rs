//! Which workspace a thread belongs to.
//!
//! A workspace of threads is known by the set of its projects: the same folders always
//! lead to the same workspace, on whatever machine they are opened.

use vstd::prelude::*;
use crate::ids::{is_random_id, random_id};
use crate::lists::{all_different, holds};
use crate::text::joined;
use crate::workspace_names::{are_names, derive_workspace_name, names_or_paths};

verus! {

/// Where the database of threads is, where nothing else is said.
pub const DEFAULT_THREADS_DATABASE_URL: &'static str = "postgres://localhost/zed_threads";

/// Where the database of threads is: what the settings say, or else the environment, or
/// else a default.
pub fn threads_database_url(setting: Option<&str>, environment: Option<&str>) -> (r: String)
    ensures
        r@ == match setting {
            Some(url) => url@,
            None => match environment {
                Some(url) => url@,
                None => "postgres://localhost/zed_threads"@,
            },
        },
{
    match setting {
        Some(url) => url.to_owned(),
        None => match environment {
            Some(url) => url.to_owned(),
            None => "postgres://localhost/zed_threads".to_owned(),
        },
    }
}

/// A project of a workspace.
#[derive(Debug)]
pub struct StoreProject {
    pub workspace_id: u128,
    pub path: String,
    pub position: i32,
}

impl DeepView for StoreProject {
    type V = (u128, Seq<char>, i32);

    open spec fn deep_view(&self) -> (u128, Seq<char>, i32) {
        (self.workspace_id, self.path@, self.position)
    }
}

/// A workspace of threads.
#[derive(Debug)]
pub struct StoreWorkspace {
    pub workspace_id: u128,
    pub name: String,
}

impl DeepView for StoreWorkspace {
    type V = (u128, Seq<char>);

    open spec fn deep_view(&self) -> (u128, Seq<char>) {
        (self.workspace_id, self.name@)
    }
}

/// The workspaces that threads are grouped under.
#[derive(Debug)]
pub struct WorkspaceStore {
    pub workspaces: Vec<StoreWorkspace>,
    pub projects: Vec<StoreProject>,
}

/// The model of a `WorkspaceStore`.
pub struct StoreView {
    pub workspaces: Seq<(u128, Seq<char>)>,
    pub projects: Seq<(u128, Seq<char>, i32)>,
}

impl DeepView for WorkspaceStore {
    type V = StoreView;

    open spec fn deep_view(&self) -> StoreView {
        StoreView {
            workspaces: self.workspaces.deep_view(),
            projects: self.projects.deep_view(),
        }
    }
}

/// Why no workspace could be had.
#[derive(Clone, Copy, Debug, PartialEq, Eq, Structural)]
pub enum StoreError {
    /// There are no projects.
    EmptyProjectSet,
    /// A new workspace would stand twice, or a project twice in it.
    Conflict,
}

impl DeepView for StoreError {
    type V = StoreError;

    open spec fn deep_view(&self) -> StoreError {
        *self
    }
}

impl StoreError {
    /// What is said of this error; nothing of a row that would stand twice, of which the
    /// database has its own words.
    pub fn message(self) -> (r: Option<&'static str>)
        ensures
            r.deep_view() == match self {
                StoreError::EmptyProjectSet => Some(
                    "cannot resolve a workspace for an empty project set"@,
                ),
                StoreError::Conflict => None,
            },
    {
        match self {
            StoreError::EmptyProjectSet => {
                Some("cannot resolve a workspace for an empty project set")
            },
            StoreError::Conflict => None,
        }
    }
}

/// The paths of a workspace's projects, in the order of the table.
pub open spec fn store_paths(projects: Seq<(u128, Seq<char>, i32)>, id: u128) -> Seq<Seq<char>>
    decreases projects.len(),
{
    if projects.len() == 0 {
        Seq::empty()
    } else {
        let rest = store_paths(projects.drop_last(), id);
        if projects.last().0 == id {
            rest.push(projects.last().1)
        } else {
            rest
        }
    }
}

/// Whether a workspace has as many projects as there are paths, each at one of them.
pub open spec fn has_exactly(
    projects: Seq<(u128, Seq<char>, i32)>,
    id: u128,
    paths: Seq<Seq<char>>,
) -> bool {
    &&& store_paths(projects, id).len() == paths.len()
    &&& forall|i: int|
        0 <= i < store_paths(projects, id).len() ==> paths.contains(
            #[trigger] store_paths(projects, id)[i],
        )
}

/// The first workspace among `some` of the projects that has exactly the given paths.
pub open spec fn first_with(
    projects: Seq<(u128, Seq<char>, i32)>,
    some: Seq<(u128, Seq<char>, i32)>,
    paths: Seq<Seq<char>>,
) -> Option<u128>
    decreases some.len(),
{
    if some.len() == 0 {
        None
    } else if has_exactly(projects, some[0].0, paths) {
        Some(some[0].0)
    } else {
        first_with(projects, some.drop_first(), paths)
    }
}

/// The workspace with exactly the given paths.
pub open spec fn known_workspace(store: StoreView, paths: Seq<Seq<char>>) -> Option<u128> {
    first_with(store.projects, store.projects, paths)
}

/// The store with a new workspace.
pub open spec fn with_workspace(
    store: StoreView,
    id: u128,
    name: Seq<char>,
    paths: Seq<Seq<char>>,
) -> StoreView {
    StoreView {
        workspaces: store.workspaces.push((id, name)),
        projects: store.projects + Seq::new(paths.len(), |i: int| (id, paths[i], i as i32)),
    }
}

/// Whether a workspace can be made: nothing of it is there, and no path is given twice.
pub open spec fn is_free(store: StoreView, id: u128, paths: Seq<Seq<char>>) -> bool {
    &&& paths.no_duplicates()
    &&& forall|i: int| 0 <= i < store.workspaces.len() ==> (#[trigger] store.workspaces[i]).0 != id
    &&& forall|i: int| 0 <= i < store.projects.len() ==> (#[trigger] store.projects[i]).0 != id
}

fn find_paths(projects: &Vec<StoreProject>, id: u128) -> (r: Vec<String>)
    ensures
        r.deep_view() == store_paths(projects.deep_view(), id),
{
    let ghost models = projects.deep_view();
    let mut out: Vec<String> = Vec::new();
    let mut i: usize = 0;
    proof {
        assert(models.take(0) =~= Seq::empty());
        assert(out.deep_view() =~= Seq::empty());
    }
    while i < projects.len()
        invariant
            i <= projects@.len(),
            models == projects.deep_view(),
            out.deep_view() == store_paths(models.take(i as int), id),
        decreases projects@.len() - i,
    {
        let ghost done = out.deep_view();
        proof {
            let next = models.take(i + 1);
            assert(next.drop_last() =~= models.take(i as int));
            assert(next.last() == projects@[i as int].deep_view());
        }
        if projects[i].workspace_id == id {
            out.push(projects[i].path.clone());
            assert(out.deep_view() =~= done.push(projects@[i as int].path@));
        }
        i = i + 1;
    }
    assert(models.take(models.len() as int) =~= models);
    out
}

fn find_exactly(projects: &Vec<StoreProject>, id: u128, paths: &Vec<String>) -> (r: bool)
    ensures
        r == has_exactly(projects.deep_view(), id, paths.deep_view()),
{
    let own = find_paths(projects, id);
    assert(own.deep_view().len() == own@.len());
    assert(paths.deep_view().len() == paths@.len());
    if own.len() != paths.len() {
        return false;
    }
    let mut i: usize = 0;
    while i < own.len()
        invariant
            i <= own@.len(),
            own.deep_view() == store_paths(projects.deep_view(), id),
            forall|j: int| 0 <= j < i ==> paths.deep_view().contains(#[trigger] own.deep_view()[j]),
        decreases own@.len() - i,
    {
        assert(own.deep_view()[i as int] == own@[i as int]@);
        let found = holds(paths, own[i].as_str());
        if !found {
            assert(!paths.deep_view().contains(store_paths(projects.deep_view(), id)[i as int]));
            return false;
        }
        i = i + 1;
    }
    true
}

impl WorkspaceStore {
    /// The workspace with exactly the given paths.
    pub fn workspace_id_for_paths(&self, paths: &Vec<String>) -> (r: Option<u128>)
        ensures
            r == known_workspace(self.deep_view(), paths.deep_view()),
    {
        let ghost models = self.projects.deep_view();
        let mut i: usize = 0;
        assert(models.skip(0) =~= models);
        while i < self.projects.len()
            invariant
                i <= self.projects@.len(),
                models == self.projects.deep_view(),
                first_with(models, models, paths.deep_view()) == first_with(
                    models,
                    models.skip(i as int),
                    paths.deep_view(),
                ),
            decreases self.projects@.len() - i,
        {
            let id = self.projects[i].workspace_id;
            proof {
                let rest = models.skip(i as int);
                assert(rest[0] == self.projects@[i as int].deep_view());
                assert(rest.drop_first() =~= models.skip(i + 1));
            }
            if find_exactly(&self.projects, id, paths) {
                return Some(id);
            }
            i = i + 1;
        }
        None
    }

    fn is_used(&self, id: u128) -> (r: bool)
        ensures
            r == !((forall|i: int|
                0 <= i < self.deep_view().workspaces.len() ==> (
                #[trigger] self.deep_view().workspaces[i]).0 != id) && (forall|i: int|
                0 <= i < self.deep_view().projects.len() ==> (
                #[trigger] self.deep_view().projects[i]).0 != id)),
    {
        let mut i: usize = 0;
        while i < self.workspaces.len()
            invariant
                i <= self.workspaces@.len(),
                forall|j: int|
                    0 <= j < i ==> (#[trigger] self.deep_view().workspaces[j]).0 != id,
            decreases self.workspaces@.len() - i,
        {
            assert(self.deep_view().workspaces[i as int]
                == self.workspaces@[i as int].deep_view());
            if self.workspaces[i].workspace_id == id {
                return true;
            }
            i = i + 1;
        }
        let mut k: usize = 0;
        while k < self.projects.len()
            invariant
                k <= self.projects@.len(),
                forall|j: int| 0 <= j < k ==> (#[trigger] self.deep_view().projects[j]).0 != id,
            decreases self.projects@.len() - k,
        {
            assert(self.deep_view().projects[k as int] == self.projects@[k as int].deep_view());
            if self.projects[k].workspace_id == id {
                return true;
            }
            k = k + 1;
        }
        false
    }

    /// Makes a workspace of the given id, name and paths. Nothing changes where it, or
    /// one of its projects, would stand twice.
    pub fn create_with_id(&mut self, id: u128, name: String, paths: &Vec<String>) -> (r: Result<
        (),
        StoreError,
    >)
        requires
            paths@.len() <= i32::MAX,
        ensures
            if is_free(old(self).deep_view(), id, paths.deep_view()) {
                &&& r is Ok
                &&& final(self).deep_view() == with_workspace(
                    old(self).deep_view(),
                    id,
                    name@,
                    paths.deep_view(),
                )
            } else {
                &&& r == Err::<(), StoreError>(StoreError::Conflict)
                &&& final(self).deep_view() == old(self).deep_view()
            },
    {
        if self.is_used(id) || !all_different(paths) {
            return Err(StoreError::Conflict);
        }
        let ghost workspaces = self.workspaces.deep_view();
        let ghost projects = self.projects.deep_view();
        let ghost texts = paths.deep_view();
        let ghost wanted = Seq::new(texts.len(), |i: int| (id, texts[i], i as i32));
        let ghost named = (id, name@);
        self.workspaces.push(StoreWorkspace { workspace_id: id, name });
        proof {
            assert(self.workspaces.deep_view() =~= workspaces.push(named));
            assert(self.projects.deep_view() =~= projects + wanted.take(0));
        }
        let mut i: usize = 0;
        while i < paths.len()
            invariant
                i <= paths@.len(),
                paths@.len() <= i32::MAX,
                texts == paths.deep_view(),
                wanted == Seq::new(texts.len(), |i: int| (id, texts[i], i as i32)),
                self.workspaces.deep_view() == workspaces.push(named),
                self.projects.deep_view() == projects + wanted.take(i as int),
            decreases paths@.len() - i,
        {
            let ghost done = self.projects.deep_view();
            let project = StoreProject {
                workspace_id: id,
                path: paths[i].clone(),
                position: i as i32,
            };
            self.projects.push(project);
            proof {
                assert(self.projects.deep_view() =~= done.push(project.deep_view()));
                assert(texts[i as int] == paths@[i as int]@);
                assert(project.deep_view() == wanted[i as int]);
                assert(self.projects.deep_view() =~= projects + wanted.take(i + 1));
            }
            i = i + 1;
        }
        proof {
            assert(wanted.take(wanted.len() as int) =~= wanted);
        }
        Ok(())
    }

    /// The workspace with exactly the given paths. Where there is none it is made, under
    /// a new random id and a first name.
    pub fn resolve_workspace(&mut self, paths: &Vec<String>) -> (r: Result<u128, StoreError>)
        requires
            paths@.len() <= i32::MAX,
        ensures
            paths@.len() == 0 ==> r == Err::<u128, StoreError>(StoreError::EmptyProjectSet)
                && final(self).deep_view() == old(self).deep_view(),
            paths@.len() > 0 ==> match known_workspace(old(self).deep_view(), paths.deep_view()) {
                Some(id) => r == Ok::<u128, StoreError>(id) && final(self).deep_view() == old(
                    self,
                ).deep_view(),
                None => match r {
                    Ok(id) => {
                        &&& is_random_id(id)
                        &&& is_free(old(self).deep_view(), id, paths.deep_view())
                        &&& exists|names: Seq<Option<Seq<char>>>| #[trigger]
                            are_names(names, paths.deep_view()) && final(self).deep_view()
                                == with_workspace(
                                old(self).deep_view(),
                                id,
                                joined(names_or_paths(names, paths.deep_view()), ", "@),
                                paths.deep_view(),
                            )
                    },
                    Err(error) => {
                        &&& error == StoreError::Conflict
                        &&& final(self).deep_view() == old(self).deep_view()
                        &&& exists|id: u128| #[trigger]
                            is_random_id(id) && !is_free(
                                old(self).deep_view(),
                                id,
                                paths.deep_view(),
                            )
                    },
                },
            },
    {
        if paths.len() == 0 {
            return Err(StoreError::EmptyProjectSet);
        }
        if let Some(id) = self.workspace_id_for_paths(paths) {
            return Ok(id);
        }
        let id = random_id();
        let name = derive_workspace_name(paths);
        match self.create_with_id(id, name, paths) {
            Ok(_) => Ok(id),
            Err(error) => Err(error),
        }
    }
}

proof fn lemma_paths_of_new(
    projects: Seq<(u128, Seq<char>, i32)>,
    id: u128,
    paths: Seq<Seq<char>>,
    n: int,
)
    requires
        0 <= n <= paths.len(),
        forall|i: int| 0 <= i < projects.len() ==> (#[trigger] projects[i]).0 != id,
    ensures
        store_paths(
            projects + Seq::new(paths.len(), |i: int| (id, paths[i], i as i32)).take(n),
            id,
        ) == paths.take(n),
    decreases projects.len() + n,
{
    let new = Seq::new(paths.len(), |i: int| (id, paths[i], i as i32));
    let all = projects + new.take(n);
    if n > 0 {
        lemma_paths_of_new(projects, id, paths, n - 1);
        assert(all.drop_last() =~= projects + new.take(n - 1));
        assert(paths.take(n) =~= paths.take(n - 1).push(paths[n - 1]));
    } else if projects.len() > 0 {
        let fewer = projects.drop_last();
        assert forall|i: int| 0 <= i < fewer.len() implies (#[trigger] fewer[i]).0 != id by {
            assert(fewer[i] == projects[i]);
        }
        lemma_paths_of_new(fewer, id, paths, 0);
        assert(all =~= projects);
        assert(fewer + new.take(0) =~= fewer);
        assert(projects.last() == projects[projects.len() - 1]);
    } else {
        assert(all =~= Seq::empty());
        assert(paths.take(0) =~= Seq::empty());
    }
}

proof fn lemma_first_with(
    projects: Seq<(u128, Seq<char>, i32)>,
    some: Seq<(u128, Seq<char>, i32)>,
    paths: Seq<Seq<char>>,
    i: int,
)
    requires
        0 <= i < some.len(),
        has_exactly(projects, some[i].0, paths),
        forall|j: int| 0 <= j < i ==> !has_exactly(projects, (#[trigger] some[j]).0, paths),
    ensures
        first_with(projects, some, paths) == Some(some[i].0),
    decreases some.len(),
{
    if i > 0 {
        let rest = some.drop_first();
        assert(!has_exactly(projects, some[0].0, paths));
        assert(rest[i - 1] == some[i]);
        assert forall|j: int| 0 <= j < i - 1 implies !has_exactly(
            projects,
            (#[trigger] rest[j]).0,
            paths,
        ) by {
            assert(rest[j] == some[j + 1]);
        }
        lemma_first_with(projects, rest, paths, i - 1);
    }
}

/// Adding projects of another workspace changes no workspace's paths.
proof fn lemma_other_paths_stay(
    projects: Seq<(u128, Seq<char>, i32)>,
    id: u128,
    paths: Seq<Seq<char>>,
    other: u128,
    n: int,
)
    requires
        0 <= n <= paths.len(),
        other != id,
    ensures
        store_paths(
            projects + Seq::new(paths.len(), |i: int| (id, paths[i], i as i32)).take(n),
            other,
        ) == store_paths(projects, other),
    decreases n,
{
    let new = Seq::new(paths.len(), |i: int| (id, paths[i], i as i32));
    let all = projects + new.take(n);
    if n > 0 {
        lemma_other_paths_stay(projects, id, paths, other, n - 1);
        assert(all.drop_last() =~= projects + new.take(n - 1));
    } else {
        assert(all =~= projects);
    }
}

/// The same folders lead to the same workspace: one that was made for some folders is
/// the one that they lead to from then on.
pub proof fn law_workspace_is_stable(
    store: StoreView,
    id: u128,
    name: Seq<char>,
    paths: Seq<Seq<char>>,
)
    requires
        paths.len() > 0,
        known_workspace(store, paths) is None,
        is_free(store, id, paths),
    ensures
        known_workspace(with_workspace(store, id, name, paths), paths) == Some(id),
{
    let new = Seq::new(paths.len(), |i: int| (id, paths[i], i as i32));
    let after = store.projects + new;
    let at = store.projects.len() as int;
    lemma_paths_of_new(store.projects, id, paths, paths.len() as int);
    assert(new.take(paths.len() as int) =~= new);
    assert(paths.take(paths.len() as int) =~= paths);
    assert(after[at].0 == id);
    assert(has_exactly(after, id, paths)) by {
        assert forall|i: int| 0 <= i < store_paths(after, id).len() implies paths.contains(
            #[trigger] store_paths(after, id)[i],
        ) by {
            assert(paths[i] == store_paths(after, id)[i]);
        }
    }
    assert forall|j: int| 0 <= j < at implies !has_exactly(
        after,
        (#[trigger] after[j]).0,
        paths,
    ) by {
        let other = store.projects[j].0;
        assert(after[j] == store.projects[j]);
        assert(other != id);
        lemma_other_paths_stay(store.projects, id, paths, other, paths.len() as int);
        if has_exactly(store.projects, other, paths) {
            lemma_some_with(store.projects, store.projects, paths, j);
        }
    }
    lemma_first_with(after, after, paths, at);
}

proof fn lemma_some_with(
    projects: Seq<(u128, Seq<char>, i32)>,
    some: Seq<(u128, Seq<char>, i32)>,
    paths: Seq<Seq<char>>,
    i: int,
)
    requires
        0 <= i < some.len(),
        has_exactly(projects, some[i].0, paths),
    ensures
        first_with(projects, some, paths) is Some,
    decreases some.len(),
{
    if i > 0 && !has_exactly(projects, some[0].0, paths) {
        assert(some.drop_first()[i - 1] == some[i]);
        lemma_some_with(projects, some.drop_first(), paths, i - 1);
    }
}

proof fn lemma_first_with_same_set(
    projects: Seq<(u128, Seq<char>, i32)>,
    some: Seq<(u128, Seq<char>, i32)>,
    a: Seq<Seq<char>>,
    b: Seq<Seq<char>>,
)
    requires
        a.len() == b.len(),
        forall|path: Seq<char>| #[trigger] a.contains(path) <==> b.contains(path),
    ensures
        first_with(projects, some, a) == first_with(projects, some, b),
    decreases some.len(),
{
    if some.len() > 0 {
        assert(has_exactly(projects, some[0].0, a) == has_exactly(projects, some[0].0, b));
        lemma_first_with_same_set(projects, some.drop_first(), a, b);
    }
}

/// The order in which the folders are named does not matter.
pub proof fn law_order_of_folders_does_not_matter(
    store: StoreView,
    a: Seq<Seq<char>>,
    b: Seq<Seq<char>>,
)
    requires
        a.no_duplicates(),
        b.no_duplicates(),
        a.to_set() == b.to_set(),
    ensures
        known_workspace(store, a) == known_workspace(store, b),
{
    a.unique_seq_to_set();
    b.unique_seq_to_set();
    assert forall|path: Seq<char>| #[trigger] a.contains(path) <==> b.contains(path) by {
        assert(a.to_set().contains(path) == a.contains(path));
        assert(b.to_set().contains(path) == b.contains(path));
    }
    lemma_first_with_same_set(store.projects, store.projects, a, b);
}

proof fn lemma_found_has_exactly(
    projects: Seq<(u128, Seq<char>, i32)>,
    some: Seq<(u128, Seq<char>, i32)>,
    paths: Seq<Seq<char>>,
)
    ensures
        first_with(projects, some, paths) matches Some(id) ==> has_exactly(projects, id, paths),
    decreases some.len(),
{
    if some.len() > 0 {
        lemma_found_has_exactly(projects, some.drop_first(), paths);
    }
}

/// The workspace that folders lead to has those folders and no others, in a store that
/// holds no project twice.
pub proof fn law_found_workspace_has_the_folders(store: StoreView, paths: Seq<Seq<char>>)
    requires
        known_workspace(store, paths) matches Some(id) && store_paths(
            store.projects,
            id,
        ).no_duplicates(),
    ensures
        store_paths(store.projects, known_workspace(store, paths)->0).to_set() == paths.to_set(),
{
    let id = known_workspace(store, paths)->0;
    let own = store_paths(store.projects, id);
    lemma_found_has_exactly(store.projects, store.projects, paths);
    own.unique_seq_to_set();
    paths.lemma_cardinality_of_set();
    assert forall|path: Seq<char>| own.to_set().contains(path) implies paths.to_set().contains(
        path,
    ) by {
        let i = choose|i: int| 0 <= i < own.len() && own[i] == path;
        assert(paths.contains(own[i]));
    }
    vstd::set_lib::lemma_len_subset(own.to_set(), paths.to_set());
    vstd::set_lib::lemma_subset_equality(own.to_set(), paths.to_set());
}

/// A workspace that is made is written down under its id and name, with one project for each
/// folder, in order; what was there stays.
pub proof fn law_new_workspace_is_written_down(
    store: StoreView,
    id: u128,
    name: Seq<char>,
    paths: Seq<Seq<char>>,
    i: int,
)
    ensures
        ({
            let after = with_workspace(store, id, name, paths);
            &&& after.workspaces == store.workspaces.push((id, name))
            &&& after.projects.len() == store.projects.len() + paths.len()
            &&& after.projects.take(store.projects.len() as int) == store.projects
            &&& 0 <= i < paths.len() ==> {
                let project = after.projects[store.projects.len() + i];
                &&& project.0 == id
                &&& project.1 == paths[i]
                &&& i <= i32::MAX ==> project.2 == i
            }
        }),
{
    assert(with_workspace(store, id, name, paths).projects.take(store.projects.len() as int)
        =~= store.projects);
}

/// The folders of a workspace are those that stand under its id, in order.
pub proof fn law_folders_are_those_of_the_id(
    projects: Seq<(u128, Seq<char>, i32)>,
    project: (u128, Seq<char>, i32),
    id: u128,
)
    ensures
        store_paths(Seq::empty(), id).len() == 0,
        store_paths(projects.push(project), id) == if project.0 == id {
            store_paths(projects, id).push(project.1)
        } else {
            store_paths(projects, id)
        },
{
    assert(projects.push(project).drop_last() =~= projects);
}

/// Under an id that is free a workspace is made that is the only one of that id, with exactly
/// the given folders, each once.
pub proof fn law_free_id_is_used_once(
    store: StoreView,
    id: u128,
    name: Seq<char>,
    paths: Seq<Seq<char>>,
    i: int,
)
    requires
        is_free(store, id, paths),
    ensures
        ({
            let after = with_workspace(store, id, name, paths);
            &&& 0 <= i < store.workspaces.len() ==> after.workspaces[i].0 != id
            &&& 0 <= i < store.projects.len() ==> after.projects[i].0 != id
            &&& paths.no_duplicates()
        }),
{
    if 0 <= i < store.workspaces.len() {
        assert(store.workspaces[i].0 != id);
    }
    if 0 <= i < store.projects.len() {
        assert(store.projects[i].0 != id);
    }
}

} // verus!
