//! Where the threads database lies, and how its table is brought up to date.

use vstd::prelude::*;
use crate::thread_table::{unique_ids, RowView, ThreadRow, ThreadsDatabase};

verus! {

/// Where the threads database lies.
#[derive(Debug, PartialEq, Eq)]
pub enum ThreadsLocation {
    /// In memory, under this name.
    Memory(String),
    /// In this file below the data directory; its directory is made where it is missing.
    File { directory: String, name: String },
}

/// The model of a `ThreadsLocation`.
pub enum LocationView {
    Memory(Seq<char>),
    File { directory: Seq<char>, name: Seq<char> },
}

impl DeepView for ThreadsLocation {
    type V = LocationView;

    open spec fn deep_view(&self) -> LocationView {
        match self {
            ThreadsLocation::Memory(name) => LocationView::Memory(name@),
            ThreadsLocation::File { directory, name } => LocationView::File {
                directory: directory@,
                name: name@,
            },
        }
    }
}

/// Where the threads database lies: without state it is kept in memory.
pub fn threads_location(stateless: bool) -> (r: ThreadsLocation)
    ensures
        r.deep_view() == if stateless {
            LocationView::Memory("THREAD_FALLBACK_DB"@)
        } else {
            LocationView::File { directory: "threads"@, name: "threads.db"@ }
        },
{
    if stateless {
        ThreadsLocation::Memory("THREAD_FALLBACK_DB".to_owned())
    } else {
        ThreadsLocation::File { directory: "threads".to_owned(), name: "threads.db".to_owned() }
    }
}

/// What follows when a statement of the schema fails.
#[derive(Clone, Copy, Debug, PartialEq, Eq, Structural)]
pub enum Need {
    /// The database cannot be used.
    Required,
    /// Nothing: the column is there already.
    Optional,
    /// Nothing; and where the statement succeeds, each thread without a time of creation
    /// gets the time at which it was last updated.
    OptionalAndFill,
}

/// A statement of the schema.
#[derive(Debug)]
pub struct SchemaStep {
    pub sql: String,
    pub need: Need,
}

impl DeepView for SchemaStep {
    type V = (Seq<char>, Need);

    open spec fn deep_view(&self) -> (Seq<char>, Need) {
        (self.sql@, self.need)
    }
}

/// The statements that bring the table up to date, in their order.
pub open spec fn schema() -> Seq<(Seq<char>, Need)> {
    Seq::empty().push(("PRAGMA journal_mode=WAL;"@, Need::Required)).push(
        ("PRAGMA busy_timeout=1000;"@, Need::Required),
    ).push(
        (
            "CREATE TABLE IF NOT EXISTS threads (\n    id TEXT PRIMARY KEY,\n    summary TEXT NOT NULL,\n    updated_at TEXT NOT NULL,\n    data_type TEXT NOT NULL,\n    data BLOB NOT NULL\n)\n"@,
            Need::Required,
        ),
    ).push(("ALTER TABLE threads ADD COLUMN parent_id TEXT\n"@, Need::Optional)).push(
        (
            "ALTER TABLE threads ADD COLUMN folder_paths TEXT;\nALTER TABLE threads ADD COLUMN folder_paths_order TEXT;\n"@,
            Need::Optional,
        ),
    ).push(("ALTER TABLE threads ADD COLUMN workspace_id TEXT\n"@, Need::Optional)).push(
        ("ALTER TABLE threads ADD COLUMN created_at TEXT;\n"@, Need::OptionalAndFill),
    ).push(("ALTER TABLE threads ADD COLUMN dedup_key TEXT\n"@, Need::Optional)).push(
        ("ALTER TABLE threads ADD COLUMN merged_into TEXT\n"@, Need::Optional),
    )
}

fn push_step(steps: &mut Vec<SchemaStep>, sql: &str, need: Need)
    ensures
        final(steps).deep_view() == old(steps).deep_view().push((sql@, need)),
{
    let ghost before = steps.deep_view();
    let step = SchemaStep { sql: sql.to_owned(), need };
    steps.push(step);
    assert(steps.deep_view() =~= before.push(step.deep_view()));
}

/// The statements that bring the table up to date, in their order.
pub fn schema_steps() -> (r: Vec<SchemaStep>)
    ensures
        r.deep_view() == schema(),
{
    let mut steps: Vec<SchemaStep> = Vec::new();
    assert(steps.deep_view() =~= Seq::empty());
    push_step(&mut steps, "PRAGMA journal_mode=WAL;", Need::Required);
    push_step(&mut steps, "PRAGMA busy_timeout=1000;", Need::Required);
    push_step(
        &mut steps,
        "CREATE TABLE IF NOT EXISTS threads (\n    id TEXT PRIMARY KEY,\n    summary TEXT NOT NULL,\n    updated_at TEXT NOT NULL,\n    data_type TEXT NOT NULL,\n    data BLOB NOT NULL\n)\n",
        Need::Required,
    );
    push_step(&mut steps, "ALTER TABLE threads ADD COLUMN parent_id TEXT\n", Need::Optional);
    push_step(
        &mut steps,
        "ALTER TABLE threads ADD COLUMN folder_paths TEXT;\nALTER TABLE threads ADD COLUMN folder_paths_order TEXT;\n",
        Need::Optional,
    );
    push_step(&mut steps, "ALTER TABLE threads ADD COLUMN workspace_id TEXT\n", Need::Optional);
    push_step(
        &mut steps,
        "ALTER TABLE threads ADD COLUMN created_at TEXT;\n",
        Need::OptionalAndFill,
    );
    push_step(&mut steps, "ALTER TABLE threads ADD COLUMN dedup_key TEXT\n", Need::Optional);
    push_step(&mut steps, "ALTER TABLE threads ADD COLUMN merged_into TEXT\n", Need::Optional);
    steps
}

/// What is to be done after a statement of the schema was run.
#[derive(Clone, Copy, Debug, PartialEq, Eq, Structural)]
pub enum AfterStep {
    /// Go on with the next statement.
    GoOn,
    /// Fill in the times of creation, and go on.
    FillCreatedAt,
    /// Give up.
    Fail,
}

/// What is to be done after a statement of the schema succeeded or failed.
pub fn after_step(need: Need, succeeded: bool) -> (r: AfterStep)
    ensures
        r == match need {
            Need::Required => if succeeded {
                AfterStep::GoOn
            } else {
                AfterStep::Fail
            },
            Need::Optional => AfterStep::GoOn,
            Need::OptionalAndFill => if succeeded {
                AfterStep::FillCreatedAt
            } else {
                AfterStep::GoOn
            },
        },
{
    match need {
        Need::Required => if succeeded {
            AfterStep::GoOn
        } else {
            AfterStep::Fail
        },
        Need::Optional => AfterStep::GoOn,
        Need::OptionalAndFill => if succeeded {
            AfterStep::FillCreatedAt
        } else {
            AfterStep::GoOn
        },
    }
}

/// A row with a time of creation: the time of its last update where it had none.
pub open spec fn with_created_at(row: RowView) -> RowView {
    if row.created_at is None {
        RowView { created_at: Some(row.updated_at), ..row }
    } else {
        row
    }
}

impl ThreadsDatabase {
    /// Gives each thread without a time of creation the time of its last update.
    pub fn fill_created_at(&mut self)
        ensures
            final(self).deep_view() == Seq::new(
                old(self).deep_view().len(),
                |i: int| with_created_at(old(self).deep_view()[i]),
            ),
    {
        let mut rows = self.take_rows();
        let ghost models = rows.deep_view();
        let ghost wanted = Seq::new(models.len(), |i: int| with_created_at(models[i]));
        let mut i: usize = 0;
        while i < rows.len()
            invariant
                i <= rows@.len(),
                rows@.len() == models.len(),
                wanted == Seq::new(models.len(), |i: int| with_created_at(models[i])),
                forall|j: int|
                    0 <= j < rows@.len() ==> (#[trigger] rows@[j]).deep_view() == if j < i {
                        wanted[j]
                    } else {
                        models[j]
                    },
            decreases rows@.len() - i,
        {
            let ghost before = rows@;
            assert(before[i as int].deep_view() == models[i as int]);
            if rows[i].created_at.is_none() {
                let text = rows[i].updated_at.clone();
                let row: &mut ThreadRow = &mut rows[i];
                row.created_at = Some(text);
            }
            assert forall|j: int| 0 <= j < rows@.len() implies (#[trigger] rows@[j]).deep_view()
                == if j < i + 1 {
                wanted[j]
            } else {
                models[j]
            } by {
                if j != i {
                    assert(rows@[j] == before[j]);
                    assert(before[j].deep_view() == if j < i {
                        wanted[j]
                    } else {
                        models[j]
                    });
                }
            }
            i = i + 1;
        }
        proof {
            assert(rows.deep_view() =~= wanted);
            assert(unique_ids(wanted)) by {
                assert forall|a: int, b: int| 0 <= a < b < wanted.len() implies (
                #[trigger] wanted[a]).id != (#[trigger] wanted[b]).id by {
                    assert(models[a].id != models[b].id);
                }
            }
        }
        self.put_rows(rows);
    }
}

/// A thread whose time of creation is not known was created when it was last updated; one
/// whose time is known stays as it is, and so does whatever else there is of either.
pub proof fn law_creation_is_filled_in(row: RowView)
    ensures
        row.created_at is Some ==> with_created_at(row) == row,
        row.created_at is None ==> with_created_at(row).created_at == Some(row.updated_at),
        (RowView { created_at: row.created_at, ..with_created_at(row) }) == row,
{
}

} // verus!
