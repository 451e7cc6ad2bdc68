//! Deleting threads together with the threads of their subagents.

use vstd::prelude::*;
use crate::text::same;
use crate::thread_table::{unique_ids, RowView, ThreadRow, ThreadsDatabase};

verus! {

/// Whether a thread is the given one, or is a subagent's at most so many steps below it.
pub open spec fn below(rows: Seq<RowView>, root: Seq<char>, id: Seq<char>, steps: nat) -> bool
    decreases steps,
{
    if steps == 0 {
        id == root
    } else {
        below(rows, root, id, (steps - 1) as nat) || exists|i: int|
            {
                &&& 0 <= i < rows.len()
                &&& (#[trigger] rows[i]).id == id
                &&& rows[i].parent_id is Some
                &&& below(rows, root, rows[i].parent_id->0, (steps - 1) as nat)
            }
    }
}

/// Whether a thread is the given one, or was started by it, directly or not.
pub open spec fn in_subtree(rows: Seq<RowView>, root: Seq<char>, id: Seq<char>) -> bool {
    exists|steps: nat| below(rows, root, id, steps)
}

/// Whether a row stays when a thread is deleted.
pub open spec fn stays(rows: Seq<RowView>, root: Seq<char>) -> spec_fn(RowView) -> bool {
    |row: RowView| !in_subtree(rows, root, row.id)
}

/// Whether a row goes when a thread is deleted.
pub open spec fn goes(rows: Seq<RowView>, root: Seq<char>) -> spec_fn(RowView) -> bool {
    |row: RowView| in_subtree(rows, root, row.id)
}

/// A deleted thread goes, with every thread that a deleted one started.
pub proof fn law_subagents_go_with_their_thread(rows: Seq<RowView>, root: Seq<char>, i: int)
    requires
        0 <= i < rows.len(),
        rows[i].id == root || (rows[i].parent_id matches Some(parent) && in_subtree(
            rows,
            root,
            parent,
        )),
    ensures
        in_subtree(rows, root, rows[i].id),
{
    if rows[i].id == root {
        assert(below(rows, root, root, 0));
    } else {
        let parent = rows[i].parent_id->0;
        let steps = choose|steps: nat| below(rows, root, parent, steps);
        assert(below(rows, root, rows[i].id, steps + 1));
    }
}

/// What goes was deleted itself, or was started by a thread that goes.
pub proof fn law_nothing_else_goes(rows: Seq<RowView>, root: Seq<char>, i: int)
    requires
        unique_ids(rows),
        0 <= i < rows.len(),
        in_subtree(rows, root, rows[i].id),
    ensures
        rows[i].id == root || (rows[i].parent_id matches Some(parent) && in_subtree(
            rows,
            root,
            parent,
        )),
{
    let steps = choose|steps: nat| below(rows, root, rows[i].id, steps);
    lemma_below_has_parent(rows, root, i, steps);
}

proof fn lemma_below_has_parent(rows: Seq<RowView>, root: Seq<char>, i: int, steps: nat)
    requires
        unique_ids(rows),
        0 <= i < rows.len(),
        below(rows, root, rows[i].id, steps),
    ensures
        rows[i].id == root || (rows[i].parent_id matches Some(parent) && in_subtree(
            rows,
            root,
            parent,
        )),
    decreases steps,
{
    if steps > 0 {
        let fewer = (steps - 1) as nat;
        if below(rows, root, rows[i].id, fewer) {
            lemma_below_has_parent(rows, root, i, fewer);
        } else {
            let j = choose|j: int|
                {
                    &&& 0 <= j < rows.len()
                    &&& (#[trigger] rows[j]).id == rows[i].id
                    &&& rows[j].parent_id is Some
                    &&& below(rows, root, rows[j].parent_id->0, fewer)
                };
            assert(j == i) by {
                if j < i {
                    assert(rows[j].id != rows[i].id);
                } else if i < j {
                    assert(rows[i].id != rows[j].id);
                }
            }
        }
    }
}

/// How many rows have no mark.
spec fn unmarked(marks: Seq<bool>) -> nat
    decreases marks.len(),
{
    if marks.len() == 0 {
        0
    } else {
        unmarked(marks.drop_last()) + if marks.last() {
            0nat
        } else {
            1nat
        }
    }
}

proof fn lemma_marking(marks: Seq<bool>, i: int)
    requires
        0 <= i < marks.len(),
        !marks[i],
    ensures
        unmarked(marks.update(i, true)) + 1 == unmarked(marks),
    decreases marks.len(),
{
    let after = marks.update(i, true);
    if i == marks.len() - 1 {
        assert(after.drop_last() =~= marks.drop_last());
    } else {
        assert(after.drop_last() =~= marks.drop_last().update(i, true));
        lemma_marking(marks.drop_last(), i);
    }
}

/// Whether an id is among those still to be looked at.
spec fn waits(frontier: Seq<Seq<char>>, id: Seq<char>) -> bool {
    frontier.contains(id)
}

/// Whether an id is the given one or that of a marked row.
spec fn reached(rows: Seq<RowView>, marks: Seq<bool>, root: Seq<char>, id: Seq<char>) -> bool {
    id == root || exists|i: int| 0 <= i < rows.len() && #[trigger] marks[i] && rows[i].id == id
}

proof fn lemma_all_reached(
    rows: Seq<RowView>,
    marks: Seq<bool>,
    root: Seq<char>,
    id: Seq<char>,
    steps: nat,
)
    requires
        marks.len() == rows.len(),
        forall|i: int|
            0 <= i < rows.len() && (#[trigger] rows[i]).parent_id is Some && reached(
                rows,
                marks,
                root,
                rows[i].parent_id->0,
            ) ==> marks[i],
        below(rows, root, id, steps),
    ensures
        reached(rows, marks, root, id),
    decreases steps,
{
    if steps > 0 {
        let fewer = (steps - 1) as nat;
        if below(rows, root, id, fewer) {
            lemma_all_reached(rows, marks, root, id, fewer);
        } else {
            let j = choose|j: int|
                {
                    &&& 0 <= j < rows.len()
                    &&& (#[trigger] rows[j]).id == id
                    &&& rows[j].parent_id is Some
                    &&& below(rows, root, rows[j].parent_id->0, fewer)
                };
            lemma_all_reached(rows, marks, root, rows[j].parent_id->0, fewer);
            assert(marks[j]);
        }
    }
}

fn mark_root(rows: &Vec<ThreadRow>, root: &str) -> (r: Vec<bool>)
    ensures
        r@.len() == rows@.len(),
        forall|i: int|
            0 <= i < rows@.len() ==> #[trigger] r@[i] == (rows.deep_view()[i].id == root@),
{
    let mut marks: Vec<bool> = Vec::new();
    let mut i: usize = 0;
    while i < rows.len()
        invariant
            i <= rows@.len(),
            marks@.len() == i,
            forall|j: int| 0 <= j < i ==> #[trigger] marks@[j] == (rows.deep_view()[j].id == root@),
        decreases rows@.len() - i,
    {
        assert(rows.deep_view()[i as int].id == rows@[i as int].id@);
        marks.push(same(rows[i].id.as_str(), root));
        i = i + 1;
    }
    marks
}

fn has_parent(row: &ThreadRow, parent: &str) -> (r: bool)
    ensures
        r == (row.deep_view().parent_id == Some(parent@)),
{
    match &row.parent_id {
        Some(id) => same(id.as_str(), parent),
        None => false,
    }
}

/// Marks the rows of the given thread and of those that it started, directly or not.
#[verifier::rlimit(40)]
fn mark_subtree(rows: &Vec<ThreadRow>, root: &str) -> (r: Vec<bool>)
    requires
        unique_ids(rows.deep_view()),
    ensures
        r@.len() == rows@.len(),
        forall|i: int|
            0 <= i < rows@.len() ==> #[trigger] r@[i] == in_subtree(
                rows.deep_view(),
                root@,
                rows.deep_view()[i].id,
            ),
{
    let ghost models = rows.deep_view();
    let mut marks = mark_root(rows, root);
    let mut frontier: Vec<String> = Vec::new();
    frontier.push(root.to_owned());
    proof {
        assert(frontier.deep_view()[0] == root@);
        assert(waits(frontier.deep_view(), root@));
        assert(below(models, root@, root@, 0));
    }
    while frontier.len() > 0
        invariant
            models == rows.deep_view(),
            marks@.len() == rows@.len(),
            forall|i: int|
                0 <= i < models.len() && (#[trigger] models[i]).id == root@ ==> marks@[i],
            forall|i: int|
                0 <= i < models.len() && #[trigger] marks@[i] ==> in_subtree(
                    models,
                    root@,
                    models[i].id,
                ),
            forall|k: int|
                0 <= k < frontier@.len() ==> in_subtree(
                    models,
                    root@,
                    #[trigger] frontier.deep_view()[k],
                ),
            forall|i: int|
                0 <= i < models.len() && (#[trigger] models[i]).parent_id is Some && reached(
                    models,
                    marks@,
                    root@,
                    models[i].parent_id->0,
                ) ==> marks@[i] || waits(frontier.deep_view(), models[i].parent_id->0),
        decreases unmarked(marks@), frontier@.len(),
    {
        let ghost waiting = frontier.deep_view();
        let parent = frontier.pop().unwrap();
        proof {
            assert(waiting[waiting.len() - 1] == parent@);
            assert(frontier.deep_view() =~= waiting.drop_last());
            assert forall|i: int|
                0 <= i < models.len() && (#[trigger] models[i]).parent_id is Some && reached(
                    models,
                    marks@,
                    root@,
                    models[i].parent_id->0,
                ) && models[i].parent_id->0 != parent@ implies marks@[i] || waits(
                frontier.deep_view(),
                models[i].parent_id->0,
            ) by {
                if !marks@[i] {
                    let k = choose|k: int|
                        0 <= k < waiting.len() && waiting[k] == models[i].parent_id->0;
                    assert(frontier.deep_view()[k] == waiting[k]);
                }
            }
        }
        let ghost start = unmarked(marks@);
        let ghost size = frontier@.len();
        let mut i: usize = 0;
        while i < rows.len()
            invariant
                i <= rows@.len(),
                models == rows.deep_view(),
                marks@.len() == rows@.len(),
                in_subtree(models, root@, parent@),
                forall|i: int|
                    0 <= i < models.len() && (#[trigger] models[i]).id == root@ ==> marks@[i],
                forall|i: int|
                    0 <= i < models.len() && #[trigger] marks@[i] ==> in_subtree(
                        models,
                        root@,
                        models[i].id,
                    ),
                forall|k: int|
                    0 <= k < frontier@.len() ==> in_subtree(
                        models,
                        root@,
                        #[trigger] frontier.deep_view()[k],
                    ),
                forall|j: int|
                    0 <= j < i && (#[trigger] models[j]).parent_id == Some(parent@) ==> marks@[j],
                forall|j: int|
                    0 <= j < models.len() && (#[trigger] models[j]).parent_id is Some && reached(
                        models,
                        marks@,
                        root@,
                        models[j].parent_id->0,
                    ) && models[j].parent_id->0 != parent@ ==> marks@[j] || waits(
                        frontier.deep_view(),
                        models[j].parent_id->0,
                    ),
                unmarked(marks@) < start || (unmarked(marks@) == start && frontier@.len() == size),
            decreases rows@.len() - i,
        {
            assert(models[i as int] == rows@[i as int].deep_view());
            if !marks[i] && has_parent(&rows[i], parent.as_str()) {
                let ghost marks_before = marks@;
                let ghost waiting_before = frontier.deep_view();
                proof {
                    lemma_marking(marks@, i as int);
                    law_subagents_go_with_their_thread(models, root@, i as int);
                }
                marks.set(i, true);
                let id = rows[i].id.clone();
                frontier.push(id);
                proof {
                    assert(frontier.deep_view() =~= waiting_before.push(id@));
                    assert forall|j: int|
                        0 <= j < models.len() && (#[trigger] models[j]).parent_id is Some
                            && reached(models, marks@, root@, models[j].parent_id->0)
                            && models[j].parent_id->0 != parent@ implies marks@[j] || waits(
                        frontier.deep_view(),
                        models[j].parent_id->0,
                    ) by {
                        let up = models[j].parent_id->0;
                        if up == id@ {
                            assert(frontier.deep_view()[waiting_before.len() as int] == id@);
                        } else {
                            assert(reached(models, marks_before, root@, up)) by {
                                if up != root@ {
                                    let m = choose|m: int|
                                        0 <= m < models.len() && #[trigger] marks@[m]
                                            && models[m].id == up;
                                    assert(m != i);
                                    assert(marks_before[m]);
                                }
                            }
                            if !marks_before[j] {
                                let k = choose|k: int|
                                    0 <= k < waiting_before.len() && waiting_before[k] == up;
                                assert(frontier.deep_view()[k] == up);
                            }
                        }
                    }
                }
            }
            i = i + 1;
        }
    }
    proof {
        assert forall|i: int| 0 <= i < rows@.len() implies #[trigger] marks@[i] == in_subtree(
            models,
            root@,
            models[i].id,
        ) by {
            if in_subtree(models, root@, models[i].id) {
                let steps = choose|steps: nat| below(models, root@, models[i].id, steps);
                lemma_all_reached(models, marks@, root@, models[i].id, steps);
                if models[i].id != root@ {
                    let m = choose|m: int|
                        0 <= m < models.len() && #[trigger] marks@[m] && models[m].id
                            == models[i].id;
                    assert(m == i) by {
                        if m < i {
                            assert(models[m].id != models[i].id);
                        } else if i < m {
                            assert(models[i].id != models[m].id);
                        }
                    }
                }
            }
        }
    }
    marks
}

fn reversed(rows: Vec<ThreadRow>) -> (r: Vec<ThreadRow>)
    ensures
        r@ == rows@.reverse(),
{
    let ghost whole = rows@;
    let mut rows = rows;
    let mut out: Vec<ThreadRow> = Vec::new();
    while rows.len() > 0
        invariant
            rows@ + out@.reverse() == whole,
        decreases rows@.len(),
    {
        let ghost rest = rows@;
        let ghost done = out@;
        let row = rows.pop().unwrap();
        out.push(row);
        assert(rows@ + out@.reverse() =~= rest + done.reverse());
    }
    assert(out@ =~= whole.reverse());
    out
}

proof fn lemma_filter_unique(rows: Seq<RowView>, keep: spec_fn(RowView) -> bool)
    requires
        unique_ids(rows),
    ensures
        unique_ids(rows.filter(keep)),
        forall|i: int|
            0 <= i < rows.filter(keep).len() ==> rows.contains(#[trigger] rows.filter(keep)[i]),
    decreases rows.len(),
{
    reveal(Seq::filter);
    if rows.len() > 0 {
        let rest = rows.drop_last();
        lemma_filter_unique(rest, keep);
        let sub = rest.filter(keep);
        let whole = rows.filter(keep);
        assert forall|i: int| 0 <= i < whole.len() implies rows.contains(#[trigger] whole[i]) by {
            if i < sub.len() {
                assert(whole[i] == sub[i]);
                let k = choose|k: int| 0 <= k < rest.len() && rest[k] == sub[i];
                assert(rows[k] == sub[i]);
            } else {
                assert(rows[rows.len() - 1] == whole[i]);
            }
        }
        assert forall|i: int, j: int| 0 <= i < j < whole.len() implies (#[trigger] whole[i]).id != (
        #[trigger] whole[j]).id by {
            assert(whole[i] == sub[i]);
            if j < sub.len() {
                assert(whole[j] == sub[j]);
            } else {
                let k = choose|k: int| 0 <= k < rest.len() && rest[k] == sub[i];
                assert(rows[k].id != rows[rows.len() - 1].id);
            }
        }
    }
}

impl ThreadsDatabase {
    /// Deletes a thread together with all threads that it started, directly or not, and
    /// hands back the rows that went.
    pub fn delete_thread(&mut self, id: &str) -> (r: Vec<ThreadRow>)
        ensures
            final(self).deep_view() == old(self).deep_view().filter(
                stays(old(self).deep_view(), id@),
            ),
            r.deep_view() == old(self).deep_view().filter(goes(old(self).deep_view(), id@)),
    {
        let rows = self.take_rows();
        let ghost models = rows.deep_view();
        let ghost root = id@;
        let marks = mark_subtree(&rows, id);
        let count: usize = marks.len();
        let mut rest = reversed(rows);
        let mut kept: Vec<ThreadRow> = Vec::new();
        let mut gone: Vec<ThreadRow> = Vec::new();
        let mut i: usize = 0;
        proof {
            reveal(Seq::filter);
            assert(models.take(0) =~= Seq::empty());
            assert(kept.deep_view() =~= Seq::empty());
            assert(gone.deep_view() =~= Seq::empty());
        }
        while rest.len() > 0
            invariant
                i + rest@.len() == models.len(),
                marks@.len() == models.len(),
                count == models.len(),
                rest@ == rows@.reverse().take(rest@.len() as int),
                models == rows.deep_view(),
                forall|j: int|
                    0 <= j < models.len() ==> #[trigger] marks@[j] == in_subtree(
                        models,
                        root,
                        models[j].id,
                    ),
                kept.deep_view() == models.take(i as int).filter(stays(models, root)),
                gone.deep_view() == models.take(i as int).filter(goes(models, root)),
            decreases rest@.len(),
        {
            let ghost kept_before = kept.deep_view();
            let ghost gone_before = gone.deep_view();
            let ghost rest_before = rest@;
            let row = rest.pop().unwrap();
            proof {
                reveal(Seq::filter);
                let next = models.take(i + 1);
                assert(next.drop_last() =~= models.take(i as int));
                assert(row == rows@[i as int]);
                assert(next.last() == row.deep_view());
                assert(rest@ =~= rows@.reverse().take(rest@.len() as int));
                assert(marks@[i as int] == in_subtree(models, root, models[i as int].id));
            }
            if marks[i] {
                gone.push(row);
                assert(gone.deep_view() =~= gone_before.push(row.deep_view()));
            } else {
                kept.push(row);
                assert(kept.deep_view() =~= kept_before.push(row.deep_view()));
            }
            i = i + 1;
        }
        proof {
            assert(models.take(models.len() as int) =~= models);
            lemma_filter_unique(models, stays(models, root));
        }
        self.put_rows(kept);
        gone
    }

    /// Deletes all threads, and hands back their rows.
    pub fn delete_threads(&mut self) -> (r: Vec<ThreadRow>)
        ensures
            final(self).deep_view() == Seq::<RowView>::empty(),
            r.deep_view() == old(self).deep_view(),
    {
        self.take_rows()
    }
}

} // verus!
