use vstd::prelude::*;
use crate::task::{TaskView, Todo};

verus! {

/// Does some entry of `ts` carry id `id`?
pub open spec fn has_id(ts: Seq<TaskView>, id: i16) -> bool {
    exists|i: int| 0 <= i < ts.len() && ts[i].id == id
}

/// Index of the first entry of `ts` (in insertion order) whose id is `id`.
/// Meaningful only when `has_id(ts, id)`.
pub open spec fn first_with_id(ts: Seq<TaskView>, id: i16) -> int
    decreases ts.len(),
{
    if ts.len() == 0 {
        0
    } else if ts[0].id == id {
        0
    } else {
        1 + first_with_id(ts.drop_first(), id)
    }
}

/// `first_with_id` returns exactly the index whose earlier entries all miss `id`.
pub proof fn lemma_first_with_id_at(ts: Seq<TaskView>, id: i16, i: int)
    requires
        0 <= i < ts.len(),
        ts[i].id == id,
        forall|j: int| 0 <= j < i ==> ts[j].id != id,
    ensures
        first_with_id(ts, id) == i,
    decreases ts.len(),
{
    if ts[0].id == id {
    } else {
        assert(forall|j: int| 0 <= j < i - 1 ==> ts.drop_first()[j].id != id);
        lemma_first_with_id_at(ts.drop_first(), id, i - 1);
    }
}

/// When `has_id` holds, `first_with_id` lands on a matching entry and nothing
/// before it matches.
pub proof fn lemma_first_with_id_props(ts: Seq<TaskView>, id: i16)
    requires
        has_id(ts, id),
    ensures
        0 <= first_with_id(ts, id) < ts.len(),
        ts[first_with_id(ts, id)].id == id,
        forall|j: int| 0 <= j < first_with_id(ts, id) ==> ts[j].id != id,
    decreases ts.len(),
{
    if ts[0].id == id {
    } else {
        assert(has_id(ts.drop_first(), id)) by {
            let w = choose|i: int| 0 <= i < ts.len() && ts[i].id == id;
            assert(ts.drop_first()[w - 1].id == id);
        }
        lemma_first_with_id_props(ts.drop_first(), id);
        assert(forall|j: int| 1 <= j < ts.len() ==> ts[j] == ts.drop_first()[j - 1]);
    }
}

/// The id handed to the next task added: one more than the number of entries
/// ever stored, deleted ones included.
pub open spec fn next_id(ts: Seq<TaskView>) -> i16 {
    (ts.len() + 1) as i16
}

/// The list after adding a task with title `title`.
pub open spec fn add_spec(ts: Seq<TaskView>, title: Seq<char>) -> Seq<TaskView> {
    ts.push(TaskView { id: next_id(ts), title, completed: false, deleted: false })
}

/// The list after `remove id`: the first entry with that id is marked
/// deleted; without a match the list is unchanged.
pub open spec fn remove_spec(ts: Seq<TaskView>, id: i16) -> Seq<TaskView> {
    if has_id(ts, id) {
        let k = first_with_id(ts, id);
        ts.update(k, TaskView { deleted: true, ..ts[k] })
    } else {
        ts
    }
}

/// The list after `done id`: the first entry with that id is marked
/// completed; without a match the list is unchanged.
pub open spec fn done_spec(ts: Seq<TaskView>, id: i16) -> Seq<TaskView> {
    if has_id(ts, id) {
        let k = first_with_id(ts, id);
        ts.update(k, TaskView { completed: true, ..ts[k] })
    } else {
        ts
    }
}

/// Append a new task.  Its id is the storage length plus one — counting
/// soft-deleted entries — so ids stay dense and strictly increasing.
pub fn add_todo(todos: &mut Vec<Todo>, title: &str)
    requires
        old(todos)@.len() < 32767,
    ensures
        final(todos).deep_view() == add_spec(old(todos).deep_view(), title@),
{
    let new_id: i16 = todos.len() as i16 + 1;
    todos.push(Todo { id: new_id, title: title.to_owned(), completed: false, deleted: false });
    proof {
        assert(todos.deep_view() =~= add_spec(old(todos).deep_view(), title@));
    }
}

/// Soft-delete the first task whose id is `todo_id`; a miss changes nothing.
pub fn remove_todo(todos: &mut Vec<Todo>, todo_id: i16)
    ensures
        final(todos).deep_view() == remove_spec(old(todos).deep_view(), todo_id),
{
    let ghost ts = old(todos).deep_view();
    let n: usize = todos.len();
    let mut i: usize = 0;
    while i < n
        invariant
            n == todos@.len(),
            i <= n,
            *todos == *old(todos),
            ts == todos.deep_view(),
            ts.len() == n,
            forall|j: int| 0 <= j < i ==> ts[j].id != todo_id,
        decreases n - i,
    {
        if todos[i].id == todo_id {
            proof {
                assert(ts[i as int] == todos@[i as int]@);
                lemma_first_with_id_at(ts, todo_id, i as int);
            }
            let entry = &mut todos[i];
            entry.deleted = true;
            proof {
                assert(todos.deep_view() =~= remove_spec(ts, todo_id));
            }
            return;
        }
        proof {
            assert(ts[i as int] == todos@[i as int]@);
        }
        i = i + 1;
    }
    proof {
        assert(!has_id(ts, todo_id));
    }
}

/// Mark the first task whose id is `todo_id` completed; a miss changes nothing.
pub fn mark_done(todos: &mut Vec<Todo>, todo_id: i16)
    ensures
        final(todos).deep_view() == done_spec(old(todos).deep_view(), todo_id),
{
    let ghost ts = old(todos).deep_view();
    let n: usize = todos.len();
    let mut i: usize = 0;
    while i < n
        invariant
            n == todos@.len(),
            i <= n,
            *todos == *old(todos),
            ts == todos.deep_view(),
            ts.len() == n,
            forall|j: int| 0 <= j < i ==> ts[j].id != todo_id,
        decreases n - i,
    {
        if todos[i].id == todo_id {
            proof {
                assert(ts[i as int] == todos@[i as int]@);
                lemma_first_with_id_at(ts, todo_id, i as int);
            }
            let entry = &mut todos[i];
            entry.completed = true;
            proof {
                assert(todos.deep_view() =~= done_spec(ts, todo_id));
            }
            return;
        }
        proof {
            assert(ts[i as int] == todos@[i as int]@);
        }
        i = i + 1;
    }
    proof {
        assert(!has_id(ts, todo_id));
    }
}

} // verus!
