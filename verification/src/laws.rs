use vstd::prelude::*;
use crate::command::{output_spec, step_spec};
use crate::numparse::parse_i16_spec;
use crate::ops::{
    done_spec, first_with_id, has_id, lemma_first_with_id_props, remove_spec,
};
use crate::render::{render_spec, render_tasks};
use crate::task::TaskView;
use crate::tokenize::tokens_of;

verus! {

/// Ids are dense: the task at index `i` — the `i + 1`-th ever added —
/// carries id `i + 1`.
pub open spec fn ids_dense(ts: Seq<TaskView>) -> bool {
    forall|i: int| 0 <= i < ts.len() ==> (#[trigger] ts[i].id) as int == i + 1
}

/// `has_id` and `first_with_id` look only at ids: two lists whose entries
/// carry the same ids agree on both.
proof fn lemma_first_with_id_same_ids(a: Seq<TaskView>, b: Seq<TaskView>, id: i16)
    requires
        a.len() == b.len(),
        forall|i: int| 0 <= i < a.len() ==> a[i].id == (#[trigger] b[i]).id,
    ensures
        has_id(a, id) == has_id(b, id),
        first_with_id(a, id) == first_with_id(b, id),
    decreases a.len(),
{
    assert(has_id(a, id) == has_id(b, id)) by {
        if has_id(a, id) {
            let w = choose|i: int| 0 <= i < a.len() && a[i].id == id;
            assert(b[w].id == id);
        }
        if has_id(b, id) {
            let w = choose|i: int| 0 <= i < b.len() && b[i].id == id;
            assert(a[w].id == id);
        }
    }
    if a.len() > 0 {
        assert(forall|i: int|
            0 <= i < a.len() - 1 ==> a.drop_first()[i].id
                == (#[trigger] b.drop_first()[i]).id);
        lemma_first_with_id_same_ids(a.drop_first(), b.drop_first(), id);
    }
}

/// Add hands out monotonic ids: every command step keeps ids dense, never
/// drops or reorders entries, and an `add` appends one task whose id is the
/// count of tasks ever added.  So the n-th added task carries id n, whatever
/// `remove` and `done` commands intervene.
pub proof fn lemma_step_keeps_ids_dense(ts: Seq<TaskView>, line: Seq<char>)
    requires
        ids_dense(ts),
        ts.len() < 32767,
    ensures
        ids_dense(step_spec(ts, line)),
        ts.len() <= step_spec(ts, line).len() <= ts.len() + 1,
        forall|i: int|
            0 <= i < ts.len() ==> (#[trigger] step_spec(ts, line)[i]).id == ts[i].id
                && step_spec(ts, line)[i].title == ts[i].title,
{
    let stepped = step_spec(ts, line);
    let toks = tokens_of(line);
    if toks.len() >= 2 && toks[0] == "add"@ {
        assert(stepped[ts.len() as int].id as int == ts.len() + 1);
    } else if toks.len() >= 2 && (toks[0] == "remove"@ || toks[0] == "done"@) {
        match parse_i16_spec(toks[1]) {
            Some(id) => {
                if has_id(ts, id) {
                    lemma_first_with_id_props(ts, id);
                }
            },
            None => {},
        }
    }
}

/// A deleted entry contributes nothing to the rendering.
pub proof fn lemma_render_skips_deleted(ts: Seq<TaskView>, k: int)
    requires
        0 <= k < ts.len(),
        ts[k].deleted,
    ensures
        render_tasks(ts) == render_tasks(ts.remove(k)),
    decreases ts.len(),
{
    if k == ts.len() - 1 {
        assert(ts.remove(k) =~= ts.drop_last());
    } else {
        assert(ts.drop_last()[k] == ts[k]);
        lemma_render_skips_deleted(ts.drop_last(), k);
        assert(ts.remove(k).drop_last() =~= ts.drop_last().remove(k));
        assert(ts.remove(k).last() == ts.last());
        assert(render_tasks(ts.remove(k)) == render_tasks(ts.remove(k).drop_last()) + (if ts.remove(
            k,
        ).last().deleted {
            Seq::<char>::empty()
        } else {
            crate::render::render_line(ts.remove(k).last())
        }));
    }
}

/// Soft-delete hides but never erases: removing an existing id keeps the
/// entry in storage with its id and title, marks it deleted so that the
/// rendering skips it, and a later `done` on the same id still sets its
/// completed flag even though the task stays invisible.
pub proof fn lemma_remove_hides_never_erases(ts: Seq<TaskView>, id: i16)
    requires
        has_id(ts, id),
    ensures
        remove_spec(ts, id).len() == ts.len(),
        remove_spec(ts, id)[first_with_id(ts, id)].id == id,
        remove_spec(ts, id)[first_with_id(ts, id)].title == ts[first_with_id(ts, id)].title,
        remove_spec(ts, id)[first_with_id(ts, id)].deleted,
        render_spec(remove_spec(ts, id)) == render_spec(
            remove_spec(ts, id).remove(first_with_id(ts, id)),
        ),
        done_spec(remove_spec(ts, id), id).len() == ts.len(),
        done_spec(remove_spec(ts, id), id)[first_with_id(ts, id)].completed,
        done_spec(remove_spec(ts, id), id)[first_with_id(ts, id)].deleted,
{
    lemma_first_with_id_props(ts, id);
    let k = first_with_id(ts, id);
    let removed = remove_spec(ts, id);
    assert(forall|i: int| 0 <= i < ts.len() ==> removed[i].id == (#[trigger] ts[i]).id);
    lemma_first_with_id_same_ids(removed, ts, id);
    lemma_render_skips_deleted(removed, k);
    assert(has_id(removed, id)) by {
        assert(removed[k].id == id);
    }
}

/// Removing the same id twice leaves exactly the state one removal leaves.
pub proof fn lemma_remove_idempotent(ts: Seq<TaskView>, id: i16)
    ensures
        remove_spec(remove_spec(ts, id), id) == remove_spec(ts, id),
{
    if has_id(ts, id) {
        lemma_first_with_id_props(ts, id);
        let k = first_with_id(ts, id);
        let once = remove_spec(ts, id);
        assert(forall|i: int| 0 <= i < ts.len() ==> once[i].id == (#[trigger] ts[i]).id);
        lemma_first_with_id_same_ids(once, ts, id);
        assert(has_id(once, id)) by {
            assert(once[k].id == id);
        }
        assert(remove_spec(once, id) =~= once);
    } else {
        lemma_first_with_id_same_ids(remove_spec(ts, id), ts, id);
    }
}

/// Marking the same id done twice leaves exactly the state one marking leaves.
pub proof fn lemma_done_idempotent(ts: Seq<TaskView>, id: i16)
    ensures
        done_spec(done_spec(ts, id), id) == done_spec(ts, id),
{
    if has_id(ts, id) {
        lemma_first_with_id_props(ts, id);
        let k = first_with_id(ts, id);
        let once = done_spec(ts, id);
        assert(forall|i: int| 0 <= i < ts.len() ==> once[i].id == (#[trigger] ts[i]).id);
        lemma_first_with_id_same_ids(once, ts, id);
        assert(has_id(once, id)) by {
            assert(once[k].id == id);
        }
        assert(done_spec(once, id) =~= once);
    } else {
        lemma_first_with_id_same_ids(done_spec(ts, id), ts, id);
    }
}

/// An id no task carries is a no-op for both `remove` and `done`.
pub proof fn lemma_unknown_id_no_op(ts: Seq<TaskView>, id: i16)
    requires
        !has_id(ts, id),
    ensures
        remove_spec(ts, id) == ts,
        done_spec(ts, id) == ts,
{
}

/// A `remove` or `done` whose argument is not a number changes nothing and
/// reports nothing: the iteration only renders the unchanged list.
pub proof fn lemma_bad_argument_no_op(ts: Seq<TaskView>, line: Seq<char>)
    requires
        tokens_of(line).len() >= 2,
        tokens_of(line)[0] == "remove"@ || tokens_of(line)[0] == "done"@,
        parse_i16_spec(tokens_of(line)[1]) is None,
    ensures
        step_spec(ts, line) == ts,
        output_spec(ts, line) == render_spec(ts),
{
    reveal_strlit("add");
    reveal_strlit("remove");
    reveal_strlit("done");
    assert(("add"@).len() == 3);
    assert(("remove"@).len() == 6);
    assert(("done"@).len() == 4);
    assert(tokens_of(line)[0] != "add"@);
}

} // verus!
