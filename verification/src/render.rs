use vstd::prelude::*;
use vstd::string::StringExecFns;
use crate::numfmt::{dec_int, i16_to_string};
use crate::task::{TaskView, Todo};

verus! {

/// The header written before the tasks.
pub open spec fn header_text() -> Seq<char> {
    "\n\nTodo List:\n — — — — — — — — — -\n"@
}

/// The line rendered for one task: a checkbox marker, the id and the title.
pub open spec fn render_line(t: TaskView) -> Seq<char> {
    seq!['['] + (if t.completed {
        seq!['✔']
    } else {
        seq![' ']
    }) + seq![']', ' '] + dec_int(t.id as int) + seq![' '] + t.title + seq!['\n']
}

/// The rendered lines of the non-deleted tasks, in insertion order.
pub open spec fn render_tasks(ts: Seq<TaskView>) -> Seq<char>
    decreases ts.len(),
{
    if ts.len() == 0 {
        Seq::empty()
    } else {
        render_tasks(ts.drop_last()) + (if ts.last().deleted {
            Seq::<char>::empty()
        } else {
            render_line(ts.last())
        })
    }
}

/// Everything one rendering writes: the header, then one line per visible
/// task.
pub open spec fn render_spec(ts: Seq<TaskView>) -> Seq<char> {
    header_text() + render_tasks(ts)
}

/// Render the list: a header, then one line per non-deleted task in
/// insertion order.  Deleted tasks are skipped, never shown.
#[verifier::loop_isolation(false)]
pub fn render_todos(todos: &Vec<Todo>) -> (r: String)
    ensures
        r@ == render_spec(todos.deep_view()),
{
    let ghost ts = todos.deep_view();
    let mut out = String::new();
    out.append("\n\nTodo List:\n — — — — — — — — — -\n");
    proof {
        assert(out@ =~= header_text() + render_tasks(ts.take(0)));
    }
    let n: usize = todos.len();
    let mut i: usize = 0;
    while i < n
        invariant
            i <= n,
            out@ == header_text() + render_tasks(ts.take(i as int)),
        decreases n - i,
    {
        proof {
            assert(ts[i as int] == todos@[i as int]@);
        }
        let t = &todos[i];
        if !t.deleted {
            proof {
                reveal_strlit("[");
                reveal_strlit("✔");
                reveal_strlit(" ");
                reveal_strlit("] ");
                reveal_strlit("\n");
            }
            out.append("[");
            if t.completed {
                out.append("✔");
            } else {
                out.append(" ");
            }
            out.append("] ");
            let ids: String = i16_to_string(t.id);
            out.append(ids.as_str());
            out.append(" ");
            out.append(t.title.as_str());
            out.append("\n");
        }
        proof {
            assert(ts.take(i + 1).drop_last() =~= ts.take(i as int));
            assert(ts.take(i + 1).last() == ts[i as int]);
            assert(out@ =~= header_text() + render_tasks(ts.take(i + 1)));
        }
        i = i + 1;
    }
    proof {
        assert(ts.take(n as int) =~= ts);
    }
    out
}

} // verus!
