use vstd::prelude::*;
use vstd::string::StringExecFns;
use crate::numparse::{parse_i16, parse_i16_spec};
use crate::ops::{add_spec, add_todo, done_spec, mark_done, remove_spec, remove_todo};
use crate::render::{render_spec, render_todos};
use crate::task::{TaskView, Todo};
use crate::tokenize::{tokenize, tokens_of};

verus! {

/// `parts` joined with single spaces: the title an `add` command names.
pub open spec fn join_spec(parts: Seq<Seq<char>>) -> Seq<char>
    decreases parts.len(),
{
    if parts.len() == 0 {
        Seq::empty()
    } else if parts.len() == 1 {
        parts[0]
    } else {
        join_spec(parts.drop_last()) + seq![' '] + parts.last()
    }
}

/// The message reported for an unrecognized command: the raw line, echoed.
pub open spec fn invalid_text(line: Seq<char>) -> Seq<char> {
    "Invalid command: "@ + line + seq!['\n']
}

/// How one input line changes the list.  Only `add`, `remove` and `done`
/// with at least one argument mutate; every other line leaves it unchanged.
/// A `remove` or `done` whose argument does not parse as an `i16` is a
/// silent no-op.
pub open spec fn step_spec(ts: Seq<TaskView>, line: Seq<char>) -> Seq<TaskView> {
    let toks = tokens_of(line);
    if toks.len() >= 2 && toks[0] == "add"@ {
        add_spec(ts, join_spec(toks.skip(1)))
    } else if toks.len() >= 2 && toks[0] == "remove"@ {
        match parse_i16_spec(toks[1]) {
            Some(id) => remove_spec(ts, id),
            None => ts,
        }
    } else if toks.len() >= 2 && toks[0] == "done"@ {
        match parse_i16_spec(toks[1]) {
            Some(id) => done_spec(ts, id),
            None => ts,
        }
    } else {
        ts
    }
}

/// Everything one iteration prints.  `list` renders twice (once for the
/// command, once for the unconditional render at the end of the iteration);
/// a recognized mutation renders the changed list; an unrecognized command
/// reports itself and renders the unchanged list.
pub open spec fn output_spec(ts: Seq<TaskView>, line: Seq<char>) -> Seq<char> {
    let toks = tokens_of(line);
    if toks.len() == 1 && toks[0] == "list"@ {
        render_spec(ts) + render_spec(ts)
    } else if toks.len() >= 2 && (toks[0] == "add"@ || toks[0] == "remove"@ || toks[0]
        == "done"@) {
        render_spec(step_spec(ts, line))
    } else {
        invalid_text(line) + render_spec(ts)
    }
}

/// Join `parts[from..]` with single spaces.
#[verifier::loop_isolation(false)]
pub fn join_tokens(parts: &Vec<String>, from: usize) -> (r: String)
    requires
        from <= parts@.len(),
    ensures
        r@ == join_spec(parts.deep_view().skip(from as int)),
{
    let ghost pv = parts.deep_view();
    let n: usize = parts.len();
    let mut out = String::new();
    if from == n {
        proof {
            assert(pv.skip(from as int) =~= Seq::<Seq<char>>::empty());
            assert(out@ =~= join_spec(pv.skip(from as int)));
        }
        return out;
    }
    let head: &String = &parts[from];
    out.append(head.as_str());
    proof {
        assert(pv[from as int] == parts@[from as int]@);
        assert(pv.subrange(from as int, from + 1).len() == 1);
        assert(pv.subrange(from as int, from + 1)[0] == pv[from as int]);
        assert(out@ =~= join_spec(pv.subrange(from as int, from + 1)));
    }
    let mut k: usize = from + 1;
    while k < n
        invariant
            from < k <= n,
            out@ == join_spec(pv.subrange(from as int, k as int)),
        decreases n - k,
    {
        proof {
            reveal_strlit(" ");
        }
        out.append(" ");
        let p: &String = &parts[k];
        out.append(p.as_str());
        proof {
            let pre = pv.subrange(from as int, k as int);
            let ext = pv.subrange(from as int, k + 1);
            assert(ext.drop_last() =~= pre);
            assert(ext.last() == pv[k as int]);
            assert(pv[k as int] == parts@[k as int]@);
            assert(out@ =~= join_spec(ext));
        }
        k = k + 1;
    }
    proof {
        assert(pv.subrange(from as int, n as int) =~= pv.skip(from as int));
    }
    out
}

/// The report for an unrecognized command followed by the rendered list.
fn invalid_output(todos: &Vec<Todo>, line: &str) -> (out: String)
    ensures
        out@ == invalid_text(line@) + render_spec(todos.deep_view()),
{
    let mut out = String::from_str("Invalid command: ");
    out.append(line);
    proof {
        reveal_strlit("\n");
    }
    out.append("\n");
    let rendered: String = render_todos(todos);
    out.append(rendered.as_str());
    proof {
        assert(out@ =~= invalid_text(line@) + render_spec(todos.deep_view()));
    }
    out
}

/// Process one input line exactly as one iteration of the interactive loop:
/// tokenize it, dispatch on the first token, mutate the list, and return
/// everything the iteration prints.  An `add` hands out the storage length
/// plus one as an `i16` id, so on an `add` line the list must have room for
/// one more id; every other command works at any size.
pub fn execute_line(todos: &mut Vec<Todo>, line: &str) -> (out: String)
    requires
        tokens_of(line@).len() >= 2 && tokens_of(line@)[0] == "add"@ ==> old(todos)@.len()
            < 32767,
    ensures
        final(todos).deep_view() == step_spec(old(todos).deep_view(), line@),
        out@ == output_spec(old(todos).deep_view(), line@),
{
    let ghost ts0 = old(todos).deep_view();
    let toks: Vec<String> = tokenize(line);
    let ghost tv = tokens_of(line@);
    if toks.len() == 0 {
        return invalid_output(todos, line);
    }
    proof {
        assert(tv[0] == toks@[0]@);
    }
    let first: &String = &toks[0];
    if toks.len() == 1 {
        let word_list = String::from_str("list");
        if first.eq(&word_list) {
            let mut out = render_todos(todos);
            let again: String = render_todos(todos);
            out.append(again.as_str());
            return out;
        } else {
            return invalid_output(todos, line);
        }
    }
    proof {
        assert(tv[1] == toks@[1]@);
    }
    let word_add = String::from_str("add");
    let word_remove = String::from_str("remove");
    let word_done = String::from_str("done");
    if first.eq(&word_add) {
        let title: String = join_tokens(&toks, 1);
        proof {
            assert(toks.deep_view().skip(1) =~= tv.skip(1));
            assert(tv.len() >= 2 && tv[0] == "add"@);
        }
        add_todo(todos, title.as_str());
        render_todos(todos)
    } else if first.eq(&word_remove) {
        let second: &String = &toks[1];
        match parse_i16(second.as_str()) {
            Some(id) => remove_todo(todos, id),
            None => (),
        }
        render_todos(todos)
    } else if first.eq(&word_done) {
        let second: &String = &toks[1];
        match parse_i16(second.as_str()) {
            Some(id) => mark_done(todos, id),
            None => (),
        }
        render_todos(todos)
    } else {
        invalid_output(todos, line)
    }
}

} // verus!
