use vstd::prelude::*;

verus! {

/// One todo entry.  Entries are only ever appended to the list: `remove`
/// merely sets `deleted` (the entry stays in storage, hidden from the
/// rendering) and `done` sets `completed`.
pub struct Todo {
    pub id: i16,
    pub title: String,
    pub completed: bool,
    pub deleted: bool,
}

/// The mathematical content of a `Todo`: the id and flags as plain values and
/// the title as a sequence of characters.
pub ghost struct TaskView {
    pub id: i16,
    pub title: Seq<char>,
    pub completed: bool,
    pub deleted: bool,
}

impl View for Todo {
    type V = TaskView;

    open spec fn view(&self) -> TaskView {
        TaskView {
            id: self.id,
            title: self.title@,
            completed: self.completed,
            deleted: self.deleted,
        }
    }
}

impl DeepView for Todo {
    type V = TaskView;

    open spec fn deep_view(&self) -> TaskView {
        self@
    }
}

} // verus!
