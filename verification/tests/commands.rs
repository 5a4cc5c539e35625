use todo_list::command::execute_line;
use todo_list::ops::{add_todo, mark_done, remove_todo};
use todo_list::render::render_todos;
use todo_list::task::Todo;

const HEADER: &str = "\n\nTodo List:\n — — — — — — — — — -\n";

#[test]
fn end_to_end_scenario() {
    let mut todos: Vec<Todo> = Vec::new();

    let out = execute_line(&mut todos, "add Buy milk");
    assert_eq!(out, format!("{}[ ] 1 Buy milk\n", HEADER));

    let out = execute_line(&mut todos, "add Walk dog");
    assert_eq!(out, format!("{}[ ] 1 Buy milk\n[ ] 2 Walk dog\n", HEADER));

    let out = execute_line(&mut todos, "done 1");
    assert_eq!(out, format!("{}[✔] 1 Buy milk\n[ ] 2 Walk dog\n", HEADER));

    let out = execute_line(&mut todos, "remove 2");
    assert_eq!(out, format!("{}[✔] 1 Buy milk\n", HEADER));

    let out = execute_line(&mut todos, "list");
    assert_eq!(
        out,
        format!("{}[✔] 1 Buy milk\n{}[✔] 1 Buy milk\n", HEADER, HEADER)
    );

    let out = execute_line(&mut todos, "foo bar");
    assert_eq!(out, format!("Invalid command: foo bar\n{}[✔] 1 Buy milk\n", HEADER));
}

#[test]
fn add_assigns_monotonic_ids() {
    let mut todos: Vec<Todo> = Vec::new();
    execute_line(&mut todos, "add first");
    execute_line(&mut todos, "remove 1");
    execute_line(&mut todos, "add second");
    execute_line(&mut todos, "done 2");
    execute_line(&mut todos, "add third");
    assert_eq!(todos.len(), 3);
    assert_eq!(todos[0].id, 1);
    assert_eq!(todos[1].id, 2);
    assert_eq!(todos[2].id, 3);
    assert_eq!(todos[0].title, "first");
    assert_eq!(todos[1].title, "second");
    assert_eq!(todos[2].title, "third");
}

#[test]
fn soft_delete_hides_but_never_erases() {
    let mut todos: Vec<Todo> = Vec::new();
    execute_line(&mut todos, "add hidden");
    let out = execute_line(&mut todos, "remove 1");
    assert_eq!(out, format!("{}", HEADER));
    // The entry is still in storage, and `done` still mutates it.
    assert_eq!(todos.len(), 1);
    assert!(todos[0].deleted);
    assert!(!todos[0].completed);
    let out = execute_line(&mut todos, "done 1");
    assert_eq!(out, format!("{}", HEADER));
    assert!(todos[0].completed);
    assert!(todos[0].deleted);
}

#[test]
fn done_is_idempotent() {
    let mut todos: Vec<Todo> = Vec::new();
    execute_line(&mut todos, "add task");
    let once = execute_line(&mut todos, "done 1");
    let twice = execute_line(&mut todos, "done 1");
    assert_eq!(once, twice);
    assert_eq!(once, format!("{}[✔] 1 task\n", HEADER));
}

#[test]
fn remove_is_idempotent() {
    let mut todos: Vec<Todo> = Vec::new();
    execute_line(&mut todos, "add task");
    let once = execute_line(&mut todos, "remove 1");
    let twice = execute_line(&mut todos, "remove 1");
    assert_eq!(once, twice);
    assert_eq!(once, format!("{}", HEADER));
}

#[test]
fn unknown_id_is_a_no_op() {
    let mut todos: Vec<Todo> = Vec::new();
    execute_line(&mut todos, "add keep me");
    let out = execute_line(&mut todos, "remove 9999");
    assert_eq!(out, format!("{}[ ] 1 keep me\n", HEADER));
    let out = execute_line(&mut todos, "done 9999");
    assert_eq!(out, format!("{}[ ] 1 keep me\n", HEADER));
    assert!(!todos[0].deleted);
    assert!(!todos[0].completed);
}

#[test]
fn invalid_argument_is_a_silent_no_op() {
    let mut todos: Vec<Todo> = Vec::new();
    execute_line(&mut todos, "add keep me");
    // Non-numeric arguments produce no error output, only the render.
    let out = execute_line(&mut todos, "remove abc");
    assert_eq!(out, format!("{}[ ] 1 keep me\n", HEADER));
    let out = execute_line(&mut todos, "done abc");
    assert_eq!(out, format!("{}[ ] 1 keep me\n", HEADER));
    // An id that overflows i16 fails to parse and is ignored the same way.
    let out = execute_line(&mut todos, "done 32768");
    assert_eq!(out, format!("{}[ ] 1 keep me\n", HEADER));
    assert!(!todos[0].deleted);
    assert!(!todos[0].completed);
}

#[test]
fn empty_and_unrecognized_lines_are_reported() {
    let mut todos: Vec<Todo> = Vec::new();
    let out = execute_line(&mut todos, "");
    assert_eq!(out, format!("Invalid command: \n{}", HEADER));
    let out = execute_line(&mut todos, "   \t  ");
    assert_eq!(out, format!("Invalid command:    \t  \n{}", HEADER));
    let out = execute_line(&mut todos, "lst");
    assert_eq!(out, format!("Invalid command: lst\n{}", HEADER));
    let out = execute_line(&mut todos, "list extra");
    assert_eq!(out, format!("Invalid command: list extra\n{}", HEADER));
    // A bare `add` has no argument tokens and is not a recognized command.
    let out = execute_line(&mut todos, "add");
    assert_eq!(out, format!("Invalid command: add\n{}", HEADER));
    assert_eq!(todos.len(), 0);
}

#[test]
fn add_joins_title_words_with_single_spaces() {
    let mut todos: Vec<Todo> = Vec::new();
    let out = execute_line(&mut todos, "add   spaced \t words   here ");
    assert_eq!(out, format!("{}[ ] 1 spaced words here\n", HEADER));
    assert_eq!(todos[0].title, "spaced words here");
}

#[test]
fn signed_ids_parse_like_rust_integers() {
    let mut todos: Vec<Todo> = Vec::new();
    execute_line(&mut todos, "add task");
    let out = execute_line(&mut todos, "done +1");
    assert_eq!(out, format!("{}[✔] 1 task\n", HEADER));
}

#[test]
fn direct_operations_match_the_loop() {
    let mut todos: Vec<Todo> = Vec::new();
    add_todo(&mut todos, "");
    assert_eq!(render_todos(&todos), format!("{}[ ] 1 \n", HEADER));
    add_todo(&mut todos, "second");
    mark_done(&mut todos, 2);
    remove_todo(&mut todos, 1);
    assert_eq!(render_todos(&todos), format!("{}[✔] 2 second\n", HEADER));
}

#[test]
fn full_list_still_serves_other_commands() {
    // Fill the list to the last id an i16 can hold; `list`, `remove` and
    // `done` still work there, only another add would need a fresh id.
    let mut todos: Vec<Todo> = Vec::new();
    for _ in 0..i16::MAX {
        add_todo(&mut todos, "t");
    }
    assert_eq!(todos.len(), 32767);
    assert_eq!(todos[32766].id, 32767);
    let out = execute_line(&mut todos, "done 32767");
    assert!(todos[32766].completed);
    assert!(out.ends_with("[✔] 32767 t\n"));
    execute_line(&mut todos, "remove 1");
    assert!(todos[0].deleted);
    assert_eq!(todos.len(), 32767);
}
