use vstd::prelude::*;
use vstd::string::StringExecFns;
use crate::models::todo::{largest_id, max_id, Todo, TodoStatus};
use crate::reduce::{
    added_msg, append_line, apply, completed_msg, find_first, id_message, message_of,
    no_id_left_msg, not_found_msg, position, push_line, removed_msg, settle, start_message,
    started_msg, stepped_but_output, stopped_msg, todos_stepped, Action, ActionView, AppState,
};
use crate::text::decimal;

verus! {

/// Marks the task with this id In Progress with a freshly started timer, and returns
/// what to tell the user; an absent id is an error that changes nothing.
pub fn start_todo(todos: &mut Vec<Todo>, id: u32) -> (r: Result<String, String>)
    ensures
        todos_stepped(old(todos)@, ActionView::StartTodo(id), final(todos)@),
        r is Ok <==> find_first(old(todos)@, id) is Some,
        match r {
            Ok(s) => s@ == "Todo "@ + decimal(id as nat) + " started successfully!\n"@
                + started_msg(),
            Err(e) => e@ == not_found_msg(id),
        },
{
    match position(todos, id) {
        Some(i) => {
            settle(todos, i, TodoStatus::InProgress);
            let mut s = id_message("Todo ", id, " started successfully!\n");
            s.append(start_message().as_str());
            Ok(s)
        },
        None => Err(id_message("Todo with ID ", id, " not found.")),
    }
}

/// Moves the task with this id one step along Pending, In Progress, Completed and
/// back to Pending, and adds what happened below the output line. An absent id
/// changes nothing.
pub fn run(state: &mut AppState, id: u32)
    ensures
        stepped_but_output(*old(state), ActionView::ToggleStatus(id), *final(state)),
        final(state).output_buffer@ == match message_of(
            old(state).todos@,
            ActionView::ToggleStatus(id),
        ) {
            Some(m) => append_line(old(state).output_buffer@, m),
            None => old(state).output_buffer@,
        },
{
    if let Some(m) = apply(state, Action::ToggleStatus(id)) {
        push_line(&mut state.output_buffer, m.as_str());
    }
}

/// Appends a new pending task, with the id one above the largest, and returns what to
/// tell the user. Where no id is left the list stays as it was and the message says
/// so.
pub fn add_todo(todos: &mut Vec<Todo>, description: String) -> (r: Result<String, String>)
    ensures
        todos_stepped(old(todos)@, ActionView::AddTodo(description@), final(todos)@),
        r is Ok,
        match r {
            Ok(s) => s@ == if max_id(old(todos)@) < u32::MAX {
                added_msg(max_id(old(todos)@) + 1)
            } else {
                no_id_left_msg()
            },
            Err(_) => false,
        },
{
    let m = largest_id(todos);
    if m < u32::MAX {
        let id = m + 1;
        let ghost pre = todos@;
        todos.push(Todo::new(id, description));
        assert(todos@.drop_last() == pre);
        Ok(id_message("Todo added successfully! (ID: ", id, ")"))
    } else {
        Ok(String::from_str("No id is left for a new todo."))
    }
}

/// Removes the first task with this id and returns what to tell the user. An absent
/// id changes nothing and is reported in the message, never as a failure.
pub fn remove_todo(todos: &mut Vec<Todo>, id: u32) -> (r: Result<String, String>)
    ensures
        todos_stepped(old(todos)@, ActionView::RemoveTodo(id), final(todos)@),
        r is Ok,
        match r {
            Ok(s) => s@ == if find_first(old(todos)@, id) is Some {
                removed_msg(id)
            } else {
                not_found_msg(id)
            },
            Err(_) => false,
        },
{
    match position(todos, id) {
        Some(i) => {
            todos.remove(i);
            Ok(id_message("Todo ", id, " removed successfully!"))
        },
        None => Ok(id_message("Todo with ID ", id, " not found.")),
    }
}

/// Marks the task with this id Completed and drops its timer, and returns what to
/// tell the user. An absent id changes nothing and is reported in the message, never
/// as a failure.
pub fn complete_todo(todos: &mut Vec<Todo>, id: u32) -> (r: Result<String, String>)
    ensures
        todos_stepped(old(todos)@, ActionView::CompleteTodo(id), final(todos)@),
        r is Ok,
        match r {
            Ok(s) => s@ == if find_first(old(todos)@, id) is Some {
                completed_msg(id)
            } else {
                not_found_msg(id)
            },
            Err(_) => false,
        },
{
    match position(todos, id) {
        Some(i) => {
            settle(todos, i, TodoStatus::Completed);
            Ok(id_message("Todo ", id, " completed! Great work!"))
        },
        None => Ok(id_message("Todo with ID ", id, " not found.")),
    }
}

/// Puts the task with this id back to Pending and drops its timer, and returns what
/// to tell the user. An absent id changes nothing and is reported in the message,
/// never as a failure.
pub fn stop_todo(todos: &mut Vec<Todo>, id: u32) -> (r: Result<String, String>)
    ensures
        todos_stepped(old(todos)@, ActionView::StopTodo(id), final(todos)@),
        r is Ok,
        match r {
            Ok(s) => s@ == if find_first(old(todos)@, id) is Some {
                stopped_msg(id)
            } else {
                not_found_msg(id)
            },
            Err(_) => false,
        },
{
    match position(todos, id) {
        Some(i) => {
            settle(todos, i, TodoStatus::Pending);
            Ok(id_message("Todo ", id, " stopped. Timer removed."))
        },
        None => Ok(id_message("Todo with ID ", id, " not found.")),
    }
}

/// A starter list of three pending tasks, with ids 1 to 3.
pub fn get_todos() -> (r: Vec<Todo>)
    ensures
        r@.len() == 3,
        r@[0].description@ == "Complete Rust CLI project"@,
        r@[1].description@ == "Add data persistence"@,
        r@[2].description@ == "Write tests"@,
        forall|i: int|
            0 <= i < 3 ==> {
                &&& #[trigger] r@[i].id == i + 1
                &&& r@[i].status == TodoStatus::Pending
                &&& r@[i].timer is None
            },
{
    let mut r: Vec<Todo> = Vec::new();
    r.push(Todo::new(1, String::from_str("Complete Rust CLI project")));
    r.push(Todo::new(2, String::from_str("Add data persistence")));
    r.push(Todo::new(3, String::from_str("Write tests")));
    r
}

} // verus!
