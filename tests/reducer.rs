use pomonote::commands::{run, start_todo};
use pomonote::models::todo::{Todo, TodoStatus};
use pomonote::reduce::{dispatch, parse_command, reduce, Action, AppState};
use pomonote::utils::OneOrMany;

fn get_initial_state() -> AppState {
    AppState {
        todos: vec![
            Todo::new(1, "todo 1".to_string()),
            Todo::new(2, "todo 2".to_string()),
            Todo::new(3, "todo 3".to_string())
        ],
        input_buffer: String::new(),
        output_buffer: String::new(),
        should_quit: false,
    }
}

fn empty_state() -> AppState {
    AppState {
        todos: Vec::new(),
        input_buffer: String::new(),
        output_buffer: String::new(),
        should_quit: false,
    }
}

#[test]
fn test_reduce_quit() {
    let mut state = get_initial_state();
    reduce(&mut state, Action::Quit);
    assert!(state.should_quit);
}

#[test]
fn test_reduce_add_todo() {
    let mut state = get_initial_state();
    let todo_text = "new todo";
    reduce(&mut state, Action::AddTodo(todo_text.to_string()));
    assert_eq!(state.todos.len(), 4);
    assert_eq!(state.todos.last().unwrap().description, todo_text);
}

#[test]
fn test_reduce_remove_todo() {
    let mut state = get_initial_state();
    reduce(&mut state, Action::RemoveTodo(2));
    assert_eq!(state.todos.len(), 2);
    assert!(!state.todos.iter().any(|t| t.id == 2));
}

#[test]
fn test_reduce_complete_todo() {
    let mut state = get_initial_state();
    reduce(&mut state, Action::CompleteTodo(1));
    assert_eq!(state.todos[0].status, TodoStatus::Completed);
}

#[test]
fn test_reduce_start_todo() {
    let mut state = get_initial_state();
    reduce(&mut state, Action::StartTodo(1));
    assert_eq!(state.todos[0].status, TodoStatus::InProgress);
}

#[test]
fn test_reduce_stop_todo() {
    let mut state = get_initial_state();
    state.todos[0].status = TodoStatus::InProgress;
    reduce(&mut state, Action::StopTodo(1));
    assert_eq!(state.todos[0].status, TodoStatus::Pending);
}

#[test]
fn test_reduce_toggle_status() {
    let mut state = get_initial_state();
    reduce(&mut state, Action::ToggleStatus(1));
    assert_eq!(state.todos[0].status, TodoStatus::InProgress);
    reduce(&mut state, Action::ToggleStatus(1));
    assert_eq!(state.todos[0].status, TodoStatus::Completed);
}

#[test]
fn test_reduce_update_input() {
    let mut state = get_initial_state();
    let input = "hello";
    reduce(&mut state, Action::UpdateInput(input.to_string()));
    assert_eq!(state.input_buffer, input);
}

#[test]
fn test_reduce_clear_input() {
    let mut state = get_initial_state();
    state.input_buffer = "some text".to_string();
    reduce(&mut state, Action::ClearInput);
    assert!(state.input_buffer.is_empty());
}

#[test]
fn test_reduce_set_output() {
    let mut state = get_initial_state();
    let output = "An error occurred";
    reduce(&mut state, Action::SetOutput(output.to_string()));
    assert_eq!(state.output_buffer, output);
}

#[test]
fn test_parse_command_quit() {
    let action = parse_command("quit");
    assert!(matches!(action, OneOrMany::One(Action::Quit)));
}

#[test]
fn test_parse_command_add() {
    let action = parse_command("add new todo item");
    assert!(matches!(action, OneOrMany::One(Action::AddTodo(s)) if s == "new todo item"));
}

#[test]
fn test_parse_command_remove_multiple() {
    let actions = parse_command("rm 1 3");
    if let OneOrMany::Many(actions) = actions {
        assert_eq!(actions.len(), 2);
        assert!(matches!(actions[0], Action::RemoveTodo(1)));
        assert!(matches!(actions[1], Action::RemoveTodo(3)));
    } else {
        panic!("Expected multiple actions");
    }
}

#[test]
fn test_parse_command_toggle_status_implicit() {
    let actions = parse_command("1 2");
    if let OneOrMany::Many(actions) = actions {
        assert_eq!(actions.len(), 2);
        assert!(matches!(actions[0], Action::ToggleStatus(1)));
        assert!(matches!(actions[1], Action::ToggleStatus(2)));
    } else {
        panic!("Expected multiple actions");
    }
}

#[test]
fn test_parse_command_invalid() {
    let action = parse_command("invalid command");
    assert!(matches!(action, OneOrMany::One(Action::SetOutput(s)) if s == "Invalid command"));
}

#[test]
fn add_assigns_one_above_largest_id() {
    let mut state = get_initial_state();
    state.todos[2].id = 5;
    reduce(&mut state, Action::AddTodo("next".to_string()));
    let added = state.todos.last().unwrap();
    assert_eq!(added.id, 6);
    assert_eq!(added.status, TodoStatus::Pending);
    assert!(added.timer.is_none());
    assert_eq!(state.output_buffer, "Todo added successfully! (ID: 6)");
}

#[test]
fn add_on_empty_list_assigns_one() {
    let mut state = empty_state();
    reduce(&mut state, Action::AddTodo("first".to_string()));
    assert_eq!(state.todos.len(), 1);
    assert_eq!(state.todos[0].id, 1);
    assert_eq!(state.output_buffer, "Todo added successfully! (ID: 1)");
}

#[test]
fn add_when_no_id_is_left_changes_nothing() {
    let mut state = empty_state();
    state.todos.push(Todo::new(u32::MAX, "last".to_string()));
    reduce(&mut state, Action::AddTodo("one more".to_string()));
    assert_eq!(state.todos.len(), 1);
    assert_eq!(state.output_buffer, "No id is left for a new todo.");
}

#[test]
fn remove_present_and_absent_ids() {
    let mut state = get_initial_state();
    reduce(&mut state, Action::RemoveTodo(2));
    assert_eq!(state.output_buffer, "Todo 2 removed successfully!");
    let ids: Vec<u32> = state.todos.iter().map(|t| t.id).collect();
    assert_eq!(ids, vec![1, 3]);
    reduce(&mut state, Action::RemoveTodo(7));
    assert_eq!(state.todos.len(), 2);
    assert_eq!(state.output_buffer, "Todo with ID 7 not found.");
}

#[test]
fn start_attaches_a_fresh_timer() {
    let mut state = get_initial_state();
    reduce(&mut state, Action::StartTodo(2));
    assert_eq!(state.todos[1].status, TodoStatus::InProgress);
    let timer = state.todos[1].timer.as_ref().unwrap();
    let left = timer.remaining_seconds();
    assert!(left >= 1499 && left <= 1500);
    assert_eq!(timer.duration(), 1500);
    assert_eq!(state.output_buffer, "Timer started: 25:00\nFocus for 25 minutes!");
    assert!(state.todos[0].timer.is_none());
}

#[test]
fn start_absent_id_reports_not_found() {
    let mut state = get_initial_state();
    reduce(&mut state, Action::StartTodo(9));
    assert_eq!(state.output_buffer, "Todo with ID 9 not found.");
    assert!(state.todos.iter().all(|t| t.status == TodoStatus::Pending));
}

#[test]
fn stop_and_complete_clear_the_timer() {
    let mut state = get_initial_state();
    reduce(&mut state, Action::StartTodo(1));
    reduce(&mut state, Action::StopTodo(1));
    assert!(state.todos[0].timer.is_none());
    assert_eq!(state.todos[0].status, TodoStatus::Pending);
    assert_eq!(state.output_buffer, "Todo 1 stopped. Timer removed.");
    reduce(&mut state, Action::StartTodo(1));
    reduce(&mut state, Action::CompleteTodo(1));
    assert!(state.todos[0].timer.is_none());
    assert_eq!(state.todos[0].status, TodoStatus::Completed);
    assert_eq!(state.output_buffer, "Todo 1 completed! Great work!");
    reduce(&mut state, Action::StopTodo(4));
    assert_eq!(state.output_buffer, "Todo with ID 4 not found.");
    reduce(&mut state, Action::CompleteTodo(4));
    assert_eq!(state.output_buffer, "Todo with ID 4 not found.");
}

#[test]
fn toggle_cycles_through_three_statuses() {
    let mut state = get_initial_state();
    reduce(&mut state, Action::ToggleStatus(3));
    assert_eq!(state.todos[2].status, TodoStatus::InProgress);
    assert!(state.todos[2].timer.is_some());
    assert_eq!(state.output_buffer, "Timer started: 25:00\nFocus for 25 minutes!");
    reduce(&mut state, Action::ToggleStatus(3));
    assert_eq!(state.todos[2].status, TodoStatus::Completed);
    assert!(state.todos[2].timer.is_none());
    assert_eq!(state.output_buffer, "Todo 3 completed! Great work!");
    reduce(&mut state, Action::ToggleStatus(3));
    assert_eq!(state.todos[2].status, TodoStatus::Pending);
    assert!(state.todos[2].timer.is_none());
    assert_eq!(state.output_buffer, "Todo 3 moved to pending.");
    reduce(&mut state, Action::ToggleStatus(3));
    assert_eq!(state.todos[2].status, TodoStatus::InProgress);
    assert!(state.todos[2].timer.is_some());
}

#[test]
fn toggle_of_absent_id_leaves_output() {
    let mut state = get_initial_state();
    state.output_buffer = "before".to_string();
    reduce(&mut state, Action::ToggleStatus(42));
    assert_eq!(state.output_buffer, "before");
    assert!(state.todos.iter().all(|t| t.status == TodoStatus::Pending));
}

#[test]
fn noop_changes_nothing() {
    let mut state = get_initial_state();
    state.output_buffer = "kept".to_string();
    state.input_buffer = "typed".to_string();
    reduce(&mut state, Action::NoOp);
    assert_eq!(state.output_buffer, "kept");
    assert_eq!(state.input_buffer, "typed");
    assert_eq!(state.todos.len(), 3);
    assert!(!state.should_quit);
}

#[test]
fn batch_output_has_one_line_per_message() {
    let mut state = get_initial_state();
    state.output_buffer = "old".to_string();
    dispatch(&mut state, parse_command("rm 1 9 3"));
    assert_eq!(state.todos.len(), 1);
    assert_eq!(state.todos[0].id, 2);
    assert_eq!(
        state.output_buffer,
        "Todo 1 removed successfully!\nTodo with ID 9 not found.\nTodo 3 removed successfully!"
    );
}

#[test]
fn batch_toggle_skips_absent_ids() {
    let mut state = get_initial_state();
    dispatch(&mut state, parse_command("2 8 1"));
    assert_eq!(state.todos[0].status, TodoStatus::InProgress);
    assert_eq!(state.todos[1].status, TodoStatus::InProgress);
    assert_eq!(state.todos[2].status, TodoStatus::Pending);
    assert_eq!(
        state.output_buffer,
        "Timer started: 25:00\nFocus for 25 minutes!\nTimer started: 25:00\nFocus for 25 minutes!"
    );
}

#[test]
fn single_action_overwrites_output() {
    let mut state = get_initial_state();
    state.output_buffer = "old".to_string();
    dispatch(&mut state, parse_command("done 2"));
    assert_eq!(state.output_buffer, "Todo 2 completed! Great work!");
    assert_eq!(state.todos[1].status, TodoStatus::Completed);
}

#[test]
fn end_to_end_session() {
    let mut state = empty_state();
    for line in ["add task A", "add task B", "start 1", "stop 1", "rm 2"] {
        dispatch(&mut state, parse_command(line));
    }
    assert_eq!(state.todos.len(), 1);
    assert_eq!(state.todos[0].id, 1);
    assert_eq!(state.todos[0].description, "task A");
    assert_eq!(state.todos[0].status, TodoStatus::Pending);
    assert!(state.todos[0].timer.is_none());
    dispatch(&mut state, parse_command("exit"));
    assert!(state.should_quit);
}

#[test]
fn run_appends_below_output() {
    let mut state = get_initial_state();
    state.output_buffer = "first".to_string();
    run(&mut state, 2);
    assert_eq!(state.output_buffer, "first\nTimer started: 25:00\nFocus for 25 minutes!");
    run(&mut state, 2);
    assert_eq!(
        state.output_buffer,
        "first\nTimer started: 25:00\nFocus for 25 minutes!\nTodo 2 completed! Great work!"
    );
    run(&mut state, 5);
    assert_eq!(state.todos[1].status, TodoStatus::Completed);
    assert!(state.output_buffer.ends_with("Great work!"));
}

#[test]
fn start_todo_reports_success_and_absence() {
    let mut todos = vec![Todo::new(4, "write".to_string())];
    let ok = start_todo(&mut todos, 4);
    assert_eq!(
        ok,
        Ok("Todo 4 started successfully!\nTimer started: 25:00\nFocus for 25 minutes!".to_string())
    );
    assert_eq!(todos[0].status, TodoStatus::InProgress);
    assert!(todos[0].timer.is_some());
    let err = start_todo(&mut todos, 5);
    assert_eq!(err, Err("Todo with ID 5 not found.".to_string()));
}
