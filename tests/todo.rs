use pomonote::cli::Commands;
use pomonote::models::timer::Timer;
use pomonote::models::todo::{Todo, TodoStatus};
use pomonote::reduce::Action;

#[test]
fn test_todo_new() {
    let todo = Todo::new(1, "Test task".to_string());
    assert_eq!(todo.id, 1);
    assert_eq!(todo.description, "Test task");
    assert!(matches!(todo.status, TodoStatus::Pending));
    assert!(todo.timer.is_none());
}

#[test]
fn test_todo_status_display() {
    assert_eq!(TodoStatus::Pending.to_string(), "Pending");
    assert_eq!(TodoStatus::InProgress.to_string(), "In Progress");
    assert_eq!(TodoStatus::Completed.to_string(), "Completed");
}

#[test]
fn test_next_id_empty_list() {
    let todos: Vec<Todo> = Vec::new();
    assert_eq!(Todo::next_id(&todos), 1);
}

#[test]
fn test_next_id_with_todos() {
    let todos = vec![
        Todo::new(1, "First".to_string()),
        Todo::new(2, "Second".to_string()),
        Todo::new(5, "Third".to_string())
    ];
    assert_eq!(Todo::next_id(&todos), 6);
}

#[test]
fn test_todo_with_timer() {
    let mut todo = Todo::new(1, "Test".to_string());
    let mut timer = Timer::new();
    timer.start();
    todo.timer = Some(timer);

    assert!(todo.timer.is_some());
    assert!(todo.timer.as_ref().unwrap().remaining_seconds() <= 1500);
}

#[test]
fn test_empty_todo_description() {
    let todo = Todo::new(1, "".to_string());
    assert_eq!(todo.description, "");
}

#[test]
fn test_todo_with_special_characters() {
    let desc = "Test with ç‰¹æ®Šå­—ç¬¦ and Ã©mojis ðŸš€";
    let todo = Todo::new(1, desc.to_string());
    assert_eq!(todo.description, desc);
}

#[test]
fn test_todo_with_multiline_description() {
    let desc = "Line 1\nLine 2\nLine 3";
    let todo = Todo::new(1, desc.to_string());
    assert_eq!(todo.description, desc);
}

#[test]
fn test_very_long_todo_description() {
    let desc = "a".repeat(1000);
    let todo = Todo::new(1, desc.clone());
    assert_eq!(todo.description.len(), 1000);
}

#[test]
fn test_large_todo_id() {
    let todo = Todo::new(u32::MAX, "Test".to_string());
    assert_eq!(todo.id, u32::MAX);
}

#[test]
fn test_timer_immediately_after_start() {
    let mut timer = Timer::new();
    timer.start();
    let remaining = timer.remaining_seconds();
    assert!(remaining >= 1499 && remaining <= 1500);
}

#[test]
fn test_todo_lifecycle() {
    let mut todo = Todo::new(1, "Write tests".to_string());
    assert!(matches!(todo.status, TodoStatus::Pending));

    todo.status = TodoStatus::InProgress;
    let mut timer = Timer::new();
    timer.start();
    todo.timer = Some(timer);
    assert!(matches!(todo.status, TodoStatus::InProgress));
    assert!(todo.timer.is_some());

    todo.status = TodoStatus::Completed;
    todo.timer = None;
    assert!(matches!(todo.status, TodoStatus::Completed));
    assert!(todo.timer.is_none());
}

#[test]
fn test_multiple_todos_workflow() {
    let mut todos = vec![
        Todo::new(1, "Task 1".to_string()),
        Todo::new(2, "Task 2".to_string()),
        Todo::new(3, "Task 3".to_string())
    ];

    todos[1].status = TodoStatus::InProgress;
    let mut timer = Timer::new();
    timer.start();
    todos[1].timer = Some(timer);

    assert!(matches!(todos[0].status, TodoStatus::Pending));
    assert!(matches!(todos[1].status, TodoStatus::InProgress));
    assert!(matches!(todos[2].status, TodoStatus::Pending));

    assert!(todos[0].timer.is_none());
    assert!(todos[1].timer.is_some());
    assert!(todos[2].timer.is_none());

    todos[1].status = TodoStatus::Completed;
    todos[1].timer = None;

    assert!(matches!(todos[1].status, TodoStatus::Completed));
    assert!(todos[1].timer.is_none());
}

#[test]
fn restore_instants_keeps_saved_values() {
    let mut todos = vec![
        Todo::new(1, "a".to_string()),
        Todo::new(2, "b".to_string()),
    ];
    todos[1].status = TodoStatus::InProgress;
    todos[1].timer = Some(Timer::from_saved(Some(1)));
    Todo::restore_instants(&mut todos);
    assert!(todos[0].timer.is_none());
    let t = todos[1].timer.as_ref().unwrap();
    assert_eq!(t.start_timestamp(), Some(1));
    assert_eq!(t.duration(), 1500);
    assert_eq!(t.remaining_seconds(), 0);
}

#[test]
fn cli_commands_become_actions() {
    let a = Commands::Add { description: "plan".to_string() }.into_action();
    assert!(matches!(a, Action::AddTodo(s) if s == "plan"));
    assert!(matches!(Commands::Remove { id: 3 }.into_action(), Action::RemoveTodo(3)));
    assert!(matches!(Commands::Start { id: 4 }.into_action(), Action::StartTodo(4)));
}

#[test]
fn restore_instants_at_carries_time_spent() {
    let now = std::time::SystemTime::now()
        .duration_since(std::time::UNIX_EPOCH)
        .unwrap()
        .as_secs();
    let mut todos = vec![Todo::new(1, "a".to_string()), Todo::new(2, "b".to_string())];
    todos[0].status = TodoStatus::InProgress;
    todos[0].timer = Some(Timer::from_saved(Some(now - 60)));
    Todo::restore_instants_at(&mut todos, now);
    let left = todos[0].timer.as_ref().unwrap().remaining_seconds();
    assert!(left >= 1439 && left <= 1440);
    assert_eq!(todos[0].id, 1);
    assert_eq!(todos[0].status, TodoStatus::InProgress);
    assert!(todos[1].timer.is_none());
}
