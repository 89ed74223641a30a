use pomonote::commands::{add_todo, complete_todo, get_todos, remove_todo, stop_todo};
use pomonote::models::timer::Timer;
use pomonote::models::todo::{Todo, TodoStatus};
use pomonote::view::{row_height, status_color, timer_text, StatusColor};

#[test]
fn add_todo_reports_new_id() {
    let mut todos = get_todos();
    assert_eq!(add_todo(&mut todos, "four".to_string()), Ok("Todo added successfully! (ID: 4)".to_string()));
    assert_eq!(todos.len(), 4);
    assert_eq!(todos[3].id, 4);
    assert_eq!(todos[3].description, "four");
    let mut full = vec![Todo::new(u32::MAX, "last".to_string())];
    assert_eq!(add_todo(&mut full, "x".to_string()), Ok("No id is left for a new todo.".to_string()));
    assert_eq!(full.len(), 1);
}

#[test]
fn remove_todo_reports_outcome() {
    let mut todos = get_todos();
    assert_eq!(remove_todo(&mut todos, 2), Ok("Todo 2 removed successfully!".to_string()));
    assert_eq!(todos.iter().map(|t| t.id).collect::<Vec<_>>(), vec![1, 3]);
    assert_eq!(remove_todo(&mut todos, 2), Ok("Todo with ID 2 not found.".to_string()));
    assert_eq!(todos.len(), 2);
}

#[test]
fn complete_and_stop_report_outcome() {
    let mut todos = get_todos();
    todos[0].status = TodoStatus::InProgress;
    todos[0].timer = Some(Timer::new());
    assert_eq!(complete_todo(&mut todos, 1), Ok("Todo 1 completed! Great work!".to_string()));
    assert_eq!(todos[0].status, TodoStatus::Completed);
    assert!(todos[0].timer.is_none());
    assert_eq!(stop_todo(&mut todos, 1), Ok("Todo 1 stopped. Timer removed.".to_string()));
    assert_eq!(todos[0].status, TodoStatus::Pending);
    assert_eq!(complete_todo(&mut todos, 8), Ok("Todo with ID 8 not found.".to_string()));
    assert_eq!(stop_todo(&mut todos, 8), Ok("Todo with ID 8 not found.".to_string()));
}

#[test]
fn starter_list_has_three_pending_tasks() {
    let todos = get_todos();
    assert_eq!(todos.len(), 3);
    assert_eq!(todos[0].description, "Complete Rust CLI project");
    assert_eq!(todos[1].description, "Add data persistence");
    assert_eq!(todos[2].description, "Write tests");
    for (i, t) in todos.iter().enumerate() {
        assert_eq!(t.id as usize, i + 1);
        assert_eq!(t.status, TodoStatus::Pending);
        assert!(t.timer.is_none());
    }
}

#[test]
fn cells_show_status_colour_and_timer() {
    assert_eq!(status_color(TodoStatus::Pending), StatusColor::Yellow);
    assert_eq!(status_color(TodoStatus::InProgress), StatusColor::Cyan);
    assert_eq!(status_color(TodoStatus::Completed), StatusColor::Green);
    assert_eq!(timer_text(&None), "--:--");
    assert_eq!(timer_text(&Some(Timer::new())), "25:00");
    assert_eq!(timer_text(&Some(Timer::default())), "25:00");
}

#[test]
fn row_height_counts_line_breaks() {
    assert_eq!(row_height(""), 1);
    assert_eq!(row_height("one line"), 1);
    assert_eq!(row_height("a\nb"), 1);
    assert_eq!(row_height("Line 1\nLine 2\nLine 3"), 2);
    assert_eq!(row_height("\n\n\n\n"), 4);
}
