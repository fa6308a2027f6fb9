use donetick_tui::app::{App, ViewState};
use donetick_tui::task::{Chore, ChoreStatus};

fn chore(id: i64, name: &str) -> Chore {
    Chore {
        id,
        name: name.to_string(),
        next_due_date: None,
        status: None,
        priority: None,
    }
}

fn app_with_tasks(n: i64) -> App {
    let mut app = App::new();
    let mut tasks = Vec::new();
    let mut i: i64 = 0;
    while i < n {
        tasks.push(chore(i, &format!("task {}", i)));
        i += 1;
    }
    app.load_tasks(tasks);
    app
}

#[test]
fn new_app_initial_state() {
    let app = App::new();
    assert!(app.running);
    assert_eq!(app.view, ViewState::TaskList);
    assert!(app.tasks.is_empty());
    assert_eq!(app.selected_task, 0);
    assert!(app.loading);
    assert!(app.error_message.is_none());
}

#[test]
fn next_full_cycle_returns_to_start() {
    let mut app = app_with_tasks(3);
    assert_eq!(app.selected_task, 0);
    app.next_task();
    assert_eq!(app.selected_task, 1);
    app.next_task();
    assert_eq!(app.selected_task, 2);
    app.next_task();
    assert_eq!(app.selected_task, 0);
}

#[test]
fn previous_full_cycle_returns_to_start() {
    let mut app = app_with_tasks(3);
    app.previous_task();
    assert_eq!(app.selected_task, 2);
    app.previous_task();
    assert_eq!(app.selected_task, 1);
    app.previous_task();
    assert_eq!(app.selected_task, 0);
}

#[test]
fn next_on_empty_keeps_selection_at_zero() {
    let mut app = App::new();
    app.next_task();
    assert_eq!(app.selected_task, 0);
    app.next_task();
    assert_eq!(app.selected_task, 0);
}

#[test]
fn previous_on_empty_keeps_selection_at_zero() {
    let mut app = App::new();
    app.previous_task();
    assert_eq!(app.selected_task, 0);
}

#[test]
fn load_shorter_collection_resets_selection() {
    let mut app = app_with_tasks(3);
    app.next_task();
    app.next_task();
    assert_eq!(app.selected_task, 2);
    app.load_tasks(vec![chore(10, "only"), chore(11, "two")]);
    assert_eq!(app.selected_task, 0);
}

#[test]
fn load_empty_collection_resets_selection() {
    let mut app = app_with_tasks(3);
    app.next_task();
    assert_eq!(app.selected_task, 1);
    app.load_tasks(Vec::new());
    assert_eq!(app.selected_task, 0);
}

#[test]
fn load_equal_or_longer_collection_preserves_selection() {
    let mut app = app_with_tasks(3);
    app.next_task();
    assert_eq!(app.selected_task, 1);
    app.load_tasks(vec![chore(1, "a"), chore(2, "b"), chore(3, "c")]);
    assert_eq!(app.selected_task, 1);
    app.load_tasks(vec![
        chore(1, "a"),
        chore(2, "b"),
        chore(3, "c"),
        chore(4, "d"),
        chore(5, "e"),
    ]);
    assert_eq!(app.selected_task, 1);
}

#[test]
fn load_clears_loading_flag() {
    let mut app = App::new();
    assert!(app.loading);
    app.load_tasks(vec![chore(1, "a")]);
    assert!(!app.loading);
}

#[test]
fn select_task_returns_the_selected_one() {
    let mut app = app_with_tasks(3);
    app.next_task();
    let selected = app.select_task().expect("a task is selected");
    assert_eq!(selected.id, 1);
    assert_eq!(selected.name, "task 1");
}

#[test]
fn select_task_on_empty_is_none() {
    let app = App::new();
    assert!(app.select_task().is_none());
}

#[test]
fn status_kind_classification() {
    let mut c = chore(1, "a");
    assert_eq!(c.status_kind(), ChoreStatus::Pending);
    c.status = Some(0);
    assert_eq!(c.status_kind(), ChoreStatus::Pending);
    c.status = Some(1);
    assert_eq!(c.status_kind(), ChoreStatus::Active);
    c.status = Some(2);
    assert_eq!(c.status_kind(), ChoreStatus::Completed);
    c.status = Some(7);
    assert_eq!(c.status_kind(), ChoreStatus::Unknown);
    c.status = Some(-1);
    assert_eq!(c.status_kind(), ChoreStatus::Unknown);
}

#[test]
fn show_and_clear_error_move_between_views() {
    let mut app = app_with_tasks(2);
    app.next_task();
    app.show_error("boom".to_string());
    assert_eq!(app.view, ViewState::ErrorDialog);
    assert_eq!(app.error_message, Some("boom".to_string()));
    assert!(!app.loading);
    app.clear_error();
    assert_eq!(app.view, ViewState::TaskList);
    assert!(app.error_message.is_none());
    assert_eq!(app.selected_task, 1);
}

#[test]
fn quit_stops_running() {
    let mut app = App::new();
    app.quit();
    assert!(!app.running);
}
