use donetick_tui::app::{App, ViewState};
use donetick_tui::event::{apply_event, apply_events, handle_key_event, AppEvent, Command, Key};
use donetick_tui::task::Chore;

fn chore(id: i64, name: &str) -> Chore {
    Chore {
        id,
        name: name.to_string(),
        next_due_date: None,
        status: None,
        priority: None,
    }
}

fn loaded_app(n: i64) -> App {
    let mut app = App::new();
    let mut tasks = Vec::new();
    let mut i: i64 = 0;
    while i < n {
        tasks.push(chore(i, &format!("task {}", i)));
        i += 1;
    }
    apply_event(&mut app, AppEvent::TasksLoaded(tasks));
    app
}

fn press(app: &mut App, key: Key) -> Option<Command> {
    handle_key_event(key, app)
}

#[test]
fn end_to_end_load_navigate_fail_acknowledge() {
    let mut app = App::new();
    assert!(app.loading);
    assert!(app.tasks.is_empty());

    let cmd = apply_event(
        &mut app,
        AppEvent::TasksLoaded(vec![chore(1, "t1"), chore(2, "t2"), chore(3, "t3")]),
    );
    assert!(cmd.is_none());
    assert_eq!(app.view, ViewState::TaskList);
    assert_eq!(app.tasks.len(), 3);
    assert_eq!(app.selected_task, 0);
    assert!(!app.loading);

    let cmd = press(&mut app, Key::Up);
    assert!(cmd.is_none());
    assert_eq!(app.selected_task, 2);

    let cmd = apply_event(&mut app, AppEvent::Error("timeout".to_string()));
    assert!(cmd.is_none());
    assert_eq!(app.view, ViewState::ErrorDialog);
    assert_eq!(app.error_message, Some("timeout".to_string()));
    assert!(!app.loading);

    let cmd = press(&mut app, Key::Char('x'));
    assert!(cmd.is_none());
    assert_eq!(app.view, ViewState::TaskList);
    assert!(app.error_message.is_none());
    assert_eq!(app.selected_task, 2);
}

#[test]
fn input_is_applied_before_later_worker_event() {
    let mut app = App::new();
    let events = vec![
        AppEvent::Input(Key::Char('r')),
        AppEvent::TasksLoaded(vec![chore(1, "t1")]),
    ];
    let cmds = apply_events(&mut app, events);
    // The keypress ran first (setting loading and launching a refresh); the
    // completion that arrived after it then cleared loading again.
    assert_eq!(cmds.len(), 1);
    assert!(matches!(cmds[0], Command::FetchTasks));
    assert!(!app.loading);
    assert_eq!(app.tasks.len(), 1);
}

#[test]
fn quit_key_stops_the_loop() {
    let mut app = loaded_app(1);
    let cmd = press(&mut app, Key::Char('q'));
    assert!(cmd.is_none());
    assert!(!app.running);
}

#[test]
fn add_key_opens_a_fresh_form() {
    let mut app = loaded_app(1);
    let cmd = press(&mut app, Key::Char('a'));
    assert!(cmd.is_none());
    assert_eq!(app.view, ViewState::AddTask);
    assert!(app.form_state.name.is_empty());
    assert!(app.form_state.due_date.is_empty());
}

#[test]
fn refresh_key_sets_loading_and_fetches() {
    let mut app = loaded_app(1);
    assert!(!app.loading);
    let cmd = press(&mut app, Key::Char('r'));
    assert!(matches!(cmd, Some(Command::FetchTasks)));
    assert!(app.loading);
}

#[test]
fn navigation_keys_move_selection() {
    let mut app = loaded_app(3);
    press(&mut app, Key::Down);
    assert_eq!(app.selected_task, 1);
    press(&mut app, Key::Char('j'));
    assert_eq!(app.selected_task, 2);
    press(&mut app, Key::Up);
    assert_eq!(app.selected_task, 1);
    press(&mut app, Key::Char('k'));
    assert_eq!(app.selected_task, 0);
}

#[test]
fn enter_completes_the_selected_task() {
    let mut app = loaded_app(3);
    press(&mut app, Key::Down);
    let cmd = press(&mut app, Key::Enter);
    match cmd {
        Some(Command::CompleteTask(id)) => assert_eq!(id, 1),
        _ => panic!("expected a completion call"),
    }
    assert!(app.loading);
}

#[test]
fn enter_on_empty_list_launches_nothing() {
    let mut app = App::new();
    app.load_tasks(Vec::new());
    let cmd = press(&mut app, Key::Enter);
    assert!(cmd.is_none());
    assert!(!app.loading);
}

#[test]
fn unhandled_key_in_task_list_is_ignored() {
    let mut app = loaded_app(2);
    let cmd = press(&mut app, Key::Other);
    assert!(cmd.is_none());
    assert_eq!(app.view, ViewState::TaskList);
    assert_eq!(app.selected_task, 0);
}

#[test]
fn escape_cancels_the_form() {
    let mut app = loaded_app(1);
    press(&mut app, Key::Char('a'));
    let cmd = press(&mut app, Key::Esc);
    assert!(cmd.is_none());
    assert_eq!(app.view, ViewState::TaskList);
    assert!(app.loading);
}

#[test]
fn tab_cycles_the_active_field() {
    let mut app = loaded_app(1);
    press(&mut app, Key::Char('a'));
    press(&mut app, Key::Tab);
    assert_eq!(app.form_state.active_field, donetick_tui::form::FormField::DueDate);
    press(&mut app, Key::ShiftTab);
    assert_eq!(app.form_state.active_field, donetick_tui::form::FormField::Name);
}

#[test]
fn typing_in_form_edits_the_active_field() {
    let mut app = loaded_app(1);
    press(&mut app, Key::Char('a'));
    press(&mut app, Key::Char('e'));
    press(&mut app, Key::Char('g'));
    press(&mut app, Key::Char('g'));
    press(&mut app, Key::Backspace);
    let name: Vec<char> = "eg".chars().collect();
    assert_eq!(app.form_state.name, name);
}

#[test]
fn submitting_a_valid_form_launches_creation() {
    let mut app = loaded_app(1);
    press(&mut app, Key::Char('a'));
    press(&mut app, Key::Char('M'));
    press(&mut app, Key::Char('i'));
    press(&mut app, Key::Char('l'));
    press(&mut app, Key::Char('k'));
    let cmd = press(&mut app, Key::Enter);
    match cmd {
        Some(Command::CreateTask(request)) => {
            assert_eq!(request.name, "Milk");
            assert!(request.due_date.is_none());
        },
        _ => panic!("expected a creation call"),
    }
    assert!(app.loading);
    assert_eq!(app.view, ViewState::AddTask);
}

#[test]
fn submitting_with_due_date_sends_it() {
    let mut app = loaded_app(1);
    press(&mut app, Key::Char('a'));
    press(&mut app, Key::Char('M'));
    press(&mut app, Key::Tab);
    for c in "2024-1-5".chars() {
        press(&mut app, Key::Char(c));
    }
    let cmd = press(&mut app, Key::Enter);
    match cmd {
        Some(Command::CreateTask(request)) => {
            assert_eq!(request.name, "M");
            assert_eq!(request.due_date, Some("2024-1-5".to_string()));
        },
        _ => panic!("expected a creation call"),
    }
}

#[test]
fn submitting_an_invalid_form_shows_the_error() {
    let mut app = loaded_app(1);
    press(&mut app, Key::Char('a'));
    let cmd = press(&mut app, Key::Enter);
    assert!(cmd.is_none());
    assert_eq!(app.view, ViewState::ErrorDialog);
    assert_eq!(
        app.error_message,
        Some("Please fill in all fields with valid data".to_string()),
    );
}

#[test]
fn submitting_a_bad_due_date_shows_the_error() {
    let mut app = loaded_app(1);
    press(&mut app, Key::Char('a'));
    press(&mut app, Key::Char('M'));
    press(&mut app, Key::Tab);
    for c in "2024-13-40".chars() {
        press(&mut app, Key::Char(c));
    }
    let cmd = press(&mut app, Key::Enter);
    assert!(cmd.is_none());
    assert_eq!(app.view, ViewState::ErrorDialog);
}

#[test]
fn error_dialog_ignores_navigation_keys() {
    let mut app = loaded_app(2);
    apply_event(&mut app, AppEvent::Error("x".to_string()));
    let cmd = press(&mut app, Key::Up);
    assert!(cmd.is_none());
    assert_eq!(app.view, ViewState::ErrorDialog);
    assert!(app.error_message.is_some());
}

#[test]
fn task_added_returns_to_list_and_refetches() {
    let mut app = loaded_app(1);
    press(&mut app, Key::Char('a'));
    let cmd = apply_event(&mut app, AppEvent::TaskAdded);
    assert!(matches!(cmd, Some(Command::FetchTasks)));
    assert_eq!(app.view, ViewState::TaskList);
    assert!(app.loading);
}

#[test]
fn task_completed_returns_to_list_and_refetches() {
    let mut app = loaded_app(2);
    let cmd = apply_event(&mut app, AppEvent::TaskCompleted);
    assert!(matches!(cmd, Some(Command::FetchTasks)));
    assert_eq!(app.view, ViewState::TaskList);
    assert!(app.loading);
}

#[test]
fn batch_application_collects_commands_in_order() {
    let mut app = App::new();
    let events = vec![
        AppEvent::TasksLoaded(vec![chore(5, "a"), chore(6, "b")]),
        AppEvent::Input(Key::Down),
        AppEvent::Input(Key::Enter),
        AppEvent::TaskCompleted,
    ];
    let cmds = apply_events(&mut app, events);
    assert_eq!(cmds.len(), 2);
    match &cmds[0] {
        Command::CompleteTask(id) => assert_eq!(*id, 6),
        _ => panic!("expected a completion call first"),
    }
    assert!(matches!(cmds[1], Command::FetchTasks));
    assert!(app.loading);
    assert_eq!(app.view, ViewState::TaskList);
}
