//! Events and their application: every keypress and every completion report
//! of a background unit of work passes through [`apply_event`], the single
//! place where the application state changes.

use vstd::prelude::*;
use vstd::string::StringExecFns;
use crate::app::{
    app_wf,
    spec_clear_error, spec_load_tasks, spec_next_task, spec_previous_task, spec_quit,
    spec_show_add_form, spec_show_error, spec_show_task_list, App, AppAbs, ViewState,
};
use crate::form::{form_valid, spec_delete_char, spec_insert_char, spec_next_field};
use crate::task::{Chore, CreateChoreRequest};
use crate::text::chars_to_string;

verus! {

/// A keypress, as the input source reports it to the controller.
#[derive(Debug, Clone, Copy, PartialEq, Eq, Structural)]
pub enum Key {
    Char(char),
    Up,
    Down,
    Enter,
    Esc,
    Tab,
    ShiftTab,
    Backspace,
    Other,
}

/// A tagged message consumed by the main loop: a keypress, or the single
/// completion report of a background unit of work.
#[derive(Debug)]
pub enum AppEvent {
    Input(Key),
    TasksLoaded(Vec<Chore>),
    TaskAdded,
    TaskCompleted,
    Error(String),
}

/// One service call the main loop asks the dispatcher to launch; each
/// launched unit posts exactly one completion event back.
#[derive(Debug)]
pub enum Command {
    FetchTasks,
    CompleteTask(i64),
    CreateTask(CreateChoreRequest),
}

/// Mathematical image of an event.
pub enum EventAbs {
    Input(Key),
    TasksLoaded(Seq<Chore>),
    TaskAdded,
    TaskCompleted,
    Error(Seq<char>),
}

/// Mathematical image of a command.
pub enum CommandAbs {
    FetchTasks,
    CompleteTask(i64),
    CreateTask(Seq<char>, Option<Seq<char>>),
}

impl AppEvent {
    /// The mathematical image of this event.
    pub open spec fn abs(&self) -> EventAbs {
        match self {
            AppEvent::Input(k) => EventAbs::Input(*k),
            AppEvent::TasksLoaded(tasks) => EventAbs::TasksLoaded(tasks@),
            AppEvent::TaskAdded => EventAbs::TaskAdded,
            AppEvent::TaskCompleted => EventAbs::TaskCompleted,
            AppEvent::Error(message) => EventAbs::Error(message@),
        }
    }
}

impl Command {
    /// The mathematical image of this command.
    pub open spec fn abs(&self) -> CommandAbs {
        match self {
            Command::FetchTasks => CommandAbs::FetchTasks,
            Command::CompleteTask(id) => CommandAbs::CompleteTask(*id),
            Command::CreateTask(request) => CommandAbs::CreateTask(
                request.name@,
                match request.due_date {
                    Some(d) => Some(d@),
                    None => None,
                },
            ),
        }
    }
}

/// The image of a command that may be absent.
pub open spec fn cmd_abs(cmd: Option<Command>) -> Option<CommandAbs> {
    match cmd {
        Some(c) => Some(c.abs()),
        None => None,
    }
}

/// The message shown when a submitted form fails validation.
pub open spec fn invalid_form_message() -> Seq<char> {
    "Please fill in all fields with valid data"@
}

/// How a keypress acts on the task list: navigation, entering the form,
/// quitting, or launching a refresh or completion call.
pub open spec fn spec_task_list_key(a: AppAbs, key: Key) -> (AppAbs, Option<CommandAbs>) {
    match key {
        Key::Char(c) => if c == 'q' {
            (spec_quit(a), None)
        } else if c == 'a' {
            (spec_show_add_form(a), None)
        } else if c == 'r' {
            (AppAbs { loading: true, ..a }, Some(CommandAbs::FetchTasks))
        } else if c == 'j' {
            (spec_next_task(a), None)
        } else if c == 'k' {
            (spec_previous_task(a), None)
        } else {
            (a, None)
        },
        Key::Down => (spec_next_task(a), None),
        Key::Up => (spec_previous_task(a), None),
        Key::Enter => if a.tasks.len() > 0 {
            (
                AppAbs { loading: true, ..a },
                Some(CommandAbs::CompleteTask(a.tasks[a.selected as int].id)),
            )
        } else {
            (a, None)
        },
        _ => (a, None),
    }
}

/// How a keypress acts on the add-task form: editing, field cycling,
/// cancelling, or submitting (which validates first).
pub open spec fn spec_form_key(a: AppAbs, key: Key) -> (AppAbs, Option<CommandAbs>) {
    match key {
        Key::Esc => (spec_show_task_list(a), None),
        Key::Tab => (AppAbs { form: spec_next_field(a.form), ..a }, None),
        Key::ShiftTab => (AppAbs { form: spec_next_field(a.form), ..a }, None),
        Key::Enter => if form_valid(a.form) {
            (
                AppAbs { loading: true, ..a },
                Some(CommandAbs::CreateTask(
                    a.form.name,
                    if a.form.due_date.len() == 0 {
                        None
                    } else {
                        Some(a.form.due_date)
                    },
                )),
            )
        } else {
            (spec_show_error(a, invalid_form_message()), None)
        },
        Key::Backspace => (AppAbs { form: spec_delete_char(a.form), ..a }, None),
        Key::Char(c) => (AppAbs { form: spec_insert_char(a.form, c), ..a }, None),
        _ => (a, None),
    }
}

/// How a keypress acts on the error dialog: any character, enter or escape
/// acknowledges the error; everything else is ignored.
pub open spec fn spec_error_key(a: AppAbs, key: Key) -> AppAbs {
    match key {
        Key::Char(_) => spec_clear_error(a),
        Key::Enter => spec_clear_error(a),
        Key::Esc => spec_clear_error(a),
        _ => a,
    }
}

/// Keypress dispatch: the active view decides which rules apply.
pub open spec fn spec_handle_key(a: AppAbs, key: Key) -> (AppAbs, Option<CommandAbs>) {
    match a.view {
        ViewState::TaskList => spec_task_list_key(a, key),
        ViewState::AddTask => spec_form_key(a, key),
        ViewState::ErrorDialog => (spec_error_key(a, key), None),
    }
}

/// How one event acts on the state, and which service call it launches:
/// keypresses go through [`spec_handle_key`]; a loaded list replaces the
/// collection; a completed mutation returns to the list and launches a
/// refresh; a failure is recorded and shown.
pub open spec fn spec_apply_event(a: AppAbs, e: EventAbs) -> (AppAbs, Option<CommandAbs>) {
    match e {
        EventAbs::Input(key) => spec_handle_key(a, key),
        EventAbs::TasksLoaded(tasks) => (spec_load_tasks(a, tasks), None),
        EventAbs::TaskAdded => (spec_show_task_list(a), Some(CommandAbs::FetchTasks)),
        EventAbs::TaskCompleted => (spec_show_task_list(a), Some(CommandAbs::FetchTasks)),
        EventAbs::Error(message) => (spec_show_error(a, message), None),
    }
}

/// Handle a keypress while the task list is shown.
pub fn handle_task_list_input(key: Key, app: &mut App) -> (cmd: Option<Command>)
    requires
        old(app).wf(),
    ensures
        final(app).wf(),
        final(app).abs() == spec_task_list_key(old(app).abs(), key).0,
        cmd_abs(cmd) == spec_task_list_key(old(app).abs(), key).1,
{
    match key {
        Key::Char(c) => {
            if c == 'q' {
                app.quit();
                None
            } else if c == 'a' {
                app.show_add_form();
                None
            } else if c == 'r' {
                app.loading = true;
                proof {
                    assert(app.abs() =~= (AppAbs { loading: true, ..old(app).abs() }));
                }
                Some(Command::FetchTasks)
            } else if c == 'j' {
                app.next_task();
                None
            } else if c == 'k' {
                app.previous_task();
                None
            } else {
                None
            }
        },
        Key::Down => {
            app.next_task();
            None
        },
        Key::Up => {
            app.previous_task();
            None
        },
        Key::Enter => {
            let selected_id = match app.select_task() {
                Some(task) => Some(task.id),
                None => None,
            };
            match selected_id {
                Some(task_id) => {
                    app.loading = true;
                    proof {
                        assert(app.abs() =~= (AppAbs { loading: true, ..old(app).abs() }));
                    }
                    Some(Command::CompleteTask(task_id))
                },
                None => None,
            }
        },
        _ => None,
    }
}

/// Handle a keypress while the add-task form is shown.
pub fn handle_form_input(key: Key, app: &mut App) -> (cmd: Option<Command>)
    requires
        old(app).wf(),
    ensures
        final(app).wf(),
        final(app).abs() == spec_form_key(old(app).abs(), key).0,
        cmd_abs(cmd) == spec_form_key(old(app).abs(), key).1,
{
    match key {
        Key::Esc => {
            app.show_task_list();
            None
        },
        Key::Tab => {
            app.form_state.next_field();
            proof {
                assert(app.abs()
                    =~= (AppAbs { form: spec_next_field(old(app).abs().form), ..old(app).abs() }));
            }
            None
        },
        Key::ShiftTab => {
            app.form_state.previous_field();
            proof {
                assert(app.abs()
                    =~= (AppAbs { form: spec_next_field(old(app).abs().form), ..old(app).abs() }));
            }
            None
        },
        Key::Enter => {
            if app.form_state.is_valid() {
                let name = chars_to_string(&app.form_state.name);
                let due_date = chars_to_string(&app.form_state.due_date);
                let request = CreateChoreRequest::new(name, due_date);
                app.loading = true;
                proof {
                    assert(app.abs() =~= (AppAbs { loading: true, ..old(app).abs() }));
                }
                Some(Command::CreateTask(request))
            } else {
                app.show_error(String::from_str("Please fill in all fields with valid data"));
                None
            }
        },
        Key::Backspace => {
            app.form_state.delete_char();
            proof {
                assert(app.abs()
                    =~= (AppAbs { form: spec_delete_char(old(app).abs().form), ..old(app).abs() }));
            }
            None
        },
        Key::Char(c) => {
            app.form_state.insert_char(c);
            proof {
                assert(app.abs()
                    =~= (AppAbs {
                        form: spec_insert_char(old(app).abs().form, c),
                        ..old(app).abs()
                    }));
            }
            None
        },
        _ => None,
    }
}

/// Handle a keypress while the error dialog is shown.
pub fn handle_error_dialog_input(key: Key, app: &mut App)
    requires
        old(app).wf(),
    ensures
        final(app).wf(),
        final(app).abs() == spec_error_key(old(app).abs(), key),
{
    match key {
        Key::Char(_) => app.clear_error(),
        Key::Enter => app.clear_error(),
        Key::Esc => app.clear_error(),
        _ => {},
    }
}

/// Dispatch a keypress to the handler of the active view.
pub fn handle_key_event(key: Key, app: &mut App) -> (cmd: Option<Command>)
    requires
        old(app).wf(),
    ensures
        final(app).wf(),
        final(app).abs() == spec_handle_key(old(app).abs(), key).0,
        cmd_abs(cmd) == spec_handle_key(old(app).abs(), key).1,
{
    match app.view {
        ViewState::TaskList => handle_task_list_input(key, app),
        ViewState::AddTask => handle_form_input(key, app),
        ViewState::ErrorDialog => {
            handle_error_dialog_input(key, app);
            None
        },
    }
}

/// Apply one event to the state and return the service call to launch, if
/// any. This is the only way the main loop mutates the application state.
pub fn apply_event(app: &mut App, event: AppEvent) -> (cmd: Option<Command>)
    requires
        old(app).wf(),
    ensures
        final(app).wf(),
        final(app).abs() == spec_apply_event(old(app).abs(), event.abs()).0,
        cmd_abs(cmd) == spec_apply_event(old(app).abs(), event.abs()).1,
{
    match event {
        AppEvent::Input(key) => handle_key_event(key, app),
        AppEvent::TasksLoaded(tasks) => {
            app.load_tasks(tasks);
            None
        },
        AppEvent::TaskAdded => {
            app.show_task_list();
            Some(Command::FetchTasks)
        },
        AppEvent::TaskCompleted => {
            app.show_task_list();
            Some(Command::FetchTasks)
        },
        AppEvent::Error(message) => {
            app.show_error(message);
            None
        },
    }
}

/// Law of the state invariant: every keypress transition keeps the
/// selection a valid index (or zero without tasks) and the cursor within
/// the active field.
pub proof fn lemma_handle_key_preserves_invariant(a: AppAbs, key: Key)
    requires
        app_wf(a),
    ensures
        app_wf(spec_handle_key(a, key).0),
{
    if a.tasks.len() > 0 {
        vstd::arithmetic::div_mod::lemma_mod_bound(
            (a.selected + 1) as int,
            a.tasks.len() as int,
        );
    }
}

/// Law of the state invariant: every event transition preserves it.
pub proof fn lemma_apply_event_preserves_invariant(a: AppAbs, e: EventAbs)
    requires
        app_wf(a),
    ensures
        app_wf(spec_apply_event(a, e).0),
{
    match e {
        EventAbs::Input(key) => lemma_handle_key_preserves_invariant(a, key),
        _ => {},
    }
}

// ---------------------------------------------------------------------------
// Applying a whole arrival-ordered batch of events.
// ---------------------------------------------------------------------------

/// The state after applying the events one by one, first to last.
pub open spec fn spec_apply_events(a: AppAbs, events: Seq<EventAbs>) -> AppAbs
    decreases events.len(),
{
    if events.len() == 0 {
        a
    } else {
        spec_apply_events(spec_apply_event(a, events[0]).0, events.drop_first())
    }
}

/// The service calls launched while applying the events one by one, in
/// launch order.
pub open spec fn spec_emitted_commands(a: AppAbs, events: Seq<EventAbs>) -> Seq<CommandAbs>
    decreases events.len(),
{
    if events.len() == 0 {
        Seq::empty()
    } else {
        let rest = spec_emitted_commands(
            spec_apply_event(a, events[0]).0,
            events.drop_first(),
        );
        match spec_apply_event(a, events[0]).1 {
            Some(c) => seq![c] + rest,
            None => rest,
        }
    }
}

/// Law of event ordering: with two events arriving first-then-second, the
/// main loop applies the first fully before it observes the second — the
/// combined effect is exactly the second transition taken from the first
/// transition's result.
pub proof fn lemma_events_applied_in_order(a: AppAbs, e1: EventAbs, e2: EventAbs)
    ensures
        spec_apply_events(a, seq![e1, e2])
            == spec_apply_event(spec_apply_event(a, e1).0, e2).0,
{
    let b = spec_apply_event(a, e1).0;
    assert(seq![e1, e2].drop_first() =~= seq![e2]);
    assert(seq![e2].drop_first() =~= Seq::<EventAbs>::empty());
    assert(spec_apply_events(b, seq![e2])
        == spec_apply_events(spec_apply_event(b, e2).0, Seq::<EventAbs>::empty()));
}

/// Apply a batch of events in arrival order, collecting the launched
/// service calls in launch order.
pub fn apply_events(app: &mut App, events: Vec<AppEvent>) -> (cmds: Vec<Command>)
    requires
        old(app).wf(),
    ensures
        final(app).wf(),
        final(app).abs() == spec_apply_events(
            old(app).abs(),
            events@.map_values(|e: AppEvent| e.abs()),
        ),
        cmds@.map_values(|c: Command| c.abs()) == spec_emitted_commands(
            old(app).abs(),
            events@.map_values(|e: AppEvent| e.abs()),
        ),
{
    let ghost a0 = old(app).abs();
    let ghost es0 = events@.map_values(|e: AppEvent| e.abs());
    let mut queue = events;
    let mut cmds: Vec<Command> = Vec::new();
    proof {
        assert(cmds@.map_values(|c: Command| c.abs()) =~= Seq::<CommandAbs>::empty());
    }
    while queue.len() > 0
        invariant
            app.wf(),
            spec_apply_events(app.abs(), queue@.map_values(|e: AppEvent| e.abs()))
                == spec_apply_events(a0, es0),
            spec_emitted_commands(a0, es0) == cmds@.map_values(|c: Command| c.abs())
                + spec_emitted_commands(
                    app.abs(),
                    queue@.map_values(|e: AppEvent| e.abs()),
                ),
        decreases queue@.len(),
    {
        let ghost pre_abs = app.abs();
        let ghost pre_events = queue@.map_values(|e: AppEvent| e.abs());
        let event = queue.remove(0);
        proof {
            assert(queue@.map_values(|e: AppEvent| e.abs())
                =~= pre_events.drop_first());
            assert(pre_events[0] == event.abs());
        }
        let cmd = apply_event(app, event);
        let ghost emitted_before = cmds@.map_values(|c: Command| c.abs());
        match cmd {
            Some(c) => {
                let ghost launched = c.abs();
                cmds.push(c);
                proof {
                    assert(cmds@.map_values(|c: Command| c.abs())
                        =~= emitted_before.push(launched));
                    assert(emitted_before.push(launched)
                        + spec_emitted_commands(
                            app.abs(),
                            queue@.map_values(|e: AppEvent| e.abs()),
                        )
                        =~= emitted_before + (seq![launched] + spec_emitted_commands(
                            app.abs(),
                            queue@.map_values(|e: AppEvent| e.abs()),
                        )));
                }
            },
            None => {},
        }
    }
    proof {
        assert(queue@.map_values(|e: AppEvent| e.abs()) =~= Seq::<EventAbs>::empty());
        assert(cmds@.map_values(|c: Command| c.abs())
            =~= cmds@.map_values(|c: Command| c.abs()) + Seq::<CommandAbs>::empty());
    }
    cmds
}

} // verus!
