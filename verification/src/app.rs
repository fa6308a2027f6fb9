//! The application state: the active view, the task collection and its
//! selection, the form, and the flags the renderer reads. All mutation goes
//! through the methods here, each tied to a spec-level transition.

use vstd::prelude::*;
use vstd::arithmetic::div_mod::{
    lemma_add_mod_noop_right, lemma_mod_bound, lemma_mod_self_0, lemma_small_mod,
};
use crate::form::{form_init, form_wf, FormAbs, FormState};
use crate::task::Chore;

verus! {

/// The three UI modes; exactly one is active at a time.
#[derive(Debug, Clone, PartialEq, Eq, Structural)]
pub enum ViewState {
    TaskList,
    AddTask,
    ErrorDialog,
}

/// The single mutable application state, owned by the main loop.
pub struct App {
    pub running: bool,
    pub view: ViewState,
    pub tasks: Vec<Chore>,
    pub selected_task: usize,
    pub form_state: FormState,
    pub loading: bool,
    pub error_message: Option<String>,
}

/// Mathematical image of the application state.
#[verifier::ext_equal]
pub struct AppAbs {
    pub running: bool,
    pub view: ViewState,
    pub tasks: Seq<Chore>,
    pub selected: nat,
    pub form: FormAbs,
    pub loading: bool,
    pub error: Option<Seq<char>>,
}

/// The image of the state at startup: running, task list shown, no tasks
/// yet, loading.
pub open spec fn app_init() -> AppAbs {
    AppAbs {
        running: true,
        view: ViewState::TaskList,
        tasks: Seq::empty(),
        selected: 0,
        form: form_init(),
        loading: true,
        error: None,
    }
}

/// State invariant: the selection is a valid index when tasks exist, and is
/// held at zero when none do; the form is well formed.
pub open spec fn app_wf(a: AppAbs) -> bool {
    &&& a.tasks.len() == 0 ==> a.selected == 0
    &&& a.tasks.len() > 0 ==> a.selected < a.tasks.len()
    &&& form_wf(a.form)
}

/// Advance the selection circularly; a no-op on an empty collection.
pub open spec fn spec_next_task(a: AppAbs) -> AppAbs {
    if a.tasks.len() == 0 {
        a
    } else {
        AppAbs { selected: (a.selected + 1) % a.tasks.len(), ..a }
    }
}

/// Retreat the selection circularly, wrapping to the last task from the
/// first; a no-op on an empty collection.
pub open spec fn spec_previous_task(a: AppAbs) -> AppAbs {
    if a.tasks.len() == 0 {
        a
    } else if a.selected == 0 {
        AppAbs { selected: (a.tasks.len() - 1) as nat, ..a }
    } else {
        AppAbs { selected: (a.selected - 1) as nat, ..a }
    }
}

/// Enter the add-task view with a fresh form.
pub open spec fn spec_show_add_form(a: AppAbs) -> AppAbs {
    AppAbs { view: ViewState::AddTask, form: form_init(), ..a }
}

/// Return to the task list and start loading it anew.
pub open spec fn spec_show_task_list(a: AppAbs) -> AppAbs {
    AppAbs { view: ViewState::TaskList, loading: true, ..a }
}

/// Record a failure and switch to the error dialog.
pub open spec fn spec_show_error(a: AppAbs, message: Seq<char>) -> AppAbs {
    AppAbs { view: ViewState::ErrorDialog, loading: false, error: Some(message), ..a }
}

/// Acknowledge the error and return to the task list.
pub open spec fn spec_clear_error(a: AppAbs) -> AppAbs {
    AppAbs { view: ViewState::TaskList, error: None, ..a }
}

/// Stop the main loop.
pub open spec fn spec_quit(a: AppAbs) -> AppAbs {
    AppAbs { running: false, ..a }
}

/// Replace the task collection wholesale, clear loading, and reset the
/// selection to zero exactly when it is no longer a valid index.
pub open spec fn spec_load_tasks(a: AppAbs, tasks: Seq<Chore>) -> AppAbs {
    AppAbs {
        tasks: tasks,
        loading: false,
        selected: if a.selected >= tasks.len() { 0 } else { a.selected },
        ..a
    }
}

impl App {
    /// The mathematical image of this state.
    pub open spec fn abs(&self) -> AppAbs {
        AppAbs {
            running: self.running,
            view: self.view,
            tasks: self.tasks@,
            selected: self.selected_task as nat,
            form: self.form_state.abs(),
            loading: self.loading,
            error: match self.error_message {
                Some(m) => Some(m@),
                None => None,
            },
        }
    }

    /// State invariant; see [`app_wf`].
    pub open spec fn wf(&self) -> bool {
        app_wf(self.abs())
    }

    /// The state at startup.
    pub fn new() -> (r: Self)
        ensures
            r.abs() == app_init(),
            r.wf(),
    {
        let r = App {
            running: true,
            view: ViewState::TaskList,
            tasks: Vec::new(),
            selected_task: 0,
            form_state: FormState::new(),
            loading: true,
            error_message: None,
        };
        proof {
            assert(r.abs() =~= app_init());
        }
        r
    }

    /// Advance the selection circularly; a no-op without tasks.
    pub fn next_task(&mut self)
        requires
            old(self).wf(),
        ensures
            final(self).abs() == spec_next_task(old(self).abs()),
            final(self).wf(),
    {
        if !self.tasks.is_empty() {
            proof {
                assert(self.tasks.len() == self.tasks@.len());
            }
            self.selected_task = (self.selected_task + 1) % self.tasks.len();
        }
        proof {
            assert(self.abs() =~= spec_next_task(old(self).abs()));
        }
    }

    /// Retreat the selection circularly; a no-op without tasks.
    pub fn previous_task(&mut self)
        requires
            old(self).wf(),
        ensures
            final(self).abs() == spec_previous_task(old(self).abs()),
            final(self).wf(),
    {
        if !self.tasks.is_empty() {
            if self.selected_task == 0 {
                self.selected_task = self.tasks.len() - 1;
            } else {
                self.selected_task = self.selected_task - 1;
            }
        }
        proof {
            assert(self.abs() =~= spec_previous_task(old(self).abs()));
        }
    }

    /// The selected task, when the selection is a valid index.
    pub fn select_task(&self) -> (r: Option<&Chore>)
        ensures
            (match r {
                Some(c) => self.selected_task < self.tasks@.len()
                    && *c == self.tasks@[self.selected_task as int],
                None => self.selected_task >= self.tasks@.len(),
            }),
            self.wf() && self.tasks@.len() > 0 ==> r is Some,
    {
        if self.selected_task < self.tasks.len() {
            Some(&self.tasks[self.selected_task])
        } else {
            None
        }
    }

    /// Enter the add-task view with a fresh form.
    pub fn show_add_form(&mut self)
        ensures
            final(self).abs() == spec_show_add_form(old(self).abs()),
            old(self).wf() ==> final(self).wf(),
    {
        self.view = ViewState::AddTask;
        self.form_state = FormState::new();
        proof {
            assert(self.abs() =~= spec_show_add_form(old(self).abs()));
        }
    }

    /// Return to the task list and start loading it anew.
    pub fn show_task_list(&mut self)
        ensures
            final(self).abs() == spec_show_task_list(old(self).abs()),
            old(self).wf() ==> final(self).wf(),
    {
        self.view = ViewState::TaskList;
        self.loading = true;
        proof {
            assert(self.abs() =~= spec_show_task_list(old(self).abs()));
        }
    }

    /// Record a failure message and switch to the error dialog.
    pub fn show_error(&mut self, message: String)
        ensures
            final(self).abs() == spec_show_error(old(self).abs(), message@),
            old(self).wf() ==> final(self).wf(),
    {
        self.error_message = Some(message);
        self.view = ViewState::ErrorDialog;
        self.loading = false;
        proof {
            assert(self.abs() =~= spec_show_error(old(self).abs(), message@));
        }
    }

    /// Acknowledge the error and return to the task list.
    pub fn clear_error(&mut self)
        ensures
            final(self).abs() == spec_clear_error(old(self).abs()),
            old(self).wf() ==> final(self).wf(),
    {
        self.error_message = None;
        self.view = ViewState::TaskList;
        proof {
            assert(self.abs() =~= spec_clear_error(old(self).abs()));
        }
    }

    /// Stop the main loop.
    pub fn quit(&mut self)
        ensures
            final(self).abs() == spec_quit(old(self).abs()),
            old(self).wf() ==> final(self).wf(),
    {
        self.running = false;
        proof {
            assert(self.abs() =~= spec_quit(old(self).abs()));
        }
    }

    /// Replace the task collection wholesale; see [`spec_load_tasks`].
    pub fn load_tasks(&mut self, tasks: Vec<Chore>)
        ensures
            final(self).abs() == spec_load_tasks(old(self).abs(), tasks@),
            final(self).wf() == form_wf(old(self).abs().form),
    {
        self.tasks = tasks;
        self.loading = false;
        if self.selected_task >= self.tasks.len() {
            self.selected_task = 0;
        }
        proof {
            assert(self.abs() =~= spec_load_tasks(old(self).abs(), tasks@));
        }
    }
}

// ---------------------------------------------------------------------------
// Laws of selection navigation.
// ---------------------------------------------------------------------------

/// `spec_next_task` applied `k` times.
pub open spec fn iter_next_task(a: AppAbs, k: nat) -> AppAbs
    decreases k,
{
    if k == 0 {
        a
    } else {
        iter_next_task(spec_next_task(a), (k - 1) as nat)
    }
}

/// `spec_previous_task` applied `k` times.
pub open spec fn iter_previous_task(a: AppAbs, k: nat) -> AppAbs
    decreases k,
{
    if k == 0 {
        a
    } else {
        iter_previous_task(spec_previous_task(a), (k - 1) as nat)
    }
}

/// Stepping forward `k` times moves the selection by `k`, modulo the number
/// of tasks, and changes nothing else.
proof fn lemma_iter_next_task_closed(a: AppAbs, k: nat)
    requires
        app_wf(a),
        a.tasks.len() > 0,
    ensures
        iter_next_task(a, k) == (AppAbs { selected: (a.selected + k) % a.tasks.len(), ..a }),
        app_wf(iter_next_task(a, k)),
    decreases k,
{
    let n = a.tasks.len();
    lemma_mod_bound((a.selected + k) as int, n as int);
    if k == 0 {
        lemma_small_mod(a.selected, n);
        assert(iter_next_task(a, 0) =~= (AppAbs { selected: (a.selected + 0) % n, ..a }));
    } else {
        let b = spec_next_task(a);
        lemma_mod_bound((a.selected + 1) as int, n as int);
        assert(app_wf(b));
        lemma_iter_next_task_closed(b, (k - 1) as nat);
        lemma_add_mod_noop_right((k - 1) as int, (a.selected + 1) as int, n as int);
        assert(((k - 1) + ((a.selected + 1) % n) as int) % (n as int)
            == ((k - 1) + (a.selected + 1)) % (n as int));
        assert(b.selected + (k - 1) == (k - 1) + ((a.selected + 1) % n) as int);
        assert(iter_next_task(a, k) =~= (AppAbs { selected: (a.selected + k) % n, ..a }));
    }
}

/// On a non-empty collection of `n` tasks, stepping forward `n` times
/// returns the whole state, the selection included, to where it began.
pub proof fn lemma_next_task_full_cycle(a: AppAbs)
    requires
        app_wf(a),
        a.tasks.len() > 0,
    ensures
        iter_next_task(a, a.tasks.len()) == a,
{
    let n = a.tasks.len();
    lemma_iter_next_task_closed(a, n);
    lemma_add_mod_noop_right(a.selected as int, n as int, n as int);
    lemma_mod_self_0(n as int);
    lemma_small_mod(a.selected, n);
    assert((a.selected + n) % n == a.selected);
    assert(iter_next_task(a, n) =~= a);
}

/// Stepping forward undoes stepping back, and the other way round.
proof fn lemma_next_previous_inverse(a: AppAbs)
    requires
        app_wf(a),
        a.tasks.len() > 0,
    ensures
        spec_next_task(spec_previous_task(a)) == a,
        spec_previous_task(spec_next_task(a)) == a,
        app_wf(spec_previous_task(a)),
        app_wf(spec_next_task(a)),
{
    let n = a.tasks.len();
    if a.selected == 0 {
        lemma_mod_self_0(n as int);
        assert((((n - 1) as nat) + 1) % n == 0);
    } else {
        lemma_small_mod(a.selected, n);
    }
    if a.selected + 1 < n {
        lemma_small_mod((a.selected + 1) as nat, n);
    } else {
        lemma_mod_self_0(n as int);
    }
    assert(spec_next_task(spec_previous_task(a)) =~= a);
    assert(spec_previous_task(spec_next_task(a)) =~= a);
}

/// Stepping back preserves the invariant, the tasks, and all fields other
/// than the selection.
proof fn lemma_iter_previous_task_wf(a: AppAbs, k: nat)
    requires
        app_wf(a),
        a.tasks.len() > 0,
    ensures
        app_wf(iter_previous_task(a, k)),
        iter_previous_task(a, k) == (AppAbs { selected: iter_previous_task(a, k).selected, ..a }),
    decreases k,
{
    if k > 0 {
        lemma_next_previous_inverse(a);
        lemma_iter_previous_task_wf(spec_previous_task(a), (k - 1) as nat);
        assert(iter_previous_task(a, k)
            =~= (AppAbs { selected: iter_previous_task(a, k).selected, ..a }));
    } else {
        assert(iter_previous_task(a, 0)
            =~= (AppAbs { selected: iter_previous_task(a, 0).selected, ..a }));
    }
}

/// Unrolling `iter_previous_task` from the tail: applying the step once more
/// at the end equals applying it once more at the start.
proof fn lemma_iter_previous_commute(a: AppAbs, k: nat)
    ensures
        iter_previous_task(a, k + 1) == spec_previous_task(iter_previous_task(a, k)),
    decreases k,
{
    if k == 0 {
        assert(iter_previous_task(a, 1) == spec_previous_task(iter_previous_task(a, 0)));
    } else {
        lemma_iter_previous_commute(spec_previous_task(a), (k - 1) as nat);
        assert(iter_previous_task(a, k + 1) == iter_previous_task(spec_previous_task(a), k));
        assert(iter_previous_task(a, k)
            == iter_previous_task(spec_previous_task(a), (k - 1) as nat));
    }
}

/// Stepping forward `k` times after stepping back `k` times restores the
/// state.
proof fn lemma_iter_previous_then_next(a: AppAbs, k: nat)
    requires
        app_wf(a),
        a.tasks.len() > 0,
    ensures
        iter_next_task(iter_previous_task(a, k), k) == a,
    decreases k,
{
    if k > 0 {
        let q = iter_previous_task(a, (k - 1) as nat);
        lemma_iter_previous_task_wf(a, (k - 1) as nat);
        lemma_next_previous_inverse(q);
        lemma_iter_previous_commute(a, (k - 1) as nat);
        assert(iter_previous_task(a, k) == spec_previous_task(q));
        assert(iter_next_task(spec_previous_task(q), k)
            == iter_next_task(spec_next_task(spec_previous_task(q)), (k - 1) as nat));
        lemma_iter_previous_then_next(a, (k - 1) as nat);
    }
}

/// On a non-empty collection of `n` tasks, stepping back `n` times returns
/// the whole state, the selection included, to where it began.
pub proof fn lemma_previous_task_full_cycle(a: AppAbs)
    requires
        app_wf(a),
        a.tasks.len() > 0,
    ensures
        iter_previous_task(a, a.tasks.len()) == a,
{
    let n = a.tasks.len();
    let x = iter_previous_task(a, n);
    lemma_iter_previous_task_wf(a, n);
    lemma_iter_previous_then_next(a, n);
    assert(x.tasks == a.tasks);
    lemma_next_task_full_cycle(x);
    assert(iter_next_task(x, n) == x);
}

/// On an empty collection, stepping in either direction changes nothing,
/// and the selection sits at zero.
pub proof fn lemma_navigation_on_empty(a: AppAbs)
    requires
        app_wf(a),
        a.tasks.len() == 0,
    ensures
        spec_next_task(a) == a,
        spec_previous_task(a) == a,
        a.selected == 0,
{
}

/// Loading a collection no longer than the current selection resets the
/// selection to zero; loading one in which the selection is still a valid
/// index preserves it. Either way the invariant holds afterwards.
pub proof fn lemma_load_tasks_selection(a: AppAbs, tasks: Seq<Chore>)
    requires
        app_wf(a),
    ensures
        tasks.len() <= a.selected ==> spec_load_tasks(a, tasks).selected == 0,
        a.selected < tasks.len() ==> spec_load_tasks(a, tasks).selected == a.selected,
        app_wf(spec_load_tasks(a, tasks)),
{
}

} // verus!
