use vstd::prelude::*;
use vstd::string::{StrSliceExecFns, StringExecFns};
use crate::models::timer::{clock_text, Timer, FOCUS_SECS};
use crate::models::todo::{is_steady, largest_id, lemma_max_id_is_max, max_id, Todo, TodoStatus};
use crate::text::{decimal, push_decimal};
use crate::utils::OneOrMany;

pub use crate::parse::parse_command;

verus! {

/// Everything the application holds while it runs.
pub struct AppState {
    pub todos: Vec<Todo>,
    pub input_buffer: String,
    pub output_buffer: String,
    pub should_quit: bool,
}

/// A discrete user intent.
pub enum Action {
    Quit,
    AddTodo(String),
    RemoveTodo(u32),
    CompleteTodo(u32),
    StartTodo(u32),
    StopTodo(u32),
    UpdateInput(String),
    ClearInput,
    SetOutput(String),
    ToggleStatus(u32),
    NoOp,
}

/// An action with its text as characters.
pub ghost enum ActionView {
    Quit,
    AddTodo(Seq<char>),
    RemoveTodo(u32),
    CompleteTodo(u32),
    StartTodo(u32),
    StopTodo(u32),
    UpdateInput(Seq<char>),
    ClearInput,
    SetOutput(Seq<char>),
    ToggleStatus(u32),
    NoOp,
}

impl View for Action {
    type V = ActionView;

    open spec fn view(&self) -> ActionView {
        match self {
            Action::Quit => ActionView::Quit,
            Action::AddTodo(s) => ActionView::AddTodo(s@),
            Action::RemoveTodo(id) => ActionView::RemoveTodo(*id),
            Action::CompleteTodo(id) => ActionView::CompleteTodo(*id),
            Action::StartTodo(id) => ActionView::StartTodo(*id),
            Action::StopTodo(id) => ActionView::StopTodo(*id),
            Action::UpdateInput(s) => ActionView::UpdateInput(s@),
            Action::ClearInput => ActionView::ClearInput,
            Action::SetOutput(s) => ActionView::SetOutput(s@),
            Action::ToggleStatus(id) => ActionView::ToggleStatus(*id),
            Action::NoOp => ActionView::NoOp,
        }
    }
}

/// The views of a sequence of actions.
pub open spec fn action_views(acts: Seq<Action>) -> Seq<ActionView> {
    acts.map_values(|a: Action| a@)
}

// ----- messages -----

pub open spec fn added_msg(id: nat) -> Seq<char> {
    "Todo added successfully! (ID: "@ + decimal(id) + ")"@
}

pub open spec fn removed_msg(id: u32) -> Seq<char> {
    "Todo "@ + decimal(id as nat) + " removed successfully!"@
}

pub open spec fn not_found_msg(id: u32) -> Seq<char> {
    "Todo with ID "@ + decimal(id as nat) + " not found."@
}

pub open spec fn completed_msg(id: u32) -> Seq<char> {
    "Todo "@ + decimal(id as nat) + " completed! Great work!"@
}

pub open spec fn stopped_msg(id: u32) -> Seq<char> {
    "Todo "@ + decimal(id as nat) + " stopped. Timer removed."@
}

pub open spec fn pending_msg(id: u32) -> Seq<char> {
    "Todo "@ + decimal(id as nat) + " moved to pending."@
}

pub open spec fn started_msg() -> Seq<char> {
    "Timer started: "@ + clock_text(FOCUS_SECS as nat) + "\nFocus for 25 minutes!"@
}

pub open spec fn no_id_left_msg() -> Seq<char> {
    "No id is left for a new todo."@
}

/// `line` added below `text`; an empty `text` is replaced.
pub open spec fn append_line(text: Seq<char>, line: Seq<char>) -> Seq<char> {
    if text.len() == 0 {
        line
    } else {
        text + "\n"@ + line
    }
}

/// The lines, each added below the ones before.
pub open spec fn join_lines(lines: Seq<Seq<char>>) -> Seq<char>
    decreases lines.len(),
{
    if lines.len() == 0 {
        Seq::empty()
    } else {
        append_line(join_lines(lines.drop_last()), lines.last())
    }
}

// ----- the step relation -----

/// `i` is the first position of a task with this id.
pub open spec fn is_first_with(todos: Seq<Todo>, id: u32, i: int) -> bool {
    &&& 0 <= i < todos.len()
    &&& todos[i].id == id
    &&& forall|j: int| 0 <= j < i ==> todos[j].id != id
}

/// The first position of a task with this id, if any.
pub open spec fn find_first(todos: Seq<Todo>, id: u32) -> Option<int> {
    if exists|i: int| is_first_with(todos, id, i) {
        Some(choose|i: int| is_first_with(todos, id, i))
    } else {
        None
    }
}

/// The status that a toggle moves to: Pending, then In Progress, then Completed,
/// then Pending again.
pub open spec fn next_status(s: TodoStatus) -> TodoStatus {
    match s {
        TodoStatus::Pending => TodoStatus::InProgress,
        TodoStatus::InProgress => TodoStatus::Completed,
        TodoStatus::Completed => TodoStatus::Pending,
    }
}

/// A timer that has just been started for a focus session.
pub open spec fn is_fresh_timer(t: Option<Timer>) -> bool {
    &&& t is Some
    &&& t->0@.duration == FOCUS_SECS as nat
    &&& t->0@.is_started()
    &&& t->0@.has_reference
}

/// `post` is `pre` with only the task at `i` changed, to the status `s`: with a fresh
/// timer where `s` is In Progress, with none otherwise. Its id and description stay.
pub open spec fn settled_at(pre: Seq<Todo>, post: Seq<Todo>, i: int, s: TodoStatus) -> bool {
    &&& 0 <= i < pre.len()
    &&& post.len() == pre.len()
    &&& forall|j: int| 0 <= j < pre.len() && j != i ==> post[j] == pre[j]
    &&& post[i].id == pre[i].id
    &&& post[i].description == pre[i].description
    &&& post[i].status == s
    &&& if s == TodoStatus::InProgress {
        is_fresh_timer(post[i].timer)
    } else {
        post[i].timer is None
    }
}

/// `post` is `pre` with the task at the first position of `id` settled to `s`, or
/// `pre` unchanged where no task has that id.
pub open spec fn settled_id(pre: Seq<Todo>, post: Seq<Todo>, id: u32, s: TodoStatus) -> bool {
    match find_first(pre, id) {
        Some(i) => settled_at(pre, post, i, s),
        None => post == pre,
    }
}

/// What an action does to the task list. Timers are the one part left open: a
/// started timer holds clock readings.
pub open spec fn todos_stepped(pre: Seq<Todo>, a: ActionView, post: Seq<Todo>) -> bool {
    match a {
        ActionView::AddTodo(text) => if max_id(pre) < u32::MAX {
            &&& post.len() == pre.len() + 1
            &&& post.drop_last() == pre
            &&& post.last().id as nat == max_id(pre) + 1
            &&& post.last().description@ == text
            &&& post.last().status == TodoStatus::Pending
            &&& post.last().timer is None
        } else {
            post == pre
        },
        ActionView::RemoveTodo(id) => match find_first(pre, id) {
            Some(i) => post == pre.remove(i),
            None => post == pre,
        },
        ActionView::CompleteTodo(id) => settled_id(pre, post, id, TodoStatus::Completed),
        ActionView::StartTodo(id) => settled_id(pre, post, id, TodoStatus::InProgress),
        ActionView::StopTodo(id) => settled_id(pre, post, id, TodoStatus::Pending),
        ActionView::ToggleStatus(id) => match find_first(pre, id) {
            Some(i) => settled_at(pre, post, i, next_status(pre[i].status)),
            None => post == pre,
        },
        _ => post == pre,
    }
}

/// The message that an action reports, given the task list before it; `None` where
/// it reports nothing.
pub open spec fn message_of(pre: Seq<Todo>, a: ActionView) -> Option<Seq<char>> {
    match a {
        ActionView::AddTodo(_) => Some(
            if max_id(pre) < u32::MAX {
                added_msg(max_id(pre) + 1)
            } else {
                no_id_left_msg()
            },
        ),
        ActionView::RemoveTodo(id) => Some(
            if find_first(pre, id) is Some {
                removed_msg(id)
            } else {
                not_found_msg(id)
            },
        ),
        ActionView::CompleteTodo(id) => Some(
            if find_first(pre, id) is Some {
                completed_msg(id)
            } else {
                not_found_msg(id)
            },
        ),
        ActionView::StartTodo(id) => Some(
            if find_first(pre, id) is Some {
                started_msg()
            } else {
                not_found_msg(id)
            },
        ),
        ActionView::StopTodo(id) => Some(
            if find_first(pre, id) is Some {
                stopped_msg(id)
            } else {
                not_found_msg(id)
            },
        ),
        ActionView::ToggleStatus(id) => match find_first(pre, id) {
            Some(i) => Some(
                match pre[i].status {
                    TodoStatus::Pending => started_msg(),
                    TodoStatus::InProgress => completed_msg(id),
                    TodoStatus::Completed => pending_msg(id),
                },
            ),
            None => None,
        },
        ActionView::SetOutput(s) => Some(s),
        _ => None,
    }
}

/// The input line after an action.
pub open spec fn input_after(input: Seq<char>, a: ActionView) -> Seq<char> {
    match a {
        ActionView::UpdateInput(s) => s,
        ActionView::ClearInput => Seq::empty(),
        _ => input,
    }
}

/// Everything but the output line: what `a` does to the tasks, the input line and
/// the quit flag.
pub open spec fn stepped_but_output(pre: AppState, a: ActionView, post: AppState) -> bool {
    &&& todos_stepped(pre.todos@, a, post.todos@)
    &&& post.input_buffer@ == input_after(pre.input_buffer@, a)
    &&& post.should_quit == (pre.should_quit || a is Quit)
}

// ----- executable parts -----

/// The first position of a task with this id.
pub(crate) fn position(todos: &Vec<Todo>, id: u32) -> (r: Option<usize>)
    ensures
        match r {
            Some(i) => is_first_with(todos@, id, i as int) && find_first(todos@, id) == Some(i as int),
            None => find_first(todos@, id) is None,
        },
{
    let mut i: usize = 0;
    while i < todos.len()
        invariant
            i <= todos.len(),
            forall|j: int| 0 <= j < i ==> todos@[j].id != id,
        decreases todos.len() - i,
    {
        if todos[i].id == id {
            assert(is_first_with(todos@, id, i as int));
            let ghost c = choose|k: int| is_first_with(todos@, id, k);
            assert(c == i as int) by {
                if c < i as int {
                    assert(todos@[c].id != id);
                } else if c > i as int {
                    assert(todos@[i as int].id != id);
                }
            }
            return Some(i);
        }
        i += 1;
    }
    assert(!exists|k: int| is_first_with(todos@, id, k));
    None
}

/// `prefix`, then `id` in decimal, then `suffix`.
pub(crate) fn id_message(prefix: &str, id: u32, suffix: &str) -> (r: String)
    ensures
        r@ == prefix@ + decimal(id as nat) + suffix@,
{
    let mut s = String::from_str(prefix);
    push_decimal(&mut s, id as u64);
    s.append(suffix);
    s
}

/// Adds `line` below `text`, or puts it in place of an empty `text`.
pub(crate) fn push_line(text: &mut String, line: &str)
    ensures
        final(text)@ == append_line(old(text)@, line@),
{
    if text.as_str().unicode_len() > 0 {
        text.append("\n");
    }
    text.append(line);
}

/// Moves the task at `i` to status `s`: with a freshly started timer where `s` is In
/// Progress, without a timer otherwise.
pub(crate) fn settle(todos: &mut Vec<Todo>, i: usize, s: TodoStatus)
    requires
        i < old(todos)@.len(),
    ensures
        settled_at(old(todos)@, final(todos)@, i as int, s),
{
    let t = &mut todos[i];
    t.status = s;
    if s == TodoStatus::InProgress {
        let mut timer = Timer::new();
        timer.start();
        t.timer = Some(timer);
    } else {
        t.timer = None;
    }
}

/// The message of a start: the new timer's full length and the focus reminder.
pub(crate) fn start_message() -> (r: String)
    ensures
        r@ == started_msg(),
{
    let mut s = String::from_str("Timer started: ");
    s.append(Timer::format_clock(FOCUS_SECS).as_str());
    s.append("\nFocus for 25 minutes!");
    s
}

/// Applies `action` to the tasks, the input line and the quit flag, and returns the
/// message it reports; the output line is left as it is.
pub(crate) fn apply(state: &mut AppState, action: Action) -> (msg: Option<String>)
    ensures
        stepped_but_output(*old(state), action@, *final(state)),
        final(state).output_buffer == old(state).output_buffer,
        match msg {
            Some(m) => message_of(old(state).todos@, action@) == Some(m@),
            None => message_of(old(state).todos@, action@) is None,
        },
{
    match action {
        Action::Quit => {
            state.should_quit = true;
            None
        },
        Action::AddTodo(text) => {
            let m = largest_id(&state.todos);
            if m < u32::MAX {
                let id = m + 1;
                let ghost pre = state.todos@;
                state.todos.push(Todo::new(id, text));
                assert(state.todos@.drop_last() == pre);
                Some(id_message("Todo added successfully! (ID: ", id, ")"))
            } else {
                Some(String::from_str("No id is left for a new todo."))
            }
        },
        Action::RemoveTodo(id) => match position(&state.todos, id) {
            Some(i) => {
                state.todos.remove(i);
                Some(id_message("Todo ", id, " removed successfully!"))
            },
            None => Some(id_message("Todo with ID ", id, " not found.")),
        },
        Action::CompleteTodo(id) => match position(&state.todos, id) {
            Some(i) => {
                settle(&mut state.todos, i, TodoStatus::Completed);
                Some(id_message("Todo ", id, " completed! Great work!"))
            },
            None => Some(id_message("Todo with ID ", id, " not found.")),
        },
        Action::StartTodo(id) => match position(&state.todos, id) {
            Some(i) => {
                settle(&mut state.todos, i, TodoStatus::InProgress);
                Some(start_message())
            },
            None => Some(id_message("Todo with ID ", id, " not found.")),
        },
        Action::StopTodo(id) => match position(&state.todos, id) {
            Some(i) => {
                settle(&mut state.todos, i, TodoStatus::Pending);
                Some(id_message("Todo ", id, " stopped. Timer removed."))
            },
            None => Some(id_message("Todo with ID ", id, " not found.")),
        },
        Action::ToggleStatus(id) => match position(&state.todos, id) {
            Some(i) => match state.todos[i].status {
                TodoStatus::Pending => {
                    settle(&mut state.todos, i, TodoStatus::InProgress);
                    Some(start_message())
                },
                TodoStatus::InProgress => {
                    settle(&mut state.todos, i, TodoStatus::Completed);
                    Some(id_message("Todo ", id, " completed! Great work!"))
                },
                TodoStatus::Completed => {
                    settle(&mut state.todos, i, TodoStatus::Pending);
                    Some(id_message("Todo ", id, " moved to pending."))
                },
            },
            None => None,
        },
        Action::UpdateInput(s) => {
            state.input_buffer = s;
            None
        },
        Action::ClearInput => {
            state.input_buffer = String::new();
            None
        },
        Action::SetOutput(s) => Some(s),
        Action::NoOp => None,
    }
}

/// Folds one action into the state. The output line is replaced by the action's
/// message, and stays as it was where the action reports none.
pub fn reduce(state: &mut AppState, action: Action)
    ensures
        stepped_but_output(*old(state), action@, *final(state)),
        final(state).output_buffer@ == match message_of(old(state).todos@, action@) {
            Some(m) => m,
            None => old(state).output_buffer@,
        },
{
    if let Some(m) = apply(state, action) {
        state.output_buffer = m;
    }
}


// ----- batches -----

/// `trace[k]` is the task list before the `k`-th action and `trace[k + 1]` the one
/// after it.
pub open spec fn is_trace(trace: Seq<Seq<Todo>>, acts: Seq<ActionView>) -> bool {
    &&& trace.len() == acts.len() + 1
    &&& forall|k: int| 0 <= k < acts.len() ==> todos_stepped(#[trigger] trace[k], acts[k], trace[k + 1])
}

/// The messages that the actions of a batch report, in order, given its trace.
pub open spec fn batch_messages(trace: Seq<Seq<Todo>>, acts: Seq<ActionView>) -> Seq<Seq<char>>
    decreases acts.len(),
{
    if acts.len() == 0 {
        Seq::empty()
    } else {
        let earlier = batch_messages(trace.drop_last(), acts.drop_last());
        match message_of(trace[acts.len() - 1], acts.last()) {
            Some(m) => earlier.push(m),
            None => earlier,
        }
    }
}

/// The input line after each action of a batch in turn.
pub open spec fn input_after_all(input: Seq<char>, acts: Seq<ActionView>) -> Seq<char>
    decreases acts.len(),
{
    if acts.len() == 0 {
        input
    } else {
        input_after(input_after_all(input, acts.drop_last()), acts.last())
    }
}

/// `post` is `pre` after the actions of a batch, one after the other. The output line
/// then holds the batch's messages, one per line.
pub open spec fn batch_stepped(pre: AppState, acts: Seq<ActionView>, post: AppState) -> bool {
    &&& exists|trace: Seq<Seq<Todo>>|
        {
            &&& is_trace(trace, acts)
            &&& trace[0] == pre.todos@
            &&& trace.last() == post.todos@
            &&& post.output_buffer@ == join_lines(batch_messages(trace, acts))
        }
    &&& post.input_buffer@ == input_after_all(pre.input_buffer@, acts)
    &&& post.should_quit == (pre.should_quit || exists|k: int| 0 <= k < acts.len() && acts[k] is Quit)
}

/// `post` is `pre` after `dispatch` of `batch`.
pub open spec fn dispatched(pre: AppState, batch: OneOrMany<Action>, post: AppState) -> bool {
    match batch {
        OneOrMany::One(a) => {
            &&& stepped_but_output(pre, a@, post)
            &&& post.output_buffer@ == match message_of(pre.todos@, a@) {
                Some(m) => m,
                None => pre.output_buffer@,
            }
        },
        OneOrMany::Many(v) => batch_stepped(pre, action_views(v@), post),
    }
}

/// Folds what one command asked for into the state. A single action goes through
/// `reduce`. The actions of a batch are applied in order, and the output line then
/// holds each message that they report, one per line.
#[verifier::rlimit(80)]
pub fn dispatch(state: &mut AppState, batch: OneOrMany<Action>)
    ensures
        dispatched(*old(state), batch, *final(state)),
{
    match batch {
        OneOrMany::One(a) => reduce(state, a),
        OneOrMany::Many(v) => {
            let ghost acts = action_views(v@);
            let ghost pre_todos = state.todos@;
            let ghost pre_input = state.input_buffer@;
            let ghost pre_quit = state.should_quit;
            let ghost mut trace: Seq<Seq<Todo>> = seq![state.todos@];
            let mut rest = v;
            let n = rest.len();
            let mut i: usize = 0;
            state.output_buffer = String::new();
            while rest.len() > 0
                invariant
                    i + rest@.len() == acts.len(),
                    acts.len() == n,
                    action_views(rest@) == acts.skip(i as int),
                    is_trace(trace, acts.take(i as int)),
                    trace[0] == pre_todos,
                    trace.last() == state.todos@,
                    state.output_buffer@ == join_lines(batch_messages(trace, acts.take(i as int))),
                    state.input_buffer@ == input_after_all(pre_input, acts.take(i as int)),
                    state.should_quit == (pre_quit || exists|k: int| 0 <= k < i && acts[k] is Quit),
                decreases rest.len(),
            {
                let ghost before = state.todos@;
                let ghost old_rest = rest@;
                let ghost old_trace = trace;
                let a = rest.remove(0);
                proof {
                    lemma_views_drop_first(old_rest);
                    assert(rest@ =~= old_rest.drop_first());
                    assert(acts.skip(i as int).drop_first() =~= acts.skip(i as int + 1));
                }
                let m = apply(state, a);
                proof {
                    lemma_trace_push(old_trace, acts, i as int, state.todos@, pre_input);
                    trace = trace.push(state.todos@);
                    assert(exists|k: int| 0 <= k < i + 1 && acts[k] is Quit <==> (exists|k: int|
                        0 <= k < i && acts[k] is Quit) || acts[i as int] is Quit);
                }
                if let Some(m) = m {
                    proof {
                        lemma_join_push(batch_messages(old_trace, acts.take(i as int)), m@);
                    }
                    push_line(&mut state.output_buffer, m.as_str());
                }
                i += 1;
            }
            proof {
                assert(acts.take(i as int) =~= acts);
            }
        },
    }
}

/// The views of the actions after the first are the views after the first view.
proof fn lemma_views_drop_first(v: Seq<Action>)
    requires
        v.len() > 0,
    ensures
        action_views(v.drop_first()) == action_views(v).drop_first(),
        action_views(v)[0] == v[0]@,
{
    assert(action_views(v.drop_first()) =~= action_views(v).drop_first());
}

/// One more step of a batch extends its trace, its messages and its input line.
proof fn lemma_trace_push(
    trace: Seq<Seq<Todo>>,
    acts: Seq<ActionView>,
    i: int,
    post: Seq<Todo>,
    input: Seq<char>,
)
    requires
        0 <= i < acts.len(),
        is_trace(trace, acts.take(i)),
        todos_stepped(trace.last(), acts[i], post),
    ensures
        is_trace(trace.push(post), acts.take(i + 1)),
        trace.push(post)[0] == trace[0],
        batch_messages(trace.push(post), acts.take(i + 1)) == match message_of(
            trace.last(),
            acts[i],
        ) {
            Some(m) => batch_messages(trace, acts.take(i)).push(m),
            None => batch_messages(trace, acts.take(i)),
        },
        input_after_all(input, acts.take(i + 1)) == input_after(
            input_after_all(input, acts.take(i)),
            acts[i],
        ),
{
    let t1 = acts.take(i + 1);
    let tr = trace.push(post);
    assert(t1.drop_last() =~= acts.take(i));
    assert(tr.drop_last() =~= trace);
    assert forall|k: int| 0 <= k < t1.len() implies todos_stepped(#[trigger] tr[k], t1[k], tr[k + 1]) by {
        if k < i {
            assert(tr[k] == trace[k]);
            assert(tr[k + 1] == trace[k + 1]);
            assert(acts.take(i)[k] == t1[k]);
        }
    }
}

/// Messages joined line by line: one more message goes below the others.
proof fn lemma_join_push(lines: Seq<Seq<char>>, m: Seq<char>)
    ensures
        join_lines(lines.push(m)) == append_line(join_lines(lines), m),
{
    assert(lines.push(m).drop_last() =~= lines);
}

// ----- laws -----

/// A new task gets the id one above the largest id of the list, and 1 on an empty
/// list: above every id already there.
pub proof fn lemma_add_assigns_next_id(pre: Seq<Todo>, text: Seq<char>, post: Seq<Todo>)
    requires
        max_id(pre) < u32::MAX,
        todos_stepped(pre, ActionView::AddTodo(text), post),
    ensures
        post.last().id as nat == max_id(pre) + 1,
        pre.len() == 0 ==> post.last().id == 1,
        forall|i: int| 0 <= i < pre.len() ==> pre[i].id < post.last().id,
        pre.len() > 0 ==> exists|i: int| 0 <= i < pre.len() && post.last().id == pre[i].id + 1,
{
    lemma_max_id_is_max(pre);
}

/// Two positions that are both the first of one id are the same position.
pub proof fn lemma_first_unique(todos: Seq<Todo>, id: u32, i: int, j: int)
    requires
        is_first_with(todos, id, i),
        is_first_with(todos, id, j),
    ensures
        i == j,
{
    if i < j {
        assert(todos[i].id == id);
    } else if j < i {
        assert(todos[j].id == id);
    }
}

/// Where some position holds an id, a first one does.
proof fn lemma_first_exists(todos: Seq<Todo>, id: u32, j: int)
    requires
        0 <= j < todos.len(),
        todos[j].id == id,
    ensures
        exists|i: int| is_first_with(todos, id, i),
    decreases j,
{
    if exists|k: int| 0 <= k < j && todos[k].id == id {
        let k = choose|k: int| 0 <= k < j && todos[k].id == id;
        lemma_first_exists(todos, id, k);
    } else {
        assert(is_first_with(todos, id, j));
    }
}

/// `find_first` finds the first position of an id exactly where one exists.
pub proof fn lemma_find_first(todos: Seq<Todo>, id: u32)
    ensures
        match find_first(todos, id) {
            Some(i) => is_first_with(todos, id, i),
            None => forall|j: int| 0 <= j < todos.len() ==> todos[j].id != id,
        },
{
    if !exists|i: int| is_first_with(todos, id, i) {
        assert forall|j: int| 0 <= j < todos.len() implies todos[j].id != id by {
            if todos[j].id == id {
                lemma_first_exists(todos, id, j);
            }
        }
    }
}

/// No two tasks share an id.
pub open spec fn ids_unique(todos: Seq<Todo>) -> bool {
    forall|i: int, j: int|
        0 <= i < todos.len() && 0 <= j < todos.len() && i != j ==> todos[i].id != todos[j].id
}

/// Removing a present id takes exactly one task off the list, and where ids are
/// unique no task with that id is left. Removing an absent id leaves the list as it
/// was and reports that the id was not found.
pub proof fn lemma_remove(pre: Seq<Todo>, id: u32, post: Seq<Todo>)
    requires
        todos_stepped(pre, ActionView::RemoveTodo(id), post),
    ensures
        (exists|i: int| 0 <= i < pre.len() && pre[i].id == id) ==> post.len() == pre.len() - 1,
        (exists|i: int| 0 <= i < pre.len() && pre[i].id == id) && ids_unique(pre) ==> forall|j: int|
            0 <= j < post.len() ==> post[j].id != id,
        !(exists|i: int| 0 <= i < pre.len() && pre[i].id == id) ==> {
            &&& post == pre
            &&& message_of(pre, ActionView::RemoveTodo(id)) == Some(not_found_msg(id))
        },
{
    lemma_find_first(pre, id);
    if let Some(i) = find_first(pre, id) {
        if ids_unique(pre) {
            assert forall|j: int| 0 <= j < post.len() implies post[j].id != id by {
                if j < i {
                    assert(post[j] == pre[j]);
                } else {
                    assert(post[j] == pre[j + 1]);
                }
            }
        }
    }
}

/// Stopping or completing a task leaves it without a timer; an absent id changes
/// nothing.
pub proof fn lemma_stop_complete_clear_timer(pre: Seq<Todo>, a: ActionView, id: u32, post: Seq<Todo>)
    requires
        a == ActionView::StopTodo(id) || a == ActionView::CompleteTodo(id),
        todos_stepped(pre, a, post),
    ensures
        match find_first(pre, id) {
            Some(i) => post[i].id == id && post[i].timer is None,
            None => post == pre,
        },
{
    lemma_find_first(pre, id);
}

/// Lists with the same ids, position by position, have their first position of each
/// id in common.
pub proof fn lemma_find_first_same_ids(a: Seq<Todo>, b: Seq<Todo>, id: u32)
    requires
        a.len() == b.len(),
        forall|j: int| 0 <= j < a.len() ==> #[trigger] a[j].id == b[j].id,
    ensures
        find_first(a, id) == find_first(b, id),
{
    assert forall|i: int| is_first_with(a, id, i) <==> is_first_with(b, id, i) by {
        if 0 <= i < a.len() {
            assert(a[i].id == b[i].id);
            if forall|j: int| 0 <= j < i ==> a[j].id != id {
                assert forall|j: int| 0 <= j < i implies b[j].id != id by {
                    assert(a[j].id == b[j].id);
                }
            }
            if forall|j: int| 0 <= j < i ==> b[j].id != id {
                assert forall|j: int| 0 <= j < i implies a[j].id != id by {
                    assert(a[j].id == b[j].id);
                }
            }
        }
    }
    if exists|i: int| is_first_with(a, id, i) {
        let ia = choose|i: int| is_first_with(a, id, i);
        let ib = choose|i: int| is_first_with(b, id, i);
        lemma_first_unique(a, id, ia, ib);
    }
}

/// A toggle, applied three times to one id, brings every task back to the status it
/// had; each task keeps its id and description, and the others stay as they were.
/// Where the task lands on In Progress again, it holds a fresh timer.
pub proof fn lemma_toggle_cycle(t0: Seq<Todo>, t1: Seq<Todo>, t2: Seq<Todo>, t3: Seq<Todo>, id: u32)
    requires
        todos_stepped(t0, ActionView::ToggleStatus(id), t1),
        todos_stepped(t1, ActionView::ToggleStatus(id), t2),
        todos_stepped(t2, ActionView::ToggleStatus(id), t3),
    ensures
        t3.len() == t0.len(),
        forall|j: int|
            0 <= j < t0.len() ==> {
                &&& #[trigger] t3[j].status == t0[j].status
                &&& t3[j].id == t0[j].id
                &&& t3[j].description == t0[j].description
            },
        match find_first(t0, id) {
            Some(i) => {
                &&& forall|j: int| 0 <= j < t0.len() && j != i ==> t3[j] == t0[j]
                &&& t0[i].status == TodoStatus::InProgress ==> is_fresh_timer(t3[i].timer)
            },
            None => t3 == t0,
        },
{
    match find_first(t0, id) {
        Some(i) => {
            lemma_find_first_same_ids(t0, t1, id);
            lemma_find_first_same_ids(t1, t2, id);
        },
        None => {},
    }
}

/// Every action keeps the steady state: a task holds a timer exactly while it is in
/// progress.
pub proof fn lemma_step_keeps_steady(pre: Seq<Todo>, a: ActionView, post: Seq<Todo>)
    requires
        forall|i: int| 0 <= i < pre.len() ==> is_steady(#[trigger] pre[i]),
        todos_stepped(pre, a, post),
    ensures
        forall|i: int| 0 <= i < post.len() ==> is_steady(#[trigger] post[i]),
{
    match a {
        ActionView::AddTodo(_) => {
            if max_id(pre) < u32::MAX {
                assert forall|i: int| 0 <= i < post.len() implies is_steady(#[trigger] post[i]) by {
                    if i < pre.len() {
                        assert(post[i] == post.drop_last()[i]);
                    }
                }
            }
        },
        ActionView::RemoveTodo(id) => {
            if let Some(k) = find_first(pre, id) {
                assert forall|i: int| 0 <= i < post.len() implies is_steady(#[trigger] post[i]) by {
                    if i < k {
                        assert(post[i] == pre[i]);
                    } else {
                        assert(post[i] == pre[i + 1]);
                    }
                }
            }
        },
        _ => {},
    }
}

} // verus!
