use vstd::prelude::*;
use crate::models::timer::{restored_view, wall_clock_secs, Timer};
use vstd::string::StringExecFns;

verus! {

/// Where a task stands.
#[derive(Debug, Clone, Copy, PartialEq, Eq, Structural)]
pub enum TodoStatus {
    Pending,
    InProgress,
    Completed,
}

/// The label under which a status is shown.
pub open spec fn status_label(s: TodoStatus) -> Seq<char> {
    match s {
        TodoStatus::Pending => "Pending"@,
        TodoStatus::InProgress => "In Progress"@,
        TodoStatus::Completed => "Completed"@,
    }
}

impl TodoStatus {
    /// The label under which this status is shown.
    pub fn to_string(&self) -> (r: String)
        ensures
            r@ == status_label(*self),
    {
        match self {
            TodoStatus::Pending => String::from_str("Pending"),
            TodoStatus::InProgress => String::from_str("In Progress"),
            TodoStatus::Completed => String::from_str("Completed"),
        }
    }
}

/// A task of the list.
#[derive(Clone)]
pub struct Todo {
    pub id: u32,
    pub description: String,
    pub status: TodoStatus,
    pub timer: Option<Timer>,
}

/// The largest id in `todos`, zero for an empty list.
pub open spec fn max_id(todos: Seq<Todo>) -> nat
    decreases todos.len(),
{
    if todos.len() == 0 {
        0
    } else {
        let m = max_id(todos.drop_last());
        if todos.last().id as nat > m {
            todos.last().id as nat
        } else {
            m
        }
    }
}

/// The steady state of a task: it holds a timer exactly while it is in progress.
pub open spec fn is_steady(t: Todo) -> bool {
    (t.timer is Some) == (t.status == TodoStatus::InProgress)
}

/// `max_id` bounds every id of the list and, on a non-empty list, is one of them.
pub proof fn lemma_max_id_is_max(todos: Seq<Todo>)
    ensures
        forall|i: int| 0 <= i < todos.len() ==> todos[i].id as nat <= max_id(todos),
        todos.len() > 0 ==> exists|i: int| 0 <= i < todos.len() && todos[i].id as nat == max_id(todos),
    decreases todos.len(),
{
    if todos.len() > 0 {
        let init = todos.drop_last();
        lemma_max_id_is_max(init);
        assert forall|i: int| 0 <= i < todos.len() implies todos[i].id as nat <= max_id(todos) by {
            if i < todos.len() - 1 {
                assert(todos[i] == init[i]);
            }
        }
        if todos.last().id as nat > max_id(init) || init.len() == 0 {
            assert(todos[todos.len() - 1].id as nat == max_id(todos));
        } else {
            let j = choose|j: int| 0 <= j < init.len() && init[j].id as nat == max_id(init);
            assert(todos[j] == init[j]);
        }
    }
}

/// The largest id of `todos`, zero for an empty list.
pub fn largest_id(todos: &Vec<Todo>) -> (r: u32)
    ensures
        r as nat == max_id(todos@),
{
    let mut m: u32 = 0;
    let mut i: usize = 0;
    while i < todos.len()
        invariant
            i <= todos.len(),
            m as nat == max_id(todos@.take(i as int)),
        decreases todos.len() - i,
    {
        assert(todos@.take(i as int + 1).drop_last() == todos@.take(i as int));
        if todos[i].id > m {
            m = todos[i].id;
        }
        i += 1;
    }
    assert(todos@.take(i as int) == todos@);
    m
}

/// `post` is `pre` with every timer restored at the wall-clock reading `wall_now`
/// (see `restored_view`); ids, descriptions and statuses stay as they were.
pub open spec fn all_restored(pre: Seq<Todo>, post: Seq<Todo>, wall_now: nat) -> bool {
    &&& post.len() == pre.len()
    &&& forall|i: int|
        0 <= i < pre.len() ==> {
            let (a, b) = (#[trigger] pre[i], post[i]);
            &&& b.id == a.id
            &&& b.description == a.description
            &&& b.status == a.status
            &&& (b.timer is Some) == (a.timer is Some)
            &&& a.timer is Some ==> restored_view(a.timer->0@, b.timer->0@, wall_now)
        }
}

impl Todo {
    /// A pending task without a timer.
    pub fn new(id: u32, description: String) -> (t: Todo)
        ensures
            t.id == id,
            t.description == description,
            t.status == TodoStatus::Pending,
            t.timer is None,
    {
        Todo { id, description, status: TodoStatus::Pending, timer: None }
    }

    /// The id for a new task: one more than the largest id, 1 for an empty list.
    pub fn next_id(todos: &Vec<Todo>) -> (r: u32)
        requires
            max_id(todos@) < u32::MAX,
        ensures
            r as nat == max_id(todos@) + 1,
    {
        largest_id(todos) + 1
    }

    /// Gives every started timer of freshly loaded tasks its monotonic reference, set
    /// back by the wall-clock time spent since its start at the reading `wall_now`
    /// (see `Timer::restore_instant_at`). Ids, descriptions and statuses stay as they
    /// were.
    pub fn restore_instants_at(todos: &mut Vec<Todo>, wall_now: u64)
        ensures
            all_restored(old(todos)@, final(todos)@, wall_now as nat),
    {
        let ghost orig = todos@;
        let mut i: usize = 0;
        while i < todos.len()
            invariant
                i <= todos.len(),
                todos@.len() == orig.len(),
                forall|j: int| i <= j < orig.len() ==> #[trigger] todos@[j] == orig[j],
                forall|j: int|
                    0 <= j < i ==> {
                        let (a, b) = (#[trigger] orig[j], todos@[j]);
                        &&& b.id == a.id
                        &&& b.description == a.description
                        &&& b.status == a.status
                        &&& (b.timer is Some) == (a.timer is Some)
                        &&& a.timer is Some ==> restored_view(
                            a.timer->0@,
                            b.timer->0@,
                            wall_now as nat,
                        )
                    },
            decreases todos.len() - i,
        {
            let t = &mut todos[i];
            if let Some(timer) = &mut t.timer {
                timer.restore_instant_at(wall_now);
            }
            i += 1;
        }
    }

    /// `restore_instants_at` with the wall clock read once, now.
    pub fn restore_instants(todos: &mut Vec<Todo>)
        ensures
            exists|w: nat| #[trigger] all_restored(old(todos)@, final(todos)@, w),
    {
        let wall_now = wall_clock_secs();
        Todo::restore_instants_at(todos, wall_now);
        assert(all_restored(old(todos)@, todos@, wall_now as nat));
    }
}

} // verus!
