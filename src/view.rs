use vstd::prelude::*;
use vstd::string::{StrSliceExecFns, StringExecFns};
use crate::models::timer::{clock_text, Timer, FOCUS_SECS};
use crate::models::todo::TodoStatus;

verus! {

/// The colour in which a status is shown.
#[derive(Debug, Clone, Copy, PartialEq, Eq, Structural)]
pub enum StatusColor {
    Yellow,
    Cyan,
    Green,
}

/// Pending tasks show in yellow, tasks in progress in cyan, completed ones in green.
pub open spec fn color_of(s: TodoStatus) -> StatusColor {
    match s {
        TodoStatus::Pending => StatusColor::Yellow,
        TodoStatus::InProgress => StatusColor::Cyan,
        TodoStatus::Completed => StatusColor::Green,
    }
}

/// The colour in which a status is shown.
pub fn status_color(s: TodoStatus) -> (r: StatusColor)
    ensures
        r == color_of(s),
{
    match s {
        TodoStatus::Pending => StatusColor::Yellow,
        TodoStatus::InProgress => StatusColor::Cyan,
        TodoStatus::Completed => StatusColor::Green,
    }
}

/// The timer column of a task: the time left as `MM:SS`, or `--:--` without a timer.
pub fn timer_text(t: &Option<Timer>) -> (r: String)
    ensures
        t is None ==> r@ == "--:--"@,
        t is Some ==> exists|secs: nat| secs <= FOCUS_SECS && r@ == #[trigger] clock_text(secs),
{
    match t {
        Some(timer) => timer.output(),
        None => String::from_str("--:--"),
    }
}

/// The number of line breaks in `s`.
pub open spec fn line_breaks(s: Seq<char>) -> nat
    decreases s.len(),
{
    if s.len() == 0 {
        0
    } else {
        line_breaks(s.drop_last()) + if s.last() == '\n' {
            1nat
        } else {
            0nat
        }
    }
}

/// The height of a task's row: one per line break of its description, at least one.
pub fn row_height(description: &str) -> (r: usize)
    ensures
        r as nat == if line_breaks(description@) > 1 {
            line_breaks(description@)
        } else {
            1
        },
{
    let n = description.unicode_len();
    let mut count: usize = 0;
    let mut i: usize = 0;
    while i < n
        invariant
            n == description@.len(),
            i <= n,
            count as nat == line_breaks(description@.take(i as int)),
            count <= i,
        decreases n - i,
    {
        assert(description@.take(i as int + 1).drop_last() =~= description@.take(i as int));
        if description.get_char(i) == '\n' {
            count += 1;
        }
        i += 1;
    }
    assert(description@.take(n as int) =~= description@);
    if count > 1 {
        count
    } else {
        1
    }
}

} // verus!
