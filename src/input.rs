use vstd::prelude::*;
use vstd::string::{StrSliceExecFns, StringExecFns};
use crate::parse::{parse_command, parse_spec};
use crate::reduce::{action_views, dispatch, dispatched, Action, ActionView, AppState};
use crate::text::is_white_space;
use crate::utils::OneOrMany;

verus! {

/// The keys that the input line reacts to.
#[derive(Debug, Clone, Copy, PartialEq, Eq, Structural)]
pub enum Key {
    Esc,
    Enter,
    Backspace,
    Char(char),
    Other,
}

/// `s` holds nothing but white space.
pub open spec fn is_blank(s: Seq<char>) -> bool {
    forall|i: int| 0 <= i < s.len() ==> is_white_space(#[trigger] s[i])
}

/// Whether `s` holds nothing but white space.
fn blank(s: &str) -> (r: bool)
    ensures
        r == is_blank(s@),
{
    let n = s.unicode_len();
    let mut i: usize = 0;
    while i < n
        invariant
            n == s@.len(),
            i <= n,
            forall|k: int| 0 <= k < i ==> is_white_space(#[trigger] s@[k]),
        decreases n - i,
    {
        if !s.get_char(i).is_whitespace() {
            return false;
        }
        i += 1;
    }
    true
}

/// The actions that a key press asks for, given the input line typed so far: Esc
/// quits, Enter submits the line (nothing where it is blank), a character is added to
/// the line and Backspace takes the last one off.
pub open spec fn key_actions(key: Key, current_input: Seq<char>, r: OneOrMany<Action>) -> bool {
    match key {
        Key::Esc => action_views(r.items()) == seq![ActionView::Quit] && r is One,
        Key::Enter => if is_blank(current_input) {
            action_views(r.items()) == seq![ActionView::NoOp] && r is One
        } else {
            &&& action_views(r.items()) == parse_spec(current_input)
            &&& r is One <==> parse_spec(current_input).len() == 1
        },
        Key::Char(c) => action_views(r.items()) == seq![
            ActionView::UpdateInput(current_input.push(c)),
        ] && r is One,
        Key::Backspace => action_views(r.items()) == seq![
            ActionView::UpdateInput(
                if current_input.len() == 0 {
                    current_input
                } else {
                    current_input.drop_last()
                },
            ),
        ] && r is One,
        Key::Other => action_views(r.items()) == seq![ActionView::NoOp] && r is One,
    }
}

/// What a key press asks for, given the input line typed so far (see `key_actions`).
pub fn handle_key_event(key: Key, current_input: &str) -> (r: OneOrMany<Action>)
    ensures
        key_actions(key, current_input@, r),
{
    let a = match key {
        Key::Esc => Action::Quit,
        Key::Enter => {
            if blank(current_input) {
                Action::NoOp
            } else {
                return parse_command(current_input);
            }
        },
        Key::Char(c) => {
            let mut s = String::from_str(current_input);
            s.push(c);
            Action::UpdateInput(s)
        },
        Key::Backspace => {
            let mut s = String::from_str(current_input);
            s.pop();
            Action::UpdateInput(s)
        },
        Key::Other => Action::NoOp,
    };
    assert(action_views(seq![a]) =~= seq![a@]);
    OneOrMany::One(a)
}

/// `post` is `pre` after the key press: the actions that it asks for, dispatched
/// as `batch`, with the input line cleared after Enter.
pub open spec fn pressed(pre: AppState, key: Key, batch: OneOrMany<Action>, mid: AppState, post: AppState) -> bool {
    &&& key_actions(key, pre.input_buffer@, batch)
    &&& dispatched(pre, batch, mid)
    &&& post.todos == mid.todos
    &&& post.output_buffer == mid.output_buffer
    &&& post.should_quit == mid.should_quit
    &&& post.input_buffer@ == if key == Key::Enter {
        Seq::empty()
    } else {
        mid.input_buffer@
    }
}

/// Handles one key press: folds the actions it asks for into the state, and after
/// Enter clears the input line, whose text has been submitted.
pub fn press_key(state: &mut AppState, key: Key)
    ensures
        exists|batch: OneOrMany<Action>, mid: AppState|
            #[trigger] pressed(*old(state), key, batch, mid, *final(state)),
{
    let batch = handle_key_event(key, state.input_buffer.as_str());
    let ghost b = batch;
    let ghost pre = *state;
    dispatch(state, batch);
    let ghost mid = *state;
    if key == Key::Enter {
        state.input_buffer = String::new();
    }
    assert(pressed(pre, key, b, mid, *state));
}

} // verus!
