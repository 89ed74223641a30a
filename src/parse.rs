use vstd::prelude::*;
use vstd::string::{StrSliceExecFns, StringExecFns};
use crate::reduce::{action_views, Action, ActionView};
use crate::text::{decimal, is_white_space, push_decimal};
use crate::utils::OneOrMany;

verus! {

/// The texts of a sequence of strings.
pub open spec fn texts(v: Seq<String>) -> Seq<Seq<char>> {
    v.map_values(|t: String| t@)
}

/// The words of `s`: its maximal runs of characters that are not white space, in
/// order.
pub open spec fn words(s: Seq<char>) -> Seq<Seq<char>>
    decreases s.len(),
{
    if s.len() == 0 {
        Seq::empty()
    } else {
        let earlier = words(s.drop_last());
        let c = s.last();
        if is_white_space(c) {
            earlier
        } else if s.len() >= 2 && !is_white_space(s[s.len() - 2]) {
            earlier.drop_last().push(earlier.last().push(c))
        } else {
            earlier.push(seq![c])
        }
    }
}

pub open spec fn is_digit(c: char) -> bool {
    '0' <= c && c <= '9'
}

/// The value of a run of decimal digits.
pub open spec fn digits_value(s: Seq<char>) -> nat
    decreases s.len(),
{
    if s.len() == 0 {
        0
    } else {
        digits_value(s.drop_last()) * 10 + (s.last() as nat - '0' as nat) as nat
    }
}

pub open spec fn all_digits(d: Seq<char>) -> bool {
    forall|i: int| 0 <= i < d.len() ==> is_digit(#[trigger] d[i])
}

/// `s` without a leading `+`.
pub open spec fn unsigned_part(s: Seq<char>) -> Seq<char> {
    if s.len() > 0 && s[0] == '+' {
        s.drop_first()
    } else {
        s
    }
}

/// What reading `s` as a `u32` gives: an optional `+`, then one or more decimal
/// digits whose value fits.
pub open spec fn read_u32(s: Seq<char>) -> Option<u32> {
    let d = unsigned_part(s);
    if d.len() > 0 && all_digits(d) && digits_value(d) <= u32::MAX {
        Some(digits_value(d) as u32)
    } else {
        None
    }
}

/// The words that read as numbers, as numbers, in order.
pub open spec fn numbers_of(ws: Seq<Seq<char>>) -> Seq<u32>
    decreases ws.len(),
{
    if ws.len() == 0 {
        Seq::empty()
    } else {
        match read_u32(ws.last()) {
            Some(n) => numbers_of(ws.drop_last()).push(n),
            None => numbers_of(ws.drop_last()),
        }
    }
}

/// The words that do not read as numbers, in order.
pub open spec fn others_of(ws: Seq<Seq<char>>) -> Seq<Seq<char>>
    decreases ws.len(),
{
    if ws.len() == 0 {
        Seq::empty()
    } else {
        match read_u32(ws.last()) {
            Some(_) => others_of(ws.drop_last()),
            None => others_of(ws.drop_last()).push(ws.last()),
        }
    }
}

/// The words with one space between each two.
pub open spec fn spaced(ws: Seq<Seq<char>>) -> Seq<char>
    decreases ws.len(),
{
    if ws.len() == 0 {
        Seq::empty()
    } else if ws.len() == 1 {
        ws[0]
    } else {
        spaced(ws.drop_last()) + " "@ + ws.last()
    }
}

/// `w` is the lower-case ASCII keyword `kw`, in any case.
pub open spec fn is_keyword(w: Seq<char>, kw: Seq<char>) -> bool {
    &&& w.len() == kw.len()
    &&& forall|i: int|
        0 <= i < w.len() ==> #[trigger] w[i] == kw[i] || ('a' <= kw[i] && kw[i] <= 'z' && w[i] as u32
            + 32 == kw[i] as u32)
}

/// The commands that act on each id they are given.
#[derive(Clone, Copy)]
pub enum IdCommand {
    Remove,
    Complete,
    Start,
    Stop,
    Toggle,
}

/// The action of an id command on one id.
pub open spec fn id_action(c: IdCommand, id: u32) -> ActionView {
    match c {
        IdCommand::Remove => ActionView::RemoveTodo(id),
        IdCommand::Complete => ActionView::CompleteTodo(id),
        IdCommand::Start => ActionView::StartTodo(id),
        IdCommand::Stop => ActionView::StopTodo(id),
        IdCommand::Toggle => ActionView::ToggleStatus(id),
    }
}

/// One action of the command per id, in order; the usage line where there is none.
pub open spec fn fan_out(c: IdCommand, ids: Seq<u32>, usage: Seq<char>) -> Seq<ActionView> {
    if ids.len() == 0 {
        seq![ActionView::SetOutput(usage)]
    } else {
        ids.map_values(|id: u32| id_action(c, id))
    }
}

/// The actions that a line of input asks for. Numbers are collected apart from the
/// other words; the first other word is the command. Without one, the numbers toggle
/// their tasks.
pub open spec fn parse_spec(s: Seq<char>) -> Seq<ActionView> {
    let ws = words(s);
    let nums = numbers_of(ws);
    let others = others_of(ws);
    if others.len() == 0 {
        if nums.len() > 0 {
            fan_out(IdCommand::Toggle, nums, Seq::empty())
        } else {
            seq![ActionView::SetOutput("Invalid command"@)]
        }
    } else {
        let cmd = others[0];
        let rest = others.drop_first();
        if is_keyword(cmd, "quit"@) || is_keyword(cmd, "exit"@) || is_keyword(cmd, "q"@) {
            seq![ActionView::Quit]
        } else if is_keyword(cmd, "add"@) {
            if nums.len() + rest.len() == 0 {
                seq![ActionView::SetOutput("Usage: add <todo text>"@)]
            } else {
                seq![ActionView::AddTodo(spaced(nums.map_values(|n: u32| decimal(n as nat)) + rest))]
            }
        } else if is_keyword(cmd, "remove"@) || is_keyword(cmd, "rm"@) {
            fan_out(IdCommand::Remove, nums, "Usage: remove <id> [<id> ...]"@)
        } else if is_keyword(cmd, "complete"@) || is_keyword(cmd, "done"@) {
            fan_out(IdCommand::Complete, nums, "Usage: complete <id> [<id> ...]"@)
        } else if is_keyword(cmd, "start"@) {
            fan_out(IdCommand::Start, nums, "Usage: start <id> [<id> ...]"@)
        } else if is_keyword(cmd, "stop"@) {
            fan_out(IdCommand::Stop, nums, "Usage: stop <id> [<id> ...]"@)
        } else {
            seq![ActionView::SetOutput("Invalid command"@)]
        }
    }
}

/// The value of a prefix of a run of digits is at most the value of the whole run.
pub proof fn lemma_prefix_value_le(d: Seq<char>, k: int)
    requires
        0 <= k <= d.len(),
        all_digits(d),
    ensures
        digits_value(d.take(k)) <= digits_value(d),
    decreases d.len(),
{
    if k < d.len() {
        let init = d.drop_last();
        assert(init.take(k) =~= d.take(k));
        lemma_prefix_value_le(init, k);
    } else {
        assert(d.take(k) =~= d);
    }
}

/// Splits `input` into its words.
pub fn split_words(input: &str) -> (r: Vec<String>)
    ensures
        texts(r@) == words(input@),
{
    let n = input.unicode_len();
    let mut toks: Vec<String> = Vec::new();
    let mut in_word = false;
    let mut i: usize = 0;
    while i < n
        invariant
            n == input@.len(),
            i <= n,
            texts(toks@) == words(input@.take(i as int)),
            in_word == (i > 0 && !is_white_space(input@[i - 1])),
            in_word ==> toks@.len() > 0,
        decreases n - i,
    {
        let c = input.get_char(i);
        let ghost s1 = input@.take(i as int + 1);
        proof {
            assert(s1.drop_last() =~= input@.take(i as int));
            assert(s1.last() == c);
            if i > 0 {
                assert(s1[s1.len() - 2] == input@[i - 1]);
            }
        }
        if c.is_whitespace() {
            in_word = false;
        } else if in_word {
            let ghost before = toks@;
            let mut last = toks.pop().unwrap();
            last.push(c);
            toks.push(last);
            assert(texts(toks@) =~= texts(before).drop_last().push(texts(before).last().push(c)));
        } else {
            let ghost before = toks@;
            let mut w = String::new();
            w.push(c);
            toks.push(w);
            in_word = true;
            assert(texts(toks@) =~= texts(before).push(seq![c]));
        }
        i += 1;
    }
    assert(input@.take(n as int) =~= input@);
    toks
}

/// Reads `w` as a `u32`: an optional `+`, then decimal digits whose value fits.
pub fn read_number(w: &str) -> (r: Option<u32>)
    ensures
        r == read_u32(w@),
{
    let n = w.unicode_len();
    let mut start: usize = 0;
    if n > 0 && w.get_char(0) == '+' {
        start = 1;
    }
    let ghost d = w@.subrange(start as int, n as int);
    proof {
        if start == 1 {
            assert(d =~= w@.drop_first());
        } else {
            assert(d =~= w@);
        }
    }
    if start == n {
        return None;
    }
    let mut v: u64 = 0;
    let mut i: usize = start;
    while i < n
        invariant
            n == w@.len(),
            d == w@.subrange(start as int, n as int),
            d == unsigned_part(w@),
            d.len() > 0,
            start <= i <= n,
            forall|k: int| start <= k < i ==> is_digit(#[trigger] w@[k]),
            v as nat == digits_value(d.take(i - start)),
            v <= u32::MAX,
        decreases n - i,
    {
        let c = w.get_char(i);
        if !('0' <= c && c <= '9') {
            proof {
                assert(d[i - start] == c);
                assert(!all_digits(d));
            }
            return None;
        }
        proof {
            assert(d.take(i - start + 1).drop_last() =~= d.take(i - start));
            assert(d.take(i - start + 1).last() == c);
        }
        v = v * 10 + (c as u64 - '0' as u64);
        if v > u32::MAX as u64 {
            proof {
                if all_digits(d) {
                    lemma_prefix_value_le(d, i - start + 1);
                    assert(digits_value(d) > u32::MAX);
                }
            }
            return None;
        }
        i += 1;
    }
    assert(d.take(i - start) =~= d);
    assert(all_digits(d)) by {
        assert forall|k: int| 0 <= k < d.len() implies is_digit(#[trigger] d[k]) by {
            assert(d[k] == w@[k + start]);
        }
    }
    Some(v as u32)
}

/// Whether `w` is the lower-case ASCII keyword `kw`, in any case.
pub fn is_keyword_exec(w: &str, kw: &str) -> (r: bool)
    ensures
        r == is_keyword(w@, kw@),
{
    let n = w.unicode_len();
    if n != kw.unicode_len() {
        return false;
    }
    let mut i: usize = 0;
    while i < n
        invariant
            n == w@.len(),
            n == kw@.len(),
            i <= n,
            forall|k: int|
                0 <= k < i ==> #[trigger] w@[k] == kw@[k] || ('a' <= kw@[k] && kw@[k] <= 'z'
                    && w@[k] as u32 + 32 == kw@[k] as u32),
        decreases n - i,
    {
        let a = w.get_char(i);
        let b = kw.get_char(i);
        if !(a == b || ('a' <= b && b <= 'z' && a as u32 == b as u32 - 32)) {
            return false;
        }
        i += 1;
    }
    true
}

/// The action of an id command on one id.
fn id_action_exec(c: IdCommand, id: u32) -> (a: Action)
    ensures
        a@ == id_action(c, id),
{
    match c {
        IdCommand::Remove => Action::RemoveTodo(id),
        IdCommand::Complete => Action::CompleteTodo(id),
        IdCommand::Start => Action::StartTodo(id),
        IdCommand::Stop => Action::StopTodo(id),
        IdCommand::Toggle => Action::ToggleStatus(id),
    }
}

/// One action of the command per id, in order; the usage line where there is none.
fn fan_out_exec(c: IdCommand, ids: &Vec<u32>, usage: &str) -> (r: Vec<Action>)
    ensures
        action_views(r@) == fan_out(c, ids@, usage@),
{
    let mut r: Vec<Action> = Vec::new();
    if ids.len() == 0 {
        r.push(Action::SetOutput(String::from_str(usage)));
        assert(action_views(r@) =~= fan_out(c, ids@, usage@));
        return r;
    }
    let mut i: usize = 0;
    while i < ids.len()
        invariant
            i <= ids.len(),
            action_views(r@) == ids@.take(i as int).map_values(|id: u32| id_action(c, id)),
        decreases ids.len() - i,
    {
        let ghost before = r@;
        r.push(id_action_exec(c, ids[i]));
        assert(action_views(r@) =~= ids@.take(i as int + 1).map_values(
            |id: u32| id_action(c, id),
        )) by {
            assert(action_views(r@) =~= action_views(before).push(r@.last()@));
        }
        i += 1;
    }
    assert(ids@.take(i as int) =~= ids@);
    r
}

/// The words with one space between each two.
fn spaced_exec(parts: &Vec<String>) -> (r: String)
    ensures
        r@ == spaced(texts(parts@)),
{
    let mut s = String::new();
    let mut i: usize = 0;
    while i < parts.len()
        invariant
            i <= parts.len(),
            s@ == spaced(texts(parts@).take(i as int)),
        decreases parts.len() - i,
    {
        let ghost t1 = texts(parts@).take(i as int + 1);
        proof {
            assert(t1.drop_last() =~= texts(parts@).take(i as int));
            assert(t1.last() == parts@[i as int]@);
        }
        if i > 0 {
            s.append(" ");
        } else {
            assert(t1[0] == parts@[0]@);
        }
        s.append(parts[i].as_str());
        i += 1;
    }
    assert(texts(parts@).take(i as int) =~= texts(parts@));
    s
}

/// A list of actions as one action, or as a batch where there are several (or none).
fn batch_of(mut v: Vec<Action>) -> (r: OneOrMany<Action>)
    ensures
        action_views(r.items()) == action_views(v@),
        r is One <==> v@.len() == 1,
{
    if v.len() == 1 {
        let ghost before = v@;
        let a = v.pop().unwrap();
        assert(action_views(seq![a]) =~= action_views(before));
        OneOrMany::One(a)
    } else {
        OneOrMany::Many(v)
    }
}

/// A single action as a batch of one.
fn single(a: Action) -> (r: OneOrMany<Action>)
    ensures
        action_views(r.items()) == seq![a@],
        r is One,
{
    assert(action_views(seq![a]) =~= seq![a@]);
    OneOrMany::One(a)
}

/// Translates a line of input into the actions it asks for, in the order typed.
pub fn parse_command(input: &str) -> (r: OneOrMany<Action>)
    ensures
        action_views(r.items()) == parse_spec(input@),
        r is One <==> parse_spec(input@).len() == 1,
{
    let toks = split_words(input);
    let ghost ws = words(input@);
    let mut nums: Vec<u32> = Vec::new();
    let mut others: Vec<String> = Vec::new();
    let mut i: usize = 0;
    while i < toks.len()
        invariant
            texts(toks@) == ws,
            i <= toks.len(),
            nums@ == numbers_of(ws.take(i as int)),
            texts(others@) == others_of(ws.take(i as int)),
        decreases toks.len() - i,
    {
        proof {
            assert(ws.take(i as int + 1).drop_last() =~= ws.take(i as int));
            assert(ws.take(i as int + 1).last() == toks@[i as int]@);
        }
        let ghost before = others@;
        match read_number(toks[i].as_str()) {
            Some(n) => nums.push(n),
            None => {
                others.push(toks[i].clone());
                assert(texts(others@) =~= texts(before).push(toks@[i as int]@));
            },
        }
        i += 1;
    }
    assert(ws.take(i as int) =~= ws);
    if others.len() == 0 {
        if nums.len() > 0 {
            return batch_of(fan_out_exec(IdCommand::Toggle, &nums, ""));
        } else {
            return single(Action::SetOutput(String::from_str("Invalid command")));
        }
    }
    let cmd = others.remove(0);
    let ghost rest = texts(others@);
    assert(rest =~= others_of(ws).drop_first());
    let c = cmd.as_str();
    if is_keyword_exec(c, "quit") || is_keyword_exec(c, "exit") || is_keyword_exec(c, "q") {
        single(Action::Quit)
    } else if is_keyword_exec(c, "add") {
        if nums.len() == 0 && others.len() == 0 {
            single(Action::SetOutput(String::from_str("Usage: add <todo text>")))
        } else {
            let mut parts: Vec<String> = Vec::new();
            let mut k: usize = 0;
            while k < nums.len()
                invariant
                    k <= nums.len(),
                    texts(parts@) == nums@.take(k as int).map_values(|n: u32| decimal(n as nat)),
                decreases nums.len() - k,
            {
                let ghost before = parts@;
                let mut d = String::new();
                push_decimal(&mut d, nums[k] as u64);
                parts.push(d);
                assert(texts(parts@) =~= nums@.take(k as int + 1).map_values(
                    |n: u32| decimal(n as nat),
                )) by {
                    assert(texts(parts@) =~= texts(before).push(d@));
                }
                k += 1;
            }
            assert(nums@.take(k as int) =~= nums@);
            let ghost num_texts = texts(parts@);
            let mut j: usize = 0;
            while j < others.len()
                invariant
                    j <= others.len(),
                    texts(parts@) == num_texts + texts(others@).take(j as int),
                decreases others.len() - j,
            {
                let ghost before = parts@;
                parts.push(others[j].clone());
                assert(texts(parts@) =~= num_texts + texts(others@).take(j as int + 1)) by {
                    assert(texts(parts@) =~= texts(before).push(others@[j as int]@));
                }
                j += 1;
            }
            assert(texts(others@).take(j as int) =~= texts(others@));
            single(Action::AddTodo(spaced_exec(&parts)))
        }
    } else if is_keyword_exec(c, "remove") || is_keyword_exec(c, "rm") {
        batch_of(fan_out_exec(IdCommand::Remove, &nums, "Usage: remove <id> [<id> ...]"))
    } else if is_keyword_exec(c, "complete") || is_keyword_exec(c, "done") {
        batch_of(fan_out_exec(IdCommand::Complete, &nums, "Usage: complete <id> [<id> ...]"))
    } else if is_keyword_exec(c, "start") {
        batch_of(fan_out_exec(IdCommand::Start, &nums, "Usage: start <id> [<id> ...]"))
    } else if is_keyword_exec(c, "stop") {
        batch_of(fan_out_exec(IdCommand::Stop, &nums, "Usage: stop <id> [<id> ...]"))
    } else {
        single(Action::SetOutput(String::from_str("Invalid command")))
    }
}

} // verus!
