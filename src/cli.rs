use vstd::prelude::*;
use crate::reduce::{Action, ActionView};

verus! {

/// The command line: an optional one-shot command.
pub struct Cli {
    pub command: Option<Commands>,
}

/// The one-shot commands of the command line.
pub enum Commands {
    /// Add a new task.
    Add { description: String },
    /// Remove a task by id.
    Remove { id: u32 },
    /// Start a task.
    Start { id: u32 },
}

impl Commands {
    /// The action that this command asks for.
    pub fn into_action(self) -> (a: Action)
        ensures
            a@ == match self {
                Commands::Add { description } => ActionView::AddTodo(description@),
                Commands::Remove { id } => ActionView::RemoveTodo(id),
                Commands::Start { id } => ActionView::StartTodo(id),
            },
    {
        match self {
            Commands::Add { description } => Action::AddTodo(description),
            Commands::Remove { id } => Action::RemoveTodo(id),
            Commands::Start { id } => Action::StartTodo(id),
        }
    }
}

} // verus!
