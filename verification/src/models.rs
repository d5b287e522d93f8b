//! The data of the task list.

use crate::clock::{Date, TimeOfDay, Timestamp};
use vstd::prelude::*;

verus! {

/// What the user interface asks of the task list.
#[derive(Debug, Clone)]
pub enum Message {
    AddTodo,
    TodoInputChanged(String),
    TimeInputChanged(String),
    PrioritySelected(Priority),
    ToggleTodo(usize),
    DeleteTodo(usize),
    ClearCompleted,
    NewDay,
}

/// One task.
#[derive(Debug, Clone, PartialEq, Eq)]
pub struct Todo {
    pub id: usize,
    pub text: String,
    pub completed: bool,
    pub due_time: Option<TimeOfDay>,
    pub priority: Priority,
    pub created_at: Timestamp,
}

/// A task as a mathematical value.
pub struct TodoView {
    pub id: usize,
    pub text: Seq<char>,
    pub completed: bool,
    pub due_time: Option<TimeOfDay>,
    pub priority: Priority,
    pub created_at: Timestamp,
}

impl View for Todo {
    type V = TodoView;

    open spec fn view(&self) -> TodoView {
        TodoView {
            id: self.id,
            text: self.text@,
            completed: self.completed,
            due_time: self.due_time,
            priority: self.priority,
            created_at: self.created_at,
        }
    }
}

impl DeepView for Todo {
    type V = TodoView;

    open spec fn deep_view(&self) -> TodoView {
        self@
    }
}

/// The tasks of one day and the input that is being typed.
#[derive(Debug)]
pub struct TodoApp {
    pub(crate) todos: Vec<Todo>,
    pub(crate) todo_input: String,
    pub(crate) time_input: String,
    pub(crate) selected_priority: Priority,
    pub(crate) next_id: usize,
    pub(crate) current_date: Date,
}

/// The task list as a mathematical value.
pub struct TodoAppView {
    pub todos: Seq<TodoView>,
    pub todo_input: Seq<char>,
    pub time_input: Seq<char>,
    pub selected_priority: Priority,
    pub next_id: usize,
    pub current_date: Date,
}

/// What the caller has to do with the day's file once a message is handled.
#[derive(Debug, Clone, Copy, PartialEq, Eq, Structural)]
pub enum Effect {
    /// Nothing.
    Nothing,
    /// Write the tasks to the file of the current date.
    Save,
    /// Read the file of the current date and hand what it holds to
    /// `load_todos`.
    Load,
}

/// How urgent a task is.
#[derive(Debug, Clone, Copy, PartialEq, Eq, Structural)]
pub enum Priority {
    High,
    Medium,
    Low,
}

impl Priority {
    /// The place of a priority in the display order: the smaller, the
    /// earlier.
    pub open spec fn spec_rank(self) -> u8 {
        match self {
            Priority::High => 0,
            Priority::Medium => 1,
            Priority::Low => 2,
        }
    }

    /// The place of a priority in the display order: the smaller, the
    /// earlier.
    #[verifier::when_used_as_spec(spec_rank)]
    pub fn rank(self) -> (rank: u8)
        ensures
            rank == self.spec_rank(),
    {
        match self {
            Priority::High => 0,
            Priority::Medium => 1,
            Priority::Low => 2,
        }
    }

    /// The label of a priority: its sign and its name.
    pub open spec fn label(self) -> Seq<char> {
        match self {
            Priority::High => "🔴 Tinggi"@,
            Priority::Medium => "🟡 Sedang"@,
            Priority::Low => "🟢 Rendah"@,
        }
    }

    /// The sign of a priority.
    pub open spec fn sign(self) -> Seq<char> {
        match self {
            Priority::High => "🔴"@,
            Priority::Medium => "🟡"@,
            Priority::Low => "🟢"@,
        }
    }

    /// Every priority, from the most urgent to the least.
    pub fn all() -> (all: &'static [Priority])
        ensures
            all@ == seq![Priority::High, Priority::Medium, Priority::Low],
    {
        &[Priority::High, Priority::Medium, Priority::Low]
    }

    /// The label of a priority, as a picker shows it.
    pub fn as_str(&self) -> (label: &str)
        ensures
            label@ == self.label(),
    {
        match self {
            Priority::High => "🔴 Tinggi",
            Priority::Medium => "🟡 Sedang",
            Priority::Low => "🟢 Rendah",
        }
    }

    /// The sign of a priority, as a task's badge shows it.
    pub fn emoji(&self) -> (sign: &str)
        ensures
            sign@ == self.sign(),
    {
        match self {
            Priority::High => "🔴",
            Priority::Medium => "🟡",
            Priority::Low => "🟢",
        }
    }
}

impl Default for Priority {
    /// A task is of medium priority unless the user says otherwise.
    fn default() -> (priority: Priority)
        ensures
            priority == Priority::Medium,
    {
        Priority::Medium
    }
}

} // verus!
