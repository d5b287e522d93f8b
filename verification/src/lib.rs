//! A day-scoped task list: the tasks of one calendar day, the order in which
//! they are shown, and the transitions that the user's intents cause.

pub mod clock;
pub mod display;
pub mod laws;
pub mod models;
pub mod persist;
pub mod store;
pub mod text;

pub use clock::{Date, TimeOfDay, Timestamp};
pub use models::{Effect, Message, Priority, Todo, TodoApp};
