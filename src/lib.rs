//! A to-do list manager's core: named lists of tasks with completion flags
//! and optional deadlines, unique task identifiers, and the rules for
//! replacing the whole state with lists read back from storage.

pub mod clock;
pub mod ids;
pub mod task;
pub mod list;
pub mod positions;
pub mod state;
