//! A single to-do entry.

use crate::clock::{deadline_pattern, parse_deadline, wall_clock_of, DeadlineError, Timestamp};
use vstd::prelude::*;

verus! {

/// What a task holds, as mathematical values.
pub ghost struct TaskModel {
    pub id: u64,
    pub text: Seq<char>,
    pub done: bool,
    pub created_at: Timestamp,
    pub deadline: Option<Timestamp>,
}

/// A to-do entry. Its identifier and creation time never change.
#[derive(Debug)]
pub struct Task {
    id: u64,
    text: String,
    done: bool,
    created_at: Timestamp,
    deadline: Option<Timestamp>,
}

impl View for Task {
    type V = TaskModel;

    closed spec fn view(&self) -> TaskModel {
        TaskModel {
            id: self.id,
            text: self.text@,
            done: self.done,
            created_at: self.created_at,
            deadline: self.deadline,
        }
    }
}

impl Task {
    /// A new task, not done and without a deadline.
    pub fn new(id: u64, text: &str, created_at: Timestamp) -> (r: Task)
        ensures
            r@ == (TaskModel { id, text: text@, done: false, created_at, deadline: None }),
    {
        Task { id, text: text.to_owned(), done: false, created_at, deadline: None }
    }

    /// A task with every stored field given, as read back from storage.
    pub fn restore(
        id: u64,
        text: String,
        done: bool,
        created_at: Timestamp,
        deadline: Option<Timestamp>,
    ) -> (r: Task)
        ensures
            r@ == (TaskModel { id, text: text@, done, created_at, deadline }),
    {
        Task { id, text, done, created_at, deadline }
    }

    pub fn id(&self) -> (r: u64)
        ensures
            r == self@.id,
    {
        self.id
    }

    pub fn text(&self) -> (r: &str)
        ensures
            r@ == self@.text,
    {
        self.text.as_str()
    }

    pub fn is_done(&self) -> (r: bool)
        ensures
            r == self@.done,
    {
        self.done
    }

    pub fn created_at(&self) -> (r: Timestamp)
        ensures
            r == self@.created_at,
    {
        self.created_at
    }

    pub fn deadline(&self) -> (r: Option<Timestamp>)
        ensures
            r == self@.deadline,
    {
        self.deadline
    }

    /// Flips the completion flag.
    pub fn toggle_done(&mut self)
        ensures
            final(self)@ == (TaskModel { done: !old(self)@.done, ..old(self)@ }),
    {
        self.done = !self.done;
    }

    /// Sets the completion flag.
    pub fn set_done(&mut self, done: bool)
        ensures
            final(self)@ == (TaskModel { done, ..old(self)@ }),
    {
        self.done = done;
    }

    /// Replaces the task's text.
    pub fn rename(&mut self, text: &str)
        ensures
            final(self)@ == (TaskModel { text: text@, ..old(self)@ }),
    {
        self.text = text.to_owned();
    }

    /// Sets the deadline, overwriting any earlier one.
    pub fn set_deadline(&mut self, deadline: Timestamp)
        ensures
            final(self)@ == (TaskModel { deadline: Some(deadline), ..old(self)@ }),
    {
        self.deadline = Some(deadline);
    }

    /// Sets the deadline from a text of the form `YYYY-MM-DD HH:MM` read as
    /// local time. On any error the task is left as it was.
    pub fn set_deadline_text(&mut self, input: &str) -> (r: Result<(), DeadlineError>)
        ensures
            (r == Err::<(), DeadlineError>(DeadlineError::Format)) <==> wall_clock_of(
                input@,
                deadline_pattern(),
            ) is None,
            r is Err ==> final(self)@ == old(self)@,
            r is Ok ==> exists|t: Timestamp|
                final(self)@ == (TaskModel { deadline: Some(t), ..old(self)@ })
                    && wall_clock_of(input@, deadline_pattern()) == Some(t.local_secs() as i64)
                    && t.nanos == 0,
    {
        match parse_deadline(input) {
            Ok(t) => {
                self.set_deadline(t);
                Ok(())
            },
            Err(e) => Err(e),
        }
    }
}

} // verus!
