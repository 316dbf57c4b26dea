//! A named list of tasks, and the removal of tasks by position.

use crate::positions::{index_set, kept, lemma_kept_from_all, lemma_kept_from_map, lemma_remove_map, remove_at, remove_positions};
use crate::task::{Task, TaskModel};
use vstd::prelude::*;

verus! {

/// Which task fields a list shows. These are display preferences: they are
/// not stored with the list.
#[derive(Clone, Copy, Debug, PartialEq, Eq, Structural)]
pub struct DisplayOptions {
    pub show_id: bool,
    pub show_id_title: bool,
    pub show_name: bool,
    pub show_name_title: bool,
}

impl DisplayOptions {
    /// A new list shows both the identifier and the text of each task, each
    /// with its title.
    pub open spec fn initial() -> DisplayOptions {
        DisplayOptions { show_id: true, show_id_title: true, show_name: true, show_name_title: true }
    }

    pub fn new() -> (r: DisplayOptions)
        ensures
            r == DisplayOptions::initial(),
    {
        DisplayOptions { show_id: true, show_id_title: true, show_name: true, show_name_title: true }
    }
}

/// What a list holds, as mathematical values.
pub ghost struct ListModel {
    pub name: Seq<char>,
    pub tasks: Seq<TaskModel>,
    pub display: DisplayOptions,
}

/// The models of a sequence of tasks, in order.
pub open spec fn task_models(tasks: Seq<Task>) -> Seq<TaskModel> {
    tasks.map_values(|t: Task| t@)
}

/// The highest identifier among `tasks`, or 0 where there are none.
pub open spec fn highest_in_tasks(tasks: Seq<TaskModel>) -> nat
    decreases tasks.len(),
{
    if tasks.len() == 0 {
        0
    } else {
        let h = highest_in_tasks(tasks.drop_last());
        let last = tasks.last().id as nat;
        if h >= last {
            h
        } else {
            last
        }
    }
}

/// Every task of the list has an identifier below `n`.
pub open spec fn ids_below(l: ListModel, n: int) -> bool {
    forall|j: int| 0 <= j < l.tasks.len() ==> #[trigger] l.tasks[j].id < n
}

/// No task has an identifier above the highest one.
pub proof fn lemma_highest_in_tasks_bounds(tasks: Seq<TaskModel>)
    ensures
        forall|j: int| 0 <= j < tasks.len() ==> #[trigger] tasks[j].id <= highest_in_tasks(tasks),
    decreases tasks.len(),
{
    if tasks.len() > 0 {
        lemma_highest_in_tasks_bounds(tasks.drop_last());
        assert forall|j: int| 0 <= j < tasks.len() implies #[trigger] tasks[j].id
            <= highest_in_tasks(tasks) by {
            if j < tasks.len() - 1 {
                assert(tasks.drop_last()[j] == tasks[j]);
            }
        }
    }
}

/// A named, ordered collection of tasks.
#[derive(Debug)]
pub struct List {
    name: String,
    tasks: Vec<Task>,
    display: DisplayOptions,
}

impl View for List {
    type V = ListModel;

    closed spec fn view(&self) -> ListModel {
        ListModel { name: self.name@, tasks: task_models(self.tasks@), display: self.display }
    }
}

impl List {
    /// An empty list with the initial display options.
    pub fn new(name: &str) -> (r: List)
        ensures
            r@ == (ListModel { name: name@, tasks: Seq::empty(), display: DisplayOptions::initial() }),
    {
        let r = List { name: name.to_owned(), tasks: Vec::new(), display: DisplayOptions::new() };
        assert(task_models(r.tasks@) =~= Seq::empty());
        r
    }

    /// A list with the stored fields given, as read back from storage; its
    /// display options are the initial ones.
    pub fn restore(name: String, tasks: Vec<Task>) -> (r: List)
        ensures
            r@ == (ListModel {
                name: name@,
                tasks: task_models(tasks@),
                display: DisplayOptions::initial(),
            }),
    {
        List { name, tasks, display: DisplayOptions::new() }
    }

    pub fn name(&self) -> (r: &str)
        ensures
            r@ == self@.name,
    {
        self.name.as_str()
    }

    pub fn tasks(&self) -> (r: &Vec<Task>)
        ensures
            task_models(r@) == self@.tasks,
    {
        &self.tasks
    }

    pub fn len(&self) -> (r: usize)
        ensures
            r == self@.tasks.len(),
    {
        self.tasks.len()
    }

    pub fn display(&self) -> (r: DisplayOptions)
        ensures
            r == self@.display,
    {
        self.display
    }

    pub fn set_display(&mut self, display: DisplayOptions)
        ensures
            final(self)@ == (ListModel { display, ..old(self)@ }),
    {
        self.display = display;
    }

    /// The task at `index`, to change in place.
    pub fn task_mut(&mut self, index: usize) -> (r: &mut Task)
        requires
            index < old(self)@.tasks.len(),
        ensures
            r@ == old(self)@.tasks[index as int],
            final(self)@ == (ListModel {
                tasks: old(self)@.tasks.update(index as int, final(r)@),
                ..old(self)@
            }),
    {
        proof {
            assert forall|x: Task|
                #[trigger] task_models(self.tasks@.update(index as int, x)) == task_models(
                    self.tasks@,
                ).update(index as int, x@) by {
                assert(task_models(self.tasks@.update(index as int, x)) =~= task_models(
                    self.tasks@,
                ).update(index as int, x@));
            }
        }
        &mut self.tasks[index]
    }

    /// Appends a task at the end.
    pub fn push_task(&mut self, task: Task)
        ensures
            final(self)@ == (ListModel { tasks: old(self)@.tasks.push(task@), ..old(self)@ }),
    {
        self.tasks.push(task);
        assert(task_models(self.tasks@) =~= old(self)@.tasks.push(task@));
    }

    /// Removes the task at `index`; an index past the end changes nothing.
    /// Returns whether a task was removed.
    pub fn remove_task(&mut self, index: usize) -> (r: bool)
        ensures
            r == (index < old(self)@.tasks.len()),
            r ==> final(self)@ == (ListModel {
                tasks: old(self)@.tasks.remove(index as int),
                ..old(self)@
            }),
            !r ==> final(self)@ == old(self)@,
            forall|n: int| ids_below(old(self)@, n) ==> ids_below(final(self)@, n),
    {
        let ghost pre = self.tasks@;
        let r = remove_at(&mut self.tasks, index);
        proof {
            if r {
                lemma_remove_map(pre, |t: Task| t@, index as int);
                assert forall|n: int| ids_below(old(self)@, n) implies ids_below(self@, n) by {
                    assert forall|j: int| 0 <= j < self@.tasks.len() implies #[trigger] self@.tasks[j].id
                        < n by {
                        if j < index {
                            assert(self@.tasks[j] == old(self)@.tasks[j]);
                        } else {
                            assert(self@.tasks[j] == old(self)@.tasks[j + 1]);
                        }
                    }
                }
            }
        }
        r
    }

    /// Removes all the tasks at the given positions of the list as it was
    /// before the call, whatever the order of `indices`; the other tasks keep
    /// their order, and indices past the end are ignored.
    pub fn remove_tasks(&mut self, indices: &Vec<usize>)
        ensures
            final(self)@ == (ListModel {
                tasks: kept(old(self)@.tasks, index_set(indices@)),
                ..old(self)@
            }),
            forall|n: int| ids_below(old(self)@, n) ==> ids_below(final(self)@, n),
    {
        let ghost pre = self.tasks@;
        remove_positions(&mut self.tasks, indices);
        proof {
            lemma_kept_from_map(pre, |t: Task| t@, index_set(indices@), 0);
            assert forall|n: int| ids_below(old(self)@, n) implies ids_below(self@, n) by {
                let p = |t: TaskModel| t.id < n;
                lemma_kept_from_all(old(self)@.tasks, index_set(indices@), 0, p);
                assert forall|j: int| 0 <= j < self@.tasks.len() implies #[trigger] self@.tasks[j].id
                    < n by {
                    assert(p(self@.tasks[j]));
                }
            }
        }
    }

    /// The highest identifier among the list's tasks, or 0 where it has none.
    pub fn highest_id(&self) -> (r: u64)
        ensures
            r == highest_in_tasks(self@.tasks),
    {
        let ghost ts = self@.tasks;
        let mut h: u64 = 0;
        let mut j: usize = 0;
        while j < self.tasks.len()
            invariant
                ts == task_models(self.tasks@),
                j <= ts.len(),
                h == highest_in_tasks(ts.subrange(0, j as int)),
            decreases ts.len() - j,
        {
            let id = self.tasks[j].id();
            assert(ts.subrange(0, j + 1).drop_last() =~= ts.subrange(0, j as int));
            if id > h {
                h = id;
            }
            j = j + 1;
        }
        assert(ts.subrange(0, j as int) =~= ts);
        h
    }
}

} // verus!
