//! The application's whole state: its lists, the identifier allocator, and
//! the replacement of all lists by those read back from storage.

use crate::clock::{now, DeadlineError, Timestamp};
use crate::ids::IdAllocator;
use crate::list::{
    highest_in_tasks, ids_below, lemma_highest_in_tasks_bounds, DisplayOptions, List, ListModel,
};
use crate::positions::{index_set, kept, lemma_kept_from_map, lemma_remove_map, remove_at, remove_positions};
use crate::task::{Task, TaskModel};
use vstd::prelude::*;

verus! {

/// Why lists could not be read back from storage.
#[derive(Debug)]
pub enum StoreError {
    /// The file is missing or could not be read or written.
    Io(String),
    /// The file's text is not a valid document of lists.
    Serialization(String),
}

/// What the application holds, as mathematical values.
pub ghost struct AppModel {
    pub lists: Seq<ListModel>,
    /// The identifier that the next new task gets.
    pub next_id: u64,
}

impl AppModel {
    /// Identifiers start at 1, and every task held has an identifier below
    /// the next one to be issued, so a new task's identifier differs from
    /// all of them. Once the counter has reached `u64::MAX` no identifier is
    /// issued any more, and nothing is said of those held.
    pub open spec fn wf(self) -> bool {
        &&& self.next_id >= 1
        &&& self.next_id < u64::MAX ==> forall|i: int|
            0 <= i < self.lists.len() ==> ids_below(#[trigger] self.lists[i], self.next_id as int)
    }
}

/// The models of a sequence of lists, in order.
pub open spec fn list_models(lists: Seq<List>) -> Seq<ListModel> {
    lists.map_values(|l: List| l@)
}

/// The highest task identifier among `lists`, or 0 where they hold no task.
pub open spec fn highest_in_lists(lists: Seq<ListModel>) -> nat
    decreases lists.len(),
{
    if lists.len() == 0 {
        0
    } else {
        let h = highest_in_lists(lists.drop_last());
        let last = highest_in_tasks(lists.last().tasks);
        if h >= last {
            h
        } else {
            last
        }
    }
}

/// Where the identifier counter goes on after `lists` are loaded: past the
/// highest loaded identifier and never back, stopping at `u64::MAX`.
pub open spec fn resume_id(next_id: u64, lists: Seq<ListModel>) -> u64 {
    let h = highest_in_lists(lists);
    if h >= u64::MAX {
        u64::MAX
    } else if h + 1 > next_id {
        (h + 1) as u64
    } else {
        next_id
    }
}

/// The state after a successful load of `loaded`: the lists are replaced
/// whole, and the identifier counter moves past every loaded identifier.
pub open spec fn after_load(app: AppModel, loaded: Seq<ListModel>) -> AppModel {
    AppModel { lists: loaded, next_id: resume_id(app.next_id, loaded) }
}

/// The state with the list at `index` replaced by `l`.
pub open spec fn with_list(app: AppModel, index: int, l: ListModel) -> AppModel {
    AppModel { lists: app.lists.update(index, l), ..app }
}

/// The state with task `ti` of list `li` replaced by `t`.
pub open spec fn with_task(app: AppModel, li: int, ti: int, t: TaskModel) -> AppModel {
    with_list(app, li, ListModel { tasks: app.lists[li].tasks.update(ti, t), ..app.lists[li] })
}

/// The state with the deadline of task `ti` of list `li` set to `t`.
pub open spec fn with_deadline(app: AppModel, li: int, ti: int, t: Timestamp) -> AppModel {
    with_task(app, li, ti, TaskModel { deadline: Some(t), ..app.lists[li].tasks[ti] })
}

/// The state after a task with text `text`, created at `created_at`, is
/// appended to the list at `index` under the next identifier, which is then
/// used up.
pub open spec fn with_new_task(
    app: AppModel,
    index: int,
    text: Seq<char>,
    created_at: Timestamp,
) -> AppModel {
    AppModel {
        lists: app.lists.update(
            index,
            ListModel {
                tasks: app.lists[index].tasks.push(
                    TaskModel { id: app.next_id, text, done: false, created_at, deadline: None },
                ),
                ..app.lists[index]
            },
        ),
        next_id: (app.next_id + 1) as u64,
    }
}

/// No task among `lists` has an identifier above the highest one.
pub proof fn lemma_highest_in_lists_bounds(lists: Seq<ListModel>)
    ensures
        forall|i: int, j: int|
            0 <= i < lists.len() && 0 <= j < lists[i].tasks.len() ==> #[trigger] lists[i].tasks[j].id
                <= highest_in_lists(lists),
    decreases lists.len(),
{
    if lists.len() > 0 {
        lemma_highest_in_lists_bounds(lists.drop_last());
        lemma_highest_in_tasks_bounds(lists.last().tasks);
        assert forall|i: int, j: int|
            0 <= i < lists.len() && 0 <= j < lists[i].tasks.len() implies #[trigger] lists[i].tasks[j].id
            <= highest_in_lists(lists) by {
            if i < lists.len() - 1 {
                assert(lists.drop_last()[i] == lists[i]);
            }
        }
    }
}

/// Replacing one list by a list whose identifiers are below every bound
/// that the old one's were below keeps the state well formed.
proof fn lemma_with_list_wf(app: AppModel, index: int, l: ListModel)
    requires
        app.wf(),
        0 <= index < app.lists.len(),
        forall|n: int| ids_below(app.lists[index], n) ==> ids_below(l, n),
    ensures
        with_list(app, index, l).wf(),
{
    let b = with_list(app, index, l);
    if app.next_id < u64::MAX {
        assert forall|i: int| 0 <= i < b.lists.len() implies ids_below(
            #[trigger] b.lists[i],
            b.next_id as int,
        ) by {
            assert(ids_below(app.lists[i], app.next_id as int));
        }
    }
}

/// Replacing a task by one with the same identifier keeps the state well
/// formed.
proof fn lemma_with_task_wf(app: AppModel, li: int, ti: int, t: TaskModel)
    requires
        app.wf(),
        0 <= li < app.lists.len(),
        0 <= ti < app.lists[li].tasks.len(),
        t.id == app.lists[li].tasks[ti].id,
    ensures
        with_task(app, li, ti, t).wf(),
{
    let old_l = app.lists[li];
    let l = ListModel { tasks: old_l.tasks.update(ti, t), ..old_l };
    assert forall|n: int| ids_below(old_l, n) implies ids_below(l, n) by {
        assert forall|j: int| 0 <= j < l.tasks.len() implies #[trigger] l.tasks[j].id < n by {
            assert(old_l.tasks[j].id < n);
        }
    }
    lemma_with_list_wf(app, li, l);
}

/// The root of the application: an ordered collection of lists, and the
/// allocator that numbers new tasks.
#[derive(Debug)]
pub struct ListApp {
    lists: Vec<List>,
    ids: IdAllocator,
}

impl View for ListApp {
    type V = AppModel;

    closed spec fn view(&self) -> AppModel {
        AppModel { lists: list_models(self.lists@), next_id: self.ids.upcoming() }
    }
}

/// The highest task identifier among `lists`.
fn highest_task_id(lists: &Vec<List>) -> (r: u64)
    ensures
        r == highest_in_lists(list_models(lists@)),
{
    let ghost ls = list_models(lists@);
    let mut h: u64 = 0;
    let mut i: usize = 0;
    while i < lists.len()
        invariant
            ls == list_models(lists@),
            i <= ls.len(),
            h == highest_in_lists(ls.subrange(0, i as int)),
        decreases ls.len() - i,
    {
        let hi = lists[i].highest_id();
        assert(ls.subrange(0, i + 1).drop_last() =~= ls.subrange(0, i as int));
        if hi > h {
            h = hi;
        }
        i = i + 1;
    }
    assert(ls.subrange(0, i as int) =~= ls);
    h
}

impl ListApp {
    /// An application without lists, whose first task gets identifier 1.
    pub fn new() -> (r: ListApp)
        ensures
            r@.lists == Seq::<ListModel>::empty(),
            r@.next_id == 1,
            r@.wf(),
    {
        let r = ListApp { lists: Vec::new(), ids: IdAllocator::new() };
        assert(list_models(r.lists@) =~= Seq::<ListModel>::empty());
        r
    }

    pub fn lists(&self) -> (r: &Vec<List>)
        ensures
            list_models(r@) == self@.lists,
    {
        &self.lists
    }

    pub fn len(&self) -> (r: usize)
        ensures
            r == self@.lists.len(),
    {
        self.lists.len()
    }

    /// Whether a task can still be added: identifiers run out at `u64::MAX`.
    pub fn can_add_task(&self) -> (r: bool)
        ensures
            r == (self@.next_id < u64::MAX),
    {
        self.ids.has_next()
    }

    /// Appends a new, empty list named `name`.
    pub fn add_list(&mut self, name: &str)
        requires
            old(self)@.wf(),
        ensures
            final(self)@ == (AppModel {
                lists: old(self)@.lists.push(
                    ListModel { name: name@, tasks: Seq::empty(), display: DisplayOptions::initial() },
                ),
                ..old(self)@
            }),
            final(self)@.wf(),
    {
        let l = List::new(name);
        self.lists.push(l);
        assert(list_models(self.lists@) =~= old(self)@.lists.push(l@));
        proof {
            let a = self@;
            if a.next_id < u64::MAX {
                assert forall|i: int| 0 <= i < a.lists.len() implies ids_below(
                    #[trigger] a.lists[i],
                    a.next_id as int,
                ) by {
                    if i < old(self)@.lists.len() {
                        assert(a.lists[i] == old(self)@.lists[i]);
                    }
                }
            }
        }
    }

    /// The list at `index`, to change in place.
    fn list_at(&mut self, index: usize) -> (r: &mut List)
        requires
            index < old(self)@.lists.len(),
        ensures
            r@ == old(self)@.lists[index as int],
            final(self)@ == with_list(old(self)@, index as int, final(r)@),
    {
        proof {
            assert forall|x: List|
                #[trigger] list_models(self.lists@.update(index as int, x)) == list_models(
                    self.lists@,
                ).update(index as int, x@) by {
                assert(list_models(self.lists@.update(index as int, x)) =~= list_models(
                    self.lists@,
                ).update(index as int, x@));
            }
        }
        &mut self.lists[index]
    }

    /// Sets which task fields the list at `li` shows.
    pub fn set_display(&mut self, li: usize, display: DisplayOptions)
        requires
            old(self)@.wf(),
            li < old(self)@.lists.len(),
        ensures
            final(self)@ == with_list(
                old(self)@,
                li as int,
                ListModel { display, ..old(self)@.lists[li as int] },
            ),
            final(self)@.wf(),
    {
        self.list_at(li).set_display(display);
        proof {
            lemma_with_list_wf(old(self)@, li as int, ListModel { display, ..old(self)@.lists[li as int] });
        }
    }

    /// Flips the completion flag of task `ti` of list `li`.
    pub fn toggle_done(&mut self, li: usize, ti: usize)
        requires
            old(self)@.wf(),
            li < old(self)@.lists.len(),
            ti < old(self)@.lists[li as int].tasks.len(),
        ensures
            final(self)@ == with_task(
                old(self)@,
                li as int,
                ti as int,
                TaskModel { done: !old(self)@.lists[li as int].tasks[ti as int].done, ..old(self)@.lists[li as int].tasks[ti as int] },
            ),
            final(self)@.wf(),
    {
        self.list_at(li).task_mut(ti).toggle_done();
        proof {
            let t = old(self)@.lists[li as int].tasks[ti as int];
            lemma_with_task_wf(old(self)@, li as int, ti as int, TaskModel { done: !t.done, ..t });
        }
    }

    /// Sets the completion flag of task `ti` of list `li`.
    pub fn set_done(&mut self, li: usize, ti: usize, done: bool)
        requires
            old(self)@.wf(),
            li < old(self)@.lists.len(),
            ti < old(self)@.lists[li as int].tasks.len(),
        ensures
            final(self)@ == with_task(
                old(self)@,
                li as int,
                ti as int,
                TaskModel { done, ..old(self)@.lists[li as int].tasks[ti as int] },
            ),
            final(self)@.wf(),
    {
        self.list_at(li).task_mut(ti).set_done(done);
        proof {
            let t = old(self)@.lists[li as int].tasks[ti as int];
            lemma_with_task_wf(old(self)@, li as int, ti as int, TaskModel { done, ..t });
        }
    }

    /// Replaces the text of task `ti` of list `li`.
    pub fn rename_task(&mut self, li: usize, ti: usize, text: &str)
        requires
            old(self)@.wf(),
            li < old(self)@.lists.len(),
            ti < old(self)@.lists[li as int].tasks.len(),
        ensures
            final(self)@ == with_task(
                old(self)@,
                li as int,
                ti as int,
                TaskModel { text: text@, ..old(self)@.lists[li as int].tasks[ti as int] },
            ),
            final(self)@.wf(),
    {
        self.list_at(li).task_mut(ti).rename(text);
        proof {
            let t = old(self)@.lists[li as int].tasks[ti as int];
            lemma_with_task_wf(old(self)@, li as int, ti as int, TaskModel { text: text@, ..t });
        }
    }

    /// Sets the deadline of task `ti` of list `li`, overwriting any earlier one.
    pub fn set_deadline(&mut self, li: usize, ti: usize, deadline: Timestamp)
        requires
            old(self)@.wf(),
            li < old(self)@.lists.len(),
            ti < old(self)@.lists[li as int].tasks.len(),
        ensures
            final(self)@ == with_deadline(old(self)@, li as int, ti as int, deadline),
            final(self)@.wf(),
    {
        self.list_at(li).task_mut(ti).set_deadline(deadline);
        proof {
            let t = old(self)@.lists[li as int].tasks[ti as int];
            lemma_with_task_wf(old(self)@, li as int, ti as int, TaskModel { deadline: Some(deadline), ..t });
        }
    }

    /// Sets the deadline of task `ti` of list `li` from a text of the form
    /// `YYYY-MM-DD HH:MM` read as local time; on an error nothing changes.
    pub fn set_deadline_text(&mut self, li: usize, ti: usize, input: &str) -> (r: Result<
        (),
        DeadlineError,
    >)
        requires
            old(self)@.wf(),
            li < old(self)@.lists.len(),
            ti < old(self)@.lists[li as int].tasks.len(),
        ensures
            (r == Err::<(), DeadlineError>(DeadlineError::Format)) <==> crate::clock::wall_clock_of(
                input@,
                crate::clock::deadline_pattern(),
            ) is None,
            r is Err ==> final(self)@ == old(self)@,
            r is Ok ==> exists|t: Timestamp|
                final(self)@ == #[trigger] with_deadline(old(self)@, li as int, ti as int, t) && crate::clock::wall_clock_of(input@, crate::clock::deadline_pattern()) == Some(
                    t.local_secs() as i64,
                ) && t.nanos == 0,
            final(self)@.wf(),
    {
        let ghost t0 = old(self)@.lists[li as int].tasks[ti as int];
        let task = self.list_at(li).task_mut(ti);
        let r = task.set_deadline_text(input);
        let ghost t1 = task@;
        proof {
            if r is Err {
                assert(old(self)@.lists[li as int].tasks.update(ti as int, t0) =~= old(self)@.lists[li as int].tasks);
                assert(old(self)@.lists.update(li as int, old(self)@.lists[li as int]) =~= old(self)@.lists);
            } else {
                let t = choose|t: Timestamp|
                    t1 == (TaskModel { deadline: Some(t), ..t0 }) && crate::clock::wall_clock_of(
                        input@,
                        crate::clock::deadline_pattern(),
                    ) == Some(t.local_secs() as i64) && t.nanos == 0;
                assert(self@ == with_deadline(old(self)@, li as int, ti as int, t));
                lemma_with_task_wf(old(self)@, li as int, ti as int, TaskModel { deadline: Some(t), ..t0 });
            }
        }
        r
    }

    /// Removes task `ti` of list `li`; an index past the end of the list
    /// changes nothing. Returns whether a task was removed.
    pub fn remove_task(&mut self, li: usize, ti: usize) -> (r: bool)
        requires
            old(self)@.wf(),
            li < old(self)@.lists.len(),
        ensures
            r == (ti < old(self)@.lists[li as int].tasks.len()),
            r ==> final(self)@ == with_list(
                old(self)@,
                li as int,
                ListModel { tasks: old(self)@.lists[li as int].tasks.remove(ti as int), ..old(self)@.lists[li as int] },
            ),
            !r ==> final(self)@ == old(self)@,
            final(self)@.wf(),
    {
        let ghost l0 = old(self)@.lists[li as int];
        let r = self.list_at(li).remove_task(ti);
        proof {
            if !r {
                assert(old(self)@.lists.update(li as int, l0) =~= old(self)@.lists);
            }
            lemma_with_list_wf(old(self)@, li as int, self@.lists[li as int]);
        }
        r
    }

    /// Removes from list `li` all the tasks at the given positions of the
    /// list as it was before the call, whatever the order of `indices`; the
    /// other tasks keep their order, and indices past the end are ignored.
    pub fn remove_tasks(&mut self, li: usize, indices: &Vec<usize>)
        requires
            old(self)@.wf(),
            li < old(self)@.lists.len(),
        ensures
            final(self)@ == with_list(
                old(self)@,
                li as int,
                ListModel {
                    tasks: kept(old(self)@.lists[li as int].tasks, index_set(indices@)),
                    ..old(self)@.lists[li as int]
                },
            ),
            final(self)@.wf(),
    {
        self.list_at(li).remove_tasks(indices);
        proof {
            lemma_with_list_wf(old(self)@, li as int, self@.lists[li as int]);
        }
    }

    /// Removes the list at `index` with all its tasks; an index past the end
    /// changes nothing. Returns whether a list was removed.
    pub fn remove_list(&mut self, index: usize) -> (r: bool)
        requires
            old(self)@.wf(),
        ensures
            r == (index < old(self)@.lists.len()),
            r ==> final(self)@ == (AppModel {
                lists: old(self)@.lists.remove(index as int),
                ..old(self)@
            }),
            !r ==> final(self)@ == old(self)@,
            final(self)@.wf(),
    {
        let ghost pre = self.lists@;
        let r = remove_at(&mut self.lists, index);
        proof {
            if r {
                lemma_remove_map(pre, |l: List| l@, index as int);
                let a = self@;
                if a.next_id < u64::MAX {
                    assert forall|i: int| 0 <= i < a.lists.len() implies ids_below(
                        #[trigger] a.lists[i],
                        a.next_id as int,
                    ) by {
                        if i < index {
                            assert(a.lists[i] == old(self)@.lists[i]);
                        } else {
                            assert(a.lists[i] == old(self)@.lists[i + 1]);
                        }
                    }
                }
            }
        }
        r
    }

    /// Removes all the lists at the given positions of the sequence as it was
    /// before the call, whatever the order of `indices`; the other lists keep
    /// their order, and indices past the end are ignored.
    pub fn remove_lists(&mut self, indices: &Vec<usize>)
        requires
            old(self)@.wf(),
        ensures
            final(self)@ == (AppModel {
                lists: kept(old(self)@.lists, index_set(indices@)),
                ..old(self)@
            }),
            final(self)@.wf(),
    {
        let ghost pre = self.lists@;
        remove_positions(&mut self.lists, indices);
        proof {
            lemma_kept_from_map(pre, |l: List| l@, index_set(indices@), 0);
            let a = self@;
            if a.next_id < u64::MAX {
                let p = |l: ListModel| ids_below(l, a.next_id as int);
                assert forall|j: int| 0 <= j < old(self)@.lists.len() implies #[trigger] p(old(self)@.lists[j]) by {
                }
                crate::positions::lemma_kept_from_all(old(self)@.lists, index_set(indices@), 0, p);
                assert forall|i: int| 0 <= i < a.lists.len() implies ids_below(
                    #[trigger] a.lists[i],
                    a.next_id as int,
                ) by {
                    assert(p(a.lists[i]));
                }
            }
        }
    }

    /// Appends to the list at `index` a new task with text `text`, created at
    /// `created_at`, under the next identifier, which is at least 1 and above
    /// every identifier held. Returns that identifier, or `None`, with
    /// nothing changed, where there is no list at `index`.
    pub fn add_task_at(&mut self, index: usize, text: &str, created_at: Timestamp) -> (r: Option<
        u64,
    >)
        requires
            old(self)@.wf(),
            old(self)@.next_id < u64::MAX,
        ensures
            index >= old(self)@.lists.len() ==> r is None && final(self)@ == old(self)@,
            index < old(self)@.lists.len() ==> r == Some(old(self)@.next_id) && final(self)@
                == with_new_task(old(self)@, index as int, text@, created_at),
            r matches Some(id) ==> id >= 1 && final(self)@.next_id == id + 1 && forall|i: int|
                0 <= i < old(self)@.lists.len() ==> ids_below(#[trigger] old(self)@.lists[i], id as int),
            final(self)@.wf(),
    {
        if index >= self.lists.len() {
            return None;
        }
        let id = self.ids.next_id();
        let task = Task::new(id, text, created_at);
        let l = self.list_at(index);
        l.push_task(task);
        proof {
            let a = self@;
            if a.next_id < u64::MAX {
                assert forall|i: int| 0 <= i < a.lists.len() implies ids_below(
                    #[trigger] a.lists[i],
                    a.next_id as int,
                ) by {
                    let o = old(self)@.lists[i];
                    assert(ids_below(o, id as int));
                    if i == index {
                        assert forall|j: int| 0 <= j < a.lists[i].tasks.len() implies #[trigger] a.lists[i].tasks[j].id
                            < a.next_id by {
                            if j < o.tasks.len() {
                                assert(a.lists[i].tasks[j] == o.tasks[j]);
                            }
                        }
                    }
                }
            }
        }
        Some(id)
    }

    /// Appends to the list at `index` a new task with text `text`, created
    /// now, under the next identifier, which is at least 1 and above every
    /// identifier held. Returns that identifier, or `None`, with nothing
    /// changed, where there is no list at `index`.
    pub fn add_task(&mut self, index: usize, text: &str) -> (r: Option<u64>)
        requires
            old(self)@.wf(),
            old(self)@.next_id < u64::MAX,
        ensures
            index >= old(self)@.lists.len() ==> r is None && final(self)@ == old(self)@,
            index < old(self)@.lists.len() ==> r == Some(old(self)@.next_id) && exists|
                created_at: Timestamp,
            |
                final(self)@ == #[trigger] with_new_task(
                    old(self)@,
                    index as int,
                    text@,
                    created_at,
                ),
            r matches Some(id) ==> id >= 1 && final(self)@.next_id == id + 1 && forall|i: int|
                0 <= i < old(self)@.lists.len() ==> ids_below(#[trigger] old(self)@.lists[i], id as int),
            final(self)@.wf(),
    {
        let created_at = now();
        self.add_task_at(index, text, created_at)
    }

    /// Replaces all lists by those read back from storage, and moves the
    /// identifier counter past every identifier they hold (stopping at
    /// `u64::MAX`, after which no task can be added). Where reading failed,
    /// the state is left exactly as it was and the error is handed back.
    pub fn load_lists(&mut self, loaded: Result<Vec<List>, StoreError>) -> (r: Result<
        (),
        StoreError,
    >)
        requires
            old(self)@.wf(),
        ensures
            match loaded {
                Ok(v) => r is Ok && final(self)@ == after_load(old(self)@, list_models(v@)),
                Err(e) => r == Err::<(), StoreError>(e) && final(self)@ == old(self)@,
            },
            final(self)@.wf(),
    {
        match loaded {
            Ok(v) => {
                let h = highest_task_id(&v);
                if h == u64::MAX {
                    self.ids.resume_from(u64::MAX);
                } else if h + 1 > self.ids.peek() {
                    self.ids.resume_from(h + 1);
                }
                self.lists = v;
                proof {
                    lemma_highest_in_lists_bounds(self@.lists);
                    let a = self@;
                    if a.next_id < u64::MAX {
                        assert forall|i: int| 0 <= i < a.lists.len() implies ids_below(
                            #[trigger] a.lists[i],
                            a.next_id as int,
                        ) by {
                            assert forall|j: int| 0 <= j < a.lists[i].tasks.len() implies #[trigger] a.lists[i].tasks[j].id
                                < a.next_id by {
                                assert(a.lists[i].tasks[j].id <= highest_in_lists(a.lists));
                            }
                        }
                    }
                }
                Ok(())
            },
            Err(e) => Err(e),
        }
    }
}

/// One operation on the application's state: either a new task is added
/// (which needs an identifier left), or the identifier allocator is not
/// touched, as by every other operation.
pub open spec fn step(a: AppModel, b: AppModel, adds_task: bool) -> bool {
    if adds_task {
        a.next_id < u64::MAX && exists|index: int, text: Seq<char>, created_at: Timestamp|
            b == #[trigger] with_new_task(a, index, text, created_at)
    } else {
        b.next_id == a.next_id
    }
}

proof fn lemma_next_id_grows(run: Seq<AppModel>, adds: Seq<bool>, i: int, j: int)
    requires
        adds.len() + 1 == run.len(),
        forall|k: int| 0 <= k < adds.len() ==> step(#[trigger] run[k], run[k + 1], adds[k]),
        0 <= i < j < run.len(),
    ensures
        run[i].next_id <= run[j].next_id,
        adds[i] ==> run[i].next_id < run[j].next_id,
    decreases j - i,
{
    assert(step(run[j - 1], run[j], adds[j - 1]));
    if adds[j - 1] {
        let (index, text, t) = choose|index: int, text: Seq<char>, created_at: Timestamp|
            run[j] == #[trigger] with_new_task(run[j - 1], index, text, created_at);
        assert(run[j].next_id == run[j - 1].next_id + 1);
    }
    if i < j - 1 {
        lemma_next_id_grows(run, adds, i, j - 1);
    }
}

/// Task identifiers come out unique and strictly increasing in call order:
/// over any run of operations `run[0] -> run[1] -> ...`, where `adds[k]`
/// tells whether the k-th operation added a task, the identifier that an
/// earlier addition handed out (`run[k].next_id`) is below that of every
/// later one.
pub proof fn lemma_task_ids_increase(run: Seq<AppModel>, adds: Seq<bool>)
    requires
        adds.len() + 1 == run.len(),
        forall|k: int| 0 <= k < adds.len() ==> step(#[trigger] run[k], run[k + 1], adds[k]),
    ensures
        forall|i: int, j: int|
            0 <= i < j < adds.len() && adds[i] && adds[j] ==> #[trigger] run[i].next_id
                < #[trigger] run[j].next_id,
{
    assert forall|i: int, j: int|
        0 <= i < j < adds.len() && adds[i] && adds[j] implies #[trigger] run[i].next_id
        < #[trigger] run[j].next_id by {
        lemma_next_id_grows(run, adds, i, j);
    }
}

} // verus!
