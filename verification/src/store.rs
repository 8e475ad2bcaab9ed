//! The task table: identifiers, records, and the five operations on them.

use std::collections::HashMap;
use vstd::prelude::*;

verus! {

broadcast use vstd::std_specs::hash::group_hash_axioms;

/// A task: a free-text description and a completion flag.
pub struct Task {
    pub text: String,
    pub done: bool,
}

/// What a [`Task`] means in contracts: its text as a sequence of characters,
/// and its flag.
pub struct TaskView {
    pub text: Seq<char>,
    pub done: bool,
}

impl View for Task {
    type V = TaskView;

    open spec fn view(&self) -> TaskView {
        TaskView { text: self.text@, done: self.done }
    }
}

/// The mathematical model of a task table: the live tasks by identifier, and
/// the identifier that the next `add` will issue.
pub struct StoreModel {
    pub tasks: Map<usize, TaskView>,
    pub next_id: nat,
}

impl StoreModel {
    /// The table is finite and every live identifier was issued before
    /// `next_id`.
    pub open spec fn wf(self) -> bool {
        &&& self.tasks.dom().finite()
        &&& self.next_id <= usize::MAX
        &&& forall|id: usize| #[trigger] self.tasks.contains_key(id) ==> id < self.next_id
    }

    /// The table of a fresh process: no task, first identifier 0.
    pub open spec fn empty() -> StoreModel {
        StoreModel { tasks: Map::empty(), next_id: 0 }
    }

    /// The identifier that `add` issues in this state.
    pub open spec fn issued(self) -> usize {
        self.next_id as usize
    }

    /// The state after `add(text)`.
    pub open spec fn add(self, text: Seq<char>) -> StoreModel {
        StoreModel {
            tasks: self.tasks.insert(self.issued(), TaskView { text, done: false }),
            next_id: self.next_id + 1,
        }
    }

    /// The task stored under `id`, if there is one.
    pub open spec fn get(self, id: usize) -> Option<TaskView> {
        if self.tasks.contains_key(id) {
            Some(self.tasks[id])
        } else {
            None
        }
    }

    /// A task with the given fields replaced and the others kept.
    pub open spec fn patched(task: TaskView, text: Option<Seq<char>>, done: Option<bool>)
        -> TaskView {
        TaskView {
            text: match text {
                Some(t) => t,
                None => task.text,
            },
            done: match done {
                Some(d) => d,
                None => task.done,
            },
        }
    }

    /// The state after `set(id, text, done)`: unchanged where `id` is absent.
    pub open spec fn set(self, id: usize, text: Option<Seq<char>>, done: Option<bool>)
        -> StoreModel {
        if self.tasks.contains_key(id) {
            StoreModel {
                tasks: self.tasks.insert(id, Self::patched(self.tasks[id], text, done)),
                next_id: self.next_id,
            }
        } else {
            self
        }
    }

    /// The state after `delete(id)`: unchanged where `id` is absent.
    pub open spec fn delete(self, id: usize) -> StoreModel {
        if self.tasks.contains_key(id) {
            StoreModel { tasks: self.tasks.remove(id), next_id: self.next_id }
        } else {
            self
        }
    }
}

/// The records of a table by their views.
pub open spec fn views_of(tasks: Map<usize, Task>) -> Map<usize, TaskView> {
    tasks.map_values(|t: Task| t@)
}

/// The view of an optional text.
pub open spec fn text_view(text: Option<String>) -> Option<Seq<char>> {
    match text {
        Some(t) => Some(t@),
        None => None,
    }
}

/// The message that every failed lookup carries.
pub open spec fn no_such_task() -> Seq<char> {
    "No such task"@
}

proof fn lemma_views_insert(tasks: Map<usize, Task>, id: usize, task: Task)
    ensures
        views_of(tasks.insert(id, task)) == views_of(tasks).insert(id, task@),
{
    assert(views_of(tasks.insert(id, task)) =~= views_of(tasks).insert(id, task@));
}

proof fn lemma_views_remove(tasks: Map<usize, Task>, id: usize)
    ensures
        views_of(tasks.remove(id)) == views_of(tasks).remove(id),
{
    assert(views_of(tasks.remove(id)) =~= views_of(tasks).remove(id));
}

/// The in-memory table of tasks, keyed by the identifiers it issues.
pub struct TaskManager {
    tasks: HashMap<usize, Task>,
    next_id: usize,
}

impl View for TaskManager {
    type V = StoreModel;

    closed spec fn view(&self) -> StoreModel {
        StoreModel { tasks: views_of(self.tasks@), next_id: self.next_id as nat }
    }
}

impl TaskManager {
    /// The table's invariant: that of its model.
    pub open spec fn wf(&self) -> bool {
        self@.wf()
    }

    /// An empty table whose first identifier is 0.
    pub fn new() -> (manager: Self)
        ensures
            manager.wf(),
            manager@ == StoreModel::empty(),
    {
        let manager = Self { tasks: HashMap::new(), next_id: 0 };
        proof {
            assert(manager@.tasks =~= Map::empty());
        }
        manager
    }

    /// The whole table, for enumeration.
    pub fn all(&self) -> (tasks: &HashMap<usize, Task>)
        ensures
            views_of(tasks@) == self@.tasks,
    {
        &self.tasks
    }

    /// Whether `add` can still issue an identifier.
    pub fn has_room(&self) -> (room: bool)
        ensures
            room == (self@.next_id < usize::MAX),
    {
        self.next_id < usize::MAX
    }

    /// Stores a new, unfinished task under the next identifier and returns
    /// that identifier.
    pub fn add(&mut self, text: Option<String>) -> (id: usize)
        requires
            old(self).wf(),
            text is Some,
            old(self)@.next_id < usize::MAX,
        ensures
            final(self).wf(),
            id == old(self)@.issued(),
            !old(self)@.tasks.contains_key(id),
            final(self)@ == old(self)@.add(text.unwrap()@),
    {
        let id = self.next_id;
        let task = Task { text: text.unwrap(), done: false };
        proof {
            lemma_views_insert(self.tasks@, id, task);
            assert(self@.tasks.contains_key(id) == self.tasks@.contains_key(id));
        }
        let previous = self.tasks.insert(id, task);
        // No task is ever overwritten: every live identifier is below `next_id`.
        assert(previous is None);
        self.next_id = self.next_id + 1;
        id
    }

    /// Looks a task up, and leaves the table as it is.
    pub fn get(&mut self, id: usize) -> (found: Result<&Task, &'static str>)
        ensures
            *final(self) == *old(self),
            match found {
                Ok(task) => old(self)@.get(id) == Some(task@),
                Err(message) => old(self)@.get(id) is None && message@ == no_such_task(),
            },
    {
        match self.tasks.get(&id) {
            Some(task) => Ok(task),
            None => Err("No such task"),
        }
    }

    /// Replaces the fields that are given and keeps the others.
    pub fn set(&mut self, id: usize, text: Option<String>, done: Option<bool>) -> (outcome: Result<
        (),
        &'static str,
    >)
        requires
            old(self).wf(),
        ensures
            final(self).wf(),
            final(self)@ == old(self)@.set(id, text_view(text), done),
            match outcome {
                Ok(_) => old(self)@.tasks.contains_key(id),
                Err(message) => !old(self)@.tasks.contains_key(id) && message@ == no_such_task(),
            },
    {
        match self.tasks.remove(&id) {
            None => {
                proof {
                    assert(final(self)@.tasks =~= old(self)@.tasks);
                }
                Err("No such task")
            },
            Some(mut task) => {
                if let Some(text) = text {
                    task.text = text;
                }
                if let Some(done) = done {
                    task.done = done;
                }
                proof {
                    lemma_views_remove(old(self).tasks@, id);
                    lemma_views_insert(self.tasks@, id, task);
                    assert(self.tasks@.insert(id, task) =~= old(self).tasks@.insert(id, task));
                    lemma_views_insert(old(self).tasks@, id, task);
                }
                self.tasks.insert(id, task);
                Ok(())
            },
        }
    }

    /// Removes a task.
    pub fn delete(&mut self, id: usize) -> (outcome: Result<(), &'static str>)
        requires
            old(self).wf(),
        ensures
            final(self).wf(),
            final(self)@ == old(self)@.delete(id),
            match outcome {
                Ok(_) => old(self)@.tasks.contains_key(id),
                Err(message) => !old(self)@.tasks.contains_key(id) && message@ == no_such_task(),
            },
    {
        proof {
            lemma_views_remove(self.tasks@, id);
        }
        match self.tasks.remove(&id) {
            Some(_) => Ok(()),
            None => {
                proof {
                    assert(self.tasks@ =~= old(self).tasks@);
                }
                Err("No such task")
            },
        }
    }
}

} // verus!
