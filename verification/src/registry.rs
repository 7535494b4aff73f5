//! The task registry: the single source of truth for task state.
//!
//! The registry is a key-value store from task identifier to task, with
//! identifiers handed out by an ever-increasing counter so that no
//! identifier is ever reused.  Every mutation of a stored task goes through
//! the task state machine, so the lifecycle guarantees (clamped monotone
//! progress, frozen terminal tasks) hold for every entry.  Removal of an
//! entry that is not there, and updates to one that was removed, are
//! harmless no-ops: removal is expected to race with in-flight updates.

use vstd::prelude::*;
use crate::task::TaskUpdate;
use crate::task::apply_update;
use crate::task::spec_apply;
use crate::types::TaskProgress;
use crate::types::TaskStatus;

verus! {

/// No two tasks in `s` share an identifier.
pub open spec fn distinct_ids(s: Seq<TaskProgress>) -> bool {
    forall|i: int, j: int|
        0 <= i < j < s.len() ==> s[i].task_id != s[j].task_id
}

/// The tasks of `s` as a map from identifier to task.
pub open spec fn as_map(s: Seq<TaskProgress>) -> Map<u64, TaskProgress>
    decreases s.len(),
{
    if s.len() == 0 {
        Map::empty()
    } else {
        as_map(s.drop_last()).insert(s.last().task_id, s.last())
    }
}

/// An identifier is in the map exactly when some task in the sequence
/// carries it.
pub proof fn lemma_as_map_contains(s: Seq<TaskProgress>, id: u64)
    ensures
        as_map(s).contains_key(id) <==> exists|i: int|
            0 <= i < s.len() && #[trigger] s[i].task_id == id,
    decreases s.len(),
{
    if s.len() > 0 {
        lemma_as_map_contains(s.drop_last(), id);
        if s.last().task_id == id {
            assert(s[s.len() - 1].task_id == id);
        } else if as_map(s).contains_key(id) {
            let i = choose|i: int|
                0 <= i < s.drop_last().len() && #[trigger] s.drop_last()[i].task_id == id;
            assert(s[i].task_id == id);
        } else {
            assert forall|i: int| 0 <= i < s.len() implies #[trigger] s[i].task_id != id by {
                if i < s.len() - 1 {
                    assert(s.drop_last()[i].task_id != id);
                }
            }
        }
    }
}

/// With distinct identifiers, the map sends the identifier of the task at
/// position `i` to that task.
pub proof fn lemma_as_map_index(s: Seq<TaskProgress>, i: int)
    requires
        distinct_ids(s),
        0 <= i < s.len(),
    ensures
        as_map(s).contains_key(s[i].task_id),
        as_map(s)[s[i].task_id] == s[i],
    decreases s.len(),
{
    if i < s.len() - 1 {
        assert(distinct_ids(s.drop_last()));
        assert(s.drop_last()[i] == s[i]);
        lemma_as_map_index(s.drop_last(), i);
        assert(s.last().task_id != s[i].task_id);
    }
}

/// Appending a task inserts it into the map.
pub proof fn lemma_as_map_push(s: Seq<TaskProgress>, t: TaskProgress)
    ensures
        as_map(s.push(t)) == as_map(s).insert(t.task_id, t),
{
    assert(s.push(t).drop_last() =~= s);
    assert(s.push(t).last() == t);
}

/// Replacing the task at position `i` with one carrying the same
/// identifier overwrites that identifier's entry in the map.
pub proof fn lemma_as_map_update(s: Seq<TaskProgress>, i: int, t: TaskProgress)
    requires
        distinct_ids(s),
        0 <= i < s.len(),
        t.task_id == s[i].task_id,
    ensures
        as_map(s.update(i, t)) == as_map(s).insert(t.task_id, t),
    decreases s.len(),
{
    let u = s.update(i, t);
    if i == s.len() - 1 {
        assert(u.drop_last() =~= s.drop_last());
        assert(u.last() == t);
        assert(as_map(u) =~= as_map(s).insert(t.task_id, t));
    } else {
        assert(distinct_ids(s.drop_last()));
        assert(s.drop_last()[i] == s[i]);
        lemma_as_map_update(s.drop_last(), i, t);
        assert(u.drop_last() =~= s.drop_last().update(i, t));
        assert(u.last() == s.last());
        assert(s.last().task_id != t.task_id);
        assert(as_map(u) =~= as_map(s).insert(t.task_id, t));
    }
}

/// Removing the task at position `i` removes its identifier from the map.
pub proof fn lemma_as_map_remove(s: Seq<TaskProgress>, i: int)
    requires
        distinct_ids(s),
        0 <= i < s.len(),
    ensures
        as_map(s.remove(i)) == as_map(s).remove(s[i].task_id),
    decreases s.len(),
{
    let id = s[i].task_id;
    let u = s.remove(i);
    if i == s.len() - 1 {
        assert(u =~= s.drop_last());
        lemma_as_map_contains(s.drop_last(), id);
        assert forall|k: int|
            0 <= k < s.drop_last().len() implies #[trigger] s.drop_last()[k].task_id != id by {
            assert(s[k] == s.drop_last()[k]);
        }
        assert(as_map(u) =~= as_map(s).remove(id));
    } else {
        assert(distinct_ids(s.drop_last()));
        assert(s.drop_last()[i] == s[i]);
        lemma_as_map_remove(s.drop_last(), i);
        assert(u.drop_last() =~= s.drop_last().remove(i));
        assert(u.last() == s.last());
        assert(s.last().task_id != id);
        assert(as_map(u) =~= as_map(s).remove(id));
    }
}

/// With distinct identifiers, the map holds exactly one entry per stored
/// task.
pub proof fn lemma_as_map_len(s: Seq<TaskProgress>)
    requires
        distinct_ids(s),
    ensures
        as_map(s).dom().finite(),
        as_map(s).dom().len() == s.len(),
    decreases s.len(),
{
    if s.len() > 0 {
        let dl = s.drop_last();
        let lid = s.last().task_id;
        assert(distinct_ids(dl));
        lemma_as_map_len(dl);
        lemma_as_map_contains(dl, lid);
        assert forall|i: int| 0 <= i < dl.len() implies #[trigger] dl[i].task_id != lid by {
            assert(dl[i] == s[i]);
            assert(s[i].task_id != s[s.len() - 1].task_id);
        }
        assert(!as_map(dl).contains_key(lid));
        assert(as_map(s).dom() =~= as_map(dl).dom().insert(lid));
    }
}

/// Once a stored task is terminal, an update through the registry leaves
/// the whole registry exactly as it was: neither that task's status,
/// progress or error, nor any other entry, changes.
pub proof fn lemma_update_terminal_frozen(m: Map<u64, TaskProgress>, id: u64, u: TaskUpdate)
    requires
        m.contains_key(id),
        m[id].is_terminal(),
    ensures
        m.insert(id, spec_apply(m[id], u)) == m,
{
    crate::task::lemma_terminal_frozen(m[id], u);
    assert(m.insert(id, spec_apply(m[id], u)) =~= m);
}

/// Across any single update through the registry, a stored task's progress
/// stays within `0..=10000` and never decreases.
pub proof fn lemma_update_progress_monotone(m: Map<u64, TaskProgress>, id: u64, u: TaskUpdate)
    requires
        m.contains_key(id),
        m[id].wf(),
    ensures
        ({
            let m2 = m.insert(id, spec_apply(m[id], u));
            &&& m2[id].wf()
            &&& m2[id].progress >= m[id].progress
        }),
{
    crate::task::lemma_progress_monotone(m[id], u);
}

/// The concurrent store's sequential heart: tasks in creation order, and
/// the counter the next identifier comes from.
pub struct TaskRegistry {
    tasks: Vec<TaskProgress>,
    next_id: u64,
}

impl View for TaskRegistry {
    type V = Map<u64, TaskProgress>;

    /// The registry as a map from identifier to task.
    closed spec fn view(&self) -> Map<u64, TaskProgress> {
        as_map(self.tasks@)
    }
}

impl TaskRegistry {
    /// The stored tasks, in creation order.
    pub closed spec fn task_seq(self) -> Seq<TaskProgress> {
        self.tasks@
    }

    /// How many identifiers have ever been handed out.
    pub closed spec fn ids_used(self) -> int {
        self.next_id as int
    }

    /// Identifiers are distinct and below the counter, and every stored
    /// task is well-formed.
    pub closed spec fn wf(self) -> bool {
        &&& distinct_ids(self.tasks@)
        &&& forall|i: int|
            0 <= i < self.tasks@.len() ==> (#[trigger] self.tasks@[i]).wf()
                && self.tasks@[i].task_id < self.next_id
    }

    /// An empty registry.
    pub fn new() -> (r: Self)
        ensures
            r.wf(),
            r@ == Map::<u64, TaskProgress>::empty(),
            r.task_seq() == Seq::<TaskProgress>::empty(),
            r.ids_used() == 0,
    {
        TaskRegistry { tasks: Vec::new(), next_id: 0 }
    }

    /// How many identifiers have ever been handed out.
    pub fn ids_handed_out(&self) -> (r: u64)
        ensures
            r == self.ids_used(),
    {
        self.next_id
    }

    /// What `get_all_tasks` lists is exactly the registry's map: one task
    /// per stored identifier — none missing, none repeated — each equal to
    /// the map's entry under its own identifier, which the task also
    /// carries in its `task_id` field.
    pub proof fn lemma_list_matches_view(self)
        requires
            self.wf(),
        ensures
            as_map(self.task_seq()) == self@,
            distinct_ids(self.task_seq()),
            self.task_seq().len() == self@.dom().len(),
            forall|i: int|
                0 <= i < self.task_seq().len() ==> ({
                    let t = #[trigger] self.task_seq()[i];
                    self@.contains_key(t.task_id) && self@[t.task_id] == t
                }),
            forall|id: u64|
                #[trigger] self@.contains_key(id) ==> self@[id].task_id == id && (exists|i: int|
                    0 <= i < self.task_seq().len() && self.task_seq()[i] == self@[id]),
    {
        lemma_as_map_len(self.tasks@);
        assert forall|i: int| 0 <= i < self.task_seq().len() implies ({
            let t = #[trigger] self.task_seq()[i];
            self@.contains_key(t.task_id) && self@[t.task_id] == t
        }) by {
            lemma_as_map_index(self.tasks@, i);
        }
        assert forall|id: u64| #[trigger] self@.contains_key(id) implies self@[id].task_id == id
            && (exists|i: int|
            0 <= i < self.task_seq().len() && self.task_seq()[i] == self@[id]) by {
            lemma_as_map_contains(self.tasks@, id);
            let i = choose|i: int|
                0 <= i < self.tasks@.len() && #[trigger] self.tasks@[i].task_id == id;
            lemma_as_map_index(self.tasks@, i);
        }
    }

    /// The position of the task with identifier `id`, if it is stored.
    fn find_index(&self, id: u64) -> (r: Option<usize>)
        ensures
            match r {
                Some(i) => i < self.tasks@.len() && self.tasks@[i as int].task_id == id,
                None => forall|k: int|
                    0 <= k < self.tasks@.len() ==> (#[trigger] self.tasks@[k]).task_id != id,
            },
    {
        let n = self.tasks.len();
        let mut i: usize = 0;
        while i < n
            invariant
                i <= n == self.tasks@.len(),
                forall|k: int| 0 <= k < i ==> (#[trigger] self.tasks@[k]).task_id != id,
            decreases n - i,
        {
            if self.tasks[i].task_id == id {
                return Some(i);
            }
            i += 1;
        }
        None
    }

    /// Creates a task: `Queued`, zero progress, under a fresh identifier
    /// that no task of this registry has ever carried.
    pub fn create_task(&mut self, name: String) -> (id: u64)
        requires
            old(self).wf(),
            old(self).ids_used() < u64::MAX,
        ensures
            final(self).wf(),
            final(self).ids_used() == old(self).ids_used() + 1,
            !old(self)@.contains_key(id),
            final(self)@ == old(self)@.insert(
                id,
                (TaskProgress {
                    task_id: id,
                    name: name,
                    status: TaskStatus::Queued,
                    progress: 0,
                    speed: None,
                    eta: None,
                    error: None,
                    file_path: None,
                }),
            ),
            final(self).task_seq() == old(self).task_seq().push(
                (TaskProgress {
                    task_id: id,
                    name: name,
                    status: TaskStatus::Queued,
                    progress: 0,
                    speed: None,
                    eta: None,
                    error: None,
                    file_path: None,
                }),
            ),
    {
        let id = self.next_id;
        let task = TaskProgress {
            task_id: id,
            name,
            status: TaskStatus::Queued,
            progress: 0,
            speed: None,
            eta: None,
            error: None,
            file_path: None,
        };
        proof {
            lemma_as_map_contains(self.tasks@, id);
            lemma_as_map_push(self.tasks@, task);
        }
        self.tasks.push(task);
        self.next_id = id + 1;
        id
    }

    /// The task stored under `id`, if any.
    pub fn get_task(&self, id: u64) -> (r: Option<TaskProgress>)
        requires
            self.wf(),
        ensures
            r == (if self@.contains_key(id) {
                Some(self@[id])
            } else {
                None::<TaskProgress>
            }),
    {
        match self.find_index(id) {
            Some(i) => {
                proof {
                    lemma_as_map_index(self.tasks@, i as int);
                }
                Some(self.tasks[i].snapshot())
            },
            None => {
                proof {
                    lemma_as_map_contains(self.tasks@, id);
                }
                None
            },
        }
    }

    /// All stored tasks, in creation order.
    pub fn get_all_tasks(&self) -> (r: Vec<TaskProgress>)
        ensures
            r@ == self.task_seq(),
    {
        let n = self.tasks.len();
        let mut out: Vec<TaskProgress> = Vec::new();
        let mut i: usize = 0;
        while i < n
            invariant
                i <= n == self.tasks@.len(),
                out@ =~= self.tasks@.subrange(0, i as int),
            decreases n - i,
        {
            out.push(self.tasks[i].snapshot());
            proof {
                assert(out@ =~= self.tasks@.subrange(0, i + 1));
            }
            i += 1;
        }
        proof {
            assert(out@ =~= self.tasks@);
        }
        out
    }

    /// Applies `u` to the task stored under `id`.  A task that is not there
    /// (or was removed concurrently) is a harmless no-op, not an error.
    pub fn update_task(&mut self, id: u64, u: TaskUpdate)
        requires
            old(self).wf(),
        ensures
            final(self).wf(),
            final(self).ids_used() == old(self).ids_used(),
            final(self)@ == (if old(self)@.contains_key(id) {
                old(self)@.insert(id, spec_apply(old(self)@[id], u))
            } else {
                old(self)@
            }),
            final(self).task_seq().len() == old(self).task_seq().len(),
    {
        match self.find_index(id) {
            Some(i) => {
                proof {
                    lemma_as_map_index(self.tasks@, i as int);
                }
                let mut t = self.tasks[i].snapshot();
                apply_update(&mut t, u);
                proof {
                    lemma_as_map_update(self.tasks@, i as int, t);
                }
                self.tasks.set(i, t);
            },
            None => {
                proof {
                    lemma_as_map_contains(self.tasks@, id);
                }
            },
        }
    }

    /// Removes the task stored under `id`; nothing happens when there is
    /// none.
    pub fn remove_task(&mut self, id: u64)
        requires
            old(self).wf(),
        ensures
            final(self).wf(),
            final(self).ids_used() == old(self).ids_used(),
            final(self)@ == old(self)@.remove(id),
    {
        match self.find_index(id) {
            Some(i) => {
                proof {
                    lemma_as_map_remove(self.tasks@, i as int);
                }
                let ghost pre = self.tasks@;
                self.tasks.remove(i);
                proof {
                    assert(self.tasks@ =~= pre.remove(i as int));
                    assert(distinct_ids(self.tasks@)) by {
                        pre.remove_ensures(i as int);
                    }
                }
            },
            None => {
                proof {
                    lemma_as_map_contains(self.tasks@, id);
                    assert(self@ =~= self@.remove(id));
                }
            },
        }
    }
}

} // verus!
