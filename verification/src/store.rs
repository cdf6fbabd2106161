use vstd::prelude::*;
use crate::task::{apply_patch, spec_merge, PatchModel, Task, TaskModel, TaskPatch};

verus! {

/// Mathematical state of the task store: the stored rows in storage order and
/// the id the next insert will receive from the auto-increment counter.
pub ghost struct StoreModel {
    pub tasks: Seq<TaskModel>,
    pub next_id: int,
}

/// Every stored id is at least 1 and below `bound`.
pub open spec fn ids_below(tasks: Seq<TaskModel>, bound: int) -> bool {
    forall|i: int| 0 <= i < tasks.len() ==> 1 <= (#[trigger] tasks[i]).id < bound
}

/// No two stored rows share an id.
pub open spec fn distinct_ids(tasks: Seq<TaskModel>) -> bool {
    forall|i: int, j: int|
        #![trigger tasks[i].id, tasks[j].id]
        0 <= i < tasks.len() && 0 <= j < tasks.len() && i != j ==> tasks[i].id != tasks[j].id
}

/// Well-formedness of the store: ids are positive, unique, and below the
/// auto-increment counter, so a fresh insert can never collide.
pub open spec fn wf(s: StoreModel) -> bool {
    &&& 1 <= s.next_id
    &&& ids_below(s.tasks, s.next_id)
    &&& distinct_ids(s.tasks)
}

/// Some stored row carries the id.
pub open spec fn has_id(tasks: Seq<TaskModel>, id: int) -> bool {
    exists|i: int| 0 <= i < tasks.len() && (#[trigger] tasks[i]).id == id
}

/// The position of the row carrying the id (meaningful when `has_id` holds;
/// with distinct ids it is the one such position).
pub open spec fn index_of_id(tasks: Seq<TaskModel>, id: int) -> int {
    choose|i: int| 0 <= i < tasks.len() && (#[trigger] tasks[i]).id == id
}

/// The row carrying the id.
pub open spec fn task_with_id(tasks: Seq<TaskModel>, id: int) -> TaskModel {
    tasks[index_of_id(tasks, id)]
}

/// The row an insert into the store produces: the next id, the given title,
/// and `completed` forced to `false`.
pub open spec fn created_task(s: StoreModel, title: Seq<char>) -> TaskModel {
    TaskModel { id: s.next_id, title, completed: false }
}

/// Insertion: append the new row and advance the counter.
pub open spec fn spec_create(s: StoreModel, title: Seq<char>) -> StoreModel {
    StoreModel { tasks: s.tasks.push(created_task(s, title)), next_id: s.next_id + 1 }
}

/// Partial update: the row carrying the id is merged with the patch, every
/// other row is unchanged, and the counter does not move.
pub open spec fn spec_update(s: StoreModel, id: int, p: PatchModel) -> StoreModel {
    StoreModel {
        tasks: s.tasks.map_values(
            |t: TaskModel| if t.id == id { spec_merge(t, p) } else { t },
        ),
        next_id: s.next_id,
    }
}

/// Deletion: the row carrying the id is removed when present; deleting an
/// absent id changes nothing.
pub open spec fn spec_delete(s: StoreModel, id: int) -> StoreModel {
    if has_id(s.tasks, id) {
        StoreModel { tasks: s.tasks.remove(index_of_id(s.tasks, id)), next_id: s.next_id }
    } else {
        s
    }
}

/// With distinct ids, a position found to carry an id is the position
/// `index_of_id` denotes, so the row there is the row `task_with_id` denotes.
pub proof fn lemma_unique_index(tasks: Seq<TaskModel>, i: int, id: int)
    requires
        distinct_ids(tasks),
        0 <= i < tasks.len(),
        tasks[i].id == id,
    ensures
        has_id(tasks, id),
        index_of_id(tasks, id) == i,
        task_with_id(tasks, id) == tasks[i],
{
    assert(has_id(tasks, id));
    let k = index_of_id(tasks, id);
    assert(0 <= k < tasks.len() && tasks[k].id == id);
    if k != i {
        assert(tasks[k].id != tasks[i].id);
        assert(false);
    }
}

/// The task store: the rows in storage order plus the auto-increment counter.
pub struct Store {
    pub tasks: Vec<Task>,
    pub next_id: i64,
}

impl View for Store {
    type V = StoreModel;

    open spec fn view(&self) -> StoreModel {
        StoreModel {
            tasks: self.tasks@.map_values(|t: Task| t@),
            next_id: self.next_id as int,
        }
    }
}

impl Store {
    /// A freshly created empty store; the first insert receives id 1.
    pub fn new() -> (s: Store)
        ensures
            s@.tasks.len() == 0,
            s@.next_id == 1,
            wf(s@),
    {
        Store { tasks: Vec::new(), next_id: 1 }
    }

    /// Fetch every row, in storage order.
    pub fn list(&self) -> (r: Vec<Task>)
        ensures
            r@.map_values(|t: Task| t@) == self@.tasks,
    {
        let mut r: Vec<Task> = Vec::new();
        let mut i: usize = 0;
        while i < self.tasks.len()
            invariant
                i <= self.tasks.len(),
                r@ == self.tasks@.take(i as int),
            decreases self.tasks.len() - i,
        {
            r.push(self.tasks[i].clone());
            i += 1;
        }
        proof {
            assert(r@ == self.tasks@);
            assert(r@.map_values(|t: Task| t@) == self@.tasks);
        }
        r
    }

    /// Fetch the row carrying the id, when one does.
    pub fn get(&self, id: i64) -> (r: Option<Task>)
        requires
            wf(self@),
        ensures
            r is Some <==> has_id(self@.tasks, id as int),
            r matches Some(t) ==> t@ == task_with_id(self@.tasks, id as int),
    {
        let n = self.tasks.len();
        let mut i: usize = 0;
        while i < n
            invariant
                i <= n,
                n == self.tasks.len(),
                wf(self@),
                forall|j: int| 0 <= j < i ==> (#[trigger] self@.tasks[j]).id != id as int,
            decreases n - i,
        {
            if self.tasks[i].id == id {
                proof {
                    lemma_unique_index(self@.tasks, i as int, id as int);
                }
                return Some(self.tasks[i].clone());
            }
            i += 1;
        }
        proof {
            if has_id(self@.tasks, id as int) {
                let k = index_of_id(self@.tasks, id as int);
                assert(0 <= k < self@.tasks.len() && self@.tasks[k].id == id as int);
                assert(false);
            }
        }
        None
    }

    /// Insert a new row: `completed` is forced to `false`, the store assigns
    /// the next id, and the stored row is echoed back.
    pub fn create(&mut self, title: String) -> (t: Task)
        requires
            wf(old(self)@),
            old(self)@.next_id < i64::MAX as int,
        ensures
            final(self)@ == spec_create(old(self)@, title@),
            wf(final(self)@),
            t@ == created_task(old(self)@, title@),
    {
        let id = self.next_id;
        let t = Task::created(id, title);
        let stored = t.clone();
        self.tasks.push(stored);
        self.next_id = id + 1;
        proof {
            assert(self@.tasks =~= spec_create(old(self)@, title@).tasks);
            lemma_create_then_list(old(self)@, t@.title);
        }
        t
    }

    /// Partial update: fetch the row carrying the id, merge the patch over it,
    /// store the merged row back, and return the merged row. When no row
    /// carries the id the store is left unchanged and `None` is returned.
    pub fn update(&mut self, id: i64, patch: &TaskPatch) -> (r: Option<Task>)
        requires
            wf(old(self)@),
        ensures
            wf(final(self)@),
            r is Some <==> has_id(old(self)@.tasks, id as int),
            r matches Some(t) ==> {
                &&& final(self)@ == spec_update(old(self)@, id as int, patch@)
                &&& t@ == spec_merge(task_with_id(old(self)@.tasks, id as int), patch@)
            },
            r is None ==> final(self)@ == old(self)@,
    {
        let n = self.tasks.len();
        let mut i: usize = 0;
        while i < n
            invariant
                i <= n,
                *self == *old(self),
                n == self.tasks.len(),
                wf(self@),
                forall|j: int| 0 <= j < i ==> (#[trigger] self@.tasks[j]).id != id as int,
            decreases n - i,
        {
            if self.tasks[i].id == id {
                let merged = apply_patch(&self.tasks[i], patch);
                let stored = merged.clone();
                proof {
                    lemma_unique_index(self@.tasks, i as int, id as int);
                }
                self.tasks.set(i, stored);
                proof {
                    let s2 = spec_update(old(self)@, id as int, patch@);
                    assert forall|j: int| 0 <= j < self@.tasks.len() implies self@.tasks[j]
                        == s2.tasks[j] by {
                        if j != i as int {
                            assert(old(self)@.tasks[j].id != old(self)@.tasks[i as int].id);
                        }
                    }
                    assert(self@.tasks =~= s2.tasks);
                    assert forall|j: int| 0 <= j < s2.tasks.len() implies (#[trigger] s2.tasks[j]).id
                        == old(self)@.tasks[j].id by {}
                    assert(ids_below(s2.tasks, s2.next_id));
                    assert(distinct_ids(s2.tasks));
                }
                return Some(merged);
            }
            i += 1;
        }
        proof {
            if has_id(self@.tasks, id as int) {
                let k = index_of_id(self@.tasks, id as int);
                assert(0 <= k < self@.tasks.len() && self@.tasks[k].id == id as int);
                assert(false);
            }
        }
        None
    }

    /// Delete the row carrying the id; deleting an absent id is a silent
    /// no-op, not an error.
    pub fn delete(&mut self, id: i64)
        requires
            wf(old(self)@),
        ensures
            wf(final(self)@),
            final(self)@ == spec_delete(old(self)@, id as int),
    {
        let n = self.tasks.len();
        let mut i: usize = 0;
        while i < n
            invariant
                i <= n,
                *self == *old(self),
                n == self.tasks.len(),
                wf(self@),
                forall|j: int| 0 <= j < i ==> (#[trigger] self@.tasks[j]).id != id as int,
            decreases n - i,
        {
            if self.tasks[i].id == id {
                proof {
                    lemma_unique_index(self@.tasks, i as int, id as int);
                }
                self.tasks.remove(i);
                proof {
                    let s2 = spec_delete(old(self)@, id as int);
                    assert(self@.tasks =~= s2.tasks);
                    assert forall|j: int| 0 <= j < self@.tasks.len() implies 1 <= (
                    #[trigger] self@.tasks[j]).id < self@.next_id by {
                        if j < i as int {
                            assert(self@.tasks[j] == old(self)@.tasks[j]);
                        } else {
                            assert(self@.tasks[j] == old(self)@.tasks[j + 1]);
                        }
                    }
                    assert forall|j: int, k: int|
                        #![trigger self@.tasks[j].id, self@.tasks[k].id]
                        0 <= j < self@.tasks.len() && 0 <= k < self@.tasks.len() && j
                            != k implies self@.tasks[j].id != self@.tasks[k].id by {
                        let j0: int = if j < i as int { j } else { j + 1 };
                        let k0: int = if k < i as int { k } else { k + 1 };
                        assert(self@.tasks[j] == old(self)@.tasks[j0]);
                        assert(self@.tasks[k] == old(self)@.tasks[k0]);
                    }
                }
                return;
            }
            i += 1;
        }
        proof {
            if has_id(self@.tasks, id as int) {
                let k = index_of_id(self@.tasks, id as int);
                assert(0 <= k < self@.tasks.len() && self@.tasks[k].id == id as int);
                assert(false);
            }
        }
    }
}

/// After an insert, a listing shows every old row unchanged plus exactly one
/// new row: it carries the given title, `completed == false`, and a fresh id
/// that no old row carries.
pub proof fn lemma_create_then_list(s: StoreModel, title: Seq<char>)
    requires
        wf(s),
    ensures
        ({
            let s2 = spec_create(s, title);
            &&& wf(s2)
            &&& s2.tasks.len() == s.tasks.len() + 1
            &&& forall|i: int| 0 <= i < s.tasks.len() ==> s2.tasks[i] == s.tasks[i]
            &&& s2.tasks.last() == created_task(s, title)
            &&& !has_id(s.tasks, s2.tasks.last().id)
            &&& forall|i: int|
                0 <= i < s.tasks.len() ==> (#[trigger] s2.tasks[i]).id != s2.tasks.last().id
        }),
{
    let s2 = spec_create(s, title);
    assert(ids_below(s2.tasks, s2.next_id));
    assert(distinct_ids(s2.tasks));
    if has_id(s.tasks, s.next_id) {
        let k = index_of_id(s.tasks, s.next_id);
        assert(0 <= k < s.tasks.len() && s.tasks[k].id == s.next_id);
        assert(false);
    }
}

/// Setting `completed` alone on an existing id leaves its title unchanged and
/// sets the flag; the merged row handed back is exactly the row fetchable for
/// that id afterwards (no field drift), and no other row moves.
pub proof fn lemma_set_completed_then_get(s: StoreModel, id: int)
    requires
        wf(s),
        has_id(s.tasks, id),
    ensures
        ({
            let p = PatchModel { title: None, completed: Some(true) };
            let s2 = spec_update(s, id, p);
            let before = task_with_id(s.tasks, id);
            let after = task_with_id(s2.tasks, id);
            &&& wf(s2)
            &&& has_id(s2.tasks, id)
            &&& after.title == before.title
            &&& after.completed == true
            &&& after == spec_merge(before, p)
            &&& s2.tasks.len() == s.tasks.len()
            &&& forall|i: int|
                0 <= i < s.tasks.len() && (#[trigger] s.tasks[i]).id != id ==> s2.tasks[i]
                    == s.tasks[i]
        }),
{
    let p = PatchModel { title: None, completed: Some(true) };
    let s2 = spec_update(s, id, p);
    let k = index_of_id(s.tasks, id);
    assert(0 <= k < s.tasks.len() && s.tasks[k].id == id);
    assert forall|i: int| 0 <= i < s2.tasks.len() implies (#[trigger] s2.tasks[i]).id
        == s.tasks[i].id by {}
    assert(ids_below(s2.tasks, s2.next_id));
    assert(distinct_ids(s2.tasks));
    assert(s2.tasks[k].id == id);
    lemma_unique_index(s2.tasks, k, id);
    assert(task_with_id(s2.tasks, id) == spec_merge(s.tasks[k], p));
}

/// After a delete, no listed row carries the deleted id; deleting the same id
/// again finds nothing to remove and leaves the store exactly as it was.
pub proof fn lemma_delete_then_list(s: StoreModel, id: int)
    requires
        wf(s),
    ensures
        wf(spec_delete(s, id)),
        !has_id(spec_delete(s, id).tasks, id),
        spec_delete(spec_delete(s, id), id) == spec_delete(s, id),
{
    let s2 = spec_delete(s, id);
    if has_id(s.tasks, id) {
        let k = index_of_id(s.tasks, id);
        assert(0 <= k < s.tasks.len() && s.tasks[k].id == id);
        assert forall|j: int| 0 <= j < s2.tasks.len() implies 1 <= (#[trigger] s2.tasks[j]).id
            < s2.next_id && s2.tasks[j].id != id by {
            if j < k {
                assert(s2.tasks[j] == s.tasks[j]);
            } else {
                assert(s2.tasks[j] == s.tasks[j + 1]);
            }
        }
        assert forall|j: int, l: int|
            #![trigger s2.tasks[j].id, s2.tasks[l].id]
            0 <= j < s2.tasks.len() && 0 <= l < s2.tasks.len() && j != l implies s2.tasks[j].id
            != s2.tasks[l].id by {
            let j0: int = if j < k { j } else { j + 1 };
            let l0: int = if l < k { l } else { l + 1 };
            assert(s2.tasks[j] == s.tasks[j0]);
            assert(s2.tasks[l] == s.tasks[l0]);
        }
        if has_id(s2.tasks, id) {
            let m = index_of_id(s2.tasks, id);
            assert(0 <= m < s2.tasks.len() && s2.tasks[m].id == id);
            assert(false);
        }
    }
    assert(!has_id(s2.tasks, id));
    assert(spec_delete(s2, id) == s2);
}

/// Issuing the same partial update for the same id twice leaves the same
/// store state as issuing it once.
pub proof fn lemma_update_idempotent(s: StoreModel, id: int, p: PatchModel)
    ensures
        spec_update(spec_update(s, id, p), id, p) == spec_update(s, id, p),
{
    let s1 = spec_update(s, id, p);
    let s2 = spec_update(s1, id, p);
    assert forall|i: int| 0 <= i < s.tasks.len() implies s2.tasks[i] == s1.tasks[i] by {
        crate::task::lemma_merge_idempotent(s.tasks[i], p);
    }
    assert(s2.tasks =~= s1.tasks);
}

} // verus!
