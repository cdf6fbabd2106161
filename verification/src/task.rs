use vstd::prelude::*;

verus! {

/// Mathematical value of a stored task: its id, title text, and completion flag.
pub ghost struct TaskModel {
    pub id: int,
    pub title: Seq<char>,
    pub completed: bool,
}

/// A task row as stored and served: a unique id assigned by the store,
/// a title, and a completion flag.
pub struct Task {
    pub id: i64,
    pub title: String,
    pub completed: bool,
}

impl View for Task {
    type V = TaskModel;

    open spec fn view(&self) -> TaskModel {
        TaskModel { id: self.id as int, title: self.title@, completed: self.completed }
    }
}

impl Clone for Task {
    fn clone(&self) -> (r: Self)
        ensures
            r == *self,
    {
        Task { id: self.id, title: self.title.clone(), completed: self.completed }
    }
}

impl Task {
    /// The row produced for a newly inserted task: the store-assigned id, the
    /// client's title, and `completed` forced to `false` regardless of input.
    pub fn created(id: i64, title: String) -> (t: Task)
        ensures
            t@ == (TaskModel { id: id as int, title: title@, completed: false }),
    {
        Task { id, title, completed: false }
    }
}

/// A partial update: each field present in the patch replaces the stored
/// value, each absent field leaves the stored value in place.
pub struct TaskPatch {
    pub title: Option<String>,
    pub completed: Option<bool>,
}

/// Mathematical value of a partial update.
pub ghost struct PatchModel {
    pub title: Option<Seq<char>>,
    pub completed: Option<bool>,
}

impl View for TaskPatch {
    type V = PatchModel;

    open spec fn view(&self) -> PatchModel {
        PatchModel {
            title: match self.title {
                Some(t) => Some(t@),
                None => None,
            },
            completed: self.completed,
        }
    }
}

/// The merged row: fields present in the patch override the fetched row,
/// absent fields keep the fetched values; the id never changes.
pub open spec fn spec_merge(t: TaskModel, p: PatchModel) -> TaskModel {
    TaskModel {
        id: t.id,
        title: match p.title {
            Some(s) => s,
            None => t.title,
        },
        completed: match p.completed {
            Some(b) => b,
            None => t.completed,
        },
    }
}

/// Apply a partial update over a fetched row, yielding the merged row.
pub fn apply_patch(t: &Task, p: &TaskPatch) -> (r: Task)
    ensures
        r@ == spec_merge(t@, p@),
{
    let title = match &p.title {
        Some(s) => s.clone(),
        None => t.title.clone(),
    };
    let completed = match p.completed {
        Some(b) => b,
        None => t.completed,
    };
    Task { id: t.id, title, completed }
}

/// Merging the same patch twice over a row gives the same row as merging it
/// once: every field the patch carries is overwritten with the same value
/// again, and every field it omits is left in place both times.
pub proof fn lemma_merge_idempotent(t: TaskModel, p: PatchModel)
    ensures
        spec_merge(spec_merge(t, p), p) == spec_merge(t, p),
{
}

} // verus!
