use vstd::prelude::*;
use crate::task::{spec_merge, Task, TaskPatch};
use crate::store::{
    created_task, has_id, spec_create, spec_delete, spec_update, task_with_id, wf, Store,
};

verus! {

/// A routed request against the task service, with its body already decoded.
pub enum Request {
    /// `GET /tasks`
    ListTasks,
    /// `POST /tasks` with the decoded `{title}` body.
    CreateTask { title: String },
    /// `PUT /tasks/{id}` with the decoded `{title?, completed?}` body.
    UpdateTask { id: i64, patch: TaskPatch },
    /// `DELETE /tasks/{id}`
    DeleteTask { id: i64 },
}

/// The payload a response carries before it is serialized to JSON.
pub enum Body {
    TaskList(Vec<Task>),
    OneTask(Task),
    Empty,
}

/// An HTTP response: the status code plus the payload to serialize.
pub struct Response {
    pub status: u16,
    pub body: Body,
}

/// The one way a routed request fails at this layer: updating an id that no
/// row carries. The service surfaces it as an abruptly failed request, not as
/// a structured 404.
#[derive(PartialEq, Eq, Structural, Debug)]
pub enum HandlerError {
    TaskNotFound,
}

/// Route one request against the store and build its response.
///
/// Listing answers 200 with every row and moves nothing. Creation answers 201
/// with the stored row (fresh id, given title, `completed == false`). A
/// partial update of an existing id answers 200 with the merged row the store
/// now holds; on an absent id it fails and the store does not move. Deletion
/// answers 204 whether or not the id existed.
pub fn handle(store: &mut Store, req: Request) -> (r: Result<Response, HandlerError>)
    requires
        wf(old(store)@),
        req is CreateTask ==> old(store)@.next_id < i64::MAX as int,
    ensures
        wf(final(store)@),
        match req {
            Request::ListTasks => {
                &&& final(store)@ == old(store)@
                &&& r matches Ok(resp) && resp.status == 200 && (resp.body matches Body::TaskList(
                    ts,
                ) && ts@.map_values(|t: Task| t@) == old(store)@.tasks)
            },
            Request::CreateTask { title } => {
                &&& final(store)@ == spec_create(old(store)@, title@)
                &&& r matches Ok(resp) && resp.status == 201 && (resp.body matches Body::OneTask(t)
                    && t@ == created_task(old(store)@, title@))
            },
            Request::UpdateTask { id, patch } => {
                if has_id(old(store)@.tasks, id as int) {
                    &&& final(store)@ == spec_update(old(store)@, id as int, patch@)
                    &&& r matches Ok(resp) && resp.status == 200 && (resp.body matches Body::OneTask(
                        t,
                    ) && t@ == spec_merge(task_with_id(old(store)@.tasks, id as int), patch@))
                } else {
                    &&& final(store)@ == old(store)@
                    &&& r matches Err(e) && e == HandlerError::TaskNotFound
                }
            },
            Request::DeleteTask { id } => {
                &&& final(store)@ == spec_delete(old(store)@, id as int)
                &&& r matches Ok(resp) && resp.status == 204 && resp.body is Empty
            },
        },
{
    match req {
        Request::ListTasks => Ok(
            Response { status: 200, body: Body::TaskList(store.list()) },
        ),
        Request::CreateTask { title } => {
            let t = store.create(title);
            Ok(Response { status: 201, body: Body::OneTask(t) })
        },
        Request::UpdateTask { id, patch } => match store.update(id, &patch) {
            Some(t) => Ok(Response { status: 200, body: Body::OneTask(t) }),
            None => Err(HandlerError::TaskNotFound),
        },
        Request::DeleteTask { id } => {
            store.delete(id);
            Ok(Response { status: 204, body: Body::Empty })
        },
    }
}

/// The list path's degradation policy: a fetched row set is served as it is,
/// while a failed fetch is served as zero tasks rather than as an error.
pub fn list_fallback(fetched: Option<Vec<Task>>) -> (r: Vec<Task>)
    ensures
        fetched matches Some(v) ==> r@ == v@,
        fetched is None ==> r@.len() == 0,
{
    match fetched {
        Some(v) => v,
        None => Vec::new(),
    }
}

} // verus!
