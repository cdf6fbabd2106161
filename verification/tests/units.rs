use task_service::http::list_fallback;
use task_service::store::Store;
use task_service::task::{apply_patch, Task, TaskPatch};

#[test]
fn created_task_forces_completed_false() {
    let t = Task::created(5, String::from("anything"));
    assert_eq!(t.id, 5);
    assert_eq!(t.title, "anything");
    assert!(!t.completed);
}

#[test]
fn apply_patch_overrides_present_fields_only() {
    let t = Task { id: 3, title: String::from("a"), completed: false };

    let both = apply_patch(
        &t,
        &TaskPatch { title: Some(String::from("b")), completed: Some(true) },
    );
    assert_eq!(both.id, 3);
    assert_eq!(both.title, "b");
    assert!(both.completed);

    let title_only = apply_patch(
        &t,
        &TaskPatch { title: Some(String::from("c")), completed: None },
    );
    assert_eq!(title_only.title, "c");
    assert!(!title_only.completed);

    let completed_only = apply_patch(&t, &TaskPatch { title: None, completed: Some(true) });
    assert_eq!(completed_only.title, "a");
    assert!(completed_only.completed);

    let neither = apply_patch(&t, &TaskPatch { title: None, completed: None });
    assert_eq!(neither.id, 3);
    assert_eq!(neither.title, "a");
    assert!(!neither.completed);
}

#[test]
fn list_fallback_serves_fetched_rows_as_is() {
    let rows = vec![Task { id: 1, title: String::from("kept"), completed: true }];
    let served = list_fallback(Some(rows));
    assert_eq!(served.len(), 1);
    assert_eq!(served[0].id, 1);
    assert_eq!(served[0].title, "kept");
    assert!(served[0].completed);
}

#[test]
fn list_fallback_turns_a_failed_fetch_into_zero_tasks() {
    let served = list_fallback(None);
    assert!(served.is_empty());
}

#[test]
fn empty_title_is_accepted_on_create() {
    // The store enforces only that a title is present, not that it is
    // non-empty.
    let mut s = Store::new();
    let t = s.create(String::new());
    assert_eq!(t.id, 1);
    assert_eq!(t.title, "");
    assert!(!t.completed);
    assert_eq!(s.list().len(), 1);
}

#[test]
fn store_get_finds_only_existing_ids() {
    let mut s = Store::new();
    s.create(String::from("here"));
    assert!(s.get(1).is_some());
    assert!(s.get(2).is_none());
    let t = s.get(1).unwrap();
    assert_eq!(t.title, "here");
}

#[test]
fn store_delete_is_a_no_op_on_absent_ids() {
    let mut s = Store::new();
    s.create(String::from("stays"));
    s.delete(99);
    let listed = s.list();
    assert_eq!(listed.len(), 1);
    assert_eq!(listed[0].title, "stays");
}
