use todo_api::handlers::{
    create_todo, create_user, delete_todo, delete_user, delete_user_message, get_todos, home_page,
    status_code, update_todo, update_user, HttpStatus,
};
use todo_api::model::{NewUser, TaskPatch, UserPatch};
use todo_api::store::{TaskTable, UserTable};

fn empty_task_body() -> TaskPatch {
    TaskPatch { title: None, completed: None, description: None }
}

#[test]
fn create_task_empty_body_defaults() {
    let mut todos = TaskTable::new();
    let t = create_todo(&mut todos, empty_task_body());
    assert_eq!(t.title, "Untitled");
    assert_eq!(t.completed, false);
    assert_eq!(t.description, "");
    assert!(t.id > 0);
}

#[test]
fn created_task_listed_exactly_once() {
    let mut todos = TaskTable::new();
    let a = create_todo(&mut todos, empty_task_body());
    let b = create_todo(
        &mut todos,
        TaskPatch { title: Some("second".to_string()), completed: None, description: None },
    );
    let c = create_todo(&mut todos, empty_task_body());
    let listed = get_todos(&todos);
    for created in [&a, &b, &c] {
        let occurrences = listed.iter().filter(|t| t.id == created.id).count();
        assert_eq!(occurrences, 1);
    }
}

#[test]
fn delete_nonexistent_task_is_success() {
    let mut todos = TaskTable::new();
    delete_todo(&mut todos, 42);
    assert!(get_todos(&todos).is_empty());
    let t = create_todo(&mut todos, empty_task_body());
    delete_todo(&mut todos, t.id);
    delete_todo(&mut todos, t.id);
    assert!(get_todos(&todos).is_empty());
}

#[test]
fn delete_task_removes_only_that_row() {
    let mut todos = TaskTable::new();
    let a = create_todo(
        &mut todos,
        TaskPatch { title: Some("first".to_string()), completed: None, description: None },
    );
    let b = create_todo(
        &mut todos,
        TaskPatch { title: Some("second".to_string()), completed: None, description: None },
    );
    delete_todo(&mut todos, a.id);
    let listed = get_todos(&todos);
    assert_eq!(listed.len(), 1);
    assert_eq!(listed[0].id, b.id);
    assert_eq!(listed[0].title, "second");
}

#[test]
fn get_todos_returns_all_in_order() {
    let mut todos = TaskTable::new();
    let a = create_todo(
        &mut todos,
        TaskPatch { title: Some("one".to_string()), completed: None, description: None },
    );
    let b = create_todo(
        &mut todos,
        TaskPatch { title: Some("two".to_string()), completed: Some(true), description: None },
    );
    let listed = get_todos(&todos);
    assert_eq!(listed.len(), 2);
    assert_eq!(listed[0].id, a.id);
    assert_eq!(listed[0].title, "one");
    assert_eq!(listed[1].id, b.id);
    assert_eq!(listed[1].title, "two");
    assert_eq!(listed[1].completed, true);
}

#[test]
fn todo_create_then_patch_scenario() {
    let mut todos = TaskTable::new();
    let created = create_todo(
        &mut todos,
        TaskPatch { title: Some("Buy milk".to_string()), completed: None, description: None },
    );
    assert!(created.id > 0);
    assert_eq!(created.title, "Buy milk");
    assert_eq!(created.completed, false);
    assert_eq!(created.description, "");

    let patch = TaskPatch { title: None, completed: Some(true), description: None };
    let updated = update_todo(&mut todos, created.id, &patch).unwrap();
    assert_eq!(updated.completed, true);
    // Omitted fields are preserved on update (the documented choice).
    assert_eq!(updated.title, "Buy milk");
    assert_eq!(updated.description, "");
}

#[test]
fn update_nonexistent_task_not_found() {
    let mut todos = TaskTable::new();
    let patch = TaskPatch { title: Some("ghost".to_string()), completed: None, description: None };
    assert!(update_todo(&mut todos, 7, &patch).is_none());
    assert!(get_todos(&todos).is_empty());
}

#[test]
fn update_task_replaces_named_fields() {
    let mut todos = TaskTable::new();
    let t = create_todo(
        &mut todos,
        TaskPatch {
            title: Some("draft".to_string()),
            completed: None,
            description: Some("old text".to_string()),
        },
    );
    let patch = TaskPatch {
        title: Some("final text".to_string()),
        completed: Some(true),
        description: None,
    };
    let updated = update_todo(&mut todos, t.id, &patch).unwrap();
    assert_eq!(updated.id, t.id);
    assert_eq!(updated.title, "final text");
    assert_eq!(updated.completed, true);
    assert_eq!(updated.description, "old text");
}

#[test]
fn register_user_returns_id_and_name_only() {
    let mut users = UserTable::new();
    let summary = create_user(
        &mut users,
        NewUser { name: "alice".to_string(), password: "secret".to_string() },
    );
    assert!(summary.id > 0);
    assert_eq!(summary.name, "alice");
    // The response carries the id and name alone; in particular the password
    // appears nowhere in it.
    let rendered = format!("id={} name={}", summary.id, summary.name);
    assert!(!rendered.contains("secret"));
}

#[test]
fn update_nonexistent_user_not_found_and_no_row_created() {
    let mut users = UserTable::new();
    let patch = UserPatch { name: Some("bob".to_string()), password: None };
    assert!(update_user(&mut users, 5, &patch).is_none());
    // No row was created as a side effect: the id is still free, and the next
    // registration gets the first id.
    assert!(users.find(5).is_none());
    let summary = create_user(
        &mut users,
        NewUser { name: "carol".to_string(), password: "pw".to_string() },
    );
    assert_eq!(summary.id, 1);
}

#[test]
fn update_user_preserves_password() {
    let mut users = UserTable::new();
    let summary = create_user(
        &mut users,
        NewUser { name: "alice".to_string(), password: "secret".to_string() },
    );
    let patch = UserPatch { name: Some("bob".to_string()), password: None };
    let updated = update_user(&mut users, summary.id, &patch).unwrap();
    assert_eq!(updated.name, "bob");
    assert_eq!(updated.password, "secret");
    // Round trip: a fetch after the update still shows the old password.
    let fetched = users.find(summary.id).unwrap();
    assert_eq!(fetched.password, "secret");
    assert_eq!(fetched.name, "bob");
}

#[test]
fn update_user_replaces_both_fields() {
    let mut users = UserTable::new();
    let summary = create_user(
        &mut users,
        NewUser { name: "alice".to_string(), password: "old".to_string() },
    );
    let patch = UserPatch { name: Some("bob".to_string()), password: Some("new".to_string()) };
    let updated = update_user(&mut users, summary.id, &patch).unwrap();
    assert_eq!(updated.id, summary.id);
    assert_eq!(updated.name, "bob");
    assert_eq!(updated.password, "new");
}

#[test]
fn delete_user_checks_existence() {
    let mut users = UserTable::new();
    assert_eq!(delete_user(&mut users, 3), false);
    assert_eq!(delete_user_message(false), "User not found");
    let summary = create_user(
        &mut users,
        NewUser { name: "dave".to_string(), password: "pw".to_string() },
    );
    assert_eq!(delete_user(&mut users, summary.id), true);
    assert_eq!(delete_user_message(true), "User successfully deleted");
    assert!(users.find(summary.id).is_none());
    assert_eq!(delete_user(&mut users, summary.id), false);
}

#[test]
fn deleted_user_cannot_be_updated() {
    let mut users = UserTable::new();
    let summary = create_user(
        &mut users,
        NewUser { name: "erin".to_string(), password: "pw".to_string() },
    );
    assert!(delete_user(&mut users, summary.id));
    let patch = UserPatch { name: None, password: Some("other".to_string()) };
    assert!(update_user(&mut users, summary.id, &patch).is_none());
}

#[test]
fn ids_are_not_reused_after_delete() {
    let mut todos = TaskTable::new();
    let a = create_todo(&mut todos, empty_task_body());
    delete_todo(&mut todos, a.id);
    let b = create_todo(&mut todos, empty_task_body());
    assert_ne!(a.id, b.id);
}

#[test]
fn home_page_text() {
    assert_eq!(home_page(), "Welcome to the Todo API");
}

#[test]
fn status_codes_match_table() {
    assert_eq!(status_code(&HttpStatus::Success), 200);
    assert_eq!(status_code(&HttpStatus::Created), 201);
    assert_eq!(status_code(&HttpStatus::NoContent), 204);
    assert_eq!(status_code(&HttpStatus::NotFound), 404);
    assert_eq!(status_code(&HttpStatus::InternalError), 500);
}

#[test]
fn task_defaults_applied_per_field() {
    let mut todos = TaskTable::new();
    let t = create_todo(
        &mut todos,
        TaskPatch { title: Some("named".to_string()), completed: None, description: None },
    );
    assert_eq!(t.title, "named");
    assert_eq!(t.completed, false);
    assert_eq!(t.description, "");
    let u = create_todo(
        &mut todos,
        TaskPatch {
            title: None,
            completed: Some(true),
            description: Some("notes".to_string()),
        },
    );
    assert_eq!(u.title, "Untitled");
    assert_eq!(u.completed, true);
    assert_eq!(u.description, "notes");
}
