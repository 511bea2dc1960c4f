//! One function per route. Each takes the table it drives and the parsed
//! request, performs the same statements the route performs, and states the
//! whole effect: which rows change, what the response carries, and exactly
//! when each outcome happens.
//!
//! Partial updates preserve omitted fields for tasks as well as for users
//! (preserve-on-omit), and a task update of an absent id answers not-found:
//! both choices are deliberate and documented here.

use vstd::pervasive::unreached;
use vstd::prelude::*;

use crate::model::{
    apply_task_defaults, task_from_create, task_patched, user_patched, NewUser, Task, TaskPatch,
    User, UserPatch, UserSummary,
};
use crate::store::{
    index_of_id, task_ids, task_row, tasks_view, user_ids, user_row, TaskTable, UserTable,
};

verus! {

/// The statuses the service answers with.
#[derive(Clone, Copy, Debug, PartialEq, Eq, Structural)]
pub enum HttpStatus {
    Success,
    Created,
    NoContent,
    NotFound,
    InternalError,
}

/// The numeric code of each status.
pub open spec fn status_code_spec(s: HttpStatus) -> u16 {
    match s {
        HttpStatus::Success => 200,
        HttpStatus::Created => 201,
        HttpStatus::NoContent => 204,
        HttpStatus::NotFound => 404,
        HttpStatus::InternalError => 500,
    }
}

/// The numeric code a status is sent as.
pub fn status_code(s: &HttpStatus) -> (c: u16)
    ensures
        c == status_code_spec(*s),
{
    match s {
        HttpStatus::Success => 200,
        HttpStatus::Created => 201,
        HttpStatus::NoContent => 204,
        HttpStatus::NotFound => 404,
        HttpStatus::InternalError => 500,
    }
}

/// GET `/`: the fixed welcome line; no inputs, no side effects.
pub fn home_page() -> (s: String)
    ensures
        s@ == "Welcome to the Todo API"@,
{
    "Welcome to the Todo API".to_owned()
}

/// GET `/todos`: every task row, in storage order, nothing else. Answered
/// with `Success` (200).
pub fn get_todos(todos: &TaskTable) -> (r: Vec<Task>)
    requires
        todos.wf(),
    ensures
        tasks_view(r@) == todos@,
{
    todos.select_all()
}

/// POST `/todos`: inserts one row built from the body, absent fields replaced
/// by their defaults before insertion, under a fresh positive id no existing
/// row carries; returns the created row. Answered with `Created`.
pub fn create_todo(todos: &mut TaskTable, body: TaskPatch) -> (t: Task)
    requires
        old(todos).wf(),
        old(todos).can_insert(),
    ensures
        final(todos).wf(),
        final(todos).next_id_spec() == old(todos).next_id_spec() + 1,
        t@ == task_from_create(old(todos).next_id_spec(), body@),
        1 <= t@.id,
        !task_ids(old(todos)@).contains(t@.id),
        final(todos)@ == old(todos)@.push(t@),
        task_ids(final(todos)@) == task_ids(old(todos)@).push(t@.id),
        task_ids(final(todos)@).contains(t@.id),
{
    let (title, completed, description) = apply_task_defaults(body);
    todos.insert_row(title, completed, description)
}

/// PATCH `/todos/{id}`: updates the row carrying the id — fields the body
/// names replace the stored ones, omitted fields keep their prior values —
/// then fetches and returns the updated row (`Success`). When no row carries the
/// id, nothing changes and the answer is `NotFound`.
pub fn update_todo(todos: &mut TaskTable, todo_id: i32, body: &TaskPatch) -> (r: Option<Task>)
    requires
        old(todos).wf(),
    ensures
        final(todos).wf(),
        final(todos).next_id_spec() == old(todos).next_id_spec(),
        match r {
            Some(t) => {
                &&& task_ids(old(todos)@).contains(todo_id as int)
                &&& t@ == task_patched(task_row(old(todos)@, todo_id as int), body@)
                &&& final(todos)@ == old(todos)@.update(
                    index_of_id(task_ids(old(todos)@), todo_id as int),
                    t@,
                )
            },
            None => {
                &&& !task_ids(old(todos)@).contains(todo_id as int)
                &&& final(todos)@ == old(todos)@
            },
        },
{
    let n = todos.coalesce_update_row(todo_id, body);
    if n == 0 {
        return None;
    }
    proof {
        let ids0 = task_ids(old(todos)@);
        let idx0 = index_of_id(ids0, todo_id as int);
        assert(0 <= idx0 < ids0.len() && ids0[idx0] == todo_id as int);
    }
    todos.find(todo_id)
}

/// DELETE `/todos/{id}`: removes the row carrying the id if any; answered
/// with `NoContent` whether or not a row existed, and afterward no row
/// carries the id.
pub fn delete_todo(todos: &mut TaskTable, todo_id: i32)
    requires
        old(todos).wf(),
    ensures
        final(todos).wf(),
        final(todos).next_id_spec() == old(todos).next_id_spec(),
        final(todos)@ == crate::store::after_delete_task(old(todos)@, todo_id as int),
        !task_ids(final(todos)@).contains(todo_id as int),
{
    let _n = todos.delete_row(todo_id);
}

/// POST `/register`: inserts one user row under a fresh positive id and
/// returns the id and name only — the password is never echoed back.
/// Answered with `Created`.
pub fn create_user(users: &mut UserTable, body: NewUser) -> (r: UserSummary)
    requires
        old(users).wf(),
        old(users).can_insert(),
    ensures
        final(users).wf(),
        final(users).next_id_spec() == old(users).next_id_spec() + 1,
        r.id as int == old(users).next_id_spec(),
        r.name@ == body.name@,
        1 <= r.id,
        !user_ids(old(users)@).contains(r.id as int),
        final(users)@ == old(users)@.push(
            crate::model::UserView { id: r.id as int, name: body.name@, password: body.password@ },
        ),
        user_ids(final(users)@) == user_ids(old(users)@).push(r.id as int),
        user_ids(final(users)@).contains(r.id as int),
{
    let created = users.insert_row(body.name, body.password);
    proof {
        assert(user_ids(users@) =~= user_ids(old(users)@).push(created@.id));
        assert(user_ids(users@).last() == created@.id);
        assert(user_ids(users@).contains(created@.id));
    }
    let fetched = users.find(created.id);
    match fetched {
        Some(row) => {
            proof {
                users.lemma_wf();
                crate::store::lemma_index_of_id(
                    user_ids(users@),
                    created@.id,
                    user_ids(users@).len() - 1,
                );
            }
            UserSummary { id: row.id, name: row.name }
        },
        None => unreached(),
    }
}

/// PATCH `/user/{id}`: when a row carries the id, updates it — fields the
/// body names replace the stored ones, omitted fields are preserved — and
/// returns the updated row (`Success`). When no row carries the id, nothing
/// changes, no row is created, and the answer is `NotFound`.
pub fn update_user(users: &mut UserTable, user_id: i32, body: &UserPatch) -> (r: Option<User>)
    requires
        old(users).wf(),
    ensures
        final(users).wf(),
        final(users).next_id_spec() == old(users).next_id_spec(),
        match r {
            Some(u) => {
                &&& user_ids(old(users)@).contains(user_id as int)
                &&& u@ == user_patched(user_row(old(users)@, user_id as int), body@)
                &&& final(users)@ == old(users)@.update(
                    index_of_id(user_ids(old(users)@), user_id as int),
                    u@,
                )
            },
            None => {
                &&& !user_ids(old(users)@).contains(user_id as int)
                &&& final(users)@ == old(users)@
            },
        },
{
    let existing = users.find(user_id);
    if existing.is_none() {
        return None;
    }
    let n = users.coalesce_update_row(user_id, body);
    if n == 0 {
        // Defensive affected-row check, kept although the existence check
        // above already rules this out.
        return None;
    }
    proof {
        let ids0 = user_ids(old(users)@);
        let idx0 = index_of_id(ids0, user_id as int);
        assert(0 <= idx0 < ids0.len() && ids0[idx0] == user_id as int);
    }
    users.find(user_id)
}

/// DELETE `/users/{user_id}`: when a row carries the id, removes it and
/// reports success (`Success` with a confirmation line); otherwise nothing changes
/// and the answer is `NotFound`.
pub fn delete_user(users: &mut UserTable, user_id: i32) -> (found: bool)
    requires
        old(users).wf(),
    ensures
        final(users).wf(),
        final(users).next_id_spec() == old(users).next_id_spec(),
        found == user_ids(old(users)@).contains(user_id as int),
        final(users)@ == crate::store::after_delete_user(old(users)@, user_id as int),
        !user_ids(final(users)@).contains(user_id as int),
{
    match users.find(user_id) {
        None => false,
        Some(_existing) => {
            let _n = users.delete_row(user_id);
            true
        },
    }
}

/// The plain-text bodies the user routes answer with: the confirmation when a
/// delete went through, the not-found line when the id names no row.
pub fn delete_user_message(found: bool) -> (s: String)
    ensures
        found ==> s@ == "User successfully deleted"@,
        !found ==> s@ == "User not found"@,
{
    if found {
        "User successfully deleted".to_owned()
    } else {
        "User not found".to_owned()
    }
}

} // verus!
