//! Relations among the handlers that hold of every table state, stated over
//! the same spec vocabulary the handlers' contracts use and proved once.

use vstd::prelude::*;

use crate::model::{
    default_description, default_title, task_from_create, user_patched, TaskPatchView, TaskView,
    UserPatchView, UserView,
};
use crate::store::{
    after_delete_task, count_of, distinct, index_of_id, lemma_after_delete_gone,
    lemma_distinct_count, task_ids, user_ids, user_row, TaskTable,
};

verus! {

/// A create whose body names no field yields the documented defaults — title
/// "Untitled", not completed, empty description — under whatever fresh id the
/// table assigns; `create_todo` ensures that id is positive and carried by no
/// prior row.
pub proof fn lemma_create_empty_body_defaults(id: int, p: TaskPatchView)
    requires
        p.title is None,
        p.completed is None,
        p.description is None,
    ensures
        task_from_create(id, p) == (TaskView {
            id,
            title: default_title(),
            completed: false,
            description: default_description(),
        }),
{
}

/// Deleting a task id is idempotent: the first `delete_todo` already answers
/// no-content whatever the id named and leaves no row carrying it, so a
/// second delete of the same id leaves the table exactly as the first did.
pub proof fn lemma_task_delete_idempotent(s: Seq<TaskView>, id: int)
    requires
        distinct(task_ids(s)),
    ensures
        after_delete_task(after_delete_task(s, id), id) == after_delete_task(s, id),
{
    lemma_after_delete_gone(s, id);
}

/// A task created then listed appears exactly once. `create_todo` leaves the
/// table well-formed and its id column containing the fresh id; `get_todos`
/// returns exactly the table's rows; and in a well-formed table any id the id
/// column contains occurs in it exactly once.
pub proof fn lemma_created_listed_once(todos: &TaskTable, id: int)
    requires
        todos.wf(),
        task_ids(todos@).contains(id),
    ensures
        count_of(task_ids(todos@), id) == 1,
{
    todos.lemma_wf();
    lemma_distinct_count(task_ids(todos@), id);
}

/// Updating an existing user with a body that names no password preserves the
/// stored password. The premises are exactly what `update_user` ensures when
/// it returns a row: a subsequent fetch — which returns `user_row` of the
/// updated table — shows the updated row, its password unchanged.
pub proof fn lemma_update_preserves_password(
    pre: Seq<UserView>,
    post: Seq<UserView>,
    u: UserView,
    id: int,
    p: UserPatchView,
)
    requires
        distinct(user_ids(pre)),
        user_ids(pre).contains(id),
        p.password is None,
        u == user_patched(user_row(pre, id), p),
        post == pre.update(index_of_id(user_ids(pre), id), u),
    ensures
        user_ids(post).contains(id),
        user_row(post, id) == u,
        user_row(post, id).password == user_row(pre, id).password,
{
    let idx = index_of_id(user_ids(pre), id);
    assert(0 <= idx < user_ids(pre).len() && user_ids(pre)[idx] == id);
    assert(user_ids(pre)[idx] == pre[idx].id);
    assert(user_ids(post) =~= user_ids(pre)) by {
        assert forall|k: int| 0 <= k < post.len() implies user_ids(post)[k] == user_ids(pre)[k] by {
            assert(user_ids(post)[k] == post[k].id);
            assert(user_ids(pre)[k] == pre[k].id);
        }
    }
    assert(user_ids(post).contains(id));
    assert(index_of_id(user_ids(post), id) == idx);
    assert(user_row(post, id) == post[idx]);
}

} // verus!
